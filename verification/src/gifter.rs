//! Gifting fruit from one member to another.

use vstd::prelude::*;

use crate::community::{Community, CommunityModel};
use crate::event_log::{mutation_models, MutationModel, StateMutation};
use crate::fruit::{Fruit, FruitModel};
use crate::ids::MemberId;

verus! {

/// The mutations of a gift of one `fruit` from `sender_id` to `recipient_id`
/// in `c`: the removal from the sender and then the addition to the
/// recipient if the sender is a member who holds the fruit, and none otherwise.
pub open spec fn gift_models(c: CommunityModel, sender_id: MemberId, recipient_id: MemberId, fruit: FruitModel) -> Seq<MutationModel> {
    if c.members.dom().contains(sender_id) && c.members[sender_id].bag.count(fruit) > 0 {
        seq![
            MutationModel::RemoveFruitFromMember { member_id: sender_id, fruit },
            MutationModel::AddFruitToMember { member_id: recipient_id, fruit },
        ]
    } else {
        Seq::<MutationModel>::empty()
    }
}

/// Computes the effect of a gift of one `fruit` from `sender_id` to `recipient_id`.
///
/// Returns the removal from the sender followed by the addition to the
/// recipient if the sender is a member who holds the fruit, and no mutations
/// (a no-op) otherwise.
pub fn compute_gift(community: &Community, sender_id: MemberId, recipient_id: MemberId, fruit: Fruit) -> (r: Vec<StateMutation>)
    requires
        community.wf(),
    ensures
        mutation_models(r@) == gift_models(community@, sender_id, recipient_id, fruit@),
{
    let sender = match community.member(sender_id) {
        Some(m) => m,
        None => {
            let r: Vec<StateMutation> = Vec::new();
            assert(mutation_models(r@) =~= Seq::<MutationModel>::empty());
            return r;
        },
    };
    if sender.bag.count(fruit) == 0 {
        let r: Vec<StateMutation> = Vec::new();
        assert(mutation_models(r@) =~= Seq::<MutationModel>::empty());
        return r;
    }
    let mut r: Vec<StateMutation> = Vec::new();
    r.push(StateMutation::RemoveFruitFromMember { member_id: sender_id, fruit });
    r.push(StateMutation::AddFruitToMember { member_id: recipient_id, fruit });
    assert(mutation_models(r@) =~= seq![
        MutationModel::RemoveFruitFromMember { member_id: sender_id, fruit: fruit@ },
        MutationModel::AddFruitToMember { member_id: recipient_id, fruit: fruit@ },
    ]);
    r
}

} // verus!
