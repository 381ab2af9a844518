//! The mutations of a fruit grant, assembled from the fruits drawn for each
//! member.
//!
//! Which fruits a member receives is drawn at random with weights that depend
//! on luck; the draws are made by the caller and handed in here.

use vstd::prelude::*;
use vstd::multiset::Multiset;

use crate::community::{Community, CommunityModel};
use crate::event_log::{apply_mutation, apply_mutations, fruit_models, mutation_models, MutationModel, StateMutation};
use crate::fruit::{Fruit, FruitModel};
use crate::ids::MemberId;
use crate::member::{Member, MemberModel};

verus! {

broadcast use vstd::seq_lib::group_to_multiset_ensures, vstd::multiset::group_multiset_axioms;

/// The default weighting of fruit draws by luck: standard fruits become less
/// likely and rare and exotic fruits more likely as luck rises. The weights are
/// real numbers, so they are computed where the draws are made.
pub struct DefaultFruitWeights;

/// One addition of each of `fruits`, in order, to the bag of member `id`.
pub open spec fn additions(id: MemberId, fruits: Seq<FruitModel>) -> Seq<MutationModel> {
    fruits.map_values(|f: FruitModel| MutationModel::AddFruitToMember { member_id: id, fruit: f })
}

/// The mutations of a grant: the members `ids` in order, each receiving the
/// fruits drawn for it.
pub open spec fn grant_models(ids: Seq<MemberId>, draws: Seq<Seq<FruitModel>>) -> Seq<MutationModel>
    decreases ids.len(),
{
    if ids.len() == 0 || draws.len() == 0 {
        Seq::empty()
    } else {
        grant_models(ids.drop_last(), draws.drop_last()) + additions(ids.last(), draws.last())
    }
}

/// `c` with `extra` added to the bag of member `id`, if present.
pub open spec fn with_fruits(c: CommunityModel, id: MemberId, extra: Multiset<FruitModel>) -> CommunityModel {
    if c.members.dom().contains(id) {
        CommunityModel {
            members: c.members.insert(
                id,
                MemberModel { bag: c.members[id].bag.add(extra), ..c.members[id] },
            ),
            ..c
        }
    } else {
        c
    }
}

/// Adding fruits to a member one by one adds them all to its bag and changes
/// nothing else.
pub proof fn lemma_additions(c: CommunityModel, id: MemberId, fruits: Seq<FruitModel>)
    ensures
        apply_mutations(c, additions(id, fruits)) == with_fruits(c, id, fruits.to_multiset()),
    decreases fruits.len(),
{
    let ms = additions(id, fruits);
    if fruits.len() == 0 {
        assert(ms =~= Seq::<MutationModel>::empty());
        if c.members.dom().contains(id) {
            assert(c.members[id].bag.add(fruits.to_multiset()) =~= c.members[id].bag);
            assert(c.members.insert(id, MemberModel { bag: c.members[id].bag, ..c.members[id] })
                =~= c.members);
        }
    } else {
        let p = fruits.drop_last();
        lemma_additions(c, id, p);
        assert(ms.drop_last() =~= additions(id, p));
        let before = with_fruits(c, id, p.to_multiset());
        assert(fruits =~= p.push(fruits.last()));
        assert(fruits.to_multiset() =~= p.to_multiset().insert(fruits.last()));
        if c.members.dom().contains(id) {
            let m = c.members[id];
            assert(m.bag.add(p.to_multiset()).insert(fruits.last()) =~= m.bag.add(
                fruits.to_multiset(),
            ));
            assert(apply_mutation(before, ms.last()).members =~= with_fruits(
                c,
                id,
                fruits.to_multiset(),
            ).members);
        }
    }
}

/// Whether the members `ids` are distinct members of `c`.
pub open spec fn distinct_members(c: CommunityModel, ids: Seq<MemberId>) -> bool {
    &&& forall|i: int| 0 <= i < ids.len() ==> c.members.dom().contains(#[trigger] ids[i])
    &&& forall|i: int, j: int| 0 <= i < j < ids.len() ==> ids[i] != ids[j]
}

/// The fruits drawn for member `k`: those at its position in `ids`, or none.
pub open spec fn drawn_for(ids: Seq<MemberId>, draws: Seq<Seq<FruitModel>>, k: MemberId) -> Multiset<FruitModel> {
    if exists|i: int| 0 <= i < ids.len() && ids[i] == k {
        draws[choose|i: int| 0 <= i < ids.len() && ids[i] == k].to_multiset()
    } else {
        Multiset::empty()
    }
}

/// A grant to distinct members adds to each member's bag exactly the fruits
/// drawn for it, and changes nothing else.
pub proof fn lemma_grant_adds_draws(c: CommunityModel, ids: Seq<MemberId>, draws: Seq<Seq<FruitModel>>)
    requires
        distinct_members(c, ids),
        draws.len() == ids.len(),
    ensures
        ({
            let r = apply_mutations(c, grant_models(ids, draws));
            &&& r.id == c.id
            &&& r.luck == c.luck
            &&& r.version == c.version
            &&& r.members.dom() == c.members.dom()
            &&& forall|k: MemberId| #[trigger] r.members.dom().contains(k) ==> r.members[k] == MemberModel {
                bag: c.members[k].bag.add(drawn_for(ids, draws, k)),
                ..c.members[k]
            }
        }),
    decreases ids.len(),
{
    let r = apply_mutations(c, grant_models(ids, draws));
    if ids.len() == 0 {
        assert(grant_models(ids, draws) =~= Seq::<MutationModel>::empty());
        assert forall|k: MemberId| #[trigger] r.members.dom().contains(k) implies r.members[k] == MemberModel {
            bag: c.members[k].bag.add(drawn_for(ids, draws, k)),
            ..c.members[k]
        } by {
            assert(c.members[k].bag.add(Multiset::empty()) =~= c.members[k].bag);
        }
        assert(r.members.dom() =~= c.members.dom());
    } else {
        let n = ids.len() - 1;
        let pi = ids.drop_last();
        let pd = draws.drop_last();
        assert(distinct_members(c, pi)) by {
            assert forall|i: int| 0 <= i < pi.len() implies c.members.dom().contains(#[trigger] pi[i]) by {
                assert(pi[i] == ids[i]);
            }
        }
        lemma_grant_adds_draws(c, pi, pd);
        let mid = apply_mutations(c, grant_models(pi, pd));
        crate::event_log::lemma_apply_mutations_concat(c, grant_models(pi, pd), additions(ids[n], draws[n]));
        lemma_additions(mid, ids[n], draws[n]);
        assert(c.members.dom().contains(ids[n]));
        assert(mid.members.dom().contains(ids[n]));
        assert(r.members.dom() =~= c.members.dom());
        assert forall|k: MemberId| #[trigger] r.members.dom().contains(k) implies r.members[k] == MemberModel {
            bag: c.members[k].bag.add(drawn_for(ids, draws, k)),
            ..c.members[k]
        } by {
            if k == ids[n] {
                assert(!(exists|i: int| 0 <= i < pi.len() && pi[i] == k)) by {
                    if exists|i: int| 0 <= i < pi.len() && pi[i] == k {
                        let i = choose|i: int| 0 <= i < pi.len() && pi[i] == k;
                        assert(ids[i] == ids[n]);
                    }
                }
                assert(drawn_for(pi, pd, k) =~= Multiset::empty());
                let j = choose|i: int| 0 <= i < ids.len() && ids[i] == k;
                assert(j == n);
                assert(c.members[k].bag.add(Multiset::empty()) =~= c.members[k].bag);
            } else {
                if exists|i: int| 0 <= i < pi.len() && pi[i] == k {
                    let i = choose|i: int| 0 <= i < pi.len() && pi[i] == k;
                    assert(ids[i] == k);
                    let j = choose|j: int| 0 <= j < ids.len() && ids[j] == k;
                    assert(j == i) by {
                        if j != i {
                            if j < i {
                                assert(ids[j] != ids[i]);
                            } else {
                                assert(ids[i] != ids[j]);
                            }
                        }
                    }
                    assert(pd[i] == draws[i]);
                } else {
                    assert(!(exists|i: int| 0 <= i < ids.len() && ids[i] == k)) by {
                        if exists|i: int| 0 <= i < ids.len() && ids[i] == k {
                            let i = choose|i: int| 0 <= i < ids.len() && ids[i] == k;
                            assert(pi[i] == k);
                        }
                    }
                }
            }
        }
    }
}

/// How many of `ms` add a fruit to member `k`.
pub open spec fn additions_to(ms: Seq<MutationModel>, k: MemberId) -> nat
    decreases ms.len(),
{
    if ms.len() == 0 {
        0
    } else {
        additions_to(ms.drop_last(), k) + match ms.last() {
            MutationModel::AddFruitToMember { member_id, .. } => if member_id == k {
                1nat
            } else {
                0nat
            },
            _ => 0nat,
        }
    }
}

proof fn lemma_additions_to_concat(a: Seq<MutationModel>, b: Seq<MutationModel>, k: MemberId)
    ensures
        additions_to(a + b, k) == additions_to(a, k) + additions_to(b, k),
    decreases b.len(),
{
    if b.len() == 0 {
        assert(a + b =~= a);
    } else {
        lemma_additions_to_concat(a, b.drop_last(), k);
        assert((a + b).drop_last() =~= a + b.drop_last());
        assert((a + b).last() == b.last());
    }
}

proof fn lemma_additions_to_additions(id: MemberId, fruits: Seq<FruitModel>, k: MemberId)
    ensures
        additions_to(additions(id, fruits), k) == if id == k {
            fruits.len()
        } else {
            0
        },
    decreases fruits.len(),
{
    if fruits.len() > 0 {
        lemma_additions_to_additions(id, fruits.drop_last(), k);
        assert(additions(id, fruits).drop_last() =~= additions(id, fruits.drop_last()));
    }
}

/// Whether `m` adds to member `ids[j]`, for some `j`, a fruit drawn for it.
pub open spec fn adds_drawn_fruit(m: MutationModel, ids: Seq<MemberId>, draws: Seq<Seq<FruitModel>>) -> bool {
    m matches MutationModel::AddFruitToMember { member_id, fruit } && exists|j: int|
        0 <= j < ids.len() && ids[j] == member_id && draws[j].contains(fruit)
}

/// A grant of `n` fruits to each of the distinct members `ids` makes `n`
/// additions to each of them and none to anyone else, `n` times the number of
/// members in all, and each one adds to a member a fruit drawn for it.
pub proof fn lemma_grant_counts(ids: Seq<MemberId>, draws: Seq<Seq<FruitModel>>, n: nat)
    requires
        forall|i: int, j: int| 0 <= i < j < ids.len() ==> ids[i] != ids[j],
        draws.len() == ids.len(),
        forall|i: int| 0 <= i < draws.len() ==> (#[trigger] draws[i]).len() == n,
    ensures
        grant_models(ids, draws).len() == n * ids.len(),
        forall|k: MemberId|
            #[trigger] additions_to(grant_models(ids, draws), k) == if ids.contains(k) {
                n
            } else {
                0
            },
        forall|i: int|
            0 <= i < grant_models(ids, draws).len() ==> adds_drawn_fruit(
                #[trigger] grant_models(ids, draws)[i],
                ids,
                draws,
            ),
    decreases ids.len(),
{
    let ms = grant_models(ids, draws);
    if ids.len() == 0 {
        assert(ms =~= Seq::<MutationModel>::empty());
    } else {
        let last = ids.len() - 1;
        let pi = ids.drop_last();
        let pd = draws.drop_last();
        assert forall|i: int| 0 <= i < pd.len() implies (#[trigger] pd[i]).len() == n by {
            assert(pd[i] == draws[i]);
        }
        lemma_grant_counts(pi, pd, n);
        let front = grant_models(pi, pd);
        let tail = additions(ids[last], draws[last]);
        assert(ms == front + tail);
        assert(ms.len() == n * pi.len() + n);
        assert(n * pi.len() + n == n * ids.len()) by (nonlinear_arith)
            requires
                pi.len() + 1 == ids.len(),
        ;
        assert forall|k: MemberId|
            #[trigger] additions_to(ms, k) == if ids.contains(k) {
                n
            } else {
                0
            } by {
            lemma_additions_to_concat(front, tail, k);
            lemma_additions_to_additions(ids[last], draws[last], k);
            if pi.contains(k) {
                let j = choose|j: int| 0 <= j < pi.len() && pi[j] == k;
                assert(ids[j] == k);
                assert(ids[last] != k);
            }
            if ids.contains(k) && !pi.contains(k) {
                let j = choose|j: int| 0 <= j < ids.len() && ids[j] == k;
                if j < last {
                    assert(pi[j] == k);
                }
            }
            if !ids.contains(k) {
                assert(ids[last] != k);
                if pi.contains(k) {
                    let j = choose|j: int| 0 <= j < pi.len() && pi[j] == k;
                    assert(ids[j] == k);
                }
            }
        }
        assert forall|i: int| 0 <= i < ms.len() implies adds_drawn_fruit(#[trigger] ms[i], ids, draws) by {
            if i < front.len() {
                assert(ms[i] == front[i]);
                assert(adds_drawn_fruit(front[i], pi, pd));
                let m = front[i];
                let j = choose|j: int|
                    0 <= j < pi.len() && pi[j] == m->AddFruitToMember_member_id && pd[j].contains(
                        m->AddFruitToMember_fruit,
                    );
                assert(ids[j] == pi[j] && draws[j] == pd[j]);
            } else {
                let t = i - front.len();
                assert(ms[i] == tail[t]);
                assert(draws[last][t] == draws[last][t]);
                assert(draws[last].contains(draws[last][t]));
            }
        }
    }
}

/// The member identifiers of a roster, in order.
pub open spec fn roster_ids(roster: Seq<MemberModel>) -> Seq<MemberId> {
    roster.map_values(|m: MemberModel| m.id)
}

/// A grant of `n` fruits to every member of `c` makes exactly `n` additions
/// to each member and none to anyone else, `n` times the number of members in
/// all, each of a fruit drawn for that member.
pub proof fn lemma_grant_counts_per_member(c: Community, draws: Seq<Seq<FruitModel>>, n: nat)
    requires
        c.wf(),
        draws.len() == c.roster().len(),
        forall|i: int| 0 <= i < draws.len() ==> (#[trigger] draws[i]).len() == n,
    ensures
        grant_models(roster_ids(c.roster()), draws).len() == n * c@.members.dom().len(),
        forall|k: MemberId|
            #[trigger] additions_to(grant_models(roster_ids(c.roster()), draws), k) == if c@.members.dom().contains(k) {
                n
            } else {
                0
            },
        forall|i: int|
            0 <= i < grant_models(roster_ids(c.roster()), draws).len() ==> adds_drawn_fruit(
                #[trigger] grant_models(roster_ids(c.roster()), draws)[i],
                roster_ids(c.roster()),
                draws,
            ),
{
    c.lemma_roster();
    let ids = roster_ids(c.roster());
    assert forall|i: int, j: int| 0 <= i < j < ids.len() implies ids[i] != ids[j] by {
        assert(c.roster()[i].id.0 < c.roster()[j].id.0);
    }
    lemma_grant_counts(ids, draws, n);
    assert forall|k: MemberId| ids.contains(k) == c@.members.dom().contains(k) by {
        if ids.contains(k) {
            let j = choose|j: int| 0 <= j < ids.len() && ids[j] == k;
            assert(c.roster()[j].id == k);
        }
        if c@.members.dom().contains(k) {
            let j = choose|j: int| 0 <= j < c.roster().len() && (#[trigger] c.roster()[j]).id == k;
            assert(ids[j] == k);
        }
    }
}

/// The fruit models of each member's draws.
pub open spec fn draw_models(draws: Seq<Vec<Fruit>>) -> Seq<Seq<FruitModel>> {
    draws.map_values(|d: Vec<Fruit>| fruit_models(d@))
}

/// The mutations of a grant: for each member in roster order, one
/// [`StateMutation::AddFruitToMember`] per fruit drawn for it, in order.
/// `draws` holds one list of fruits per member, in roster order.
pub fn grant_mutations(community: &Community, draws: &Vec<Vec<Fruit>>) -> (r: Vec<StateMutation>)
    requires
        community.wf(),
        draws@.len() == community.roster().len(),
    ensures
        mutation_models(r@) == grant_models(roster_ids(community.roster()), draw_models(draws@)),
{
    let members = community.members();
    let ghost ids = roster_ids(community.roster());
    let ghost dm = draw_models(draws@);
    let mut r: Vec<StateMutation> = Vec::new();
    let mut i: usize = 0;
    assert(grant_models(ids.take(0), dm.take(0)) =~= Seq::<MutationModel>::empty());
    while i < members.len()
        invariant
            members@.map_values(|m: Member| m@) == community.roster(),
            ids == roster_ids(community.roster()),
            dm == draw_models(draws@),
            draws@.len() == members@.len(),
            i <= members@.len(),
            mutation_models(r@) == grant_models(ids.take(i as int), dm.take(i as int)),
        decreases members@.len() - i,
    {
        let id = members[i].id;
        assert(ids[i as int] == id);
        let fruits = &draws[i];
        let ghost before = mutation_models(r@);
        let mut j: usize = 0;
        while j < fruits.len()
            invariant
                j <= fruits@.len(),
                mutation_models(r@) == before + additions(id, fruit_models(fruits@).take(j as int)),
            decreases fruits@.len() - j,
        {
            let ghost prev = r@;
            r.push(StateMutation::AddFruitToMember { member_id: id, fruit: fruits[j] });
            assert(mutation_models(r@) =~= mutation_models(prev).push(
                MutationModel::AddFruitToMember { member_id: id, fruit: fruits@[j as int]@ },
            ));
            assert(additions(id, fruit_models(fruits@).take(j + 1)) =~= additions(
                id,
                fruit_models(fruits@).take(j as int),
            ).push(MutationModel::AddFruitToMember { member_id: id, fruit: fruits@[j as int]@ }));
            j = j + 1;
        }
        proof {
            assert(fruit_models(fruits@).take(j as int) =~= fruit_models(fruits@));
            assert(dm[i as int] == fruit_models(fruits@));
            assert(ids.take(i + 1).drop_last() =~= ids.take(i as int));
            assert(dm.take(i + 1).drop_last() =~= dm.take(i as int));
            assert(ids.take(i + 1).last() == id);
            assert(dm.take(i + 1).last() == dm[i as int]);
        }
        i = i + 1;
    }
    proof {
        assert(ids.take(i as int) =~= ids);
        assert(dm.take(i as int) =~= dm);
    }
    r
}

} // verus!
