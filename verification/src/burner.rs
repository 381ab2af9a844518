//! Burning fruit.

use vstd::prelude::*;
use vstd::multiset::Multiset;

use crate::community::Community;
use crate::event_log::{fruit_models, mutation_models, MutationModel, StateMutation};
use crate::fruit::{Fruit, FruitModel};
use crate::ids::MemberId;

verus! {

broadcast use vstd::seq_lib::group_to_multiset_ensures, vstd::multiset::group_multiset_axioms;

/// Every mutation of `ms` removes a fruit from member `id`.
pub open spec fn all_removals_from(ms: Seq<MutationModel>, id: MemberId) -> bool {
    forall|i: int| 0 <= i < ms.len() ==> (#[trigger] ms[i] matches MutationModel::RemoveFruitFromMember {
        member_id,
        ..
    } && member_id == id)
}

/// The fruits removed by a sequence of removal mutations, in order.
pub open spec fn removed_fruits(ms: Seq<MutationModel>) -> Seq<FruitModel> {
    ms.map_values(
        |m: MutationModel|
            match m {
                MutationModel::RemoveFruitFromMember { fruit, .. } => fruit,
                _ => arbitrary(),
            },
    )
}

/// How many instances of `f` occur in `fruits`.
fn count_in(fruits: &[Fruit], f: &Fruit) -> (n: usize)
    ensures
        n == fruit_models(fruits@).to_multiset().count(f@),
{
    let mut n: usize = 0;
    let mut i: usize = 0;
    while i < fruits.len()
        invariant
            i <= fruits@.len(),
            n <= i,
            n == fruit_models(fruits@.subrange(0, i as int)).to_multiset().count(f@),
        decreases fruits@.len() - i,
    {
        assert(fruit_models(fruits@.subrange(0, i + 1)) =~= fruit_models(fruits@.subrange(0, i as int)).push(
            fruits@[i as int]@,
        ));
        if fruits[i].same(f) {
            n = n + 1;
        }
        i = i + 1;
    }
    assert(fruits@.subrange(0, i as int) =~= fruits@);
    n
}

/// Whether `f` occurs among the first `end` fruits.
fn occurs_before(fruits: &[Fruit], end: usize, f: &Fruit) -> (found: bool)
    requires
        end <= fruits@.len(),
    ensures
        found == exists|j: int| 0 <= j < end && fruits@[j]@ == f@,
{
    let mut j: usize = 0;
    while j < end
        invariant
            end <= fruits@.len(),
            j <= end,
            forall|k: int| 0 <= k < j ==> fruits@[k]@ != f@,
        decreases end - j,
    {
        if fruits[j].same(f) {
            return true;
        }
        j = j + 1;
    }
    false
}

/// The smaller of two counts.
pub open spec fn min_nat(a: nat, b: nat) -> nat {
    if a <= b { a } else { b }
}

/// Computes the effect of member `member_id` burning `fruits`.
///
/// `fruits` may contain duplicates and may span multiple fruit types. For each
/// distinct fruit, `min(requested, held)` instances are burned; any excess is
/// skipped. Returns one removal per fruit actually burned, grouped by fruit in
/// order of first request, and no mutations if the member is unknown,
/// `fruits` is empty, or none of the requested fruits are held.
pub fn compute_burn(community: &Community, member_id: MemberId, fruits: &[Fruit]) -> (r: Vec<StateMutation>)
    requires
        community.wf(),
    ensures
        all_removals_from(mutation_models(r@), member_id),
        !community@.members.dom().contains(member_id) ==> r@.len() == 0,
        community@.members.dom().contains(member_id) ==> forall|v: FruitModel|
            #[trigger] removed_fruits(mutation_models(r@)).to_multiset().count(v) == min_nat(
                fruit_models(fruits@).to_multiset().count(v),
                community@.members[member_id].bag.count(v),
            ),
{
    let mut r: Vec<StateMutation> = Vec::new();
    if fruits.len() == 0 {
        return r;
    }
    let member = match community.member(member_id) {
        Some(m) => m,
        None => {
            return r;
        },
    };
    let ghost held = community@.members[member_id].bag;
    let ghost requested = fruit_models(fruits@).to_multiset();
    let mut i: usize = 0;
    while i < fruits.len()
        invariant
            i <= fruits@.len(),
            member@ == community@.members[member_id],
            held == member@.bag,
            requested == fruit_models(fruits@).to_multiset(),
            all_removals_from(mutation_models(r@), member_id),
            forall|v: FruitModel|
                #[trigger] removed_fruits(mutation_models(r@)).to_multiset().count(v) == if exists|j: int|
                    0 <= j < i && fruits@[j]@ == v {
                    min_nat(requested.count(v), held.count(v))
                } else {
                    0
                },
        decreases fruits@.len() - i,
    {
        let f = fruits[i];
        let seen = occurs_before(fruits, i, &f);
        if !seen {
            let req = count_in(fruits, &f);
            let have = member.bag.count(f);
            let n = if req < have { req } else { have };
            let ghost base = r@;
            let mut k: usize = 0;
            while k < n
                invariant
                    k <= n,
                    r@.len() == base.len() + k,
                    forall|t: int| 0 <= t < base.len() ==> r@[t] == base[t],
                    forall|t: int| base.len() <= t < r@.len() ==> r@[t]@ == (MutationModel::RemoveFruitFromMember {
                        member_id,
                        fruit: f@,
                    }),
                    all_removals_from(mutation_models(base), member_id),
                decreases n - k,
            {
                r.push(StateMutation::RemoveFruitFromMember { member_id, fruit: f });
                k = k + 1;
            }
            proof {
                let added = repeat(f@, n as nat);
                assert(removed_fruits(mutation_models(r@)) =~= removed_fruits(mutation_models(base)) + added);
                assert forall|t: int| 0 <= t < mutation_models(r@).len() implies (
                #[trigger] mutation_models(r@)[t] matches MutationModel::RemoveFruitFromMember {
                    member_id: mid,
                    ..
                } && mid == member_id) by {
                    if t < base.len() {
                        assert(mutation_models(base)[t] == mutation_models(r@)[t]);
                    }
                }
                lemma_repeat_multiset(f@, n as nat);
                vstd::seq_lib::lemma_multiset_commutative(removed_fruits(mutation_models(base)), added);
                assert forall|v: FruitModel|
                    #[trigger] removed_fruits(mutation_models(r@)).to_multiset().count(v) == if exists|j: int|
                        0 <= j < i + 1 && fruits@[j]@ == v {
                        min_nat(requested.count(v), held.count(v))
                    } else {
                        0
                    } by {
                    if v == f@ {
                        assert(fruits@[i as int]@ == v);
                        assert(removed_fruits(mutation_models(base)).to_multiset().count(v) == 0);
                    } else {
                        if exists|j: int| 0 <= j < i + 1 && fruits@[j]@ == v {
                            let j = choose|j: int| 0 <= j < i + 1 && fruits@[j]@ == v;
                            assert(j < i);
                        }
                    }
                }
            }
        } else {
            proof {
                assert forall|v: FruitModel|
                    #[trigger] removed_fruits(mutation_models(r@)).to_multiset().count(v) == if exists|j: int|
                        0 <= j < i + 1 && fruits@[j]@ == v {
                        min_nat(requested.count(v), held.count(v))
                    } else {
                        0
                    } by {
                    if exists|j: int| 0 <= j < i + 1 && fruits@[j]@ == v {
                        let j = choose|j: int| 0 <= j < i + 1 && fruits@[j]@ == v;
                        if j == i {
                            let j2 = choose|j2: int| 0 <= j2 < i && fruits@[j2]@ == f@;
                            assert(fruits@[j2]@ == v);
                        }
                    }
                }
            }
        }
        i = i + 1;
    }
    proof {
        assert forall|v: FruitModel|
            #[trigger] removed_fruits(mutation_models(r@)).to_multiset().count(v) == min_nat(
                requested.count(v),
                held.count(v),
            ) by {
            if !(exists|j: int| 0 <= j < fruits@.len() && fruits@[j]@ == v) {
                assert(!fruit_models(fruits@).contains(v));
            }
        }
    }
    r
}

/// `n` copies of `v`.
pub open spec fn repeat(v: FruitModel, n: nat) -> Seq<FruitModel> {
    Seq::new(n, |t: int| v)
}

/// `n` copies of `v` form a multiset holding `v` exactly `n` times.
proof fn lemma_repeat_multiset(v: FruitModel, n: nat)
    ensures
        repeat(v, n).to_multiset().count(v) == n,
        forall|w: FruitModel| w != v ==> #[trigger] repeat(v, n).to_multiset().count(w) == 0,
    decreases n,
{
    if n > 0 {
        lemma_repeat_multiset(v, (n - 1) as nat);
        assert(repeat(v, n) =~= repeat(v, (n - 1) as nat).push(v));
    } else {
        assert(repeat(v, n) =~= Seq::<FruitModel>::empty());
    }
}

} // verus!
