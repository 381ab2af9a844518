//! Laws of the luck adjustments: which records count, how many gift bonuses
//! there are, and the signs and bounds of every adjustment.

use vstd::prelude::*;
use vstd::arithmetic::div_mod::{lemma_fundamental_div_mod, lemma_mod_bound};

use crate::community::CommunityModel;
use crate::event_log::{apply_mutations, MutationModel, PayloadModel, Record};
use crate::member::MemberModel;
use crate::fruit::value_units_of;
use crate::ids::MemberId;
use crate::luck_adjustments::{
    add_to_total, bonus_delta, burn_bonus_mutations, burn_penalty, burn_penalty_mutations,
    clamp_i16, count_quid_pro_quo, count_reciprocal, effective, first_of_pair, gift_bonus_mutations,
    gift_key, gift_keys, gift_penalty, gift_penalty_mutations, gift_value, gift_values, luck_mutations,
    qp_mutations, reciprocal_similar, removed_value, round_div, similar_values, tally, tally_step,
    LuckTally,
};

verus! {

// ── records that count ─────────────────────────────────────────────────────

/// The records whose event was processed into a non-empty effect, in order.
pub open spec fn effective_records(rs: Seq<Record>) -> Seq<Record> {
    rs.filter(|r: Record| effective(r))
}

proof fn lemma_effective_records_last(rs: Seq<Record>)
    requires
        rs.len() > 0,
    ensures
        effective_records(rs) == (if effective(rs.last()) {
            effective_records(rs.drop_last()).push(rs.last())
        } else {
            effective_records(rs.drop_last())
        }),
{
    reveal(Seq::filter);
}

proof fn lemma_tally_effective(c: CommunityModel, rs: Seq<Record>)
    ensures
        tally(c, rs) == tally(c, effective_records(rs)),
    decreases rs.len(),
{
    if rs.len() > 0 {
        let p = rs.drop_last();
        lemma_tally_effective(c, p);
        lemma_effective_records_last(rs);
        let f = effective_records(rs);
        if effective(rs.last()) {
            assert(f.drop_last() =~= effective_records(p));
            assert(f.last() == rs.last());
        }
    }
}

proof fn lemma_gift_keys_effective(rs: Seq<Record>)
    ensures
        gift_keys(rs) == gift_keys(effective_records(rs)),
        forall|k: (MemberId, MemberId)| gift_values(rs, k) == gift_values(effective_records(rs), k),
    decreases rs.len(),
{
    if rs.len() > 0 {
        let p = rs.drop_last();
        lemma_gift_keys_effective(p);
        lemma_effective_records_last(rs);
        let f = effective_records(rs);
        if effective(rs.last()) {
            assert(f.drop_last() =~= effective_records(p));
            assert(f.last() == rs.last());
        }
        assert forall|k: (MemberId, MemberId)| gift_values(rs, k) == gift_values(f, k) by {
            assert(gift_values(p, k) == gift_values(effective_records(p), k));
        }
    }
}

proof fn lemma_count_qp_same_values(a: Seq<Record>, b: Seq<Record>, ks: Seq<(MemberId, MemberId)>, n: nat)
    requires
        forall|k: (MemberId, MemberId)| gift_values(a, k) == gift_values(b, k),
    ensures
        count_quid_pro_quo(a, ks, n) == count_quid_pro_quo(b, ks, n),
    decreases n,
{
    if n > 0 {
        lemma_count_qp_same_values(a, b, ks, (n - 1) as nat);
        assert(gift_values(a, ks[n - 1]) == gift_values(b, ks[n - 1]));
        assert(gift_values(a, (ks[n - 1].1, ks[n - 1].0)) == gift_values(
            b,
            (ks[n - 1].1, ks[n - 1].0),
        ));
    }
}

/// Records that were never processed, or whose effect changed nothing, give
/// no bonus, no penalty and no quid-pro-quo pair, and do not move the running
/// snapshot: dropping them from either list leaves the luck mutations as
/// they are.
pub proof fn lemma_ineffective_records_ignored(c: CommunityModel, rs: Seq<Record>, gifts: Seq<Record>)
    ensures
        luck_mutations(c, rs, gifts) == luck_mutations(
            c,
            effective_records(rs),
            effective_records(gifts),
        ),
{
    lemma_tally_effective(c, rs);
    lemma_gift_keys_effective(gifts);
    let ks = gift_keys(gifts);
    lemma_count_qp_same_values(gifts, effective_records(gifts), ks, ks.len());
}

// ── one bonus per sender, and the signs ────────────────────────────────────

/// Whether `r` is a processed gift sent by `s`.
pub open spec fn sent_gift(r: Record, s: MemberId) -> bool {
    effective(r) && match r.event.payload@ {
        PayloadModel::Gift { sender_id, .. } => sender_id == s,
        _ => false,
    }
}

/// Whether `m` is a gift bonus for `s`.
pub open spec fn is_gift_bonus_of(m: MutationModel, s: MemberId) -> bool {
    match m {
        MutationModel::GiftLuckBonus { member_id, .. } => member_id == s,
        _ => false,
    }
}

/// The sign of each kind of luck mutation: bonuses are positive, ostentation
/// penalties negative, and a quid-pro-quo penalty lies between −64 and −1;
/// no other kind of mutation is a luck mutation.
pub open spec fn well_signed(m: MutationModel) -> bool {
    match m {
        MutationModel::GiftLuckBonus { delta, .. } => delta > 0,
        MutationModel::BurnLuckBonus { delta } => delta > 0,
        MutationModel::OstentatiousGiftPenalty { delta, .. } => delta < 0,
        MutationModel::OstentatiousBurnPenalty { delta, .. } => delta < 0,
        MutationModel::QuidProQuoPenalty { delta } => -64 <= delta <= -1,
        _ => false,
    }
}

/// Whether some mutation of `ms` is a gift bonus for `s`.
pub open spec fn has_gift_bonus(ms: Seq<MutationModel>, s: MemberId) -> bool {
    exists|i: int| 0 <= i < ms.len() && is_gift_bonus_of(#[trigger] ms[i], s)
}

/// Whether some record of `rs` is a processed gift sent by `s`.
pub open spec fn has_sent_gift(rs: Seq<Record>, s: MemberId) -> bool {
    exists|j: int| 0 <= j < rs.len() && sent_gift(#[trigger] rs[j], s)
}

spec fn has_key(totals: Seq<(MemberId, nat)>, s: MemberId) -> bool {
    exists|i: int| 0 <= i < totals.len() && totals[i].0 == s
}

spec fn totals_ok(totals: Seq<(MemberId, nat)>) -> bool {
    &&& forall|i: int, j: int| 0 <= i < j < totals.len() ==> totals[i].0 != totals[j].0
    &&& forall|i: int| 0 <= i < totals.len() ==> #[trigger] totals[i].1 >= 255
}

proof fn lemma_add_to_total(totals: Seq<(MemberId, nat)>, s: MemberId, v: nat)
    requires
        totals_ok(totals),
        v >= 255,
    ensures
        totals_ok(add_to_total(totals, s, v)),
        forall|k: MemberId| has_key(add_to_total(totals, s, v), k) <==> (has_key(totals, k) || k == s),
{
    let t2 = add_to_total(totals, s, v);
    if exists|i: int| 0 <= i < totals.len() && totals[i].0 == s {
        let i0 = choose|i: int| 0 <= i < totals.len() && totals[i].0 == s;
        assert(t2 == totals.update(i0, (s, totals[i0].1 + v)));
        assert forall|i: int| 0 <= i < totals.len() implies t2[i].0 == totals[i].0 by {}
        assert forall|k: MemberId| has_key(t2, k) <==> (has_key(totals, k) || k == s) by {
            if has_key(t2, k) {
                let i = choose|i: int| 0 <= i < t2.len() && t2[i].0 == k;
                assert(totals[i].0 == k);
            }
            if has_key(totals, k) {
                let i = choose|i: int| 0 <= i < totals.len() && totals[i].0 == k;
                assert(t2[i].0 == k);
            }
            if k == s {
                assert(t2[i0].0 == k);
            }
        }
    } else {
        assert(t2 == totals.push((s, v)));
        assert forall|k: MemberId| has_key(t2, k) <==> (has_key(totals, k) || k == s) by {
            if has_key(t2, k) {
                let i = choose|i: int| 0 <= i < t2.len() && t2[i].0 == k;
                if i < totals.len() {
                    assert(totals[i].0 == k);
                }
            }
            if has_key(totals, k) {
                let i = choose|i: int| 0 <= i < totals.len() && totals[i].0 == k;
                assert(t2[i].0 == k);
            }
            if k == s {
                assert(t2[totals.len() as int].0 == k);
            }
        }
    }
}

proof fn lemma_penalty_sign(gift: nat, bag: nat)
    ensures
        gift_penalty(gift, bag) <= 0,
{
}

proof fn lemma_burn_penalty_sign(burned: nat, total: nat, n: nat)
    ensures
        burn_penalty(burned, total, n) <= 0,
{
}

proof fn lemma_tally_facts(c: CommunityModel, rs: Seq<Record>)
    ensures
        totals_ok(tally(c, rs).gift_totals),
        forall|s: MemberId| has_key(tally(c, rs).gift_totals, s) <==> exists|j: int|
            0 <= j < rs.len() && sent_gift(#[trigger] rs[j], s),
        forall|i: int|
            0 <= i < tally(c, rs).gift_penalties.len() ==> #[trigger] tally(c, rs).gift_penalties[i].1 < 0,
        forall|i: int|
            0 <= i < tally(c, rs).burn_penalties.len() ==> #[trigger] tally(c, rs).burn_penalties[i].1 < 0,
    decreases rs.len(),
{
    if rs.len() > 0 {
        let p = rs.drop_last();
        let r = rs.last();
        lemma_tally_facts(c, p);
        let t0 = tally(c, p);
        let t = tally(c, rs);
        assert(t == tally_step(t0, r));
        if effective(r) {
            match r.event.payload@ {
                PayloadModel::Gift { sender_id, recipient_id, fruit, .. } => {
                    lemma_add_to_total(t0.gift_totals, sender_id, value_units_of(fruit));
                    let rv = if t0.running.members.dom().contains(recipient_id) {
                        crate::bag::multiset_value(t0.running.members[recipient_id].bag)
                    } else {
                        0
                    };
                    lemma_penalty_sign(value_units_of(fruit), rv);
                    assert(t.gift_totals == add_to_total(t0.gift_totals, sender_id, value_units_of(fruit)));
                },
                PayloadModel::Burn { member_id, .. } => {
                    lemma_burn_penalty_sign(
                        removed_value(crate::luck_adjustments::effect_models(r)),
                        crate::community::members_value(t0.running.members),
                        t0.running.members.dom().len(),
                    );
                    assert(t.gift_totals == t0.gift_totals);
                },
                _ => {
                    assert(t.gift_totals == t0.gift_totals);
                },
            }
        }
        assert forall|s: MemberId| has_key(t.gift_totals, s) <==> (has_key(t0.gift_totals, s) || sent_gift(r, s)) by {
        }
        assert forall|s: MemberId| has_key(t.gift_totals, s) <==> exists|j: int|
            0 <= j < rs.len() && sent_gift(#[trigger] rs[j], s) by {
            if exists|j: int| 0 <= j < p.len() && sent_gift(#[trigger] p[j], s) {
                let j = choose|j: int| 0 <= j < p.len() && sent_gift(#[trigger] p[j], s);
                assert(rs[j] == p[j]);
            }
            if sent_gift(r, s) {
                assert(rs[rs.len() - 1] == r);
            }
            if exists|j: int| 0 <= j < rs.len() && sent_gift(#[trigger] rs[j], s) {
                let j = choose|j: int| 0 <= j < rs.len() && sent_gift(#[trigger] rs[j], s);
                if j < p.len() {
                    assert(p[j] == rs[j]);
                }
            }
        }
    }
}

/// Since the last grant, there is exactly one gift bonus for each member who
/// sent a processed gift, and none for anyone else.
pub proof fn lemma_one_gift_bonus_per_sender(c: CommunityModel, rs: Seq<Record>, gifts: Seq<Record>)
    ensures
        ({
            let ms = luck_mutations(c, rs, gifts);
            &&& forall|i: int, j: int|
                0 <= i < j < ms.len() && #[trigger] ms[i] is GiftLuckBonus && #[trigger] ms[j] is GiftLuckBonus
                    ==> ms[i]->GiftLuckBonus_member_id != ms[j]->GiftLuckBonus_member_id
            &&& forall|s: MemberId|
                #![trigger has_gift_bonus(ms, s)]
                #![trigger has_sent_gift(rs, s)]
                has_gift_bonus(ms, s) <==> has_sent_gift(rs, s)
        }),
{
    lemma_tally_facts(c, rs);
    let t = tally(c, rs);
    let g = gift_bonus_mutations(t.gift_totals);
    let rest = burn_bonus_mutations(t.burn_total) + gift_penalty_mutations(t.gift_penalties)
        + burn_penalty_mutations(t.burn_penalties) + qp_mutations(gifts);
    let ms = luck_mutations(c, rs, gifts);
    assert(ms =~= g + rest);
    assert forall|i: int| 0 <= i < rest.len() implies !(#[trigger] rest[i] is GiftLuckBonus) by {
        let b = burn_bonus_mutations(t.burn_total);
        let gp = gift_penalty_mutations(t.gift_penalties);
        let bp = burn_penalty_mutations(t.burn_penalties);
        assert(rest =~= b + gp + bp + qp_mutations(gifts));
    }
    assert forall|i: int| 0 <= i < g.len() implies #[trigger] g[i] == (MutationModel::GiftLuckBonus {
        member_id: t.gift_totals[i].0,
        delta: bonus_delta(t.gift_totals[i].1),
    }) by {}
    assert forall|i: int, j: int|
        0 <= i < j < ms.len() && #[trigger] ms[i] is GiftLuckBonus && #[trigger] ms[j] is GiftLuckBonus
            implies ms[i]->GiftLuckBonus_member_id != ms[j]->GiftLuckBonus_member_id by {
        if j < g.len() {
            assert(ms[i] == g[i] && ms[j] == g[j]);
        } else {
            assert(ms[j] == rest[j - g.len()]);
        }
    }
    assert forall|s: MemberId| has_gift_bonus(ms, s) <==> has_key(t.gift_totals, s) by {
        if exists|i: int| 0 <= i < ms.len() && is_gift_bonus_of(#[trigger] ms[i], s) {
            let i = choose|i: int| 0 <= i < ms.len() && is_gift_bonus_of(#[trigger] ms[i], s);
            if i >= g.len() {
                assert(ms[i] == rest[i - g.len()]);
            } else {
                assert(ms[i] == g[i]);
                assert(t.gift_totals[i].0 == s);
            }
        }
        if has_key(t.gift_totals, s) {
            let i = choose|i: int| 0 <= i < t.gift_totals.len() && t.gift_totals[i].0 == s;
            assert(ms[i] == g[i]);
            assert(is_gift_bonus_of(ms[i], s));
        }
    }
}

/// The value of the processed gifts that `s` sent among `rs`.
pub open spec fn sent_value(rs: Seq<Record>, s: MemberId) -> nat
    decreases rs.len(),
{
    if rs.len() == 0 {
        0
    } else {
        sent_value(rs.drop_last(), s) + if sent_gift(rs.last(), s) {
            gift_value(rs.last())
        } else {
            0
        }
    }
}

/// The value of all fruit removed by the processed burns among `rs`.
pub open spec fn burned_value(rs: Seq<Record>) -> nat
    decreases rs.len(),
{
    if rs.len() == 0 {
        0
    } else {
        burned_value(rs.drop_last()) + if effective(rs.last()) && rs.last().event.payload@ is Burn {
            removed_value(crate::luck_adjustments::effect_models(rs.last()))
        } else {
            0
        }
    }
}

proof fn lemma_sent_value_none(rs: Seq<Record>, s: MemberId)
    requires
        !has_sent_gift(rs, s),
    ensures
        sent_value(rs, s) == 0,
    decreases rs.len(),
{
    if rs.len() > 0 {
        let p = rs.drop_last();
        assert(!has_sent_gift(p, s)) by {
            if has_sent_gift(p, s) {
                let j = choose|j: int| 0 <= j < p.len() && sent_gift(#[trigger] p[j], s);
                assert(rs[j] == p[j]);
            }
        }
        lemma_sent_value_none(p, s);
        assert(!sent_gift(rs[rs.len() - 1], s));
    }
}

proof fn lemma_tally_amounts(c: CommunityModel, rs: Seq<Record>)
    ensures
        forall|i: int|
            0 <= i < tally(c, rs).gift_totals.len() ==> #[trigger] tally(c, rs).gift_totals[i].1 == sent_value(
                rs,
                tally(c, rs).gift_totals[i].0,
            ),
        tally(c, rs).burn_total == burned_value(rs),
    decreases rs.len(),
{
    if rs.len() > 0 {
        let p = rs.drop_last();
        let r = rs.last();
        lemma_tally_amounts(c, p);
        lemma_tally_facts(c, p);
        let t0 = tally(c, p);
        let t = tally(c, rs);
        assert(t == tally_step(t0, r));
        let tot0 = t0.gift_totals;
        if effective(r) && r.event.payload@ is Gift {
            let s = r.event.payload@->Gift_sender_id;
            let gv = gift_value(r);
            assert(sent_gift(r, s));
            assert(t.gift_totals == add_to_total(tot0, s, gv));
            if exists|i: int| 0 <= i < tot0.len() && tot0[i].0 == s {
                let i0 = choose|i: int| 0 <= i < tot0.len() && tot0[i].0 == s;
                assert(t.gift_totals == tot0.update(i0, (s, tot0[i0].1 + gv)));
                assert forall|i: int| 0 <= i < t.gift_totals.len() implies #[trigger] t.gift_totals[i].1
                    == sent_value(rs, t.gift_totals[i].0) by {
                    assert(tot0[i].1 == sent_value(p, tot0[i].0));
                    if i != i0 {
                        assert(tot0[i].0 != s);
                    }
                }
            } else {
                assert(!has_key(tot0, s));
                assert(!has_sent_gift(p, s));
                lemma_sent_value_none(p, s);
                assert(t.gift_totals == tot0.push((s, gv)));
                assert forall|i: int| 0 <= i < t.gift_totals.len() implies #[trigger] t.gift_totals[i].1
                    == sent_value(rs, t.gift_totals[i].0) by {
                    if i < tot0.len() {
                        assert(tot0[i].1 == sent_value(p, tot0[i].0));
                        assert(tot0[i].0 != s);
                    }
                }
            }
        } else {
            assert(t.gift_totals == tot0);
            assert forall|i: int| 0 <= i < t.gift_totals.len() implies #[trigger] t.gift_totals[i].1
                == sent_value(rs, t.gift_totals[i].0) by {
                assert(tot0[i].1 == sent_value(p, tot0[i].0));
                assert(!sent_gift(r, tot0[i].0));
            }
        }
    }
}

/// Each sender's gift bonus is `round(10 × value)` (clamped to `i16`) of all
/// the processed gifts it sent since the last grant; the burn bonus is
/// `round(10 × value)` of all fruit removed by processed burns, and it is
/// there exactly when it is positive.
pub proof fn lemma_bonus_amounts(c: CommunityModel, rs: Seq<Record>, gifts: Seq<Record>)
    ensures
        forall|i: int|
            0 <= i < luck_mutations(c, rs, gifts).len() && (#[trigger] luck_mutations(c, rs, gifts)[i] is GiftLuckBonus)
                ==> luck_mutations(c, rs, gifts)[i]->GiftLuckBonus_delta == bonus_delta(
                sent_value(rs, luck_mutations(c, rs, gifts)[i]->GiftLuckBonus_member_id),
            ),
        forall|i: int|
            0 <= i < luck_mutations(c, rs, gifts).len() && (#[trigger] luck_mutations(c, rs, gifts)[i] is BurnLuckBonus)
                ==> luck_mutations(c, rs, gifts)[i]->BurnLuckBonus_delta == bonus_delta(burned_value(rs)),
        (exists|i: int|
            0 <= i < luck_mutations(c, rs, gifts).len() && (#[trigger] luck_mutations(c, rs, gifts)[i] is BurnLuckBonus))
            == (bonus_delta(burned_value(rs)) > 0),
{
    lemma_tally_amounts(c, rs);
    let t = tally(c, rs);
    let g = gift_bonus_mutations(t.gift_totals);
    let b = burn_bonus_mutations(t.burn_total);
    let gp = gift_penalty_mutations(t.gift_penalties);
    let bp = burn_penalty_mutations(t.burn_penalties);
    let q = qp_mutations(gifts);
    let ms = luck_mutations(c, rs, gifts);
    let tail = gp + bp + q;
    assert(ms =~= g + b + tail);
    assert forall|i: int| 0 <= i < tail.len() implies !(#[trigger] tail[i] is GiftLuckBonus) && !(
    tail[i] is BurnLuckBonus) by {
        if i < gp.len() {
            assert(tail[i] == gp[i]);
        } else if i < gp.len() + bp.len() {
            assert(tail[i] == bp[i - gp.len()]);
        } else {
            assert(tail[i] == q[i - gp.len() - bp.len()]);
            if q.len() > 0 {
                assert(q[0] is QuidProQuoPenalty);
            }
        }
    }
    assert forall|i: int| 0 <= i < ms.len() && (#[trigger] ms[i] is GiftLuckBonus) implies ms[i]->GiftLuckBonus_delta
        == bonus_delta(sent_value(rs, ms[i]->GiftLuckBonus_member_id)) by {
        if i < g.len() {
            assert(ms[i] == g[i]);
        } else if i < g.len() + b.len() {
            assert(ms[i] == b[i - g.len()]);
        } else {
            assert(ms[i] == tail[i - g.len() - b.len()]);
        }
    }
    assert forall|i: int| 0 <= i < ms.len() && (#[trigger] ms[i] is BurnLuckBonus) implies ms[i]->BurnLuckBonus_delta
        == bonus_delta(burned_value(rs)) by {
        if i < g.len() {
            assert(ms[i] == g[i]);
        } else if i < g.len() + b.len() {
            assert(ms[i] == b[i - g.len()]);
        } else {
            assert(ms[i] == tail[i - g.len() - b.len()]);
        }
    }
    if bonus_delta(burned_value(rs)) > 0 {
        assert(ms[g.len() as int] == b[0]);
        assert(ms[g.len() as int] is BurnLuckBonus);
    } else {
        assert(b.len() == 0);
        assert forall|i: int| 0 <= i < ms.len() implies !(#[trigger] ms[i] is BurnLuckBonus) by {
            if i < g.len() {
                assert(ms[i] == g[i]);
            } else {
                assert(ms[i] == tail[i - g.len()]);
            }
        }
    }
}

proof fn lemma_qp_count_bound(rs: Seq<Record>, ks: Seq<(MemberId, MemberId)>, n: nat)
    ensures
        count_quid_pro_quo(rs, ks, n) <= count_reciprocal(ks, n),
    decreases n,
{
    if n > 0 {
        lemma_qp_count_bound(rs, ks, (n - 1) as nat);
    }
}

proof fn lemma_round_share(q: nat, t: nat)
    requires
        0 < q <= t,
    ensures
        round_div(64 * q, t) <= 64,
{
    assert((2 * (64 * q) + t) / (2 * t) <= 64) by (nonlinear_arith)
        requires
            0 < q <= t,
    {
        assert(2 * (64 * q) + t < 65 * (2 * t));
    }
}

/// Every luck mutation is well signed: gift and burn bonuses are positive,
/// ostentation penalties negative, and the quid-pro-quo penalty, of which
/// there is at most one, lies between −64 and −1; no other kind of mutation
/// appears.
pub proof fn lemma_luck_mutations_well_signed(c: CommunityModel, rs: Seq<Record>, gifts: Seq<Record>)
    ensures
        forall|i: int|
            0 <= i < luck_mutations(c, rs, gifts).len() ==> well_signed(
                #[trigger] luck_mutations(c, rs, gifts)[i],
            ),
        qp_mutations(gifts).len() <= 1,
        forall|i: int, j: int|
            0 <= i < j < luck_mutations(c, rs, gifts).len() && (#[trigger] luck_mutations(
                c,
                rs,
                gifts,
            )[i] is QuidProQuoPenalty) ==> !(#[trigger] luck_mutations(c, rs, gifts)[j] is QuidProQuoPenalty),
{
    lemma_tally_facts(c, rs);
    let t = tally(c, rs);
    let g = gift_bonus_mutations(t.gift_totals);
    let b = burn_bonus_mutations(t.burn_total);
    let gp = gift_penalty_mutations(t.gift_penalties);
    let bp = burn_penalty_mutations(t.burn_penalties);
    let q = qp_mutations(gifts);
    let ms = luck_mutations(c, rs, gifts);
    let front = g + b + gp + bp;
    assert(ms =~= front + q);
    assert forall|i: int| 0 <= i < g.len() implies well_signed(#[trigger] g[i]) by {
        let v = t.gift_totals[i].1;
        assert(v >= 255);
        assert(round_div(10 * v, 255) >= 10);
    }
    assert forall|i: int| 0 <= i < gp.len() implies well_signed(#[trigger] gp[i]) by {
        assert(t.gift_penalties[i].1 < 0);
    }
    assert forall|i: int| 0 <= i < bp.len() implies well_signed(#[trigger] bp[i]) by {
        assert(t.burn_penalties[i].1 < 0);
    }
    assert forall|i: int| 0 <= i < front.len() implies well_signed(#[trigger] front[i]) && !(
    front[i] is QuidProQuoPenalty) by {
        if i < g.len() {
            assert(front[i] == g[i]);
        } else if i < g.len() + b.len() {
            assert(front[i] == b[i - g.len()]);
        } else if i < g.len() + b.len() + gp.len() {
            assert(front[i] == gp[i - g.len() - b.len()]);
        } else {
            assert(front[i] == bp[i - g.len() - b.len() - gp.len()]);
        }
    }
    let ks = gift_keys(gifts);
    let total = count_reciprocal(ks, ks.len());
    let qp = count_quid_pro_quo(gifts, ks, ks.len());
    if q.len() > 0 {
        lemma_qp_count_bound(gifts, ks, ks.len());
        lemma_round_share(qp, total);
        assert(well_signed(q[0]));
    }
    assert forall|i: int| 0 <= i < ms.len() implies well_signed(#[trigger] ms[i]) by {
        if i < front.len() {
            assert(ms[i] == front[i]);
        } else {
            assert(ms[i] == q[i - front.len()]);
        }
    }
    assert forall|i: int, j: int|
        0 <= i < j < ms.len() && (#[trigger] ms[i] is QuidProQuoPenalty) implies !(
        #[trigger] ms[j] is QuidProQuoPenalty) by {
        if i < front.len() {
            assert(ms[i] == front[i]);
        }
    }
}


// ── the arithmetic of the adjustments ──────────────────────────────────────

/// `d` is `num / den` rounded to the nearest integer, halves rounded up, or
/// the largest `i16` when that is larger: `2·den·d ≤ 2·num + den < 2·den·(d + 1)`.
pub open spec fn rounded_share(d: int, num: int, den: int) -> bool {
    ||| (d == 32767 && 2 * num + den >= 2 * den * 32767)
    ||| (0 <= d < 32767 && 2 * den * d <= 2 * num + den && 2 * num + den < 2 * den * (d + 1))
}

proof fn lemma_clamp(x: nat)
    ensures
        clamp_i16(x) as int == if x > 32767 {
            32767
        } else {
            x as int
        },
{
}

/// Rounding and clamping meet [`rounded_share`].
proof fn lemma_rounded_share(p: nat, q: nat)
    requires
        q > 0,
    ensures
        rounded_share(clamp_i16(round_div(p, q)) as int, p as int, q as int),
{
    let num2: int = (2 * p + q) as int;
    let d2: int = (2 * q) as int;
    lemma_fundamental_div_mod(num2, d2);
    lemma_mod_bound(num2, d2);
    let r = num2 / d2;
    assert(round_div(p, q) == r);
    assert(r >= 0) by (nonlinear_arith)
        requires
            num2 == d2 * r + num2 % d2,
            0 <= num2 % d2 < d2,
            num2 >= 0,
            d2 > 0,
    ;
    assert(d2 * r <= num2 < d2 * (r + 1)) by (nonlinear_arith)
        requires
            num2 == d2 * r + num2 % d2,
            0 <= num2 % d2 < d2,
    ;
    lemma_clamp(round_div(p, q));
    if r > 32767 {
        assert(d2 * 32767 <= d2 * r) by (nonlinear_arith)
            requires
                r > 32767,
                d2 > 0,
        ;
    }
}

/// The gift bonus is `10 × value` of the gifts (in units of 1/255), rounded.
pub proof fn lemma_bonus_is_ten_times_value(units: nat)
    ensures
        rounded_share(bonus_delta(units) as int, (10 * units) as int, 255),
        bonus_delta(units) >= 0,
{
    lemma_rounded_share(10 * units, 255);
    lemma_clamp(round_div(10 * units, 255));
}

/// An ostentatious gift is penalised on its excess over twice the value of
/// the recipient's bag, not on its whole value: for a gift worth `g` to a bag
/// worth `b` (units of 1/255) the penalty is `-round(5 × (g − 2b))`, and none
/// when `g ≤ 2b`. Raising the gift by twice what the bag gains leaves it as
/// it is.
pub proof fn lemma_gift_penalty_on_excess(g: nat, b: nat, k: nat)
    ensures
        g <= 2 * b ==> gift_penalty(g, b) == 0,
        g > 2 * b ==> rounded_share(-gift_penalty(g, b), 5 * (g - 2 * b), 255),
        gift_penalty(g + 2 * k, b + k) == gift_penalty(g, b),
        gift_penalty(2550, 1020) == -10,
{
    assert((g + 2 * k) - 2 * (b + k) == g - 2 * b);
    if g > 2 * b {
        lemma_rounded_share((5 * (g - 2 * b)) as nat, 255);
        lemma_clamp(round_div((5 * (g - 2 * b)) as nat, 255));
    }
    assert(round_div(2550, 255) == 10) by {
        assert(2 * 2550 + 255 == 5355);
        assert(5355int / 510int == 10) by (nonlinear_arith);
    }
}

/// An ostentatious burn is penalised on its excess over twice the average
/// bag value of the community: for a burn worth `burned` among `n ≥ 1`
/// members whose bags are worth `total` together, the penalty is
/// `-round(5 × (burned − 2·total/n))`, and none when `burned ≤ 2·total/n`.
/// Adding to the bags `k` per member while burning `2k` more leaves it as it is.
pub proof fn lemma_burn_penalty_on_excess(burned: nat, total: nat, n: nat, k: nat)
    requires
        n >= 1,
    ensures
        burned * n <= 2 * total ==> burn_penalty(burned, total, n) == 0,
        burned * n > 2 * total ==> rounded_share(
            -burn_penalty(burned, total, n),
            5 * (burned * n - 2 * total),
            (255 * n) as int,
        ),
        burn_penalty(burned + 2 * k, total + k * n, n) == burn_penalty(burned, total, n),
        burn_penalty(2550, 2550, 3) == -17,
{
    assert((burned + 2 * k) * n - 2 * (total + k * n) == burned * n - 2 * total) by (nonlinear_arith);
    assert(((burned + 2 * k) * n > 2 * (total + k * n)) == (burned * n > 2 * total)) by (nonlinear_arith);
    if burned * n > 2 * total {
        let x = (5 * (burned * n - 2 * total)) as nat;
        assert(255 * n > 0);
        lemma_rounded_share(x, 255 * n);
        lemma_clamp(round_div(x, 255 * n));
    }
    assert(burn_penalty(2550, 2550, 3) == -17) by {
        assert(2550 * 3 == 7650);
        assert(round_div(12750, 765) == 17) by {
            assert(2 * 12750 + 765 == 26265);
            assert(26265int / 1530int == 17) by (nonlinear_arith);
        }
    }
}

/// One processed gift since the last grant gives its sender a bonus on the
/// gift's value and, when the gift is ostentatious, a penalty judged against
/// the recipient's bag as the snapshot holds it; nothing else.
pub proof fn lemma_single_gift(c: CommunityModel, r: Record, s: MemberId, t: MemberId, f: crate::fruit::FruitModel)
    requires
        effective(r),
        r.event.payload@ matches PayloadModel::Gift { sender_id, recipient_id, fruit, .. } && sender_id == s
            && recipient_id == t && fruit == f,
    ensures
        ({
            let bag = if c.members.dom().contains(t) {
                crate::bag::multiset_value(c.members[t].bag)
            } else {
                0
            };
            let pen = gift_penalty(value_units_of(f), bag);
            luck_mutations(c, seq![r], Seq::empty()) == seq![
                MutationModel::GiftLuckBonus { member_id: s, delta: bonus_delta(value_units_of(f)) },
            ] + if pen != 0 {
                seq![MutationModel::OstentatiousGiftPenalty { member_id: s, delta: pen }]
            } else {
                Seq::<MutationModel>::empty()
            }
        }),
{
    let rs = seq![r];
    assert(rs.drop_last() =~= Seq::<Record>::empty());
    assert(rs.last() == r);
    let t0 = tally(c, Seq::<Record>::empty());
    let tl = tally(c, rs);
    assert(tl == tally_step(t0, r));
    assert(add_to_total(Seq::empty(), s, value_units_of(f)) =~= seq![(s, value_units_of(f))]);
    assert(bonus_delta(0) == 0) by {
        assert(round_div(0, 255) == 0);
    }
    lemma_qp_empty();
    assert(gift_bonus_mutations(tl.gift_totals) =~= seq![
        MutationModel::GiftLuckBonus { member_id: s, delta: bonus_delta(value_units_of(f)) },
    ]);
    let pen = gift_penalty(value_units_of(f), if c.members.dom().contains(t) {
        crate::bag::multiset_value(c.members[t].bag)
    } else {
        0
    });
    if pen != 0 {
        assert(gift_penalty_mutations(tl.gift_penalties) =~= seq![
            MutationModel::OstentatiousGiftPenalty { member_id: s, delta: pen },
        ]);
    } else {
        assert(gift_penalty_mutations(tl.gift_penalties) =~= Seq::<MutationModel>::empty());
    }
    assert(burn_penalty_mutations(tl.burn_penalties) =~= Seq::<MutationModel>::empty());
    assert(luck_mutations(c, rs, Seq::empty()) =~= seq![
        MutationModel::GiftLuckBonus { member_id: s, delta: bonus_delta(value_units_of(f)) },
    ] + if pen != 0 {
        seq![MutationModel::OstentatiousGiftPenalty { member_id: s, delta: pen }]
    } else {
        Seq::<MutationModel>::empty()
    });
}

proof fn lemma_qp_empty()
    ensures
        qp_mutations(Seq::<Record>::empty()) == Seq::<MutationModel>::empty(),
{
    assert(gift_keys(Seq::<Record>::empty()) == Seq::<(MemberId, MemberId)>::empty());
}

/// One processed burn since the last grant gives the community a bonus on
/// the value burned, when positive, and the burner a penalty when the burn is
/// ostentatious against the community's average bag value as the snapshot
/// holds it; nothing else.
pub proof fn lemma_single_burn(c: CommunityModel, r: Record, m: MemberId)
    requires
        effective(r),
        r.event.payload@ matches PayloadModel::Burn { member_id, .. } && member_id == m,
    ensures
        ({
            let burned = removed_value(crate::luck_adjustments::effect_models(r));
            let pen = burn_penalty(burned, crate::community::members_value(c.members), c.members.dom().len());
            luck_mutations(c, seq![r], Seq::empty()) == (if bonus_delta(burned) > 0 {
                seq![MutationModel::BurnLuckBonus { delta: bonus_delta(burned) }]
            } else {
                Seq::<MutationModel>::empty()
            }) + if pen != 0 {
                seq![MutationModel::OstentatiousBurnPenalty { member_id: m, delta: pen }]
            } else {
                Seq::<MutationModel>::empty()
            }
        }),
{
    let rs = seq![r];
    assert(rs.drop_last() =~= Seq::<Record>::empty());
    assert(rs.last() == r);
    let t0 = tally(c, Seq::<Record>::empty());
    let t = tally(c, rs);
    assert(t == tally_step(t0, r));
    lemma_qp_empty();
    let burned = removed_value(crate::luck_adjustments::effect_models(r));
    let pen = burn_penalty(burned, crate::community::members_value(c.members), c.members.dom().len());
    assert(gift_bonus_mutations(t.gift_totals) =~= Seq::<MutationModel>::empty());
    assert(gift_penalty_mutations(t.gift_penalties) =~= Seq::<MutationModel>::empty());
    if pen != 0 {
        assert(burn_penalty_mutations(t.burn_penalties) =~= seq![
            MutationModel::OstentatiousBurnPenalty { member_id: m, delta: pen },
        ]);
    } else {
        assert(burn_penalty_mutations(t.burn_penalties) =~= Seq::<MutationModel>::empty());
    }
    assert(t.burn_total == burned);
    assert(luck_mutations(c, rs, Seq::empty()) =~= (if bonus_delta(burned) > 0 {
        seq![MutationModel::BurnLuckBonus { delta: bonus_delta(burned) }]
    } else {
        Seq::<MutationModel>::empty()
    }) + if pen != 0 {
        seq![MutationModel::OstentatiousBurnPenalty { member_id: m, delta: pen }]
    } else {
        Seq::<MutationModel>::empty()
    });
}

/// Two gift values are similar exactly when they differ and the smaller is
/// more than four fifths of the larger, that is when they differ by less than
/// a fifth of the larger.
pub proof fn lemma_similar_within_a_fifth(a: nat, b: nat)
    ensures
        similar_values(a, b) == (a != b && (if a <= b {
            5 * a > 4 * b
        } else {
            5 * b > 4 * a
        })),
        similar_values(a, b) == similar_values(b, a),
        !similar_values(765, 510),
        similar_values(255, 287),
{
}

/// A single exchange of gifts between two members, one each way, is
/// quid-pro-quo exactly when the two values are similar, and then the
/// penalty is the full 64; otherwise there is none.
pub proof fn lemma_single_exchange(r1: Record, r2: Record, x: MemberId, y: MemberId)
    requires
        x != y,
        gift_key(r1) == Some((x, y)),
        gift_key(r2) == Some((y, x)),
    ensures
        qp_mutations(seq![r1, r2]) == if similar_values(gift_value(r1), gift_value(r2)) {
            seq![MutationModel::QuidProQuoPenalty { delta: -64i16 }]
        } else {
            Seq::<MutationModel>::empty()
        },
{
    let rs = seq![r1, r2];
    let ks = gift_keys(rs);
    assert(rs.drop_last() =~= seq![r1]);
    assert(seq![r1].drop_last() =~= Seq::<Record>::empty());
    let empty = Seq::<Record>::empty();
    assert(gift_keys(empty) == Seq::<(MemberId, MemberId)>::empty());
    assert(gift_values(empty, (x, y)) == Seq::<nat>::empty());
    assert(gift_values(empty, (y, x)) == Seq::<nat>::empty());
    assert(seq![r1].last() == r1);
    assert(rs.last() == r2);
    assert(gift_keys(seq![r1]) =~= seq![(x, y)]);
    assert(!seq![(x, y)].contains((y, x))) by {
        let one = seq![(x, y)];
        assert forall|i: int| 0 <= i < one.len() implies one[i] != (y, x) by {
            assert(one[i] == (x, y));
        }
    }
    assert(ks =~= seq![(x, y), (y, x)]);
    assert(first_of_pair(ks, 0)) by {
        assert(ks[1] == (ks[0].1, ks[0].0));
    }
    assert(!first_of_pair(ks, 1)) by {
        if first_of_pair(ks, 1) {
            let j = choose|j: int| 1 <= j < ks.len() && #[trigger] ks[j] == (ks[1].1, ks[1].0);
            assert(j == 1);
        }
    }
    assert(count_reciprocal(ks, 0) == 0);
    assert(count_reciprocal(ks, 1) == 1);
    assert(count_reciprocal(ks, 2) == 1);
    assert(gift_values(seq![r1], (x, y)) =~= seq![gift_value(r1)]);
    assert(gift_values(rs, (x, y)) =~= seq![gift_value(r1)]);
    assert(gift_values(seq![r1], (y, x)) =~= Seq::<nat>::empty());
    assert(gift_values(rs, (y, x)) =~= seq![gift_value(r2)]);
    let sim = similar_values(gift_value(r1), gift_value(r2));
    assert(reciprocal_similar(seq![gift_value(r1)], seq![gift_value(r2)]) == sim) by {
        if sim {
            assert(similar_values(seq![gift_value(r1)][0], seq![gift_value(r2)][0]));
        }
    }
    assert(count_quid_pro_quo(rs, ks, 0) == 0);
    assert(count_quid_pro_quo(rs, ks, 1) == if sim { 1nat } else { 0nat });
    assert(count_quid_pro_quo(rs, ks, 2) == count_quid_pro_quo(rs, ks, 1));
    assert(round_div(64, 1) == 64);
}

/// `luck + delta`, held within `0..=255`.
pub open spec fn held_luck(luck: u8, delta: i16) -> int {
    if (luck as int) + (delta as int) < 0 {
        0
    } else if (luck as int) + (delta as int) > 255 {
        255
    } else {
        (luck as int) + (delta as int)
    }
}

/// Gift bonuses and ostentation penalties, gift or burn, adjust the luck of
/// the member they name (held within `0..=255`) and nothing else: the
/// community's luck, the other members and the member's bag stay as they
/// are. Burn bonuses and quid-pro-quo penalties adjust the community's luck
/// and nothing else.
pub proof fn lemma_luck_mutation_targets(c: CommunityModel, m: MutationModel)
    ensures
        ({
            let r = apply_mutations(c, seq![m]);
            match m {
                MutationModel::GiftLuckBonus { member_id, delta }
                | MutationModel::OstentatiousGiftPenalty { member_id, delta }
                | MutationModel::OstentatiousBurnPenalty { member_id, delta } => {
                    &&& r.id == c.id
                    &&& r.luck == c.luck
                    &&& r.version == c.version
                    &&& r.members.dom() == c.members.dom()
                    &&& forall|k: MemberId| #[trigger] c.members.dom().contains(k) && k != member_id
                        ==> r.members[k] == c.members[k]
                    &&& c.members.dom().contains(member_id) ==> {
                        &&& r.members[member_id].luck as int == held_luck(c.members[member_id].luck, delta)
                        &&& r.members[member_id].bag == c.members[member_id].bag
                        &&& r.members[member_id].id == c.members[member_id].id
                        &&& r.members[member_id].display_name == c.members[member_id].display_name
                    }
                },
                MutationModel::BurnLuckBonus { delta } | MutationModel::QuidProQuoPenalty { delta } => {
                    &&& r.id == c.id
                    &&& r.luck as int == held_luck(c.luck, delta)
                    &&& r.version == c.version
                    &&& r.members == c.members
                },
                _ => true,
            }
        }),
{
    assert(seq![m].drop_last() =~= Seq::<MutationModel>::empty());
    assert(apply_mutations(c, Seq::<MutationModel>::empty()) == c);
    let r = apply_mutations(c, seq![m]);
    assert(r == crate::event_log::apply_mutation(c, m));
    match m {
        MutationModel::GiftLuckBonus { member_id, .. }
        | MutationModel::OstentatiousGiftPenalty { member_id, .. }
        | MutationModel::OstentatiousBurnPenalty { member_id, .. } => {
            assert(r.members.dom() =~= c.members.dom());
        },
        _ => {},
    }
}

// ── quid-pro-quo does not depend on order ──────────────────────────────────

/// A (sender, recipient) pair the other way round.
pub open spec fn reversed(k: (MemberId, MemberId)) -> (MemberId, MemberId) {
    (k.1, k.0)
}

/// Whether gifts from `k.0` to `k.1` and back are similar in value.
pub open spec fn pair_similar(rs: Seq<Record>, k: (MemberId, MemberId)) -> bool {
    reciprocal_similar(gift_values(rs, k), gift_values(rs, reversed(k)))
}

/// How many of the first `n` pairs of `ks` start a reciprocal pair and satisfy `p`.
pub open spec fn count_first(ks: Seq<(MemberId, MemberId)>, n: nat, p: spec_fn((MemberId, MemberId)) -> bool) -> nat
    decreases n,
{
    if n == 0 {
        0
    } else {
        count_first(ks, (n - 1) as nat, p) + if first_of_pair(ks, n - 1) && p(ks[n - 1]) {
            1nat
        } else {
            0nat
        }
    }
}

/// The pairs of `ks` whose reverse is also there and that satisfy `p`.
pub open spec fn two_way(ks: Set<(MemberId, MemberId)>, p: spec_fn((MemberId, MemberId)) -> bool) -> Set<(MemberId, MemberId)> {
    ks.filter(|k: (MemberId, MemberId)| ks.contains(reversed(k)) && p(k))
}

/// The self-gift pairs of `ks` that satisfy `p`.
pub open spec fn self_pairs(ks: Set<(MemberId, MemberId)>, p: spec_fn((MemberId, MemberId)) -> bool) -> Set<(MemberId, MemberId)> {
    ks.filter(|k: (MemberId, MemberId)| k == reversed(k) && p(k))
}

proof fn lemma_count_reciprocal_first(ks: Seq<(MemberId, MemberId)>, n: nat)
    ensures
        count_reciprocal(ks, n) == count_first(ks, n, |k: (MemberId, MemberId)| true),
    decreases n,
{
    if n > 0 {
        lemma_count_reciprocal_first(ks, (n - 1) as nat);
    }
}

proof fn lemma_count_qp_first(rs: Seq<Record>, ks: Seq<(MemberId, MemberId)>, n: nat)
    ensures
        count_quid_pro_quo(rs, ks, n) == count_first(ks, n, |k: (MemberId, MemberId)| pair_similar(rs, k)),
    decreases n,
{
    if n > 0 {
        lemma_count_qp_first(rs, ks, (n - 1) as nat);
    }
}

proof fn lemma_count_first_push(
    pre: Seq<(MemberId, MemberId)>,
    x: (MemberId, MemberId),
    m: nat,
    p: spec_fn((MemberId, MemberId)) -> bool,
)
    requires
        pre.push(x).no_duplicates(),
        m <= pre.len(),
    ensures
        count_first(pre.push(x), m, p) == count_first(pre, m, p) + if exists|i: int|
            0 <= i < m && pre[i] == reversed(x) && p(pre[i]) {
            1nat
        } else {
            0nat
        },
    decreases m,
{
    let ks = pre.push(x);
    if m > 0 {
        let i = m - 1;
        lemma_count_first_push(pre, x, (m - 1) as nat, p);
        assert(ks[i] == pre[i]);
        assert(ks[pre.len() as int] == x);
        // Position `i` starts a reciprocal pair in `ks` when it does in `pre`
        // or when its reverse is `x`; the two cannot both hold.
        if first_of_pair(pre, i) {
            let j = choose|j: int| i <= j < pre.len() && pre[j] == (pre[i].1, pre[i].0);
            assert(ks[j] == pre[j]);
            assert(first_of_pair(ks, i));
        }
        if pre[i] == reversed(x) {
            assert(ks[pre.len() as int] == (ks[i].1, ks[i].0));
            assert(first_of_pair(ks, i));
            assert(!first_of_pair(pre, i)) by {
                if first_of_pair(pre, i) {
                    let j = choose|j: int| i <= j < pre.len() && pre[j] == (pre[i].1, pre[i].0);
                    assert(ks[j] == x && j != pre.len());
                }
            }
        }
        if first_of_pair(ks, i) && !first_of_pair(pre, i) {
            let j = choose|j: int| i <= j < ks.len() && ks[j] == (ks[i].1, ks[i].0);
            if j < pre.len() {
                assert(pre[j] == ks[j]);
            }
            assert(j == pre.len());
            assert(pre[i] == reversed(x));
        }
        let e_prev = exists|k: int| 0 <= k < m - 1 && pre[k] == reversed(x) && p(pre[k]);
        let e_now = exists|k: int| 0 <= k < m && pre[k] == reversed(x) && p(pre[k]);
        if e_prev {
            let k = choose|k: int| 0 <= k < m - 1 && pre[k] == reversed(x) && p(pre[k]);
            assert(e_now);
            assert(pre[i] != reversed(x)) by {
                assert(ks[k] != ks[i]);
            }
        }
        if e_now && !e_prev {
            let k = choose|k: int| 0 <= k < m && pre[k] == reversed(x) && p(pre[k]);
            assert(k == i);
        }
        if pre[i] == reversed(x) && p(pre[i]) {
            assert(e_now);
        }
    }
}

proof fn lemma_count_first(ks: Seq<(MemberId, MemberId)>, p: spec_fn((MemberId, MemberId)) -> bool)
    requires
        ks.no_duplicates(),
        forall|k: (MemberId, MemberId)| #[trigger] p(k) == p(reversed(k)),
    ensures
        2 * count_first(ks, ks.len(), p) == two_way(ks.to_set(), p).len() + self_pairs(ks.to_set(), p).len(),
    decreases ks.len(),
{
    broadcast use vstd::set::group_set_axioms, vstd::seq_lib::seq_to_set_is_finite;

    if ks.len() == 0 {
        assert(ks.to_set() =~= Set::empty());
        assert(two_way(ks.to_set(), p) =~= Set::empty());
        assert(self_pairs(ks.to_set(), p) =~= Set::empty());
    } else {
        let n = ks.len() - 1;
        let pre = ks.drop_last();
        let x = ks[n];
        assert(ks =~= pre.push(x));
        assert(pre.no_duplicates());
        lemma_count_first(pre, p);
        lemma_count_first_push(pre, x, pre.len(), p);
        let s0 = pre.to_set();
        let s1 = ks.to_set();
        assert(s1 =~= s0.insert(x));
        assert(!s0.contains(x)) by {
            if s0.contains(x) {
                let j = choose|j: int| 0 <= j < pre.len() && pre[j] == x;
                assert(ks[j] == ks[n as int]);
            }
        }
        let rx = reversed(x);
        let has_rev = s0.contains(rx);
        assert(has_rev == exists|i: int| 0 <= i < pre.len() && pre[i] == rx);
        if has_rev {
            let i = choose|i: int| 0 <= i < pre.len() && pre[i] == rx;
            assert((exists|k: int| 0 <= k < pre.len() && pre[k] == rx && p(pre[k])) == p(rx));
        } else {
            assert(!(exists|k: int| 0 <= k < pre.len() && pre[k] == rx && p(pre[k])));
        }
        // The last position starts a reciprocal pair only for a self-gift.
        assert(first_of_pair(ks, n as int) == (x == rx)) by {
            if first_of_pair(ks, n as int) {
                let j = choose|j: int| n <= j < ks.len() && ks[j] == (ks[n as int].1, ks[n as int].0);
                assert(j == n);
            }
        }
        assert(p(x) == p(rx));
        let t0 = two_way(s0, p);
        let t1 = two_way(s1, p);
        let f0 = self_pairs(s0, p);
        let f1 = self_pairs(s1, p);
        assert(s0.finite());
        assert(t0.finite() && f0.finite());
        if x == rx {
            assert(t1 =~= if p(x) { t0.insert(x) } else { t0 });
            assert(f1 =~= if p(x) { f0.insert(x) } else { f0 });
            assert(!t0.contains(x) && !f0.contains(x));
        } else if has_rev {
            assert(t1 =~= if p(x) { t0.insert(x).insert(rx) } else { t0 });
            assert(f1 =~= f0);
            assert(!t0.contains(x));
            assert(!t0.contains(rx)) by {
                assert(!s0.contains(reversed(rx)));
            }
            assert(!t0.insert(x).contains(rx));
        } else {
            assert(t1 =~= t0);
            assert(f1 =~= f0);
        }
    }
}

proof fn lemma_gift_keys_members(rs: Seq<Record>)
    ensures
        gift_keys(rs).no_duplicates(),
        forall|k: (MemberId, MemberId)| #[trigger] gift_keys(rs).contains(k) <==> exists|i: int|
            0 <= i < rs.len() && gift_key(rs[i]) == Some(k),
    decreases rs.len(),
{
    if rs.len() > 0 {
        let p = rs.drop_last();
        lemma_gift_keys_members(p);
        let ks0 = gift_keys(p);
        let ks = gift_keys(rs);
        assert forall|k: (MemberId, MemberId)| #[trigger] ks.contains(k) <==> exists|i: int|
            0 <= i < rs.len() && gift_key(rs[i]) == Some(k) by {
            if ks.contains(k) {
                let j = choose|j: int| 0 <= j < ks.len() && ks[j] == k;
                if j < ks0.len() {
                    assert(ks0.contains(k));
                    let i = choose|i: int| 0 <= i < p.len() && gift_key(p[i]) == Some(k);
                    assert(rs[i] == p[i]);
                } else {
                    assert(gift_key(rs[rs.len() - 1]) == Some(k));
                }
            }
            if exists|i: int| 0 <= i < rs.len() && gift_key(rs[i]) == Some(k) {
                let i = choose|i: int| 0 <= i < rs.len() && gift_key(rs[i]) == Some(k);
                if i < p.len() {
                    assert(p[i] == rs[i]);
                    assert(ks0.contains(k));
                    let j = choose|j: int| 0 <= j < ks0.len() && ks0[j] == k;
                    assert(ks[j] == k);
                } else if ks0.contains(k) {
                    let j = choose|j: int| 0 <= j < ks0.len() && ks0[j] == k;
                    assert(ks[j] == k);
                } else {
                    assert(ks[ks.len() - 1] == k);
                }
            }
        }
    }
}

proof fn lemma_gift_values_members(rs: Seq<Record>, k: (MemberId, MemberId))
    ensures
        forall|v: nat| #[trigger] gift_values(rs, k).contains(v) <==> exists|i: int|
            0 <= i < rs.len() && gift_key(rs[i]) == Some(k) && gift_value(rs[i]) == v,
    decreases rs.len(),
{
    if rs.len() > 0 {
        let p = rs.drop_last();
        lemma_gift_values_members(p, k);
        let vs0 = gift_values(p, k);
        let vs = gift_values(rs, k);
        assert forall|v: nat| #[trigger] vs.contains(v) <==> exists|i: int|
            0 <= i < rs.len() && gift_key(rs[i]) == Some(k) && gift_value(rs[i]) == v by {
            if vs.contains(v) {
                let j = choose|j: int| 0 <= j < vs.len() && vs[j] == v;
                if j < vs0.len() {
                    assert(vs0.contains(v));
                    let i = choose|i: int| 0 <= i < p.len() && gift_key(p[i]) == Some(k) && gift_value(p[i]) == v;
                    assert(rs[i] == p[i]);
                } else {
                    assert(gift_key(rs[rs.len() - 1]) == Some(k));
                }
            }
            if exists|i: int| 0 <= i < rs.len() && gift_key(rs[i]) == Some(k) && gift_value(rs[i]) == v {
                let i = choose|i: int| 0 <= i < rs.len() && gift_key(rs[i]) == Some(k) && gift_value(rs[i]) == v;
                if i < p.len() {
                    assert(p[i] == rs[i]);
                    assert(vs0.contains(v));
                    let j = choose|j: int| 0 <= j < vs0.len() && vs0[j] == v;
                    assert(vs[j] == v);
                } else {
                    assert(vs[vs.len() - 1] == v);
                }
            }
        }
    }
}

proof fn lemma_same_records_same_pairs(a: Seq<Record>, b: Seq<Record>)
    requires
        a.to_multiset() == b.to_multiset(),
    ensures
        gift_keys(a).to_set() == gift_keys(b).to_set(),
        forall|k: (MemberId, MemberId)| #[trigger] pair_similar(a, k) == pair_similar(b, k),
{
    broadcast use vstd::seq_lib::group_to_multiset_ensures;

    lemma_gift_keys_members(a);
    lemma_gift_keys_members(b);
    a.to_multiset_ensures();
    b.to_multiset_ensures();
    assert forall|r: Record| a.contains(r) == b.contains(r) by {
        let ca = a.to_multiset().count(r);
        let cb = b.to_multiset().count(r);
        assert(ca == cb);
        assert(a.contains(r) <==> ca > 0);
        assert(b.contains(r) <==> cb > 0);
    }
    assert forall|k: (MemberId, MemberId)| gift_keys(a).contains(k) == gift_keys(b).contains(k) by {
        if exists|i: int| 0 <= i < a.len() && gift_key(a[i]) == Some(k) {
            let i = choose|i: int| 0 <= i < a.len() && gift_key(a[i]) == Some(k);
            assert(b.contains(a[i]));
        }
        if exists|i: int| 0 <= i < b.len() && gift_key(b[i]) == Some(k) {
            let i = choose|i: int| 0 <= i < b.len() && gift_key(b[i]) == Some(k);
            assert(a.contains(b[i]));
        }
    }
    assert(gift_keys(a).to_set() =~= gift_keys(b).to_set());
    assert forall|k: (MemberId, MemberId), v: nat|
        #[trigger] gift_values(a, k).contains(v) == gift_values(b, k).contains(v) by {
        lemma_gift_values_members(a, k);
        lemma_gift_values_members(b, k);
        if exists|i: int| 0 <= i < a.len() && gift_key(a[i]) == Some(k) && gift_value(a[i]) == v {
            let i = choose|i: int| 0 <= i < a.len() && gift_key(a[i]) == Some(k) && gift_value(a[i]) == v;
            assert(b.contains(a[i]));
        }
        if exists|i: int| 0 <= i < b.len() && gift_key(b[i]) == Some(k) && gift_value(b[i]) == v {
            let i = choose|i: int| 0 <= i < b.len() && gift_key(b[i]) == Some(k) && gift_value(b[i]) == v;
            assert(a.contains(b[i]));
        }
    }
    assert forall|k: (MemberId, MemberId)| #[trigger] pair_similar(a, k) == pair_similar(b, k) by {
        lemma_similar_by_contents(gift_values(a, k), gift_values(a, reversed(k)), gift_values(b, k), gift_values(b, reversed(k)));
    }
}

proof fn lemma_similar_by_contents(ab: Seq<nat>, ba: Seq<nat>, ab2: Seq<nat>, ba2: Seq<nat>)
    requires
        forall|v: nat| #[trigger] ab.contains(v) == ab2.contains(v),
        forall|v: nat| #[trigger] ba.contains(v) == ba2.contains(v),
    ensures
        reciprocal_similar(ab, ba) == reciprocal_similar(ab2, ba2),
{
    if reciprocal_similar(ab, ba) {
        let (i, j) = choose|i: int, j: int| 0 <= i < ab.len() && 0 <= j < ba.len() && similar_values(ab[i], ba[j]);
        assert(ab.contains(ab[i]) && ba.contains(ba[j]));
        assert(ab2.contains(ab[i]) && ba2.contains(ba[j]));
        let i2 = choose|i2: int| 0 <= i2 < ab2.len() && ab2[i2] == ab[i];
        let j2 = choose|j2: int| 0 <= j2 < ba2.len() && ba2[j2] == ba[j];
        assert(similar_values(ab2[i2], ba2[j2]));
    }
    if reciprocal_similar(ab2, ba2) {
        let (i, j) = choose|i: int, j: int| 0 <= i < ab2.len() && 0 <= j < ba2.len() && similar_values(ab2[i], ba2[j]);
        assert(ab2.contains(ab2[i]) && ba2.contains(ba2[j]));
        assert(ab.contains(ab2[i]) && ba.contains(ba2[j]));
        let i2 = choose|i2: int| 0 <= i2 < ab.len() && ab[i2] == ab2[i];
        let j2 = choose|j2: int| 0 <= j2 < ba.len() && ba[j2] == ba2[j];
        assert(similar_values(ab[i2], ba[j2]));
    }
}

proof fn lemma_pair_similar_symmetric(rs: Seq<Record>, k: (MemberId, MemberId))
    ensures
        pair_similar(rs, k) == pair_similar(rs, reversed(k)),
{
    let ab = gift_values(rs, k);
    let ba = gift_values(rs, reversed(k));
    assert(reversed(reversed(k)) == k);
    if reciprocal_similar(ab, ba) {
        let (i, j) = choose|i: int, j: int| 0 <= i < ab.len() && 0 <= j < ba.len() && similar_values(ab[i], ba[j]);
        assert(similar_values(ba[j], ab[i]));
    }
    if reciprocal_similar(ba, ab) {
        let (i, j) = choose|i: int, j: int| 0 <= i < ba.len() && 0 <= j < ab.len() && similar_values(ba[i], ab[j]);
        assert(similar_values(ab[j], ba[i]));
    }
}

/// The quid-pro-quo penalty depends only on which gift records there are,
/// not on their order: two lists holding the same records, each as often,
/// give the same penalty.
pub proof fn lemma_qp_order_independent(a: Seq<Record>, b: Seq<Record>)
    requires
        a.to_multiset() == b.to_multiset(),
    ensures
        qp_mutations(a) == qp_mutations(b),
{
    lemma_same_records_same_pairs(a, b);
    lemma_gift_keys_members(a);
    lemma_gift_keys_members(b);
    let ka = gift_keys(a);
    let kb = gift_keys(b);
    let all = |k: (MemberId, MemberId)| true;
    let pa = |k: (MemberId, MemberId)| pair_similar(a, k);
    let pb = |k: (MemberId, MemberId)| pair_similar(b, k);
    assert(pa =~= pb);
    assert forall|k: (MemberId, MemberId)| #[trigger] pa(k) == pa(reversed(k)) by {
        lemma_pair_similar_symmetric(a, k);
    }
    assert forall|k: (MemberId, MemberId)| #[trigger] all(k) == all(reversed(k)) by {}
    lemma_count_reciprocal_first(ka, ka.len());
    lemma_count_reciprocal_first(kb, kb.len());
    lemma_count_qp_first(a, ka, ka.len());
    lemma_count_qp_first(b, kb, kb.len());
    lemma_count_first(ka, all);
    lemma_count_first(kb, all);
    lemma_count_first(ka, pa);
    lemma_count_first(kb, pa);
    assert(count_reciprocal(ka, ka.len()) == count_reciprocal(kb, kb.len()));
    assert(count_quid_pro_quo(a, ka, ka.len()) == count_quid_pro_quo(b, kb, kb.len()));
}

} // verus!
