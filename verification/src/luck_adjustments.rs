//! Luck adjustments computed at grant time from what players did since the
//! previous grant.
//!
//! Fruit values are exact multiples of 1/255 (see `value_units_of`), so every
//! quantity here is computed exactly in those units; rounding is to the
//! nearest integer with halves rounded up, and deltas are clamped to the
//! range of `i16`.

use vstd::prelude::*;
use vstd::arithmetic::div_mod::lemma_fundamental_div_mod_converse;

use crate::bag::multiset_value;
use crate::community::{members_value, roster_value, Community, CommunityModel};
use crate::event_log::{
    apply_mutations, mutation_models, EventPayload, MutationModel, PayloadModel, Record, StateMutation,
};
use crate::fruit::value_units_of;
use crate::ids::MemberId;
use crate::member::{Member, MemberModel};

verus! {

/// Scale applied to gift and burn values to obtain luck bonuses.
pub const LUCK_SCALE: u128 = 10;

/// A gift or burn is ostentatious when its value exceeds this many times the
/// reference bag value.
pub const OSTENTATION_RATIO: u128 = 2;

/// Scale applied to the ostentatious excess to obtain a penalty.
pub const OSTENTATION_SCALE: u128 = 5;

/// Two reciprocal gift values are similar when their difference is less than
/// one `QP_SIMILARITY_DIVISOR`-th of the larger one.
pub const QP_SIMILARITY_DIVISOR: u128 = 5;

/// Largest quid-pro-quo penalty magnitude (reached when every reciprocal pair is similar).
pub const QP_MAX_PENALTY: u128 = 64;

/// How many recent gift records are consulted for quid-pro-quo detection.
pub const RECENT_GIFT_LIMIT: usize = 100;

/// `p / q` rounded to the nearest integer, halves rounded up.
pub open spec fn round_div(p: nat, q: nat) -> nat
    recommends
        q > 0,
{
    ((2 * p + q) / (2 * q)) as nat
}

/// `x` limited to the largest `i16`.
pub open spec fn clamp_i16(x: nat) -> i16 {
    if x > 32767 {
        32767
    } else {
        x as i16
    }
}

/// Bonus for gifts (or burns) worth `units` in total: `round(10 × value)`.
pub open spec fn bonus_delta(units: nat) -> i16 {
    clamp_i16(round_div(10 * units, 255))
}

/// Penalty for a gift worth `gift` to a recipient whose bag is worth `bag`:
/// `-round(5 × (value − 2 × bag value))` when positive, else `0`.
pub open spec fn gift_penalty(gift: nat, bag: nat) -> i16 {
    if gift > 2 * bag {
        (0 - clamp_i16(round_div(5 * (gift - 2 * bag) as nat, 255))) as i16
    } else {
        0
    }
}

/// Penalty for a burn worth `burned` in a community of `n` members whose bags
/// are worth `total` together: `-round(5 × (burned − 2 × average bag value))`
/// when positive, else `0` (the average of no members is `0`).
pub open spec fn burn_penalty(burned: nat, total: nat, n: nat) -> i16 {
    let n1: nat = if n == 0 { 1 } else { n };
    if burned * n1 > 2 * total {
        (0 - clamp_i16(round_div(5 * (burned * n1 - 2 * total) as nat, 255 * n1))) as i16
    } else {
        0
    }
}

/// Total value of the fruits removed by `ms`.
pub open spec fn removed_value(ms: Seq<MutationModel>) -> nat
    decreases ms.len(),
{
    if ms.len() == 0 {
        0
    } else {
        removed_value(ms.drop_last()) + match ms.last() {
            MutationModel::RemoveFruitFromMember { fruit, .. } => value_units_of(fruit),
            _ => 0,
        }
    }
}

/// The record's event was processed into a non-empty effect.
pub open spec fn effective(r: Record) -> bool {
    r.effect.is_some() && r.effect.unwrap().mutations@.len() > 0
}

/// The mutations of the record's effect.
pub open spec fn effect_models(r: Record) -> Seq<MutationModel> {
    mutation_models(r.effect.unwrap().mutations@)
}

/// `totals` with `v` added to the entry of `s`, or a new entry for `s` at the end.
pub open spec fn add_to_total(totals: Seq<(MemberId, nat)>, s: MemberId, v: nat) -> Seq<(MemberId, nat)> {
    if exists|i: int| 0 <= i < totals.len() && totals[i].0 == s {
        let i = choose|i: int| 0 <= i < totals.len() && totals[i].0 == s;
        totals.update(i, (s, totals[i].1 + v))
    } else {
        totals.push((s, v))
    }
}

/// What luck adjustments accumulate while walking the records.
pub struct LuckTally {
    /// The community with the walked effects applied.
    pub running: CommunityModel,
    /// Total gift value per sender, senders in order of first gift.
    pub gift_totals: Seq<(MemberId, nat)>,
    /// Total value burned.
    pub burn_total: nat,
    /// Ostentatious gift penalties, in record order.
    pub gift_penalties: Seq<(MemberId, i16)>,
    /// Ostentatious burn penalties, in record order.
    pub burn_penalties: Seq<(MemberId, i16)>,
}

/// The tally after one more record.
pub open spec fn tally_step(t: LuckTally, r: Record) -> LuckTally {
    if !effective(r) {
        t
    } else {
        let t1 = match r.event.payload@ {
            PayloadModel::Gift { sender_id, recipient_id, fruit, .. } => {
                let gv = value_units_of(fruit);
                let rv = if t.running.members.dom().contains(recipient_id) {
                    multiset_value(t.running.members[recipient_id].bag)
                } else {
                    0
                };
                let pen = gift_penalty(gv, rv);
                LuckTally {
                    gift_totals: add_to_total(t.gift_totals, sender_id, gv),
                    gift_penalties: if pen != 0 {
                        t.gift_penalties.push((sender_id, pen))
                    } else {
                        t.gift_penalties
                    },
                    ..t
                }
            },
            PayloadModel::Burn { member_id, .. } => {
                let burned = removed_value(effect_models(r));
                let pen = burn_penalty(
                    burned,
                    members_value(t.running.members),
                    t.running.members.dom().len(),
                );
                LuckTally {
                    burn_total: t.burn_total + burned,
                    burn_penalties: if pen != 0 {
                        t.burn_penalties.push((member_id, pen))
                    } else {
                        t.burn_penalties
                    },
                    ..t
                }
            },
            _ => t,
        };
        LuckTally { running: apply_mutations(t.running, effect_models(r)), ..t1 }
    }
}

/// The tally after walking `rs` from the snapshot `c`.
pub open spec fn tally(c: CommunityModel, rs: Seq<Record>) -> LuckTally
    decreases rs.len(),
{
    if rs.len() == 0 {
        LuckTally {
            running: c,
            gift_totals: Seq::empty(),
            burn_total: 0,
            gift_penalties: Seq::empty(),
            burn_penalties: Seq::empty(),
        }
    } else {
        tally_step(tally(c, rs.drop_last()), rs.last())
    }
}

/// One gift bonus per sender, in order of first gift.
pub open spec fn gift_bonus_mutations(totals: Seq<(MemberId, nat)>) -> Seq<MutationModel> {
    totals.map_values(
        |e: (MemberId, nat)| MutationModel::GiftLuckBonus { member_id: e.0, delta: bonus_delta(e.1) },
    )
}

/// The burn bonus, if positive.
pub open spec fn burn_bonus_mutations(total: nat) -> Seq<MutationModel> {
    if bonus_delta(total) > 0 {
        seq![MutationModel::BurnLuckBonus { delta: bonus_delta(total) }]
    } else {
        Seq::empty()
    }
}

/// The gift penalties as mutations.
pub open spec fn gift_penalty_mutations(p: Seq<(MemberId, i16)>) -> Seq<MutationModel> {
    p.map_values(
        |e: (MemberId, i16)| MutationModel::OstentatiousGiftPenalty { member_id: e.0, delta: e.1 },
    )
}

/// The burn penalties as mutations.
pub open spec fn burn_penalty_mutations(p: Seq<(MemberId, i16)>) -> Seq<MutationModel> {
    p.map_values(
        |e: (MemberId, i16)| MutationModel::OstentatiousBurnPenalty { member_id: e.0, delta: e.1 },
    )
}

// ── quid-pro-quo ───────────────────────────────────────────────────────────

/// The sender and recipient of a processed gift record.
pub open spec fn gift_key(r: Record) -> Option<(MemberId, MemberId)> {
    if effective(r) {
        match r.event.payload@ {
            PayloadModel::Gift { sender_id, recipient_id, .. } => Some((sender_id, recipient_id)),
            _ => None,
        }
    } else {
        None
    }
}

/// The value of the fruit of a gift record.
pub open spec fn gift_value(r: Record) -> nat {
    match r.event.payload@ {
        PayloadModel::Gift { fruit, .. } => value_units_of(fruit),
        _ => 0,
    }
}

/// Distinct (sender, recipient) pairs of processed gifts, in order of first occurrence.
pub open spec fn gift_keys(rs: Seq<Record>) -> Seq<(MemberId, MemberId)>
    decreases rs.len(),
{
    if rs.len() == 0 {
        Seq::empty()
    } else {
        let ks = gift_keys(rs.drop_last());
        match gift_key(rs.last()) {
            Some(k) => if ks.contains(k) {
                ks
            } else {
                ks.push(k)
            },
            None => ks,
        }
    }
}

/// Values of the processed gifts from `k.0` to `k.1`, in record order.
pub open spec fn gift_values(rs: Seq<Record>, k: (MemberId, MemberId)) -> Seq<nat>
    decreases rs.len(),
{
    if rs.len() == 0 {
        Seq::empty()
    } else {
        let vs = gift_values(rs.drop_last(), k);
        if gift_key(rs.last()) == Some(k) {
            vs.push(gift_value(rs.last()))
        } else {
            vs
        }
    }
}

/// Two gift values are different but within a fifth of the larger one.
pub open spec fn similar_values(a: nat, b: nat) -> bool {
    let hi = if a >= b { a } else { b };
    let diff = if a >= b { a - b } else { b - a };
    a != b && 5 * diff < hi
}

/// Some gift one way is similar to some gift the other way.
pub open spec fn reciprocal_similar(ab: Seq<nat>, ba: Seq<nat>) -> bool {
    exists|i: int, j: int| 0 <= i < ab.len() && 0 <= j < ba.len() && similar_values(ab[i], ba[j])
}

/// The pair at position `i` is the first of a reciprocal pair (a self-gift
/// pair is its own reverse).
pub open spec fn first_of_pair(ks: Seq<(MemberId, MemberId)>, i: int) -> bool {
    exists|j: int| i <= j < ks.len() && ks[j] == (ks[i].1, ks[i].0)
}

/// How many of the first `n` pairs start a reciprocal pair.
pub open spec fn count_reciprocal(ks: Seq<(MemberId, MemberId)>, n: nat) -> nat
    decreases n,
{
    if n == 0 {
        0
    } else {
        count_reciprocal(ks, (n - 1) as nat) + if first_of_pair(ks, n - 1) { 1nat } else { 0nat }
    }
}

/// How many of the first `n` pairs start a reciprocal pair whose gifts are similar.
pub open spec fn count_quid_pro_quo(rs: Seq<Record>, ks: Seq<(MemberId, MemberId)>, n: nat) -> nat
    decreases n,
{
    if n == 0 {
        0
    } else {
        count_quid_pro_quo(rs, ks, (n - 1) as nat) + if first_of_pair(ks, n - 1) && reciprocal_similar(
            gift_values(rs, ks[n - 1]),
            gift_values(rs, (ks[n - 1].1, ks[n - 1].0)),
        ) {
            1nat
        } else {
            0nat
        }
    }
}

/// The quid-pro-quo penalty: `-round(64 × similar pairs / reciprocal pairs)`,
/// if there is a similar pair and the rounded magnitude is non-zero.
pub open spec fn qp_mutations(rs: Seq<Record>) -> Seq<MutationModel> {
    let ks = gift_keys(rs);
    let total = count_reciprocal(ks, ks.len());
    let qp = count_quid_pro_quo(rs, ks, ks.len());
    if qp == 0 || round_div(64 * qp, total) == 0 {
        Seq::empty()
    } else {
        seq![MutationModel::QuidProQuoPenalty { delta: (0 - round_div(64 * qp, total)) as i16 }]
    }
}

/// The luck mutations for a grant: gift bonuses, then the burn bonus, then
/// ostentatious gift penalties, then ostentatious burn penalties, then the
/// quid-pro-quo penalty.
pub open spec fn luck_mutations(c: CommunityModel, rs: Seq<Record>, gifts: Seq<Record>) -> Seq<MutationModel> {
    let t = tally(c, rs);
    gift_bonus_mutations(t.gift_totals) + burn_bonus_mutations(t.burn_total) + gift_penalty_mutations(
        t.gift_penalties,
    ) + burn_penalty_mutations(t.burn_penalties) + qp_mutations(gifts)
}

// ── exact arithmetic ──────────────────────────────────────────────────────

/// Totals at or above this cap give the largest bonus.
const BONUS_CAP: u128 = 1_000_000_000;

/// `x` as the largest `i16` when above it.
fn clamp_to_i16(x: u128) -> (r: i16)
    ensures
        r == clamp_i16(x as nat),
{
    if x > 32767 {
        32767
    } else {
        x as i16
    }
}

proof fn lemma_bonus_saturates(units: nat)
    requires
        units >= BONUS_CAP,
    ensures
        bonus_delta(units) == 32767,
        bonus_delta(BONUS_CAP as nat) == 32767,
{
    assert((2 * (10 * units) + 255) / (2 * 255) >= 32768) by (nonlinear_arith)
        requires
            units >= 1_000_000_000,
    ;
    assert((2 * (10 * 1_000_000_000nat) + 255) / (2 * 255) >= 32768) by (nonlinear_arith);
}

/// The bonus for a total of `units` (a total at the cap stands for any larger one).
fn bonus_for(units: u128) -> (d: i16)
    requires
        units <= 5100 * (usize::MAX as nat),
    ensures
        d == bonus_delta(units as nat),
{
    clamp_to_i16((20 * units + 255) / 510)
}

/// The penalty for a gift worth `gift` to a recipient whose bag is worth `bag`.
fn gift_penalty_for(gift: u32, bag: u128) -> (d: i16)
    requires
        gift <= 5100,
    ensures
        d == gift_penalty(gift as nat, bag as nat),
{
    let g = gift as u128;
    if bag <= 2550 && g > 2 * bag {
        let x = 5 * (g - 2 * bag);
        let m = clamp_to_i16((2 * x + 255) / 510);
        0 - m
    } else {
        0
    }
}

proof fn lemma_burn_penalty_parts(b: nat, s: nat, n: nat, q: nat, r: nat)
    requires
        n >= 1,
        20 * s == q * n + r,
        r < n,
    ensures
        (b * n > 2 * s) == (10 * b > q),
        10 * b > q ==> round_div(5 * (b * n - 2 * s) as nat, 255 * n) == ((10 * b + 255 - q) as nat) / 510
            - (if ((10 * b + 255 - q) as nat) % 510 == 0 && r > 0 { 1int } else { 0int }),
{
    if 10 * b > q {
        assert(10 * b * n >= q * n + n) by (nonlinear_arith)
            requires
                10 * b >= q + 1,
                n >= 1,
        ;
        assert(b * n > 2 * s) by (nonlinear_arith)
            requires
                10 * b * n >= q * n + n,
                20 * s == q * n + r,
                r < n,
        ;
        let t: int = 10 * b + 255 - q;
        let a: int = t / 510;
        let c: int = t % 510;
        assert(t == 510 * a + c && 0 <= c < 510) by (nonlinear_arith)
            requires
                t > 0,
                a == t / 510,
                c == t % 510,
        ;
        let x: int = 2 * (5 * (b * n - 2 * s)) + 255 * n;
        assert(x == n * t - r) by (nonlinear_arith)
            requires
                x == 2 * (5 * (b * n - 2 * s)) + 255 * n,
                20 * s == q * n + r,
                t == 10 * b + 255 - q,
        ;
        let delta: int = if c == 0 && r > 0 { 1 } else { 0 };
        let rho: int = n * c - r + delta * 510 * n;
        assert(x == (a - delta) * (2 * (255 * n)) + rho) by (nonlinear_arith)
            requires
                x == n * t - r,
                t == 510 * a + c,
                rho == n * c - r + delta * 510 * n,
        ;
        assert(0 <= rho < 2 * (255 * n)) by (nonlinear_arith)
            requires
                rho == n * c - r + delta * 510 * n,
                0 <= c < 510,
                0 <= r < n,
                delta == (if c == 0 && r > 0 { 1int } else { 0int }),
        ;
        lemma_fundamental_div_mod_converse(x, (2 * (255 * n)) as int, a - delta, rho);
    } else {
        assert(b * n <= 2 * s) by (nonlinear_arith)
            requires
                10 * b <= q,
                20 * s == q * n + r,
                n >= 1,
        ;
    }
}

/// The largest total value of one bag: each fruit is worth at most 5100 units.
pub open spec fn max_bag_value() -> nat {
    5100 * (usize::MAX as nat)
}

/// The burn penalty for a burn worth `burned` in the community `running`.
fn burn_penalty_for(burned: u128, running: &Community) -> (d: i16)
    requires
        running.wf(),
        burned <= 5100 * (usize::MAX as nat),
    ensures
        d == burn_penalty(burned as nat, members_value(running@.members), running@.members.dom().len()),
{
    let n = running.member_count();
    proof {
        running.lemma_value_roster();
        running.lemma_roster();
    }
    if n == 0 {
        proof {
            assert(members_value(running@.members) == 0);
        }
        if burned > 0 {
            let m = clamp_to_i16((10 * burned + 255) / 510);
            proof {
                assert(round_div(5 * (burned * 1 - 0) as nat, 255 * 1) == (10 * burned + 255) / 510);
            }
            return 0 - m;
        } else {
            return 0;
        }
    }
    let ms = running.members();
    let nn = n as u128;
    let mut q: u128 = 0;
    let mut r: u128 = 0;
    let mut i: usize = 0;
    let ghost roster = running.roster();
    while i < ms.len()
        invariant
            ms@.map_values(|m: Member| m@) == roster,
            roster.len() == n,
            nn == n,
            n >= 1,
            i <= ms@.len(),
            r < nn,
            20 * roster_value(roster.subrange(0, i as int)) == q * nn + r,
            roster_value(roster.subrange(0, i as int)) <= i * max_bag_value(),
            q <= 20 * max_bag_value(),
        decreases ms@.len() - i,
    {
        let v = ms[i].bag.value_units();
        assert(v <= max_bag_value());
        proof {
            assert(roster.subrange(0, i + 1).drop_last() =~= roster.subrange(0, i as int));
            assert(roster[i as int] == ms@[i as int]@);
        }
        let w = 20 * v;
        let ghost q0 = q;
        let ghost r0 = r;
        proof {
            vstd::arithmetic::div_mod::lemma_fundamental_div_mod(w as int, nn as int);
            assert(w % nn < nn);
        }
        q = q + w / nn;
        r = r + w % nn;
        if r >= nn {
            q = q + 1;
            r = r - nn;
        }
        proof {
            assert(q * nn + r == q0 * nn + r0 + w) by (nonlinear_arith)
                requires
                    w == nn * (w / nn) + w % nn,
                    (q == q0 + w / nn && r == r0 + w % nn) || (q == q0 + w / nn + 1 && r == r0 + w % nn - nn),
            ;
            let p1 = roster_value(roster.subrange(0, i + 1));
            assert(p1 == roster_value(roster.subrange(0, i as int)) + v);
            assert(p1 <= (i + 1) * max_bag_value()) by (nonlinear_arith)
                requires
                    p1 == roster_value(roster.subrange(0, i as int)) + v,
                    roster_value(roster.subrange(0, i as int)) <= i * max_bag_value(),
                    v <= max_bag_value(),
            ;
            assert(q * nn <= 20 * p1) by (nonlinear_arith)
                requires
                    20 * p1 == q * nn + r,
            ;
            assert(q <= 20 * max_bag_value()) by (nonlinear_arith)
                requires
                    q * nn <= 20 * p1,
                    p1 <= (i + 1) * max_bag_value(),
                    i + 1 <= nn,
                    nn >= 1,
            ;
        }
        i = i + 1;
    }
    proof {
        assert(roster.subrange(0, i as int) =~= roster);
        lemma_burn_penalty_parts(burned as nat, members_value(running@.members), n as nat, q as nat, r as nat);
    }
    if 10 * burned > q {
        let t = 10 * burned + 255 - q;
        let a = t / 510;
        let m = if t % 510 == 0 && r > 0 { a - 1 } else { a };
        0 - clamp_to_i16(m)
    } else {
        0
    }
}


// ── the walk over the records ─────────────────────────────────────────────

/// Total value of the fruits removed by `ms`.
fn removed_value_of(ms: &Vec<StateMutation>) -> (v: u128)
    ensures
        v == removed_value(mutation_models(ms@)),
        v <= 5100 * (usize::MAX as nat),
{
    let mut v: u128 = 0;
    let mut i: usize = 0;
    while i < ms.len()
        invariant
            i <= ms@.len(),
            v <= 5100 * i,
            v == removed_value(mutation_models(ms@.subrange(0, i as int))),
        decreases ms@.len() - i,
    {
        proof {
            assert(mutation_models(ms@.subrange(0, i + 1)).drop_last() =~= mutation_models(
                ms@.subrange(0, i as int),
            ));
            assert(mutation_models(ms@.subrange(0, i + 1)).last() == ms@[i as int]@);
        }
        match &ms[i] {
            StateMutation::RemoveFruitFromMember { fruit, .. } => {
                v = v + fruit.value_units() as u128;
            },
            _ => {},
        }
        i = i + 1;
    }
    assert(ms@.subrange(0, i as int) =~= ms@);
    v
}

/// The exec totals as a sequence of (sender, value) pairs.
pub open spec fn totals_view(ts: Seq<(MemberId, u128)>) -> Seq<(MemberId, nat)> {
    ts.map_values(|e: (MemberId, u128)| (e.0, e.1 as nat))
}

/// No sender occurs twice.
pub open spec fn distinct_senders(ts: Seq<(MemberId, nat)>) -> bool {
    forall|i: int, j: int| 0 <= i < j < ts.len() ==> ts[i].0 != ts[j].0
}

/// Adds `v` to the total of `s`.
fn add_total(ts: &mut Vec<(MemberId, u128)>, s: MemberId, v: u128, Ghost(bound): Ghost<nat>)
    requires
        distinct_senders(totals_view(old(ts)@)),
        forall|k: int| 0 <= k < old(ts)@.len() ==> (#[trigger] old(ts)@[k]).1 + v <= bound,
        v <= bound,
        bound <= u128::MAX,
    ensures
        distinct_senders(totals_view(final(ts)@)),
        totals_view(final(ts)@) == add_to_total(totals_view(old(ts)@), s, v as nat),
        forall|k: int| 0 <= k < final(ts)@.len() ==> (#[trigger] final(ts)@[k]).1 <= bound,
{
    let ghost tv = totals_view(ts@);
    let mut i: usize = 0;
    while i < ts.len()
        invariant
            i <= ts@.len(),
            ts@ == old(ts)@,
            tv == totals_view(old(ts)@),
            distinct_senders(tv),
            forall|k: int| 0 <= k < old(ts)@.len() ==> (#[trigger] old(ts)@[k]).1 + v <= bound,
            v <= bound,
            bound <= u128::MAX,
            forall|k: int| 0 <= k < i ==> ts@[k].0 != s,
        decreases ts@.len() - i,
    {
        if ts[i].0 == s {
            let e = ts[i];
            ts.set(i, (s, e.1 + v));
            proof {
                assert(tv[i as int].0 == s);
                let c = choose|c: int| 0 <= c < tv.len() && tv[c].0 == s;
                if c != i {
                    if c < i {
                        assert(tv[c].0 != tv[i as int].0);
                    } else {
                        assert(tv[i as int].0 != tv[c].0);
                    }
                }
                assert(totals_view(ts@) =~= tv.update(i as int, (s, (tv[i as int].1 + v) as nat)));
            }
            return;
        }
        i = i + 1;
    }
    ts.push((s, v));
    proof {
        assert(!(exists|c: int| 0 <= c < tv.len() && tv[c].0 == s)) by {
            if exists|c: int| 0 <= c < tv.len() && tv[c].0 == s {
                let c = choose|c: int| 0 <= c < tv.len() && tv[c].0 == s;
                assert(old(ts)@[c].0 == s);
            }
        }
        assert(totals_view(ts@) =~= tv.push((s, v as nat)));
    }
}

/// Computes luck adjustment mutations based on player actions since the last grant.
///
/// `community_at_last_grant` is the community snapshot immediately after the
/// previous grant. `records_since_last_grant` holds the records in ascending
/// sequence order between the previous grant and the current one, and
/// `recent_gift_records` up to 100 of the most recent gift records for
/// quid-pro-quo detection.
///
/// Mutations are emitted in the order: gift bonuses → burn bonus →
/// ostentatious gift penalties → ostentatious burn penalties → quid-pro-quo
/// penalty. Records with absent or empty effects are skipped entirely.
pub fn compute(
    community_at_last_grant: &Community,
    records_since_last_grant: &[Record],
    recent_gift_records: &[Record],
) -> (r: Vec<StateMutation>)
    requires
        community_at_last_grant.wf(),
    ensures
        mutation_models(r@) == luck_mutations(
            community_at_last_grant@,
            records_since_last_grant@,
            recent_gift_records@,
        ),
{
    let records = records_since_last_grant;
    let ghost c0 = community_at_last_grant@;
    let mut running = community_at_last_grant.clone();
    let mut totals: Vec<(MemberId, u128)> = Vec::new();
    let mut burn_capped: u128 = 0;
    let mut gift_pens: Vec<(MemberId, i16)> = Vec::new();
    let mut burn_pens: Vec<(MemberId, i16)> = Vec::new();
    let mut i: usize = 0;
    proof {
        assert(totals_view(totals@) =~= Seq::<(MemberId, nat)>::empty());
        assert(records@.subrange(0, 0) =~= Seq::<Record>::empty());
    }
    while i < records.len()
        invariant
            i <= records@.len(),
            running.wf(),
            running@ == tally(c0, records@.subrange(0, i as int)).running,
            distinct_senders(totals_view(totals@)),
            totals_view(totals@) == tally(c0, records@.subrange(0, i as int)).gift_totals,
            forall|k: int| 0 <= k < totals@.len() ==> (#[trigger] totals@[k]).1 <= 5100 * i,
            burn_capped == if tally(c0, records@.subrange(0, i as int)).burn_total < BONUS_CAP {
                tally(c0, records@.subrange(0, i as int)).burn_total
            } else {
                BONUS_CAP as nat
            },
            gift_pens@ == tally(c0, records@.subrange(0, i as int)).gift_penalties,
            burn_pens@ == tally(c0, records@.subrange(0, i as int)).burn_penalties,
        decreases records@.len() - i,
    {
        let rec = &records[i];
        let ghost t = tally(c0, records@.subrange(0, i as int));
        proof {
            assert(records@.subrange(0, i + 1).drop_last() =~= records@.subrange(0, i as int));
            assert(records@.subrange(0, i + 1).last() == *rec);
        }
        match &rec.effect {
            None => {},
            Some(e) => {
                if e.mutations.len() > 0 {
                    match &rec.event.payload {
                        EventPayload::Gift { sender_id, recipient_id, fruit, .. } => {
                            let gv = fruit.value_units();
                            add_total(&mut totals, *sender_id, gv as u128, Ghost(5100 * (i + 1) as nat));
                            let rv = match running.member(*recipient_id) {
                                Some(m) => m.bag.value_units(),
                                None => 0,
                            };
                            let pen = gift_penalty_for(gv, rv);
                            if pen != 0 {
                                gift_pens.push((*sender_id, pen));
                            }
                        },
                        EventPayload::Burn { member_id, .. } => {
                            let burned = removed_value_of(&e.mutations);
                            if burn_capped + burned >= BONUS_CAP {
                                burn_capped = BONUS_CAP;
                            } else {
                                burn_capped = burn_capped + burned;
                            }
                            let pen = burn_penalty_for(burned, &running);
                            if pen != 0 {
                                burn_pens.push((*member_id, pen));
                            }
                        },
                        _ => {},
                    }
                    e.apply(&mut running);
                }
            },
        }
        proof {
            assert forall|k: int| 0 <= k < totals@.len() implies (#[trigger] totals@[k]).1 <= 5100 * (i + 1) by {
            }
        }
        i = i + 1;
    }
    proof {
        assert(records@.subrange(0, i as int) =~= records@);
    }
    let ghost t = tally(c0, records@);
    let mut out: Vec<StateMutation> = Vec::new();
    let mut k: usize = 0;
    while k < totals.len()
        invariant
            k <= totals@.len(),
            forall|j: int| 0 <= j < totals@.len() ==> (#[trigger] totals@[j]).1 <= 5100 * records@.len(),
            records@.len() <= usize::MAX,
            mutation_models(out@) == gift_bonus_mutations(totals_view(totals@).subrange(0, k as int)),
        decreases totals@.len() - k,
    {
        let (s, v) = totals[k];
        let ghost before = out@;
        out.push(StateMutation::GiftLuckBonus { member_id: s, delta: bonus_for(v) });
        proof {
            assert(mutation_models(out@) =~= mutation_models(before).push(
                MutationModel::GiftLuckBonus { member_id: s, delta: bonus_delta(v as nat) },
            ));
            assert(gift_bonus_mutations(totals_view(totals@).subrange(0, k + 1)) =~= gift_bonus_mutations(
                totals_view(totals@).subrange(0, k as int),
            ).push(MutationModel::GiftLuckBonus { member_id: s, delta: bonus_delta(v as nat) }));
        }
        k = k + 1;
    }
    proof {
        assert(totals_view(totals@).subrange(0, k as int) =~= t.gift_totals);
    }
    let ghost after_gifts = out@;
    let bd = bonus_for(burn_capped);
    proof {
        if t.burn_total >= BONUS_CAP {
            lemma_bonus_saturates(t.burn_total);
        }
        assert(bd == bonus_delta(t.burn_total));
    }
    if bd > 0 {
        out.push(StateMutation::BurnLuckBonus { delta: bd });
    }
    proof {
        assert(mutation_models(out@) =~= mutation_models(after_gifts) + burn_bonus_mutations(t.burn_total));
    }
    let ghost after_burn = out@;
    let mut k: usize = 0;
    while k < gift_pens.len()
        invariant
            k <= gift_pens@.len(),
            mutation_models(out@) == mutation_models(after_burn) + gift_penalty_mutations(
                gift_pens@.subrange(0, k as int),
            ),
        decreases gift_pens@.len() - k,
    {
        let (s, d) = gift_pens[k];
        let ghost before = out@;
        out.push(StateMutation::OstentatiousGiftPenalty { member_id: s, delta: d });
        proof {
            assert(mutation_models(out@) =~= mutation_models(before).push(
                MutationModel::OstentatiousGiftPenalty { member_id: s, delta: d },
            ));
            assert(gift_penalty_mutations(gift_pens@.subrange(0, k + 1)) =~= gift_penalty_mutations(
                gift_pens@.subrange(0, k as int),
            ).push(MutationModel::OstentatiousGiftPenalty { member_id: s, delta: d }));
        }
        k = k + 1;
    }
    proof {
        assert(gift_pens@.subrange(0, k as int) =~= gift_pens@);
    }
    let ghost after_gift_pens = out@;
    let mut k: usize = 0;
    while k < burn_pens.len()
        invariant
            k <= burn_pens@.len(),
            mutation_models(out@) == mutation_models(after_gift_pens) + burn_penalty_mutations(
                burn_pens@.subrange(0, k as int),
            ),
        decreases burn_pens@.len() - k,
    {
        let (s, d) = burn_pens[k];
        let ghost before = out@;
        out.push(StateMutation::OstentatiousBurnPenalty { member_id: s, delta: d });
        proof {
            assert(mutation_models(out@) =~= mutation_models(before).push(
                MutationModel::OstentatiousBurnPenalty { member_id: s, delta: d },
            ));
            assert(burn_penalty_mutations(burn_pens@.subrange(0, k + 1)) =~= burn_penalty_mutations(
                burn_pens@.subrange(0, k as int),
            ).push(MutationModel::OstentatiousBurnPenalty { member_id: s, delta: d }));
        }
        k = k + 1;
    }
    proof {
        assert(burn_pens@.subrange(0, k as int) =~= burn_pens@);
    }
    let ghost after_burn_pens = out@;
    match qp_penalty(recent_gift_records) {
        Some(m) => {
            out.push(m);
        },
        None => {},
    }
    proof {
        assert(mutation_models(out@) =~= mutation_models(after_burn_pens) + qp_mutations(
            recent_gift_records@,
        ));
        assert(mutation_models(out@) =~= luck_mutations(c0, records@, recent_gift_records@));
    }
    out
}


// ── quid-pro-quo detection ─────────────────────────────────────────────────

/// The values of the gifts collected for each pair, as numbers.
pub open spec fn values_view(vals: Seq<Vec<u32>>) -> Seq<Seq<nat>> {
    vals.map_values(|v: Vec<u32>| v@.map_values(|x: u32| x as nat))
}

/// The exec key of a gift record, if it is a processed gift.
fn gift_key_of(rec: &Record) -> (r: Option<(MemberId, MemberId, u32)>)
    ensures
        match r {
            Some(k) => gift_key(*rec) == Some((k.0, k.1)) && k.2 as nat == gift_value(*rec) && k.2 <= 5100,
            None => gift_key(*rec) is None,
        },
{
    match &rec.effect {
        None => None,
        Some(e) => {
            if e.mutations.len() == 0 {
                None
            } else {
                match &rec.event.payload {
                    EventPayload::Gift { sender_id, recipient_id, fruit, .. } => Some(
                        (*sender_id, *recipient_id, fruit.value_units()),
                    ),
                    _ => None,
                }
            }
        },
    }
}

/// Position of `k` in `keys` at or after `start`, if any.
fn find_key(keys: &Vec<(MemberId, MemberId)>, start: usize, k: (MemberId, MemberId)) -> (r: Option<usize>)
    ensures
        match r {
            Some(j) => start <= j < keys@.len() && keys@[j as int] == k,
            None => forall|j: int| start <= j < keys@.len() ==> keys@[j] != k,
        },
{
    let mut j = start;
    while j < keys.len()
        invariant
            start <= j || keys@.len() <= j,
            forall|m: int| start <= m < j && m < keys@.len() ==> keys@[m] != k,
        decreases keys@.len() - j,
    {
        if keys[j].0 == k.0 && keys[j].1 == k.1 {
            return Some(j);
        }
        j = j + 1;
    }
    None
}

/// Whether two gift values are different but within a fifth of the larger one.
fn similar(a: u32, b: u32) -> (r: bool)
    ensures
        r == similar_values(a as nat, b as nat),
{
    let hi: u64 = if a >= b { a as u64 } else { b as u64 };
    let diff: u64 = if a >= b { (a - b) as u64 } else { (b - a) as u64 };
    a != b && 5 * diff < hi
}

/// Whether some value of `ab` is similar to some value of `ba`.
fn any_similar(ab: &Vec<u32>, ba: &Vec<u32>) -> (r: bool)
    ensures
        r == reciprocal_similar(ab@.map_values(|x: u32| x as nat), ba@.map_values(|x: u32| x as nat)),
{
    let ghost a = ab@.map_values(|x: u32| x as nat);
    let ghost b = ba@.map_values(|x: u32| x as nat);
    let mut i: usize = 0;
    while i < ab.len()
        invariant
            i <= ab@.len(),
            a == ab@.map_values(|x: u32| x as nat),
            b == ba@.map_values(|x: u32| x as nat),
            forall|p: int, q: int| 0 <= p < i && 0 <= q < b.len() ==> !similar_values(a[p], b[q]),
        decreases ab@.len() - i,
    {
        let mut j: usize = 0;
        while j < ba.len()
            invariant
                i < ab@.len(),
                j <= ba@.len(),
                a == ab@.map_values(|x: u32| x as nat),
                b == ba@.map_values(|x: u32| x as nat),
                forall|p: int, q: int| 0 <= p < i && 0 <= q < b.len() ==> !similar_values(a[p], b[q]),
                forall|q: int| 0 <= q < j ==> !similar_values(a[i as int], b[q]),
            decreases ba@.len() - j,
        {
            if similar(ab[i], ba[j]) {
                assert(similar_values(a[i as int], b[j as int]));
                return true;
            }
            j = j + 1;
        }
        i = i + 1;
    }
    false
}

proof fn lemma_gift_keys_distinct(rs: Seq<Record>)
    ensures
        forall|a: int, b: int|
            0 <= a < b < gift_keys(rs).len() ==> gift_keys(rs)[a] != gift_keys(rs)[b],
    decreases rs.len(),
{
    if rs.len() > 0 {
        lemma_gift_keys_distinct(rs.drop_last());
        let ks = gift_keys(rs.drop_last());
        match gift_key(rs.last()) {
            Some(k) => {
                if !ks.contains(k) {
                    assert forall|a: int, b: int|
                        0 <= a < b < gift_keys(rs).len() implies gift_keys(rs)[a] != gift_keys(rs)[b] by {
                        if b == ks.len() {
                            assert(gift_keys(rs)[a] == ks[a]);
                        }
                    }
                }
            },
            None => {},
        }
    }
}

proof fn lemma_gift_values_absent(rs: Seq<Record>, k: (MemberId, MemberId))
    requires
        !gift_keys(rs).contains(k),
    ensures
        gift_values(rs, k) == Seq::<nat>::empty(),
    decreases rs.len(),
{
    if rs.len() > 0 {
        let ks = gift_keys(rs.drop_last());
        if gift_key(rs.last()) == Some(k) {
            if ks.contains(k) {
                assert(gift_keys(rs) == ks);
            } else {
                assert(gift_keys(rs) == ks.push(k));
                assert(gift_keys(rs)[ks.len() as int] == k);
            }
        } else {
            assert forall|j: int| 0 <= j < ks.len() implies ks[j] != k by {
                if ks[j] == k {
                    match gift_key(rs.last()) {
                        Some(k2) => {
                            if !ks.contains(k2) {
                                assert(gift_keys(rs)[j] == k);
                            }
                        },
                        None => {},
                    }
                }
            }
        }
        lemma_gift_values_absent(rs.drop_last(), k);
    }
}

/// The quid-pro-quo penalty for the recent gift records, if any.
pub fn qp_penalty(gifts: &[Record]) -> (r: Option<StateMutation>)
    ensures
        match r {
            Some(m) => qp_mutations(gifts@) == seq![m@],
            None => qp_mutations(gifts@) == Seq::<MutationModel>::empty(),
        },
{
    let mut keys: Vec<(MemberId, MemberId)> = Vec::new();
    let mut vals: Vec<Vec<u32>> = Vec::new();
    let mut i: usize = 0;
    proof {
        assert(gifts@.subrange(0, 0) =~= Seq::<Record>::empty());
    }
    while i < gifts.len()
        invariant
            i <= gifts@.len(),
            keys@ == gift_keys(gifts@.subrange(0, i as int)),
            vals@.len() == keys@.len(),
            forall|m: int|
                0 <= m < keys@.len() ==> #[trigger] values_view(vals@)[m] == gift_values(
                    gifts@.subrange(0, i as int),
                    keys@[m],
                ),
        decreases gifts@.len() - i,
    {
        let ghost pre = gifts@.subrange(0, i as int);
        let ghost post = gifts@.subrange(0, i + 1);
        proof {
            assert(post.drop_last() =~= pre);
            assert(post.last() == gifts@[i as int]);
        }
        match gift_key_of(&gifts[i]) {
            None => {
                proof {
                    assert forall|m: int|
                        0 <= m < keys@.len() implies #[trigger] values_view(vals@)[m] == gift_values(
                            post,
                            keys@[m],
                        ) by {
                        assert(values_view(vals@)[m] == gift_values(pre, keys@[m]));
                    }
                }
            },
            Some((s, r, v)) => {
                let ghost old_vals = vals@;
                match find_key(&keys, 0, (s, r)) {
                    Some(j) => {
                        let mut inner: Vec<u32> = Vec::new();
                        vals.set_and_swap(j, &mut inner);
                        let ghost inner_before = inner@;
                        inner.push(v);
                        vals.set(j, inner);
                        proof {
                            assert(pre.len() == i);
                            lemma_gift_keys_distinct(pre);
                            assert(gift_keys(pre).contains((s, r))) by {
                                assert(gift_keys(pre)[j as int] == (s, r));
                            }
                            assert forall|m: int|
                                0 <= m < keys@.len() implies #[trigger] values_view(vals@)[m] == gift_values(
                                    post,
                                    keys@[m],
                                ) by {
                                assert(values_view(old_vals)[m] == gift_values(pre, keys@[m]));
                                if m == j {
                                    assert(gift_values(post, keys@[m]) =~= gift_values(pre, keys@[m]).push(v as nat));
                                    assert(inner_before == old_vals[m]@);
                                    assert(values_view(vals@)[m] =~= values_view(old_vals)[m].push(v as nat));
                                } else {
                                    assert(keys@[m] != keys@[j as int]);
                                    assert(vals@[m] == old_vals[m]);
                                }
                            }
                        }
                    },
                    None => {
                        keys.push((s, r));
                        let mut one: Vec<u32> = Vec::new();
                        one.push(v);
                        vals.push(one);
                        proof {
                            assert(!gift_keys(pre).contains((s, r))) by {
                                if gift_keys(pre).contains((s, r)) {
                                    let m = choose|m: int| 0 <= m < gift_keys(pre).len() && gift_keys(pre)[m] == (s, r);
                                    assert(keys@[m] == (s, r));
                                }
                            }
                            lemma_gift_values_absent(pre, (s, r));
                            assert forall|m: int|
                                0 <= m < keys@.len() implies #[trigger] values_view(vals@)[m] == gift_values(
                                    post,
                                    keys@[m],
                                ) by {
                                if m < old_vals.len() {
                                    assert(values_view(old_vals)[m] == gift_values(pre, keys@[m]));
                                    assert(vals@[m] == old_vals[m]);
                                } else {
                                    assert(values_view(vals@)[m] =~= seq![v as nat]);
                                    assert(gift_values(pre, (s, r)) =~= Seq::<nat>::empty());
                                    assert(Seq::<nat>::empty().push(v as nat) =~= seq![v as nat]);
                                }
                            }
                        }
                    },
                }
            },
        }
        i = i + 1;
    }
    proof {
        assert(gifts@.subrange(0, i as int) =~= gifts@);
    }
    let ghost ks = keys@;
    let mut total: u64 = 0;
    let mut qp: u64 = 0;
    let mut m: usize = 0;
    while m < keys.len()
        invariant
            ks == keys@,
            ks == gift_keys(gifts@),
            vals@.len() == keys@.len(),
            forall|p: int|
                0 <= p < keys@.len() ==> #[trigger] values_view(vals@)[p] == gift_values(gifts@, keys@[p]),
            m <= keys@.len(),
            total == count_reciprocal(ks, m as nat),
            qp == count_quid_pro_quo(gifts@, ks, m as nat),
            qp <= total,
            total <= m,
        decreases keys@.len() - m,
    {
        let (a, b) = keys[m];
        match find_key(&keys, m, (b, a)) {
            Some(j) => {
                proof {
                    assert(first_of_pair(ks, m as int));
                }
                total = total + 1;
                let sim = any_similar(&vals[m], &vals[j]);
                proof {
                    assert(values_view(vals@)[m as int] == vals@[m as int]@.map_values(|x: u32| x as nat));
                    assert(values_view(vals@)[j as int] == vals@[j as int]@.map_values(|x: u32| x as nat));
                    assert(values_view(vals@)[m as int] == gift_values(gifts@, keys@[m as int]));
                    assert(values_view(vals@)[j as int] == gift_values(gifts@, keys@[j as int]));
                }
                if sim {
                    qp = qp + 1;
                }
            },
            None => {
                proof {
                    assert(!first_of_pair(ks, m as int));
                }
            },
        }
        m = m + 1;
    }
    if qp == 0 {
        return None;
    }
    let d: u128 = (128 * (qp as u128) + total as u128) / (2 * total as u128);
    if d == 0 {
        return None;
    }
    proof {
        assert(d <= 64) by (nonlinear_arith)
            requires
                d == (128 * qp + total) / (2 * total),
                qp <= total,
                total >= 1,
        ;
    }
    let delta: i16 = 0 - (d as i16);
    Some(StateMutation::QuidProQuoPenalty { delta })
}

} // verus!
