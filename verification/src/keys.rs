//! Sort keys of the single-table storage layout: an entity prefix followed by
//! a sequence number zero-padded to 20 digits, so that keys sort in sequence
//! order.

use vstd::prelude::*;
use vstd::string::*;

use crate::ids::SequenceId;
use crate::text::{decimal, digit_char, push_zero_padded, zero_padded};

verus! {

/// Width of the zero-padded sequence number in a sort key (`u64::MAX` has 20 digits).
pub const SEQ_WIDTH: usize = 20;

/// `prefix` followed by `n` zero-padded to 20 digits.
pub open spec fn sort_key(prefix: Seq<char>, n: nat) -> Seq<char> {
    prefix + zero_padded(n, 20)
}

fn key(prefix: &str, n: u64) -> (s: String)
    ensures
        s@ == sort_key(prefix@, n as nat),
{
    let mut s = String::from_str(prefix);
    push_zero_padded(&mut s, n, SEQ_WIDTH);
    s
}

/// Sort key of the community snapshot at `version`.
pub fn sk_community(version: SequenceId) -> (s: String)
    ensures
        s@ == sort_key("COMMUNITY#"@, version.0 as nat),
{
    key("COMMUNITY#", version.0)
}

/// The lowest and highest possible community sort keys.
pub fn sk_community_range() -> (r: (String, String))
    ensures
        r.0@ == sort_key("COMMUNITY#"@, 0),
        r.1@ == sort_key("COMMUNITY#"@, u64::MAX as nat),
{
    (key("COMMUNITY#", 0), key("COMMUNITY#", u64::MAX))
}

/// Sort key of the event at `seq`.
pub fn sk_event(seq: SequenceId) -> (s: String)
    ensures
        s@ == sort_key("EVENT#"@, seq.0 as nat),
{
    key("EVENT#", seq.0)
}

/// Sort key of the effect at `seq`.
pub fn sk_effect(seq: SequenceId) -> (s: String)
    ensures
        s@ == sort_key("EFFECT#"@, seq.0 as nat),
{
    key("EFFECT#", seq.0)
}

/// The inclusive event key range strictly after `after` and strictly before
/// `before` (unbounded above when `before` is `None`); the bounds saturate at
/// the ends of the `u64` range.
pub fn sk_event_range(after: SequenceId, before: Option<SequenceId>) -> (r: (String, String))
    ensures
        r.0@ == sort_key(
            "EVENT#"@,
            if after.0 == u64::MAX { u64::MAX as nat } else { (after.0 + 1) as nat },
        ),
        r.1@ == match before {
            Some(b) => sort_key("EVENT#"@, if b.0 == 0 { 0 } else { (b.0 - 1) as nat }),
            None => sort_key("EVENT#"@, u64::MAX as nat),
        },
{
    let lower = key("EVENT#", after.0.saturating_add(1));
    let upper = match before {
        Some(b) => key("EVENT#", b.0.saturating_sub(1)),
        None => key("EVENT#", u64::MAX),
    };
    (lower, upper)
}

/// The inclusive effect key range strictly after `after`; the lower bound
/// saturates at `u64::MAX`.
pub fn sk_effect_range_after(after: SequenceId) -> (r: (String, String))
    ensures
        r.0@ == sort_key(
            "EFFECT#"@,
            if after.0 == u64::MAX { u64::MAX as nat } else { (after.0 + 1) as nat },
        ),
        r.1@ == sort_key("EFFECT#"@, u64::MAX as nat),
{
    (key("EFFECT#", after.0.saturating_add(1)), key("EFFECT#", u64::MAX))
}

// ── key order ──────────────────────────────────────────────────────────────

/// The order of strings: the first differing character decides (by code
/// point, which for UTF-8 text is also byte order), and a proper prefix comes
/// first.
pub open spec fn text_lt(a: Seq<char>, b: Seq<char>) -> bool
    decreases a.len(),
{
    if a.len() == 0 {
        b.len() > 0
    } else if b.len() == 0 {
        false
    } else if a[0] != b[0] {
        (a[0] as u32) < (b[0] as u32)
    } else {
        text_lt(a.drop_first(), b.drop_first())
    }
}

/// `10` to the power `w`.
pub open spec fn pow10(w: nat) -> nat
    decreases w,
{
    if w == 0 {
        1
    } else {
        10 * pow10((w - 1) as nat)
    }
}

/// The last `w` decimal digits of `n`, most significant first.
pub open spec fn fixed_digits(n: nat, w: nat) -> Seq<char>
    decreases w,
{
    if w == 0 {
        Seq::empty()
    } else {
        fixed_digits(n / 10, (w - 1) as nat).push(digit_char(n % 10))
    }
}

proof fn lemma_text_lt_irreflexive(a: Seq<char>)
    ensures
        !text_lt(a, a),
    decreases a.len(),
{
    if a.len() > 0 {
        lemma_text_lt_irreflexive(a.drop_first());
    }
}

proof fn lemma_text_lt_prefix(p: Seq<char>, x: Seq<char>, y: Seq<char>)
    ensures
        text_lt(p + x, p + y) == text_lt(x, y),
    decreases p.len(),
{
    if p.len() == 0 {
        assert(p + x =~= x);
        assert(p + y =~= y);
    } else {
        assert((p + x)[0] == p[0]);
        assert((p + y)[0] == p[0]);
        assert((p + x).drop_first() =~= p.drop_first() + x);
        assert((p + y).drop_first() =~= p.drop_first() + y);
        lemma_text_lt_prefix(p.drop_first(), x, y);
    }
}

proof fn lemma_text_lt_push(a: Seq<char>, b: Seq<char>, x: char, y: char)
    requires
        a.len() == b.len(),
    ensures
        text_lt(a.push(x), b.push(y)) == (text_lt(a, b) || (a == b && (x as u32) < (y as u32))),
    decreases a.len(),
{
    if a.len() == 0 {
        assert(a =~= b);
        assert(a.push(x).drop_first() =~= Seq::<char>::empty());
        assert(b.push(y).drop_first() =~= Seq::<char>::empty());
        assert(!text_lt(Seq::<char>::empty(), Seq::<char>::empty()));
        assert(!text_lt(a, b));
        assert(a.push(x)[0] == x && b.push(y)[0] == y);
    } else {
        assert(a.push(x)[0] == a[0]);
        assert(b.push(y)[0] == b[0]);
        assert(a.push(x).drop_first() =~= a.drop_first().push(x));
        assert(b.push(y).drop_first() =~= b.drop_first().push(y));
        lemma_text_lt_push(a.drop_first(), b.drop_first(), x, y);
        if a[0] != b[0] {
            assert(a != b);
        }
        if a[0] == b[0] {
            if a.drop_first() == b.drop_first() {
                assert(a =~= b) by {
                    assert forall|i: int| 0 <= i < a.len() implies a[i] == b[i] by {
                        if i > 0 {
                            assert(a[i] == a.drop_first()[i - 1]);
                            assert(b[i] == b.drop_first()[i - 1]);
                        }
                    }
                }
            }
        }
    }
}

proof fn lemma_digit_order(x: nat, y: nat)
    requires
        x < 10,
        y < 10,
    ensures
        ((digit_char(x) as u32) < (digit_char(y) as u32)) == (x < y),
{
}

proof fn lemma_fixed_digits_order(a: nat, b: nat, w: nat)
    requires
        a < pow10(w),
        b < pow10(w),
    ensures
        text_lt(fixed_digits(a, w), fixed_digits(b, w)) == (a < b),
        fixed_digits(a, w).len() == w,
    decreases w,
{
    if w > 0 {
        let w1 = (w - 1) as nat;
        lemma_fixed_digits_order(a / 10, b / 10, w1);
        lemma_fixed_digits_order(b / 10, a / 10, w1);
        lemma_text_lt_push(fixed_digits(a / 10, w1), fixed_digits(b / 10, w1), digit_char(a % 10), digit_char(b % 10));
        lemma_digit_order(a % 10, b % 10);
        if fixed_digits(a / 10, w1) == fixed_digits(b / 10, w1) {
            lemma_text_lt_irreflexive(fixed_digits(a / 10, w1));
        }
    }
}

proof fn lemma_fixed_zero(w: nat)
    ensures
        fixed_digits(0, w) =~= Seq::new(w, |i: int| '0'),
    decreases w,
{
    if w > 0 {
        lemma_fixed_zero((w - 1) as nat);
    }
}

proof fn lemma_fixed_is_padded(n: nat, w: nat)
    requires
        w >= 1,
        n < pow10(w),
    ensures
        decimal(n).len() <= w,
        fixed_digits(n, w) == Seq::new((w - decimal(n).len()) as nat, |i: int| '0') + decimal(n),
    decreases w,
{
    let w1 = (w - 1) as nat;
    if n < 10 {
        lemma_fixed_zero(w1);
        assert(fixed_digits(n, w) =~= Seq::new((w - decimal(n).len()) as nat, |i: int| '0') + decimal(n));
    } else {
        assert(w >= 2) by {
            if w == 1 {
                assert(pow10(1) == 10 * pow10(0));
            }
        }
        lemma_fixed_is_padded(n / 10, w1);
        assert(fixed_digits(n, w) =~= Seq::new((w - decimal(n).len()) as nat, |i: int| '0') + decimal(n));
    }
}

/// Every `u64` has at most 20 decimal digits.
proof fn lemma_u64_below_pow10_20(n: u64)
    ensures
        (n as nat) < pow10(20),
{
    assert(pow10(20) == 100000000000000000000nat) by {
        reveal_with_fuel(pow10, 21);
    }
}

proof fn lemma_sort_key_fixed(prefix: Seq<char>, n: u64)
    ensures
        sort_key(prefix, n as nat) == prefix + fixed_digits(n as nat, 20),
{
    lemma_u64_below_pow10_20(n);
    lemma_fixed_is_padded(n as nat, 20);
    let d = decimal(n as nat);
    if d.len() == 20 {
        assert(Seq::new(0nat, |i: int| '0') + d =~= d);
    }
}

/// Sort keys with a common prefix sort as their sequence numbers do: the key
/// of `a` comes before the key of `b` exactly when `a < b`, and the two keys
/// are equal exactly when the numbers are.
pub proof fn lemma_sort_key_order(prefix: Seq<char>, a: u64, b: u64)
    ensures
        text_lt(sort_key(prefix, a as nat), sort_key(prefix, b as nat)) == (a < b),
        (sort_key(prefix, a as nat) == sort_key(prefix, b as nat)) == (a == b),
{
    lemma_sort_key_fixed(prefix, a);
    lemma_sort_key_fixed(prefix, b);
    lemma_u64_below_pow10_20(a);
    lemma_u64_below_pow10_20(b);
    lemma_fixed_digits_order(a as nat, b as nat, 20);
    lemma_fixed_digits_order(b as nat, a as nat, 20);
    lemma_text_lt_prefix(prefix, fixed_digits(a as nat, 20), fixed_digits(b as nat, 20));
    lemma_text_lt_prefix(prefix, fixed_digits(b as nat, 20), fixed_digits(a as nat, 20));
    lemma_text_lt_irreflexive(sort_key(prefix, a as nat));
}

} // verus!
