//! Decimal rendering of integers.

use vstd::prelude::*;
use vstd::string::*;

verus! {

/// The character for a decimal digit.
pub open spec fn digit_char(d: nat) -> char {
    if d == 0 { '0' }
    else if d == 1 { '1' }
    else if d == 2 { '2' }
    else if d == 3 { '3' }
    else if d == 4 { '4' }
    else if d == 5 { '5' }
    else if d == 6 { '6' }
    else if d == 7 { '7' }
    else if d == 8 { '8' }
    else { '9' }
}

/// The shortest decimal representation of `n` (no leading zeros; "0" for zero).
pub open spec fn decimal(n: nat) -> Seq<char>
    decreases n,
{
    if n < 10 {
        seq![digit_char(n)]
    } else {
        decimal(n / 10).push(digit_char(n % 10))
    }
}

/// `n` in decimal, left-padded with `'0'` up to `width` characters.
pub open spec fn zero_padded(n: nat, width: nat) -> Seq<char> {
    let d = decimal(n);
    if d.len() < width {
        Seq::new((width - d.len()) as nat, |i: int| '0') + d
    } else {
        d
    }
}

/// A one-character string holding the digit `d`.
fn digit_str(d: u8) -> (s: &'static str)
    requires
        d < 10,
    ensures
        s@ == seq![digit_char(d as nat)],
{
    proof {
        reveal_strlit("0");
        reveal_strlit("1");
        reveal_strlit("2");
        reveal_strlit("3");
        reveal_strlit("4");
        reveal_strlit("5");
        reveal_strlit("6");
        reveal_strlit("7");
        reveal_strlit("8");
        reveal_strlit("9");
    }
    match d {
        0 => "0",
        1 => "1",
        2 => "2",
        3 => "3",
        4 => "4",
        5 => "5",
        6 => "6",
        7 => "7",
        8 => "8",
        _ => "9",
    }
}

proof fn lemma_decimal_len_pos(n: nat)
    ensures
        decimal(n).len() >= 1,
    decreases n,
{
    if n >= 10 {
        lemma_decimal_len_pos(n / 10);
    }
}

/// The decimal digits of `n`, most significant first, as numbers.
fn digits_of(n: u64) -> (ds: Vec<u8>)
    ensures
        ds@.len() >= 1,
        forall|i: int| 0 <= i < ds@.len() ==> ds@[i] < 10,
        ds@.map_values(|d: u8| digit_char(d as nat)) == decimal(n as nat),
    decreases n,
{
    if n < 10 {
        let mut v: Vec<u8> = Vec::new();
        v.push(n as u8);
        assert(v@.map_values(|d: u8| digit_char(d as nat)) =~= seq![digit_char(n as nat)]);
        v
    } else {
        let mut v = digits_of(n / 10);
        let ghost prev = v@;
        v.push((n % 10) as u8);
        assert(v@.map_values(|d: u8| digit_char(d as nat)) =~= prev.map_values(
            |d: u8| digit_char(d as nat),
        ).push(digit_char((n % 10) as nat)));
        v
    }
}

/// Appends `n` in decimal, zero-padded to `width` characters, to `out`.
pub fn push_zero_padded(out: &mut String, n: u64, width: usize)
    ensures
        final(out)@ == old(out)@ + zero_padded(n as nat, width as nat),
{
    let ds = digits_of(n);
    let ghost d = decimal(n as nat);
    let len = ds.len();
    let mut pad: usize = 0;
    if len < width {
        while pad < width - len
            invariant
                len == ds@.len(),
                len < width,
                pad <= width - len,
                out@ == old(out)@ + Seq::new(pad as nat, |i: int| '0'),
            decreases width - len - pad,
        {
            proof { reveal_strlit("0"); }
            out.append("0");
            assert(Seq::new(pad as nat, |i: int| '0').push('0') =~= Seq::new(
                (pad + 1) as nat,
                |i: int| '0',
            ));
            pad = pad + 1;
        }
    }
    let ghost before = out@;
    let mut i: usize = 0;
    while i < len
        invariant
            len == ds@.len(),
            forall|k: int| 0 <= k < ds@.len() ==> ds@[k] < 10,
            ds@.map_values(|x: u8| digit_char(x as nat)) == d,
            i <= len,
            out@ == before + d.subrange(0, i as int),
        decreases len - i,
    {
        out.append(digit_str(ds[i]));
        assert(d.subrange(0, i as int).push(d[i as int]) =~= d.subrange(0, (i + 1) as int));
        i = i + 1;
    }
    assert(d.subrange(0, len as int) =~= d);
    if len < width {
        assert(out@ =~= old(out)@ + zero_padded(n as nat, width as nat));
    } else {
        assert(pad == 0);
        assert(Seq::new(0nat, |i: int| '0') =~= Seq::<char>::empty());
        assert(out@ =~= old(out)@ + zero_padded(n as nat, width as nat));
    }
}

/// Appends `n` in decimal (no padding) to `out`.
pub fn push_decimal(out: &mut String, n: u64)
    ensures
        final(out)@ == old(out)@ + decimal(n as nat),
{
    push_zero_padded(out, n, 0);
}

// ── reading decimal numbers ────────────────────────────────────────────────

/// Whether `c` is an ASCII decimal digit.
pub open spec fn is_digit(c: char) -> bool {
    48 <= (c as u32) <= 57
}

/// The value of a string of decimal digits, most significant first.
pub open spec fn digits_value(s: Seq<char>) -> nat
    decreases s.len(),
{
    if s.len() == 0 {
        0
    } else {
        digits_value(s.drop_last()) * 10 + ((s.last() as u32) - 48) as nat
    }
}

/// The digits part of `s`: `s` without a leading `+`.
pub open spec fn unsigned_digits(s: Seq<char>) -> Seq<char> {
    if s.len() > 0 && s[0] == '+' {
        s.drop_first()
    } else {
        s
    }
}

/// The `u64` that `s` denotes: an optional `+` followed by one or more
/// decimal digits whose value fits in a `u64`; `None` for any other text.
pub open spec fn parsed_u64(s: Seq<char>) -> Option<u64> {
    let d = unsigned_digits(s);
    if d.len() > 0 && (forall|i: int| 0 <= i < d.len() ==> #[trigger] is_digit(d[i]))
        && digits_value(d) <= u64::MAX {
        Some(digits_value(d) as u64)
    } else {
        None
    }
}

proof fn lemma_digits_value_prefix(s: Seq<char>, k: int)
    requires
        0 <= k <= s.len(),
        forall|i: int| 0 <= i < s.len() ==> #[trigger] is_digit(s[i]),
    ensures
        digits_value(s.take(k)) <= digits_value(s),
    decreases s.len(),
{
    if k < s.len() {
        let p = s.drop_last();
        assert forall|i: int| 0 <= i < p.len() implies #[trigger] is_digit(p[i]) by {
            assert(p[i] == s[i]);
        }
        lemma_digits_value_prefix(p, k);
        assert(p.take(k) =~= s.take(k));
        assert(is_digit(s.last()));
    } else {
        assert(s.take(k) =~= s);
    }
}

/// Reads `s` as a `u64`: an optional `+` followed by decimal digits, as
/// integer attributes of the table storage are written.
pub fn parse_u64(s: &str) -> (r: Option<u64>)
    ensures
        r == parsed_u64(s@),
{
    let cs = crate::commands::chars_of(s);
    let start: usize = if cs.len() > 0 && cs[0] == '+' {
        1
    } else {
        0
    };
    let ghost d = unsigned_digits(s@);
    assert(d =~= cs@.subrange(start as int, cs@.len() as int));
    if start >= cs.len() {
        return None;
    }
    let mut n: u64 = 0;
    let mut i: usize = start;
    while i < cs.len()
        invariant
            start <= i <= cs@.len(),
            d == unsigned_digits(s@),
            d == cs@.subrange(start as int, cs@.len() as int),
            forall|k: int| 0 <= k < i - start ==> #[trigger] is_digit(d[k]),
            n as nat == digits_value(d.take(i - start)),
        decreases cs@.len() - i,
    {
        let c = cs[i];
        let ghost j: int = i - start;
        assert(d[j] == c);
        let code = c as u32;
        if code < 48 || code > 57 {
            assert(!is_digit(d[j]));
            return None;
        }
        let digit = (code - 48) as u64;
        assert(d.take(j + 1).drop_last() =~= d.take(j));
        assert(d.take(j + 1).last() == c);
        assert(digits_value(d.take(j + 1)) == n * 10 + digit);
        match n.checked_mul(10) {
            None => {
                proof {
                    if forall|k: int| 0 <= k < d.len() ==> #[trigger] is_digit(d[k]) {
                        lemma_digits_value_prefix(d, j + 1);
                    }
                }
                return None;
            },
            Some(m) => match m.checked_add(digit) {
                None => {
                    proof {
                        if forall|k: int| 0 <= k < d.len() ==> #[trigger] is_digit(d[k]) {
                            lemma_digits_value_prefix(d, j + 1);
                        }
                    }
                    return None;
                },
                Some(v) => {
                    n = v;
                },
            },
        }
        i = i + 1;
    }
    assert(d.take(d.len() as int) =~= d);
    Some(n)
}

} // verus!
