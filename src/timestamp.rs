//! Millisecond timestamps as decimal text, the form the stored aggregate
//! carries them in.
use vstd::prelude::*;
use crate::text::{chars_of, string_of};

verus! {

/// An ASCII decimal digit.
pub open spec fn is_decimal_digit(c: char) -> bool {
    0x30 <= c as u32 <= 0x39
}

/// The digit for `d`, below ten.
pub open spec fn digit_char(d: nat) -> char {
    ((d + 0x30) as u8) as char
}

/// The value of the digits `s`, most significant first.
pub open spec fn decimal_value(s: Seq<char>) -> nat
    decreases s.len(),
{
    if s.len() == 0 {
        0
    } else {
        decimal_value(s.drop_last()) * 10 + ((s.last() as u32) - 0x30) as nat
    }
}

/// `n` in decimal, without leading zeros.
pub open spec fn decimal_text(n: nat) -> Seq<char>
    decreases n,
{
    if n < 10 {
        seq![digit_char(n)]
    } else {
        decimal_text(n / 10) + seq![digit_char(n % 10)]
    }
}

/// The timestamp that `s` spells: one or more decimal digits whose value fits.
pub open spec fn timestamp_of(s: Seq<char>) -> Option<u64> {
    if s.len() > 0 && (forall|i: int| 0 <= i < s.len() ==> is_decimal_digit(#[trigger] s[i]))
        && decimal_value(s) <= u64::MAX {
        Some(decimal_value(s) as u64)
    } else {
        None
    }
}

fn push_decimal(out: &mut Vec<char>, n: u64)
    ensures
        final(out)@ == old(out)@ + decimal_text(n as nat),
    decreases n,
{
    if n >= 10 {
        push_decimal(out, n / 10);
    }
    let d = (n % 10) as u8;
    out.push((d + 0x30u8) as char);
    assert(final(out)@ =~= old(out)@ + decimal_text(n as nat));
}

/// `n` as decimal text.
pub fn format_millis(n: u64) -> (r: String)
    ensures
        r@ == decimal_text(n as nat),
{
    let mut out: Vec<char> = Vec::new();
    push_decimal(&mut out, n);
    assert(out@ =~= decimal_text(n as nat));
    string_of(&out)
}

proof fn lemma_value_grows(s: Seq<char>, i: int, j: int)
    requires
        0 <= i <= j <= s.len(),
    ensures
        decimal_value(s.take(i)) <= decimal_value(s.take(j)),
    decreases j - i,
{
    if i < j {
        lemma_value_grows(s, i, j - 1);
        assert(s.take(j).drop_last() =~= s.take(j - 1));
    }
}

/// The timestamp that `s` spells, if it is one.
pub fn parse_millis(s: &str) -> (r: Option<u64>)
    ensures
        r == timestamp_of(s@),
{
    let c = chars_of(s);
    if c.len() == 0 {
        return None;
    }
    let mut acc: u64 = 0;
    let mut i: usize = 0;
    while i < c.len()
        invariant
            c@ == s@,
            i <= c.len(),
            forall|k: int| 0 <= k < i ==> is_decimal_digit(#[trigger] c@[k]),
            acc as nat == decimal_value(c@.take(i as int)),
        decreases c.len() - i,
    {
        assert(c@.take(i + 1).drop_last() =~= c@.take(i as int));
        let v = c[i] as u32;
        if v < 0x30 || v > 0x39 {
            assert(!is_decimal_digit(c@[i as int]));
            return None;
        }
        let next: u128 = (acc as u128) * 10 + (v - 0x30) as u128;
        if next > u64::MAX as u128 {
            proof {
                lemma_value_grows(c@, i + 1, c@.len() as int);
                assert(c@.take(c@.len() as int) =~= c@);
            }
            return None;
        }
        acc = next as u64;
        i = i + 1;
    }
    assert(c@.take(c.len() as int) =~= c@);
    Some(acc)
}

proof fn lemma_text_value(n: nat)
    ensures
        decimal_text(n).len() > 0,
        forall|i: int|
            0 <= i < decimal_text(n).len() ==> is_decimal_digit(#[trigger] decimal_text(n)[i]),
        decimal_value(decimal_text(n)) == n,
    decreases n,
{
    if n < 10 {
        assert(digit_char(n) as u32 == n + 0x30);
        assert(decimal_text(n).drop_last() =~= Seq::<char>::empty());
        assert(decimal_text(n).last() == digit_char(n));
        assert(decimal_value(Seq::<char>::empty()) == 0);
        assert(decimal_value(decimal_text(n)) == n);
    } else {
        assert(digit_char(n % 10) as u32 == n % 10 + 0x30);
        lemma_text_value(n / 10);
        let t = decimal_text(n);
        assert(t.drop_last() =~= decimal_text(n / 10));
        assert(t.last() == digit_char(n % 10));
        assert(decimal_value(t) == decimal_value(decimal_text(n / 10)) * 10 + n % 10);
        assert(n == (n / 10) * 10 + n % 10) by (nonlinear_arith);
        assert(decimal_value(t) == n);
    }
}

/// A timestamp written as decimal text reads back as the same timestamp.
pub proof fn lemma_timestamp_round_trip(n: u64)
    ensures
        timestamp_of(decimal_text(n as nat)) == Some(n),
{
    lemma_text_value(n as nat);
}

} // verus!
