//! Decimal text of integers: reading a positive number and writing one.

use vstd::prelude::*;

verus! {

/// The decimal digit `n`.
pub open spec fn digit(n: int) -> char {
    if n == 0 { '0' }
    else if n == 1 { '1' }
    else if n == 2 { '2' }
    else if n == 3 { '3' }
    else if n == 4 { '4' }
    else if n == 5 { '5' }
    else if n == 6 { '6' }
    else if n == 7 { '7' }
    else if n == 8 { '8' }
    else { '9' }
}

/// The decimal digits of a natural number, without leading zeros.
pub open spec fn natural_text(n: nat) -> Seq<char>
    decreases n,
{
    if n < 10 {
        seq![digit(n as int)]
    } else {
        natural_text(n / 10) + seq![digit((n % 10) as int)]
    }
}

/// The decimal text of an integer, with a minus sign when it is negative.
pub open spec fn decimal_text(n: int) -> Seq<char> {
    if n < 0 {
        seq!['-'] + natural_text((-n) as nat)
    } else {
        natural_text(n as nat)
    }
}

pub open spec fn is_digit(c: char) -> bool {
    48 <= c as u32 <= 57
}

pub open spec fn digit_value(c: char) -> int {
    c as u32 - 48
}

/// The number that a text of digits writes.
pub open spec fn digits_value(s: Seq<char>) -> nat
    decreases s.len(),
{
    if s.len() == 0 {
        0
    } else {
        (digits_value(s.drop_last()) * 10 + digit_value(s.last())) as nat
    }
}

pub open spec fn all_digits(s: Seq<char>) -> bool {
    forall|i: int| 0 <= i < s.len() ==> is_digit(s[i])
}

/// The positive number that a text of decimal digits writes, if the text is
/// one and the number fits in an `i64`.
pub open spec fn positive_value(s: Seq<char>) -> Option<nat> {
    if s.len() > 0 && all_digits(s) && 0 < digits_value(s) <= i64::MAX {
        Some(digits_value(s))
    } else {
        None
    }
}

/// The positive number that `s` writes in decimal digits, if it writes one
/// that fits in an `i64`.
pub fn parse_positive(s: &str) -> (r: Option<u64>)
    ensures
        match r {
            Some(n) => positive_value(s@) == Some(n as nat),
            None => positive_value(s@) is None,
        },
{
    let len = s.unicode_len();
    let mut value: u64 = 0;
    let mut too_big = false;
    let mut i: usize = 0;
    while i < len
        invariant
            len == s@.len(),
            0 <= i <= len,
            all_digits(s@.subrange(0, i as int)),
            !too_big ==> value == digits_value(s@.subrange(0, i as int)),
            !too_big ==> value <= i64::MAX,
            too_big ==> digits_value(s@.subrange(0, i as int)) > i64::MAX,
        decreases len - i,
    {
        let c = s.get_char(i);
        let ghost prefix = s@.subrange(0, i as int);
        let ghost next = s@.subrange(0, i + 1);
        assert(next.drop_last() =~= prefix);
        if !('0' <= c && c <= '9') {
            assert(!all_digits(s@)) by {
                assert(s@[i as int] == c);
            }
            return None;
        }
        let d = (c as u32 - 48) as u64;
        if !too_big {
            if value > (9_223_372_036_854_775_807u64 - d) / 10 {
                too_big = true;
            } else {
                value = value * 10 + d;
            }
        }
        assert(all_digits(next)) by {
            assert forall|j: int| 0 <= j < next.len() implies is_digit(next[j]) by {
                if j < i {
                    assert(next[j] == prefix[j]);
                }
            }
        }
        i = i + 1;
    }
    assert(s@.subrange(0, len as int) =~= s@);
    if too_big || value == 0 {
        None
    } else {
        Some(value)
    }
}

/// The text of the digit `d`.
fn digit_str(d: u64) -> (r: &'static str)
    requires
        d < 10,
    ensures
        r@ == seq![digit(d as int)],
{
    proof {
        reveal_strlit("0");
        reveal_strlit("1");
        reveal_strlit("2");
        reveal_strlit("3");
        reveal_strlit("4");
        reveal_strlit("5");
        reveal_strlit("6");
        reveal_strlit("7");
        reveal_strlit("8");
        reveal_strlit("9");
    }
    if d == 0 { "0" }
    else if d == 1 { "1" }
    else if d == 2 { "2" }
    else if d == 3 { "3" }
    else if d == 4 { "4" }
    else if d == 5 { "5" }
    else if d == 6 { "6" }
    else if d == 7 { "7" }
    else if d == 8 { "8" }
    else { "9" }
}

/// Appends the decimal digits of `n` to `s`.
pub fn push_natural(s: &mut String, n: u64)
    ensures
        final(s)@ == old(s)@ + natural_text(n as nat),
    decreases n,
{
    if n < 10 {
        s.append(digit_str(n));
    } else {
        push_natural(s, n / 10);
        s.append(digit_str(n % 10));
        assert(s@ =~= old(s)@ + natural_text(n as nat));
    }
}

/// The decimal text of `n`.
pub fn int_text(n: i32) -> (r: String)
    ensures
        r@ == decimal_text(n as int),
{
    let mut r = String::new();
    if n < 0 {
        r.append("-");
        push_natural(&mut r, (-(n as i64)) as u64);
        proof {
            reveal_strlit("-");
        }
        assert(r@ =~= decimal_text(n as int));
    } else {
        push_natural(&mut r, n as u64);
        assert(r@ =~= decimal_text(n as int));
    }
    r
}

} // verus!
