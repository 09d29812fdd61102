//! Reading an unsigned 32-bit count written in decimal.

use vstd::prelude::*;
use crate::desc::{is_digit, digits_in};

verus! {

/// The value of a string of decimal digits.
pub open spec fn digits_value(s: Seq<char>) -> nat
    decreases s.len(),
{
    if s.len() == 0 {
        0
    } else {
        digits_value(s.drop_last()) * 10 + digit_value(s.last())
    }
}

/// The value of one decimal digit.
pub open spec fn digit_value(c: char) -> nat {
    ((c as int) - ('0' as int)) as nat
}

/// The digits of a count: the text without one optional leading `+`.
pub open spec fn count_digits(s: Seq<char>) -> Seq<char> {
    if s.len() > 0 && s[0] == '+' {
        s.drop_first()
    } else {
        s
    }
}

/// The `u32` that `s` denotes: an optional `+`, then at least one ASCII digit, with a
/// value that fits in 32 bits; `None` otherwise.
pub open spec fn spec_parse_u32(s: Seq<char>) -> Option<u32> {
    let body = count_digits(s);
    if body.len() > 0 && digits_in(body, 0, body.len() as int) && digits_value(body) <= u32::MAX {
        Some(digits_value(body) as u32)
    } else {
        None
    }
}

proof fn lemma_digits_value_step(s: Seq<char>, i: int)
    requires
        0 <= i < s.len(),
        is_digit(s[i]),
    ensures
        digits_value(s.take(i + 1)) == digits_value(s.take(i)) * 10 + digit_value(s[i]),
        digits_value(s.take(i + 1)) >= digits_value(s.take(i)),
{
    assert(s.take(i + 1).drop_last() =~= s.take(i));
    let v: int = digits_value(s.take(i)) as int;
    let d: int = digit_value(s[i]) as int;
    assert(v * 10 + d >= v) by (nonlinear_arith)
        requires
            v >= 0,
            d >= 0,
    ;
}

/// Reads `s` as `str::parse::<u32>` does: `None` where that returns an error.
pub fn parse_u32(s: &str) -> (r: Option<u32>)
    ensures
        r == spec_parse_u32(s@),
{
    let n = s.unicode_len();
    let mut start: usize = 0;
    if n > 0 && s.get_char(0) == '+' {
        start = 1;
    }
    let ghost body = count_digits(s@);
    proof {
        assert(body =~= s@.skip(start as int));
    }
    if start >= n {
        return None;
    }
    let mut i: usize = start;
    let mut acc: u64 = 0;
    let mut over = false;
    while i < n
        invariant
            start <= i <= n,
            n == s@.len(),
            body =~= s@.skip(start as int),
            body == count_digits(s@),
            digits_in(body, 0, i - start),
            !over ==> acc == digits_value(body.take(i - start)) && acc <= u32::MAX,
            over ==> digits_value(body.take(i - start)) > u32::MAX,
        decreases n - i,
    {
        let c = s.get_char(i);
        if !('0' <= c && c <= '9') {
            proof {
                assert(body[i - start] == s@[i as int]);
                assert(!is_digit(body[i - start]));
                assert(!digits_in(body, 0, body.len() as int));
            }
            return None;
        }
        proof {
            assert(body[i - start] == s@[i as int]);
            assert(body[i - start] == c);
            lemma_digits_value_step(body, i - start);
        }
        if !over {
            let d = (c as u32 - '0' as u32) as u64;
            acc = acc * 10 + d;
            if acc > 0xffff_ffffu64 {
                over = true;
            }
        }
        i = i + 1;
    }
    proof {
        assert(body.take(i - start) =~= body);
    }
    if over {
        None
    } else {
        Some(acc as u32)
    }
}

} // verus!
