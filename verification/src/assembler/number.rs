//! Operands are unsigned decimal numbers: an optional `+`, then one or more
//! of the digits `0` to `9`, denoting a value that fits the width asked for.

use crate::assembler::text::chars_of;
use crate::errors::Fault;
use vstd::prelude::*;

verus! {

/// Whether `c` is one of the digits `0` to `9`.
pub open spec fn is_digit(c: char) -> bool {
    '0' <= c <= '9'
}

/// The value of a digit.
pub open spec fn digit_value(c: char) -> nat {
    (c as nat - '0' as nat) as nat
}

/// The number that a string of digits denotes, most significant digit first.
pub open spec fn decimal(digits: Seq<char>) -> nat
    decreases digits.len(),
{
    if digits.len() == 0 {
        0
    } else {
        10 * decimal(digits.drop_last()) + digit_value(digits.last())
    }
}

/// How many digits `text` begins with.
pub open spec fn digit_run(text: Seq<char>) -> nat
    decreases text.len(),
{
    if text.len() > 0 && is_digit(text[0]) {
        1 + digit_run(text.drop_first())
    } else {
        0
    }
}

/// A token without the `+` it may begin with.
pub open spec fn unsigned_body(token: Seq<char>) -> Seq<char> {
    if token.len() > 0 && token[0] == '+' {
        token.drop_first()
    } else {
        token
    }
}

/// The number that `token` denotes, if it is one and is at most `max`.
///
/// A token is read from the left, and the first thing wrong with it is
/// reported: digits that already exceed `max` are an overflow even if
/// something other than a digit follows them.
pub open spec fn parse_unsigned(token: Seq<char>, max: nat) -> Result<nat, Fault> {
    let body = unsigned_body(token);
    let digits = body.take(digit_run(body) as int);
    if token.len() == 0 {
        Err(Fault::Empty)
    } else if body.len() == 0 {
        Err(Fault::InvalidDigit)
    } else if decimal(digits) > max {
        Err(Fault::Overflow)
    } else if digits.len() < body.len() {
        Err(Fault::InvalidDigit)
    } else {
        Ok(decimal(body))
    }
}

/// The digits that a text begins with are digits, and what follows them is
/// none.
proof fn lemma_digit_run_ends(text: Seq<char>)
    ensures
        digit_run(text) <= text.len(),
        forall|i: int| 0 <= i < digit_run(text) ==> is_digit(#[trigger] text[i]),
        digit_run(text) < text.len() ==> !is_digit(text[digit_run(text) as int]),
    decreases text.len(),
{
    if text.len() > 0 && is_digit(text[0]) {
        let rest = text.drop_first();
        lemma_digit_run_ends(rest);
        assert forall|i: int| 0 <= i < digit_run(text) implies is_digit(#[trigger] text[i]) by {
            if i > 0 {
                assert(text[i] == rest[i - 1]);
            }
        }
    }
}

/// A text begins with exactly `n` digits when its first `n` characters are
/// digits and the next one, if there is one, is none.
proof fn lemma_digit_run(text: Seq<char>, n: int)
    requires
        0 <= n <= text.len(),
        forall|i: int| 0 <= i < n ==> is_digit(#[trigger] text[i]),
        n < text.len() ==> !is_digit(text[n]),
    ensures
        digit_run(text) == n,
    decreases n,
{
    if n > 0 {
        let rest = text.drop_first();
        assert forall|i: int| 0 <= i < n - 1 implies is_digit(#[trigger] rest[i]) by {}
        lemma_digit_run(rest, n - 1);
    }
}

/// Reading more digits never makes the number smaller.
proof fn lemma_decimal_grows(digits: Seq<char>, n: int)
    requires
        0 <= n <= digits.len(),
    ensures
        decimal(digits.take(n)) <= decimal(digits),
    decreases digits.len() - n,
{
    if n < digits.len() {
        lemma_decimal_grows(digits.drop_last(), n);
        assert(digits.drop_last().take(n) =~= digits.take(n));
    } else {
        assert(digits.take(n) =~= digits);
    }
}

/// Reads `token` as a number that is at most `max`.
fn parse_bounded(token: &str, max: u64) -> (number: Result<u64, Fault>)
    requires
        max <= u32::MAX,
    ensures
        match number {
            Ok(value) => parse_unsigned(token@, max as nat) == Ok::<nat, Fault>(value as nat),
            Err(fault) => parse_unsigned(token@, max as nat) == Err::<nat, Fault>(fault),
        },
        number matches Ok(value) ==> value <= max,
{
    let chars = chars_of(token);
    let n = chars.len();
    if n == 0 {
        return Err(Fault::Empty);
    }
    let start: usize = if chars[0] == '+' { 1 } else { 0 };
    if start == n {
        return Err(Fault::InvalidDigit);
    }
    let ghost body = unsigned_body(token@);
    let mut value: u64 = 0;
    let mut i: usize = start;
    while i < n
        invariant
            start <= i <= n,
            n == chars.len(),
            chars@ == token@,
            body == unsigned_body(token@),
            body == token@.skip(start as int),
            max <= u32::MAX,
            forall|k: int| 0 <= k < i - start ==> is_digit(#[trigger] body[k]),
            value == decimal(body.take(i - start)),
            value <= max,
        decreases n - i,
    {
        let c = chars[i];
        let ghost seen = body.take(i - start);
        if !('0' <= c && c <= '9') {
            proof {
                lemma_digit_run(body, i - start);
            }
            return Err(Fault::InvalidDigit);
        }
        let digit: u64 = (c as u64) - ('0' as u64);
        let next: u64 = value * 10 + digit;
        proof {
            let longer = body.take(i - start + 1);
            assert(longer.drop_last() =~= seen);
        }
        if next > max {
            proof {
                lemma_digit_run_ends(body);
                let run = digit_run(body) as int;
                let digits = body.take(run);
                lemma_decimal_grows(digits, i - start + 1);
                assert(digits.take(i - start + 1) =~= body.take(i - start + 1));
            }
            return Err(Fault::Overflow);
        }
        value = next;
        i += 1;
    }
    proof {
        lemma_digit_run(body, n - start);
        assert(body.take(n - start) =~= body);
    }
    Ok(value)
}

/// Reads `token` as a number of eight bits.
pub fn parse_u8(token: &str) -> (number: Result<u8, Fault>)
    ensures
        match number {
            Ok(value) => parse_unsigned(token@, u8::MAX as nat) == Ok::<nat, Fault>(value as nat),
            Err(fault) => parse_unsigned(token@, u8::MAX as nat) == Err::<nat, Fault>(fault),
        },
{
    match parse_bounded(token, 0xff) {
        Ok(value) => Ok(value as u8),
        Err(fault) => Err(fault),
    }
}

/// Reads `token` as a number of thirty-two bits.
pub fn parse_u32(token: &str) -> (number: Result<u32, Fault>)
    ensures
        match number {
            Ok(value) => parse_unsigned(token@, u32::MAX as nat) == Ok::<nat, Fault>(value as nat),
            Err(fault) => parse_unsigned(token@, u32::MAX as nat) == Err::<nat, Fault>(fault),
        },
{
    match parse_bounded(token, 0xffff_ffff) {
        Ok(value) => Ok(value as u32),
        Err(fault) => Err(fault),
    }
}

} // verus!
