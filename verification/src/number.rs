//! Digits, and the unsigned numbers that runs of digits spell.

use vstd::prelude::*;

verus! {

/// The two bases in which the fields of a record are written.
#[derive(Clone, Copy, Debug, PartialEq, Eq, Structural)]
pub enum Radix {
    /// Base 10, the digits `0` to `9`.
    Decimal,
    /// Base 16, the digits `0` to `9` and the letters `a` to `f`.
    Hexadecimal,
}

impl Radix {
    /// The base as a number: 10 or 16.
    pub open spec fn base(self) -> nat {
        match self {
            Radix::Decimal => 10,
            Radix::Hexadecimal => 16,
        }
    }
}

/// The value of `c` as a digit of `radix`, if it is one. Hexadecimal takes
/// the letters `a` to `f` in either case.
pub open spec fn digit_value(c: char, radix: Radix) -> Option<nat> {
    if '0' <= c && c <= '9' {
        Some((c as int - '0' as int) as nat)
    } else if radix == Radix::Hexadecimal && 'a' <= c && c <= 'f' {
        Some((c as int - 'a' as int + 10) as nat)
    } else if radix == Radix::Hexadecimal && 'A' <= c && c <= 'F' {
        Some((c as int - 'A' as int + 10) as nat)
    } else {
        None
    }
}

/// Whether every character of `s` is a digit of `radix`.
pub open spec fn all_digits(s: Seq<char>, radix: Radix) -> bool {
    forall|i: int| 0 <= i < s.len() ==> (#[trigger] digit_value(s[i], radix)) is Some
}

/// The number that `digits` spell in `radix`, most significant digit first.
/// A character that is no digit counts as zero.
pub open spec fn digits_value(digits: Seq<char>, radix: Radix) -> nat
    decreases digits.len(),
{
    if digits.len() == 0 {
        0
    } else {
        let high = digits_value(digits.drop_last(), radix);
        let low = match digit_value(digits.last(), radix) {
            Some(d) => d,
            None => 0,
        };
        match radix {
            Radix::Decimal => 10 * high + low,
            Radix::Hexadecimal => 16 * high + low,
        }
    }
}

/// The number that the token `digits` spells: the token is one digit or
/// more, nothing else, and its value is at most `max`.
pub open spec fn spelled(digits: Seq<char>, radix: Radix, max: nat) -> Option<nat> {
    if digits.len() > 0 && all_digits(digits, radix) && digits_value(digits, radix) <= max {
        Some(digits_value(digits, radix))
    } else {
        None
    }
}

/// The number that `token` spells where a `+` may stand before the digits.
pub open spec fn spelled_with_sign(token: Seq<char>, radix: Radix, max: nat) -> Option<nat> {
    if token.len() > 0 && token[0] == '+' {
        spelled(token.skip(1), radix, max)
    } else {
        spelled(token, radix, max)
    }
}

/// The value of `c` as a digit of `radix`, if it is one.
pub fn digit_of(c: char, radix: Radix) -> (digit: Option<usize>)
    ensures
        digit is Some <==> digit_value(c, radix) is Some,
        digit matches Some(d) ==> digit_value(c, radix) == Some(d as nat) && d < radix.base(),
{
    if '0' <= c && c <= '9' {
        Some((c as u32 - '0' as u32) as usize)
    } else {
        match radix {
            Radix::Decimal => None,
            Radix::Hexadecimal => {
                if 'a' <= c && c <= 'f' {
                    Some((c as u32 - 'a' as u32 + 10) as usize)
                } else if 'A' <= c && c <= 'F' {
                    Some((c as u32 - 'A' as u32 + 10) as usize)
                } else {
                    None
                }
            },
        }
    }
}

/// Reads the characters of `chars` from `from` up to `to` as one number of
/// `radix` that may not exceed `max`.
pub(crate) fn parse_digits(
    chars: &Vec<char>,
    from: usize,
    to: usize,
    radix: Radix,
    max: usize,
) -> (number: Option<usize>)
    requires
        from <= to <= chars@.len(),
    ensures
        match number {
            Some(n) => spelled(chars@.subrange(from as int, to as int), radix, max as nat) == Some(
                n as nat,
            ),
            None => spelled(chars@.subrange(from as int, to as int), radix, max as nat) is None,
        },
{
    let ghost token = chars@.subrange(from as int, to as int);
    if from == to {
        return None;
    }
    let mut value: usize = 0;
    let mut exceeded: bool = false;
    let mut i: usize = from;
    while i < to
        invariant
            from <= i <= to <= chars@.len(),
            token == chars@.subrange(from as int, to as int),
            all_digits(chars@.subrange(from as int, i as int), radix),
            !exceeded ==> value == digits_value(chars@.subrange(from as int, i as int), radix)
                && value <= max,
            exceeded ==> digits_value(chars@.subrange(from as int, i as int), radix) > max,
        decreases to - i,
    {
        let ghost before = chars@.subrange(from as int, i as int);
        let ghost after = chars@.subrange(from as int, i + 1);
        assert(after.drop_last() == before);
        assert(after.last() == chars@[i as int]);
        match digit_of(chars[i], radix) {
            None => {
                assert(token[i - from] == chars@[i as int]);
                return None;
            },
            Some(d) => {
                assert forall|k: int| 0 <= k < after.len() implies (#[trigger] digit_value(
                    after[k],
                    radix,
                )) is Some by {
                    if k < before.len() {
                        assert(after[k] == before[k]);
                    }
                }
                if !exceeded {
                    if d > max {
                        exceeded = true;
                    } else {
                        let room: usize = match radix {
                            Radix::Decimal => (max - d) / 10,
                            Radix::Hexadecimal => (max - d) / 16,
                        };
                        if value > room {
                            exceeded = true;
                        } else {
                            value = match radix {
                                Radix::Decimal => 10 * value + d,
                                Radix::Hexadecimal => 16 * value + d,
                            };
                        }
                    }
                }
            },
        }
        i = i + 1;
    }
    assert(chars@.subrange(from as int, i as int) == token);
    if exceeded {
        None
    } else {
        Some(value)
    }
}

} // verus!
