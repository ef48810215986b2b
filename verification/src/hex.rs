//! Reading an address from its hexadecimal digits.

use vstd::prelude::*;
use vstd::std_specs::iter::IteratorSpec;

verus! {

/// Why a run of characters is not an address.
#[derive(Clone, Copy, Debug, PartialEq, Eq, Structural)]
pub enum AddressError {
    /// There is no digit at all.
    Empty,
    /// Some character is not a hexadecimal digit.
    InvalidDigit,
    /// Every character is a digit, but the value exceeds `usize::MAX`.
    Overflow,
}

/// The value of a hexadecimal digit, in either case; `None` for any other
/// character.
pub open spec fn digit_value(c: char) -> Option<nat> {
    if '0' <= c <= '9' {
        Some((c as nat - '0' as nat) as nat)
    } else if 'a' <= c <= 'f' {
        Some((c as nat - 'a' as nat + 10) as nat)
    } else if 'A' <= c <= 'F' {
        Some((c as nat - 'A' as nat + 10) as nat)
    } else {
        None
    }
}

/// Every character of `text` is a hexadecimal digit.
pub open spec fn all_hex_digits(text: Seq<char>) -> bool {
    forall|i: int| 0 <= i < text.len() ==> (#[trigger] digit_value(text[i])) is Some
}

/// The number that the digits of `text` denote in base 16, most significant
/// digit first. A character that is no digit counts as zero.
pub open spec fn hex_value(text: Seq<char>) -> nat
    decreases text.len(),
{
    if text.len() == 0 {
        0
    } else {
        let last = match digit_value(text.last()) {
            Some(d) => d,
            None => 0,
        };
        hex_value(text.drop_last()) * 16 + last
    }
}

/// What `text` reads as: its value, or the reason why it has none.
pub open spec fn parse_hex_spec(text: Seq<char>) -> Result<usize, AddressError> {
    if text.len() == 0 {
        Err(AddressError::Empty)
    } else if !all_hex_digits(text) {
        Err(AddressError::InvalidDigit)
    } else if hex_value(text) > usize::MAX {
        Err(AddressError::Overflow)
    } else {
        Ok(hex_value(text) as usize)
    }
}

/// The value of a single digit, or `None` for a character that is none.
pub fn hex_digit(c: char) -> (d: Option<u8>)
    ensures
        match d {
            Some(v) => digit_value(c) == Some(v as nat) && v < 16,
            None => digit_value(c) is None,
        },
{
    let code: u32 = c as u32;
    if 0x30 <= code && code <= 0x39 {
        Some((code - 0x30) as u8)
    } else if 0x61 <= code && code <= 0x66 {
        Some((code - 0x61 + 10) as u8)
    } else if 0x41 <= code && code <= 0x46 {
        Some((code - 0x41 + 10) as u8)
    } else {
        None
    }
}

/// Reads `text` as an address written in hexadecimal digits, without prefix
/// or sign.
pub fn parse_hex(text: &str) -> (res: Result<usize, AddressError>)
    ensures
        res == parse_hex_spec(text@),
{
    if text.is_empty() {
        return Err(AddressError::Empty);
    }
    let mut it = text.chars();
    let ghost mut seen: int = 0;
    let mut value: usize = 0;
    let mut overflow = false;
    loop
        invariant
            0 <= seen <= text@.len(),
            text@.len() > 0,
            it.obeys_prophetic_iter_laws(),
            it.remaining() == text@.skip(seen),
            all_hex_digits(text@.take(seen)),
            overflow ==> hex_value(text@.take(seen)) > usize::MAX,
            !overflow ==> hex_value(text@.take(seen)) == value,
        decreases text@.len() - seen,
    {
        match it.next() {
            None => {
                proof {
                    assert(text@.take(seen) =~= text@);
                }
                if overflow {
                    return Err(AddressError::Overflow);
                }
                return Ok(value);
            },
            Some(c) => {
                let ghost next = text@.take(seen + 1);
                assert(c == text@[seen]);
                assert(next.drop_last() =~= text@.take(seen));
                assert(next.last() == c);
                assert(text@.skip(seen).drop_first() =~= text@.skip(seen + 1));
                match hex_digit(c) {
                    None => {
                        return Err(AddressError::InvalidDigit);
                    },
                    Some(d) => {
                        assert(all_hex_digits(next)) by {
                            assert forall|i: int| 0 <= i < next.len() implies (
                            #[trigger] digit_value(next[i])) is Some by {
                                if i < seen {
                                    assert(next[i] == text@.take(seen)[i]);
                                }
                            }
                        }
                        if !overflow {
                            if value > (usize::MAX - d as usize) / 16 {
                                overflow = true;
                            } else {
                                value = value * 16 + d as usize;
                            }
                        }
                        proof {
                            seen = seen + 1;
                        }
                    },
                }
            },
        }
    }
}

} // verus!
