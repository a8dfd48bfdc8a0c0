//! Error types shared by every codec layer.

use vstd::prelude::*;
use vstd::string::StringExecFns;

verus! {

/// Why a decode failed.
#[derive(Clone, Copy, Debug, PartialEq, Eq, Structural)]
pub enum DecodeError {
    /// The source ended before the field was complete.
    UnexpectedEof,
    /// Structurally invalid bytes: a varint over budget, a negative length
    /// where none is allowed, a duplicate tag, a length over the sanity cap.
    Malformed,
    /// The bytes decoded but violate a value-level constraint (bad UTF-8).
    InvalidValue,
}

/// Why an encode failed. Encode errors are programming mistakes of the
/// caller; the codec never emits partial output before reporting one.
#[derive(Clone, Debug, PartialEq, Eq, Structural)]
pub enum EncodeError {
    /// A tagged-field list was not strictly increasing by tag: `earlier`
    /// comes right before `later` on input, but `earlier >= later`.
    InvalidTagOrder { earlier: i32, later: i32 },
    /// A null value was handed to a non-nullable slot.
    NullValue,
}

/// The character for one decimal digit `d` (`0 <= d <= 9`).
pub open spec fn digit_char(d: int) -> char {
    ((48 + d) as u8) as char
}

/// The decimal digits of a non-negative integer, most significant first.
pub open spec fn decimal_digits(n: int) -> Seq<char>
    decreases n,
{
    if n < 10 {
        seq![digit_char(n)]
    } else {
        decimal_digits(n / 10).push(digit_char(n % 10))
    }
}

/// The decimal rendering of an integer, with a `-` sign when negative.
pub open spec fn decimal(n: int) -> Seq<char> {
    if n < 0 {
        seq!['-'] + decimal_digits(-n)
    } else {
        decimal_digits(n)
    }
}

/// The exact message reported when tag `later` follows tag `earlier` without
/// being higher.
pub open spec fn tag_order_msg(earlier: int, later: int) -> Seq<char> {
    "Invalid raw tag field list: tag "@ + decimal(later) + " comes after tag "@
        + decimal(earlier) + ", but is not higher than it."@
}

/// Relies on the `Display` implementation of `i32`: it prints the decimal
/// digits of the value, preceded by `-` when the value is negative.
#[verifier::external_body]
fn i32_to_decimal_string(x: i32) -> (r: String)
    ensures
        r@ == decimal(x as int),
{
    format!("{}", x)
}

impl EncodeError {
    /// A human-readable description of the error.
    pub fn message(&self) -> (r: String)
        ensures
            match *self {
                EncodeError::InvalidTagOrder { earlier, later } => r@ == tag_order_msg(
                    earlier as int,
                    later as int,
                ),
                EncodeError::NullValue => r@ == "null value for a non-nullable field"@,
            },
    {
        match self {
            EncodeError::InvalidTagOrder { earlier, later } => {
                let mut s = String::from_str("Invalid raw tag field list: tag ");
                s.append(i32_to_decimal_string(*later).as_str());
                s.append(" comes after tag ");
                s.append(i32_to_decimal_string(*earlier).as_str());
                s.append(", but is not higher than it.");
                proof {
                    assert(s@ =~= tag_order_msg(*earlier as int, *later as int));
                }
                s
            },
            EncodeError::NullValue => String::from_str("null value for a non-nullable field"),
        }
    }
}

} // verus!
