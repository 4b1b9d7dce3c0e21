use vstd::prelude::*;
use vstd::string::StrSliceExecFns;
use core::num::ParseIntError;

verus! {

#[verifier::external_type_specification]
#[verifier::external_body]
pub struct ExParseIntError(ParseIntError);

/// The value of a hexadecimal digit.
pub open spec fn hex_digit(c: char) -> Option<nat> {
    if '0' <= c <= '9' {
        Some((c as nat - '0' as nat) as nat)
    } else if 'a' <= c <= 'f' {
        Some((c as nat - 'a' as nat + 10) as nat)
    } else if 'A' <= c <= 'F' {
        Some((c as nat - 'A' as nat + 10) as nat)
    } else {
        None
    }
}

/// The value of a string of hexadecimal digits, most significant first.
pub open spec fn hex_value(digits: Seq<char>) -> nat
    decreases digits.len(),
{
    if digits.len() == 0 {
        0
    } else {
        hex_value(digits.drop_last()) * 16 + hex_digit(digits.last()).unwrap_or(0)
    }
}

/// The 16-bit integer that `s` spells in hexadecimal: an optional `+`, then
/// one or more hexadecimal digits, with a value that fits.
pub open spec fn hex_u16(s: Seq<char>) -> Option<u16> {
    let digits = if s.len() > 0 && s[0] == '+' { s.drop_first() } else { s };
    if digits.len() > 0 && (forall|i: int| 0 <= i < digits.len() ==> (#[trigger] hex_digit(digits[i])).is_some())
        && hex_value(digits) < 0x1_0000 {
        Some(hex_value(digits) as u16)
    } else {
        None
    }
}

/// Relies on `u16::from_str_radix` with radix 16, which accepts an optional
/// `+` followed by hexadecimal digits whose value fits in 16 bits.
#[verifier::external_body]
fn parse_hex_u16(s: &str) -> (r: Result<u16, ParseIntError>)
    ensures
        match r {
            Ok(v) => hex_u16(s@) == Some(v),
            Err(_) => hex_u16(s@).is_none(),
        },
{
    u16::from_str_radix(s, 16)
}

/// What a search asks of one slot.
#[derive(Clone, Copy, Debug, PartialEq, Eq)]
pub enum PieceConstraint {
    /// The slot must hold this piece.
    Want(u16),
    /// This piece was grabbed for the slot in an earlier life.
    GrabbedId(u16),
    /// Any piece will do.
    DontCare,
}

impl PieceConstraint {
    /// Reads a slot constraint: `G` and a hexadecimal id for a piece grabbed
    /// earlier, `X` for any piece, or a hexadecimal id for a wanted piece.
    pub fn from_str(s: &str) -> (r: Result<PieceConstraint, ParseIntError>)
        ensures
            s@.len() > 0 && s@[0] == 'G' ==> match r {
                Ok(c) => hex_u16(s@.drop_first()) == Some(c->GrabbedId_0) && c is GrabbedId,
                Err(_) => hex_u16(s@.drop_first()).is_none(),
            },
            s@ == seq!['X'] ==> r == Ok::<PieceConstraint, ParseIntError>(PieceConstraint::DontCare),
            !(s@.len() > 0 && s@[0] == 'G') && s@ != seq!['X'] ==> match r {
                Ok(c) => hex_u16(s@) == Some(c->Want_0) && c is Want,
                Err(_) => hex_u16(s@).is_none(),
            },
    {
        let len = s.unicode_len();
        if len > 0 && s.get_char(0) == 'G' {
            let rest = s.substring_char(1, len);
            assert(rest@ =~= s@.drop_first());
            match parse_hex_u16(rest) {
                Ok(v) => Ok(PieceConstraint::GrabbedId(v)),
                Err(e) => Err(e),
            }
        } else if len == 1 && s.get_char(0) == 'X' {
            assert(s@ =~= seq!['X']);
            Ok(PieceConstraint::DontCare)
        } else {
            proof {
                if s@ =~= seq!['X'] {
                    assert(s@[0] == 'X');
                }
            }
            match parse_hex_u16(s) {
                Ok(v) => Ok(PieceConstraint::Want(v)),
                Err(e) => Err(e),
            }
        }
    }
}

} // verus!
