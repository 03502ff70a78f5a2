//! The pseudorandom source. Every draw goes through the two functions below,
//! whose contracts state what holds of any outcome.

use rand::Rng;
use rand::rngs::StdRng;
use vstd::prelude::*;

verus! {

/// The generator: `rand::rngs::StdRng`, carried through as it is. Nothing
/// is known of its state.
#[verifier::external_type_specification]
#[verifier::external_body]
pub struct ExStdRng(rand::rngs::StdRng);

/// Whether `code` is a Unicode scalar value, that is, the code of a `char`.
pub open spec fn is_scalar(code: u32) -> bool {
    code < 0xD800 || (0xE000 <= code && code <= 0x10FFFF)
}

/// `rand::Rng::gen_range` on the half-open range `low..high` of `i64`.
/// The call panics on an empty range, which `requires` leaves out; the
/// value it returns lies in the range. Which value comes is left open.
#[verifier::external_body]
pub(crate) fn draw_in_range(rng: &mut StdRng, low: i64, high: i64) -> (drawn: i64)
    requires
        low < high,
    ensures
        low <= drawn < high,
{
    rng.gen_range(low..high)
}

/// `rand::Rng::gen_ratio`: true with probability `numerator / denominator`.
/// The call panics on a zero denominator and on a numerator above the
/// denominator, which `requires` leaves out. Its documentation fixes the
/// result for the two extreme ratios only.
#[verifier::external_body]
pub(crate) fn draw_ratio(rng: &mut StdRng, numerator: u32, denominator: u32) -> (hit: bool)
    requires
        0 < denominator,
        numerator <= denominator,
    ensures
        numerator == 0 ==> !hit,
        numerator == denominator ==> hit,
{
    rng.gen_ratio(numerator, denominator)
}

/// `char::from_u32`: the character with the given code, where the code is a
/// Unicode scalar value, and `None` for every other code.
pub assume_specification[ char::from_u32 ](code: u32) -> (c: Option<char>)
    ensures
        c.is_some() <==> is_scalar(code),
        c matches Some(ch) ==> ch as u32 == code,
;

} // verus!
