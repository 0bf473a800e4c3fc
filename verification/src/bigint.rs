//! Integer constants: from their sign and base-2^32 magnitude to `i64`.

use vstd::prelude::*;
use malachite_bigint::{BigInt, Sign};
use num_traits::ToPrimitive;

verus! {

/// The value of a magnitude given in base 2^32, least significant digit first.
pub open spec fn magnitude_value(digits: Seq<u32>) -> nat
    decreases digits.len(),
{
    if digits.len() == 0 {
        0
    } else {
        digits[0] as nat + 4294967296 * magnitude_value(digits.drop_first())
    }
}

/// The value of an integer given by its sign and magnitude.
pub open spec fn integer_value(negative: bool, digits: Seq<u32>) -> int {
    if negative {
        -(magnitude_value(digits) as int)
    } else {
        magnitude_value(digits) as int
    }
}

/// Builds the integer with `BigInt::from_slice` and converts it with
/// `ToPrimitive::to_i64`: the result is the integer's value where that fits
/// in an `i64`, and `None` where it does not.
#[verifier::external_body]
pub(crate) fn integer_to_i64(negative: bool, digits: &Vec<u32>) -> (r: Option<i64>)
    ensures
        i64::MIN <= integer_value(negative, digits@) <= i64::MAX ==> r == Some(
            integer_value(negative, digits@) as i64,
        ),
        !(i64::MIN <= integer_value(negative, digits@) <= i64::MAX) ==> r is None,
{
    let sign = if negative { Sign::Minus } else { Sign::Plus };
    BigInt::from_slice(sign, digits.as_slice()).to_i64()
}

} // verus!
