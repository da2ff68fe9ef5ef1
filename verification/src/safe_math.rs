//! Checked arithmetic on token amounts.
use crate::types::Error;
use vstd::prelude::*;

verus! {

/// Whether a mathematical integer is a representable token amount.
pub open spec fn is_amount(x: int) -> bool {
    i128::MIN <= x <= i128::MAX
}

/// `a + b`, or `Error::Overflow` when the sum leaves the range of an amount.
pub fn safe_add(a: i128, b: i128) -> (r: Result<i128, Error>)
    ensures
        r == (if is_amount(a + b) {
            Ok::<i128, Error>((a + b) as i128)
        } else {
            Err::<i128, Error>(Error::Overflow)
        }),
{
    match a.checked_add(b) {
        Some(x) => Ok(x),
        None => Err(Error::Overflow),
    }
}

/// `a - b`, or `Error::Underflow` when the difference leaves the range of an amount.
pub fn safe_sub(a: i128, b: i128) -> (r: Result<i128, Error>)
    ensures
        r == (if is_amount(a - b) {
            Ok::<i128, Error>((a - b) as i128)
        } else {
            Err::<i128, Error>(Error::Underflow)
        }),
{
    match a.checked_sub(b) {
        Some(x) => Ok(x),
        None => Err(Error::Underflow),
    }
}

/// The amount nearest to a mathematical integer.
pub open spec fn clamped(x: int) -> i128 {
    if x > i128::MAX {
        i128::MAX
    } else if x < i128::MIN {
        i128::MIN
    } else {
        x as i128
    }
}

/// `a + b`, or the nearest amount where the sum leaves the range.
pub fn clamped_add(a: i128, b: i128) -> (r: i128)
    ensures
        r == clamped(a + b),
{
    match a.checked_add(b) {
        Some(x) => x,
        None => if b > 0 {
            i128::MAX
        } else {
            i128::MIN
        },
    }
}

} // verus!
