//! Fahrenheit-to-Celsius conversion with truncating integer arithmetic.

use vstd::prelude::*;

verus! {

/// `(f - 32) * 5 / 9` where the division truncates toward zero, as Rust's
/// `/` on signed integers does.
pub open spec fn spec_celsius_of(f: int) -> int {
    let p = (f - 32) * 5;
    if p >= 0 {
        p / 9
    } else {
        -((-p) / 9)
    }
}

/// Converts degrees Fahrenheit to degrees Celsius as `(f - 32) * 5 / 9`,
/// truncating toward zero. Defined for every `i32` input: the result
/// always fits, even though the intermediate product may not fit in `i32`.
pub fn fahrenheit_to_celsius(f: i32) -> (c: i32)
    ensures
        c == spec_celsius_of(f as int),
{
    let p: i64 = (f as i64 - 32) * 5;
    if p >= 0 {
        let q: u64 = (p as u64) / 9;
        q as i32
    } else {
        let q: u64 = ((-p) as u64) / 9;
        -(q as i32)
    }
}

} // verus!
