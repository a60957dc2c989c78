//! A rectangle with unsigned pixel dimensions and its area.

use vstd::prelude::*;

verus! {

/// A rectangle described by its width and height in pixels.
#[derive(Debug)]
pub struct Rectangle {
    pub width: u32,
    pub height: u32,
}

/// The area of a rectangle, in square pixels.
///
/// The product must fit in `u32`; the multiplication is exact, never
/// wrapping or saturating.
pub fn area(rect: &Rectangle) -> (a: u32)
    requires
        rect.width * rect.height <= u32::MAX,
    ensures
        a == rect.width * rect.height,
{
    rect.width * rect.height
}

} // verus!
