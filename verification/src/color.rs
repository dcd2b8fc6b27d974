//! A fully resolved pixel color: one integer per channel, already averaged,
//! gamma-corrected and scaled to the image's `0..=255` channel range by the
//! renderer. This is the form in which rows travel from the workers through
//! the reorder buffer to the image writer.

use vstd::prelude::*;

verus! {

/// One pixel, as the image file stores it: red, green and blue channel
/// levels, each in `0..=255`.
#[derive(Clone, Copy, Debug, PartialEq, Eq, Structural)]
pub struct Rgb {
    pub r: u8,
    pub g: u8,
    pub b: u8,
}

impl Rgb {
    /// The color with the given channel levels.
    pub fn new(r: u8, g: u8, b: u8) -> (c: Rgb)
        ensures
            c == (Rgb { r, g, b }),
    {
        Rgb { r, g, b }
    }
}

} // verus!
