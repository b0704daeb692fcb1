//! The still-image sink's verified half: the name of the file a frame goes
//! to, and the conversion of a fixed-point color channel to an image byte.
//! Encoding and writing the image file is the shell's business.

use vstd::prelude::*;

use crate::fixed::{tdiv, FX_ONE};

verus! {

/// The destination of a rendered image file.
pub struct Picture {
    pub filename: String,
}

impl Picture {
    /// A sink writing to the named file.
    pub fn new(filename: String) -> (r: Picture)
        ensures
            r.filename@ == filename@,
    {
        Picture { filename }
    }
}

/// One fixed-point color channel scaled to an image byte: 255 times the
/// channel, truncated toward zero and clamped into the byte range.
pub open spec fn channel_byte_spec(c: int) -> int {
    let v = tdiv(c * 255, FX_ONE as int);
    if v < 0 {
        0
    } else if v > 255 {
        255
    } else {
        v
    }
}

/// Converts one color channel to an image byte.
pub fn channel_to_byte(c: i64) -> (r: u8)
    ensures
        r as int == channel_byte_spec(c as int),
{
    proof {
        crate::fixed::lemma_abs_mul_le(c as int, 255, 0x8000_0000_0000_0000, 255);
    }
    let p: i128 = (c as i128) * 255;
    proof {
        crate::fixed::lemma_tdiv_shrinks(p as int, FX_ONE as int);
    }
    let v: i128 = p.checked_div(FX_ONE as i128).unwrap();
    if v < 0 {
        0
    } else if v > 255 {
        255
    } else {
        v as u8
    }
}

} // verus!
