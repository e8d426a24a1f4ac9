//! Fixed-point confidence values.
//!
//! A confidence is a real number in `[0, 1]` reported by the transcription
//! engine. The library carries it as an integer number of millionths, so
//! `CONFIDENCE_SCALE` stands for certainty and `0` for no confidence at all.

use vstd::prelude::*;

verus! {

/// The fixed-point unit: one million millionths stand for a confidence of 1.0.
pub const CONFIDENCE_SCALE: u32 = 1_000_000;

/// A well-formed confidence value lies between zero and the scale, inclusive.
pub open spec fn valid_confidence(c: u32) -> bool {
    c <= CONFIDENCE_SCALE
}

/// The value used when an absent confidence has to be compared against a
/// present one: absence is treated as zero for comparison purposes only.
pub open spec fn comparison_value(c: Option<u32>) -> int {
    match c {
        Some(v) => v as int,
        None => 0,
    }
}

/// Executable form of `comparison_value`: the confidence, with absence as
/// zero. Used only to compare candidates — never reported as a value.
pub fn compare_value(c: Option<u32>) -> (r: u32)
    ensures
        r as int == comparison_value(c),
{
    match c {
        Some(v) => v,
        None => 0,
    }
}

} // verus!
