//! A stereo frame: one sample per channel at one point in time.
use vstd::prelude::*;

use crate::sample::Sample;

verus! {

/// One sample of the left channel (index 0) and one of the right (index 1).
#[derive(Clone, Copy, Debug, PartialEq, Eq, Structural)]
pub struct Frame {
    pub left: Sample,
    pub right: Sample,
}

/// The silent frame.
pub open spec fn silence() -> Frame {
    Frame { left: 0, right: 0 }
}

impl Frame {
    pub fn new(left: Sample, right: Sample) -> (r: Frame)
        ensures
            r == (Frame { left, right }),
    {
        Frame { left, right }
    }

    pub fn silent() -> (r: Frame)
        ensures
            r == silence(),
    {
        Frame { left: 0, right: 0 }
    }
}

} // verus!
