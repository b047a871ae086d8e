//! How the samples of a signal are carried over to new timestamps.
use vstd::prelude::*;

verus! {

/// Way of finding a sample at a timestamp that the signal does not hold.
#[derive(Debug, Clone, Copy, PartialEq, Eq, Structural)]
pub enum Interpolation {
    RepeatPreviousSample,
    LinearInterpolation,
}

} // verus!
