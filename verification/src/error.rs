//! The failure conditions of the engine. Either kind reports the
//! offending lengths; both are caller mistakes, never recoverable
//! runtime states.

use vstd::prelude::*;

verus! {

/// A width disagreement detected at a call boundary.
#[derive(Clone, Copy, PartialEq, Eq, Structural, Debug)]
pub enum NetError {
    /// An activation vector's length disagrees with the expected fan-in.
    DimensionMismatch { expected: usize, got: usize },
    /// A target vector's length disagrees with the output layer width.
    TargetWidthMismatch { expected: usize, got: usize },
}

} // verus!
