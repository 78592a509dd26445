//! The ways the viewer can fail for good.

use vstd::prelude::*;

verus! {

/// A feed event whose embedded text could not be read.
#[derive(Clone, Copy, Debug, PartialEq, Eq, Structural)]
pub enum DecodeError {
    /// The position was not valid Forsyth-Edwards notation.
    InvalidFen,
    /// The last move did not start with two square names.
    InvalidLastMove,
}

/// The sending end of the channel is gone: the producer has died.
#[derive(Clone, Copy, Debug, PartialEq, Eq, Structural)]
pub struct Disconnected;

} // verus!
