pub mod builder;
pub mod layers;
pub mod network;
pub mod scalar;
pub mod tensor;

use vstd::prelude::*;

verus! {

/// The recoverable failures of the library, mirroring the four ways a
/// training step can go wrong: asking for a reduction along an axis that
/// does not exist, driving a network whose terminal loss layer was never
/// set, running a backward pass before the matching forward pass, and
/// combining tensors of incompatible shapes.
#[derive(Clone, Copy, Debug, PartialEq, Eq, Structural)]
pub enum Error {
    InvalidAxis,
    MissingLastLayer,
    BackwardBeforeForward,
    ShapeMismatch,
}

} // verus!
