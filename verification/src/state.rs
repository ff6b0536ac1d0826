//! The model state: the network's four trainable tensors as one flat,
//! immutable snapshot.
//!
//! Every scalar is the bit pattern of an IEEE-754 single-precision value,
//! held as a `u32`.  The numeric interpretation never matters to the shape
//! and persistence discipline verified here, and the bit patterns convert
//! to and from machine floats losslessly at the boundary that runs the
//! arithmetic.

use vstd::prelude::*;

verus! {

/// Width of one input image: 28 x 28 pixels, row-major.
pub const INPUT_LEN: usize = 784;

/// Number of hidden-layer units.
pub const HIDDEN_LEN: usize = 128;

/// Number of output classes (the digits 0 through 9).
pub const OUTPUT_LEN: usize = 10;

/// Length of the flattened first-layer weight matrix (128 x 784, row-major).
pub const W1_LEN: usize = HIDDEN_LEN * INPUT_LEN;

/// Length of the flattened second-layer weight matrix (10 x 128, row-major).
pub const W2_LEN: usize = OUTPUT_LEN * HIDDEN_LEN;

/// The mathematical content of a model state or an engine: the four tensor
/// contents, flattened row-major.
#[verifier::ext_equal]
pub ghost struct StateView {
    pub w1: Seq<u32>,
    pub b1: Seq<u32>,
    pub w2: Seq<u32>,
    pub b2: Seq<u32>,
}

impl StateView {
    /// The fixed shapes of the network: `w1` is 128 x 784, `b1` is 128,
    /// `w2` is 10 x 128, `b2` is 10.
    pub open spec fn wf(self) -> bool {
        &&& self.w1.len() == W1_LEN
        &&& self.b1.len() == HIDDEN_LEN
        &&& self.w2.len() == W2_LEN
        &&& self.b2.len() == OUTPUT_LEN
    }
}

/// A serializable snapshot of the four tensors, in the fixed field order
/// `w1, b1, w2, b2`.
///
/// A freshly built snapshot may carry tensors of any length; importing it
/// into an engine is what enforces the shapes (a mismatch is rejected as
/// `SerializationError`).
#[derive(Clone, Debug, PartialEq, Eq)]
pub struct ModelState {
    /// First-layer weights, 128 x 784 row-major when well-formed.
    pub w1: Vec<u32>,
    /// First-layer biases, length 128 when well-formed.
    pub b1: Vec<u32>,
    /// Second-layer weights, 10 x 128 row-major when well-formed.
    pub w2: Vec<u32>,
    /// Second-layer biases, length 10 when well-formed.
    pub b2: Vec<u32>,
}

impl View for ModelState {
    type V = StateView;

    open spec fn view(&self) -> StateView {
        StateView { w1: self.w1@, b1: self.b1@, w2: self.w2@, b2: self.b2@ }
    }
}

impl ModelState {
    /// Whether the four tensors have exactly the network's shapes.
    pub fn is_well_formed(&self) -> (r: bool)
        ensures
            r == self@.wf(),
    {
        self.w1.len() == W1_LEN && self.b1.len() == HIDDEN_LEN && self.w2.len() == W2_LEN
            && self.b2.len() == OUTPUT_LEN
    }
}

} // verus!
