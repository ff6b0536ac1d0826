//! The engine's state discipline: exclusive ownership of the four trainable
//! tensors, shape-checked import, lossless export, and atomic replacement.
//!
//! The engine never exposes a way to change a single tensor on its own:
//! state only ever changes through [`Engine::import_state`], which either
//! replaces all four tensors at once or leaves every one of them untouched.
//! A reader therefore never observes a mixture of old and new tensors.

use vstd::prelude::*;

use crate::error::NNError;
use crate::state::ModelState;
use crate::state::StateView;

verus! {

/// Owner of the network's four tensors, each scalar a `u32` bit pattern of
/// its single-precision value.
///
/// An engine is only ever constructed from a well-formed [`ModelState`], and
/// every mutation preserves well-formedness, so the four tensors always have
/// the network's fixed shapes.
pub struct Engine {
    w1: Vec<u32>,
    b1: Vec<u32>,
    w2: Vec<u32>,
    b2: Vec<u32>,
}

impl View for Engine {
    type V = StateView;

    closed spec fn view(&self) -> StateView {
        StateView { w1: self.w1@, b1: self.b1@, w2: self.w2@, b2: self.b2@ }
    }
}

/// A verified copy of a tensor, element for element.
fn copy_tensor(v: &Vec<u32>) -> (r: Vec<u32>)
    ensures
        r@ == v@,
{
    vstd::slice::slice_to_vec(v.as_slice())
}

impl Engine {
    /// Builds an engine from a snapshot, validating the tensor shapes.
    ///
    /// Succeeds exactly when the snapshot is well-formed; a shape mismatch
    /// is a `SerializationError`.
    pub fn from_state(state: ModelState) -> (r: Result<Engine, NNError>)
        ensures
            r is Ok <==> state@.wf(),
            r matches Ok(e) ==> e@ == state@ && e@.wf(),
            r matches Err(err) ==> err == NNError::SerializationError,
    {
        if state.is_well_formed() {
            Ok(Engine { w1: state.w1, b1: state.b1, w2: state.w2, b2: state.b2 })
        } else {
            Err(NNError::SerializationError)
        }
    }

    /// Flattens the four tensors into an immutable snapshot.
    ///
    /// Never fails: the result is always `Ok`, and the snapshot's tensors
    /// equal the engine's exactly.
    pub fn export_state(&self) -> (r: Result<ModelState, NNError>)
        ensures
            r is Ok,
            r matches Ok(st) ==> st@ == self@,
    {
        Ok(
            ModelState {
                w1: copy_tensor(&self.w1),
                b1: copy_tensor(&self.b1),
                w2: copy_tensor(&self.w2),
                b2: copy_tensor(&self.b2),
            },
        )
    }

    /// Replaces the engine's tensors with the snapshot's, all four at once.
    ///
    /// Succeeds exactly when the snapshot is well-formed.  On failure the
    /// engine's prior state is untouched: there is no partial replacement.
    pub fn import_state(&mut self, state: ModelState) -> (r: Result<(), NNError>)
        ensures
            r is Ok <==> state@.wf(),
            r is Ok ==> final(self)@ == state@ && final(self)@.wf(),
            r matches Err(err) ==> err == NNError::SerializationError && final(self)@ == old(self)@,
    {
        if state.is_well_formed() {
            self.w1 = state.w1;
            self.b1 = state.b1;
            self.w2 = state.w2;
            self.b2 = state.b2;
            Ok(())
        } else {
            Err(NNError::SerializationError)
        }
    }

    /// Read access to the flattened first-layer weights.
    pub fn w1_bits(&self) -> (r: &Vec<u32>)
        ensures
            r@ == self@.w1,
    {
        &self.w1
    }

    /// Read access to the first-layer biases.
    pub fn b1_bits(&self) -> (r: &Vec<u32>)
        ensures
            r@ == self@.b1,
    {
        &self.b1
    }

    /// Read access to the flattened second-layer weights.
    pub fn w2_bits(&self) -> (r: &Vec<u32>)
        ensures
            r@ == self@.w2,
    {
        &self.w2
    }

    /// Read access to the second-layer biases.
    pub fn b2_bits(&self) -> (r: &Vec<u32>)
        ensures
            r@ == self@.b2,
    {
        &self.b2
    }
}

/// Round-trip fidelity of export followed by import, stated over the views
/// the two contracts use: a snapshot taken from a well-formed engine is
/// itself well-formed, so importing it into any engine succeeds and
/// reproduces the original tensors exactly.  Every function of the tensors
/// — prediction included — is therefore preserved across the round trip.
pub proof fn lemma_export_import_round_trip(engine: StateView, snapshot: StateView)
    requires
        engine.wf(),
        snapshot == engine,
    ensures
        snapshot.wf(),
{
}

} // verus!
