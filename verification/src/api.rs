//! The plain request shapes that transport layers hand to the classifier,
//! with their verified admission checks.
//!
//! Web handlers, command-line tools and embedded bindings all funnel into
//! the same two operations; these types carry their inputs as plain values
//! and decide — before any arithmetic runs — whether the inputs are
//! acceptable.

use vstd::prelude::*;

use crate::error::NNError;
use crate::inference::validate_label;
use crate::inference::validate_pixels;
use crate::state::INPUT_LEN;
use crate::state::OUTPUT_LEN;

verus! {

/// A prediction request as the application layer shapes it.
#[derive(Clone, Debug)]
pub struct PredictDigitRequest {
    /// The 784 pixel intensities of the image, row-major.
    pub pixels: Vec<u8>,
}

impl PredictDigitRequest {
    /// Accepts exactly the requests whose image has 784 pixels.
    pub fn validate(&self) -> (r: Result<(), NNError>)
        ensures
            r is Ok <==> self.pixels@.len() == INPUT_LEN,
            r matches Err(e) ==> e == NNError::InvalidInput,
    {
        validate_pixels(&self.pixels)
    }
}

/// A training request as the application layer shapes it.
#[derive(Clone, Debug)]
pub struct TrainDigitRequest {
    /// The digit the image shows, 0 through 9.
    pub label: u8,
    /// The 784 pixel intensities of the image, row-major.
    pub pixels: Vec<u8>,
}

impl TrainDigitRequest {
    /// Accepts exactly the requests with 784 pixels and a label 0 through 9.
    pub fn validate(&self) -> (r: Result<(), NNError>)
        ensures
            r is Ok <==> self.pixels@.len() == INPUT_LEN && self.label < OUTPUT_LEN,
            r matches Err(e) ==> e == NNError::InvalidInput,
    {
        validate_pixels(&self.pixels)?;
        validate_label(self.label)?;
        Ok(())
    }
}

/// A prediction request as the web layer decodes it from the wire.
#[derive(Clone, Debug)]
pub struct PredictRequest {
    /// The 784 pixel intensities of the image, row-major.
    pub image: Vec<u8>,
}

impl PredictRequest {
    /// Accepts exactly the requests whose image has 784 pixels.
    pub fn validate(&self) -> (r: Result<(), NNError>)
        ensures
            r is Ok <==> self.image@.len() == INPUT_LEN,
            r matches Err(e) ==> e == NNError::InvalidInput,
    {
        validate_pixels(&self.image)
    }
}

/// A training request as the web layer decodes it from the wire.
#[derive(Clone, Debug)]
pub struct TrainRequest {
    /// The digit the image shows, 0 through 9.
    pub label: u8,
    /// The 784 pixel intensities of the image, row-major.
    pub image: Vec<u8>,
}

impl TrainRequest {
    /// Accepts exactly the requests with 784 pixels and a label 0 through 9.
    pub fn validate(&self) -> (r: Result<(), NNError>)
        ensures
            r is Ok <==> self.image@.len() == INPUT_LEN && self.label < OUTPUT_LEN,
            r matches Err(e) ==> e == NNError::InvalidInput,
    {
        validate_pixels(&self.image)?;
        validate_label(self.label)?;
        Ok(())
    }
}

} // verus!
