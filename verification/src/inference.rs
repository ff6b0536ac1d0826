//! The decision layer of prediction and training.
//!
//! The forward pass hands back ten class probabilities; this module owns
//! everything that is decided about them: validation of the inputs before
//! any arithmetic runs, and the deterministic first-index argmax that turns
//! the output distribution into a digit.
//!
//! Probabilities arrive as `u32` bit patterns of their single-precision
//! values.  Softmax outputs are non-negative, and on non-negative IEEE-754
//! values the unsigned order of the bit patterns coincides with the numeric
//! order, so comparing patterns compares probabilities.

use vstd::prelude::*;

use crate::error::NNError;
use crate::state::INPUT_LEN;
use crate::state::OUTPUT_LEN;

verus! {

/// The outcome of one prediction: the chosen digit and the probability the
/// network assigned to it (as the bit pattern of the single-precision
/// value).
#[derive(Clone, Copy, Debug, PartialEq, Eq, Structural)]
pub struct Prediction {
    /// The predicted class, 0 through 9.
    pub digit: u8,
    /// Bit pattern of the probability assigned to `digit`.
    pub confidence_bits: u32,
}

/// The outcome of one training step: the loss at that step and whether the
/// network's prediction already matched the label.
#[derive(Clone, Copy, Debug, PartialEq, Eq, Structural)]
pub struct TrainingStepResult {
    /// Bit pattern of the single-precision cross-entropy loss.
    pub loss_bits: u32,
    /// Whether the pre-update forward pass already predicted the label.
    pub correct: bool,
}

/// Gate for every operation that takes an image: accepts exactly the
/// vectors of 784 pixel intensities.
pub fn validate_pixels(pixels: &Vec<u8>) -> (r: Result<(), NNError>)
    ensures
        r is Ok <==> pixels@.len() == INPUT_LEN,
        r matches Err(e) ==> e == NNError::InvalidInput,
{
    if pixels.len() == INPUT_LEN {
        Ok(())
    } else {
        Err(NNError::InvalidInput)
    }
}

/// Gate for training: accepts exactly the labels 0 through 9.
pub fn validate_label(label: u8) -> (r: Result<(), NNError>)
    ensures
        r is Ok <==> label < OUTPUT_LEN,
        r matches Err(e) ==> e == NNError::InvalidInput,
{
    if (label as usize) < OUTPUT_LEN {
        Ok(())
    } else {
        Err(NNError::InvalidInput)
    }
}

/// Bit pattern of single-precision one.
pub const ONE_BITS: u32 = 0x3F80_0000;

/// Bit pattern of single-precision (positive) zero.
pub const ZERO_BITS: u32 = 0;

/// The training target for a label: one at the label's class, zero
/// everywhere else.
pub fn one_hot(label: u8) -> (t: Vec<u32>)
    requires
        label < OUTPUT_LEN,
    ensures
        t@.len() == OUTPUT_LEN,
        t@[label as int] == ONE_BITS,
        forall|j: int| 0 <= j < OUTPUT_LEN && j != label ==> t@[j] == ZERO_BITS,
{
    let mut t: Vec<u32> = Vec::new();
    let mut k: usize = 0;
    while k < OUTPUT_LEN
        invariant
            k <= OUTPUT_LEN,
            t@.len() == k,
            label < OUTPUT_LEN,
            forall|j: int| 0 <= j < k && j == label ==> t@[j] == ONE_BITS,
            forall|j: int| 0 <= j < k && j != label ==> t@[j] == ZERO_BITS,
        decreases OUTPUT_LEN - k,
    {
        if k == label as usize {
            t.push(ONE_BITS);
        } else {
            t.push(ZERO_BITS);
        }
        k = k + 1;
    }
    t
}

/// Position `i` holds the maximum of `s`, and is the first position to do
/// so in a left-to-right scan.
pub open spec fn is_first_max_index(s: Seq<u32>, i: int) -> bool {
    &&& 0 <= i < s.len()
    &&& forall|j: int| 0 <= j < s.len() ==> s[j] <= s[i]
    &&& forall|j: int| 0 <= j < i ==> s[j] < s[i]
}

/// The argmax tie-break is deterministic: at most one position is the
/// first maximum.
pub proof fn lemma_first_max_index_unique(s: Seq<u32>, i: int, j: int)
    requires
        is_first_max_index(s, i),
        is_first_max_index(s, j),
    ensures
        i == j,
{
    if i < j {
        assert(s[i] < s[j]);
    }
    if j < i {
        assert(s[j] < s[i]);
    }
}

/// First index of the maximum value: a stable left-to-right scan.
pub fn argmax(scores: &Vec<u32>) -> (best: usize)
    requires
        scores@.len() > 0,
    ensures
        is_first_max_index(scores@, best as int),
{
    let mut best: usize = 0;
    let mut k: usize = 1;
    while k < scores.len()
        invariant
            0 <= best < k <= scores@.len(),
            forall|j: int| 0 <= j < k ==> scores@[j] <= scores@[best as int],
            forall|j: int| 0 <= j < best ==> scores@[j] < scores@[best as int],
        decreases scores@.len() - k,
    {
        if scores[k] > scores[best] {
            best = k;
        }
        k = k + 1;
    }
    best
}

/// Turns the ten output probabilities into a prediction: the digit is the
/// first index of the maximum probability, the confidence is the
/// probability at that digit.
pub fn prediction_from_output(output: &Vec<u32>) -> (p: Prediction)
    requires
        output@.len() == OUTPUT_LEN,
    ensures
        p.digit < OUTPUT_LEN,
        is_first_max_index(output@, p.digit as int),
        p.confidence_bits == output@[p.digit as int],
{
    let digit = argmax(output);
    Prediction { digit: digit as u8, confidence_bits: output[digit] }
}

/// Turns one training step's forward output into its reported outcome: the
/// loss is passed through as computed, and the step counts as correct
/// exactly when the first maximum of the output sits at the label.
pub fn training_result_from_output(label: u8, loss_bits: u32, output: &Vec<u32>) -> (t:
    TrainingStepResult)
    requires
        label < OUTPUT_LEN,
        output@.len() == OUTPUT_LEN,
    ensures
        t.loss_bits == loss_bits,
        t.correct <==> is_first_max_index(output@, label as int),
{
    let predicted = argmax(output);
    let correct = predicted == label as usize;
    proof {
        if is_first_max_index(output@, label as int) {
            lemma_first_max_index_unique(output@, predicted as int, label as int);
        }
    }
    TrainingStepResult { loss_bits, correct }
}

} // verus!
