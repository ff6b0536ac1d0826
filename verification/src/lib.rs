//! Verified core of a handwritten-digit classifier.
//!
//! A two-layer fully-connected network (784 inputs, 128 hidden units, 10
//! outputs) is trained online and queried for predictions.  The numeric
//! forward and backward passes run on IEEE-754 single-precision hardware
//! outside this library; everything the computation's correctness hinges on
//! besides raw float arithmetic lives here, verified:
//!
//! * the error taxonomy and the input gates (pixel count, label range),
//! * the model state: four flat tensors held as `u32` bit patterns of their
//!   single-precision values, with exact shape invariants,
//! * the engine's state discipline: shape-checked import, lossless export,
//!   no partial replacement on failure,
//! * the persisted binary format: a verified encoder and decoder for the
//!   length-prefixed little-endian layout, round-trip and uniqueness proved,
//! * the decision layer of prediction and training: deterministic
//!   first-index argmax over output probabilities.

pub mod api;
pub mod codec;
pub mod engine;
pub mod error;
pub mod inference;
pub mod repository;
pub mod state;

pub use api::PredictDigitRequest;
pub use api::PredictRequest;
pub use api::TrainDigitRequest;
pub use api::TrainRequest;
pub use engine::Engine;
pub use error::NNError;
pub use inference::Prediction;
pub use inference::TrainingStepResult;
pub use repository::FileModelRepository;
pub use state::ModelState;
pub use state::StateView;
pub use state::HIDDEN_LEN;
pub use state::INPUT_LEN;
pub use state::OUTPUT_LEN;
pub use state::W1_LEN;
pub use state::W2_LEN;
