//! Input gates: exactly the 784-pixel images and the labels 0 through 9
//! are admitted, and every rejection is an `InvalidInput`.

use nn_engine::inference::validate_label;
use nn_engine::inference::validate_pixels;
use nn_engine::NNError;
use nn_engine::PredictDigitRequest;
use nn_engine::PredictRequest;
use nn_engine::TrainDigitRequest;
use nn_engine::TrainRequest;

#[test]
fn pixels_of_exact_length_pass() {
    assert_eq!(validate_pixels(&vec![0u8; 784]), Ok(()));
    assert_eq!(validate_pixels(&vec![255u8; 784]), Ok(()));
}

#[test]
fn pixels_of_wrong_length_are_invalid_input() {
    assert_eq!(validate_pixels(&vec![]), Err(NNError::InvalidInput));
    assert_eq!(validate_pixels(&vec![7u8; 783]), Err(NNError::InvalidInput));
    assert_eq!(validate_pixels(&vec![7u8; 785]), Err(NNError::InvalidInput));
    assert_eq!(validate_pixels(&vec![7u8; 1568]), Err(NNError::InvalidInput));
}

#[test]
fn labels_zero_through_nine_pass() {
    for label in 0u8..10u8 {
        assert_eq!(validate_label(label), Ok(()));
    }
}

#[test]
fn labels_past_nine_are_invalid_input() {
    assert_eq!(validate_label(10), Err(NNError::InvalidInput));
    assert_eq!(validate_label(11), Err(NNError::InvalidInput));
    assert_eq!(validate_label(255), Err(NNError::InvalidInput));
}

#[test]
fn predict_requests_validate_by_pixel_count() {
    let good = PredictDigitRequest { pixels: vec![0u8; 784] };
    assert_eq!(good.validate(), Ok(()));
    let bad = PredictDigitRequest { pixels: vec![0u8; 10] };
    assert_eq!(bad.validate(), Err(NNError::InvalidInput));

    let good = PredictRequest { image: vec![0u8; 784] };
    assert_eq!(good.validate(), Ok(()));
    let bad = PredictRequest { image: vec![0u8; 785] };
    assert_eq!(bad.validate(), Err(NNError::InvalidInput));
}

#[test]
fn train_requests_validate_pixels_and_label() {
    let good = TrainDigitRequest { label: 9, pixels: vec![0u8; 784] };
    assert_eq!(good.validate(), Ok(()));
    let bad_label = TrainDigitRequest { label: 10, pixels: vec![0u8; 784] };
    assert_eq!(bad_label.validate(), Err(NNError::InvalidInput));
    let bad_pixels = TrainDigitRequest { label: 3, pixels: vec![0u8; 783] };
    assert_eq!(bad_pixels.validate(), Err(NNError::InvalidInput));

    let good = TrainRequest { label: 0, image: vec![0u8; 784] };
    assert_eq!(good.validate(), Ok(()));
    let bad = TrainRequest { label: 12, image: vec![0u8; 784] };
    assert_eq!(bad.validate(), Err(NNError::InvalidInput));
}

#[test]
fn error_messages_name_their_kind() {
    assert_eq!(NNError::InvalidInput.message(), "Invalid input data");
    assert_eq!(NNError::SerializationError.message(), "Serialization error");
    assert_eq!(NNError::PersistenceError.message(), "Persistence error");
    assert_eq!(NNError::InternalError.message(), "Internal error");
}
