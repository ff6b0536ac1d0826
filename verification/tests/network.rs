//! End-to-end behaviour of the classifier: the library's gates, state
//! discipline and decision layer, composed with the single-precision
//! forward and backward pass written out in plain form here (normalize by
//! 255, ReLU hidden layer, max-shifted softmax, cross-entropy with a 1e-7
//! floor, gradient descent at rate 0.01).

use std::sync::Arc;

use nn_engine::inference::prediction_from_output;
use nn_engine::inference::training_result_from_output;
use nn_engine::inference::validate_label;
use nn_engine::inference::validate_pixels;
use nn_engine::Engine;
use nn_engine::ModelState;
use nn_engine::NNError;
use nn_engine::Prediction;
use nn_engine::TrainingStepResult;
use nn_engine::HIDDEN_LEN;
use nn_engine::INPUT_LEN;
use nn_engine::OUTPUT_LEN;

const LR: f32 = 0.01;

fn to_floats(bits: &[u32]) -> Vec<f32> {
    bits.iter().map(|b| f32::from_bits(*b)).collect()
}

fn to_bits(vals: &[f32]) -> Vec<u32> {
    vals.iter().map(|v| v.to_bits()).collect()
}

/// Deterministic pseudo-normal samples: a linear congruential generator
/// fed through Box-Muller.
struct Rng(u64);

impl Rng {
    fn next_unit(&mut self) -> f32 {
        self.0 = self.0.wrapping_mul(6364136223846793005).wrapping_add(1442695040888963407);
        let hi = (self.0 >> 40) as u32;
        (hi as f32 + 0.5) / (1u32 << 24) as f32
    }

    fn next_normal(&mut self) -> f32 {
        let u1 = self.next_unit();
        let u2 = self.next_unit();
        (-2.0 * u1.ln()).sqrt() * (2.0 * std::f32::consts::PI * u2).cos()
    }
}

/// He-scaled normal weights, zero biases.
fn he_initialized_engine(seed: u64) -> Engine {
    let mut rng = Rng(seed);
    let he1 = (2.0f32 / INPUT_LEN as f32).sqrt();
    let he2 = (2.0f32 / HIDDEN_LEN as f32).sqrt();
    let w1: Vec<f32> = (0..HIDDEN_LEN * INPUT_LEN).map(|_| rng.next_normal() * he1).collect();
    let w2: Vec<f32> = (0..OUTPUT_LEN * HIDDEN_LEN).map(|_| rng.next_normal() * he2).collect();
    let state = ModelState {
        w1: to_bits(&w1),
        b1: vec![0.0f32.to_bits(); HIDDEN_LEN],
        w2: to_bits(&w2),
        b2: vec![0.0f32.to_bits(); OUTPUT_LEN],
    };
    Engine::from_state(state).unwrap()
}

fn all_zero_engine() -> Engine {
    let state = ModelState {
        w1: vec![0u32; HIDDEN_LEN * INPUT_LEN],
        b1: vec![0u32; HIDDEN_LEN],
        w2: vec![0u32; OUTPUT_LEN * HIDDEN_LEN],
        b2: vec![0u32; OUTPUT_LEN],
    };
    Engine::from_state(state).unwrap()
}

/// The forward pass: normalize, hidden layer with ReLU, output layer with
/// max-shifted softmax.  Returns the hidden pre-activation, the hidden
/// activation and the output distribution.
fn forward(engine: &Engine, pixels: &[u8]) -> (Vec<f32>, Vec<f32>, Vec<f32>) {
    let w1 = to_floats(engine.w1_bits());
    let b1 = to_floats(engine.b1_bits());
    let w2 = to_floats(engine.w2_bits());
    let b2 = to_floats(engine.b2_bits());

    let x: Vec<f32> = pixels.iter().map(|p| *p as f32 / 255.0).collect();

    let mut z1 = vec![0.0f32; HIDDEN_LEN];
    for j in 0..HIDDEN_LEN {
        let mut acc = b1[j];
        let row = &w1[j * INPUT_LEN..(j + 1) * INPUT_LEN];
        for i in 0..INPUT_LEN {
            acc += row[i] * x[i];
        }
        z1[j] = acc;
    }
    let a1: Vec<f32> = z1.iter().map(|v| v.max(0.0)).collect();

    let mut z2 = vec![0.0f32; OUTPUT_LEN];
    for k in 0..OUTPUT_LEN {
        let mut acc = b2[k];
        let row = &w2[k * HIDDEN_LEN..(k + 1) * HIDDEN_LEN];
        for j in 0..HIDDEN_LEN {
            acc += row[j] * a1[j];
        }
        z2[k] = acc;
    }

    let max = z2.iter().cloned().fold(f32::NEG_INFINITY, f32::max);
    let exp: Vec<f32> = z2.iter().map(|v| (v - max).exp()).collect();
    let sum: f32 = exp.iter().sum();
    let output: Vec<f32> = exp.iter().map(|e| e / sum).collect();

    (z1, a1, output)
}

fn predict(engine: &Engine, pixels: &[u8]) -> Result<Prediction, NNError> {
    let pixels = pixels.to_vec();
    validate_pixels(&pixels)?;
    let (_, _, output) = forward(engine, &pixels);
    Ok(prediction_from_output(&to_bits(&output)))
}

/// One training step: forward pass, combined softmax and cross-entropy
/// gradient, gradient descent, and one atomic state replacement.
fn train(engine: &mut Engine, label: u8, pixels: &[u8]) -> Result<TrainingStepResult, NNError> {
    let pixels = pixels.to_vec();
    validate_pixels(&pixels)?;
    validate_label(label)?;

    let (z1, a1, output) = forward(engine, &pixels);
    let x: Vec<f32> = pixels.iter().map(|p| *p as f32 / 255.0).collect();

    let mut w1 = to_floats(engine.w1_bits());
    let mut b1 = to_floats(engine.b1_bits());
    let w2_old = to_floats(engine.w2_bits());
    let mut w2 = w2_old.clone();
    let mut b2 = to_floats(engine.b2_bits());

    let target: Vec<f32> = to_floats(&nn_engine::inference::one_hot(label));

    let dz2: Vec<f32> = (0..OUTPUT_LEN).map(|k| output[k] - target[k]).collect();
    for k in 0..OUTPUT_LEN {
        for j in 0..HIDDEN_LEN {
            w2[k * HIDDEN_LEN + j] -= LR * dz2[k] * a1[j];
        }
        b2[k] -= LR * dz2[k];
    }

    let mut dz1 = vec![0.0f32; HIDDEN_LEN];
    for j in 0..HIDDEN_LEN {
        let mut da = 0.0f32;
        for k in 0..OUTPUT_LEN {
            da += w2_old[k * HIDDEN_LEN + j] * dz2[k];
        }
        dz1[j] = if z1[j] > 0.0 { da } else { 0.0 };
    }
    for j in 0..HIDDEN_LEN {
        let row = &mut w1[j * INPUT_LEN..(j + 1) * INPUT_LEN];
        for i in 0..INPUT_LEN {
            row[i] -= LR * dz1[j] * x[i];
        }
        b1[j] -= LR * dz1[j];
    }

    let new_state = ModelState {
        w1: to_bits(&w1),
        b1: to_bits(&b1),
        w2: to_bits(&w2),
        b2: to_bits(&b2),
    };
    engine.import_state(new_state).unwrap();

    let loss = -output[label as usize].max(1e-7).ln();
    Ok(training_result_from_output(label, loss.to_bits(), &to_bits(&output)))
}

fn sample_pixels() -> Vec<u8> {
    vec![255u8; 784]
}

#[test]
fn test_train() {
    let mut engine = he_initialized_engine(1);
    let pixels = vec![255u8; 784];
    let _ = train(&mut engine, 9, &pixels).unwrap();
}

#[test]
fn test_predict_runs() {
    let engine = he_initialized_engine(2);
    let pixels = vec![0u8; 784];

    let result = predict(&engine, &pixels).unwrap();

    assert!(result.digit <= 9);
    assert!(f32::from_bits(result.confidence_bits) >= 0.0);
}

#[test]
fn softmax_probabilities_form_a_distribution() {
    let engine = he_initialized_engine(3);
    let inputs = [
        vec![0u8; 784],
        vec![255u8; 784],
        (0..784u32).map(|i| (i * 7 % 256) as u8).collect::<Vec<u8>>(),
    ];
    for pixels in inputs {
        let (_, _, output) = forward(&engine, &pixels);
        let sum: f32 = output.iter().sum();
        assert!((sum - 1.0).abs() < 1e-4);

        let p = predict(&engine, &pixels).unwrap();
        assert!(p.digit <= 9);
        let confidence = f32::from_bits(p.confidence_bits);
        assert!((0.0..=1.0).contains(&confidence));
    }
}

#[test]
fn all_zero_pixels_predict_without_failure() {
    let engine = he_initialized_engine(4);
    let p = predict(&engine, &vec![0u8; 784]).unwrap();
    assert!(p.digit <= 9);
    let confidence = f32::from_bits(p.confidence_bits);
    assert!((0.0..=1.0).contains(&confidence));

    // At the origin of an all-zero network the distribution is uniform and
    // the stable tie-break lands on the first class.
    let p = predict(&all_zero_engine(), &vec![0u8; 784]).unwrap();
    assert_eq!(p.digit, 0);
    assert!((f32::from_bits(p.confidence_bits) - 0.1).abs() < 1e-6);
}

#[test]
fn wrong_pixel_counts_fail_prediction_and_training() {
    let mut engine = he_initialized_engine(5);
    for len in [0usize, 100, 783, 785] {
        let pixels = vec![0u8; len];
        assert_eq!(predict(&engine, &pixels).unwrap_err(), NNError::InvalidInput);
        assert_eq!(train(&mut engine, 3, &pixels).unwrap_err(), NNError::InvalidInput);
    }
    assert_eq!(train(&mut engine, 10, &sample_pixels()).unwrap_err(), NNError::InvalidInput);
}

#[test]
fn test_weights_change_after_training() {
    let mut engine = he_initialized_engine(6);
    let pixels = sample_pixels();

    let before = engine.export_state().unwrap();

    let _ = train(&mut engine, 3, &pixels);

    let after = engine.export_state().unwrap();

    assert_ne!(before.w1, after.w1);
    assert_ne!(before.w2, after.w2);
}

#[test]
fn test_loss_decreases_on_same_sample() {
    let mut engine = he_initialized_engine(7);
    let pixels = sample_pixels();

    let loss1 = f32::from_bits(train(&mut engine, 5, &pixels).unwrap().loss_bits);
    let loss2 = f32::from_bits(train(&mut engine, 5, &pixels).unwrap().loss_bits);
    let loss3 = f32::from_bits(train(&mut engine, 5, &pixels).unwrap().loss_bits);

    assert!(loss3 <= loss1 || loss3 <= loss2);
}

#[test]
fn test_model_can_overfit_single_sample() {
    let mut engine = he_initialized_engine(8);
    let pixels = sample_pixels();

    for _ in 0..200 {
        train(&mut engine, 7, &pixels).unwrap();
    }

    let prediction = predict(&engine, &pixels).unwrap();

    assert_eq!(prediction.digit, 7);
    assert!(f32::from_bits(prediction.confidence_bits) > 0.8);
}

#[test]
fn test_export_import_consistency() {
    let mut engine = he_initialized_engine(9);
    let pixels = sample_pixels();

    let _ = train(&mut engine, 2, &pixels);

    let state = engine.export_state().unwrap();

    let mut new_engine = he_initialized_engine(10);
    new_engine.import_state(state).unwrap();

    let p1 = predict(&engine, &pixels).unwrap();
    let p2 = predict(&new_engine, &pixels).unwrap();

    assert_eq!(p1.digit, p2.digit);
    assert_eq!(p1.confidence_bits, p2.confidence_bits);
}

#[test]
fn ten_concurrent_predicts_return_digits() {
    let engine = Arc::new(he_initialized_engine(11));
    let pixels = sample_pixels();

    let runtime = tokio::runtime::Runtime::new().unwrap();
    runtime.block_on(async {
        let mut handles = Vec::new();
        for _ in 0..10 {
            let engine = engine.clone();
            let pixels = pixels.clone();
            handles.push(tokio::spawn(async move { predict(&engine, &pixels).unwrap() }));
        }
        for handle in handles {
            let prediction = handle.await.unwrap();
            assert!(prediction.digit <= 9);
        }
    });
}
