// The engine end to end: construction, training, prediction, and the
// stated properties on concrete values.  Scalars are fixed-point with
// sixteen fractional bits: 65536 is one, 32768 is a half.

use nn::fixed::ONE;
use nn::network::{NeuralNetwork, NnError};

fn fx(x: f64) -> i64 {
    (x * 65536.0).round() as i64
}

#[test]
fn it_works() {
    let mut nn = NeuralNetwork::new(3, 3, 3, fx(0.3)).unwrap();
    let input_list = vec![fx(1.0), fx(0.5), fx(-1.5)];
    let target_list = vec![fx(0.5), fx(1.0), fx(0.5)];
    nn.train(&input_list, &target_list).unwrap();
    let output_list = nn.predict(&input_list).unwrap();
    println!("{:?}", output_list);
}

#[test]
fn shapes_after_construction() {
    let nn = NeuralNetwork::new(5, 4, 3, fx(0.2)).unwrap();
    assert_eq!(nn.input_nodes(), 5);
    assert_eq!(nn.hidden_nodes(), 4);
    assert_eq!(nn.output_nodes(), 3);
    assert_eq!(nn.weight_ih().rows(), 4);
    assert_eq!(nn.weight_ih().cols(), 5);
    assert_eq!(nn.weight_ho().rows(), 3);
    assert_eq!(nn.weight_ho().cols(), 4);
    assert_eq!(nn.weight_ih().entries().len(), 20);
    assert_eq!(nn.weight_ho().entries().len(), 12);
}

#[test]
fn shapes_after_from_weights() {
    let wih = vec![fx(0.1); 6];
    let who = vec![fx(-0.1); 6];
    let nn = NeuralNetwork::from_weights(3, 2, 3, fx(0.3), wih.clone(), who.clone()).unwrap();
    assert_eq!(nn.weight_ih().rows(), 2);
    assert_eq!(nn.weight_ih().cols(), 3);
    assert_eq!(nn.weight_ho().rows(), 3);
    assert_eq!(nn.weight_ho().cols(), 2);
    assert_eq!(nn.weight_ih().entries(), &wih);
    assert_eq!(nn.weight_ho().entries(), &who);
}

#[test]
fn predict_output_stays_in_open_unit_interval() {
    // Extreme weights and inputs saturate the pre-activations; the
    // sigmoid output must still stay strictly inside (0, ONE).
    let wih = vec![i64::MAX, i64::MIN, fx(2.0), i64::MAX, i64::MIN, fx(-2.0)];
    let who = vec![i64::MAX, i64::MIN, fx(0.5), fx(-0.5), fx(3.0), fx(-3.0)];
    let nn = NeuralNetwork::from_weights(3, 2, 3, fx(0.3), wih, who).unwrap();
    let input = vec![i64::MAX, i64::MIN, fx(0.7)];
    let out = nn.predict(&input).unwrap();
    assert_eq!(out.len(), 3);
    for v in out {
        assert!(0 < v && v < ONE);
    }
}

#[test]
fn predict_is_deterministic_between_trainings() {
    let mut nn = NeuralNetwork::new(4, 5, 3, fx(0.25)).unwrap();
    let input = vec![fx(0.3), fx(0.9), fx(0.01), fx(1.0)];
    let first = nn.predict(&input).unwrap();
    let second = nn.predict(&input).unwrap();
    assert_eq!(first, second);
    // After a training step the prediction may move; determinism must
    // hold again between the new predictions.
    let target = vec![fx(0.99), fx(0.01), fx(0.01)];
    nn.train(&input, &target).unwrap();
    let third = nn.predict(&input).unwrap();
    let fourth = nn.predict(&input).unwrap();
    assert_eq!(third, fourth);
}

fn squared_error(target: &[i64], out: &[i64]) -> i128 {
    let mut sum: i128 = 0;
    for k in 0..target.len() {
        let d = target[k] as i128 - out[k] as i128;
        sum += d * d;
    }
    sum
}

#[test]
fn training_reduces_error_on_fixed_example() {
    let wih = vec![
        fx(0.1),
        fx(-0.05),
        fx(0.15),
        fx(0.05),
        fx(0.1),
        fx(-0.1),
        fx(-0.15),
        fx(0.05),
        fx(0.1),
    ];
    let who = vec![
        fx(0.12),
        fx(-0.08),
        fx(0.1),
        fx(0.06),
        fx(-0.1),
        fx(0.14),
        fx(0.08),
        fx(0.1),
        fx(-0.06),
    ];
    let mut nn = NeuralNetwork::from_weights(3, 3, 3, fx(0.3), wih, who).unwrap();
    let input = vec![fx(1.0), fx(0.5), fx(-1.5)];
    let target = vec![fx(0.5), fx(1.0), fx(0.5)];

    nn.train(&input, &target).unwrap();
    let error_after_one = squared_error(&target, &nn.predict(&input).unwrap());
    for _ in 0..49 {
        nn.train(&input, &target).unwrap();
    }
    let error_after_fifty = squared_error(&target, &nn.predict(&input).unwrap());
    assert!(
        error_after_fifty < error_after_one,
        "error did not decrease: {} vs {}",
        error_after_fifty,
        error_after_one
    );
}

#[test]
fn predict_rejects_wrong_input_length() {
    let nn = NeuralNetwork::new(784, 16, 10, fx(0.1)).unwrap();
    let short = vec![fx(0.5); 729];
    assert_eq!(nn.predict(&short), Err(NnError::ShapeMismatch));
    let long = vec![fx(0.5); 785];
    assert_eq!(nn.predict(&long), Err(NnError::ShapeMismatch));
    assert!(nn.predict(&vec![fx(0.5); 784]).is_ok());
}

#[test]
fn train_rejects_wrong_shapes_and_leaves_weights_untouched() {
    let mut nn = NeuralNetwork::new(4, 3, 2, fx(0.2)).unwrap();
    let wih_before = nn.weight_ih().entries().clone();
    let who_before = nn.weight_ho().entries().clone();

    let bad_input = vec![fx(0.5); 3];
    let target = vec![fx(0.99), fx(0.01)];
    assert_eq!(nn.train(&bad_input, &target), Err(NnError::ShapeMismatch));

    let input = vec![fx(0.5); 4];
    let bad_target = vec![fx(0.99); 3];
    assert_eq!(nn.train(&input, &bad_target), Err(NnError::ShapeMismatch));

    assert_eq!(nn.weight_ih().entries(), &wih_before);
    assert_eq!(nn.weight_ho().entries(), &who_before);
}

#[test]
fn forward_returns_both_layers() {
    let nn = NeuralNetwork::new(3, 5, 2, fx(0.3)).unwrap();
    let input = vec![fx(0.2), fx(0.4), fx(0.8)];
    let (hidden, output) = nn.forward(&input).unwrap();
    assert_eq!(hidden.len(), 5);
    assert_eq!(output.len(), 2);
    for v in hidden {
        assert!(0 < v && v < ONE);
    }
    // Prediction is the output layer of the same forward pass.
    assert_eq!(output, nn.predict(&input).unwrap());
    assert_eq!(nn.forward(&vec![fx(0.2); 2]), Err(NnError::ShapeMismatch));
}
