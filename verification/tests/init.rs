// Construction: parameter validation and the statistical shape of the
// random initialization.

use nn::network::{NeuralNetwork, NnError};

#[test]
fn new_rejects_bad_parameters() {
    assert_eq!(NeuralNetwork::new(0, 3, 3, 19661).unwrap_err(), NnError::ConfigurationError);
    assert_eq!(NeuralNetwork::new(3, 0, 3, 19661).unwrap_err(), NnError::ConfigurationError);
    assert_eq!(NeuralNetwork::new(3, 3, 0, 19661).unwrap_err(), NnError::ConfigurationError);
    assert_eq!(NeuralNetwork::new(-1, 3, 3, 19661).unwrap_err(), NnError::ConfigurationError);
    assert_eq!(NeuralNetwork::new(3, 3, 3, 0).unwrap_err(), NnError::ConfigurationError);
    assert_eq!(NeuralNetwork::new(3, 3, 3, -19661).unwrap_err(), NnError::ConfigurationError);
    assert!(NeuralNetwork::new(3, 3, 3, 19661).is_ok());
}

#[test]
fn from_weights_rejects_wrong_lengths() {
    let r = NeuralNetwork::from_weights(3, 2, 3, 19661, vec![0; 5], vec![0; 6]);
    assert_eq!(r.unwrap_err(), NnError::ShapeMismatch);
    let r = NeuralNetwork::from_weights(3, 2, 3, 19661, vec![0; 6], vec![0; 7]);
    assert_eq!(r.unwrap_err(), NnError::ShapeMismatch);
    let r = NeuralNetwork::from_weights(3, 2, 3, 0, vec![0; 6], vec![0; 6]);
    assert_eq!(r.unwrap_err(), NnError::ConfigurationError);
    assert!(NeuralNetwork::from_weights(3, 2, 3, 19661, vec![0; 6], vec![0; 6]).is_ok());
}

fn sample_mean_and_sd(entries: &[i64]) -> (f64, f64) {
    let n = entries.len() as f64;
    let vals: Vec<f64> = entries.iter().map(|e| *e as f64 / 65536.0).collect();
    let mean = vals.iter().sum::<f64>() / n;
    let var = vals.iter().map(|v| (v - mean) * (v - mean)).sum::<f64>() / n;
    (mean, var.sqrt())
}

#[test]
fn initialization_sd_follows_receiving_layer_width() {
    // weight_ih is drawn with standard deviation close to
    // hidden_nodes^(-1/2): 0.5 for four hidden nodes.  The sample
    // standard deviation over many entries must converge toward it.
    let nn = NeuralNetwork::new(1500, 4, 4, 6554).unwrap();
    let (mean, sd) = sample_mean_and_sd(nn.weight_ih().entries());
    assert!(mean.abs() < 0.05, "mean too far from zero: {}", mean);
    assert!(0.45 < sd && sd < 0.55, "sd {} not near 0.5", sd);

    // Sixteen hidden nodes: 0.25.
    let nn = NeuralNetwork::new(1500, 16, 4, 6554).unwrap();
    let (mean, sd) = sample_mean_and_sd(nn.weight_ih().entries());
    assert!(mean.abs() < 0.03, "mean too far from zero: {}", mean);
    assert!(0.22 < sd && sd < 0.28, "sd {} not near 0.25", sd);

    // weight_ho follows the output layer's width: four outputs, 0.5.
    let nn = NeuralNetwork::new(4, 1500, 4, 6554).unwrap();
    let (mean, sd) = sample_mean_and_sd(nn.weight_ho().entries());
    assert!(mean.abs() < 0.05, "mean too far from zero: {}", mean);
    assert!(0.45 < sd && sd < 0.55, "sd {} not near 0.5", sd);
}

#[test]
fn constructions_differ_in_values_not_distribution() {
    // Two networks built with the same sizes almost surely differ in
    // their drawn weights even though each follows the same
    // distribution.
    let a = NeuralNetwork::new(50, 8, 4, 6554).unwrap();
    let b = NeuralNetwork::new(50, 8, 4, 6554).unwrap();
    assert_ne!(a.weight_ih().entries(), b.weight_ih().entries());
}
