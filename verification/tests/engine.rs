//! End-to-end tests of the inference engine, run with the real float
//! arithmetic: scalars cross the boundary as `f32` bit patterns, and the
//! driver below supplies the `exp` / `tanh` values the layers request.

use nn_infer::infer::argmax;
use nn_infer::layer::{Layer, Request};
use nn_infer::network::{NeuralNetwork, NeuralNetworkData};
use nn_infer::serial::LayerData;
use nn_infer::NetError;

fn to_bits(v: &[f32]) -> Vec<u32> {
    v.iter().map(|x| x.to_bits()).collect()
}

fn from_bits(v: &[u32]) -> Vec<f32> {
    v.iter().map(|b| f32::from_bits(*b)).collect()
}

/// The host side of the forward pass: answer each layer's request with the
/// real `exp` / `tanh`, then take the layer's step.
fn run_forward(net: &NeuralNetwork, input: &[f32]) -> Result<Vec<f32>, NetError> {
    let mut v = to_bits(input);
    for i in 0..net.num_layers() {
        let host: Option<Vec<u32>> = match net.forward_request(i, &v) {
            None => None,
            Some(Request::Exp(xs)) => {
                Some(xs.iter().map(|b| f32::from_bits(*b).exp().to_bits()).collect())
            }
            Some(Request::Tanh(xs)) => {
                Some(xs.iter().map(|b| f32::from_bits(*b).tanh().to_bits()).collect())
            }
        };
        v = net.forward_step(i, &v, host.as_ref())?;
    }
    Ok(from_bits(&v))
}

fn dense(rows: &[&[f32]], biases: &[f32]) -> Layer {
    Layer::DenseLayer {
        weights: rows.iter().map(|r| to_bits(r)).collect(),
        biases: to_bits(biases),
        num_inputs: if rows.is_empty() { 0 } else { rows[0].len() },
        num_outputs: rows.len(),
    }
}

fn identity_softmax_net() -> NeuralNetwork {
    let data = NeuralNetworkData {
        layers: vec![
            LayerData::DenseLayer {
                weights: to_bits(&[1.0, 0.0, 0.0, 1.0]),
                biases: to_bits(&[0.0, 0.0]),
                num_inputs: 2,
                num_outputs: 2,
            },
            LayerData::Softmax,
        ],
        accuracy: 0.9f32.to_bits(),
    };
    NeuralNetwork::from_data(&data).unwrap()
}

#[test]
fn dense_output_length_is_num_outputs() {
    let net = NeuralNetwork {
        layers: vec![dense(&[&[0.5, -1.0], &[2.0, 3.0], &[0.0, 0.0]], &[0.1, 0.2, 0.3])],
        accuracy: 0,
    };
    let a = run_forward(&net, &[1.0, 2.0]).unwrap();
    let b = run_forward(&net, &[-7.5, 0.003]).unwrap();
    assert_eq!(a.len(), 3);
    assert_eq!(b.len(), 3);
}

#[test]
fn dense_affine_arithmetic_is_exact() {
    let net = NeuralNetwork {
        layers: vec![dense(&[&[2.5]], &[0.25])],
        accuracy: 0,
    };
    let out = run_forward(&net, &[3.0]).unwrap();
    assert_eq!(out, vec![2.5f32 * 3.0 + 0.25]);

    let net2 = NeuralNetwork {
        layers: vec![dense(&[&[0.1, 0.2, 0.3]], &[-0.4])],
        accuracy: 0,
    };
    let out2 = run_forward(&net2, &[10.0, 20.0, 30.0]).unwrap();
    let expected = ((0.0f32 + 0.1f32 * 10.0) + 0.2f32 * 20.0) + 0.3f32 * 30.0 + -0.4f32;
    assert_eq!(out2[0].to_bits(), expected.to_bits());
}

#[test]
fn dense_rejects_input_of_wrong_length() {
    let net = NeuralNetwork {
        layers: vec![dense(&[&[1.0, 2.0]], &[0.0])],
        accuracy: 0,
    };
    assert_eq!(run_forward(&net, &[1.0, 2.0, 3.0]), Err(NetError::ShapeMismatch));
    assert_eq!(run_forward(&net, &[]), Err(NetError::ShapeMismatch));
}

#[test]
fn softmax_outputs_lie_in_unit_interval_and_sum_to_one() {
    let net = NeuralNetwork { layers: vec![Layer::Softmax], accuracy: 0 };
    let out = run_forward(&net, &[0.3, -1.2, 2.5, 0.0]).unwrap();
    let mut sum = 0.0f32;
    for x in &out {
        assert!(*x >= 0.0 && *x <= 1.0);
        sum += *x;
    }
    assert!((sum - 1.0).abs() < 1e-5);
}

#[test]
fn layer_round_trip_is_bit_exact() {
    let l = dense(
        &[&[0.1, -2.5e-3, 1.0e30], &[-0.0, f32::MIN_POSITIVE, 123456.75]],
        &[1.5e-20, -7.25],
    );
    let back = l.to_data().to_layer().unwrap();
    match (l, back) {
        (
            Layer::DenseLayer { weights: w1, biases: b1, num_inputs: i1, num_outputs: o1 },
            Layer::DenseLayer { weights: w2, biases: b2, num_inputs: i2, num_outputs: o2 },
        ) => {
            assert_eq!(w1, w2);
            assert_eq!(b1, b2);
            assert_eq!(i1, i2);
            assert_eq!(o1, o2);
        }
        _ => panic!("round trip changed the variant"),
    }
    assert!(matches!(LayerData::Sigmoid.to_layer(), Ok(Layer::Sigmoid)));
    assert!(matches!(LayerData::Tanh.to_layer(), Ok(Layer::Tanh)));
    assert!(matches!(LayerData::Softmax.to_layer(), Ok(Layer::Softmax)));
}

#[test]
fn network_round_trip_is_bit_exact() {
    let net = NeuralNetwork {
        layers: vec![dense(&[&[1.0, -1.0]], &[0.5]), Layer::Sigmoid],
        accuracy: 0.875f32.to_bits(),
    };
    let back = NeuralNetwork::from_data(&net.to_data()).unwrap();
    assert_eq!(back.accuracy, net.accuracy);
    assert_eq!(back.layers.len(), 2);
    let out_a = run_forward(&net, &[0.25, 0.75]).unwrap();
    let out_b = run_forward(&back, &[0.25, 0.75]).unwrap();
    assert_eq!(to_bits(&out_a), to_bits(&out_b));
}

#[test]
fn dense_record_with_wrong_weight_count_is_rejected() {
    let record = LayerData::DenseLayer {
        weights: to_bits(&[1.0, 2.0, 3.0]),
        biases: to_bits(&[0.0, 0.0]),
        num_inputs: 2,
        num_outputs: 2,
    };
    assert_eq!(record.to_layer().err(), Some(NetError::ShapeMismatch));
}

#[test]
fn dense_record_with_wrong_bias_count_is_rejected() {
    let record = LayerData::DenseLayer {
        weights: to_bits(&[1.0, 2.0, 3.0, 4.0]),
        biases: to_bits(&[0.0]),
        num_inputs: 2,
        num_outputs: 2,
    };
    assert_eq!(record.to_layer().err(), Some(NetError::ShapeMismatch));
}

#[test]
fn bad_record_aborts_the_network_load() {
    let data = NeuralNetworkData {
        layers: vec![
            LayerData::Sigmoid,
            LayerData::DenseLayer {
                weights: to_bits(&[1.0]),
                biases: to_bits(&[0.0]),
                num_inputs: 2,
                num_outputs: 1,
            },
        ],
        accuracy: 0,
    };
    assert!(NeuralNetwork::from_data(&data).is_err());
}

#[test]
fn identity_then_softmax_on_equal_inputs() {
    let net = identity_softmax_net();
    let out = run_forward(&net, &[1.0, 1.0]).unwrap();
    assert_eq!(out, vec![0.5, 0.5]);
}

#[test]
fn identity_then_softmax_on_distinct_inputs() {
    let net = identity_softmax_net();
    let out = run_forward(&net, &[2.0, 0.0]).unwrap();
    let e2 = 2.0f32.exp();
    let sum = e2 + 1.0f32;
    assert_eq!(out[0].to_bits(), (e2 / sum).to_bits());
    assert_eq!(out[1].to_bits(), (1.0f32 / sum).to_bits());
    assert!((out[0] - 0.8808).abs() < 1e-3);
    assert!((out[1] - 0.1192).abs() < 1e-3);
}

#[test]
fn argmax_on_softmax_output_returns_zero() {
    let net = identity_softmax_net();
    let out = run_forward(&net, &[2.0, 0.0]).unwrap();
    assert_eq!(argmax(&to_bits(&out)), Some(0));
}

#[test]
fn argmax_ties_keep_the_first_index_and_nan_never_wins() {
    assert_eq!(argmax(&to_bits(&[1.0, 1.0])), Some(0));
    assert_eq!(argmax(&to_bits(&[3.0, 5.0, 5.0, 4.0])), Some(1));
    assert_eq!(argmax(&to_bits(&[f32::NAN, 5.0])), Some(0));
    assert_eq!(argmax(&to_bits(&[3.0, f32::NAN, 5.0])), Some(2));
    assert_eq!(argmax(&to_bits(&[-0.0, 0.0])), Some(0));
    assert_eq!(argmax(&to_bits(&[f32::NEG_INFINITY, -1.0e30])), Some(1));
    assert_eq!(argmax(&Vec::new()), None);
}

#[test]
fn sigmoid_at_zero_is_exactly_half_and_saturates_without_nan() {
    let net = NeuralNetwork { layers: vec![Layer::Sigmoid], accuracy: 0 };
    let out = run_forward(&net, &[0.0]).unwrap();
    assert_eq!(out, vec![0.5]);

    let big = run_forward(&net, &[100.0]).unwrap();
    assert!(!big[0].is_nan());
    assert!(big[0] <= 1.0 && big[0] > 0.9999);

    let low = run_forward(&net, &[-100.0]).unwrap();
    assert!(!low[0].is_nan());
    assert!(low[0] >= 0.0 && low[0] < 1e-4);
}

#[test]
fn tanh_layer_applies_the_host_values() {
    let net = NeuralNetwork { layers: vec![Layer::Tanh], accuracy: 0 };
    let out = run_forward(&net, &[0.5, -0.5, 0.0]).unwrap();
    assert_eq!(
        to_bits(&out),
        to_bits(&[0.5f32.tanh(), (-0.5f32).tanh(), 0.0f32.tanh()])
    );
}

#[test]
fn missing_or_misshapen_host_values_are_rejected() {
    let l = Layer::Softmax;
    let input = to_bits(&[1.0, 2.0]);
    assert_eq!(l.forward(&input, None), Err(NetError::ShapeMismatch));
    let short = to_bits(&[1.0]);
    assert_eq!(l.forward(&input, Some(&short)), Err(NetError::ShapeMismatch));
}

#[test]
fn shape_check_accepts_chained_layers_and_rejects_mismatches() {
    let net = NeuralNetwork {
        layers: vec![
            dense(&[&[1.0, 0.0], &[0.0, 1.0], &[1.0, 1.0]], &[0.0, 0.0, 0.0]),
            Layer::Sigmoid,
            dense(&[&[1.0, 2.0, 3.0]], &[0.5]),
            Layer::Softmax,
        ],
        accuracy: 0,
    };
    assert!(net.check_shapes(2));
    assert!(!net.check_shapes(3));

    let broken = NeuralNetwork {
        layers: vec![
            dense(&[&[1.0, 0.0]], &[0.0]),
            dense(&[&[1.0, 2.0, 3.0]], &[0.5]),
        ],
        accuracy: 0,
    };
    assert!(!broken.check_shapes(2));
    assert_eq!(run_forward(&broken, &[1.0, 2.0]), Err(NetError::ShapeMismatch));
}

#[test]
fn softmax_of_all_negative_infinities_propagates_nan() {
    let net = NeuralNetwork { layers: vec![Layer::Softmax], accuracy: 0 };
    let out = run_forward(&net, &[f32::NEG_INFINITY, f32::NEG_INFINITY]).unwrap();
    assert!(out[0].is_nan());
    assert!(out[1].is_nan());
}
