//! The layer primitives and the forward/backward protocol of each layer.

use nufish_core::Error;
use nufish_core::layers::active::{Relu, Sigmoid};
use nufish_core::layers::common::{cross_entropy_error, relu, relu_mask, sigmoid, softmax};
use nufish_core::layers::last_layer::SoftmaxWithLoss;
use nufish_core::layers::layer::{Affine, Dropout};
use nufish_core::layers::util::{randn1, randn2, zeros};
use nufish_core::tensor::Tensor;

fn t(rows: usize, cols: usize, vals: &[f64]) -> Tensor {
    let bits: Vec<u64> = vals.iter().map(|v| v.to_bits()).collect();
    Tensor::from_vec(rows, cols, bits).unwrap()
}

fn g(t: &Tensor, i: usize, j: usize) -> f64 {
    f64::from_bits(t.get(i, j))
}

#[test]
fn test_cross_entropy_error() {
    let t_reshape = t(1, 10, &[0., 0., 1., 0., 0., 0., 0., 0., 0., 0.]);
    let y_reshape = t(1, 10, &[0.1, 0.05, 0.6, 0., 0.05, 0.1, 0., 0.1, 0., 0.]);
    let error = f64::from_bits(cross_entropy_error(&y_reshape, &t_reshape));
    assert!(error > 0.5 && error < 0.52)
}

#[test]
fn scalar_relu_and_its_mask() {
    assert_eq!(f64::from_bits(relu(3.5f64.to_bits())), 3.5);
    assert_eq!(f64::from_bits(relu((-2.0f64).to_bits())), 0.0);
    assert_eq!(f64::from_bits(relu(0.0f64.to_bits())), 0.0);
    assert_eq!(f64::from_bits(relu(f64::NAN.to_bits())), 0.0);
    assert!(relu_mask((-0.5f64).to_bits()));
    assert!(relu_mask(0.0f64.to_bits()));
    assert!(relu_mask((-0.0f64).to_bits()));
    assert!(!relu_mask(0.5f64.to_bits()));
    assert!(!relu_mask(f64::NAN.to_bits()));
}

#[test]
fn scalar_sigmoid_matches_the_closed_form() {
    assert_eq!(f64::from_bits(sigmoid(0.0f64.to_bits())), 0.5);
    let x = 1.3f64;
    let expected = 1.0 / (1.0 + (-x).exp());
    assert_eq!(f64::from_bits(sigmoid(x.to_bits())), expected);
}

#[test]
fn softmax_rows_sum_to_one() {
    let x = t(2, 3, &[1.0, 2.0, 3.0, -4.0, 0.0, 100.0]);
    let y = softmax(&x);
    for i in 0..2 {
        let sum: f64 = (0..3).map(|j| g(&y, i, j)).sum();
        assert!((sum - 1.0).abs() < 1e-12);
    }
}

#[test]
fn softmax_is_shift_invariant() {
    let x = t(1, 3, &[0.3, 1.1, -0.7]);
    let c = 41.25;
    let xs = t(1, 3, &[0.3 + c, 1.1 + c, -0.7 + c]);
    let y = softmax(&x);
    let ys = softmax(&xs);
    for j in 0..3 {
        assert!((g(&y, 0, j) - g(&ys, 0, j)).abs() < 1e-12);
    }
}

#[test]
fn relu_layer_gradient_is_masked_by_the_input_sign() {
    let mut layer = Relu::default();
    let x = t(2, 2, &[1.0, -1.0, 0.0, 2.5]);
    let y = layer.forward(&x, true).unwrap();
    assert_eq!(g(&y, 0, 0), 1.0);
    assert_eq!(g(&y, 0, 1), 0.0);
    assert_eq!(g(&y, 1, 0), 0.0);
    assert_eq!(g(&y, 1, 1), 2.5);
    let dout = t(2, 2, &[10.0, 20.0, 30.0, 40.0]);
    let dx = layer.backward(&dout).unwrap();
    assert_eq!(g(&dx, 0, 0), 10.0);
    assert_eq!(g(&dx, 0, 1), 0.0);
    assert_eq!(g(&dx, 1, 0), 0.0);
    assert_eq!(g(&dx, 1, 1), 40.0);
}

#[test]
fn relu_backward_before_forward_is_an_error() {
    let mut layer = Relu::default();
    let dout = t(1, 1, &[1.0]);
    assert!(matches!(layer.backward(&dout), Err(Error::BackwardBeforeForward)));
}

#[test]
fn sigmoid_layer_gradient_uses_the_cached_output() {
    let mut layer = Sigmoid::default();
    let x = t(1, 2, &[0.0, 0.0]);
    let y = layer.forward(&x, true).unwrap();
    assert_eq!(g(&y, 0, 0), 0.5);
    let dout = t(1, 2, &[1.0, 8.0]);
    let dx = layer.backward(&dout).unwrap();
    assert_eq!(g(&dx, 0, 0), 0.25);
    assert_eq!(g(&dx, 0, 1), 2.0);
}

#[test]
fn sigmoid_backward_before_forward_is_an_error() {
    let mut layer = Sigmoid::default();
    let dout = t(1, 1, &[1.0]);
    assert!(matches!(layer.backward(&dout), Err(Error::BackwardBeforeForward)));
}

#[test]
fn dropout_eval_mode_scales_by_one_minus_ratio() {
    for ratio in [0.0f64, 0.25, 0.5, 0.99, 1.0] {
        let mut layer = Dropout::new(ratio.to_bits());
        let x = t(1, 3, &[2.0, -4.0, 0.5]);
        let y = layer.forward(&x, false).unwrap();
        for j in 0..3 {
            assert_eq!(g(&y, 0, j), g(&x, 0, j) * (1.0 - ratio));
        }
    }
}

#[test]
fn dropout_training_with_ratio_zero_keeps_everything() {
    let mut layer = Dropout::new(0.0f64.to_bits());
    let x = t(2, 3, &[1.0, 2.0, 3.0, 4.0, 5.0, 6.0]);
    let y = layer.forward(&x, true).unwrap();
    for i in 0..2 {
        for j in 0..3 {
            assert_eq!(g(&y, i, j), g(&x, i, j));
        }
    }
}

#[test]
fn dropout_training_with_ratio_one_drops_everything() {
    let mut layer = Dropout::new(1.0f64.to_bits());
    let x = t(2, 3, &[1.0, 2.0, 3.0, 4.0, 5.0, 6.0]);
    let y = layer.forward(&x, true).unwrap();
    for i in 0..2 {
        for j in 0..3 {
            assert_eq!(g(&y, i, j), 0.0);
        }
    }
    let dout = t(2, 3, &[9.0; 6]);
    let dx = layer.backward(&dout).unwrap();
    for i in 0..2 {
        for j in 0..3 {
            assert_eq!(g(&dx, i, j), 0.0);
        }
    }
}

#[test]
fn dropout_backward_after_eval_forward_is_an_error() {
    let mut layer = Dropout::new(0.5f64.to_bits());
    let x = t(1, 2, &[1.0, 2.0]);
    let _ = layer.forward(&x, false).unwrap();
    let dout = t(1, 2, &[1.0, 1.0]);
    assert!(matches!(layer.backward(&dout), Err(Error::BackwardBeforeForward)));
}

#[test]
fn affine_round_trip_shapes() {
    let mut layer = Affine::new(4, 3);
    let x = t(2, 4, &[0.5; 8]);
    let y = layer.forward(&x, true).unwrap();
    assert_eq!(y.rows, 2);
    assert_eq!(y.cols, 3);
    let dout = t(2, 3, &[1.0; 6]);
    let dx = layer.backward(&dout).unwrap();
    assert_eq!(dx.rows, 2);
    assert_eq!(dx.cols, 4);
    let dw = layer.dw.as_ref().unwrap();
    assert_eq!(dw.rows, 4);
    assert_eq!(dw.cols, 3);
    let db = layer.db.as_ref().unwrap();
    assert_eq!(db.rows, 1);
    assert_eq!(db.cols, 3);
    assert!(layer.update().is_ok());
}

#[test]
fn affine_backward_before_forward_is_an_error() {
    let mut layer = Affine::new(2, 2);
    let dout = t(1, 2, &[1.0, 1.0]);
    assert!(matches!(layer.backward(&dout), Err(Error::BackwardBeforeForward)));
    let mut fresh = Affine::new(2, 2);
    assert!(matches!(fresh.update(), Err(Error::BackwardBeforeForward)));
}

#[test]
fn affine_forward_checks_the_feature_count() {
    let mut layer = Affine::new(4, 3);
    let x = t(2, 5, &[0.0; 10]);
    assert!(matches!(layer.forward(&x, true), Err(Error::ShapeMismatch)));
}

#[test]
fn softmax_with_loss_runs_forward_then_backward() {
    let mut last = SoftmaxWithLoss::default();
    let x = t(2, 2, &[5.0, 1.0, 0.0, 3.0]);
    let tt = t(2, 2, &[1.0, 0.0, 0.0, 1.0]);
    let loss = f64::from_bits(last.forward(&x, &tt).unwrap());
    assert!(loss > 0.0);
    let gback = last.backward().unwrap();
    assert_eq!(gback.rows, 2);
    assert_eq!(gback.cols, 2);
    // (y - t) / batch for the first logit of the first row.
    let y00 = (5.0f64).exp() / ((5.0f64).exp() + (1.0f64).exp());
    assert!((g(&gback, 0, 0) - (y00 - 1.0) / 2.0).abs() < 1e-12);
}

#[test]
fn softmax_with_loss_backward_before_forward_is_an_error() {
    let mut last = SoftmaxWithLoss::default();
    assert!(matches!(last.backward(), Err(Error::BackwardBeforeForward)));
}

#[test]
fn tensor_factories_have_the_right_shapes() {
    let z = zeros(2, 3);
    assert_eq!((z.rows, z.cols), (2, 3));
    for i in 0..2 {
        for j in 0..3 {
            assert_eq!(g(&z, i, j), 0.0);
        }
    }
    let n = randn2(3, 4);
    assert_eq!((n.rows, n.cols), (3, 4));
    for i in 0..3 {
        for j in 0..4 {
            assert!(f64::from_bits(n.get(i, j)).is_finite());
        }
    }
    assert_eq!(randn1(5).len(), 5);
}
