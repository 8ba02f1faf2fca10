//! Driving a whole network: error taxonomy, the builder, and end-to-end
//! training on a small linearly separable problem.

use nufish_core::Error;
use nufish_core::builder::LayerBuilder;
use nufish_core::layers::active::Relu;
use nufish_core::layers::last_layer::{LastLayer, SoftmaxWithLoss};
use nufish_core::layers::layer::{Affine, Layer};
use nufish_core::network::Network;
use nufish_core::tensor::Tensor;

fn t(rows: usize, cols: usize, vals: &[f64]) -> Tensor {
    let bits: Vec<u64> = vals.iter().map(|v| v.to_bits()).collect();
    Tensor::from_vec(rows, cols, bits).unwrap()
}

fn two_layer_net(lr: f64) -> Network {
    Network::new()
        .add_layer(Layer::Affine(Affine::new(2, 8).set_lr(lr.to_bits())))
        .add_layer(Layer::Relu(Relu::default()))
        .add_layer(Layer::Affine(Affine::new(8, 2).set_lr(lr.to_bits())))
        .set_last_layer(LastLayer::SoftmaxWithLoss(SoftmaxWithLoss::default()))
}

fn toy_data() -> (Tensor, Tensor) {
    let x = t(
        8,
        2,
        &[
            0.0, 0.0, 0.0, 1.0, 1.0, 0.0, 0.2, 0.3, 3.0, 3.0, 4.0, 3.0, 3.0, 4.0, 3.5, 3.5,
        ],
    );
    let labels = t(
        8,
        2,
        &[
            1.0, 0.0, 1.0, 0.0, 1.0, 0.0, 1.0, 0.0, 0.0, 1.0, 0.0, 1.0, 0.0, 1.0, 0.0, 1.0,
        ],
    );
    (x, labels)
}

#[test]
fn loss_without_a_last_layer_is_an_explicit_error() {
    let mut net = Network::new().add_layer(Layer::Affine(Affine::new(2, 2)));
    let (x, labels) = toy_data();
    assert!(matches!(net.loss(&x, &labels, true), Err(Error::MissingLastLayer)));
    assert!(matches!(net.gradient(&x, &labels, true), Err(Error::MissingLastLayer)));
}

#[test]
fn a_batch_of_the_wrong_width_is_a_shape_error() {
    let mut net = two_layer_net(0.01);
    let x = t(2, 3, &[0.0; 6]);
    let labels = t(2, 2, &[1.0, 0.0, 0.0, 1.0]);
    assert!(matches!(net.loss(&x, &labels, true), Err(Error::ShapeMismatch)));
    assert!(matches!(net.predict(&x, true), Err(Error::ShapeMismatch)));
}

#[test]
fn gradient_in_eval_mode_with_dropout_is_an_error() {
    let mut net = Network::new()
        .add_layer(Layer::Affine(Affine::new(2, 4)))
        .add_layer(Layer::Dropout(nufish_core::layers::layer::Dropout::new(0.5f64.to_bits())))
        .add_layer(Layer::Affine(Affine::new(4, 2)))
        .set_last_layer(LastLayer::SoftmaxWithLoss(SoftmaxWithLoss::default()));
    let (x, labels) = toy_data();
    assert!(matches!(net.gradient(&x, &labels, false), Err(Error::BackwardBeforeForward)));
    // The same drive in training mode succeeds: the masks are fresh.
    assert!(net.gradient(&x, &labels, true).is_ok());
}

#[test]
fn update_before_any_backward_is_an_error() {
    let mut net = two_layer_net(0.01);
    assert!(matches!(net.update(), Err(Error::BackwardBeforeForward)));
}

#[test]
fn accuracy_is_a_fraction_of_the_batch() {
    let mut net = two_layer_net(0.01);
    let (x, labels) = toy_data();
    let a = f64::from_bits(net.accuracy(&x, &labels, false).unwrap());
    assert!((0.0..=1.0).contains(&a));
    assert_eq!((a * 8.0).fract(), 0.0);
}

#[test]
fn training_reduces_the_loss_and_separates_the_classes() {
    let mut net = two_layer_net(0.05);
    let (x, labels) = toy_data();
    let reports = net.train((&x, &labels), (&x, &labels), 300, 8).unwrap();
    assert_eq!(reports.len(), 300);
    let losses: Vec<f64> = reports.iter().map(|r| f64::from_bits(r.train_loss)).collect();
    for w in losses.windows(2) {
        assert!(w[1] <= w[0] + 1e-6);
    }
    let final_accuracy = f64::from_bits(reports.last().unwrap().test_accuracy);
    assert!(final_accuracy >= 0.9);
    assert!(*losses.last().unwrap() < losses[0]);
}

#[test]
fn the_builder_assembles_a_canonical_stack() {
    let builder = LayerBuilder::new(2, 6, 2).set_lr(0.05f64.to_bits()).set_dropout_radio(
        0.1f64.to_bits(),
    );
    let mut net = Network::new()
        .add_layer(Layer::Affine(builder.affine_input()))
        .add_layer(Layer::Relu(builder.relu()))
        .add_layer(Layer::Affine(builder.affine_hidden()))
        .add_layer(Layer::Sigmoid(builder.sigmoid()))
        .add_layer(Layer::Dropout(builder.dropout()))
        .add_layer(Layer::Affine(builder.affine_output()))
        .set_last_layer(LastLayer::SoftmaxWithLoss(builder.softmax_with_loss()));
    let (x, labels) = toy_data();
    assert!(net.loss(&x, &labels, true).is_ok());
    assert!(net.gradient(&x, &labels, true).is_ok());
    assert!(net.update().is_ok());
}

#[test]
fn an_epoch_count_of_zero_trains_nothing() {
    let mut net = two_layer_net(0.01);
    let (x, labels) = toy_data();
    let reports = net.train((&x, &labels), (&x, &labels), 0, 4).unwrap();
    assert!(reports.is_empty());
}

#[test]
fn training_with_mismatched_targets_is_a_shape_error() {
    let mut net = two_layer_net(0.01);
    let (x, _) = toy_data();
    let labels = t(8, 3, &[0.0; 24]);
    assert!(matches!(net.train((&x, &labels), (&x, &labels), 5, 4), Err(Error::ShapeMismatch)));
}
