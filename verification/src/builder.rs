//! A convenience builder for the canonical three-width stack: input to
//! hidden, hidden to hidden, hidden to output, with shared learning rate
//! and dropout fraction, each defaulting to 0.01.

use vstd::prelude::*;

use crate::layers::active::{Relu, Sigmoid};
use crate::layers::last_layer::SoftmaxWithLoss;
use crate::layers::layer::{Affine, Dropout};
use crate::scalar::F_CENTI;

verus! {

/// The configuration the builder carries: three widths and the optional
/// hyperparameters.
pub struct LayerBuilder {
    pub input_size: usize,
    pub hidden_size: usize,
    pub output_size: usize,
    pub lr: Option<u64>,
    pub dropout_ratio: Option<u64>,
}

impl LayerBuilder {
    /// The learning rate every affine layer gets: the one set, or 0.01.
    pub open spec fn lr_eff(self) -> u64 {
        match self.lr {
            Some(l) => l,
            None => F_CENTI,
        }
    }

    /// The drop fraction a dropout layer gets: the one set, or 0.01.
    pub open spec fn ratio_eff(self) -> u64 {
        match self.dropout_ratio {
            Some(d) => d,
            None => F_CENTI,
        }
    }

    /// A builder for the given three widths, with no hyperparameters set.
    pub fn new(input_size: usize, hidden_size: usize, output_size: usize) -> (r: Self)
        ensures
            r.input_size == input_size,
            r.hidden_size == hidden_size,
            r.output_size == output_size,
            r.lr is None,
            r.dropout_ratio is None,
    {
        LayerBuilder { input_size, hidden_size, output_size, lr: None, dropout_ratio: None }
    }

    /// The builder with its dropout fraction set.
    pub fn set_dropout_radio(self, dropout_ratio: u64) -> (r: Self)
        ensures
            r == (LayerBuilder { dropout_ratio: Some(dropout_ratio), ..self }),
    {
        LayerBuilder { dropout_ratio: Some(dropout_ratio), ..self }
    }

    /// The builder with its learning rate set.
    pub fn set_lr(self, lr: u64) -> (r: Self)
        ensures
            r == (LayerBuilder { lr: Some(lr), ..self }),
    {
        LayerBuilder { lr: Some(lr), ..self }
    }

    /// A fresh rectifier layer.
    pub fn relu(&self) -> (r: Relu)
        ensures
            r.mask is None,
            r.wf(),
    {
        Relu::default()
    }

    /// A fresh logistic layer.
    pub fn sigmoid(&self) -> (r: Sigmoid)
        ensures
            r.output is None,
            r.wf(),
    {
        Sigmoid::default()
    }

    /// The input-side affine layer: input width to hidden width.
    pub fn affine_input(&self) -> (r: Affine)
        ensures
            r.wf(),
            r.weights.rows == self.input_size,
            r.size == self.hidden_size,
            r.lr == Some(self.lr_eff()),
            r.input is None,
            r.dw is None,
            r.db is None,
    {
        let lr = match self.lr {
            Some(l) => l,
            None => F_CENTI,
        };
        Affine::new(self.input_size, self.hidden_size).set_lr(lr)
    }

    /// A hidden affine layer: hidden width to hidden width.
    pub fn affine_hidden(&self) -> (r: Affine)
        ensures
            r.wf(),
            r.weights.rows == self.hidden_size,
            r.size == self.hidden_size,
            r.lr == Some(self.lr_eff()),
            r.input is None,
            r.dw is None,
            r.db is None,
    {
        let lr = match self.lr {
            Some(l) => l,
            None => F_CENTI,
        };
        Affine::new(self.hidden_size, self.hidden_size).set_lr(lr)
    }

    /// The output-side affine layer: hidden width to output width.
    pub fn affine_output(&self) -> (r: Affine)
        ensures
            r.wf(),
            r.weights.rows == self.hidden_size,
            r.size == self.output_size,
            r.lr == Some(self.lr_eff()),
            r.input is None,
            r.dw is None,
            r.db is None,
    {
        let lr = match self.lr {
            Some(l) => l,
            None => F_CENTI,
        };
        Affine::new(self.hidden_size, self.output_size).set_lr(lr)
    }

    /// A fresh dropout layer with the builder's drop fraction.
    pub fn dropout(&self) -> (r: Dropout)
        ensures
            r.wf(),
            r.dropout_ratio == self.ratio_eff(),
            r.mask is None,
    {
        let dropout_ratio = match self.dropout_ratio {
            Some(d) => d,
            None => F_CENTI,
        };
        Dropout::new(dropout_ratio)
    }

    /// A fresh terminal softmax-with-loss layer.
    pub fn softmax_with_loss(&self) -> (r: SoftmaxWithLoss)
        ensures
            r.y is None,
            r.t is None,
            r.loss is None,
            r.wf(),
    {
        SoftmaxWithLoss::default()
    }
}

} // verus!
