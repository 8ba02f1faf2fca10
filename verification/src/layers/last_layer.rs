//! The terminal unit of a network: softmax activation fused with the
//! cross-entropy loss, and the closed set of last-layer variants.
//!
//! The last layer is the sink of the graph: its `forward` takes the
//! predictions and the targets and returns the scalar loss, and its
//! `backward` takes no incoming gradient — the closed-form gradient
//! `(y - t) / batch` starts the backward traversal.

use vstd::prelude::*;

use crate::Error;
use crate::scalar::{div_bits, sub_bits, u32_bits};
use crate::tensor::{ScalarOp, Tensor};

use super::common::{cross_entropy_bits, cross_entropy_error, softmax, softmax_row_at};

verus! {

/// Softmax activation combined with batch-mean cross-entropy loss, caching
/// the softmax output, the targets and the loss of the most recent forward
/// pass.
pub struct SoftmaxWithLoss {
    pub y: Option<Tensor>,
    pub t: Option<Tensor>,
    pub loss: Option<u64>,
}

impl Default for SoftmaxWithLoss {
    /// A fresh terminal layer: nothing cached, backward not yet available.
    fn default() -> (r: Self)
        ensures
            r.y is None,
            r.t is None,
            r.loss is None,
    {
        SoftmaxWithLoss { y: None, t: None, loss: None }
    }
}

impl SoftmaxWithLoss {
    /// Caches are well-formed rectangles, and when both are present they
    /// agree in shape — `forward` stores them together.
    pub open spec fn wf(self) -> bool {
        &&& (self.y matches Some(y) ==> y.wf())
        &&& (self.t matches Some(t) ==> t.wf())
        &&& ((self.y, self.t) matches (Some(y), Some(t)) ==> y.rows == t.rows && y.cols == t.cols)
    }

    /// Row-wise softmax of the predictions, then the batch-mean
    /// cross-entropy against the one-hot targets; caches softmax output,
    /// targets and loss. Fails exactly when the two batches disagree in
    /// shape, or when a non-empty batch has no columns to normalise over.
    pub fn forward(&mut self, x: &Tensor, t: &Tensor) -> (r: Result<u64, Error>)
        requires
            x.wf(),
            t.wf(),
            old(self).wf(),
            x.rows <= u32::MAX,
        ensures
            final(self).wf(),
            r is Ok <==> (t.rows == x.rows && t.cols == x.cols && (x.rows > 0 ==> x.cols > 0)),
            r is Err ==> r == Result::<u64, Error>::Err(Error::ShapeMismatch) && *final(self) == *old(self),
            r matches Ok(l) ==> {
                &&& final(self).y matches Some(y) && y.wf() && y.rows == x.rows && y.cols == x.cols
                    && forall|i: int, j: int|
                    0 <= i < y.rows && 0 <= j < y.cols ==> #[trigger] y.at(i, j) == softmax_row_at(
                        x.row_seq(i),
                        j,
                    )
                &&& final(self).t matches Some(c) && c.wf() && c.rows == t.rows && c.cols == t.cols
                    && forall|i: int, j: int|
                    0 <= i < t.rows && 0 <= j < t.cols ==> #[trigger] c.at(i, j) == t.at(i, j)
                &&& final(self).loss == Some(l)
                &&& ((final(self).y, final(self).t) matches (Some(y), Some(c)) && l
                    == cross_entropy_bits(y, c))
            },
    {
        if t.rows != x.rows || t.cols != x.cols {
            return Err(Error::ShapeMismatch);
        }
        if x.rows > 0 && x.cols == 0 {
            return Err(Error::ShapeMismatch);
        }
        let y = softmax(x);
        let tc = t.duplicate();
        let loss = cross_entropy_error(&y, &tc);
        self.t = Some(tc);
        self.y = Some(y);
        self.loss = Some(loss);
        Ok(loss)
    }

    /// The closed-form gradient of softmax-cross-entropy with respect to
    /// the predictions: `(y - t) / batch`, from the cached forward pass.
    /// Takes no incoming gradient — this layer is the sink. Fails exactly
    /// when no forward pass is cached.
    pub fn backward(&mut self) -> (r: Result<Tensor, Error>)
        requires
            old(self).wf(),
            old(self).t matches Some(t) ==> t.rows <= u32::MAX,
        ensures
            *final(self) == *old(self),
            r is Ok <==> old(self).y is Some && old(self).t is Some,
            r is Err ==> r == Result::<Tensor, Error>::Err(Error::BackwardBeforeForward),
            r matches Ok(g) ==> ((old(self).y, old(self).t) matches (Some(y), Some(t)) && g.wf()
                && g.rows == t.rows && g.cols == t.cols && forall|i: int, j: int|
                0 <= i < g.rows && 0 <= j < g.cols ==> #[trigger] g.at(i, j) == div_bits(
                    sub_bits(y.at(i, j), t.at(i, j)),
                    u32_bits(t.rows as u32),
                )),
    {
        let (y, t) = match (&self.y, &self.t) {
            (Some(y), Some(t)) => (y, t),
            _ => {
                return Err(Error::BackwardBeforeForward);
            },
        };
        let diff = y.ew_sub(t);
        let batch = crate::scalar::f_from_u32(t.rows as u32);
        Ok(diff.map_scalar(batch, ScalarOp::Div))
    }
}

/// The closed set of terminal variants a network can end in.
pub enum LastLayer {
    SoftmaxWithLoss(SoftmaxWithLoss),
}

impl LastLayer {
    /// The terminal unit inside, whichever variant carries it.
    pub open spec fn sm(self) -> SoftmaxWithLoss {
        match self {
            LastLayer::SoftmaxWithLoss(s) => s,
        }
    }

    pub open spec fn wf(self) -> bool {
        self.sm().wf()
    }

    /// Terminal forward: the loss of the predictions against the targets.
    /// Same contract as the unit inside.
    pub fn forward(&mut self, x: &Tensor, t: &Tensor) -> (r: Result<u64, Error>)
        requires
            x.wf(),
            t.wf(),
            old(self).wf(),
            x.rows <= u32::MAX,
        ensures
            final(self).wf(),
            r is Ok <==> (t.rows == x.rows && t.cols == x.cols && (x.rows > 0 ==> x.cols > 0)),
            r is Err ==> r == Result::<u64, Error>::Err(Error::ShapeMismatch) && *final(self) == *old(self),
            r matches Ok(l) ==> {
                &&& final(self).sm().y matches Some(y) && y.wf() && y.rows == x.rows && y.cols
                    == x.cols && forall|i: int, j: int|
                    0 <= i < y.rows && 0 <= j < y.cols ==> #[trigger] y.at(i, j) == softmax_row_at(
                        x.row_seq(i),
                        j,
                    )
                &&& final(self).sm().t matches Some(c) && c.wf() && c.rows == t.rows && c.cols
                    == t.cols && forall|i: int, j: int|
                    0 <= i < t.rows && 0 <= j < t.cols ==> #[trigger] c.at(i, j) == t.at(i, j)
                &&& final(self).sm().loss == Some(l)
                &&& ((final(self).sm().y, final(self).sm().t) matches (Some(y), Some(c)) && l
                    == cross_entropy_bits(y, c))
            },
    {
        match self {
            LastLayer::SoftmaxWithLoss(s) => s.forward(x, t),
        }
    }

    /// Terminal backward: the gradient that starts the reverse traversal.
    /// Same contract as the unit inside.
    pub fn backward(&mut self) -> (r: Result<Tensor, Error>)
        requires
            old(self).wf(),
            old(self).sm().t matches Some(t) ==> t.rows <= u32::MAX,
        ensures
            *final(self) == *old(self),
            r is Ok <==> old(self).sm().y is Some && old(self).sm().t is Some,
            r is Err ==> r == Result::<Tensor, Error>::Err(Error::BackwardBeforeForward),
            r matches Ok(g) ==> ((old(self).sm().y, old(self).sm().t) matches (Some(y), Some(t))
                && g.wf() && g.rows == t.rows && g.cols == t.cols && forall|i: int, j: int|
                0 <= i < g.rows && 0 <= j < g.cols ==> #[trigger] g.at(i, j) == div_bits(
                    sub_bits(y.at(i, j), t.at(i, j)),
                    u32_bits(t.rows as u32),
                )),
    {
        match self {
            LastLayer::SoftmaxWithLoss(s) => s.backward(),
        }
    }
}

} // verus!
