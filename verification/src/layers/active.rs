//! The parameterless activation layers: Relu and Sigmoid.
//!
//! Each caches during `forward` exactly what its `backward` needs — Relu
//! the suppression mask, Sigmoid its output — and `backward` before any
//! `forward` is a recoverable error, never silence.

use vstd::prelude::*;

use crate::Error;
use crate::scalar::{F_ONE, F_ZERO, f_val_le, f_val_lt, mul_bits, sub_bits};
use crate::tensor::{Mask, Tensor};

use super::common::{relu, relu_bits, relu_mask, relu_mask_bits, sigmoid, sigmoid_bits};

verus! {

/// The rectifier layer: forward keeps strictly positive elements and
/// caches which positions it suppressed.
pub struct Relu {
    pub mask: Option<Mask>,
}

impl Default for Relu {
    /// A fresh Relu, with no forward pass cached yet.
    fn default() -> (r: Self)
        ensures
            r.mask is None,
    {
        Relu { mask: None }
    }
}

impl Relu {
    /// Whatever is cached is itself a well-formed rectangle.
    pub open spec fn wf(self) -> bool {
        self.mask matches Some(m) ==> m.wf()
    }

    /// Elementwise relu of the batch; caches the suppression mask, true
    /// exactly where the input was at most zero.
    pub fn forward(&mut self, x: &Tensor, _if_train: bool) -> (r: Result<Tensor, Error>)
        requires
            x.wf(),
        ensures
            r is Ok,
            final(self).wf(),
            r matches Ok(y) ==> y.wf() && y.rows == x.rows && y.cols == x.cols && forall|
                i: int,
                j: int,
            |
                0 <= i < x.rows && 0 <= j < x.cols ==> #[trigger] y.at(i, j) == relu_bits(
                    x.at(i, j),
                ),
            final(self).mask matches Some(m) && m.wf() && m.rows == x.rows && m.cols == x.cols
                && forall|i: int, j: int|
                0 <= i < x.rows && 0 <= j < x.cols ==> #[trigger] m.at(i, j) == relu_mask_bits(
                    x.at(i, j),
                ),
    {
        let mut out: Vec<Vec<u64>> = Vec::new();
        let mut mask: Vec<Vec<bool>> = Vec::new();
        let mut i: usize = 0;
        while i < x.rows
            invariant
                i <= x.rows,
                x.wf(),
                out.len() == i,
                mask.len() == i,
                forall|p: int| 0 <= p < i ==> (#[trigger] out[p]).len() == x.cols,
                forall|p: int| 0 <= p < i ==> (#[trigger] mask[p]).len() == x.cols,
                forall|p: int, q: int|
                    0 <= p < i && 0 <= q < x.cols ==> #[trigger] out[p][q] == relu_bits(x.at(p, q)),
                forall|p: int, q: int|
                    0 <= p < i && 0 <= q < x.cols ==> #[trigger] mask[p][q] == relu_mask_bits(
                        x.at(p, q),
                    ),
            decreases x.rows - i,
        {
            let mut orow: Vec<u64> = Vec::new();
            let mut mrow: Vec<bool> = Vec::new();
            let mut j: usize = 0;
            while j < x.cols
                invariant
                    j <= x.cols,
                    i < x.rows,
                    x.wf(),
                    orow.len() == j,
                    mrow.len() == j,
                    forall|q: int|
                        0 <= q < j ==> #[trigger] orow[q] == relu_bits(x.at(i as int, q)),
                    forall|q: int|
                        0 <= q < j ==> #[trigger] mrow[q] == relu_mask_bits(x.at(i as int, q)),
                decreases x.cols - j,
            {
                let v = x.data[i][j];
                orow.push(relu(v));
                mrow.push(relu_mask(v));
                j += 1;
            }
            out.push(orow);
            mask.push(mrow);
            i += 1;
        }
        self.mask = Some(Mask { rows: x.rows, cols: x.cols, data: mask });
        Ok(Tensor { rows: x.rows, cols: x.cols, data: out })
    }

    /// Passes the upstream gradient through, zeroed wherever the cached
    /// mask says the forward input was suppressed. Fails if no forward ran
    /// yet, or if the gradient's shape is not the cached one.
    pub fn backward(&mut self, dout: &Tensor) -> (r: Result<Tensor, Error>)
        requires
            dout.wf(),
            old(self).wf(),
        ensures
            *final(self) == *old(self),
            r is Ok <==> (old(self).mask matches Some(m) && m.rows == dout.rows && m.cols
                == dout.cols),
            old(self).mask is None ==> r == Result::<Tensor, Error>::Err(
                Error::BackwardBeforeForward,
            ),
            old(self).mask is Some && r is Err ==> r == Result::<Tensor, Error>::Err(
                Error::ShapeMismatch,
            ),
            r matches Ok(g) ==> g.wf() && g.rows == dout.rows && g.cols == dout.cols && (old(
                self,
            ).mask matches Some(m) ==> forall|i: int, j: int|
                0 <= i < g.rows && 0 <= j < g.cols ==> #[trigger] g.at(i, j) == (if m.at(i, j) {
                    F_ZERO
                } else {
                    dout.at(i, j)
                })),
    {
        match &self.mask {
            None => Err(Error::BackwardBeforeForward),
            Some(m) => {
                if m.rows != dout.rows || m.cols != dout.cols {
                    Err(Error::ShapeMismatch)
                } else {
                    Ok(dout.zero_where(m))
                }
            },
        }
    }
}

/// Law: a relu backward returns the upstream gradient wherever the forward
/// input was strictly positive, and zero wherever it was at most zero —
/// elementwise and shape-preserving, for every input and every gradient.
pub proof fn relu_backward_law(x: Tensor, m: Mask, g: Tensor, out: Tensor)
    requires
        m.rows == x.rows && m.cols == x.cols,
        forall|i: int, j: int|
            0 <= i < x.rows && 0 <= j < x.cols ==> #[trigger] m.at(i, j) == relu_mask_bits(
                x.at(i, j),
            ),
        g.rows == x.rows && g.cols == x.cols,
        out.rows == x.rows && out.cols == x.cols,
        forall|i: int, j: int|
            0 <= i < x.rows && 0 <= j < x.cols ==> #[trigger] out.at(i, j) == (if m.at(i, j) {
                F_ZERO
            } else {
                g.at(i, j)
            }),
    ensures
        forall|i: int, j: int|
            0 <= i < x.rows && 0 <= j < x.cols && f_val_lt(F_ZERO, #[trigger] x.at(i, j))
                ==> out.at(i, j) == g.at(i, j),
        forall|i: int, j: int|
            0 <= i < x.rows && 0 <= j < x.cols && f_val_le(#[trigger] x.at(i, j), F_ZERO)
                ==> out.at(i, j) == F_ZERO,
{
}

/// The logistic layer: forward applies the sigmoid and caches its output.
pub struct Sigmoid {
    pub output: Option<Tensor>,
}

impl Default for Sigmoid {
    /// A fresh Sigmoid, with no forward pass cached yet.
    fn default() -> (r: Self)
        ensures
            r.output is None,
    {
        Sigmoid { output: None }
    }
}

impl Sigmoid {
    /// Whatever is cached is itself a well-formed rectangle.
    pub open spec fn wf(self) -> bool {
        self.output matches Some(s) ==> s.wf()
    }

    /// Elementwise sigmoid of the batch; caches the output, which is all
    /// its backward needs.
    pub fn forward(&mut self, x: &Tensor, _if_train: bool) -> (r: Result<Tensor, Error>)
        requires
            x.wf(),
        ensures
            r is Ok,
            final(self).wf(),
            r matches Ok(y) ==> y.wf() && y.rows == x.rows && y.cols == x.cols && forall|
                i: int,
                j: int,
            |
                0 <= i < x.rows && 0 <= j < x.cols ==> #[trigger] y.at(i, j) == sigmoid_bits(
                    x.at(i, j),
                ),
            final(self).output matches Some(s) && s.wf() && s.rows == x.rows && s.cols == x.cols
                && forall|i: int, j: int|
                0 <= i < x.rows && 0 <= j < x.cols ==> #[trigger] s.at(i, j) == sigmoid_bits(
                    x.at(i, j),
                ),
    {
        let mut out: Vec<Vec<u64>> = Vec::new();
        let mut i: usize = 0;
        while i < x.rows
            invariant
                i <= x.rows,
                x.wf(),
                out.len() == i,
                forall|p: int| 0 <= p < i ==> (#[trigger] out[p]).len() == x.cols,
                forall|p: int, q: int|
                    0 <= p < i && 0 <= q < x.cols ==> #[trigger] out[p][q] == sigmoid_bits(
                        x.at(p, q),
                    ),
            decreases x.rows - i,
        {
            let mut orow: Vec<u64> = Vec::new();
            let mut j: usize = 0;
            while j < x.cols
                invariant
                    j <= x.cols,
                    i < x.rows,
                    x.wf(),
                    orow.len() == j,
                    forall|q: int|
                        0 <= q < j ==> #[trigger] orow[q] == sigmoid_bits(x.at(i as int, q)),
                decreases x.cols - j,
            {
                orow.push(sigmoid(x.data[i][j]));
                j += 1;
            }
            out.push(orow);
            i += 1;
        }
        let y = Tensor { rows: x.rows, cols: x.cols, data: out };
        let cache = y.duplicate();
        self.output = Some(cache);
        Ok(y)
    }

    /// The logistic derivative: (dout * (1 - s)) * s elementwise, with `s`
    /// the cached forward output. Fails if no forward ran yet, or if the
    /// gradient's shape is not the cached one.
    pub fn backward(&mut self, dout: &Tensor) -> (r: Result<Tensor, Error>)
        requires
            dout.wf(),
            old(self).wf(),
        ensures
            *final(self) == *old(self),
            r is Ok <==> (old(self).output matches Some(s) && s.rows == dout.rows && s.cols
                == dout.cols),
            old(self).output is None ==> r == Result::<Tensor, Error>::Err(
                Error::BackwardBeforeForward,
            ),
            old(self).output is Some && r is Err ==> r == Result::<Tensor, Error>::Err(
                Error::ShapeMismatch,
            ),
            r matches Ok(g) ==> g.wf() && g.rows == dout.rows && g.cols == dout.cols && (old(
                self,
            ).output matches Some(s) ==> forall|i: int, j: int|
                0 <= i < g.rows && 0 <= j < g.cols ==> #[trigger] g.at(i, j) == mul_bits(
                    mul_bits(dout.at(i, j), sub_bits(F_ONE, s.at(i, j))),
                    s.at(i, j),
                )),
    {
        match &self.output {
            None => Err(Error::BackwardBeforeForward),
            Some(s) => {
                if s.rows != dout.rows || s.cols != dout.cols {
                    Err(Error::ShapeMismatch)
                } else {
                    let one_minus = s.sub_from_left(F_ONE);
                    let partial = dout.ew_mul(&one_minus);
                    Ok(partial.ew_mul(s))
                }
            },
        }
    }
}

} // verus!
