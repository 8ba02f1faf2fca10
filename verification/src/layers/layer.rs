//! The parameterized layers — Affine and Dropout — and the closed layer
//! variant every network stacks.
//!
//! Every layer obeys one protocol: `forward` transforms a batch and caches
//! what its `backward` will need, `backward` turns the gradient of the
//! loss with respect to the output into the gradient with respect to the
//! input (storing parameter gradients on the way), and `update` applies
//! one gradient-descent step. A `backward` or `update` whose forward-side
//! cache is missing is a recoverable error.

use vstd::prelude::*;

use crate::Error;
use crate::scalar::{
    F_CENTI, F_ONE, F_ZERO, add_bits, f_add, f_lt_val, f_mul, f_sub, f_uniform, f_val_le,
    f_val_lt, lemma_val_order, mul_bits, sub_bits, uniform_outcome,
};
use crate::tensor::{Mask, Tensor, col_sum, dot};

use super::active::{Relu, Sigmoid};
use super::util::{normal_outcome, randn2, zeros};

verus! {

/// The fold the input-gradient of an affine layer accumulates: partial
/// sums of `a[i, p] * b[j, p]` for `p < k` — a matrix product with the
/// right operand transposed.
pub open spec fn dot_nt(a: Tensor, b: Tensor, i: int, j: int, k: int) -> u64
    decreases k,
{
    if k <= 0 {
        F_ZERO
    } else {
        add_bits(dot_nt(a, b, i, j, k - 1), mul_bits(a.at(i, k - 1), b.at(j, k - 1)))
    }
}

/// The fold the weight-gradient of an affine layer accumulates: partial
/// sums of `a[p, i] * b[p, j]` for `p < k` — a matrix product with the
/// left operand transposed.
pub open spec fn dot_tn(a: Tensor, b: Tensor, i: int, j: int, k: int) -> u64
    decreases k,
{
    if k <= 0 {
        F_ZERO
    } else {
        add_bits(dot_tn(a, b, i, j, k - 1), mul_bits(a.at(k - 1, i), b.at(k - 1, j)))
    }
}

/// The fully-connected layer: learnable weights of shape `(in, out)` and a
/// bias row of shape `(1, out)`, with its own learning rate.
pub struct Affine {
    pub size: usize,
    pub weights: Tensor,
    pub offsets: Tensor,
    pub input: Option<Tensor>,
    pub dw: Option<Tensor>,
    pub db: Option<Tensor>,
    pub lr: Option<u64>,
}

impl Affine {
    /// Shapes hang together: weights are `(in, size)`, the bias row is
    /// `(1, size)`, a cached input has `in` columns, and cached gradients
    /// have the shapes of what they update.
    pub open spec fn wf(self) -> bool {
        &&& self.weights.wf()
        &&& self.offsets.wf()
        &&& self.weights.cols == self.size
        &&& self.offsets.rows == 1
        &&& self.offsets.cols == self.size
        &&& (self.input matches Some(c) ==> c.wf() && c.cols == self.weights.rows)
        &&& (self.dw matches Some(d) ==> d.wf() && d.rows == self.weights.rows && d.cols
            == self.size)
        &&& (self.db matches Some(d) ==> d.wf() && d.rows == 1 && d.cols == self.size)
    }

    /// The learning rate one update step uses: the one set, or 0.01.
    pub open spec fn lr_eff(self) -> u64 {
        match self.lr {
            Some(l) => l,
            None => F_CENTI,
        }
    }

    /// A fresh layer mapping `input_size` features to `output_size`:
    /// weights are 0.01 times standard normal variates, the bias row is
    /// zero, and nothing is cached.
    pub fn new(input_size: usize, output_size: usize) -> (r: Self)
        ensures
            r.wf(),
            r.size == output_size,
            r.weights.rows == input_size,
            r.weights.cols == output_size,
            forall|i: int, j: int|
                0 <= i < input_size && 0 <= j < output_size ==> init_weight(
                    #[trigger] r.weights.at(i, j),
                ),
            forall|j: int| 0 <= j < output_size ==> #[trigger] r.offsets.at(0, j) == F_ZERO,
            r.input is None,
            r.dw is None,
            r.db is None,
            r.lr is None,
    {
        let base = randn2(input_size, output_size);
        let weights = base.scale_from_left(F_CENTI);
        proof {
            assert forall|i: int, j: int|
                0 <= i < input_size && 0 <= j < output_size implies init_weight(
                #[trigger] weights.at(i, j),
            ) by {
                assert(normal_outcome(base.at(i, j)));
                assert(weights.at(i, j) == mul_bits(F_CENTI, base.at(i, j)));
            }
        }
        let offsets = zeros(1, output_size);
        Affine { size: output_size, weights, offsets, input: None, dw: None, db: None, lr: None }
    }

    /// The same layer with its learning rate set.
    pub fn set_lr(self, lr: u64) -> (r: Self)
        ensures
            r == (Affine { lr: Some(lr), ..self }),
    {
        Affine { lr: Some(lr), ..self }
    }

    /// The affine map `x . W + b`, the bias row broadcast over the batch;
    /// caches a copy of `x` for the backward pass. Fails exactly when the
    /// batch's feature count is not the weights' row count.
    pub fn forward(&mut self, x: &Tensor, _if_train: bool) -> (r: Result<Tensor, Error>)
        requires
            x.wf(),
            old(self).wf(),
        ensures
            final(self).wf(),
            final(self).size == old(self).size,
            final(self).weights == old(self).weights,
            final(self).offsets == old(self).offsets,
            final(self).lr == old(self).lr,
            final(self).dw == old(self).dw,
            final(self).db == old(self).db,
            r is Ok <==> x.cols == old(self).weights.rows,
            r is Err ==> r == Result::<Tensor, Error>::Err(Error::ShapeMismatch) && *final(self) == *old(self),
            r matches Ok(y) ==> {
                &&& y.wf()
                &&& y.rows == x.rows
                &&& y.cols == old(self).size
                &&& forall|i: int, j: int|
                    0 <= i < y.rows && 0 <= j < y.cols ==> #[trigger] y.at(i, j) == add_bits(
                        dot(*x, old(self).weights, i, j, x.cols as int),
                        old(self).offsets.at(0, j),
                    )
                &&& final(self).input matches Some(c) && c.wf() && c.rows == x.rows && c.cols
                    == x.cols && forall|i: int, j: int|
                    0 <= i < x.rows && 0 <= j < x.cols ==> #[trigger] c.at(i, j) == x.at(i, j)
            },
    {
        if x.cols != self.weights.rows {
            return Err(Error::ShapeMismatch);
        }
        let prod = match x.matmul(&self.weights) {
            Ok(p) => p,
            Err(e) => {
                return Err(e);
            },
        };
        let y = prod.add_row(&self.offsets);
        self.input = Some(x.duplicate());
        Ok(y)
    }

    /// The three gradients of the affine map: returns `dout . W^T`, stores
    /// `dW = x^T . dout` and `db` as the column sums of `dout`. Fails if no
    /// forward pass is cached, or if the gradient's shape does not match
    /// the cached batch and the layer's width.
    pub fn backward(&mut self, dout: &Tensor) -> (r: Result<Tensor, Error>)
        requires
            dout.wf(),
            old(self).wf(),
        ensures
            final(self).wf(),
            final(self).size == old(self).size,
            final(self).weights == old(self).weights,
            final(self).offsets == old(self).offsets,
            final(self).lr == old(self).lr,
            final(self).input == old(self).input,
            r is Ok <==> (old(self).input matches Some(c) && dout.rows == c.rows && dout.cols
                == old(self).size),
            old(self).input is None ==> r == Result::<Tensor, Error>::Err(
                Error::BackwardBeforeForward,
            ),
            old(self).input is Some && r is Err ==> r == Result::<Tensor, Error>::Err(
                Error::ShapeMismatch,
            ),
            r is Err ==> *final(self) == *old(self),
            r matches Ok(g) ==> {
                &&& g.wf()
                &&& g.rows == dout.rows
                &&& g.cols == old(self).weights.rows
                &&& forall|i: int, j: int|
                    0 <= i < g.rows && 0 <= j < g.cols ==> #[trigger] g.at(i, j) == dot_nt(
                        *dout,
                        old(self).weights,
                        i,
                        j,
                        old(self).size as int,
                    )
                &&& (old(self).input matches Some(c) ==> final(self).dw matches Some(d) && d.wf()
                    && d.rows == c.cols && d.cols == old(self).size && forall|i: int, j: int|
                    0 <= i < d.rows && 0 <= j < d.cols ==> #[trigger] d.at(i, j) == dot_tn(
                        c,
                        *dout,
                        i,
                        j,
                        c.rows as int,
                    ))
                &&& final(self).db matches Some(d) && d.wf() && d.rows == 1 && d.cols == old(
                    self,
                ).size && forall|j: int|
                    0 <= j < d.cols ==> #[trigger] d.at(0, j) == col_sum(
                        *dout,
                        j,
                        dout.rows as int,
                    )
            },
    {
        match &self.input {
            None => {
                return Err(Error::BackwardBeforeForward);
            },
            Some(c) => {
                if dout.rows != c.rows || dout.cols != self.size {
                    return Err(Error::ShapeMismatch);
                }
            },
        };
        // dx = dout . W^T, written against the untransposed weights.
        let w = &self.weights;
        let mut dx: Vec<Vec<u64>> = Vec::new();
        let mut i: usize = 0;
        while i < dout.rows
            invariant
                i <= dout.rows,
                dout.wf(),
                w.wf(),
                dout.cols == w.cols,
                dx.len() == i,
                forall|p: int| 0 <= p < i ==> (#[trigger] dx[p]).len() == w.rows,
                forall|p: int, q: int|
                    0 <= p < i && 0 <= q < w.rows ==> #[trigger] dx[p][q] == dot_nt(
                        *dout,
                        *w,
                        p,
                        q,
                        w.cols as int,
                    ),
            decreases dout.rows - i,
        {
            let mut row: Vec<u64> = Vec::new();
            let mut j: usize = 0;
            while j < w.rows
                invariant
                    j <= w.rows,
                    i < dout.rows,
                    dout.wf(),
                    w.wf(),
                    dout.cols == w.cols,
                    row.len() == j,
                    forall|q: int|
                        0 <= q < j ==> #[trigger] row[q] == dot_nt(
                            *dout,
                            *w,
                            i as int,
                            q,
                            w.cols as int,
                        ),
                decreases w.rows - j,
            {
                let mut acc: u64 = F_ZERO;
                let mut p: usize = 0;
                while p < w.cols
                    invariant
                        p <= w.cols,
                        i < dout.rows,
                        j < w.rows,
                        dout.wf(),
                        w.wf(),
                        dout.cols == w.cols,
                        acc == dot_nt(*dout, *w, i as int, j as int, p as int),
                    decreases w.cols - p,
                {
                    acc = f_add(acc, f_mul(dout.data[i][p], w.data[j][p]));
                    p += 1;
                }
                row.push(acc);
                j += 1;
            }
            dx.push(row);
            i += 1;
        }
        let g = Tensor { rows: dout.rows, cols: w.rows, data: dx };
        // dW = x^T . dout, written against the untransposed cached input.
        let c = match &self.input {
            Some(c) => c,
            None => {
                return Err(Error::BackwardBeforeForward);
            },
        };
        let mut dwd: Vec<Vec<u64>> = Vec::new();
        let mut i2: usize = 0;
        while i2 < c.cols
            invariant
                i2 <= c.cols,
                dout.wf(),
                c.wf(),
                c.rows == dout.rows,
                dwd.len() == i2,
                forall|p: int| 0 <= p < i2 ==> (#[trigger] dwd[p]).len() == dout.cols,
                forall|p: int, q: int|
                    0 <= p < i2 && 0 <= q < dout.cols ==> #[trigger] dwd[p][q] == dot_tn(
                        *c,
                        *dout,
                        p,
                        q,
                        c.rows as int,
                    ),
            decreases c.cols - i2,
        {
            let mut row: Vec<u64> = Vec::new();
            let mut j2: usize = 0;
            while j2 < dout.cols
                invariant
                    j2 <= dout.cols,
                    i2 < c.cols,
                    dout.wf(),
                    c.wf(),
                    c.rows == dout.rows,
                    row.len() == j2,
                    forall|q: int|
                        0 <= q < j2 ==> #[trigger] row[q] == dot_tn(
                            *c,
                            *dout,
                            i2 as int,
                            q,
                            c.rows as int,
                        ),
                decreases dout.cols - j2,
            {
                let mut acc: u64 = F_ZERO;
                let mut p2: usize = 0;
                while p2 < c.rows
                    invariant
                        p2 <= c.rows,
                        i2 < c.cols,
                        j2 < dout.cols,
                        dout.wf(),
                        c.wf(),
                        c.rows == dout.rows,
                        acc == dot_tn(*c, *dout, i2 as int, j2 as int, p2 as int),
                    decreases c.rows - p2,
                {
                    acc = f_add(acc, f_mul(c.data[p2][i2], dout.data[p2][j2]));
                    p2 += 1;
                }
                row.push(acc);
                j2 += 1;
            }
            dwd.push(row);
            i2 += 1;
        }
        let dw = Tensor { rows: c.cols, cols: dout.cols, data: dwd };
        let db = dout.sum_axis0();
        self.dw = Some(dw);
        self.db = Some(db);
        Ok(g)
    }

    /// One gradient-descent step on this layer's own parameters:
    /// `W <- W - lr * dW` and `b <- b - lr * db`, with the cached gradients
    /// of the last backward pass. Fails exactly when no backward pass has
    /// stored gradients yet.
    pub fn update(&mut self) -> (r: Result<(), Error>)
        requires
            old(self).wf(),
        ensures
            final(self).wf(),
            final(self).size == old(self).size,
            final(self).lr == old(self).lr,
            final(self).input == old(self).input,
            final(self).dw == old(self).dw,
            final(self).db == old(self).db,
            r is Ok <==> old(self).dw is Some && old(self).db is Some,
            r is Err ==> r == Result::<(), Error>::Err(Error::BackwardBeforeForward) && *final(self) == *old(self),
            r is Ok ==> stepped(*old(self), *final(self)),
    {
        let lr = match self.lr {
            Some(l) => l,
            None => F_CENTI,
        };
        let (dw_step, db_step) = match (&self.dw, &self.db) {
            (Some(dw), Some(db)) => (dw.scale_from_left(lr), db.scale_from_left(lr)),
            _ => {
                return Err(Error::BackwardBeforeForward);
            },
        };
        let w2 = self.weights.ew_sub(&dw_step);
        let b2 = self.offsets.ew_sub(&db_step);
        self.weights = w2;
        self.offsets = b2;
        Ok(())
    }
}

/// How one gradient-descent step leaves an affine layer `a`: `b` keeps
/// everything but the parameters, and every weight and bias element moved
/// by its own gradient scaled by the layer's learning rate.
pub open spec fn stepped(a: Affine, b: Affine) -> bool {
    &&& b.size == a.size
    &&& b.lr == a.lr
    &&& b.input == a.input
    &&& b.dw == a.dw
    &&& b.db == a.db
    &&& b.weights.rows == a.weights.rows
    &&& b.weights.cols == a.weights.cols
    &&& b.offsets.rows == a.offsets.rows
    &&& b.offsets.cols == a.offsets.cols
    &&& (a.dw matches Some(d) ==> forall|i: int, j: int|
        0 <= i < a.weights.rows && 0 <= j < a.weights.cols ==> b.weights.at(i, j) == sub_bits(
            a.weights.at(i, j),
            mul_bits(a.lr_eff(), #[trigger] d.at(i, j)),
        ))
    &&& (a.db matches Some(d) ==> forall|j: int|
        0 <= j < a.offsets.cols ==> b.offsets.at(0, j) == sub_bits(
            a.offsets.at(0, j),
            mul_bits(a.lr_eff(), #[trigger] d.at(0, j)),
        ))
}

/// One initial weight is explained by the sampler: 0.01 times some
/// standard normal variate of the Box-Muller pipeline.
pub open spec fn init_weight(w: u64) -> bool {
    exists|z: u64| #[trigger] normal_outcome(z) && w == mul_bits(F_CENTI, z)
}

/// One keep-decision is explained by some uniform sample: there is a draw
/// from [0, 1) such that the position was kept exactly when the draw lay
/// strictly above the ratio.
pub open spec fn keep_from_sample(ratio: u64, keep: bool) -> bool {
    exists|s: u64| uniform_outcome(s) && keep == f_val_lt(ratio, s)
}

/// The dropout layer: a fixed drop fraction, and the keep-mask of the most
/// recent training-mode forward pass.
pub struct Dropout {
    pub dropout_ratio: u64,
    pub mask: Option<Mask>,
}

impl Dropout {
    /// Whatever is cached is itself a well-formed rectangle.
    pub open spec fn wf(self) -> bool {
        self.mask matches Some(m) ==> m.wf()
    }

    /// A fresh dropout layer with the given drop fraction and no mask.
    pub fn new(dropout_ratio: u64) -> (r: Self)
        ensures
            r.wf(),
            r.dropout_ratio == dropout_ratio,
            r.mask is None,
    {
        Dropout { dropout_ratio, mask: None }
    }

    /// In evaluation mode, deterministic inverted scaling: the input times
    /// `1 - ratio`, and no mask is stored. In training mode, one fresh
    /// uniform sample per element decides each position: kept exactly when
    /// its sample lies strictly above the ratio, and the keep-mask is
    /// cached for the backward pass.
    pub fn forward(&mut self, p: &Tensor, if_train: bool) -> (r: Result<Tensor, Error>)
        requires
            p.wf(),
            old(self).wf(),
        ensures
            final(self).wf(),
            final(self).dropout_ratio == old(self).dropout_ratio,
            r is Ok,
            r matches Ok(y) ==> y.wf() && y.rows == p.rows && y.cols == p.cols,
            !if_train ==> final(self).mask is None && (r matches Ok(y) ==> forall|i: int, j: int|
                0 <= i < p.rows && 0 <= j < p.cols ==> #[trigger] y.at(i, j) == mul_bits(
                    p.at(i, j),
                    sub_bits(F_ONE, old(self).dropout_ratio),
                )),
            if_train ==> (final(self).mask matches Some(m) && m.wf() && m.rows == p.rows && m.cols
                == p.cols && (forall|i: int, j: int|
                0 <= i < p.rows && 0 <= j < p.cols ==> keep_from_sample(
                    old(self).dropout_ratio,
                    #[trigger] m.at(i, j),
                )) && (r matches Ok(y) ==> forall|i: int, j: int|
                0 <= i < p.rows && 0 <= j < p.cols ==> #[trigger] y.at(i, j) == (if m.at(i, j) {
                    p.at(i, j)
                } else {
                    F_ZERO
                }))),
    {
        if !if_train {
            self.mask = None;
            let keep = f_sub(F_ONE, self.dropout_ratio);
            return Ok(p.map_scalar(keep, crate::tensor::ScalarOp::Mul));
        }
        let ratio = self.dropout_ratio;
        let mut mdata: Vec<Vec<bool>> = Vec::new();
        let mut odata: Vec<Vec<u64>> = Vec::new();
        let mut i: usize = 0;
        while i < p.rows
            invariant
                i <= p.rows,
                p.wf(),
                mdata.len() == i,
                odata.len() == i,
                forall|a: int| 0 <= a < i ==> (#[trigger] mdata[a]).len() == p.cols,
                forall|a: int| 0 <= a < i ==> (#[trigger] odata[a]).len() == p.cols,
                forall|a: int, b: int|
                    0 <= a < i && 0 <= b < p.cols ==> keep_from_sample(
                        ratio,
                        #[trigger] mdata[a][b],
                    ),
                forall|a: int, b: int|
                    0 <= a < i && 0 <= b < p.cols ==> #[trigger] odata[a][b] == (if mdata[a][b] {
                        p.at(a, b)
                    } else {
                        F_ZERO
                    }),
            decreases p.rows - i,
        {
            let mut mrow: Vec<bool> = Vec::new();
            let mut orow: Vec<u64> = Vec::new();
            let mut j: usize = 0;
            while j < p.cols
                invariant
                    j <= p.cols,
                    i < p.rows,
                    p.wf(),
                    mrow.len() == j,
                    orow.len() == j,
                    forall|b: int| 0 <= b < j ==> keep_from_sample(ratio, #[trigger] mrow[b]),
                    forall|b: int|
                        0 <= b < j ==> #[trigger] orow[b] == (if mrow[b] {
                            p.at(i as int, b)
                        } else {
                            F_ZERO
                        }),
                decreases p.cols - j,
            {
                let s = f_uniform();
                let keep = f_lt_val(ratio, s);
                mrow.push(keep);
                orow.push(
                    if keep {
                        p.data[i][j]
                    } else {
                        F_ZERO
                    },
                );
                proof {
                    assert(uniform_outcome(s) && mrow[j as int] == f_val_lt(ratio, s));
                    assert(keep_from_sample(ratio, mrow[j as int]));
                }
                j += 1;
            }
            mdata.push(mrow);
            odata.push(orow);
            i += 1;
        }
        self.mask = Some(Mask { rows: p.rows, cols: p.cols, data: mdata });
        Ok(Tensor { rows: p.rows, cols: p.cols, data: odata })
    }

    /// Applies the cached keep-mask to the upstream gradient: zero where
    /// the forward pass dropped. Fails if the cached forward pass was
    /// evaluation mode or never ran (no mask), or on a shape mismatch.
    pub fn backward(&mut self, dout: &Tensor) -> (r: Result<Tensor, Error>)
        requires
            dout.wf(),
            old(self).wf(),
        ensures
            *final(self) == *old(self),
            r is Ok <==> (old(self).mask matches Some(m) && m.rows == dout.rows && m.cols
                == dout.cols),
            old(self).mask is None ==> r == Result::<Tensor, Error>::Err(
                Error::BackwardBeforeForward,
            ),
            old(self).mask is Some && r is Err ==> r == Result::<Tensor, Error>::Err(
                Error::ShapeMismatch,
            ),
            r matches Ok(g) ==> g.wf() && g.rows == dout.rows && g.cols == dout.cols && (old(
                self,
            ).mask matches Some(m) ==> forall|i: int, j: int|
                0 <= i < g.rows && 0 <= j < g.cols ==> #[trigger] g.at(i, j) == (if m.at(i, j) {
                    dout.at(i, j)
                } else {
                    F_ZERO
                })),
    {
        match &self.mask {
            None => Err(Error::BackwardBeforeForward),
            Some(m) => {
                if m.rows != dout.rows || m.cols != dout.cols {
                    Err(Error::ShapeMismatch)
                } else {
                    Ok(dout.keep_where(m))
                }
            },
        }
    }
}

/// The closed set of layer variants a network stacks. Dispatch is
/// exhaustive: adding a variant forces every protocol method to say what
/// it does for it.
pub enum Layer {
    Affine(Affine),
    Relu(Relu),
    Sigmoid(Sigmoid),
    Dropout(Dropout),
}

/// The two layers are the same variant with the same learnable state:
/// weights, bias row, learning rate and width for an affine layer, the
/// drop fraction for a dropout layer. Forward and backward passes touch
/// only caches, so they leave this relation reflexive; `update` is the
/// one step allowed to break it.
pub open spec fn same_params(a: Layer, b: Layer) -> bool {
    match a {
        Layer::Affine(x) => b matches Layer::Affine(y) && y.size == x.size && y.weights
            == x.weights && y.offsets == x.offsets && y.lr == x.lr,
        Layer::Relu(_) => b is Relu,
        Layer::Sigmoid(_) => b is Sigmoid,
        Layer::Dropout(x) => b matches Layer::Dropout(y) && y.dropout_ratio == x.dropout_ratio,
    }
}

/// What one forward step computes: `y` is what the layer `before` turns
/// the batch `x` into. A training-mode dropout layer's output is read off
/// the keep-mask that the pass cached, which lives in `after`, the layer
/// as the pass left it; every other case is a function of `before` and
/// `x` alone.
pub open spec fn forward_rel(before: Layer, after: Layer, x: Tensor, y: Tensor, if_train: bool) -> bool {
    &&& y.wf()
    &&& y.rows == x.rows
    &&& y.cols as int == before.out_cols(x.cols as int)
    &&& match before {
        Layer::Affine(a) => forall|i: int, j: int|
            0 <= i < y.rows && 0 <= j < y.cols ==> #[trigger] y.at(i, j) == add_bits(
                dot(x, a.weights, i, j, x.cols as int),
                a.offsets.at(0, j),
            ),
        Layer::Relu(_) => forall|i: int, j: int|
            0 <= i < y.rows && 0 <= j < y.cols ==> #[trigger] y.at(i, j)
                == super::common::relu_bits(x.at(i, j)),
        Layer::Sigmoid(_) => forall|i: int, j: int|
            0 <= i < y.rows && 0 <= j < y.cols ==> #[trigger] y.at(i, j)
                == super::common::sigmoid_bits(x.at(i, j)),
        Layer::Dropout(d) => if !if_train {
            forall|i: int, j: int|
                0 <= i < y.rows && 0 <= j < y.cols ==> #[trigger] y.at(i, j) == mul_bits(
                    x.at(i, j),
                    sub_bits(F_ONE, d.dropout_ratio),
                )
        } else {
            after matches Layer::Dropout(d2) && d2.mask matches Some(m) && m.rows == x.rows
                && m.cols == x.cols && (forall|i: int, j: int|
                0 <= i < x.rows && 0 <= j < x.cols ==> keep_from_sample(
                    d.dropout_ratio,
                    #[trigger] m.at(i, j),
                )) && (forall|i: int, j: int|
                0 <= i < y.rows && 0 <= j < y.cols ==> #[trigger] y.at(i, j) == (if m.at(i, j) {
                    x.at(i, j)
                } else {
                    F_ZERO
                }))
        },
    }
}

/// What one backward step computes, read off the layer `l` as the pass
/// left it: the returned gradient `g` for the upstream gradient `dout`,
/// and — for an affine layer — the parameter gradients now cached beside
/// the forward input they were derived from.
pub open spec fn backward_rel(l: Layer, dout: Tensor, g: Tensor) -> bool {
    &&& g.wf()
    &&& g.rows == dout.rows
    &&& g.cols as int == l.in_cols(dout.cols as int)
    &&& match l {
        Layer::Affine(a) => (forall|i: int, j: int|
            0 <= i < g.rows && 0 <= j < g.cols ==> #[trigger] g.at(i, j) == dot_nt(
                dout,
                a.weights,
                i,
                j,
                a.size as int,
            )) && ((a.input, a.dw, a.db) matches (Some(c), Some(d), Some(d2)) && d.rows == c.cols
            && d.cols == a.size && (forall|i: int, j: int|
            0 <= i < d.rows && 0 <= j < d.cols ==> #[trigger] d.at(i, j) == dot_tn(
                c,
                dout,
                i,
                j,
                c.rows as int,
            )) && d2.rows == 1 && d2.cols == a.size && (forall|j: int|
            0 <= j < d2.cols ==> #[trigger] d2.at(0, j) == col_sum(dout, j, dout.rows as int))),
        Layer::Relu(rl) => rl.mask matches Some(m) && forall|i: int, j: int|
            0 <= i < g.rows && 0 <= j < g.cols ==> #[trigger] g.at(i, j) == (if m.at(i, j) {
                F_ZERO
            } else {
                dout.at(i, j)
            }),
        Layer::Sigmoid(sg) => sg.output matches Some(s) && forall|i: int, j: int|
            0 <= i < g.rows && 0 <= j < g.cols ==> #[trigger] g.at(i, j) == mul_bits(
                mul_bits(dout.at(i, j), sub_bits(F_ONE, s.at(i, j))),
                s.at(i, j),
            ),
        Layer::Dropout(dr) => dr.mask matches Some(m) && forall|i: int, j: int|
            0 <= i < g.rows && 0 <= j < g.cols ==> #[trigger] g.at(i, j) == (if m.at(i, j) {
                dout.at(i, j)
            } else {
                F_ZERO
            }),
    }
}

impl Layer {
    pub open spec fn wf(self) -> bool {
        match self {
            Layer::Affine(a) => a.wf(),
            Layer::Relu(r) => r.wf(),
            Layer::Sigmoid(s) => s.wf(),
            Layer::Dropout(d) => d.wf(),
        }
    }

    /// The fixed width of the layer, if it has one: an affine layer maps
    /// `in` columns to `out` columns; the others keep the width they get.
    pub open spec fn shape_sig(self) -> Option<(int, int)> {
        match self {
            Layer::Affine(a) => Some((a.weights.rows as int, a.size as int)),
            _ => None,
        }
    }

    pub open spec fn is_dropout(self) -> bool {
        self matches Layer::Dropout(_)
    }

    /// Whether a forward pass on a batch of `cols` features succeeds.
    pub open spec fn fwd_ok(self, cols: int) -> bool {
        match self.shape_sig() {
            Some((ic, _)) => cols == ic,
            None => cols == cols,
        }
    }

    /// The width of what a forward pass on `cols` features returns.
    pub open spec fn out_cols(self, cols: int) -> int {
        match self.shape_sig() {
            Some((_, oc)) => oc,
            None => cols,
        }
    }

    /// The width a backward pass on `cols` columns returns: the inverse
    /// walk of `out_cols`.
    pub open spec fn in_cols(self, cols: int) -> int {
        match self.shape_sig() {
            Some((ic, _)) => ic,
            None => cols,
        }
    }

    /// Whether a backward pass on a gradient of shape `(n, c)` succeeds:
    /// the cache of a forward pass with batch `n` and output width `c` is
    /// present.
    pub open spec fn bwd_ok(self, n: int, c: int) -> bool {
        match self {
            Layer::Affine(a) => a.input matches Some(inp) && inp.rows == n && c == a.size,
            Layer::Relu(r) => r.mask matches Some(m) && m.rows == n && m.cols == c,
            Layer::Sigmoid(s) => s.output matches Some(o) && o.rows == n && o.cols == c,
            Layer::Dropout(d) => d.mask matches Some(m) && m.rows == n && m.cols == c,
        }
    }

    /// No forward pass is cached at all: backward must fail, whatever the
    /// gradient.
    pub open spec fn never_ready(self) -> bool {
        match self {
            Layer::Affine(a) => a.input is None,
            Layer::Relu(r) => r.mask is None,
            Layer::Sigmoid(s) => s.output is None,
            Layer::Dropout(d) => d.mask is None,
        }
    }

    /// Whether one update step succeeds: an affine layer needs both cached
    /// gradients; the parameterless layers always do.
    pub open spec fn upd_ok(self) -> bool {
        match self {
            Layer::Affine(a) => a.dw is Some && a.db is Some,
            _ => true,
        }
    }

    /// One forward step of the protocol. Success depends only on the
    /// width: exactly when the batch fits the layer. On success the output
    /// batch keeps its rows, gets the layer's output width, and the layer
    /// caches what its backward pass will need — except an evaluation-mode
    /// dropout, which stores no mask and cannot be backward-stepped.
    pub fn forward(&mut self, x: &Tensor, if_train: bool) -> (r: Result<Tensor, Error>)
        requires
            x.wf(),
            old(self).wf(),
        ensures
            final(self).wf(),
            final(self).shape_sig() == old(self).shape_sig(),
            final(self).is_dropout() == old(self).is_dropout(),
            r is Ok <==> old(self).fwd_ok(x.cols as int),
            r is Err ==> r == Result::<Tensor, Error>::Err(Error::ShapeMismatch) && *final(self) == *old(self),
            r matches Ok(y) ==> y.wf() && y.rows == x.rows && y.cols == old(self).out_cols(
                x.cols as int,
            ),
            r is Ok && (if_train || !old(self).is_dropout()) ==> final(self).bwd_ok(
                x.rows as int,
                old(self).out_cols(x.cols as int),
            ),
            !if_train && old(self).is_dropout() ==> final(self).never_ready(),
            same_params(*old(self), *final(self)),
            r matches Ok(y) ==> forward_rel(*old(self), *final(self), *x, y, if_train),
    {
        match self {
            Layer::Affine(a) => a.forward(x, if_train),
            Layer::Relu(r) => r.forward(x, if_train),
            Layer::Sigmoid(s) => s.forward(x, if_train),
            Layer::Dropout(d) => d.forward(x, if_train),
        }
    }

    /// One backward step of the protocol. Succeeds exactly when the cache
    /// of a matching forward pass is present; the returned gradient keeps
    /// its rows and gets the layer's input width, and an affine layer now
    /// holds both parameter gradients for `update`.
    pub fn backward(&mut self, dout: &Tensor) -> (r: Result<Tensor, Error>)
        requires
            dout.wf(),
            old(self).wf(),
        ensures
            final(self).wf(),
            final(self).shape_sig() == old(self).shape_sig(),
            final(self).is_dropout() == old(self).is_dropout(),
            r is Ok <==> old(self).bwd_ok(dout.rows as int, dout.cols as int),
            old(self).never_ready() ==> r == Result::<Tensor, Error>::Err(
                Error::BackwardBeforeForward,
            ),
            r is Err ==> *final(self) == *old(self),
            r is Ok ==> final(self).upd_ok() || !(old(self) matches Layer::Affine(_)),
            r is Ok && !(old(self) matches Layer::Affine(_)) ==> *final(self) == *old(self),
            r matches Ok(g) ==> g.wf() && g.rows == dout.rows && g.cols == old(self).in_cols(
                dout.cols as int,
            ),
            same_params(*old(self), *final(self)),
            r matches Ok(g) ==> backward_rel(*final(self), *dout, g),
    {
        match self {
            Layer::Affine(a) => a.backward(dout),
            Layer::Relu(r) => r.backward(dout),
            Layer::Sigmoid(s) => s.backward(dout),
            Layer::Dropout(d) => d.backward(dout),
        }
    }

    /// One update step of the protocol: a gradient-descent step for an
    /// affine layer, a no-op for the parameterless ones. Succeeds exactly
    /// when the gradients an affine layer needs are cached.
    pub fn update(&mut self) -> (r: Result<(), Error>)
        requires
            old(self).wf(),
        ensures
            final(self).wf(),
            final(self).shape_sig() == old(self).shape_sig(),
            final(self).is_dropout() == old(self).is_dropout(),
            r is Ok <==> old(self).upd_ok(),
            r is Err ==> r == Result::<(), Error>::Err(Error::BackwardBeforeForward) && *final(self) == *old(self),
            r is Ok ==> match *old(self) {
                Layer::Affine(a) => (*final(self)) matches Layer::Affine(b) && stepped(a, b),
                _ => *final(self) == *old(self),
            },
    {
        match self {
            Layer::Affine(a) => a.update(),
            Layer::Relu(_) => Ok(()),
            Layer::Sigmoid(_) => Ok(()),
            Layer::Dropout(_) => Ok(()),
        }
    }
}

/// Law: a training-mode dropout whose ratio is at least one keeps nothing —
/// every sample lies strictly below one, so no sample exceeds the ratio,
/// and the whole output batch is zero.
pub proof fn dropout_saturated_law(ratio: u64, m: Mask, p: Tensor, y: Tensor)
    requires
        f_val_le(F_ONE, ratio),
        m.rows == p.rows && m.cols == p.cols,
        forall|i: int, j: int|
            0 <= i < p.rows && 0 <= j < p.cols ==> keep_from_sample(ratio, #[trigger] m.at(i, j)),
        y.rows == p.rows && y.cols == p.cols,
        forall|i: int, j: int|
            0 <= i < p.rows && 0 <= j < p.cols ==> #[trigger] y.at(i, j) == (if m.at(i, j) {
                p.at(i, j)
            } else {
                F_ZERO
            }),
    ensures
        forall|i: int, j: int| 0 <= i < p.rows && 0 <= j < p.cols ==> !(#[trigger] m.at(i, j)),
        forall|i: int, j: int| 0 <= i < p.rows && 0 <= j < p.cols ==> #[trigger] y.at(i, j) == F_ZERO,
{
    assert forall|i: int, j: int| 0 <= i < p.rows && 0 <= j < p.cols implies !(#[trigger] m.at(
        i,
        j,
    )) by {
        let s = choose|s: u64| uniform_outcome(s) && m.at(i, j) == f_val_lt(ratio, s);
        lemma_val_order(s, F_ONE, ratio);
        lemma_val_order(s, ratio, ratio);
    }
}

} // verus!
