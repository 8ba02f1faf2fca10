//! The dense 2-D tensor that every layer consumes and produces, and the
//! axis reductions over it.
//!
//! A tensor is a row-major rectangle of binary64 bit patterns (see
//! `crate::scalar`). Shape bookkeeping, element placement and the order
//! used by `argmax` and `max` are verified in full; the rounded arithmetic
//! an element goes through is named through the uninterpreted functions of
//! `crate::scalar`.

use vstd::prelude::*;

use crate::Error;
use crate::scalar::{
    F_ZERO, add_bits, div_bits, f_add, f_div, f_lt_tot, f_mul, f_tot_lt,
    lemma_tot_le_lt_trans, mul_bits, sub_bits, f_sub,
};

verus! {

/// A 2-D array of binary64 bit patterns, shape `(rows, cols)`.
pub struct Tensor {
    pub rows: usize,
    pub cols: usize,
    pub data: Vec<Vec<u64>>,
}

/// A 2-D array of booleans, shape `(rows, cols)`: the record of which
/// positions a forward pass suppressed or kept.
pub struct Mask {
    pub rows: usize,
    pub cols: usize,
    pub data: Vec<Vec<bool>>,
}

impl Tensor {
    /// The rectangle invariant: as many stored rows as `rows`, each of
    /// exactly `cols` elements.
    pub open spec fn wf(self) -> bool {
        &&& self.data.len() == self.rows
        &&& forall|i: int| 0 <= i < self.data.len() ==> (#[trigger] self.data[i]).len() == self.cols
    }

    /// The element in row `i`, column `j`.
    pub open spec fn at(self, i: int, j: int) -> u64 {
        self.data[i][j]
    }

    /// Row `i` as a sequence.
    pub open spec fn row_seq(self, i: int) -> Seq<u64> {
        self.data[i]@
    }

    /// Column `j` as a sequence.
    pub open spec fn col_seq(self, j: int) -> Seq<u64> {
        Seq::new(self.rows as nat, |i: int| self.at(i, j))
    }

    /// Both dimensions agree with those of `other`.
    pub open spec fn same_shape(self, other: Tensor) -> bool {
        self.rows == other.rows && self.cols == other.cols
    }

    /// The same rectangle, element for element.
    pub open spec fn same_content(self, other: Tensor) -> bool {
        &&& self.rows == other.rows
        &&& self.cols == other.cols
        &&& forall|i: int, j: int|
            0 <= i < self.rows && 0 <= j < self.cols ==> #[trigger] self.at(i, j) == other.at(i, j)
    }

    /// A `rows` by `cols` tensor with every element `v`.
    pub fn filled(rows: usize, cols: usize, v: u64) -> (t: Tensor)
        ensures
            t.wf(),
            t.rows == rows,
            t.cols == cols,
            forall|i: int, j: int| 0 <= i < rows && 0 <= j < cols ==> #[trigger] t.at(i, j) == v,
    {
        let mut data: Vec<Vec<u64>> = Vec::new();
        let mut i: usize = 0;
        while i < rows
            invariant
                i <= rows,
                data.len() == i,
                forall|p: int| 0 <= p < i ==> (#[trigger] data[p]).len() == cols,
                forall|p: int, q: int| 0 <= p < i && 0 <= q < cols ==> #[trigger] data[p][q] == v,
            decreases rows - i,
        {
            let mut row: Vec<u64> = Vec::new();
            let mut j: usize = 0;
            while j < cols
                invariant
                    j <= cols,
                    row.len() == j,
                    forall|q: int| 0 <= q < j ==> #[trigger] row[q] == v,
                decreases cols - j,
            {
                row.push(v);
                j += 1;
            }
            data.push(row);
            i += 1;
        }
        Tensor { rows, cols, data }
    }

    /// Builds a tensor of the given shape from a flat row-major sequence,
    /// the explicit-shape constructor of the underlying array type. Fails
    /// exactly when the element count does not match the shape.
    pub fn from_vec(rows: usize, cols: usize, flat: Vec<u64>) -> (r: Result<Tensor, Error>)
        ensures
            r is Ok <==> flat.len() == rows * cols,
            r matches Ok(t) ==> {
                &&& t.wf()
                &&& t.rows == rows
                &&& t.cols == cols
                &&& forall|i: int, j: int|
                    0 <= i < rows && 0 <= j < cols ==> #[trigger] t.at(i, j) == flat[i * cols + j]
            },
            r matches Err(e) ==> e == Error::ShapeMismatch,
    {
        let total = match rows.checked_mul(cols) {
            Some(n) => n,
            None => {
                return Err(Error::ShapeMismatch);
            },
        };
        if flat.len() != total {
            return Err(Error::ShapeMismatch);
        }
        let mut data: Vec<Vec<u64>> = Vec::new();
        let mut i: usize = 0;
        let mut idx: usize = 0;
        while i < rows
            invariant
                i <= rows,
                idx == i * cols,
                flat.len() == rows * cols,
                data.len() == i,
                forall|p: int| 0 <= p < i ==> (#[trigger] data[p]).len() == cols,
                forall|p: int, q: int|
                    0 <= p < i && 0 <= q < cols ==> #[trigger] data[p][q] == flat[p * cols + q],
            decreases rows - i,
        {
            proof {
                assert((i + 1) * cols == i * cols + cols) by (nonlinear_arith);
                assert(i * cols + cols <= rows * cols) by (nonlinear_arith)
                    requires i < rows,
                ;
            }
            let mut row: Vec<u64> = Vec::new();
            let mut j: usize = 0;
            while j < cols
                invariant
                    j <= cols,
                    row.len() == j,
                    idx == i * cols,
                    i * cols + cols <= flat.len(),
                    forall|q: int| 0 <= q < j ==> #[trigger] row[q] == flat[i * cols + q],
                decreases cols - j,
            {
                row.push(flat[idx + j]);
                j += 1;
            }
            data.push(row);
            idx += cols;
            i += 1;
        }
        Ok(Tensor { rows, cols, data })
    }

    /// Reads one element.
    pub fn get(&self, i: usize, j: usize) -> (r: u64)
        requires
            self.wf(),
            i < self.rows,
            j < self.cols,
        ensures
            r == self.at(i as int, j as int),
    {
        self.data[i][j]
    }

    /// The rows `start..end`, in order.
    pub fn select_rows(&self, start: usize, end: usize) -> (r: Tensor)
        requires
            self.wf(),
            start <= end <= self.rows,
        ensures
            r.wf(),
            r.rows == end - start,
            r.cols == self.cols,
            forall|i: int, j: int|
                0 <= i < r.rows && 0 <= j < r.cols ==> #[trigger] r.at(i, j) == self.at(start + i, j),
    {
        let mut data: Vec<Vec<u64>> = Vec::new();
        let mut i: usize = start;
        while i < end
            invariant
                start <= i <= end <= self.rows,
                self.wf(),
                data.len() == i - start,
                forall|p: int| 0 <= p < data.len() ==> (#[trigger] data[p]).len() == self.cols,
                forall|p: int, q: int|
                    0 <= p < data.len() && 0 <= q < self.cols
                        ==> #[trigger] data[p][q] == self.at(start + p, q),
            decreases end - i,
        {
            let mut row: Vec<u64> = Vec::new();
            let mut j: usize = 0;
            while j < self.cols
                invariant
                    j <= self.cols,
                    i < self.rows,
                    self.wf(),
                    row.len() == j,
                    forall|q: int| 0 <= q < j ==> #[trigger] row[q] == self.at(i as int, q),
                decreases self.cols - j,
            {
                row.push(self.data[i][j]);
                j += 1;
            }
            data.push(row);
            i += 1;
        }
        Tensor { rows: end - start, cols: self.cols, data }
    }
    /// An element-for-element copy.
    pub fn duplicate(&self) -> (r: Tensor)
        requires
            self.wf(),
        ensures
            r.wf(),
            r.rows == self.rows,
            r.cols == self.cols,
            forall|i: int, j: int|
                0 <= i < r.rows && 0 <= j < r.cols ==> #[trigger] r.at(i, j) == self.at(i, j),
    {
        self.select_rows(0, self.rows)
    }

    /// The elementwise difference `self - other`.
    pub fn ew_sub(&self, other: &Tensor) -> (r: Tensor)
        requires
            self.wf(),
            other.wf(),
            self.same_shape(*other),
        ensures
            r.wf(),
            r.rows == self.rows,
            r.cols == self.cols,
            forall|i: int, j: int|
                0 <= i < r.rows && 0 <= j < r.cols ==> #[trigger] r.at(i, j) == sub_bits(
                    self.at(i, j),
                    other.at(i, j),
                ),
    {
        let mut data: Vec<Vec<u64>> = Vec::new();
        let mut i: usize = 0;
        while i < self.rows
            invariant
                i <= self.rows,
                self.wf(),
                other.wf(),
                self.same_shape(*other),
                data.len() == i,
                forall|p: int| 0 <= p < i ==> (#[trigger] data[p]).len() == self.cols,
                forall|p: int, q: int|
                    0 <= p < i && 0 <= q < self.cols ==> #[trigger] data[p][q] == sub_bits(
                        self.at(p, q),
                        other.at(p, q),
                    ),
            decreases self.rows - i,
        {
            let mut row: Vec<u64> = Vec::new();
            let mut j: usize = 0;
            while j < self.cols
                invariant
                    j <= self.cols,
                    i < self.rows,
                    self.wf(),
                    other.wf(),
                    self.same_shape(*other),
                    row.len() == j,
                    forall|q: int|
                        0 <= q < j ==> #[trigger] row[q] == sub_bits(
                            self.at(i as int, q),
                            other.at(i as int, q),
                        ),
                decreases self.cols - j,
            {
                row.push(f_sub(self.data[i][j], other.data[i][j]));
                j += 1;
            }
            data.push(row);
            i += 1;
        }
        Tensor { rows: self.rows, cols: self.cols, data }
    }

    /// The elementwise product `self * other`.
    pub fn ew_mul(&self, other: &Tensor) -> (r: Tensor)
        requires
            self.wf(),
            other.wf(),
            self.same_shape(*other),
        ensures
            r.wf(),
            r.rows == self.rows,
            r.cols == self.cols,
            forall|i: int, j: int|
                0 <= i < r.rows && 0 <= j < r.cols ==> #[trigger] r.at(i, j) == mul_bits(
                    self.at(i, j),
                    other.at(i, j),
                ),
    {
        let mut data: Vec<Vec<u64>> = Vec::new();
        let mut i: usize = 0;
        while i < self.rows
            invariant
                i <= self.rows,
                self.wf(),
                other.wf(),
                self.same_shape(*other),
                data.len() == i,
                forall|p: int| 0 <= p < i ==> (#[trigger] data[p]).len() == self.cols,
                forall|p: int, q: int|
                    0 <= p < i && 0 <= q < self.cols ==> #[trigger] data[p][q] == mul_bits(
                        self.at(p, q),
                        other.at(p, q),
                    ),
            decreases self.rows - i,
        {
            let mut row: Vec<u64> = Vec::new();
            let mut j: usize = 0;
            while j < self.cols
                invariant
                    j <= self.cols,
                    i < self.rows,
                    self.wf(),
                    other.wf(),
                    self.same_shape(*other),
                    row.len() == j,
                    forall|q: int|
                        0 <= q < j ==> #[trigger] row[q] == mul_bits(
                            self.at(i as int, q),
                            other.at(i as int, q),
                        ),
                decreases self.cols - j,
            {
                row.push(f_mul(self.data[i][j], other.data[i][j]));
                j += 1;
            }
            data.push(row);
            i += 1;
        }
        Tensor { rows: self.rows, cols: self.cols, data }
    }

    /// Every element combined with the scalar `s` on the right, by `op`:
    /// tensor-scalar sum, difference, product or quotient.
    pub fn map_scalar(&self, s: u64, op: ScalarOp) -> (r: Tensor)
        requires
            self.wf(),
        ensures
            r.wf(),
            r.rows == self.rows,
            r.cols == self.cols,
            forall|i: int, j: int|
                0 <= i < r.rows && 0 <= j < r.cols ==> #[trigger] r.at(i, j) == scalar_op_bits(
                    op,
                    self.at(i, j),
                    s,
                ),
    {
        let mut data: Vec<Vec<u64>> = Vec::new();
        let mut i: usize = 0;
        while i < self.rows
            invariant
                i <= self.rows,
                self.wf(),
                data.len() == i,
                forall|p: int| 0 <= p < i ==> (#[trigger] data[p]).len() == self.cols,
                forall|p: int, q: int|
                    0 <= p < i && 0 <= q < self.cols ==> #[trigger] data[p][q] == scalar_op_bits(
                        op,
                        self.at(p, q),
                        s,
                    ),
            decreases self.rows - i,
        {
            let mut row: Vec<u64> = Vec::new();
            let mut j: usize = 0;
            while j < self.cols
                invariant
                    j <= self.cols,
                    i < self.rows,
                    self.wf(),
                    row.len() == j,
                    forall|q: int|
                        0 <= q < j ==> #[trigger] row[q] == scalar_op_bits(
                            op,
                            self.at(i as int, q),
                            s,
                        ),
                decreases self.cols - j,
            {
                let v = self.data[i][j];
                let w = match op {
                    ScalarOp::Add => f_add(v, s),
                    ScalarOp::Sub => f_sub(v, s),
                    ScalarOp::Mul => f_mul(v, s),
                    ScalarOp::Div => f_div(v, s),
                };
                row.push(w);
                j += 1;
            }
            data.push(row);
            i += 1;
        }
        Tensor { rows: self.rows, cols: self.cols, data }
    }

    /// The scalar `s` combined with every element, `s` on the left.
    pub fn scale_from_left(&self, s: u64) -> (r: Tensor)
        requires
            self.wf(),
        ensures
            r.wf(),
            r.rows == self.rows,
            r.cols == self.cols,
            forall|i: int, j: int|
                0 <= i < r.rows && 0 <= j < r.cols ==> #[trigger] r.at(i, j) == mul_bits(
                    s,
                    self.at(i, j),
                ),
    {
        let mut data: Vec<Vec<u64>> = Vec::new();
        let mut i: usize = 0;
        while i < self.rows
            invariant
                i <= self.rows,
                self.wf(),
                data.len() == i,
                forall|p: int| 0 <= p < i ==> (#[trigger] data[p]).len() == self.cols,
                forall|p: int, q: int|
                    0 <= p < i && 0 <= q < self.cols ==> #[trigger] data[p][q] == mul_bits(
                        s,
                        self.at(p, q),
                    ),
            decreases self.rows - i,
        {
            let mut row: Vec<u64> = Vec::new();
            let mut j: usize = 0;
            while j < self.cols
                invariant
                    j <= self.cols,
                    i < self.rows,
                    self.wf(),
                    row.len() == j,
                    forall|q: int|
                        0 <= q < j ==> #[trigger] row[q] == mul_bits(s, self.at(i as int, q)),
                decreases self.cols - j,
            {
                row.push(f_mul(s, self.data[i][j]));
                j += 1;
            }
            data.push(row);
            i += 1;
        }
        Tensor { rows: self.rows, cols: self.cols, data }
    }

    /// The scalar `s` minus every element, `s` on the left.
    pub fn sub_from_left(&self, s: u64) -> (r: Tensor)
        requires
            self.wf(),
        ensures
            r.wf(),
            r.rows == self.rows,
            r.cols == self.cols,
            forall|i: int, j: int|
                0 <= i < r.rows && 0 <= j < r.cols ==> #[trigger] r.at(i, j) == sub_bits(
                    s,
                    self.at(i, j),
                ),
    {
        let mut data: Vec<Vec<u64>> = Vec::new();
        let mut i: usize = 0;
        while i < self.rows
            invariant
                i <= self.rows,
                self.wf(),
                data.len() == i,
                forall|p: int| 0 <= p < i ==> (#[trigger] data[p]).len() == self.cols,
                forall|p: int, q: int|
                    0 <= p < i && 0 <= q < self.cols ==> #[trigger] data[p][q] == sub_bits(
                        s,
                        self.at(p, q),
                    ),
            decreases self.rows - i,
        {
            let mut row: Vec<u64> = Vec::new();
            let mut j: usize = 0;
            while j < self.cols
                invariant
                    j <= self.cols,
                    i < self.rows,
                    self.wf(),
                    row.len() == j,
                    forall|q: int|
                        0 <= q < j ==> #[trigger] row[q] == sub_bits(s, self.at(i as int, q)),
                decreases self.cols - j,
            {
                row.push(f_sub(s, self.data[i][j]));
                j += 1;
            }
            data.push(row);
            i += 1;
        }
        Tensor { rows: self.rows, cols: self.cols, data }
    }

    /// The single row `b` added to every row: the broadcast a bias row goes
    /// through.
    pub fn add_row(&self, b: &Tensor) -> (r: Tensor)
        requires
            self.wf(),
            b.wf(),
            b.rows == 1,
            b.cols == self.cols,
        ensures
            r.wf(),
            r.rows == self.rows,
            r.cols == self.cols,
            forall|i: int, j: int|
                0 <= i < r.rows && 0 <= j < r.cols ==> #[trigger] r.at(i, j) == add_bits(
                    self.at(i, j),
                    b.at(0, j),
                ),
    {
        let mut data: Vec<Vec<u64>> = Vec::new();
        let mut i: usize = 0;
        while i < self.rows
            invariant
                i <= self.rows,
                self.wf(),
                b.wf(),
                b.rows == 1,
                b.cols == self.cols,
                data.len() == i,
                forall|p: int| 0 <= p < i ==> (#[trigger] data[p]).len() == self.cols,
                forall|p: int, q: int|
                    0 <= p < i && 0 <= q < self.cols ==> #[trigger] data[p][q] == add_bits(
                        self.at(p, q),
                        b.at(0, q),
                    ),
            decreases self.rows - i,
        {
            let mut row: Vec<u64> = Vec::new();
            let mut j: usize = 0;
            while j < self.cols
                invariant
                    j <= self.cols,
                    i < self.rows,
                    self.wf(),
                    b.wf(),
                    b.rows == 1,
                    b.cols == self.cols,
                    row.len() == j,
                    forall|q: int|
                        0 <= q < j ==> #[trigger] row[q] == add_bits(
                            self.at(i as int, q),
                            b.at(0, q),
                        ),
                decreases self.cols - j,
            {
                row.push(f_add(self.data[i][j], b.data[0][j]));
                j += 1;
            }
            data.push(row);
            i += 1;
        }
        Tensor { rows: self.rows, cols: self.cols, data }
    }

    /// The transpose: element `(i, j)` of the result is element `(j, i)` of
    /// `self`.
    pub fn transpose(&self) -> (r: Tensor)
        requires
            self.wf(),
        ensures
            r.wf(),
            r.rows == self.cols,
            r.cols == self.rows,
            forall|i: int, j: int|
                0 <= i < r.rows && 0 <= j < r.cols ==> #[trigger] r.at(i, j) == self.at(j, i),
    {
        let mut data: Vec<Vec<u64>> = Vec::new();
        let mut i: usize = 0;
        while i < self.cols
            invariant
                i <= self.cols,
                self.wf(),
                data.len() == i,
                forall|p: int| 0 <= p < i ==> (#[trigger] data[p]).len() == self.rows,
                forall|p: int, q: int|
                    0 <= p < i && 0 <= q < self.rows ==> #[trigger] data[p][q] == self.at(q, p),
            decreases self.cols - i,
        {
            let mut row: Vec<u64> = Vec::new();
            let mut j: usize = 0;
            while j < self.rows
                invariant
                    j <= self.rows,
                    i < self.cols,
                    self.wf(),
                    row.len() == j,
                    forall|q: int| 0 <= q < j ==> #[trigger] row[q] == self.at(q, i as int),
                decreases self.rows - j,
            {
                row.push(self.data[j][i]);
                j += 1;
            }
            data.push(row);
            i += 1;
        }
        Tensor { rows: self.cols, cols: self.rows, data }
    }

    /// The matrix product `self . other`. Fails exactly when the inner
    /// dimensions disagree; element `(i, j)` of the result is the left fold
    /// `dot` over the inner dimension.
    pub fn matmul(&self, other: &Tensor) -> (r: Result<Tensor, Error>)
        requires
            self.wf(),
            other.wf(),
        ensures
            r is Ok <==> self.cols == other.rows,
            r matches Err(e) ==> e == Error::ShapeMismatch,
            r matches Ok(t) ==> t.wf() && t.rows == self.rows && t.cols == other.cols && forall|
                i: int,
                j: int,
            |
                0 <= i < t.rows && 0 <= j < t.cols ==> #[trigger] t.at(i, j) == dot(
                    *self,
                    *other,
                    i,
                    j,
                    self.cols as int,
                ),
    {
        if self.cols != other.rows {
            return Err(Error::ShapeMismatch);
        }
        let mut data: Vec<Vec<u64>> = Vec::new();
        let mut i: usize = 0;
        while i < self.rows
            invariant
                i <= self.rows,
                self.wf(),
                other.wf(),
                self.cols == other.rows,
                data.len() == i,
                forall|p: int| 0 <= p < i ==> (#[trigger] data[p]).len() == other.cols,
                forall|p: int, q: int|
                    0 <= p < i && 0 <= q < other.cols ==> #[trigger] data[p][q] == dot(
                        *self,
                        *other,
                        p,
                        q,
                        self.cols as int,
                    ),
            decreases self.rows - i,
        {
            let mut row: Vec<u64> = Vec::new();
            let mut j: usize = 0;
            while j < other.cols
                invariant
                    j <= other.cols,
                    i < self.rows,
                    self.wf(),
                    other.wf(),
                    self.cols == other.rows,
                    row.len() == j,
                    forall|q: int|
                        0 <= q < j ==> #[trigger] row[q] == dot(
                            *self,
                            *other,
                            i as int,
                            q,
                            self.cols as int,
                        ),
                decreases other.cols - j,
            {
                let mut acc: u64 = F_ZERO;
                let mut p: usize = 0;
                while p < self.cols
                    invariant
                        p <= self.cols,
                        i < self.rows,
                        j < other.cols,
                        self.wf(),
                        other.wf(),
                        self.cols == other.rows,
                        acc == dot(*self, *other, i as int, j as int, p as int),
                    decreases self.cols - p,
                {
                    acc = f_add(acc, f_mul(self.data[i][p], other.data[p][j]));
                    p += 1;
                }
                row.push(acc);
                j += 1;
            }
            data.push(row);
            i += 1;
        }
        Ok(Tensor { rows: self.rows, cols: other.cols, data })
    }

    /// The column sums, as a single row: the reduction a bias gradient goes
    /// through.
    pub fn sum_axis0(&self) -> (r: Tensor)
        requires
            self.wf(),
        ensures
            r.wf(),
            r.rows == 1,
            r.cols == self.cols,
            forall|j: int|
                0 <= j < r.cols ==> #[trigger] r.at(0, j) == col_sum(*self, j, self.rows as int),
    {
        let mut row: Vec<u64> = Vec::new();
        let mut j: usize = 0;
        while j < self.cols
            invariant
                j <= self.cols,
                self.wf(),
                row.len() == j,
                forall|q: int|
                    0 <= q < j ==> #[trigger] row[q] == col_sum(*self, q, self.rows as int),
            decreases self.cols - j,
        {
            let mut acc: u64 = F_ZERO;
            let mut p: usize = 0;
            while p < self.rows
                invariant
                    p <= self.rows,
                    j < self.cols,
                    self.wf(),
                    acc == col_sum(*self, j as int, p as int),
                decreases self.rows - p,
            {
                acc = f_add(acc, self.data[p][j]);
                p += 1;
            }
            row.push(acc);
            j += 1;
        }
        let cols = row.len();
        Tensor { rows: 1, cols, data: vec![row] }
    }

    /// Every element where the mask is true replaced by +0.0: how a relu
    /// gradient is suppressed.
    pub fn zero_where(&self, m: &Mask) -> (r: Tensor)
        requires
            self.wf(),
            m.wf(),
            self.rows == m.rows,
            self.cols == m.cols,
        ensures
            r.wf(),
            r.rows == self.rows,
            r.cols == self.cols,
            forall|i: int, j: int|
                0 <= i < r.rows && 0 <= j < r.cols ==> #[trigger] r.at(i, j) == (if m.at(i, j) {
                    F_ZERO
                } else {
                    self.at(i, j)
                }),
    {
        let mut data: Vec<Vec<u64>> = Vec::new();
        let mut i: usize = 0;
        while i < self.rows
            invariant
                i <= self.rows,
                self.wf(),
                m.wf(),
                self.rows == m.rows,
                self.cols == m.cols,
                data.len() == i,
                forall|p: int| 0 <= p < i ==> (#[trigger] data[p]).len() == self.cols,
                forall|p: int, q: int|
                    0 <= p < i && 0 <= q < self.cols ==> #[trigger] data[p][q] == (if m.at(p, q) {
                        F_ZERO
                    } else {
                        self.at(p, q)
                    }),
            decreases self.rows - i,
        {
            let mut row: Vec<u64> = Vec::new();
            let mut j: usize = 0;
            while j < self.cols
                invariant
                    j <= self.cols,
                    i < self.rows,
                    self.wf(),
                    m.wf(),
                    self.rows == m.rows,
                    self.cols == m.cols,
                    row.len() == j,
                    forall|q: int|
                        0 <= q < j ==> #[trigger] row[q] == (if m.at(i as int, q) {
                            F_ZERO
                        } else {
                            self.at(i as int, q)
                        }),
                decreases self.cols - j,
            {
                let v = if m.data[i][j] {
                    F_ZERO
                } else {
                    self.data[i][j]
                };
                row.push(v);
                j += 1;
            }
            data.push(row);
            i += 1;
        }
        Tensor { rows: self.rows, cols: self.cols, data }
    }

    /// Every element where the mask is false replaced by +0.0: how a dropout
    /// keep-mask is applied.
    pub fn keep_where(&self, m: &Mask) -> (r: Tensor)
        requires
            self.wf(),
            m.wf(),
            self.rows == m.rows,
            self.cols == m.cols,
        ensures
            r.wf(),
            r.rows == self.rows,
            r.cols == self.cols,
            forall|i: int, j: int|
                0 <= i < r.rows && 0 <= j < r.cols ==> #[trigger] r.at(i, j) == (if m.at(i, j) {
                    self.at(i, j)
                } else {
                    F_ZERO
                }),
    {
        let mut data: Vec<Vec<u64>> = Vec::new();
        let mut i: usize = 0;
        while i < self.rows
            invariant
                i <= self.rows,
                self.wf(),
                m.wf(),
                self.rows == m.rows,
                self.cols == m.cols,
                data.len() == i,
                forall|p: int| 0 <= p < i ==> (#[trigger] data[p]).len() == self.cols,
                forall|p: int, q: int|
                    0 <= p < i && 0 <= q < self.cols ==> #[trigger] data[p][q] == (if m.at(p, q) {
                        self.at(p, q)
                    } else {
                        F_ZERO
                    }),
            decreases self.rows - i,
        {
            let mut row: Vec<u64> = Vec::new();
            let mut j: usize = 0;
            while j < self.cols
                invariant
                    j <= self.cols,
                    i < self.rows,
                    self.wf(),
                    m.wf(),
                    self.rows == m.rows,
                    self.cols == m.cols,
                    row.len() == j,
                    forall|q: int|
                        0 <= q < j ==> #[trigger] row[q] == (if m.at(i as int, q) {
                            self.at(i as int, q)
                        } else {
                            F_ZERO
                        }),
                decreases self.cols - j,
            {
                let v = if m.data[i][j] {
                    self.data[i][j]
                } else {
                    F_ZERO
                };
                row.push(v);
                j += 1;
            }
            data.push(row);
            i += 1;
        }
        Tensor { rows: self.rows, cols: self.cols, data }
    }
}

/// Which scalar combination `map_scalar` applies, the scalar standing on
/// the right.
#[derive(Clone, Copy, PartialEq, Eq, Structural)]
pub enum ScalarOp {
    Add,
    Sub,
    Mul,
    Div,
}

/// The bits `map_scalar` produces for one element `a` and the scalar `s`.
pub open spec fn scalar_op_bits(op: ScalarOp, a: u64, s: u64) -> u64 {
    match op {
        ScalarOp::Add => add_bits(a, s),
        ScalarOp::Sub => sub_bits(a, s),
        ScalarOp::Mul => mul_bits(a, s),
        ScalarOp::Div => div_bits(a, s),
    }
}

impl Mask {
    pub open spec fn wf(self) -> bool {
        &&& self.data.len() == self.rows
        &&& forall|i: int| 0 <= i < self.data.len() ==> (#[trigger] self.data[i]).len() == self.cols
    }

    pub open spec fn at(self, i: int, j: int) -> bool {
        self.data[i][j]
    }
}

/// The left fold the matrix product accumulates for element `(i, j)`:
/// partial sums of `a[i, p] * b[p, j]` for `p < k`, starting from +0.0.
pub open spec fn dot(a: Tensor, b: Tensor, i: int, j: int, k: int) -> u64
    decreases k,
{
    if k <= 0 {
        F_ZERO
    } else {
        add_bits(dot(a, b, i, j, k - 1), mul_bits(a.at(i, k - 1), b.at(k - 1, j)))
    }
}

/// The left fold of column `j`: partial sums of `a[p, j]` for `p < k`,
/// starting from +0.0.
pub open spec fn col_sum(a: Tensor, j: int, k: int) -> u64
    decreases k,
{
    if k <= 0 {
        F_ZERO
    } else {
        add_bits(col_sum(a, j, k - 1), a.at(k - 1, j))
    }
}

/// `k` is the index the reductions pick in `s`: the first position of the
/// maximum under the total order with NaN greatest.
pub open spec fn first_max_in(s: Seq<u64>, k: int) -> bool {
    &&& 0 <= k < s.len()
    &&& forall|j: int| 0 <= j < s.len() ==> !f_tot_lt(s[k], #[trigger] s[j])
    &&& forall|j: int| 0 <= j < k ==> f_tot_lt(#[trigger] s[j], s[k])
}

/// The value the left-to-right scan for a maximum holds after `k` elements
/// of a non-empty sequence: the first maximum of `s[..k]` under the total
/// order, since the scan replaces only on strict improvement.
pub open spec fn scan_max(s: Seq<u64>, k: int) -> u64
    decreases k,
{
    if k <= 1 {
        s[0]
    } else if f_tot_lt(scan_max(s, k - 1), s[k - 1]) {
        s[k - 1]
    } else {
        scan_max(s, k - 1)
    }
}

/// The maximum of a non-empty vector under the total order, as `scan_max`
/// picks it.
pub fn seq_max_val(row: &Vec<u64>) -> (v: u64)
    requires
        row.len() >= 1,
    ensures
        v == scan_max(row@, row@.len() as int),
{
    let mut best: u64 = row[0];
    let mut j: usize = 1;
    while j < row.len()
        invariant
            1 <= j <= row.len(),
            best == scan_max(row@, j as int),
        decreases row.len() - j,
    {
        if f_lt_tot(best, row[j]) {
            best = row[j];
        }
        j += 1;
    }
    best
}

/// `v` is the value `s` holds at the index the reductions pick.
pub open spec fn picked_max(s: Seq<u64>, v: u64) -> bool {
    exists|k: int| #[trigger] first_max_in(s, k) && v == s[k]
}

/// There is at most one first maximum, so the index the reductions pick
/// is a function of the sequence.
pub proof fn lemma_first_max_unique(s: Seq<u64>, k1: int, k2: int)
    requires
        first_max_in(s, k1),
        first_max_in(s, k2),
    ensures
        k1 == k2,
{
    if k1 < k2 {
        assert(f_tot_lt(s[k1], s[k2]));
        assert(!f_tot_lt(s[k1], s[k2]));
    } else if k2 < k1 {
        assert(f_tot_lt(s[k2], s[k1]));
        assert(!f_tot_lt(s[k2], s[k1]));
    }
}

/// The index `argmax` picks in `s`, as a spec-level function: meaningful
/// exactly where a first maximum exists, and then unique.
pub open spec fn first_max_idx(s: Seq<u64>) -> int {
    choose|k: int| first_max_in(s, k)
}

/// The scan all reductions share: the first index of the maximum of a
/// non-empty sequence, replacing the best only on strict improvement.
fn seq_argmax(row: &Vec<u64>) -> (k: usize)
    requires
        row.len() >= 1,
    ensures
        first_max_in(row@, k as int),
{
    let mut best: usize = 0;
    let mut j: usize = 1;
    while j < row.len()
        invariant
            1 <= j <= row.len(),
            best < j,
            forall|q: int| 0 <= q < j ==> !f_tot_lt(row@[best as int], #[trigger] row@[q]),
            forall|q: int| 0 <= q < best ==> f_tot_lt(#[trigger] row@[q], row@[best as int]),
        decreases row.len() - j,
    {
        if f_lt_tot(row[best], row[j]) {
            proof {
                assert forall|q: int| 0 <= q < j implies f_tot_lt(#[trigger] row@[q], row@[j as int]) by {
                    lemma_tot_le_lt_trans(row@[best as int], row@[q], row@[j as int]);
                }
            }
            best = j;
        }
        j += 1;
    }
    best
}

/// Column `j` copied out as a vector.
fn column_of(t: &Tensor, j: usize) -> (col: Vec<u64>)
    requires
        t.wf(),
        j < t.cols,
    ensures
        col@ == t.col_seq(j as int),
{
    let mut col: Vec<u64> = Vec::new();
    let mut i: usize = 0;
    while i < t.rows
        invariant
            i <= t.rows,
            t.wf(),
            j < t.cols,
            col.len() == i,
            forall|p: int| 0 <= p < i ==> #[trigger] col[p] == t.at(p, j as int),
        decreases t.rows - i,
    {
        col.push(t.data[i][j]);
        i += 1;
    }
    proof {
        assert(col@ =~= t.col_seq(j as int));
    }
    col
}

/// The index of the first maximum along the chosen axis: per column for
/// axis 0, per row for axis 1. NaN sorts above every value, and ties keep
/// the lowest index, because the scan only replaces on strict improvement.
/// An axis other than 0 or 1 is an `InvalidAxis` error; an empty scan line
/// (no rows for axis 0, no columns for axis 1) is a `ShapeMismatch` error.
pub fn argmax(tensor: &Tensor, axis: usize) -> (r: Result<Vec<usize>, Error>)
    requires
        tensor.wf(),
    ensures
        r is Ok <==> (axis == 0 && (tensor.cols == 0 || tensor.rows >= 1)) || (axis == 1
            && (tensor.rows == 0 || tensor.cols >= 1)),
        axis >= 2 ==> r == Result::<Vec<usize>, Error>::Err(Error::InvalidAxis),
        axis < 2 && r is Err ==> r == Result::<Vec<usize>, Error>::Err(Error::ShapeMismatch),
        axis == 0 ==> (r matches Ok(v) ==> v.len() == tensor.cols && forall|j: int|
            0 <= j < tensor.cols ==> first_max_in(tensor.col_seq(j), #[trigger] v[j] as int)),
        axis == 1 ==> (r matches Ok(v) ==> v.len() == tensor.rows && forall|i: int|
            0 <= i < tensor.rows ==> first_max_in(tensor.row_seq(i), #[trigger] v[i] as int)),
{
    if axis >= 2 {
        return Err(Error::InvalidAxis);
    }
    if axis == 0 {
        if tensor.cols > 0 && tensor.rows == 0 {
            return Err(Error::ShapeMismatch);
        }
        let mut out: Vec<usize> = Vec::new();
        let mut j: usize = 0;
        while j < tensor.cols
            invariant
                j <= tensor.cols,
                tensor.wf(),
                tensor.cols > 0 ==> tensor.rows >= 1,
                out.len() == j,
                forall|q: int| 0 <= q < j ==> first_max_in(tensor.col_seq(q), #[trigger] out[q] as int),
            decreases tensor.cols - j,
        {
            let col = column_of(tensor, j);
            out.push(seq_argmax(&col));
            j += 1;
        }
        Ok(out)
    } else {
        if tensor.rows > 0 && tensor.cols == 0 {
            return Err(Error::ShapeMismatch);
        }
        let mut out: Vec<usize> = Vec::new();
        let mut i: usize = 0;
        while i < tensor.rows
            invariant
                i <= tensor.rows,
                tensor.wf(),
                tensor.rows > 0 ==> tensor.cols >= 1,
                out.len() == i,
                forall|q: int| 0 <= q < i ==> first_max_in(tensor.row_seq(q), #[trigger] out[q] as int),
            decreases tensor.rows - i,
        {
            out.push(seq_argmax(&tensor.data[i]));
            i += 1;
        }
        Ok(out)
    }
}

/// The value at the index `argmax` picks, along the chosen axis, returned
/// as a single-row tensor. Same order and same error taxonomy as `argmax`.
pub fn max(tensor: &Tensor, axis: usize) -> (r: Result<Tensor, Error>)
    requires
        tensor.wf(),
    ensures
        r is Ok <==> (axis == 0 && (tensor.cols == 0 || tensor.rows >= 1)) || (axis == 1
            && (tensor.rows == 0 || tensor.cols >= 1)),
        axis >= 2 ==> r == Result::<Tensor, Error>::Err(Error::InvalidAxis),
        axis < 2 && r is Err ==> r == Result::<Tensor, Error>::Err(Error::ShapeMismatch),
        axis == 0 ==> (r matches Ok(m) ==> m.wf() && m.rows == 1 && m.cols == tensor.cols
            && forall|j: int|
                0 <= j < tensor.cols ==> picked_max(tensor.col_seq(j), #[trigger] m.at(0, j))),
        axis == 1 ==> (r matches Ok(m) ==> m.wf() && m.rows == 1 && m.cols == tensor.rows
            && forall|i: int|
                0 <= i < tensor.rows ==> picked_max(tensor.row_seq(i), #[trigger] m.at(0, i))),
{
    if axis >= 2 {
        return Err(Error::InvalidAxis);
    }
    if axis == 0 {
        if tensor.cols > 0 && tensor.rows == 0 {
            return Err(Error::ShapeMismatch);
        }
        let mut out: Vec<u64> = Vec::new();
        let mut j: usize = 0;
        while j < tensor.cols
            invariant
                j <= tensor.cols,
                tensor.wf(),
                tensor.cols > 0 ==> tensor.rows >= 1,
                out.len() == j,
                forall|q: int| 0 <= q < j ==> picked_max(tensor.col_seq(q), #[trigger] out[q]),
            decreases tensor.cols - j,
        {
            let col = column_of(tensor, j);
            let k = seq_argmax(&col);
            out.push(col[k]);
            proof {
                assert(first_max_in(tensor.col_seq(j as int), k as int) && out[j as int]
                    == tensor.col_seq(j as int)[k as int]);
                assert(picked_max(tensor.col_seq(j as int), out[j as int]));
            }
            j += 1;
        }
        let cols = out.len();
        Ok(Tensor { rows: 1, cols, data: vec![out] })
    } else {
        if tensor.rows > 0 && tensor.cols == 0 {
            return Err(Error::ShapeMismatch);
        }
        let mut out: Vec<u64> = Vec::new();
        let mut i: usize = 0;
        while i < tensor.rows
            invariant
                i <= tensor.rows,
                tensor.wf(),
                tensor.rows > 0 ==> tensor.cols >= 1,
                out.len() == i,
                forall|q: int| 0 <= q < i ==> picked_max(tensor.row_seq(q), #[trigger] out[q]),
            decreases tensor.rows - i,
        {
            let k = seq_argmax(&tensor.data[i]);
            out.push(tensor.data[i][k]);
            proof {
                assert(first_max_in(tensor.row_seq(i as int), k as int) && out[i as int]
                    == tensor.row_seq(i as int)[k as int]);
                assert(picked_max(tensor.row_seq(i as int), out[i as int]));
            }
            i += 1;
        }
        let cols = out.len();
        Ok(Tensor { rows: 1, cols, data: vec![out] })
    }
}

} // verus!
