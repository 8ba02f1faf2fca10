//! The activation and loss primitives every layer builds on: elementwise
//! relu and sigmoid, the row-wise softmax, and the batch-mean cross-entropy.

use vstd::prelude::*;

use crate::scalar::{
    F_ONE, F_TINY, F_ZERO, add_bits, div_bits, exp_bits, f_add, f_div, f_exp, f_from_u32, f_le_val,
    f_ln, f_lt_val, f_mul, f_neg, f_sub, f_val_le, f_val_lt, ln_bits, mul_bits, neg_bits, sub_bits,
    u32_bits,
};
use crate::tensor::{Tensor, scan_max, seq_max_val};

verus! {

/// What relu returns for one element: the element where it is strictly
/// positive, +0.0 everywhere else (so also for -0.0 and for NaN, as the
/// maximum of a value and zero does).
pub open spec fn relu_bits(x: u64) -> u64 {
    if f_val_lt(F_ZERO, x) {
        x
    } else {
        F_ZERO
    }
}

/// What the relu suppression mask records for one element: the element is
/// at most zero (false for NaN, which relu nevertheless maps to zero).
pub open spec fn relu_mask_bits(x: u64) -> bool {
    f_val_le(x, F_ZERO)
}

/// What sigmoid returns for one element: 1 / (1 + e^(-x)), composed of the
/// named rounded operations exactly as the code computes it.
pub open spec fn sigmoid_bits(x: u64) -> u64 {
    div_bits(F_ONE, add_bits(F_ONE, exp_bits(neg_bits(x))))
}

/// Elementwise relu of one scalar.
pub fn relu(x: u64) -> (r: u64)
    ensures
        r == relu_bits(x),
{
    if f_lt_val(F_ZERO, x) {
        x
    } else {
        F_ZERO
    }
}

/// Elementwise sigmoid of one scalar.
pub fn sigmoid(x: u64) -> (r: u64)
    ensures
        r == sigmoid_bits(x),
{
    f_div(F_ONE, f_add(F_ONE, f_exp(f_neg(x))))
}

/// The suppression mask relu caches for one scalar.
pub fn relu_mask(x: u64) -> (r: bool)
    ensures
        r == relu_mask_bits(x),
{
    f_le_val(x, F_ZERO)
}

/// The numerator softmax gives element `j` of row `s`: e^(s[j] - m) with
/// `m` the row maximum, the shift that keeps the exponent small.
pub open spec fn row_shift_exp(s: Seq<u64>, j: int) -> u64 {
    exp_bits(sub_bits(s[j], scan_max(s, s.len() as int)))
}

/// The left fold of the shifted exponentials of row `s` over its first `k`
/// elements: the softmax denominator at `k == s.len()`.
pub open spec fn row_exp_sum(s: Seq<u64>, k: int) -> u64
    decreases k,
{
    if k <= 0 {
        F_ZERO
    } else {
        add_bits(row_exp_sum(s, k - 1), row_shift_exp(s, k - 1))
    }
}

/// Element `j` of the softmax of row `s`.
pub open spec fn softmax_row_at(s: Seq<u64>, j: int) -> u64 {
    div_bits(row_shift_exp(s, j), row_exp_sum(s, s.len() as int))
}

/// The row-wise softmax of a batch: every output element is its row's
/// shifted exponential over the row's sum of shifted exponentials. A row
/// needs a maximum, so a batch with rows must have at least one column.
pub fn softmax(x: &Tensor) -> (y: Tensor)
    requires
        x.wf(),
        x.rows > 0 ==> x.cols > 0,
    ensures
        y.wf(),
        y.rows == x.rows,
        y.cols == x.cols,
        forall|i: int, j: int|
            0 <= i < y.rows && 0 <= j < y.cols ==> #[trigger] y.at(i, j) == softmax_row_at(
                x.row_seq(i),
                j,
            ),
{
    let mut data: Vec<Vec<u64>> = Vec::new();
    let mut i: usize = 0;
    while i < x.rows
        invariant
            i <= x.rows,
            x.wf(),
            x.rows > 0 ==> x.cols > 0,
            data.len() == i,
            forall|p: int| 0 <= p < i ==> (#[trigger] data[p]).len() == x.cols,
            forall|p: int, q: int|
                0 <= p < i && 0 <= q < x.cols ==> #[trigger] data[p][q] == softmax_row_at(
                    x.row_seq(p),
                    q,
                ),
        decreases x.rows - i,
    {
        let m = seq_max_val(&x.data[i]);
        let ghost rs = x.row_seq(i as int);
        let mut shifted: Vec<u64> = Vec::new();
        let mut j: usize = 0;
        while j < x.cols
            invariant
                j <= x.cols,
                i < x.rows,
                x.wf(),
                m == scan_max(rs, rs.len() as int),
                rs == x.row_seq(i as int),
                rs.len() == x.cols,
                shifted.len() == j,
                forall|q: int| 0 <= q < j ==> #[trigger] shifted[q] == row_shift_exp(rs, q),
            decreases x.cols - j,
        {
            shifted.push(f_exp(f_sub(x.data[i][j], m)));
            j += 1;
        }
        let mut denom: u64 = F_ZERO;
        let mut p: usize = 0;
        while p < x.cols
            invariant
                p <= x.cols,
                shifted.len() == x.cols,
                forall|q: int| 0 <= q < x.cols ==> #[trigger] shifted[q] == row_shift_exp(rs, q),
                denom == row_exp_sum(rs, p as int),
            decreases x.cols - p,
        {
            denom = f_add(denom, shifted[p]);
            p += 1;
        }
        let mut out: Vec<u64> = Vec::new();
        let mut q: usize = 0;
        while q < x.cols
            invariant
                q <= x.cols,
                shifted.len() == x.cols,
                forall|t: int| 0 <= t < x.cols ==> #[trigger] shifted[t] == row_shift_exp(rs, t),
                denom == row_exp_sum(rs, rs.len() as int),
                rs.len() == x.cols,
                out.len() == q,
                forall|t: int| 0 <= t < q ==> #[trigger] out[t] == softmax_row_at(rs, t),
            decreases x.cols - q,
        {
            out.push(f_div(shifted[q], denom));
            q += 1;
        }
        data.push(out);
        i += 1;
    }
    Tensor { rows: x.rows, cols: x.cols, data }
}

/// One term of the cross-entropy sum: t[i, j] * ln(y[i, j] + 1e-7).
pub open spec fn ce_cell(y: Tensor, t: Tensor, i: int, j: int) -> u64 {
    mul_bits(t.at(i, j), ln_bits(add_bits(y.at(i, j), F_TINY)))
}

/// The left fold of the cross-entropy terms of row `i` over its first `k`
/// columns.
pub open spec fn ce_row(y: Tensor, t: Tensor, i: int, k: int) -> u64
    decreases k,
{
    if k <= 0 {
        F_ZERO
    } else {
        add_bits(ce_row(y, t, i, k - 1), ce_cell(y, t, i, k - 1))
    }
}

/// The left fold of the per-row cross-entropy sums over the first `k` rows.
pub open spec fn ce_total(y: Tensor, t: Tensor, k: int) -> u64
    decreases k,
{
    if k <= 0 {
        F_ZERO
    } else {
        add_bits(ce_total(y, t, k - 1), ce_row(y, t, k - 1, y.cols as int))
    }
}

/// The batch-mean cross-entropy: the negated sum of all terms, divided by
/// the number of rows.
pub open spec fn cross_entropy_bits(y: Tensor, t: Tensor) -> u64 {
    div_bits(neg_bits(ce_total(y, t, y.rows as int)), u32_bits(y.rows as u32))
}

/// The batch-mean cross-entropy of predictions `y` against one-hot targets
/// `t`: the mean over rows of -sum(t * ln(y + 1e-7)). Shape agreement is
/// the caller's invariant, as it is for every elementwise combination.
pub fn cross_entropy_error(y: &Tensor, t: &Tensor) -> (r: u64)
    requires
        y.wf(),
        t.wf(),
        y.same_shape(*t),
        y.rows <= u32::MAX,
    ensures
        r == cross_entropy_bits(*y, *t),
{
    let mut total: u64 = F_ZERO;
    let mut i: usize = 0;
    while i < y.rows
        invariant
            i <= y.rows,
            y.wf(),
            t.wf(),
            y.same_shape(*t),
            total == ce_total(*y, *t, i as int),
        decreases y.rows - i,
    {
        let mut acc: u64 = F_ZERO;
        let mut j: usize = 0;
        while j < y.cols
            invariant
                j <= y.cols,
                i < y.rows,
                y.wf(),
                t.wf(),
                y.same_shape(*t),
                acc == ce_row(*y, *t, i as int, j as int),
            decreases y.cols - j,
        {
            acc = f_add(acc, f_mul(t.data[i][j], f_ln(f_add(y.data[i][j], F_TINY))));
            j += 1;
        }
        total = f_add(total, acc);
        i += 1;
    }
    f_div(f_neg(total), f_from_u32(y.rows as u32))
}

} // verus!
