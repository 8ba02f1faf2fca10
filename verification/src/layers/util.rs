//! Small tensor factories and the comparison the reductions order by.

use vstd::prelude::*;

use core::cmp::Ordering;

use crate::scalar::{
    F_NEG_TWO, F_ONE, F_TWO_PI, F_ZERO, cos_bits, f_cos, f_ln, f_lt_tot, f_mul, f_sqrt, f_sub,
    f_tot_eq, f_tot_lt, f_uniform, lemma_tot_trichotomy, ln_bits, mul_bits, sqrt_bits, sub_bits,
    uniform_outcome,
};
use crate::tensor::Tensor;

verus! {

/// A `row` by `col` tensor of zeros.
pub fn zeros(row: usize, col: usize) -> (t: Tensor)
    ensures
        t.wf(),
        t.rows == row,
        t.cols == col,
        forall|i: int, j: int| 0 <= i < row && 0 <= j < col ==> #[trigger] t.at(i, j) == F_ZERO,
{
    Tensor::filled(row, col, F_ZERO)
}

/// The bits one Box-Muller transform produces from two uniform draws:
/// sqrt(-2 ln(1 - u)) * cos(2 pi v), composed of the named rounded
/// operations exactly as the sampler computes it (`1 - u` keeps the
/// logarithm's argument away from zero).
pub open spec fn box_muller_bits(u: u64, v: u64) -> u64 {
    mul_bits(
        sqrt_bits(mul_bits(F_NEG_TWO, ln_bits(sub_bits(F_ONE, u)))),
        cos_bits(mul_bits(F_TWO_PI, v)),
    )
}

/// The value is one variate of this sampler: the Box-Muller transform of
/// some pair of uniform draws from [0, 1). Which pair is random.
pub open spec fn normal_outcome(z: u64) -> bool {
    exists|u: u64, v: u64|
        uniform_outcome(u) && uniform_outcome(v) && z == #[trigger] box_muller_bits(u, v)
}

/// One standard normal variate, drawn by the Box-Muller transform from two
/// fresh uniform samples.
fn normal_sample() -> (r: u64)
    ensures
        normal_outcome(r),
{
    let u = f_uniform();
    let v = f_uniform();
    let u1 = f_sub(F_ONE, u);
    let radius = f_sqrt(f_mul(F_NEG_TWO, f_ln(u1)));
    let angle = f_mul(F_TWO_PI, v);
    let z = f_mul(radius, f_cos(angle));
    proof {
        assert(z == box_muller_bits(u, v));
        assert(normal_outcome(z));
    }
    z
}

/// A `row` by `col` tensor of independent standard normal variates.
pub fn randn2(row: usize, col: usize) -> (t: Tensor)
    ensures
        t.wf(),
        t.rows == row,
        t.cols == col,
        forall|i: int, j: int|
            0 <= i < row && 0 <= j < col ==> normal_outcome(#[trigger] t.at(i, j)),
{
    let mut data: Vec<Vec<u64>> = Vec::new();
    let mut i: usize = 0;
    while i < row
        invariant
            i <= row,
            data.len() == i,
            forall|p: int| 0 <= p < i ==> (#[trigger] data[p]).len() == col,
            forall|p: int, q: int|
                0 <= p < i && 0 <= q < col ==> normal_outcome(#[trigger] data[p][q]),
        decreases row - i,
    {
        let mut r: Vec<u64> = Vec::new();
        let mut j: usize = 0;
        while j < col
            invariant
                j <= col,
                r.len() == j,
                forall|q: int| 0 <= q < j ==> normal_outcome(#[trigger] r[q]),
            decreases col - j,
        {
            r.push(normal_sample());
            j += 1;
        }
        data.push(r);
        i += 1;
    }
    Tensor { rows: row, cols: col, data }
}

/// A vector of `col` independent standard normal variates.
pub fn randn1(col: usize) -> (r: Vec<u64>)
    ensures
        r.len() == col,
        forall|q: int| 0 <= q < col ==> normal_outcome(#[trigger] r[q]),
{
    let mut r: Vec<u64> = Vec::new();
    let mut j: usize = 0;
    while j < col
        invariant
            j <= col,
            r.len() == j,
            forall|q: int| 0 <= q < j ==> normal_outcome(#[trigger] r[q]),
        decreases col - j,
    {
        r.push(normal_sample());
        j += 1;
    }
    r
}

/// The total order on scalars that every reduction uses: values in their
/// usual order, the two zeros equal, and NaN above everything (all NaNs
/// tied), so that ties and NaNs break deterministically.
pub fn cmp_f64(a: u64, b: u64) -> (r: Ordering)
    ensures
        r == Ordering::Less <==> f_tot_lt(a, b),
        r == Ordering::Greater <==> f_tot_lt(b, a),
        r == Ordering::Equal <==> f_tot_eq(a, b),
{
    proof {
        lemma_tot_trichotomy(a, b);
    }
    if f_lt_tot(a, b) {
        Ordering::Less
    } else if f_lt_tot(b, a) {
        Ordering::Greater
    } else {
        Ordering::Equal
    }
}

/// The same total order on index-value pairs, by the value alone: what a
/// scan over an enumerated row compares.
pub fn cmp_enumerate_f64(a: (usize, u64), b: (usize, u64)) -> (r: Ordering)
    ensures
        r == Ordering::Less <==> f_tot_lt(a.1, b.1),
        r == Ordering::Greater <==> f_tot_lt(b.1, a.1),
        r == Ordering::Equal <==> f_tot_eq(a.1, b.1),
{
    cmp_f64(a.1, b.1)
}

} // verus!
