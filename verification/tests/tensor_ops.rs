//! Tensor construction, arithmetic, reductions and the scalar order.

use std::cmp::Ordering;

use nufish_core::Error;
use nufish_core::scalar::{f_cos, f_exp, f_from_u32, f_ln, f_sqrt, f_uniform};
use nufish_core::tensor::{ScalarOp, Tensor, argmax, max};
use nufish_core::layers::util::{cmp_enumerate_f64, cmp_f64};

fn t(rows: usize, cols: usize, vals: &[f64]) -> Tensor {
    let bits: Vec<u64> = vals.iter().map(|v| v.to_bits()).collect();
    Tensor::from_vec(rows, cols, bits).unwrap()
}

fn g(t: &Tensor, i: usize, j: usize) -> f64 {
    f64::from_bits(t.get(i, j))
}

#[test]
fn from_vec_checks_the_element_count() {
    let r = Tensor::from_vec(2, 3, vec![0u64; 5]);
    assert!(matches!(r, Err(Error::ShapeMismatch)));
    let ok = Tensor::from_vec(2, 3, vec![0u64; 6]).unwrap();
    assert_eq!(ok.rows, 2);
    assert_eq!(ok.cols, 3);
}

#[test]
fn matmul_matches_a_hand_computed_product() {
    let a = t(2, 2, &[1.0, 2.0, 3.0, 4.0]);
    let b = t(2, 2, &[5.0, 6.0, 7.0, 8.0]);
    let c = a.matmul(&b).unwrap();
    assert_eq!(g(&c, 0, 0), 19.0);
    assert_eq!(g(&c, 0, 1), 22.0);
    assert_eq!(g(&c, 1, 0), 43.0);
    assert_eq!(g(&c, 1, 1), 50.0);
}

#[test]
fn matmul_rejects_mismatched_inner_dimensions() {
    let a = t(2, 3, &[0.0; 6]);
    let b = t(2, 2, &[0.0; 4]);
    assert!(matches!(a.matmul(&b), Err(Error::ShapeMismatch)));
}

#[test]
fn transpose_and_column_sums() {
    let a = t(2, 3, &[1.0, 2.0, 3.0, 4.0, 5.0, 6.0]);
    let at = a.transpose();
    assert_eq!(at.rows, 3);
    assert_eq!(at.cols, 2);
    assert_eq!(g(&at, 2, 1), 6.0);
    let s = a.sum_axis0();
    assert_eq!(s.rows, 1);
    assert_eq!(g(&s, 0, 0), 5.0);
    assert_eq!(g(&s, 0, 1), 7.0);
    assert_eq!(g(&s, 0, 2), 9.0);
}

#[test]
fn select_rows_takes_a_consecutive_slice() {
    let a = t(3, 2, &[1.0, 2.0, 3.0, 4.0, 5.0, 6.0]);
    let b = a.select_rows(1, 3);
    assert_eq!(b.rows, 2);
    assert_eq!(g(&b, 0, 0), 3.0);
    assert_eq!(g(&b, 1, 1), 6.0);
}

#[test]
fn argmax_breaks_ties_by_the_first_maximum() {
    let a = t(1, 3, &[1.0, 1.0, 0.5]);
    let idx = argmax(&a, 1).unwrap();
    assert_eq!(idx, vec![0]);
}

#[test]
fn argmax_treats_nan_as_the_maximum() {
    let a = t(1, 4, &[1.0, f64::NAN, 7.0, 2.0]);
    let idx = argmax(&a, 1).unwrap();
    assert_eq!(idx, vec![1]);
}

#[test]
fn argmax_works_down_columns_too() {
    let a = t(2, 2, &[1.0, 9.0, 5.0, 2.0]);
    let idx = argmax(&a, 0).unwrap();
    assert_eq!(idx, vec![1, 0]);
}

#[test]
fn invalid_axis_is_an_explicit_error() {
    let a = t(1, 2, &[1.0, 2.0]);
    assert!(matches!(argmax(&a, 2), Err(Error::InvalidAxis)));
    assert!(matches!(argmax(&a, 7), Err(Error::InvalidAxis)));
    assert!(matches!(max(&a, 2), Err(Error::InvalidAxis)));
}

#[test]
fn max_picks_the_value_at_the_first_maximum() {
    let a = t(2, 3, &[1.0, 5.0, 5.0, -2.0, -1.0, -3.0]);
    let m = max(&a, 1).unwrap();
    assert_eq!(m.rows, 1);
    assert_eq!(g(&m, 0, 0), 5.0);
    assert_eq!(g(&m, 0, 1), -1.0);
}

#[test]
fn cmp_f64_orders_values_with_nan_greatest() {
    let b = |v: f64| v.to_bits();
    assert_eq!(cmp_f64(b(1.0), b(2.0)), Ordering::Less);
    assert_eq!(cmp_f64(b(2.0), b(1.0)), Ordering::Greater);
    assert_eq!(cmp_f64(b(-1.0), b(1.0)), Ordering::Less);
    assert_eq!(cmp_f64(b(-1.0), b(-3.0)), Ordering::Greater);
    assert_eq!(cmp_f64(b(0.0), b(-0.0)), Ordering::Equal);
    assert_eq!(cmp_f64(b(f64::NAN), b(1e300)), Ordering::Greater);
    assert_eq!(cmp_f64(b(1e300), b(f64::NAN)), Ordering::Less);
    assert_eq!(cmp_f64(b(f64::NAN), b(f64::NAN)), Ordering::Equal);
    assert_eq!(cmp_enumerate_f64((0, b(3.0)), (5, b(3.0))), Ordering::Equal);
}

#[test]
fn trusted_scalar_wrappers_match_the_host_arithmetic() {
    assert_eq!(f64::from_bits(f_exp(0.5f64.to_bits())), 0.5f64.exp());
    assert_eq!(f64::from_bits(f_ln(0.3f64.to_bits())), 0.3f64.ln());
    assert_eq!(f64::from_bits(f_sqrt(9.0f64.to_bits())), 3.0);
    assert_eq!(f64::from_bits(f_cos(0.0f64.to_bits())), 1.0);
    assert_eq!(f_from_u32(7), 7.0f64.to_bits());
    assert_eq!(f_from_u32(0), 0.0f64.to_bits());
    for _ in 0..32 {
        let u = f64::from_bits(f_uniform());
        assert!((0.0..1.0).contains(&u));
    }
}

#[test]
fn elementwise_and_scalar_operations() {
    let a = t(1, 3, &[1.0, 2.0, 3.0]);
    let b = t(1, 3, &[0.5, 0.25, 2.0]);
    let d = a.ew_sub(&b);
    assert_eq!(g(&d, 0, 0), 0.5);
    let m = a.ew_mul(&b);
    assert_eq!(g(&m, 0, 2), 6.0);
    let q = a.map_scalar(2.0f64.to_bits(), ScalarOp::Div);
    assert_eq!(g(&q, 0, 1), 1.0);
    let s = a.map_scalar(0.5f64.to_bits(), ScalarOp::Add);
    assert_eq!(g(&s, 0, 0), 1.5);
    let row = t(1, 3, &[10.0, 20.0, 30.0]);
    let added = a.add_row(&row);
    assert_eq!(g(&added, 0, 2), 33.0);
}
