use neurust::linalg::broadcast::{
    get_padded_broadcast_shapes, get_slice_len, BroadcastIterator,
};
use neurust::linalg::matmul::{
    check_matrix_product_shapes, general_matmul_2d_matrix_slices, matmul_2d_matrix_slices,
};
use neurust::linalg::utils::{
    are_arrays_near_equal, are_numbers_near_equal, check_reduce_axis, check_shape_positive,
    check_shapes_broadcast, check_shapes_broadcast_matmul, element_count,
    get_shape_after_broadcast, get_shape_after_broadcast_matmul, get_shape_after_reduce,
    transpose_2d_matrix_slices,
};
use neurust::{Array, Numeric, ShapeError};

#[derive(Clone, Copy, Debug, PartialEq)]
struct R(f64);

impl Numeric for R {
    fn zero() -> Self {
        R(0.0)
    }

    fn zero_spec() -> Self {
        R(0.0)
    }

    fn one() -> Self {
        R(1.0)
    }

    fn one_spec() -> Self {
        R(1.0)
    }

    fn from_usize(n: usize) -> Self {
        R(n as f64)
    }

    fn from_usize_spec(n: usize) -> Self {
        R(n as f64)
    }

    fn min_positive_value() -> Self {
        R(f64::MIN_POSITIVE)
    }

    fn min_positive_value_spec() -> Self {
        R(f64::MIN_POSITIVE)
    }

    fn max_value() -> Self {
        R(f64::MAX)
    }

    fn max_value_spec() -> Self {
        R(f64::MAX)
    }

    fn add(self, rhs: Self) -> Self {
        R(self.0 + rhs.0)
    }

    fn add_spec(self, rhs: Self) -> Self {
        R(self.0 + rhs.0)
    }

    fn sub(self, rhs: Self) -> Self {
        R(self.0 - rhs.0)
    }

    fn sub_spec(self, rhs: Self) -> Self {
        R(self.0 - rhs.0)
    }

    fn mul(self, rhs: Self) -> Self {
        R(self.0 * rhs.0)
    }

    fn mul_spec(self, rhs: Self) -> Self {
        R(self.0 * rhs.0)
    }

    fn div(self, rhs: Self) -> Self {
        R(self.0 / rhs.0)
    }

    fn div_spec(self, rhs: Self) -> Self {
        R(self.0 / rhs.0)
    }

    fn max(self, other: Self) -> Self {
        R(self.0.max(other.0))
    }

    fn max_spec(self, other: Self) -> Self {
        R(self.0.max(other.0))
    }

    fn min(self, other: Self) -> Self {
        R(self.0.min(other.0))
    }

    fn min_spec(self, other: Self) -> Self {
        R(self.0.min(other.0))
    }

    fn powf(self, exponent: Self) -> Self {
        R(self.0.powf(exponent.0))
    }

    fn powf_spec(self, exponent: Self) -> Self {
        R(self.0.powf(exponent.0))
    }

    fn log(self, base: Self) -> Self {
        R(self.0.log(base.0))
    }

    fn log_spec(self, base: Self) -> Self {
        R(self.0.log(base.0))
    }

    fn neg(self) -> Self {
        R(-self.0)
    }

    fn neg_spec(self) -> Self {
        R(-self.0)
    }

    fn abs(self) -> Self {
        R(self.0.abs())
    }

    fn abs_spec(self) -> Self {
        R(self.0.abs())
    }

    fn sin(self) -> Self {
        R(self.0.sin())
    }

    fn sin_spec(self) -> Self {
        R(self.0.sin())
    }

    fn cos(self) -> Self {
        R(self.0.cos())
    }

    fn cos_spec(self) -> Self {
        R(self.0.cos())
    }

    fn tanh(self) -> Self {
        R(self.0.tanh())
    }

    fn tanh_spec(self) -> Self {
        R(self.0.tanh())
    }

    fn ln(self) -> Self {
        R(self.0.ln())
    }

    fn ln_spec(self) -> Self {
        R(self.0.ln())
    }

    fn exp(self) -> Self {
        R(self.0.exp())
    }

    fn exp_spec(self) -> Self {
        R(self.0.exp())
    }

    fn equals(self, other: Self) -> bool {
        self.0 == other.0
    }

    fn equals_spec(self, other: Self) -> bool {
        self.0 == other.0
    }

    fn less_than(self, other: Self) -> bool {
        self.0 < other.0
    }

    fn less_than_spec(self, other: Self) -> bool {
        self.0 < other.0
    }

}

fn array(data: &[f64], shape: &[usize]) -> Array<R> {
    Array::from_vec(data.iter().map(|x| R(*x)).collect(), shape.to_vec()).unwrap()
}

fn full(value: f64, shape: &[usize]) -> Array<R> {
    Array::new(R(value), shape.to_vec()).unwrap()
}

fn values(data: &[f64]) -> Vec<R> {
    data.iter().map(|x| R(*x)).collect()
}

#[test]
fn test_check_shape_positive() {
    let shape = vec![1, 2, 3];

    assert_eq!(check_shape_positive(&shape), Ok(()));
}

#[test]
fn test_check_shape_positive_empty() {
    let shape = vec![];

    assert_eq!(check_shape_positive(&shape), Ok(()));
}

#[test]
fn test_check_shape_positive_panic() {
    let shape = vec![1, 0, 3];

    assert_eq!(check_shape_positive(&shape), Err(ShapeError::ZeroDimension));
}

#[test]
fn test_transpose_2d_matrix_slices() {
    let a = values(&[1.0, 2.0, 3.0, 4.0, 5.0, 6.0]);
    let mut output_buff = values(&[0.0; 6]);

    assert_eq!(transpose_2d_matrix_slices(&a, 2, 3, &mut output_buff), Ok(()));

    assert_eq!(output_buff, values(&[1.0, 4.0, 2.0, 5.0, 3.0, 6.0]));
}

#[test]
fn test_transpose_2d_matrix_slices_output_wrong_length() {
    let a = values(&[1.0, 2.0, 3.0, 4.0, 5.0, 6.0]);
    let mut output_buff = values(&[0.0; 5]);

    assert_eq!(
        transpose_2d_matrix_slices(&a, 2, 3, &mut output_buff),
        Err(ShapeError::LengthMismatch)
    );
    assert_eq!(output_buff, values(&[0.0; 5]));
}

#[test]
fn test_transpose_2d_matrix_slices_input_wrong_length() {
    let a = values(&[1.0, 2.0, 3.0, 4.0, 5.0, 6.0]);
    let mut output_buff = values(&[0.0; 6]);

    assert_eq!(
        transpose_2d_matrix_slices(&a, 2, 4, &mut output_buff),
        Err(ShapeError::LengthMismatch)
    );
}

#[test]
fn test_are_numbers_near_equal() {
    assert!(are_numbers_near_equal(R(1.), R(1.), R(1e-7)));
    assert!(are_numbers_near_equal(R(0.), R(0.), R(1e-7)));
    assert!(!are_numbers_near_equal(R(0.001), R(0.), R(1e-7)));
    assert!(are_numbers_near_equal(R(10.0000001), R(10.000000000001), R(1e-7)));
}

#[test]
fn test_are_numbers_near_equal_far_apart() {
    assert!(!are_numbers_near_equal(R(1.), R(1.5), R(1e-7)));
    assert!(are_numbers_near_equal(R(1.), R(1.000000001), R(1e-7)));
}

#[test]
fn test_are_arrays_near_equal() {
    assert!(!are_arrays_near_equal(
        &array(&[1., 2., 3., 4.], &[2, 2]),
        &array(&[1., 2.001, 3., 4.], &[2, 2]),
        R(1e-7)
    ));
    assert!(are_arrays_near_equal(
        &array(&[1., 2., 3., 4.], &[2, 2]),
        &array(&[1., 2.0000000001, 3., 4.], &[2, 2]),
        R(1e-7)
    ));
    assert!(!are_arrays_near_equal(
        &array(&[1., 2., 3., 4.], &[2, 2]),
        &array(&[1., 2., 3., 4.], &[4]),
        R(1e-7)
    ));
}

#[test]
fn test_are_arrays_rel_eq_panics() {
    let a = array(&[0., 0., 1., 1.], &[2, 2]);
    let b = array(&[0., 0.000001, 1., 1.], &[2, 2]);

    assert!(!are_arrays_near_equal(&a, &b, R(1e-7)));
}

#[test]
fn test_get_shape_after_reduce() {
    assert_eq!(Ok(vec![2, 2]), get_shape_after_reduce(&[2, 3, 2], Some(1), false));
    assert_eq!(Ok(vec![2, 1, 2]), get_shape_after_reduce(&[2, 3, 2], Some(1), true));
    assert_eq!(Ok(vec![3, 2]), get_shape_after_reduce(&[2, 3, 2], Some(0), false));
    assert_eq!(Ok(vec![2, 3]), get_shape_after_reduce(&[2, 3, 2], Some(2), false));
    assert_eq!(Ok(vec![1]), get_shape_after_reduce(&[2, 3, 2], None, false));
    assert_eq!(Ok(vec![1, 1, 1]), get_shape_after_reduce(&[2, 3, 2], None, true));
}

#[test]
fn test_get_shape_after_reduce_wrong_axis() {
    assert_eq!(Err(ShapeError::Axis), get_shape_after_reduce(&[2, 3, 2], Some(3), false));
    assert_eq!(Err(ShapeError::Axis), check_reduce_axis(&[2, 3, 2], Some(3)));
    assert_eq!(Ok(()), check_reduce_axis(&[2, 3, 2], Some(2)));
    assert_eq!(Ok(()), check_reduce_axis(&[], None));
}

#[test]
fn test_check_shapes_broadcast() {
    assert_eq!(check_shapes_broadcast(&[2, 2, 3], &[2, 2, 3]), Ok(()));
    assert_eq!(check_shapes_broadcast(&[1], &[2, 3, 2]), Ok(()));
    assert_eq!(check_shapes_broadcast(&[1, 1, 1], &[2, 3, 2]), Ok(()));
    assert_eq!(check_shapes_broadcast(&[3, 1, 1], &[1, 3, 2]), Ok(()));
}

#[test]
fn test_check_shapes_broadcast_wrong_last_dim() {
    assert_eq!(check_shapes_broadcast(&[2, 2, 2], &[2, 2, 3]), Err(ShapeError::Broadcast));
}

#[test]
fn test_check_shapes_broadcast_matmul() {
    assert_eq!(check_shapes_broadcast_matmul(&[2, 2, 3], &[2, 3, 2]), Ok(()));
    assert_eq!(check_shapes_broadcast_matmul(&[1, 2, 3], &[2, 3, 2]), Ok(()));
    assert_eq!(check_shapes_broadcast_matmul(&[2, 2, 3], &[1, 3, 2]), Ok(()));
    assert_eq!(check_shapes_broadcast_matmul(&[2, 3], &[7, 3, 2]), Ok(()));
    assert_eq!(check_shapes_broadcast_matmul(&[2, 2, 3], &[3, 2]), Ok(()));
    assert_eq!(check_shapes_broadcast_matmul(&[3, 2, 2, 3], &[3, 1, 3, 2]), Ok(()));
    assert_eq!(check_shapes_broadcast_matmul(&[1, 5, 2, 3], &[3, 1, 3, 2]), Ok(()));
}

#[test]
fn test_check_shapes_broadcast_matmul_wrong_last_dims() {
    assert_eq!(
        check_shapes_broadcast_matmul(&[2, 2, 2], &[2, 3, 2]),
        Err(ShapeError::MatMul)
    );
}

#[test]
fn test_check_shapes_broadcast_matmul_wrong_broadcast() {
    assert_eq!(
        check_shapes_broadcast_matmul(&[2, 2, 3], &[3, 3, 2]),
        Err(ShapeError::Broadcast)
    );
}

#[test]
fn test_check_shapes_broadcast_matmul_too_short_first() {
    assert_eq!(check_shapes_broadcast_matmul(&[3], &[3, 2]), Err(ShapeError::MatMul));
}

#[test]
fn test_check_shapes_broadcast_matmul_too_short_second() {
    assert_eq!(check_shapes_broadcast_matmul(&[3, 2], &[2]), Err(ShapeError::MatMul));
}

#[test]
fn test_get_shape_after_broadcast() {
    assert_eq!(get_shape_after_broadcast(&[3, 5, 2], &[3, 5, 2]), Ok(vec![3, 5, 2]));
    assert_eq!(get_shape_after_broadcast(&[3, 5, 2], &[5, 2]), Ok(vec![3, 5, 2]));
    assert_eq!(get_shape_after_broadcast(&[5, 2], &[3, 5, 2]), Ok(vec![3, 5, 2]));
    assert_eq!(get_shape_after_broadcast(&[3, 5, 2], &[1, 5, 2]), Ok(vec![3, 5, 2]));
    assert_eq!(get_shape_after_broadcast(&[3, 1, 2], &[3, 5, 2]), Ok(vec![3, 5, 2]));
    assert_eq!(get_shape_after_broadcast(&[3, 5, 2], &[3, 5, 1]), Ok(vec![3, 5, 2]));
    assert_eq!(get_shape_after_broadcast(&[3, 5, 1], &[3, 5, 1]), Ok(vec![3, 5, 1]));
    assert_eq!(get_shape_after_broadcast(&[3, 1], &[1, 3]), Ok(vec![3, 3]));
}

#[test]
fn test_get_shape_after_broadcast_incompatible() {
    assert_eq!(get_shape_after_broadcast(&[3, 5, 2], &[4, 2]), Err(ShapeError::Broadcast));
}

#[test]
fn test_get_shape_after_broadcast_matmul() {
    assert_eq!(
        get_shape_after_broadcast_matmul(&[3, 5, 2, 3, 2], &[3, 5, 2, 2, 3]),
        Ok(vec![3, 5, 2, 3, 3])
    );
    assert_eq!(
        get_shape_after_broadcast_matmul(&[3, 5, 2, 3, 2], &[5, 2, 2, 3]),
        Ok(vec![3, 5, 2, 3, 3])
    );
    assert_eq!(
        get_shape_after_broadcast_matmul(&[5, 2, 3, 2], &[3, 5, 2, 2, 3]),
        Ok(vec![3, 5, 2, 3, 3])
    );
    assert_eq!(
        get_shape_after_broadcast_matmul(&[3, 5, 2, 3, 2], &[1, 5, 2, 2, 3]),
        Ok(vec![3, 5, 2, 3, 3])
    );
    assert_eq!(
        get_shape_after_broadcast_matmul(&[3, 1, 2, 3, 2], &[3, 5, 2, 2, 3]),
        Ok(vec![3, 5, 2, 3, 3])
    );
    assert_eq!(
        get_shape_after_broadcast_matmul(&[3, 5, 2, 3, 2], &[3, 5, 1, 2, 3]),
        Ok(vec![3, 5, 2, 3, 3])
    );
    assert_eq!(
        get_shape_after_broadcast_matmul(&[3, 5, 1, 3, 2], &[3, 5, 1, 2, 3]),
        Ok(vec![3, 5, 1, 3, 3])
    );
    assert_eq!(
        get_shape_after_broadcast_matmul(&[3, 1, 3, 2], &[1, 3, 2, 3]),
        Ok(vec![3, 3, 3, 3])
    );
}

#[test]
fn test_get_shape_after_broadcast_wrong_matrix_shape() {
    assert_eq!(
        get_shape_after_broadcast_matmul(&[3, 5, 2, 3, 2], &[3, 5, 2, 3, 3]),
        Err(ShapeError::MatMul)
    );
}

#[test]
fn test_element_count() {
    assert_eq!(element_count(&[2, 3, 4]), Ok(24));
    assert_eq!(element_count(&[]), Ok(1));
    assert_eq!(element_count(&[usize::MAX, 2]), Err(ShapeError::TooLarge));
}

#[test]
fn test_broadcast_iterator_new() {
    let a = full(1., &[3, 1, 2, 4, 5]);
    let b = full(1., &[3, 5, 1, 4, 5]);

    let iter = BroadcastIterator::new(&a, &b, 2).unwrap();

    assert_eq!(iter.broadcast_shape1(), vec![3, 1, 2]);
    assert_eq!(iter.broadcast_shape2(), vec![3, 5, 1]);
    assert_eq!(iter.broadcast_result_shape(), vec![3, 5, 2]);
    assert_eq!(iter.current_index(), vec![0, 0, 0]);
}

#[test]
fn test_broadcast_iterator_new_smaller_shape() {
    let a = full(1., &[3, 1, 2, 4, 5]);
    let b = full(1., &[5, 1, 4, 5]);

    let iter = BroadcastIterator::new(&a, &b, 2).unwrap();

    assert_eq!(iter.broadcast_shape1(), vec![3, 1, 2]);
    assert_eq!(iter.broadcast_shape2(), vec![1, 5, 1]);
    assert_eq!(iter.broadcast_result_shape(), vec![3, 5, 2]);
    assert_eq!(iter.current_index(), vec![0, 0, 0]);
}

#[test]
fn test_broadcast_iterator_trailing_dims_too_big() {
    let a = full(1., &[3, 1, 2, 4, 5]);
    let b = full(1., &[5, 1, 4, 5]);

    assert_eq!(BroadcastIterator::new(&a, &b, 5).err(), Some(ShapeError::Axis));
}

#[test]
fn test_broadcast_iterator_incompatible() {
    let a = full(1., &[3, 2, 4]);
    let b = full(1., &[2, 2, 4]);

    assert_eq!(BroadcastIterator::new(&a, &b, 1).err(), Some(ShapeError::Broadcast));
    assert_eq!(BroadcastIterator::new(&a, &b, 2).err(), Some(ShapeError::Broadcast));
    assert!(BroadcastIterator::new(&a, &b, 3).is_ok());
}

#[test]
fn test_broadcast_iterator_next() {
    let a = array(&[1., 2., 3., 4., 5., 6.], &[2, 1, 3]);
    let b = array(&[1., 2., 3., 4., 5., 6., 7., 8., 9.], &[1, 3, 3]);

    let mut iter = BroadcastIterator::new(&a, &b, 1).unwrap();

    assert_eq!(iter.next(), Some((&values(&[1., 2., 3.])[..], &values(&[1., 2., 3.])[..])));
    assert_eq!(iter.next(), Some((&values(&[1., 2., 3.])[..], &values(&[4., 5., 6.])[..])));
    assert_eq!(iter.next(), Some((&values(&[1., 2., 3.])[..], &values(&[7., 8., 9.])[..])));
    assert_eq!(iter.next(), Some((&values(&[4., 5., 6.])[..], &values(&[1., 2., 3.])[..])));
    assert_eq!(iter.next(), Some((&values(&[4., 5., 6.])[..], &values(&[4., 5., 6.])[..])));
    assert_eq!(iter.next(), Some((&values(&[4., 5., 6.])[..], &values(&[7., 8., 9.])[..])));
    assert_eq!(iter.next(), None);
}

#[test]
fn test_broadcast_iterator_next_longer_shape() {
    let a = array(&[1., 2., 3., 4., 5., 6.], &[1, 2, 1, 3]);
    let b = array(&[1., 2., 3., 4., 5., 6., 7., 8., 9.], &[1, 3, 3]);

    let mut iter = BroadcastIterator::new(&a, &b, 1).unwrap();

    assert_eq!(iter.next(), Some((&values(&[1., 2., 3.])[..], &values(&[1., 2., 3.])[..])));
    assert_eq!(iter.next(), Some((&values(&[1., 2., 3.])[..], &values(&[4., 5., 6.])[..])));
    assert_eq!(iter.next(), Some((&values(&[1., 2., 3.])[..], &values(&[7., 8., 9.])[..])));
    assert_eq!(iter.next(), Some((&values(&[4., 5., 6.])[..], &values(&[1., 2., 3.])[..])));
    assert_eq!(iter.next(), Some((&values(&[4., 5., 6.])[..], &values(&[4., 5., 6.])[..])));
    assert_eq!(iter.next(), Some((&values(&[4., 5., 6.])[..], &values(&[7., 8., 9.])[..])));
    assert_eq!(iter.next(), None);
}

#[test]
fn test_broadcast_iterator_next_zero_trunc_dim() {
    let a = array(&[1., 2., 3.], &[1, 3]);
    let b = array(&[1., 2., 3.], &[3, 1]);

    let mut iter = BroadcastIterator::new(&a, &b, 0).unwrap();

    assert_eq!(iter.next(), Some((&values(&[1.])[..], &values(&[1.])[..])));
    assert_eq!(iter.next(), Some((&values(&[2.])[..], &values(&[1.])[..])));
    assert_eq!(iter.next(), Some((&values(&[3.])[..], &values(&[1.])[..])));
    assert_eq!(iter.next(), Some((&values(&[1.])[..], &values(&[2.])[..])));
    assert_eq!(iter.next(), Some((&values(&[2.])[..], &values(&[2.])[..])));
    assert_eq!(iter.next(), Some((&values(&[3.])[..], &values(&[2.])[..])));
    assert_eq!(iter.next(), Some((&values(&[1.])[..], &values(&[3.])[..])));
    assert_eq!(iter.next(), Some((&values(&[2.])[..], &values(&[3.])[..])));
    assert_eq!(iter.next(), Some((&values(&[3.])[..], &values(&[3.])[..])));
    assert_eq!(iter.next(), None);
}

#[test]
fn test_broadcast_iterator_all_dims_trailing() {
    let a = array(&[1., 2., 3., 4.], &[2, 2]);
    let b = array(&[5., 6., 7., 8.], &[2, 2]);

    let mut iter = BroadcastIterator::new(&a, &b, 2).unwrap();

    assert_eq!(
        iter.next(),
        Some((&values(&[1., 2., 3., 4.])[..], &values(&[5., 6., 7., 8.])[..]))
    );
    assert_eq!(iter.next(), None);
    assert_eq!(iter.next(), None);
}

#[test]
fn test_get_padded_broadcast_shapes() {
    assert_eq!(
        get_padded_broadcast_shapes(&[3, 1, 2, 4, 5], &[5, 1, 4, 5], 2),
        (vec![3, 1, 2], vec![1, 5, 1])
    );
    assert_eq!(
        get_padded_broadcast_shapes(&[4, 5], &[7, 5, 1, 4, 5], 2),
        (vec![1, 1, 1], vec![7, 5, 1])
    );
    assert_eq!(get_padded_broadcast_shapes(&[4, 5], &[4, 5], 0), (vec![4, 5], vec![4, 5]));
}

#[test]
fn test_get_slice_len() {
    assert_eq!(get_slice_len(&[3, 1, 2, 4, 5], 2), 20);
    assert_eq!(get_slice_len(&[3, 1, 2, 4, 5], 0), 1);
    assert_eq!(get_slice_len(&[3, 1, 2, 4, 5], 5), 120);
}

#[test]
fn test_matmul_2d_matrix_slices_f64() {
    let a = values(&[1.0, 2.0, 3.0, 4.0, 5.0, 6.0]);
    let b = values(&[1.0, 2.0, 3.0, 4.0, 5.0, 6.0]);
    let mut output_buff = values(&[0.0; 4]);

    assert_eq!(matmul_2d_matrix_slices(&a, 2, 3, &b, 3, 2, &mut output_buff), Ok(()));

    assert_eq!(output_buff, values(&[22.0, 28.0, 49.0, 64.0]));
}

#[test]
fn test_general_matmul() {
    let a = values(&[1.0, 2.0, 3.0, 4.0, 5.0, 6.0]);
    let b = values(&[1.0, 2.0, 3.0, 4.0, 5.0, 6.0]);
    let mut output_buff = values(&[0.0; 4]);

    general_matmul_2d_matrix_slices(&a, 2, 3, &b, 2, &mut output_buff);

    assert_eq!(output_buff, values(&[22.0, 28.0, 49.0, 64.0]));
}

#[test]
fn test_matmul_2d_matrix_slices_wrong_shapes() {
    let a = values(&[1.0, 2.0, 3.0, 1.0, 4.0, 5.0, 6.0, 1.0]);
    let b = values(&[1.0, 2.0, 3.0, 4.0, 5.0, 6.0]);
    let mut output_buff = values(&[0.0; 4]);

    assert_eq!(
        matmul_2d_matrix_slices(&a, 2, 4, &b, 3, 2, &mut output_buff),
        Err(ShapeError::MatMul)
    );
    assert_eq!(output_buff, values(&[0.0; 4]));
}

#[test]
fn test_matmul_2d_matrix_slices_output_wrong_length() {
    let a = values(&[1.0, 2.0, 3.0, 1.0, 4.0, 5.0]);
    let b = values(&[1.0, 2.0, 3.0, 4.0, 5.0, 6.0]);
    let mut output_buff = values(&[0.0; 5]);

    assert_eq!(
        matmul_2d_matrix_slices(&a, 2, 3, &b, 3, 2, &mut output_buff),
        Err(ShapeError::LengthMismatch)
    );
}

#[test]
fn test_matmul_2d_matrix_slices_input_wrong_length() {
    let a = values(&[1.0, 2.0, 3.0, 1.0, 4.0, 5.0, 6.0]);
    let b = values(&[1.0, 2.0, 3.0, 4.0, 5.0, 6.0]);
    let mut output_buff = values(&[0.0; 4]);

    assert_eq!(
        matmul_2d_matrix_slices(&a, 2, 4, &b, 3, 2, &mut output_buff),
        Err(ShapeError::MatMul)
    );
    assert_eq!(
        matmul_2d_matrix_slices(&a, 2, 3, &b, 3, 2, &mut output_buff),
        Err(ShapeError::LengthMismatch)
    );
}

#[test]
fn test_check_matrix_product_shapes() {
    let a = values(&[0.0; 6]);
    let b = values(&[0.0; 6]);
    let out = values(&[0.0; 4]);

    assert_eq!(check_matrix_product_shapes(&a, 2, 3, &b, 3, 2, &out), Ok(()));
    assert_eq!(
        check_matrix_product_shapes(&a, 2, 3, &b, 2, 3, &out),
        Err(ShapeError::MatMul)
    );
    assert_eq!(
        check_matrix_product_shapes(&a, 3, 2, &b, 2, 3, &out),
        Err(ShapeError::LengthMismatch)
    );
}
