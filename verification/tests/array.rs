use neurust::linalg::ops;
use neurust::linalg::reduce::{
    reduce, reduce_max, reduce_mean, reduce_min, reduce_prod, reduce_sum,
};
use neurust::linalg::utils::get_shape_after_broadcast;
use neurust::linalg::{ArrayView, Slice};
use neurust::{Array, BinaryFn, Numeric, ShapeError};

#[derive(Clone, Copy, Debug, PartialEq)]
struct R(f64);

impl Numeric for R {
    fn zero() -> Self {
        R(0.0)
    }

    fn zero_spec() -> Self {
        R(0.0)
    }

    fn one() -> Self {
        R(1.0)
    }

    fn one_spec() -> Self {
        R(1.0)
    }

    fn from_usize(n: usize) -> Self {
        R(n as f64)
    }

    fn from_usize_spec(n: usize) -> Self {
        R(n as f64)
    }

    fn min_positive_value() -> Self {
        R(f64::MIN_POSITIVE)
    }

    fn min_positive_value_spec() -> Self {
        R(f64::MIN_POSITIVE)
    }

    fn max_value() -> Self {
        R(f64::MAX)
    }

    fn max_value_spec() -> Self {
        R(f64::MAX)
    }

    fn add(self, rhs: Self) -> Self {
        R(self.0 + rhs.0)
    }

    fn add_spec(self, rhs: Self) -> Self {
        R(self.0 + rhs.0)
    }

    fn sub(self, rhs: Self) -> Self {
        R(self.0 - rhs.0)
    }

    fn sub_spec(self, rhs: Self) -> Self {
        R(self.0 - rhs.0)
    }

    fn mul(self, rhs: Self) -> Self {
        R(self.0 * rhs.0)
    }

    fn mul_spec(self, rhs: Self) -> Self {
        R(self.0 * rhs.0)
    }

    fn div(self, rhs: Self) -> Self {
        R(self.0 / rhs.0)
    }

    fn div_spec(self, rhs: Self) -> Self {
        R(self.0 / rhs.0)
    }

    fn max(self, other: Self) -> Self {
        R(self.0.max(other.0))
    }

    fn max_spec(self, other: Self) -> Self {
        R(self.0.max(other.0))
    }

    fn min(self, other: Self) -> Self {
        R(self.0.min(other.0))
    }

    fn min_spec(self, other: Self) -> Self {
        R(self.0.min(other.0))
    }

    fn powf(self, exponent: Self) -> Self {
        R(self.0.powf(exponent.0))
    }

    fn powf_spec(self, exponent: Self) -> Self {
        R(self.0.powf(exponent.0))
    }

    fn log(self, base: Self) -> Self {
        R(self.0.log(base.0))
    }

    fn log_spec(self, base: Self) -> Self {
        R(self.0.log(base.0))
    }

    fn neg(self) -> Self {
        R(-self.0)
    }

    fn neg_spec(self) -> Self {
        R(-self.0)
    }

    fn abs(self) -> Self {
        R(self.0.abs())
    }

    fn abs_spec(self) -> Self {
        R(self.0.abs())
    }

    fn sin(self) -> Self {
        R(self.0.sin())
    }

    fn sin_spec(self) -> Self {
        R(self.0.sin())
    }

    fn cos(self) -> Self {
        R(self.0.cos())
    }

    fn cos_spec(self) -> Self {
        R(self.0.cos())
    }

    fn tanh(self) -> Self {
        R(self.0.tanh())
    }

    fn tanh_spec(self) -> Self {
        R(self.0.tanh())
    }

    fn ln(self) -> Self {
        R(self.0.ln())
    }

    fn ln_spec(self) -> Self {
        R(self.0.ln())
    }

    fn exp(self) -> Self {
        R(self.0.exp())
    }

    fn exp_spec(self) -> Self {
        R(self.0.exp())
    }

    fn equals(self, other: Self) -> bool {
        self.0 == other.0
    }

    fn equals_spec(self, other: Self) -> bool {
        self.0 == other.0
    }

    fn less_than(self, other: Self) -> bool {
        self.0 < other.0
    }

    fn less_than_spec(self, other: Self) -> bool {
        self.0 < other.0
    }

}

fn array(data: &[f64], shape: &[usize]) -> Array<R> {
    Array::from_vec(data.iter().map(|x| R(*x)).collect(), shape.to_vec()).unwrap()
}

fn full(value: f64, shape: &[usize]) -> Array<R> {
    Array::new(R(value), shape.to_vec()).unwrap()
}

fn values(data: &[f64]) -> Vec<R> {
    data.iter().map(|x| R(*x)).collect()
}

#[test]
fn test_from_vec_wrong_shape() {
    let r = Array::from_vec(
        values(&[0., 1., 2., 3., 4., 5., 6., 7., 8., 9., 10., 11.]),
        vec![2, 1, 2],
    );
    assert_eq!(r.err(), Some(ShapeError::LengthMismatch));
}

#[test]
fn test_from_vec_zero_shape() {
    let r = Array::from_vec(
        values(&[0., 1., 2., 3., 4., 5., 6., 7., 8., 9., 10., 11.]),
        vec![2, 1, 2, 3, 0],
    );
    assert_eq!(r.err(), Some(ShapeError::ZeroDimension));
}

#[test]
fn test_new_zero_shape() {
    let r = Array::new(R(1.), vec![2, 1, 2, 3, 0]);
    assert_eq!(r.err(), Some(ShapeError::ZeroDimension));
}

#[test]
fn test_new_too_large() {
    let r = Array::new(R(1.), vec![usize::MAX, 2]);
    assert_eq!(r.err(), Some(ShapeError::TooLarge));
}

#[test]
fn test_new_fills() {
    let a = full(4., &[3, 2, 2]);
    assert_eq!(a.get_shape(), vec![3, 2, 2]);
    assert_eq!(a.to_vec(), values(&[4.; 12]));
}

#[test]
fn test_new_empty_shape_holds_one_element() {
    let a = full(7., &[]);
    assert_eq!(a.get_shape(), Vec::<usize>::new());
    assert_eq!(a.to_vec(), values(&[7.]));
}

#[test]
fn test_i() {
    let arr = array(&[1., 2., 3., 4., 5., 6.], &[2, 3]);

    assert_eq!(arr.i(vec![1, 2]), Ok(R(6.)));
}

#[test]
fn test_i_three_dimensions() {
    let arr = array(&[1., 2., 3., 4., 5., 6., 7., 8.], &[2, 1, 4]);

    assert_eq!(arr.i(vec![1, 0, 2]), Ok(R(7.)));
}

#[test]
fn test_index() {
    let arr = array(&[1., 2., 3., 4., 5., 6.], &[2, 3]);

    assert_eq!(arr.i(vec![1, 2]).unwrap(), R(6.));
}

#[test]
fn test_index_wrong_index_length() {
    let arr = array(&[1., 2., 3., 4., 5., 6.], &[2, 3]);

    assert_eq!(arr.i(vec![1]), Err(ShapeError::Index));
}

#[test]
fn test_index_index_out_of_bounds() {
    let arr = array(&[1., 2., 3., 4., 5., 6.], &[2, 3]);

    assert_eq!(arr.i(vec![1, 3]), Err(ShapeError::Index));
}

#[test]
fn test_index_mut() {
    let mut arr = array(&[1., 2., 3., 4., 5., 6.], &[2, 3]);

    assert_eq!(arr.set(vec![1, 2], R(9.)), Ok(()));

    assert_eq!(arr.i(vec![1, 2]), Ok(R(9.)));
    assert_eq!(arr.to_vec(), values(&[1., 2., 3., 4., 5., 9.]));
}

#[test]
fn test_index_mut_wrong_index_length() {
    let mut arr = array(&[1., 2., 3., 4., 5., 6.], &[2, 3]);

    assert_eq!(arr.set(vec![1], R(2.)), Err(ShapeError::Index));
    assert_eq!(arr, array(&[1., 2., 3., 4., 5., 6.], &[2, 3]));
}

#[test]
fn test_index_mut_index_out_of_bounds() {
    let mut arr = array(&[1., 2., 3., 4., 5., 6.], &[2, 3]);

    assert_eq!(arr.set(vec![1, 3], R(2.)), Err(ShapeError::Index));
    assert_eq!(arr, array(&[1., 2., 3., 4., 5., 6.], &[2, 3]));
}

#[test]
fn test_clone_is_independent() {
    let a = array(&[1., 2., 3., 4.], &[2, 2]);
    let mut b = a.clone();
    b.set(vec![0, 0], R(9.)).unwrap();

    assert_eq!(a, array(&[1., 2., 3., 4.], &[2, 2]));
    assert_eq!(b, array(&[9., 2., 3., 4.], &[2, 2]));
}

#[test]
fn test_map() {
    let a = array(&[1., 2., 3., 4., 5., 6., 7., 8.], &[2, 1, 4]);

    let result = a.map(|x| R(2. * x.0));

    assert_eq!(result, array(&[2., 4., 6., 8., 10., 12., 14., 16.], &[2, 1, 4]));
}

#[test]
fn test_map_assign() {
    let mut a = array(&[1., 2., 3., 4., 5., 6., 7., 8.], &[2, 1, 4]);

    a.map_assign(|x| R(2. * x.0));

    assert_eq!(a, array(&[2., 4., 6., 8., 10., 12., 14., 16.], &[2, 1, 4]));
}

#[test]
fn test_neg() {
    let a = array(&[1., 2., 3., 4., 5., 6., 7., 8.], &[2, 1, 4]);

    assert_eq!(a.neg(), array(&[-1., -2., -3., -4., -5., -6., -7., -8.], &[2, 1, 4]));
}

#[test]
fn test_neg_assign() {
    let mut a = array(&[1., 2., 3., 4., 5., 6., 7., 8.], &[2, 1, 4]);

    a.neg_assign();

    assert_eq!(a, array(&[-1., -2., -3., -4., -5., -6., -7., -8.], &[2, 1, 4]));
}

#[test]
fn test_add_wrong_shape() {
    let a = array(&[1., 2., 3., 4., 5., 6., 7., 8.], &[2, 2, 2]);
    let b = array(&[2., 3., 4., 5., 6., 7., 8., 9.], &[2, 4]);

    assert_eq!(a.add(&b), Err(ShapeError::Broadcast));
    assert_eq!(a.sub(&b), Err(ShapeError::Broadcast));
    assert_eq!(a.mul(&b), Err(ShapeError::Broadcast));
    assert_eq!(a.div(&b), Err(ShapeError::Broadcast));
}

#[test]
fn test_add_assign_wrong_shape() {
    let mut a = array(&[1., 2., 3., 4., 5., 6., 7., 8.], &[2, 2, 2]);
    let b = array(&[2., 3., 4., 5., 6., 7., 8., 9.], &[2, 4]);

    assert_eq!(a.add_assign(&b), Err(ShapeError::Broadcast));
    assert_eq!(a.sub_assign(&b), Err(ShapeError::Broadcast));
    assert_eq!(a.mul_assign(&b), Err(ShapeError::Broadcast));
    assert_eq!(a.div_assign(&b), Err(ShapeError::Broadcast));
    assert_eq!(a, array(&[1., 2., 3., 4., 5., 6., 7., 8.], &[2, 2, 2]));
}

#[test]
fn test_add_method() {
    let a = array(&[1., 2., 3., 4.], &[2, 1, 2]);
    let b = array(&[2., 3., 4., 5.], &[2, 1, 2]);

    assert_eq!(a.add(&b).unwrap(), array(&[3., 5., 7., 9.], &[2, 1, 2]));
}

#[test]
fn test_add_method_assign() {
    let mut a = array(&[1., 2., 3., 4.], &[2, 1, 2]);
    let b = array(&[2., 3., 4., 5.], &[2, 1, 2]);

    a.add_assign(&b).unwrap();

    assert_eq!(a, array(&[3., 5., 7., 9.], &[2, 1, 2]));
}

#[test]
fn test_sub_method() {
    let a = array(&[1., 2., 3., 4.], &[2, 1, 2]);
    let b = array(&[2., 3., 4., 5.], &[2, 1, 2]);

    assert_eq!(a.sub(&b).unwrap(), array(&[-1., -1., -1., -1.], &[2, 1, 2]));
}

#[test]
fn test_sub_method_assign() {
    let mut a = array(&[1., 2., 3., 4.], &[2, 1, 2]);
    let b = array(&[2., 3., 4., 5.], &[2, 1, 2]);

    a.sub_assign(&b).unwrap();

    assert_eq!(a, array(&[-1., -1., -1., -1.], &[2, 1, 2]));
}

#[test]
fn test_mul_method() {
    let a = array(&[1., 2., 3., 4.], &[2, 1, 2]);
    let b = array(&[2., 3., 4., 5.], &[2, 1, 2]);

    assert_eq!(a.mul(&b).unwrap(), array(&[2., 6., 12., 20.], &[2, 1, 2]));
}

#[test]
fn test_mul_method_assign() {
    let mut a = array(&[1., 2., 3., 4.], &[2, 1, 2]);
    let b = array(&[2., 3., 4., 5.], &[2, 1, 2]);

    a.mul_assign(&b).unwrap();

    assert_eq!(a, array(&[2., 6., 12., 20.], &[2, 1, 2]));
}

#[test]
fn test_div_method() {
    let a = array(&[1., 2., 3., 4.], &[2, 1, 2]);
    let b = array(&[2., 3., 4., 5.], &[2, 1, 2]);

    assert_eq!(
        a.div(&b).unwrap(),
        array(&[1. / 2., 2. / 3., 3. / 4., 4. / 5.], &[2, 1, 2])
    );
}

#[test]
fn test_div_method_assign() {
    let mut a = array(&[1., 2., 3., 4.], &[2, 1, 2]);
    let b = array(&[2., 3., 4., 5.], &[2, 1, 2]);

    a.div_assign(&b).unwrap();

    assert_eq!(a, array(&[1. / 2., 2. / 3., 3. / 4., 4. / 5.], &[2, 1, 2]));
}

#[test]
fn test_scalar_methods() {
    let a = array(&[1., 2., 3., 4., 5., 6., 7., 8.], &[2, 1, 4]);

    assert_eq!(a.add_scalar(R(4.)), array(&[5., 6., 7., 8., 9., 10., 11., 12.], &[2, 1, 4]));
    assert_eq!(a.sub_scalar(R(1.)), array(&[0., 1., 2., 3., 4., 5., 6., 7.], &[2, 1, 4]));
    assert_eq!(a.mul_scalar(R(2.)), array(&[2., 4., 6., 8., 10., 12., 14., 16.], &[2, 1, 4]));
    assert_eq!(
        a.div_scalar(R(2.)),
        array(&[0.5, 1., 1.5, 2., 2.5, 3., 3.5, 4.], &[2, 1, 4])
    );
}

#[test]
fn test_scalar_assign_methods() {
    let mut a = array(&[1., 2., 3., 4.], &[2, 2]);

    a.add_assign_scalar(R(4.));
    assert_eq!(a, array(&[5., 6., 7., 8.], &[2, 2]));
    a.sub_assign_scalar(R(1.));
    assert_eq!(a, array(&[4., 5., 6., 7.], &[2, 2]));
    a.mul_assign_scalar(R(2.));
    assert_eq!(a, array(&[8., 10., 12., 14.], &[2, 2]));
    a.div_assign_scalar(R(4.));
    assert_eq!(a, array(&[2., 2.5, 3., 3.5], &[2, 2]));
}

#[test]
fn test_add_broadcasts_a_row_against_a_column() {
    let a = array(&[1., 2., 3.], &[1, 3]);
    let b = array(&[10., 20., 30.], &[3, 1]);

    assert_eq!(
        a.add(&b).unwrap(),
        array(&[11., 12., 13., 21., 22., 23., 31., 32., 33.], &[3, 3])
    );
    assert_eq!(
        a.sub(&b).unwrap(),
        array(&[-9., -8., -7., -19., -18., -17., -29., -28., -27.], &[3, 3])
    );
}

#[test]
fn test_add_broadcasts_a_shorter_shape() {
    let a = array(&[1., 2., 3., 4., 5., 6.], &[2, 3]);
    let b = array(&[10., 20., 30.], &[3]);

    assert_eq!(a.add(&b).unwrap(), array(&[11., 22., 33., 14., 25., 36.], &[2, 3]));
    assert_eq!(b.add(&a).unwrap(), array(&[11., 22., 33., 14., 25., 36.], &[2, 3]));
}

#[test]
fn test_add_broadcasts_in_the_middle() {
    let a = array(&[1., 2., 3., 4.], &[2, 1, 2]);
    let b = array(&[10., 20., 30., 40., 50., 60.], &[1, 3, 2]);

    assert_eq!(
        a.add(&b).unwrap(),
        array(
            &[11., 22., 31., 42., 51., 62., 13., 24., 33., 44., 53., 64.],
            &[2, 3, 2]
        )
    );
}

#[test]
fn test_add_assign_takes_the_broadcast_shape() {
    let mut a = array(&[1., 2., 3.], &[1, 3]);
    let b = array(&[10., 20.], &[2, 1]);

    a.add_assign(&b).unwrap();

    assert_eq!(a, array(&[11., 12., 13., 21., 22., 23.], &[2, 3]));
}

#[test]
fn test_broadcast_element_is_that_of_the_mapped_indices() {
    let a = array(&[1., 2., 3., 4.], &[2, 1, 2]);
    let b = array(&[10., 20., 30., 40., 50., 60.], &[1, 3, 2]);
    let sum = a.add(&b).unwrap();

    assert_eq!(sum.get_shape(), get_shape_after_broadcast(&[2, 1, 2], &[1, 3, 2]).unwrap());
    for i in 0..2 {
        for j in 0..3 {
            for k in 0..2 {
                let left = a.i(vec![i, 0, k]).unwrap();
                let right = b.i(vec![0, j, k]).unwrap();
                assert_eq!(sum.i(vec![i, j, k]), Ok(R(left.0 + right.0)));
            }
        }
    }
}

#[test]
fn array_test_matmul() {
    let a = array(&[1., 2., 3., 4., 5., 6., 1., 2., 3., 3., 2., 1.], &[2, 2, 3]);
    let b = array(&[1., 2., 3., 4., 5., 6., 1., 2., 3., 4., 5., 6.], &[2, 3, 2]);

    let result = a.matmul(&b).unwrap();

    assert_eq!(result, array(&[22., 28., 49., 64., 22., 28., 14., 20.], &[2, 2, 2]))
}

#[test]
fn test_matmul_broadcast() {
    let a = array(&[1., 2., 3., 4., 5., 6., 1., 2., 3., 3., 2., 1.], &[2, 2, 3]);
    let b = array(&[1., 2., 3., 4., 5., 6.], &[1, 3, 2]);

    let result = a.matmul(&b).unwrap();

    assert_eq!(result, array(&[22., 28., 49., 64., 22., 28., 14., 20.], &[2, 2, 2]))
}

#[test]
fn test_matmul_broadcast_smaller_shape() {
    let a = array(&[1., 2., 3., 4., 5., 6., 1., 2., 3., 3., 2., 1.], &[2, 2, 3]);
    let b = array(&[1., 2., 3., 4., 5., 6.], &[3, 2]);

    let result = a.matmul(&b).unwrap();

    assert_eq!(result, array(&[22., 28., 49., 64., 22., 28., 14., 20.], &[2, 2, 2]))
}

#[test]
fn test_matmul_wrong_broadcast() {
    let a = full(1., &[2, 2, 3]);
    let b = full(1., &[3, 3, 2]);

    assert_eq!(a.matmul(&b), Err(ShapeError::Broadcast));
}

#[test]
fn test_matmul_wrong_inner_dimensions() {
    let a = full(1., &[2, 2, 3]);
    let b = full(1., &[2, 2, 3]);

    assert_eq!(a.matmul(&b), Err(ShapeError::MatMul));
}

#[test]
fn test_matmul_too_few_dimensions() {
    let a = full(1., &[3]);
    let b = full(1., &[3, 2]);

    assert_eq!(a.matmul(&b), Err(ShapeError::MatMul));
    assert_eq!(b.matmul(&a), Err(ShapeError::MatMul));
}

#[test]
fn test_matmul_by_free_function() {
    let a = array(&[1., 2., 3., 4., 5., 6.], &[2, 3]);
    let b = array(&[1., 2., 3., 4., 5., 6.], &[3, 2]);

    assert_eq!(ops::matmul(&a, &b).unwrap(), array(&[22., 28., 49., 64.], &[2, 2]));
}

#[test]
fn test_free_functions() {
    let a = array(&[2., 4., 6., 8.], &[2, 2]);
    let b = array(&[1., 2., 3., 4.], &[2, 2]);

    assert_eq!(ops::add(&a, &b).unwrap(), array(&[3., 6., 9., 12.], &[2, 2]));
    assert_eq!(ops::sub(&a, &b).unwrap(), array(&[1., 2., 3., 4.], &[2, 2]));
    assert_eq!(ops::multiply(&a, &b).unwrap(), array(&[2., 8., 18., 32.], &[2, 2]));
    assert_eq!(ops::div(&a, &b).unwrap(), array(&[2., 2., 2., 2.], &[2, 2]));
    assert_eq!(ops::add_scalar(&a, R(1.)), array(&[3., 5., 7., 9.], &[2, 2]));
    assert_eq!(ops::sub_scalar(&a, R(1.)), array(&[1., 3., 5., 7.], &[2, 2]));
    assert_eq!(ops::multiply_scalar(&a, R(2.)), array(&[4., 8., 12., 16.], &[2, 2]));
    assert_eq!(ops::div_scalar(&a, R(2.)), array(&[1., 2., 3., 4.], &[2, 2]));
}

#[test]
fn test_transpose() {
    let a = array(&[1., 2., 3., 4., 5., 6., 7., 8., 9., 10., 11., 12.], &[2, 2, 3]);

    assert_eq!(
        a.transpose().unwrap(),
        array(&[1., 4., 2., 5., 3., 6., 7., 10., 8., 11., 9., 12.], &[2, 3, 2])
    );
}

#[test]
fn test_transpose_assign() {
    let mut a = array(&[1., 2., 3., 4., 5., 6.], &[2, 3]);

    a.transpose_assign().unwrap();

    assert_eq!(a, array(&[1., 4., 2., 5., 3., 6.], &[3, 2]));
}

#[test]
fn test_transpose_one_dimension() {
    let mut a = array(&[1., 2., 3.], &[3]);

    assert_eq!(a.transpose(), Err(ShapeError::Axis));
    assert_eq!(a.transpose_assign(), Err(ShapeError::Axis));
    assert_eq!(a, array(&[1., 2., 3.], &[3]));
}

#[test]
fn test_transpose_of_product_is_product_of_transposes() {
    let a = array(&[1., 2., 3., 4., 5., 6.], &[2, 3]);
    let b = array(&[7., 8., 9., 10., 11., 12., 13., 14., 15., 16., 17., 18.], &[3, 4]);

    let left = a.matmul(&b).unwrap().transpose().unwrap();
    let right = b.transpose().unwrap().matmul(&a.transpose().unwrap()).unwrap();

    assert_eq!(left.get_shape(), vec![4, 2]);
    assert_eq!(left, right);
}

#[test]
fn test_reduce_sum() {
    let arr = array(&[1., 2., 3., 4., 5., 6., 7., 8., 9., 10., 11., 12.], &[2, 3, 2]);

    assert_eq!(reduce_sum(&arr, None, false).unwrap(), array(&[78.], &[1]));
    assert_eq!(reduce_sum(&arr, None, true).unwrap(), array(&[78.], &[1, 1, 1]));
    assert_eq!(
        reduce_sum(&arr, Some(1), false).unwrap(),
        array(&[9., 12., 27., 30.], &[2, 2])
    );
    assert_eq!(
        reduce_sum(&arr, Some(1), true).unwrap(),
        array(&[9., 12., 27., 30.], &[2, 1, 2])
    );
    assert_eq!(
        reduce_sum(&arr, Some(0), false).unwrap(),
        array(&[8., 10., 12., 14., 16., 18.], &[3, 2])
    );
    assert_eq!(
        reduce_sum(&arr, Some(2), false).unwrap(),
        array(&[3., 7., 11., 15., 19., 23.], &[2, 3])
    );
}

#[test]
fn test_reduce_with_a_reducer() {
    let arr = array(&[1., 2., 3., 4., 5., 6., 7., 8., 9., 10., 11., 12.], &[2, 3, 2]);

    assert_eq!(reduce(&arr, BinaryFn::Add, None, false).unwrap(), array(&[78.], &[1]));
    assert_eq!(
        reduce(&arr, BinaryFn::Sub, Some(1), false).unwrap(),
        array(&[-7., -8., -13., -14.], &[2, 2])
    );
}

#[test]
fn test_reduce_prod_max_min() {
    let arr = array(&[1., 2., 3., 4., 5., 6., 7., 8., 9., 10., 11., 12.], &[2, 3, 2]);

    assert_eq!(
        reduce_prod(&arr, Some(1), false).unwrap(),
        array(&[15., 48., 693., 960.], &[2, 2])
    );
    assert_eq!(
        reduce_max(&arr, Some(1), true).unwrap(),
        array(&[5., 6., 11., 12.], &[2, 1, 2])
    );
    assert_eq!(
        reduce_min(&arr, Some(2), false).unwrap(),
        array(&[1., 3., 5., 7., 9., 11.], &[2, 3])
    );
    assert_eq!(reduce_max(&arr, None, false).unwrap(), array(&[12.], &[1]));
}

#[test]
fn test_reduce_without_axis_takes_all_elements() {
    let arr = array(&[1., 2., 3., 4.], &[2, 2]);

    assert_eq!(reduce_prod(&arr, None, false).unwrap(), array(&[24.], &[1]));
    assert_eq!(reduce_min(&arr, None, false).unwrap(), array(&[1.], &[1]));
    assert_eq!(reduce_max(&arr, None, true).unwrap(), array(&[4.], &[1, 1]));
    assert_eq!(reduce_sum(&arr, None, false).unwrap(), array(&[10.], &[1]));
    assert_eq!(
        reduce(&arr, BinaryFn::Sub, None, false).unwrap(),
        array(&[-8.], &[1])
    );
}

#[test]
fn test_reduce_without_axis_answers_an_element() {
    let negative = array(&[-3., -1., -2.], &[3]);
    let positive = array(&[3., 1., 2.], &[3]);
    let single = array(&[-7.], &[1, 1]);

    assert_eq!(reduce_max(&negative, None, false).unwrap(), array(&[-1.], &[1]));
    assert_eq!(reduce_min(&positive, None, false).unwrap(), array(&[1.], &[1]));
    assert_eq!(reduce_prod(&negative, None, false).unwrap(), array(&[-6.], &[1]));
    assert_eq!(reduce_max(&single, None, false).unwrap(), array(&[-7.], &[1]));
    assert_eq!(reduce_mean(&single, None, true).unwrap(), array(&[-7.], &[1, 1]));
}

#[test]
fn test_reduce_the_only_axis_away() {
    let arr = array(&[1., 2., 3.], &[3]);

    let sum = reduce_sum(&arr, Some(0), false).unwrap();

    assert_eq!(sum.get_shape(), Vec::<usize>::new());
    assert_eq!(sum.to_vec(), values(&[6.]));
}

#[test]
fn test_reduce_axis_out_of_range() {
    let arr = array(&[1., 2., 3., 4.], &[2, 2]);

    assert_eq!(reduce_sum(&arr, Some(2), false), Err(ShapeError::Axis));
    assert_eq!(reduce_mean(&arr, Some(2), true), Err(ShapeError::Axis));
    assert_eq!(reduce(&arr, BinaryFn::Max, Some(5), true), Err(ShapeError::Axis));
}

#[test]
fn test_reduce_mean() {
    let arr = array(&[1., 2., 3., 4., 5., 6., 7., 8., 9., 10., 11., 12.], &[2, 3, 2]);

    assert_eq!(reduce_mean(&arr, None, false).unwrap(), array(&[6.5], &[1]));
    assert_eq!(
        reduce_mean(&arr, Some(1), false).unwrap(),
        array(&[3., 4., 9., 10.], &[2, 2])
    );
    assert_eq!(
        reduce_mean(&arr, Some(1), true).unwrap(),
        array(&[3., 4., 9., 10.], &[2, 1, 2])
    );
}

#[test]
fn test_reduce_mean_is_sum_over_count() {
    let arr = array(&[1., 2., 4., 8., 16., 32., 64., 128., 256., 512., 1024., 2048.], &[2, 3, 2]);

    for axis in [Some(0), Some(1), Some(2), None] {
        let count = match axis {
            Some(a) => arr.get_shape()[a],
            None => 12,
        };
        let mean = reduce_mean(&arr, axis, false).unwrap();
        let sum = reduce_sum(&arr, axis, false).unwrap();
        assert_eq!(mean, sum.div_scalar(R(count as f64)));
    }
}


#[test]
fn test_s() {
    let arr = array(&[1., 2., 3., 4., 5., 6.], &[2, 3]);
    let data = arr.to_vec();
    let shape = arr.get_shape();

    assert_eq!(
        arr.s(vec![Slice::Index(0), Slice::Range { start: 0, end: 2 }]).unwrap(),
        ArrayView::new(
            &data,
            vec![Slice::Index(0), Slice::Range { start: 0, end: 2 }],
            &shape
        )
    );
}

#[test]
fn test_s_wrong_index_length() {
    let arr = array(&[1., 2., 3., 4., 5., 6.], &[2, 3]);

    assert_eq!(arr.s(vec![Slice::Index(0)]).err(), Some(ShapeError::Index));
}

#[test]
fn test_s_index_out_of_bounds() {
    let arr = array(&[1., 2., 3., 4., 5., 6.], &[2, 3]);

    assert_eq!(
        arr.s(vec![Slice::Index(0), Slice::Index(3)]).err(),
        Some(ShapeError::Index)
    );
}

#[test]
fn test_to_array() {
    let arr = array(&[1., 2., 3., 4., 5., 6., 7., 8.], &[2, 4]);

    let row = arr.s(vec![Slice::Index(0), Slice::RangeFull]).unwrap().to_array();
    let part = arr
        .s(vec![Slice::Index(0), Slice::Range { start: 1, end: 3 }])
        .unwrap()
        .to_array();
    let one = arr.s(vec![Slice::Index(1), Slice::Index(2)]).unwrap().to_array();
    let columns = arr
        .s(vec![Slice::RangeFull, Slice::RangeFrom { start: 1 }])
        .unwrap()
        .to_array();
    let corner = arr
        .s(vec![Slice::RangeTo { end: 1 }, Slice::RangeTo { end: 2 }])
        .unwrap()
        .to_array();

    assert_eq!(row, Ok(array(&[1., 2., 3., 4.], &[4])));
    assert_eq!(part, Ok(array(&[2., 3.], &[2])));
    assert_eq!(one, Ok(array(&[7.], &[1])));
    assert_eq!(columns, Ok(array(&[2., 3., 4., 6., 7., 8.], &[2, 3])));
    assert_eq!(corner, Ok(array(&[1., 2.], &[1, 2])));
}

#[test]
fn test_to_array_three_dimensions() {
    let data: Vec<f64> = (0..24).map(|x| x as f64).collect();
    let arr = array(&data, &[2, 3, 4]);

    let part = arr
        .s(vec![
            Slice::RangeFrom { start: 1 },
            Slice::Range { start: 1, end: 3 },
            Slice::Index(2),
        ])
        .unwrap()
        .to_array();

    assert_eq!(part, Ok(array(&[18., 22.], &[1, 2])));
}

#[test]
fn test_to_array_range_outside() {
    let arr = array(&[1., 2., 3., 4., 5., 6.], &[2, 3]);

    let beyond = arr.s(vec![Slice::RangeFull, Slice::Range { start: 1, end: 4 }]).unwrap();
    let empty = arr.s(vec![Slice::RangeFull, Slice::Range { start: 2, end: 2 }]).unwrap();
    let late = arr.s(vec![Slice::RangeFrom { start: 2 }, Slice::RangeFull]).unwrap();

    assert_eq!(beyond.to_array(), Err(ShapeError::Index));
    assert_eq!(empty.to_array(), Err(ShapeError::Index));
    assert_eq!(late.to_array(), Err(ShapeError::Index));
}

#[test]
fn test_slice_from() {
    assert_eq!(Slice::from(1), Slice::Index(1));
    assert_eq!(Slice::from(1..2), Slice::Range { start: 1, end: 2 });
    assert_eq!(
        vec![Slice::from(1), Slice::from(1..2), Slice::from(3)],
        vec![Slice::Index(1), Slice::Range { start: 1, end: 2 }, Slice::Index(3)]
    );
}

fn texts(items: &[&str]) -> Vec<Vec<char>> {
    items.iter().map(|s| s.chars().collect()).collect()
}

fn laid_out(arr: &Array<R>, items: &[&str]) -> String {
    arr.layout(&texts(items)).unwrap().into_iter().collect()
}

#[test]
fn test_layout_of_a_matrix() {
    let arr = array(&[1., 2., 3., 4.], &[2, 2]);

    assert_eq!(laid_out(&arr, &["1", "2", "3", "4"]), "[[1, 2]\n [3, 4]]");
}

#[test]
fn test_layout_of_three_dimensions() {
    let arr = full(0., &[2, 2, 3]);
    let items = ["a", "b", "c", "d", "e", "f", "g", "h", "i", "j", "k", "l"];

    assert_eq!(
        laid_out(&arr, &items),
        "[[[a, b, c]\n  [d, e, f]]\n\n [[g, h, i]\n  [j, k, l]]]"
    );
}

#[test]
fn test_layout_of_one_dimension_and_of_none() {
    let row = array(&[1., 2., 3.], &[3]);
    let single = full(5., &[]);

    assert_eq!(laid_out(&row, &["1.5", "-2", "3"]), "[1.5, -2, 3]");
    assert_eq!(laid_out(&single, &["5"]), "5");
}

#[test]
fn test_layout_with_too_few_texts() {
    let arr = array(&[1., 2., 3., 4.], &[2, 2]);

    assert_eq!(arr.layout(&texts(&["1", "2"])), Err(ShapeError::LengthMismatch));
}
