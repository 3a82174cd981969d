use neurust::graph::arithmetic::{AddOp, MulOp, NegOp, SubOp};
use neurust::graph::math::{sigmoid as graph_sigmoid, sigmoid_derivative};
use neurust::graph::{Node, Placeholder, Variable, WrapperOp};
use neurust::linalg::utils::are_arrays_near_equal;
use neurust::tensor::math::{cos, ln, log, pow, relu, sigmoid, sin, tanh};
use neurust::{
    reduce_mean, reduce_sum, Array, Feed, Graph, GraphError, Numeric, ShapeError, Tensor,
};

#[derive(Clone, Copy, Debug, PartialEq)]
struct R(f64);

impl Numeric for R {
    fn zero() -> Self {
        R(0.0)
    }

    fn zero_spec() -> Self {
        R(0.0)
    }

    fn one() -> Self {
        R(1.0)
    }

    fn one_spec() -> Self {
        R(1.0)
    }

    fn from_usize(n: usize) -> Self {
        R(n as f64)
    }

    fn from_usize_spec(n: usize) -> Self {
        R(n as f64)
    }

    fn min_positive_value() -> Self {
        R(f64::MIN_POSITIVE)
    }

    fn min_positive_value_spec() -> Self {
        R(f64::MIN_POSITIVE)
    }

    fn max_value() -> Self {
        R(f64::MAX)
    }

    fn max_value_spec() -> Self {
        R(f64::MAX)
    }

    fn add(self, rhs: Self) -> Self {
        R(self.0 + rhs.0)
    }

    fn add_spec(self, rhs: Self) -> Self {
        R(self.0 + rhs.0)
    }

    fn sub(self, rhs: Self) -> Self {
        R(self.0 - rhs.0)
    }

    fn sub_spec(self, rhs: Self) -> Self {
        R(self.0 - rhs.0)
    }

    fn mul(self, rhs: Self) -> Self {
        R(self.0 * rhs.0)
    }

    fn mul_spec(self, rhs: Self) -> Self {
        R(self.0 * rhs.0)
    }

    fn div(self, rhs: Self) -> Self {
        R(self.0 / rhs.0)
    }

    fn div_spec(self, rhs: Self) -> Self {
        R(self.0 / rhs.0)
    }

    fn max(self, other: Self) -> Self {
        R(self.0.max(other.0))
    }

    fn max_spec(self, other: Self) -> Self {
        R(self.0.max(other.0))
    }

    fn min(self, other: Self) -> Self {
        R(self.0.min(other.0))
    }

    fn min_spec(self, other: Self) -> Self {
        R(self.0.min(other.0))
    }

    fn powf(self, exponent: Self) -> Self {
        R(self.0.powf(exponent.0))
    }

    fn powf_spec(self, exponent: Self) -> Self {
        R(self.0.powf(exponent.0))
    }

    fn log(self, base: Self) -> Self {
        R(self.0.log(base.0))
    }

    fn log_spec(self, base: Self) -> Self {
        R(self.0.log(base.0))
    }

    fn neg(self) -> Self {
        R(-self.0)
    }

    fn neg_spec(self) -> Self {
        R(-self.0)
    }

    fn abs(self) -> Self {
        R(self.0.abs())
    }

    fn abs_spec(self) -> Self {
        R(self.0.abs())
    }

    fn sin(self) -> Self {
        R(self.0.sin())
    }

    fn sin_spec(self) -> Self {
        R(self.0.sin())
    }

    fn cos(self) -> Self {
        R(self.0.cos())
    }

    fn cos_spec(self) -> Self {
        R(self.0.cos())
    }

    fn tanh(self) -> Self {
        R(self.0.tanh())
    }

    fn tanh_spec(self) -> Self {
        R(self.0.tanh())
    }

    fn ln(self) -> Self {
        R(self.0.ln())
    }

    fn ln_spec(self) -> Self {
        R(self.0.ln())
    }

    fn exp(self) -> Self {
        R(self.0.exp())
    }

    fn exp_spec(self) -> Self {
        R(self.0.exp())
    }

    fn equals(self, other: Self) -> bool {
        self.0 == other.0
    }

    fn equals_spec(self, other: Self) -> bool {
        self.0 == other.0
    }

    fn less_than(self, other: Self) -> bool {
        self.0 < other.0
    }

    fn less_than_spec(self, other: Self) -> bool {
        self.0 < other.0
    }

}

fn array(data: &[f64], shape: &[usize]) -> Array<R> {
    Array::from_vec(data.iter().map(|x| R(*x)).collect(), shape.to_vec()).unwrap()
}

fn full(value: f64, shape: &[usize]) -> Array<R> {
    Array::new(R(value), shape.to_vec()).unwrap()
}

fn values(data: &[f64]) -> Vec<R> {
    data.iter().map(|x| R(*x)).collect()
}

fn near(left: &Array<R>, right: &Array<R>) {
    let same_signs = left
        .to_vec()
        .iter()
        .zip(right.to_vec().iter())
        .all(|(l, r)| l.0.signum() == r.0.signum());
    if !same_signs || !are_arrays_near_equal(left, right, R(1e-7)) {
        panic!("assertion failed: `(left == right)`\n left: `{:?}`,\n right: `{:?}`", left, right)
    }
}

#[test]
fn test_variable() {
    let mut g = Graph::new();
    let a = Tensor::new_variable(&mut g, full(3., &[2, 3, 2])).unwrap();
    let b = Tensor::new_variable(&mut g, full(2., &[2, 2, 4])).unwrap();

    assert_eq!(a.eval(&g, None), Ok(full(3., &[2, 3, 2])));
    assert_eq!(a.grad(&g, &a, None), Ok(Some(full(1., &[2, 3, 2]))));
    assert_eq!(a.grad(&g, &b, None), Ok(None));
}

#[test]
fn test_variable_without_dimensions() {
    let mut g = Graph::new();

    assert_eq!(
        Tensor::new_variable(&mut g, full(3., &[])),
        Err(GraphError::Shape(ShapeError::EmptyShape))
    );
    assert_eq!(g.len(), 0);
}

#[test]
fn test_placeholder() {
    let mut g = Graph::new();
    let a = Tensor::new_placeholder(&mut g, "test_ph".to_owned(), vec![2, 2, 4]).unwrap();
    let b = Tensor::new_variable(&mut g, full(2., &[2, 2, 4])).unwrap();
    let value = full(3., &[2, 2, 4]);
    let mut feed_dict = Feed::new();
    feed_dict.insert("test_ph".to_owned(), value);

    assert_eq!(a.eval(&g, Some(&feed_dict)), Ok(full(3., &[2, 2, 4])));
    assert_eq!(a.grad(&g, &a, Some(&feed_dict)), Ok(Some(full(1., &[2, 2, 4]))));
    assert_eq!(a.grad(&g, &b, Some(&feed_dict)), Ok(None));
}

#[test]
fn test_placeholder_not_in_feed_dict() {
    let mut g = Graph::<R>::new();
    let a = Tensor::new_placeholder(&mut g, "test_ph".to_owned(), vec![2, 2, 4]).unwrap();
    let feed_dict = Feed::new();

    assert_eq!(a.eval(&g, Some(&feed_dict)), Err(GraphError::MissingPlaceholder));
}

#[test]
fn test_placeholder_without_feed() {
    let mut g = Graph::<R>::new();
    let a = Tensor::new_placeholder(&mut g, "x".to_owned(), vec![2, 2, 4]).unwrap();

    assert_eq!(a.eval(&g, None), Err(GraphError::MissingPlaceholder));
}

#[test]
fn test_self_gradient_needs_no_value() {
    let mut g = Graph::<R>::new();
    let p = Tensor::new_placeholder(&mut g, "x".to_owned(), vec![2, 2, 4]).unwrap();
    let a = Tensor::new_variable(&mut g, array(&[1., 2., 3.], &[3, 1])).unwrap();
    let q = Tensor::new_placeholder(&mut g, "y".to_owned(), vec![4]).unwrap();
    let sum = a.add(&mut g, &q).unwrap();
    let mean = reduce_mean(&mut g, &sum, Some(0), false).unwrap();
    let product = p.matmul(&mut g, &sum).unwrap();

    assert_eq!(p.grad(&g, &p, None), Ok(Some(full(1., &[2, 2, 4]))));
    assert_eq!(p.grad(&g, &p, Some(&Feed::new())), Ok(Some(full(1., &[2, 2, 4]))));
    assert_eq!(sum.grad(&g, &sum, None), Ok(Some(full(1., &[3, 4]))));
    assert_eq!(mean.grad(&g, &mean, None), Ok(Some(full(1., &[4]))));
    assert_eq!(sum.eval(&g, None), Err(GraphError::MissingPlaceholder));
    assert_eq!(sum.grad(&g, &a, None), Err(GraphError::MissingPlaceholder));
    assert_eq!(
        product.grad(&g, &product, None),
        Err(GraphError::Shape(ShapeError::MatMul))
    );
}

#[test]
fn test_shape_that_no_array_can_have() {
    let mut g = Graph::<R>::new();
    let p = Tensor::new_placeholder(&mut g, "x".to_owned(), vec![2, 0]).unwrap();
    let wide = Tensor::new_placeholder(&mut g, "w".to_owned(), vec![usize::MAX, 1]).unwrap();
    let tall = Tensor::new_placeholder(&mut g, "t".to_owned(), vec![1, 2]).unwrap();
    let sum = wide.add(&mut g, &tall).unwrap();

    assert_eq!(p.shape(&g), Err(GraphError::Shape(ShapeError::ZeroDimension)));
    assert_eq!(p.grad(&g, &p, None), Err(GraphError::Shape(ShapeError::ZeroDimension)));
    assert_eq!(wide.shape(&g), Ok(vec![usize::MAX, 1]));
    assert_eq!(sum.shape(&g), Err(GraphError::Shape(ShapeError::TooLarge)));
    assert_eq!(sum.grad(&g, &sum, None), Err(GraphError::Shape(ShapeError::TooLarge)));
}

#[test]
fn test_placeholder_wrong_shape() {
    let mut g = Graph::new();
    let p = Tensor::new_placeholder(&mut g, "x".to_owned(), vec![2, 2, 4]).unwrap();
    let mut feed_dict = Feed::new();
    feed_dict.insert("x".to_owned(), full(1., &[2, 2, 5]));

    assert_eq!(p.eval(&g, Some(&feed_dict)), Err(GraphError::PlaceholderShape));
}

#[test]
fn test_placeholder_under_another_name() {
    let mut g = Graph::new();
    let p = Tensor::new_placeholder(&mut g, "x".to_owned(), vec![2]).unwrap();
    let mut feed_dict = Feed::new();
    feed_dict.insert("y".to_owned(), full(1., &[2]));

    assert_eq!(p.eval(&g, Some(&feed_dict)), Err(GraphError::MissingPlaceholder));
}

#[test]
fn test_placeholder_without_dimensions() {
    let mut g = Graph::<R>::new();

    assert_eq!(
        Tensor::new_placeholder(&mut g, "x".to_owned(), vec![]),
        Err(GraphError::Shape(ShapeError::EmptyShape))
    );
}

#[test]
fn test_feed_keeps_the_last_value_for_a_name() {
    let mut g = Graph::new();
    let p = Tensor::new_placeholder(&mut g, "x".to_owned(), vec![2]).unwrap();
    let mut feed_dict = Feed::new();
    feed_dict.insert("x".to_owned(), full(1., &[2]));
    feed_dict.insert("z".to_owned(), full(5., &[2]));
    feed_dict.insert("x".to_owned(), full(2., &[2]));

    assert_eq!(p.eval(&g, Some(&feed_dict)), Ok(full(2., &[2])));
    assert_eq!(feed_dict.get(&"z".to_owned()), Some(&full(5., &[2])));
    assert_eq!(feed_dict.get(&"w".to_owned()), None);
}

#[test]
fn test_add_operator_eval() {
    let mut g = Graph::new();
    let a = Tensor::new_variable(&mut g, full(1., &[2, 2, 3])).unwrap();
    let b = Tensor::new_variable(&mut g, full(2., &[2, 2, 3])).unwrap();

    let res = a.add(&mut g, &b).unwrap().eval(&g, None);

    assert_eq!(res, Ok(full(3., &[2, 2, 3])));
}

#[test]
fn test_add_operator_gradient() {
    let mut g = Graph::new();
    let a = Tensor::new_variable(&mut g, full(1., &[2, 2, 3])).unwrap();
    let b = Tensor::new_variable(&mut g, full(2., &[2, 2, 3])).unwrap();
    let c = Tensor::new_variable(&mut g, full(2., &[2, 2, 3])).unwrap();
    let add = a.add(&mut g, &b).unwrap();

    assert_eq!(add.eval(&g, None), Ok(full(3., &[2, 2, 3])));
    assert_eq!(add.grad(&g, &a, None), Ok(Some(full(1., &[2, 2, 3]))));
    assert_eq!(add.grad(&g, &b, None), Ok(Some(full(1., &[2, 2, 3]))));
    assert_eq!(add.grad(&g, &c, None), Ok(None));
}

#[test]
fn test_add_operator_scalar() {
    let mut g = Graph::new();
    let a = Tensor::new_variable(&mut g, full(1., &[2, 2, 3])).unwrap();
    let b = Tensor::new_variable(&mut g, full(2., &[2, 2, 3])).unwrap();
    let add = a.add_scalar(&mut g, R(2.)).unwrap();

    assert_eq!(add.eval(&g, None), Ok(full(3., &[2, 2, 3])));
    assert_eq!(add.grad(&g, &a, None), Ok(Some(full(1., &[2, 2, 3]))));
    assert_eq!(add.grad(&g, &b, None), Ok(None));
}

#[test]
fn test_sub_operator() {
    let mut g = Graph::new();
    let a = Tensor::new_variable(&mut g, full(1., &[2, 2, 3])).unwrap();
    let b = Tensor::new_variable(&mut g, full(2., &[2, 2, 3])).unwrap();
    let c = Tensor::new_variable(&mut g, full(2., &[2, 2, 3])).unwrap();
    let sub = a.sub(&mut g, &b).unwrap();

    assert_eq!(sub.eval(&g, None), Ok(full(-1., &[2, 2, 3])));
    assert_eq!(sub.grad(&g, &a, None), Ok(Some(full(1., &[2, 2, 3]))));
    assert_eq!(sub.grad(&g, &b, None), Ok(Some(full(-1., &[2, 2, 3]))));
    assert_eq!(sub.grad(&g, &c, None), Ok(None));
}

#[test]
fn test_sub_operator_scalar() {
    let mut g = Graph::new();
    let a = Tensor::new_variable(&mut g, full(1., &[2, 2, 3])).unwrap();
    let sub = a.sub_scalar(&mut g, R(2.)).unwrap();

    assert_eq!(sub.eval(&g, None), Ok(full(-1., &[2, 2, 3])));
    assert_eq!(sub.grad(&g, &a, None), Ok(Some(full(1., &[2, 2, 3]))));
}

#[test]
fn test_mul_operator() {
    let mut g = Graph::new();
    let a = Tensor::new_variable(&mut g, full(1., &[2, 2, 3])).unwrap();
    let b = Tensor::new_variable(&mut g, full(2., &[2, 2, 3])).unwrap();
    let c = Tensor::new_variable(&mut g, full(2., &[2, 2, 3])).unwrap();
    let mul = a.mul(&mut g, &b).unwrap();

    assert_eq!(mul.eval(&g, None), Ok(full(2., &[2, 2, 3])));
    assert_eq!(mul.grad(&g, &a, None), Ok(Some(full(2., &[2, 2, 3]))));
    assert_eq!(mul.grad(&g, &b, None), Ok(Some(full(1., &[2, 2, 3]))));
    assert_eq!(mul.grad(&g, &c, None), Ok(None));
}

#[test]
fn test_mul_operator_scalar() {
    let mut g = Graph::new();
    let a = Tensor::new_variable(&mut g, full(1., &[2, 2, 3])).unwrap();
    let mul = a.mul_scalar(&mut g, R(2.)).unwrap();

    assert_eq!(mul.eval(&g, None), Ok(full(2., &[2, 2, 3])));
    assert_eq!(mul.grad(&g, &a, None), Ok(Some(full(2., &[2, 2, 3]))));
}

#[test]
fn test_div_operator() {
    let mut g = Graph::new();
    let a = Tensor::new_variable(&mut g, full(1., &[2, 2, 3])).unwrap();
    let b = Tensor::new_variable(&mut g, full(2., &[2, 2, 3])).unwrap();
    let c = Tensor::new_variable(&mut g, full(2., &[2, 2, 3])).unwrap();
    let div = a.div(&mut g, &b).unwrap();

    assert_eq!(div.eval(&g, None), Ok(full(0.5, &[2, 2, 3])));
    assert_eq!(div.grad(&g, &a, None), Ok(Some(full(0.5, &[2, 2, 3]))));
    assert_eq!(div.grad(&g, &b, None), Ok(Some(full(-1. / 4., &[2, 2, 3]))));
    assert_eq!(div.grad(&g, &c, None), Ok(None));
}

#[test]
fn test_div_gradient_by_the_divisor_is_minus_x_over_y_squared() {
    let mut g = Graph::new();
    let x = Tensor::new_variable(&mut g, array(&[3., 5.], &[2])).unwrap();
    let y = Tensor::new_variable(&mut g, array(&[2., 4.], &[2])).unwrap();
    let div = x.div(&mut g, &y).unwrap();

    assert_eq!(div.grad(&g, &y, None), Ok(Some(array(&[-3. / 4., -5. / 16.], &[2]))));
    assert_eq!(div.grad(&g, &x, None), Ok(Some(array(&[1. / 2., 1. / 4.], &[2]))));
}

#[test]
fn test_div_operator_scalar() {
    let mut g = Graph::new();
    let a = Tensor::new_variable(&mut g, full(1., &[2, 2, 3])).unwrap();
    let div = a.div_scalar(&mut g, R(2.)).unwrap();

    assert_eq!(div.eval(&g, None), Ok(full(0.5, &[2, 2, 3])));
    assert_eq!(div.grad(&g, &a, None), Ok(Some(full(0.5, &[2, 2, 3]))));
}

#[test]
fn tensor_test_matmul() {
    let mut g = Graph::new();
    let a = Tensor::new_variable(&mut g, full(1., &[2, 3, 2])).unwrap();
    let b = Tensor::new_variable(&mut g, full(2., &[2, 2, 4])).unwrap();
    let c = Tensor::new_variable(&mut g, full(2., &[2, 2, 4])).unwrap();
    let matmul = a.matmul(&mut g, &b).unwrap();

    assert_eq!(matmul.eval(&g, None), Ok(full(4., &[2, 3, 4])));
    assert_eq!(matmul.grad(&g, &a, None), Ok(Some(full(8., &[2, 3, 2]))));
    assert_eq!(matmul.grad(&g, &b, None), Ok(Some(full(3., &[2, 2, 4]))));
    assert_eq!(matmul.grad(&g, &c, None), Ok(None));
}

#[test]
fn test_neg_operator() {
    let mut g = Graph::new();
    let a = Tensor::new_variable(&mut g, full(1., &[2, 3, 2])).unwrap();
    let b = Tensor::new_variable(&mut g, full(1., &[2, 3, 2])).unwrap();
    let neg = a.neg(&mut g).unwrap();

    assert_eq!(neg.eval(&g, None), Ok(full(-1., &[2, 3, 2])));
    assert_eq!(neg.grad(&g, &a, None), Ok(Some(full(-1., &[2, 3, 2]))));
    assert_eq!(neg.grad(&g, &b, None), Ok(None));
}

#[test]
fn test_neg_consume_operator() {
    let mut g = Graph::new();
    let a = Tensor::new_variable(&mut g, full(1., &[2, 3, 2])).unwrap();
    let neg = a.neg(&mut g).unwrap();

    assert_eq!(neg.eval(&g, None), Ok(full(-1., &[2, 3, 2])));
}

#[test]
fn test_complex_example() {
    let mut g = Graph::new();
    let a = Tensor::new_variable(
        &mut g,
        array(&[2., 3., 4., 5., 10., 12., 2., 6., 12., 10., 23., 12.], &[2, 3, 2]),
    )
    .unwrap();
    let b = Tensor::new_variable(&mut g, full(3., &[2, 2, 4])).unwrap();
    let c = Tensor::new_placeholder(&mut g, "test".to_owned(), vec![2, 3, 4]).unwrap();
    let ph_value = full(17., &[2, 3, 4]);
    let mut feed_dict = Feed::new();
    feed_dict.insert("test".to_owned(), ph_value);
    assert_eq!(b.assign(&mut g, &full(3., &[2, 2, 4])), Ok(()));

    let product = a.matmul(&mut g, &b).unwrap();
    let shifted = product.add_scalar(&mut g, R(3.)).unwrap();
    let scaled = shifted.mul(&mut g, &c).unwrap();
    let result = scaled.div_scalar(&mut g, R(5.)).unwrap();

    near(
        &result.eval(&g, Some(&feed_dict)).unwrap(),
        &array(
            &[
                61.2, 61.2, 61.2, 61.2,
                102., 102., 102., 102.,
                234.6, 234.6, 234.6, 234.6,

                91.8, 91.8, 91.8, 91.8,
                234.6, 234.6, 234.6, 234.6,
                367.2, 367.2, 367.2, 367.2,
            ],
            &[2, 3, 4],
        ),
    );
    near(
        &result.grad(&g, &a, Some(&feed_dict)).unwrap().unwrap(),
        &array(
            &[
                40.800003, 40.800003,
                40.800003, 40.800003,
                40.800003, 40.800003,

                40.800003, 40.800003,
                40.800003, 40.800003,
                40.800003, 40.800003,
            ],
            &[2, 3, 2],
        ),
    );
    near(
        &result.grad(&g, &b, Some(&feed_dict)).unwrap().unwrap(),
        &array(
            &[
                54.4, 54.4, 54.4, 54.4,
                68., 68., 68., 68.,

                125.8, 125.8, 125.8, 125.8,
                95.200005, 95.200005, 95.200005, 95.200005,
            ],
            &[2, 2, 4],
        ),
    );
    near(
        &result.grad(&g, &c, Some(&feed_dict)).unwrap().unwrap(),
        &array(
            &[
                3.6000001, 3.6000001, 3.6000001, 3.6000001,
                6., 6., 6., 6.,
                13.8, 13.8, 13.8, 13.8,

                5.4, 5.4, 5.4, 5.4,
                13.8, 13.8, 13.8, 13.8,
                21.6, 21.6, 21.6, 21.6,
            ],
            &[2, 3, 4],
        ),
    );
}

#[test]
fn test_add_scenario() {
    let mut g = Graph::new();
    let a = Tensor::new_variable(&mut g, full(1., &[2, 2, 3])).unwrap();
    let b = Tensor::new_variable(&mut g, full(2., &[2, 2, 3])).unwrap();
    let c = Tensor::new_variable(&mut g, full(5., &[2, 2, 3])).unwrap();
    let sum = a.add(&mut g, &b).unwrap();

    assert_eq!(sum.eval(&g, None), Ok(full(3., &[2, 2, 3])));
    assert_eq!(sum.grad(&g, &a, None), Ok(Some(full(1., &[2, 2, 3]))));
    assert_eq!(sum.grad(&g, &c, None), Ok(None));
}

#[test]
fn test_fan_out_accumulation() {
    // The variable is reached on three paths: as the second factor, which
    // gets the value of the first, 2, and twice as a term of the sum, each
    // time with the value of the second factor, 1.
    let mut g = Graph::new();
    let a = Tensor::new_variable(&mut g, array(&[1.], &[1])).unwrap();
    let sum = a.add(&mut g, &a).unwrap();
    let e = sum.mul(&mut g, &a).unwrap();

    assert_eq!(e.eval(&g, None), Ok(array(&[2.], &[1])));
    assert_eq!(e.grad(&g, &a, None), Ok(Some(array(&[4.], &[1]))));

    // Twice the square of the variable has four times the variable as its
    // derivative.
    assert_eq!(a.assign(&mut g, &array(&[3.], &[1])), Ok(()));
    assert_eq!(e.eval(&g, None), Ok(array(&[18.], &[1])));
    assert_eq!(e.grad(&g, &a, None), Ok(Some(array(&[12.], &[1]))));
}

#[test]
fn test_value_has_the_shape_of_the_tensor() {
    let mut g = Graph::new();
    let a = Tensor::new_variable(&mut g, full(1., &[4, 1, 3])).unwrap();
    let b = Tensor::new_variable(&mut g, full(2., &[5, 3])).unwrap();
    let c = Tensor::new_variable(&mut g, full(2., &[3, 2])).unwrap();
    let sum = a.add(&mut g, &b).unwrap();
    let product = sum.matmul(&mut g, &c).unwrap();
    let mean = reduce_mean(&mut g, &product, Some(1), false).unwrap();

    for t in [a, b, c, sum, product, mean] {
        assert_eq!(t.shape(&g), Ok(t.eval(&g, None).unwrap().get_shape()));
    }
    assert_eq!(mean.shape(&g), Ok(vec![4, 2]));
}

#[test]
fn test_fan_out_of_a_shared_input() {
    let mut g = Graph::new();
    let a = Tensor::new_variable(&mut g, array(&[3.], &[1])).unwrap();
    let b = Tensor::new_variable(&mut g, array(&[5.], &[1])).unwrap();
    let left = a.mul(&mut g, &b).unwrap();
    let right = a.add(&mut g, &b).unwrap();
    let e = left.add(&mut g, &right).unwrap();

    assert_eq!(e.eval(&g, None), Ok(array(&[23.], &[1])));
    assert_eq!(e.grad(&g, &a, None), Ok(Some(array(&[6.], &[1]))));
    assert_eq!(e.grad(&g, &b, None), Ok(Some(array(&[4.], &[1]))));
}

#[test]
fn test_self_gradient_is_ones_of_the_shape() {
    let mut g = Graph::new();
    let a = Tensor::new_variable(&mut g, array(&[1., 2., 3., 4., 5., 6.], &[2, 3])).unwrap();
    let b = Tensor::new_variable(&mut g, array(&[1., 2., 3.], &[3])).unwrap();
    let product = a.mul(&mut g, &b).unwrap();
    let total = reduce_sum(&mut g, &product, Some(0), false).unwrap();

    assert_eq!(product.grad(&g, &product, None), Ok(Some(full(1., &[2, 3]))));
    assert_eq!(total.grad(&g, &total, None), Ok(Some(full(1., &[3]))));
    assert_eq!(total.shape(&g), Ok(vec![3]));
    assert_eq!(product.shape(&g), Ok(vec![2, 3]));
}

#[test]
fn test_gradient_by_an_unreachable_node_is_nothing() {
    let mut g = Graph::new();
    let a = Tensor::new_variable(&mut g, full(1., &[2])).unwrap();
    let b = Tensor::new_variable(&mut g, full(2., &[2])).unwrap();
    let sum = a.add(&mut g, &b).unwrap();
    let later = sum.mul_scalar(&mut g, R(2.)).unwrap();
    let apart = b.neg(&mut g).unwrap();

    assert_eq!(sum.grad(&g, &later, None), Ok(None));
    assert_eq!(sum.grad(&g, &apart, None), Ok(None));
    assert_eq!(apart.grad(&g, &a, None), Ok(None));
    assert_eq!(later.grad(&g, &a, None), Ok(Some(full(2., &[2]))));
}

#[test]
fn test_gradient_broadcasts_back() {
    let mut g = Graph::new();
    let a = Tensor::new_variable(&mut g, array(&[1., 2., 3., 4., 5., 6.], &[2, 3])).unwrap();
    let b = Tensor::new_variable(&mut g, array(&[10., 20., 30.], &[3])).unwrap();
    let sum = a.add(&mut g, &b).unwrap();

    assert_eq!(sum.eval(&g, None), Ok(array(&[11., 22., 33., 14., 25., 36.], &[2, 3])));
    assert_eq!(sum.grad(&g, &b, None), Ok(Some(full(1., &[2, 3]))));
}

#[test]
fn test_shape_error_fails_the_whole_call() {
    let mut g = Graph::new();
    let a = Tensor::new_variable(&mut g, full(1., &[2, 3])).unwrap();
    let b = Tensor::new_variable(&mut g, full(1., &[2, 4])).unwrap();
    let sum = a.add(&mut g, &b).unwrap();
    let product = a.matmul(&mut g, &b).unwrap();

    assert_eq!(sum.eval(&g, None), Err(GraphError::Shape(ShapeError::Broadcast)));
    assert_eq!(sum.grad(&g, &a, None), Err(GraphError::Shape(ShapeError::Broadcast)));
    assert_eq!(sum.shape(&g), Err(GraphError::Shape(ShapeError::Broadcast)));
    assert_eq!(product.eval(&g, None), Err(GraphError::Shape(ShapeError::MatMul)));
}

#[test]
fn test_assign() {
    let mut g = Graph::new();
    let a = Tensor::new_variable(&mut g, full(1., &[2, 2])).unwrap();
    let double = a.mul_scalar(&mut g, R(2.)).unwrap();

    assert_eq!(double.eval(&g, None), Ok(full(2., &[2, 2])));
    assert_eq!(a.assign(&mut g, &array(&[1., 2., 3., 4.], &[2, 2])), Ok(()));
    assert_eq!(double.eval(&g, None), Ok(array(&[2., 4., 6., 8.], &[2, 2])));
}

#[test]
fn test_assign_add() {
    let mut g = Graph::new();
    let a = Tensor::new_variable(&mut g, array(&[1., 2., 3., 4.], &[2, 2])).unwrap();

    assert_eq!(a.assign_add(&mut g, &array(&[10., 20.], &[2])), Ok(()));
    assert_eq!(a.eval(&g, None), Ok(array(&[11., 22., 13., 24.], &[2, 2])));
}

#[test]
fn test_assign_to_a_node_that_is_no_variable() {
    let mut g = Graph::new();
    let a = Tensor::new_variable(&mut g, full(1., &[2, 2])).unwrap();
    let p = Tensor::new_placeholder(&mut g, "p".to_owned(), vec![2, 2]).unwrap();
    let neg = a.neg(&mut g).unwrap();

    assert_eq!(neg.assign(&mut g, &full(2., &[2, 2])), Err(GraphError::InvalidMutation));
    assert_eq!(p.assign(&mut g, &full(2., &[2, 2])), Err(GraphError::InvalidMutation));
    assert_eq!(neg.assign_add(&mut g, &full(2., &[2, 2])), Err(GraphError::InvalidMutation));
    assert_eq!(a.eval(&g, None), Ok(full(1., &[2, 2])));
}

#[test]
fn test_assign_of_another_shape() {
    let mut g = Graph::new();
    let a = Tensor::new_variable(&mut g, full(1., &[2, 2])).unwrap();

    assert_eq!(
        a.assign(&mut g, &full(2., &[2, 3])),
        Err(GraphError::Shape(ShapeError::ShapeChanged))
    );
    assert_eq!(
        a.assign_add(&mut g, &full(2., &[3, 2, 2])),
        Err(GraphError::Shape(ShapeError::ShapeChanged))
    );
    assert_eq!(
        a.assign_add(&mut g, &full(2., &[3])),
        Err(GraphError::Shape(ShapeError::Broadcast))
    );
    assert_eq!(a.eval(&g, None), Ok(full(1., &[2, 2])));
}

#[test]
fn test_tensor_of_another_graph() {
    let mut g = Graph::new();
    let mut h = Graph::new();
    let a = Tensor::new_variable(&mut g, full(1., &[2])).unwrap();
    let _b = Tensor::new_variable(&mut h, full(1., &[2])).unwrap();
    let c = Tensor::new_variable(&mut h, full(1., &[2])).unwrap();

    assert_eq!(c.eval(&g, None), Err(GraphError::UnknownNode));
    assert_eq!(a.grad(&g, &c, None), Err(GraphError::UnknownNode));
    assert_eq!(a.add(&mut g, &c), Err(GraphError::UnknownNode));
    assert_eq!(c.shape(&g), Err(GraphError::UnknownNode));
    assert_eq!(c.assign(&mut g, &full(1., &[2])), Err(GraphError::UnknownNode));
    assert_eq!(g.len(), 1);
}

#[test]
fn test_math_functions() {
    let mut g = Graph::new();
    let x = Tensor::new_variable(&mut g, array(&[0.5, 2.], &[2])).unwrap();
    let s = sin(&mut g, &x).unwrap();
    let c = cos(&mut g, &x).unwrap();
    let l = ln(&mut g, &x).unwrap();
    let t = tanh(&mut g, &x).unwrap();

    assert_eq!(s.eval(&g, None), Ok(array(&[0.5f64.sin(), 2f64.sin()], &[2])));
    assert_eq!(s.grad(&g, &x, None), Ok(Some(array(&[0.5f64.cos(), 2f64.cos()], &[2]))));
    assert_eq!(c.eval(&g, None), Ok(array(&[0.5f64.cos(), 2f64.cos()], &[2])));
    assert_eq!(c.grad(&g, &x, None), Ok(Some(array(&[-(0.5f64.sin()), -(2f64.sin())], &[2]))));
    assert_eq!(l.eval(&g, None), Ok(array(&[0.5f64.ln(), 2f64.ln()], &[2])));
    assert_eq!(l.grad(&g, &x, None), Ok(Some(array(&[2., 0.5], &[2]))));
    assert_eq!(t.eval(&g, None), Ok(array(&[0.5f64.tanh(), 2f64.tanh()], &[2])));
    assert_eq!(
        t.grad(&g, &x, None),
        Ok(Some(array(
            &[1. - 0.5f64.tanh() * 0.5f64.tanh(), 1. - 2f64.tanh() * 2f64.tanh()],
            &[2]
        )))
    );
}

#[test]
fn test_sigmoid_and_relu() {
    let mut g = Graph::new();
    let x = Tensor::new_variable(&mut g, array(&[0., -3., 2.], &[3])).unwrap();
    let s = sigmoid(&mut g, &x).unwrap();
    let r = relu(&mut g, &x).unwrap();
    let at = |v: f64| 1. / (1. + (-v).exp());

    assert_eq!(s.eval(&g, None), Ok(array(&[0.5, at(-3.), at(2.)], &[3])));
    assert_eq!(
        s.grad(&g, &x, None),
        Ok(Some(array(
            &[0.25, at(-3.) * (1. - at(-3.)), at(2.) * (1. - at(2.))],
            &[3]
        )))
    );
    assert_eq!(r.eval(&g, None), Ok(array(&[0., 0., 2.], &[3])));
    assert_eq!(r.grad(&g, &x, None), Ok(Some(array(&[0., 0., 1.], &[3]))));
}

#[test]
fn test_pow_and_log() {
    let mut g = Graph::new();
    let x = Tensor::new_variable(&mut g, array(&[2., 4.], &[2])).unwrap();
    let p = pow(&mut g, &x, R(3.)).unwrap();
    let l = log(&mut g, &x, R(2.)).unwrap();

    assert_eq!(p.eval(&g, None), Ok(array(&[8., 64.], &[2])));
    assert_eq!(p.grad(&g, &x, None), Ok(Some(array(&[12., 48.], &[2]))));
    assert_eq!(l.eval(&g, None), Ok(array(&[1., 2.], &[2])));
    assert_eq!(
        l.grad(&g, &x, None),
        Ok(Some(array(&[1. / (2. * 2f64.ln()), 1. / (4. * 2f64.ln())], &[2])))
    );
}

#[test]
fn test_reduce_sum_tensor() {
    let mut g = Graph::new();
    let x = Tensor::new_variable(&mut g, array(&[1., 2., 3., 4., 5., 6.], &[2, 3])).unwrap();
    let rows = reduce_sum(&mut g, &x, Some(1), true).unwrap();
    let all = reduce_sum(&mut g, &x, None, false).unwrap();

    assert_eq!(rows.eval(&g, None), Ok(array(&[6., 15.], &[2, 1])));
    assert_eq!(rows.grad(&g, &x, None), Ok(Some(full(1., &[2, 3]))));
    assert_eq!(rows.shape(&g), Ok(vec![2, 1]));
    assert_eq!(all.eval(&g, None), Ok(array(&[21.], &[1])));
    assert_eq!(all.grad(&g, &x, None), Ok(Some(full(1., &[2, 3]))));
}

#[test]
fn test_reduce_mean_tensor() {
    let mut g = Graph::new();
    let x = Tensor::new_variable(&mut g, array(&[1., 2., 3., 4., 5., 6.], &[2, 3])).unwrap();
    let rows = reduce_mean(&mut g, &x, Some(1), true).unwrap();
    let all = reduce_mean(&mut g, &x, None, false).unwrap();
    let wrong = reduce_mean(&mut g, &x, Some(2), false).unwrap();

    assert_eq!(rows.eval(&g, None), Ok(array(&[2., 5.], &[2, 1])));
    assert_eq!(rows.grad(&g, &x, None), Ok(Some(full(1. / 3., &[2, 3]))));
    assert_eq!(all.eval(&g, None), Ok(array(&[3.5], &[1])));
    assert_eq!(all.grad(&g, &x, None), Ok(Some(full(1. / 6., &[2, 3]))));
    assert_eq!(wrong.eval(&g, None), Err(GraphError::Shape(ShapeError::Axis)));
}

#[test]
fn test_a_shared_node_is_evaluated_like_any_other() {
    let mut g = Graph::new();
    let x = Tensor::new_variable(&mut g, array(&[1., 2.], &[2])).unwrap();
    let shared = x.mul_scalar(&mut g, R(3.)).unwrap();
    let left = shared.add_scalar(&mut g, R(1.)).unwrap();
    let right = shared.mul(&mut g, &shared).unwrap();
    let e = left.add(&mut g, &right).unwrap();

    assert_eq!(e.eval(&g, None), Ok(array(&[13., 43.], &[2])));
}

#[test]
fn test_nodes_by_hand() {
    let mut g = Graph::new();
    let variable = Variable::new(array(&[1., 2.], &[2])).unwrap();
    assert_eq!(variable.shape(), vec![2]);
    assert_eq!(variable.get_name(), "VariableOp");
    let x = g.push(Node::Variable(variable)).unwrap();
    let placeholder = Placeholder::new("p".to_owned(), vec![2]).unwrap();
    assert_eq!(placeholder.shape(), vec![2]);
    assert_eq!(placeholder.get_name(), "PlaceholderOp");
    let p = g.push(Node::Placeholder(placeholder)).unwrap();
    let neg = NegOp::new(x);
    assert_eq!(neg.get_inputs(), vec![x]);
    assert_eq!(neg.get_name(), "NegOp");
    let n = g.push(Node::Neg(neg)).unwrap();
    let sum = g.push(Node::Add(AddOp::new(n, p))).unwrap();
    let mut feed_dict = Feed::new();
    feed_dict.insert("p".to_owned(), array(&[10., 20.], &[2]));

    assert_eq!((x, p, n, sum), (0, 1, 2, 3));
    assert_eq!(g.node(sum).get_inputs(), vec![n, p]);
    assert_eq!(g.node(sum).get_name(), "AddOp");
    assert_eq!(g.eval(sum, Some(&feed_dict)), Ok(array(&[9., 18.], &[2])));
    assert_eq!(g.grad(sum, x, Some(&feed_dict)), Ok(Some(array(&[-1., -1.], &[2]))));
    assert_eq!(g.shape(sum), Ok(vec![2]));
}

#[test]
fn test_push_with_an_input_that_is_no_node() {
    let mut g = Graph::<R>::new();

    assert_eq!(g.push(Node::Neg(NegOp::new(0))), Err(GraphError::UnknownNode));
    assert_eq!(g.push(Node::Add(AddOp::new(0, 1))), Err(GraphError::UnknownNode));
    assert_eq!(g.len(), 0);
}

#[test]
fn test_wrapper() {
    let wrapper = WrapperOp::new(3, vec![2, 2]);

    assert_eq!(wrapper.input, 3);
    assert_eq!(wrapper.shape(), vec![2, 2]);
    assert_eq!(wrapper.get_name(), "WrapperOp");
}

#[test]
fn test_local_gradients() {
    let x = array(&[1., 2.], &[2]);
    let y = array(&[3., 4.], &[2]);
    let g = array(&[10., 100.], &[2]);
    let mul = MulOp::new(0, 1);
    let sub = SubOp::new(0, 1);

    assert_eq!(mul.compute(&x, &y), Ok(array(&[3., 8.], &[2])));
    assert_eq!(mul.compute_accum_grad(0, &x, &y, &g), Ok(Some(array(&[30., 400.], &[2]))));
    assert_eq!(mul.compute_accum_grad(1, &x, &y, &g), Ok(Some(array(&[10., 200.], &[2]))));
    assert_eq!(mul.compute_accum_grad(2, &x, &y, &g), Ok(None));
    assert_eq!(sub.compute_accum_grad(0, &x, &y, &g), Ok(Some(array(&[10., 100.], &[2]))));
    assert_eq!(sub.compute_accum_grad(1, &x, &y, &g), Ok(Some(array(&[-10., -100.], &[2]))));
}

#[test]
fn test_sigmoid_functions() {
    assert_eq!(graph_sigmoid(R(0.)), R(0.5));
    assert_eq!(sigmoid_derivative(R(0.)), R(0.25));
}

#[test]
fn test_fan_in_adds_every_contribution() {
    // The target is an input of three parents. Their contributions are
    // 2 from the product with a constant, 5 from the product with a
    // variable, and 1 from the sum.
    let mut g = Graph::new();
    let t = Tensor::new_variable(&mut g, array(&[7.], &[1])).unwrap();
    let five = Tensor::new_variable(&mut g, array(&[5.], &[1])).unwrap();
    let first = t.mul_scalar(&mut g, R(2.)).unwrap();
    let second = t.mul(&mut g, &five).unwrap();
    let third = t.add(&mut g, &five).unwrap();
    let two = first.add(&mut g, &second).unwrap();
    let root = two.add(&mut g, &third).unwrap();

    assert_eq!(first.grad(&g, &t, None), Ok(Some(array(&[2.], &[1]))));
    assert_eq!(second.grad(&g, &t, None), Ok(Some(array(&[5.], &[1]))));
    assert_eq!(third.grad(&g, &t, None), Ok(Some(array(&[1.], &[1]))));
    assert_eq!(root.grad(&g, &t, None), Ok(Some(array(&[8.], &[1]))));
    assert_eq!(root.grad(&g, &five, None), Ok(Some(array(&[8.], &[1]))));
}

#[test]
fn test_gradient_hands_down_what_has_arrived() {
    // The node `shared` is reached twice. On each arrival it hands the
    // gradient that has arrived at it so far down to the variable: first
    // 3 times 2, then 3 plus 1 times 2.
    let mut g = Graph::new();
    let a = Tensor::new_variable(&mut g, array(&[1.], &[1])).unwrap();
    let shared = a.mul_scalar(&mut g, R(2.)).unwrap();
    let left = shared.add_scalar(&mut g, R(1.)).unwrap();
    let right = shared.mul_scalar(&mut g, R(3.)).unwrap();
    let e = left.add(&mut g, &right).unwrap();

    assert_eq!(e.eval(&g, None), Ok(array(&[9.], &[1])));
    assert_eq!(e.grad(&g, &shared, None), Ok(Some(array(&[4.], &[1]))));
    assert_eq!(e.grad(&g, &a, None), Ok(Some(array(&[14.], &[1]))));
}
