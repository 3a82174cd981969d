use neurust::linalg::matmul::matmul_2d_matrix_slices;
use neurust::{Array, Numeric};

#[derive(Clone, Copy, Debug, PartialEq)]
struct R32(f32);

impl Numeric for R32 {
    fn zero() -> Self {
        R32(0.0)
    }

    fn zero_spec() -> Self {
        R32(0.0)
    }

    fn one() -> Self {
        R32(1.0)
    }

    fn one_spec() -> Self {
        R32(1.0)
    }

    fn from_usize(n: usize) -> Self {
        R32(n as f32)
    }

    fn from_usize_spec(n: usize) -> Self {
        R32(n as f32)
    }

    fn min_positive_value() -> Self {
        R32(f32::MIN_POSITIVE)
    }

    fn min_positive_value_spec() -> Self {
        R32(f32::MIN_POSITIVE)
    }

    fn max_value() -> Self {
        R32(f32::MAX)
    }

    fn max_value_spec() -> Self {
        R32(f32::MAX)
    }

    fn add(self, rhs: Self) -> Self {
        R32(self.0 + rhs.0)
    }

    fn add_spec(self, rhs: Self) -> Self {
        R32(self.0 + rhs.0)
    }

    fn sub(self, rhs: Self) -> Self {
        R32(self.0 - rhs.0)
    }

    fn sub_spec(self, rhs: Self) -> Self {
        R32(self.0 - rhs.0)
    }

    fn mul(self, rhs: Self) -> Self {
        R32(self.0 * rhs.0)
    }

    fn mul_spec(self, rhs: Self) -> Self {
        R32(self.0 * rhs.0)
    }

    fn div(self, rhs: Self) -> Self {
        R32(self.0 / rhs.0)
    }

    fn div_spec(self, rhs: Self) -> Self {
        R32(self.0 / rhs.0)
    }

    fn max(self, other: Self) -> Self {
        R32(self.0.max(other.0))
    }

    fn max_spec(self, other: Self) -> Self {
        R32(self.0.max(other.0))
    }

    fn min(self, other: Self) -> Self {
        R32(self.0.min(other.0))
    }

    fn min_spec(self, other: Self) -> Self {
        R32(self.0.min(other.0))
    }

    fn powf(self, exponent: Self) -> Self {
        R32(self.0.powf(exponent.0))
    }

    fn powf_spec(self, exponent: Self) -> Self {
        R32(self.0.powf(exponent.0))
    }

    fn log(self, base: Self) -> Self {
        R32(self.0.log(base.0))
    }

    fn log_spec(self, base: Self) -> Self {
        R32(self.0.log(base.0))
    }

    fn neg(self) -> Self {
        R32(-self.0)
    }

    fn neg_spec(self) -> Self {
        R32(-self.0)
    }

    fn abs(self) -> Self {
        R32(self.0.abs())
    }

    fn abs_spec(self) -> Self {
        R32(self.0.abs())
    }

    fn sin(self) -> Self {
        R32(self.0.sin())
    }

    fn sin_spec(self) -> Self {
        R32(self.0.sin())
    }

    fn cos(self) -> Self {
        R32(self.0.cos())
    }

    fn cos_spec(self) -> Self {
        R32(self.0.cos())
    }

    fn tanh(self) -> Self {
        R32(self.0.tanh())
    }

    fn tanh_spec(self) -> Self {
        R32(self.0.tanh())
    }

    fn ln(self) -> Self {
        R32(self.0.ln())
    }

    fn ln_spec(self) -> Self {
        R32(self.0.ln())
    }

    fn exp(self) -> Self {
        R32(self.0.exp())
    }

    fn exp_spec(self) -> Self {
        R32(self.0.exp())
    }

    fn equals(self, other: Self) -> bool {
        self.0 == other.0
    }

    fn equals_spec(self, other: Self) -> bool {
        self.0 == other.0
    }

    fn less_than(self, other: Self) -> bool {
        self.0 < other.0
    }

    fn less_than_spec(self, other: Self) -> bool {
        self.0 < other.0
    }

}

#[test]
fn test_matmul_2d_matrix_slices_f32() {
    let a: Vec<R32> = [1.0f32, 2.0, 3.0, 4.0, 5.0, 6.0].iter().map(|x| R32(*x)).collect();
    let b: Vec<R32> = [1.0f32, 2.0, 3.0, 4.0, 5.0, 6.0].iter().map(|x| R32(*x)).collect();
    let mut output_buff: Vec<R32> = vec![R32(0.0); 4];

    assert_eq!(matmul_2d_matrix_slices(&a, 2, 3, &b, 3, 2, &mut output_buff), Ok(()));

    assert_eq!(output_buff, vec![R32(22.0), R32(28.0), R32(49.0), R32(64.0)]);
}

#[test]
fn test_single_precision_arithmetic() {
    let a = Array::from_vec(vec![R32(0.1), R32(0.2)], vec![2]).unwrap();
    let b = Array::from_vec(vec![R32(0.2), R32(0.1)], vec![2]).unwrap();

    assert_eq!(
        a.add(&b).unwrap(),
        Array::from_vec(vec![R32(0.1f32 + 0.2f32), R32(0.2f32 + 0.1f32)], vec![2]).unwrap()
    );
}
