use vstd::prelude::*;

verus! {

/// The element type of an array: a floating-point number type.
///
/// The library never looks inside an element. Every operation it needs is a
/// method of this trait, and each method comes with a specification function
/// of the same name and the suffix `_spec` that names its result. The
/// contracts of the library are stated over those names.
///
/// An implementation owes each method what its `ensures` says: that the
/// method returns the value its specification function names, so that equal
/// arguments give equal results. The library assumes nothing else about the
/// arithmetic: neither associativity nor commutativity, nor any relation
/// between two operations. Where a law needs such a property, it asks for it
/// in its `requires`.
///
/// An implementation written outside the verifier gives each specification
/// function the body of the method it stands for.
pub trait Numeric: Copy + Sized {
    /// The additive identity.
    spec fn zero_spec() -> Self;

    fn zero() -> (r: Self)
        ensures
            r == Self::zero_spec(),
    ;

    /// The multiplicative identity.
    spec fn one_spec() -> Self;

    fn one() -> (r: Self)
        ensures
            r == Self::one_spec(),
    ;

    /// The element nearest to a count.
    spec fn from_usize_spec(n: usize) -> Self;

    fn from_usize(n: usize) -> (r: Self)
        ensures
            r == Self::from_usize_spec(n),
    ;

    /// The smallest positive normal element.
    spec fn min_positive_value_spec() -> Self;

    fn min_positive_value() -> (r: Self)
        ensures
            r == Self::min_positive_value_spec(),
    ;

    /// The largest finite element.
    spec fn max_value_spec() -> Self;

    fn max_value() -> (r: Self)
        ensures
            r == Self::max_value_spec(),
    ;

    spec fn add_spec(self, rhs: Self) -> Self;

    fn add(self, rhs: Self) -> (r: Self)
        ensures
            r == self.add_spec(rhs),
    ;

    spec fn sub_spec(self, rhs: Self) -> Self;

    fn sub(self, rhs: Self) -> (r: Self)
        ensures
            r == self.sub_spec(rhs),
    ;

    spec fn mul_spec(self, rhs: Self) -> Self;

    fn mul(self, rhs: Self) -> (r: Self)
        ensures
            r == self.mul_spec(rhs),
    ;

    spec fn div_spec(self, rhs: Self) -> Self;

    fn div(self, rhs: Self) -> (r: Self)
        ensures
            r == self.div_spec(rhs),
    ;

    /// The larger of two elements.
    spec fn max_spec(self, other: Self) -> Self;

    fn max(self, other: Self) -> (r: Self)
        ensures
            r == self.max_spec(other),
    ;

    /// The smaller of two elements.
    spec fn min_spec(self, other: Self) -> Self;

    fn min(self, other: Self) -> (r: Self)
        ensures
            r == self.min_spec(other),
    ;

    /// `self` raised to the power `exponent`.
    spec fn powf_spec(self, exponent: Self) -> Self;

    fn powf(self, exponent: Self) -> (r: Self)
        ensures
            r == self.powf_spec(exponent),
    ;

    /// The logarithm of `self` to the base `base`.
    spec fn log_spec(self, base: Self) -> Self;

    fn log(self, base: Self) -> (r: Self)
        ensures
            r == self.log_spec(base),
    ;

    spec fn neg_spec(self) -> Self;

    fn neg(self) -> (r: Self)
        ensures
            r == self.neg_spec(),
    ;

    spec fn abs_spec(self) -> Self;

    fn abs(self) -> (r: Self)
        ensures
            r == self.abs_spec(),
    ;

    spec fn sin_spec(self) -> Self;

    fn sin(self) -> (r: Self)
        ensures
            r == self.sin_spec(),
    ;

    spec fn cos_spec(self) -> Self;

    fn cos(self) -> (r: Self)
        ensures
            r == self.cos_spec(),
    ;

    spec fn tanh_spec(self) -> Self;

    fn tanh(self) -> (r: Self)
        ensures
            r == self.tanh_spec(),
    ;

    /// The natural logarithm.
    spec fn ln_spec(self) -> Self;

    fn ln(self) -> (r: Self)
        ensures
            r == self.ln_spec(),
    ;

    /// `e` raised to the power `self`.
    spec fn exp_spec(self) -> Self;

    fn exp(self) -> (r: Self)
        ensures
            r == self.exp_spec(),
    ;

    /// Whether two elements compare equal.
    spec fn equals_spec(self, other: Self) -> bool;

    fn equals(self, other: Self) -> (r: bool)
        ensures
            r == self.equals_spec(other),
    ;

    /// Whether `self` compares smaller than `other`.
    spec fn less_than_spec(self, other: Self) -> bool;

    fn less_than(self, other: Self) -> (r: bool)
        ensures
            r == self.less_than_spec(other),
    ;
}

/// A binary function on elements, applied pairwise by the element-wise
/// operations and as the reducer by the reductions.
#[derive(Clone, Copy, Debug, PartialEq, Eq, Structural)]
pub enum BinaryFn {
    Add,
    Sub,
    Mul,
    Div,
    Max,
    Min,
}

impl BinaryFn {
    /// The value of the function on `x` and `y`.
    pub open spec fn apply_spec<T: Numeric>(self, x: T, y: T) -> T {
        match self {
            BinaryFn::Add => x.add_spec(y),
            BinaryFn::Sub => x.sub_spec(y),
            BinaryFn::Mul => x.mul_spec(y),
            BinaryFn::Div => x.div_spec(y),
            BinaryFn::Max => x.max_spec(y),
            BinaryFn::Min => x.min_spec(y),
        }
    }

    /// Computes the value of the function on `x` and `y`.
    pub fn apply<T: Numeric>(self, x: T, y: T) -> (r: T)
        ensures
            r == self.apply_spec(x, y),
    {
        match self {
            BinaryFn::Add => x.add(y),
            BinaryFn::Sub => x.sub(y),
            BinaryFn::Mul => x.mul(y),
            BinaryFn::Div => x.div(y),
            BinaryFn::Max => x.max(y),
            BinaryFn::Min => x.min(y),
        }
    }
}

} // verus!
