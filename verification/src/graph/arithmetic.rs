//! The nodes of element-wise arithmetic and of the matrix product, each
//! with its value and with the gradient that it hands to an input.

use crate::linalg::array::{answers, answers_optional, Array, ArrayValue};
use crate::linalg::error::ShapeError;
use crate::linalg::numeric::{BinaryFn, Numeric};
use vstd::prelude::*;

verus! {

/// The gradient `grad`, multiplied element by element with `factor`.
pub open spec fn scaled<T: Numeric>(grad: ArrayValue<T>, factor: ArrayValue<T>) -> Result<
    Option<ArrayValue<T>>,
    ShapeError,
> {
    match grad.checked_zip(factor, BinaryFn::Mul) {
        Ok(a) => Ok(Some(a)),
        Err(e) => Err(e),
    }
}

/// Multiplies the gradient `grad` element by element with `factor`.
pub fn scale<T: Numeric>(grad: &Array<T>, factor: &Array<T>) -> (r: Result<
    Option<Array<T>>,
    ShapeError,
>)
    requires
        grad.wf(),
        factor.wf(),
    ensures
        answers_optional(r, scaled(grad@, factor@)),
{
    match grad.mul(factor) {
        Ok(a) => Ok(Some(a)),
        Err(e) => Err(e),
    }
}

/// An arithmetic result, handed on as the gradient for an input.
pub open spec fn some_of<T: Numeric>(a: Result<ArrayValue<T>, ShapeError>) -> Result<
    Option<ArrayValue<T>>,
    ShapeError,
> {
    match a {
        Ok(a) => Ok(Some(a)),
        Err(e) => Err(e),
    }
}

/// The sum of two nodes.
#[derive(Clone, Copy, Debug, PartialEq, Eq)]
pub struct AddOp {
    pub input_1: usize,
    pub input_2: usize,
}

impl AddOp {
    /// Makes the node.
    pub fn new(input_1: usize, input_2: usize) -> (r: AddOp)
        ensures
            r.input_1 == input_1,
            r.input_2 == input_2,
    {
        AddOp { input_1, input_2 }
    }

    /// The value of the node for the values `x` and `y` of its inputs.
    pub open spec fn value_spec<T: Numeric>(x: ArrayValue<T>, y: ArrayValue<T>) -> Result<
        ArrayValue<T>,
        ShapeError,
    > {
        x.checked_zip(y, BinaryFn::Add)
    }

    /// The gradient that the node hands to `dependent`, given the
    /// gradient `grad` that has arrived at the node: `grad`
    /// times ones of the shape of that input.
    /// A node that is not an input gets nothing; one that is both inputs
    /// is taken as the first.
    pub open spec fn grad_spec<T: Numeric>(
        self,
        dependent: usize,
        x: ArrayValue<T>,
        y: ArrayValue<T>,
        grad: ArrayValue<T>,
    ) -> Result<Option<ArrayValue<T>>, ShapeError> {
        if dependent == self.input_1 {
            scaled(grad, ArrayValue::full(T::one_spec(), x.shape))
        } else if dependent == self.input_2 {
            scaled(grad, ArrayValue::full(T::one_spec(), y.shape))
        } else {
            Ok(None)
        }
    }

    /// Computes the value of the node from the values of its inputs.
    pub fn compute<T: Numeric>(&self, x: &Array<T>, y: &Array<T>) -> (r: Result<
        Array<T>,
        ShapeError,
    >)
        requires
            x.wf(),
            y.wf(),
        ensures
            answers(r, Self::value_spec(x@, y@)),
    {
        x.add(y)
    }

    /// Computes the gradient that the node hands to `dependent`, given the
    /// gradient `grad` that has arrived at the node.
    pub fn compute_accum_grad<T: Numeric>(
        &self,
        dependent: usize,
        x: &Array<T>,
        y: &Array<T>,
        grad: &Array<T>,
    ) -> (r: Result<Option<Array<T>>, ShapeError>)
        requires
            x.wf(),
            y.wf(),
            grad.wf(),
        ensures
            answers_optional(r, self.grad_spec(dependent, x@, y@, grad@)),
    {
        if dependent == self.input_1 {
            scale(grad, &x.full_like(T::one()))
        } else if dependent == self.input_2 {
            scale(grad, &y.full_like(T::one()))
        } else {
            Ok(None)
        }
    }

    /// The name of the kind of the node.
    pub fn get_name(&self) -> (r: &'static str)
        ensures
            r@ == "AddOp"@,
    {
        "AddOp"
    }

    /// The places of the inputs of the node, in their order.
    pub fn get_inputs(&self) -> (r: Vec<usize>)
        ensures
            r@ == seq![self.input_1, self.input_2],
    {
        let mut inputs: Vec<usize> = Vec::new();
        inputs.push(self.input_1);
        inputs.push(self.input_2);
        inputs
    }
}

/// The difference of two nodes.
#[derive(Clone, Copy, Debug, PartialEq, Eq)]
pub struct SubOp {
    pub input_1: usize,
    pub input_2: usize,
}

impl SubOp {
    /// Makes the node.
    pub fn new(input_1: usize, input_2: usize) -> (r: SubOp)
        ensures
            r.input_1 == input_1,
            r.input_2 == input_2,
    {
        SubOp { input_1, input_2 }
    }

    /// The value of the node for the values `x` and `y` of its inputs.
    pub open spec fn value_spec<T: Numeric>(x: ArrayValue<T>, y: ArrayValue<T>) -> Result<
        ArrayValue<T>,
        ShapeError,
    > {
        x.checked_zip(y, BinaryFn::Sub)
    }

    /// The gradient that the node hands to `dependent`, given the
    /// gradient `grad` that has arrived at the node: for
    /// the first input `grad` times ones of its shape, for the second
    /// `grad` times minus ones of its shape.
    /// A node that is not an input gets nothing; one that is both inputs
    /// is taken as the first.
    pub open spec fn grad_spec<T: Numeric>(
        self,
        dependent: usize,
        x: ArrayValue<T>,
        y: ArrayValue<T>,
        grad: ArrayValue<T>,
    ) -> Result<Option<ArrayValue<T>>, ShapeError> {
        if dependent == self.input_1 {
            scaled(grad, ArrayValue::full(T::one_spec(), x.shape))
        } else if dependent == self.input_2 {
            scaled(grad, ArrayValue::full(T::one_spec().neg_spec(), y.shape))
        } else {
            Ok(None)
        }
    }

    /// Computes the value of the node from the values of its inputs.
    pub fn compute<T: Numeric>(&self, x: &Array<T>, y: &Array<T>) -> (r: Result<
        Array<T>,
        ShapeError,
    >)
        requires
            x.wf(),
            y.wf(),
        ensures
            answers(r, Self::value_spec(x@, y@)),
    {
        x.sub(y)
    }

    /// Computes the gradient that the node hands to `dependent`, given the
    /// gradient `grad` that has arrived at the node.
    pub fn compute_accum_grad<T: Numeric>(
        &self,
        dependent: usize,
        x: &Array<T>,
        y: &Array<T>,
        grad: &Array<T>,
    ) -> (r: Result<Option<Array<T>>, ShapeError>)
        requires
            x.wf(),
            y.wf(),
            grad.wf(),
        ensures
            answers_optional(r, self.grad_spec(dependent, x@, y@, grad@)),
    {
        if dependent == self.input_1 {
            scale(grad, &x.full_like(T::one()))
        } else if dependent == self.input_2 {
            scale(grad, &y.full_like(T::one().neg()))
        } else {
            Ok(None)
        }
    }

    /// The name of the kind of the node.
    pub fn get_name(&self) -> (r: &'static str)
        ensures
            r@ == "SubOp"@,
    {
        "SubOp"
    }

    /// The places of the inputs of the node, in their order.
    pub fn get_inputs(&self) -> (r: Vec<usize>)
        ensures
            r@ == seq![self.input_1, self.input_2],
    {
        let mut inputs: Vec<usize> = Vec::new();
        inputs.push(self.input_1);
        inputs.push(self.input_2);
        inputs
    }
}

/// The element-wise product of two nodes.
#[derive(Clone, Copy, Debug, PartialEq, Eq)]
pub struct MulOp {
    pub input_1: usize,
    pub input_2: usize,
}

impl MulOp {
    /// Makes the node.
    pub fn new(input_1: usize, input_2: usize) -> (r: MulOp)
        ensures
            r.input_1 == input_1,
            r.input_2 == input_2,
    {
        MulOp { input_1, input_2 }
    }

    /// The value of the node for the values `x` and `y` of its inputs.
    pub open spec fn value_spec<T: Numeric>(x: ArrayValue<T>, y: ArrayValue<T>) -> Result<
        ArrayValue<T>,
        ShapeError,
    > {
        x.checked_zip(y, BinaryFn::Mul)
    }

    /// The gradient that the node hands to `dependent`, given the
    /// gradient `grad` that has arrived at the node: `grad`
    /// times the value of the other input.
    /// A node that is not an input gets nothing; one that is both inputs
    /// is taken as the first.
    pub open spec fn grad_spec<T: Numeric>(
        self,
        dependent: usize,
        x: ArrayValue<T>,
        y: ArrayValue<T>,
        grad: ArrayValue<T>,
    ) -> Result<Option<ArrayValue<T>>, ShapeError> {
        if dependent == self.input_1 {
            scaled(grad, y)
        } else if dependent == self.input_2 {
            scaled(grad, x)
        } else {
            Ok(None)
        }
    }

    /// Computes the value of the node from the values of its inputs.
    pub fn compute<T: Numeric>(&self, x: &Array<T>, y: &Array<T>) -> (r: Result<
        Array<T>,
        ShapeError,
    >)
        requires
            x.wf(),
            y.wf(),
        ensures
            answers(r, Self::value_spec(x@, y@)),
    {
        x.mul(y)
    }

    /// Computes the gradient that the node hands to `dependent`, given the
    /// gradient `grad` that has arrived at the node.
    pub fn compute_accum_grad<T: Numeric>(
        &self,
        dependent: usize,
        x: &Array<T>,
        y: &Array<T>,
        grad: &Array<T>,
    ) -> (r: Result<Option<Array<T>>, ShapeError>)
        requires
            x.wf(),
            y.wf(),
            grad.wf(),
        ensures
            answers_optional(r, self.grad_spec(dependent, x@, y@, grad@)),
    {
        if dependent == self.input_1 {
            scale(grad, y)
        } else if dependent == self.input_2 {
            scale(grad, x)
        } else {
            Ok(None)
        }
    }

    /// The name of the kind of the node.
    pub fn get_name(&self) -> (r: &'static str)
        ensures
            r@ == "MulOp"@,
    {
        "MulOp"
    }

    /// The places of the inputs of the node, in their order.
    pub fn get_inputs(&self) -> (r: Vec<usize>)
        ensures
            r@ == seq![self.input_1, self.input_2],
    {
        let mut inputs: Vec<usize> = Vec::new();
        inputs.push(self.input_1);
        inputs.push(self.input_2);
        inputs
    }
}

/// The element-wise quotient of two nodes.
#[derive(Clone, Copy, Debug, PartialEq, Eq)]
pub struct DivOp {
    pub input_1: usize,
    pub input_2: usize,
}

impl DivOp {
    /// Makes the node.
    pub fn new(input_1: usize, input_2: usize) -> (r: DivOp)
        ensures
            r.input_1 == input_1,
            r.input_2 == input_2,
    {
        DivOp { input_1, input_2 }
    }

    /// The value of the node for the values `x` and `y` of its inputs.
    pub open spec fn value_spec<T: Numeric>(x: ArrayValue<T>, y: ArrayValue<T>) -> Result<
        ArrayValue<T>,
        ShapeError,
    > {
        x.checked_zip(y, BinaryFn::Div)
    }

    /// The gradient that the node hands to `dependent`, given the
    /// gradient `grad` that has arrived at the node: for
    /// the first input `grad` times `1 / y`, for the second `grad` times
    /// `-x / (y * y)`.
    /// A node that is not an input gets nothing; one that is both inputs
    /// is taken as the first.
    pub open spec fn grad_spec<T: Numeric>(
        self,
        dependent: usize,
        x: ArrayValue<T>,
        y: ArrayValue<T>,
        grad: ArrayValue<T>,
    ) -> Result<Option<ArrayValue<T>>, ShapeError> {
        if dependent == self.input_1 {
            match ArrayValue::full(T::one_spec(), x.shape).checked_zip(y, BinaryFn::Div) {
                Ok(factor) => scaled(grad, factor),
                Err(e) => Err(e),
            }
        } else if dependent == self.input_2 {
            match y.checked_zip(y, BinaryFn::Mul) {
                Ok(square) => match x.mapped(|v: T| v.neg_spec()).checked_zip(
                    square,
                    BinaryFn::Div,
                ) {
                    Ok(factor) => scaled(grad, factor),
                    Err(e) => Err(e),
                },
                Err(e) => Err(e),
            }
        } else {
            Ok(None)
        }
    }

    /// Computes the value of the node from the values of its inputs.
    pub fn compute<T: Numeric>(&self, x: &Array<T>, y: &Array<T>) -> (r: Result<
        Array<T>,
        ShapeError,
    >)
        requires
            x.wf(),
            y.wf(),
        ensures
            answers(r, Self::value_spec(x@, y@)),
    {
        x.div(y)
    }

    /// Computes the gradient that the node hands to `dependent`, given the
    /// gradient `grad` that has arrived at the node.
    pub fn compute_accum_grad<T: Numeric>(
        &self,
        dependent: usize,
        x: &Array<T>,
        y: &Array<T>,
        grad: &Array<T>,
    ) -> (r: Result<Option<Array<T>>, ShapeError>)
        requires
            x.wf(),
            y.wf(),
            grad.wf(),
        ensures
            answers_optional(r, self.grad_spec(dependent, x@, y@, grad@)),
    {
        if dependent == self.input_1 {
            match x.full_like(T::one()).div(y) {
                Ok(factor) => scale(grad, &factor),
                Err(e) => Err(e),
            }
        } else if dependent == self.input_2 {
            match y.mul(y) {
                Ok(square) => match x.neg().div(&square) {
                    Ok(factor) => scale(grad, &factor),
                    Err(e) => Err(e),
                },
                Err(e) => Err(e),
            }
        } else {
            Ok(None)
        }
    }

    /// The name of the kind of the node.
    pub fn get_name(&self) -> (r: &'static str)
        ensures
            r@ == "DivOp"@,
    {
        "DivOp"
    }

    /// The places of the inputs of the node, in their order.
    pub fn get_inputs(&self) -> (r: Vec<usize>)
        ensures
            r@ == seq![self.input_1, self.input_2],
    {
        let mut inputs: Vec<usize> = Vec::new();
        inputs.push(self.input_1);
        inputs.push(self.input_2);
        inputs
    }
}

/// The matrix product of two nodes.
#[derive(Clone, Copy, Debug, PartialEq, Eq)]
pub struct MatMulOp {
    pub input_1: usize,
    pub input_2: usize,
}

impl MatMulOp {
    /// Makes the node.
    pub fn new(input_1: usize, input_2: usize) -> (r: MatMulOp)
        ensures
            r.input_1 == input_1,
            r.input_2 == input_2,
    {
        MatMulOp { input_1, input_2 }
    }

    /// The value of the node for the values `x` and `y` of its inputs.
    pub open spec fn value_spec<T: Numeric>(x: ArrayValue<T>, y: ArrayValue<T>) -> Result<
        ArrayValue<T>,
        ShapeError,
    > {
        x.checked_matmul(y)
    }

    /// The gradient that the node hands to `dependent`, given the
    /// gradient `grad` that has arrived at the node: for
    /// the first input the product of `grad` with the transpose of `y`,
    /// for the second the product of the transpose of `x` with `grad`.
    /// A node that is not an input gets nothing; one that is both inputs
    /// is taken as the first.
    pub open spec fn grad_spec<T: Numeric>(
        self,
        dependent: usize,
        x: ArrayValue<T>,
        y: ArrayValue<T>,
        grad: ArrayValue<T>,
    ) -> Result<Option<ArrayValue<T>>, ShapeError> {
        if dependent == self.input_1 {
            match y.checked_transposed() {
                Ok(yt) => some_of(grad.checked_matmul(yt)),
                Err(e) => Err(e),
            }
        } else if dependent == self.input_2 {
            match x.checked_transposed() {
                Ok(xt) => some_of(xt.checked_matmul(grad)),
                Err(e) => Err(e),
            }
        } else {
            Ok(None)
        }
    }

    /// Computes the value of the node from the values of its inputs.
    pub fn compute<T: Numeric>(&self, x: &Array<T>, y: &Array<T>) -> (r: Result<
        Array<T>,
        ShapeError,
    >)
        requires
            x.wf(),
            y.wf(),
        ensures
            answers(r, Self::value_spec(x@, y@)),
    {
        x.matmul(y)
    }

    /// Computes the gradient that the node hands to `dependent`, given the
    /// gradient `grad` that has arrived at the node.
    pub fn compute_accum_grad<T: Numeric>(
        &self,
        dependent: usize,
        x: &Array<T>,
        y: &Array<T>,
        grad: &Array<T>,
    ) -> (r: Result<Option<Array<T>>, ShapeError>)
        requires
            x.wf(),
            y.wf(),
            grad.wf(),
        ensures
            answers_optional(r, self.grad_spec(dependent, x@, y@, grad@)),
    {
        if dependent == self.input_1 {
            match y.transpose() {
                Ok(yt) => match grad.matmul(&yt) {
                    Ok(a) => Ok(Some(a)),
                    Err(e) => Err(e),
                },
                Err(e) => Err(e),
            }
        } else if dependent == self.input_2 {
            match x.transpose() {
                Ok(xt) => match xt.matmul(grad) {
                    Ok(a) => Ok(Some(a)),
                    Err(e) => Err(e),
                },
                Err(e) => Err(e),
            }
        } else {
            Ok(None)
        }
    }

    /// The name of the kind of the node.
    pub fn get_name(&self) -> (r: &'static str)
        ensures
            r@ == "MatMulOp"@,
    {
        "MatMulOp"
    }

    /// The places of the inputs of the node, in their order.
    pub fn get_inputs(&self) -> (r: Vec<usize>)
        ensures
            r@ == seq![self.input_1, self.input_2],
    {
        let mut inputs: Vec<usize> = Vec::new();
        inputs.push(self.input_1);
        inputs.push(self.input_2);
        inputs
    }
}

/// A node plus a scalar.
#[derive(Debug)]
pub struct AddScalarOp<T: Numeric> {
    pub input: usize,
    pub scalar: T,
}

impl<T: Numeric> AddScalarOp<T> {
    /// Makes the node.
    pub fn new(input: usize, scalar: T) -> (r: AddScalarOp<T>)
        ensures
            r.input == input,
            r.scalar == scalar,
    {
        AddScalarOp { input, scalar }
    }

    /// The value of the node for the value `x` of its input.
    pub open spec fn value_spec(self, x: ArrayValue<T>) -> ArrayValue<T> {
        x.with_scalar(self.scalar, BinaryFn::Add)
    }

    /// The gradient that the node hands to `dependent`, given the
    /// gradient `grad` that has arrived at the node: `grad`
    /// times ones of the shape of the input.
    /// A node that is not the input gets nothing.
    pub open spec fn grad_spec(
        self,
        dependent: usize,
        x: ArrayValue<T>,
        grad: ArrayValue<T>,
    ) -> Result<Option<ArrayValue<T>>, ShapeError> {
        if dependent == self.input {
            scaled(grad, ArrayValue::full(T::one_spec(), x.shape))
        } else {
            Ok(None)
        }
    }

    /// Computes the value of the node from the values of its inputs.
    pub fn compute(&self, x: &Array<T>) -> (r: Array<T>)
        requires
            x.wf(),
        ensures
            r.wf(),
            r@ == self.value_spec(x@),
    {
        x.add_scalar(self.scalar)
    }

    /// Computes the gradient that the node hands to `dependent`, given the
    /// gradient `grad` that has arrived at the node.
    pub fn compute_accum_grad(&self, dependent: usize, x: &Array<T>, grad: &Array<T>) -> (r: Result<
        Option<Array<T>>,
        ShapeError,
    >)
        requires
            x.wf(),
            grad.wf(),
        ensures
            answers_optional(r, self.grad_spec(dependent, x@, grad@)),
    {
        if dependent == self.input {
            scale(grad, &x.full_like(T::one()))
        } else {
            Ok(None)
        }
    }

    /// The name of the kind of the node.
    pub fn get_name(&self) -> (r: &'static str)
        ensures
            r@ == "AddScalarOp"@,
    {
        "AddScalarOp"
    }

    /// The places of the inputs of the node, in their order.
    pub fn get_inputs(&self) -> (r: Vec<usize>)
        ensures
            r@ == seq![self.input],
    {
        let mut inputs: Vec<usize> = Vec::new();
        inputs.push(self.input);
        inputs
    }
}

/// A node minus a scalar.
#[derive(Debug)]
pub struct SubScalarOp<T: Numeric> {
    pub input: usize,
    pub scalar: T,
}

impl<T: Numeric> SubScalarOp<T> {
    /// Makes the node.
    pub fn new(input: usize, scalar: T) -> (r: SubScalarOp<T>)
        ensures
            r.input == input,
            r.scalar == scalar,
    {
        SubScalarOp { input, scalar }
    }

    /// The value of the node for the value `x` of its input.
    pub open spec fn value_spec(self, x: ArrayValue<T>) -> ArrayValue<T> {
        x.with_scalar(self.scalar, BinaryFn::Sub)
    }

    /// The gradient that the node hands to `dependent`, given the
    /// gradient `grad` that has arrived at the node: `grad`
    /// times ones of the shape of the input.
    /// A node that is not the input gets nothing.
    pub open spec fn grad_spec(
        self,
        dependent: usize,
        x: ArrayValue<T>,
        grad: ArrayValue<T>,
    ) -> Result<Option<ArrayValue<T>>, ShapeError> {
        if dependent == self.input {
            scaled(grad, ArrayValue::full(T::one_spec(), x.shape))
        } else {
            Ok(None)
        }
    }

    /// Computes the value of the node from the values of its inputs.
    pub fn compute(&self, x: &Array<T>) -> (r: Array<T>)
        requires
            x.wf(),
        ensures
            r.wf(),
            r@ == self.value_spec(x@),
    {
        x.sub_scalar(self.scalar)
    }

    /// Computes the gradient that the node hands to `dependent`, given the
    /// gradient `grad` that has arrived at the node.
    pub fn compute_accum_grad(&self, dependent: usize, x: &Array<T>, grad: &Array<T>) -> (r: Result<
        Option<Array<T>>,
        ShapeError,
    >)
        requires
            x.wf(),
            grad.wf(),
        ensures
            answers_optional(r, self.grad_spec(dependent, x@, grad@)),
    {
        if dependent == self.input {
            scale(grad, &x.full_like(T::one()))
        } else {
            Ok(None)
        }
    }

    /// The name of the kind of the node.
    pub fn get_name(&self) -> (r: &'static str)
        ensures
            r@ == "SubScalarOp"@,
    {
        "SubScalarOp"
    }

    /// The places of the inputs of the node, in their order.
    pub fn get_inputs(&self) -> (r: Vec<usize>)
        ensures
            r@ == seq![self.input],
    {
        let mut inputs: Vec<usize> = Vec::new();
        inputs.push(self.input);
        inputs
    }
}

/// A node times a scalar.
#[derive(Debug)]
pub struct MulScalarOp<T: Numeric> {
    pub input: usize,
    pub scalar: T,
}

impl<T: Numeric> MulScalarOp<T> {
    /// Makes the node.
    pub fn new(input: usize, scalar: T) -> (r: MulScalarOp<T>)
        ensures
            r.input == input,
            r.scalar == scalar,
    {
        MulScalarOp { input, scalar }
    }

    /// The value of the node for the value `x` of its input.
    pub open spec fn value_spec(self, x: ArrayValue<T>) -> ArrayValue<T> {
        x.with_scalar(self.scalar, BinaryFn::Mul)
    }

    /// The gradient that the node hands to `dependent`, given the
    /// gradient `grad` that has arrived at the node: `grad`
    /// times the scalar, spread over the shape of the input.
    /// A node that is not the input gets nothing.
    pub open spec fn grad_spec(
        self,
        dependent: usize,
        x: ArrayValue<T>,
        grad: ArrayValue<T>,
    ) -> Result<Option<ArrayValue<T>>, ShapeError> {
        if dependent == self.input {
            scaled(grad, ArrayValue::full(self.scalar, x.shape))
        } else {
            Ok(None)
        }
    }

    /// Computes the value of the node from the values of its inputs.
    pub fn compute(&self, x: &Array<T>) -> (r: Array<T>)
        requires
            x.wf(),
        ensures
            r.wf(),
            r@ == self.value_spec(x@),
    {
        x.mul_scalar(self.scalar)
    }

    /// Computes the gradient that the node hands to `dependent`, given the
    /// gradient `grad` that has arrived at the node.
    pub fn compute_accum_grad(&self, dependent: usize, x: &Array<T>, grad: &Array<T>) -> (r: Result<
        Option<Array<T>>,
        ShapeError,
    >)
        requires
            x.wf(),
            grad.wf(),
        ensures
            answers_optional(r, self.grad_spec(dependent, x@, grad@)),
    {
        if dependent == self.input {
            scale(grad, &x.full_like(self.scalar))
        } else {
            Ok(None)
        }
    }

    /// The name of the kind of the node.
    pub fn get_name(&self) -> (r: &'static str)
        ensures
            r@ == "MulScalarOp"@,
    {
        "MulScalarOp"
    }

    /// The places of the inputs of the node, in their order.
    pub fn get_inputs(&self) -> (r: Vec<usize>)
        ensures
            r@ == seq![self.input],
    {
        let mut inputs: Vec<usize> = Vec::new();
        inputs.push(self.input);
        inputs
    }
}

/// A node divided by a scalar.
#[derive(Debug)]
pub struct DivScalarOp<T: Numeric> {
    pub input: usize,
    pub scalar: T,
}

impl<T: Numeric> DivScalarOp<T> {
    /// Makes the node.
    pub fn new(input: usize, scalar: T) -> (r: DivScalarOp<T>)
        ensures
            r.input == input,
            r.scalar == scalar,
    {
        DivScalarOp { input, scalar }
    }

    /// The value of the node for the value `x` of its input.
    pub open spec fn value_spec(self, x: ArrayValue<T>) -> ArrayValue<T> {
        x.with_scalar(self.scalar, BinaryFn::Div)
    }

    /// The gradient that the node hands to `dependent`, given the
    /// gradient `grad` that has arrived at the node: `grad`
    /// times the inverse of the scalar, spread over the shape of the
    /// input.
    /// A node that is not the input gets nothing.
    pub open spec fn grad_spec(
        self,
        dependent: usize,
        x: ArrayValue<T>,
        grad: ArrayValue<T>,
    ) -> Result<Option<ArrayValue<T>>, ShapeError> {
        if dependent == self.input {
            scaled(grad, ArrayValue::full(T::one_spec().div_spec(self.scalar), x.shape))
        } else {
            Ok(None)
        }
    }

    /// Computes the value of the node from the values of its inputs.
    pub fn compute(&self, x: &Array<T>) -> (r: Array<T>)
        requires
            x.wf(),
        ensures
            r.wf(),
            r@ == self.value_spec(x@),
    {
        x.div_scalar(self.scalar)
    }

    /// Computes the gradient that the node hands to `dependent`, given the
    /// gradient `grad` that has arrived at the node.
    pub fn compute_accum_grad(&self, dependent: usize, x: &Array<T>, grad: &Array<T>) -> (r: Result<
        Option<Array<T>>,
        ShapeError,
    >)
        requires
            x.wf(),
            grad.wf(),
        ensures
            answers_optional(r, self.grad_spec(dependent, x@, grad@)),
    {
        if dependent == self.input {
            scale(grad, &x.full_like(T::one().div(self.scalar)))
        } else {
            Ok(None)
        }
    }

    /// The name of the kind of the node.
    pub fn get_name(&self) -> (r: &'static str)
        ensures
            r@ == "DivScalarOp"@,
    {
        "DivScalarOp"
    }

    /// The places of the inputs of the node, in their order.
    pub fn get_inputs(&self) -> (r: Vec<usize>)
        ensures
            r@ == seq![self.input],
    {
        let mut inputs: Vec<usize> = Vec::new();
        inputs.push(self.input);
        inputs
    }
}

/// The negation of a node.
#[derive(Clone, Copy, Debug, PartialEq, Eq)]
pub struct NegOp {
    pub input: usize,
}

impl NegOp {
    /// Makes the node.
    pub fn new(input: usize) -> (r: NegOp)
        ensures
            r.input == input,
    {
        NegOp { input }
    }

    /// The value of the node for the value `x` of its input.
    pub open spec fn value_spec<T: Numeric>(x: ArrayValue<T>) -> ArrayValue<T> {
        x.mapped(|v: T| v.neg_spec())
    }

    /// The gradient that the node hands to `dependent`, given the
    /// gradient `grad` that has arrived at the node: `grad` times minus
    /// ones of the shape of the input. A node that is not the input gets
    /// nothing.
    pub open spec fn grad_spec<T: Numeric>(
        self,
        dependent: usize,
        x: ArrayValue<T>,
        grad: ArrayValue<T>,
    ) -> Result<Option<ArrayValue<T>>, ShapeError> {
        if dependent == self.input {
            scaled(grad, ArrayValue::full(T::one_spec().neg_spec(), x.shape))
        } else {
            Ok(None)
        }
    }

    /// Computes the value of the node from the values of its inputs.
    pub fn compute<T: Numeric>(&self, x: &Array<T>) -> (r: Array<T>)
        requires
            x.wf(),
        ensures
            r.wf(),
            r@ == Self::value_spec(x@),
    {
        x.neg()
    }

    /// Computes the gradient that the node hands to `dependent`, given the
    /// gradient `grad` that has arrived at the node.
    pub fn compute_accum_grad<T: Numeric>(
        &self,
        dependent: usize,
        x: &Array<T>,
        grad: &Array<T>,
    ) -> (r: Result<Option<Array<T>>, ShapeError>)
        requires
            x.wf(),
            grad.wf(),
        ensures
            answers_optional(r, self.grad_spec(dependent, x@, grad@)),
    {
        if dependent == self.input {
            scale(grad, &x.full_like(T::one().neg()))
        } else {
            Ok(None)
        }
    }

    /// The name of the kind of the node.
    pub fn get_name(&self) -> (r: &'static str)
        ensures
            r@ == "NegOp"@,
    {
        "NegOp"
    }

    /// The places of the inputs of the node, in their order.
    pub fn get_inputs(&self) -> (r: Vec<usize>)
        ensures
            r@ == seq![self.input],
    {
        let mut inputs: Vec<usize> = Vec::new();
        inputs.push(self.input);
        inputs
    }
}

} // verus!
