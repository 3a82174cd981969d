//! The nodes that apply one function to every element of an array.

use crate::graph::arithmetic::{scale, scaled};
use crate::linalg::array::{answers_optional, Array, ArrayValue};
use crate::linalg::error::ShapeError;
use crate::linalg::numeric::Numeric;
use vstd::prelude::*;

verus! {

/// The logistic function `1 / (1 + exp(-x))`.
pub open spec fn sigmoid_spec<T: Numeric>(x: T) -> T {
    T::one_spec().div_spec(T::one_spec().add_spec(x.neg_spec().exp_spec()))
}

/// The derivative of the logistic function: `s * (1 - s)` for its value
/// `s`.
pub open spec fn sigmoid_derivative_spec<T: Numeric>(x: T) -> T {
    sigmoid_spec(x).mul_spec(T::one_spec().sub_spec(sigmoid_spec(x)))
}

/// Computes the logistic function of `x`.
pub fn sigmoid<T: Numeric>(x: T) -> (r: T)
    ensures
        r == sigmoid_spec(x),
{
    T::one().div(T::one().add(x.neg().exp()))
}

/// Computes the derivative of the logistic function at `x`.
pub fn sigmoid_derivative<T: Numeric>(x: T) -> (r: T)
    ensures
        r == sigmoid_derivative_spec(x),
{
    let sigmoid_result = sigmoid(x);
    sigmoid_result.mul(T::one().sub(sigmoid_result))
}

/// A function of one element.
#[derive(Clone, Copy, Debug, PartialEq, Eq, Structural)]
pub enum MapKind {
    Sin,
    Cos,
    Ln,
    Sigmoid,
    Tanh,
    Relu,
}

impl MapKind {
    /// The value of the function at `x`.
    pub open spec fn value_spec<T: Numeric>(self, x: T) -> T {
        match self {
            MapKind::Sin => x.sin_spec(),
            MapKind::Cos => x.cos_spec(),
            MapKind::Ln => x.ln_spec(),
            MapKind::Sigmoid => sigmoid_spec(x),
            MapKind::Tanh => x.tanh_spec(),
            MapKind::Relu => x.max_spec(T::zero_spec()),
        }
    }

    /// The derivative of the function at `x`: the cosine for the sine,
    /// minus the sine for the cosine, `1 / x` for the logarithm,
    /// `s * (1 - s)` for the logistic function of value `s`, `1 - t * t`
    /// for the hyperbolic tangent of value `t`, and for the rectifier one
    /// above zero and zero elsewhere.
    pub open spec fn derivative_spec<T: Numeric>(self, x: T) -> T {
        match self {
            MapKind::Sin => x.cos_spec(),
            MapKind::Cos => x.sin_spec().neg_spec(),
            MapKind::Ln => T::one_spec().div_spec(x),
            MapKind::Sigmoid => sigmoid_derivative_spec(x),
            MapKind::Tanh => T::one_spec().sub_spec(x.tanh_spec().mul_spec(x.tanh_spec())),
            MapKind::Relu => if T::zero_spec().less_than_spec(x) {
                T::one_spec()
            } else {
                T::zero_spec()
            },
        }
    }

    /// Computes the value of the function.
    pub fn value<T: Numeric>(self, x: T) -> (r: T)
        ensures
            r == self.value_spec(x),
    {
        match self {
            MapKind::Sin => x.sin(),
            MapKind::Cos => x.cos(),
            MapKind::Ln => x.ln(),
            MapKind::Sigmoid => sigmoid(x),
            MapKind::Tanh => x.tanh(),
            MapKind::Relu => x.max(T::zero()),
        }
    }

    /// Computes the derivative of the function.
    pub fn derivative<T: Numeric>(self, x: T) -> (r: T)
        ensures
            r == self.derivative_spec(x),
    {
        match self {
            MapKind::Sin => x.cos(),
            MapKind::Cos => x.sin().neg(),
            MapKind::Ln => T::one().div(x),
            MapKind::Sigmoid => sigmoid_derivative(x),
            MapKind::Tanh => {
                let t = x.tanh();
                T::one().sub(t.mul(t))
            },
            MapKind::Relu => if T::zero().less_than(x) {
                T::one()
            } else {
                T::zero()
            },
        }
    }
}

/// A function applied to every element of a node.
#[derive(Clone, Copy, Debug, PartialEq, Eq)]
pub struct MapOp {
    pub kind: MapKind,
    pub input: usize,
}

impl MapOp {
    /// Makes the node.
    pub fn new(kind: MapKind, input: usize) -> (r: MapOp)
        ensures
            r.kind == kind,
            r.input == input,
    {
        MapOp { kind, input }
    }

    /// The value of the node for the value `x` of its input.
    pub open spec fn value_spec<T: Numeric>(self, x: ArrayValue<T>) -> ArrayValue<T> {
        x.mapped(|v: T| self.kind.value_spec(v))
    }

    /// The gradient that the node hands to `dependent`, given the
    /// gradient `grad` that has arrived at the node: `grad` times the
    /// derivative of the function at each element of the input. A node
    /// that is not the input gets nothing.
    pub open spec fn grad_spec<T: Numeric>(
        self,
        dependent: usize,
        x: ArrayValue<T>,
        grad: ArrayValue<T>,
    ) -> Result<Option<ArrayValue<T>>, ShapeError> {
        if dependent == self.input {
            scaled(grad, x.mapped(|v: T| self.kind.derivative_spec(v)))
        } else {
            Ok(None)
        }
    }

    /// Computes the value of the node from the values of its inputs.
    pub fn compute<T: Numeric>(&self, x: &Array<T>) -> (r: Array<T>)
        requires
            x.wf(),
        ensures
            r.wf(),
            r@ == self.value_spec(x@),
    {
        let kind = self.kind;
        let r = x.map(|v: T| -> (y: T)
            ensures
                y == kind.value_spec(v),
            { kind.value(v) });
        assert(r@.data =~= self.value_spec(x@).data);
        r
    }

    /// Computes the gradient that the node hands to `dependent`, given the
    /// gradient `grad` that has arrived at the node.
    pub fn compute_accum_grad<T: Numeric>(
        &self,
        dependent: usize,
        x: &Array<T>,
        grad: &Array<T>,
    ) -> (r: Result<Option<Array<T>>, ShapeError>)
        requires
            x.wf(),
            grad.wf(),
        ensures
            answers_optional(r, self.grad_spec(dependent, x@, grad@)),
    {
        if dependent == self.input {
            let kind = self.kind;
            let factor = x.map(|v: T| -> (y: T)
                ensures
                    y == kind.derivative_spec(v),
                { kind.derivative(v) });
            assert(factor@.data =~= x@.mapped(|v: T| self.kind.derivative_spec(v)).data);
            scale(grad, &factor)
        } else {
            Ok(None)
        }
    }

    /// The name of the node of a function.
    pub open spec fn name_spec(kind: MapKind) -> Seq<char> {
        match kind {
            MapKind::Sin => "SinOp"@,
            MapKind::Cos => "CosOp"@,
            MapKind::Ln => "LnOp"@,
            MapKind::Sigmoid => "SigmoidOp"@,
            MapKind::Tanh => "TanhOp"@,
            MapKind::Relu => "ReLUOp"@,
        }
    }

    /// The name of the kind of the node.
    pub fn get_name(&self) -> (r: &'static str)
        ensures
            r@ == Self::name_spec(self.kind),
    {
        match self.kind {
            MapKind::Sin => "SinOp",
            MapKind::Cos => "CosOp",
            MapKind::Ln => "LnOp",
            MapKind::Sigmoid => "SigmoidOp",
            MapKind::Tanh => "TanhOp",
            MapKind::Relu => "ReLUOp",
        }
    }

    /// The places of the inputs of the node, in their order.
    pub fn get_inputs(&self) -> (r: Vec<usize>)
        ensures
            r@ == seq![self.input],
    {
        let mut inputs: Vec<usize> = Vec::new();
        inputs.push(self.input);
        inputs
    }
}

/// A function of one element and a parameter.
#[derive(Clone, Copy, Debug, PartialEq, Eq, Structural)]
pub enum ParamKind {
    /// The element raised to the power of the parameter.
    Pow,
    /// The logarithm of the element to the base of the parameter.
    Log,
}

impl ParamKind {
    /// The value of the function at `x` for the parameter `p`.
    pub open spec fn value_spec<T: Numeric>(self, x: T, p: T) -> T {
        match self {
            ParamKind::Pow => x.powf_spec(p),
            ParamKind::Log => x.log_spec(p),
        }
    }

    /// The derivative of the function at `x`: `p * x^(p - 1)` for the
    /// power, `1 / (x * ln(p))` for the logarithm.
    pub open spec fn derivative_spec<T: Numeric>(self, x: T, p: T) -> T {
        match self {
            ParamKind::Pow => p.mul_spec(x.powf_spec(p.sub_spec(T::one_spec()))),
            ParamKind::Log => T::one_spec().div_spec(x.mul_spec(p.ln_spec())),
        }
    }

    /// Computes the value of the function.
    pub fn value<T: Numeric>(self, x: T, p: T) -> (r: T)
        ensures
            r == self.value_spec(x, p),
    {
        match self {
            ParamKind::Pow => x.powf(p),
            ParamKind::Log => x.log(p),
        }
    }

    /// Computes the derivative of the function.
    pub fn derivative<T: Numeric>(self, x: T, p: T) -> (r: T)
        ensures
            r == self.derivative_spec(x, p),
    {
        match self {
            ParamKind::Pow => p.mul(x.powf(p.sub(T::one()))),
            ParamKind::Log => T::one().div(x.mul(p.ln())),
        }
    }
}

/// A function with a parameter applied to every element of a node.
#[derive(Debug)]
pub struct ParamMapOp<T: Numeric> {
    pub kind: ParamKind,
    pub input: usize,
    pub parameter: T,
}

impl<T: Numeric> ParamMapOp<T> {
    /// Makes the node.
    pub fn new(kind: ParamKind, input: usize, parameter: T) -> (r: ParamMapOp<T>)
        ensures
            r.kind == kind,
            r.input == input,
            r.parameter == parameter,
    {
        ParamMapOp { kind, input, parameter }
    }

    /// The value of the node for the value `x` of its input.
    pub open spec fn value_spec(self, x: ArrayValue<T>) -> ArrayValue<T> {
        x.mapped(|v: T| self.kind.value_spec(v, self.parameter))
    }

    /// The gradient that the node hands to `dependent`, given the
    /// gradient `grad` that has arrived at the node: `grad` times the
    /// derivative of the function at each element of the input. A node
    /// that is not the input gets nothing.
    pub open spec fn grad_spec(
        self,
        dependent: usize,
        x: ArrayValue<T>,
        grad: ArrayValue<T>,
    ) -> Result<Option<ArrayValue<T>>, ShapeError> {
        if dependent == self.input {
            scaled(grad, x.mapped(|v: T| self.kind.derivative_spec(v, self.parameter)))
        } else {
            Ok(None)
        }
    }

    /// Computes the value of the node from the values of its inputs.
    pub fn compute(&self, x: &Array<T>) -> (r: Array<T>)
        requires
            x.wf(),
        ensures
            r.wf(),
            r@ == self.value_spec(x@),
    {
        let kind = self.kind;
        let p = self.parameter;
        let r = x.map(|v: T| -> (y: T)
            ensures
                y == kind.value_spec(v, p),
            { kind.value(v, p) });
        assert(r@.data =~= self.value_spec(x@).data);
        r
    }

    /// Computes the gradient that the node hands to `dependent`, given the
    /// gradient `grad` that has arrived at the node.
    pub fn compute_accum_grad(&self, dependent: usize, x: &Array<T>, grad: &Array<T>) -> (r: Result<
        Option<Array<T>>,
        ShapeError,
    >)
        requires
            x.wf(),
            grad.wf(),
        ensures
            answers_optional(r, self.grad_spec(dependent, x@, grad@)),
    {
        if dependent == self.input {
            let kind = self.kind;
            let p = self.parameter;
            let factor = x.map(|v: T| -> (y: T)
                ensures
                    y == kind.derivative_spec(v, p),
                { kind.derivative(v, p) });
            assert(factor@.data =~= x@.mapped(
                |v: T| self.kind.derivative_spec(v, self.parameter),
            ).data);
            scale(grad, &factor)
        } else {
            Ok(None)
        }
    }

    /// The name of the node of a function.
    pub open spec fn name_spec(kind: ParamKind) -> Seq<char> {
        match kind {
            ParamKind::Pow => "PowOp"@,
            ParamKind::Log => "LogOp"@,
        }
    }

    /// The name of the kind of the node.
    pub fn get_name(&self) -> (r: &'static str)
        ensures
            r@ == Self::name_spec(self.kind),
    {
        match self.kind {
            ParamKind::Pow => "PowOp",
            ParamKind::Log => "LogOp",
        }
    }

    /// The places of the inputs of the node, in their order.
    pub fn get_inputs(&self) -> (r: Vec<usize>)
        ensures
            r@ == seq![self.input],
    {
        let mut inputs: Vec<usize> = Vec::new();
        inputs.push(self.input);
        inputs
    }
}

} // verus!
