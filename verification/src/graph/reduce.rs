//! The nodes that reduce an array along an axis or over all elements.

use crate::graph::arithmetic::{scale, scaled};
use crate::linalg::array::{answers, answers_optional, Array, ArrayValue};
use crate::linalg::error::ShapeError;
use crate::linalg::numeric::{BinaryFn, Numeric};
use crate::linalg::reduce::{reduce_count, reduce_mean, reduce_sum};
use crate::linalg::utils::reduce_axis_valid;
use vstd::prelude::*;

verus! {

/// The sum of a node along an axis, or of all of its elements.
#[derive(Clone, Copy, Debug, PartialEq, Eq)]
pub struct ReduceSumOp {
    pub input: usize,
    pub axis: Option<usize>,
    pub keep_dims: bool,
}

impl ReduceSumOp {
    /// Makes the node.
    pub fn new(input: usize, axis: Option<usize>, keep_dims: bool) -> (r: ReduceSumOp)
        ensures
            r.input == input,
            r.axis == axis,
            r.keep_dims == keep_dims,
    {
        ReduceSumOp { input, axis, keep_dims }
    }

    /// The value of the node for the value `x` of its input.
    pub open spec fn value_spec<T: Numeric>(self, x: ArrayValue<T>) -> Result<
        ArrayValue<T>,
        ShapeError,
    > {
        x.checked_reduced(BinaryFn::Add, self.axis, self.keep_dims)
    }

    /// The gradient that the node hands to `dependent`, given the
    /// gradient `grad` that has arrived at the node: `grad`, broadcast
    /// back by multiplication with ones of the shape of the input. A node
    /// that is not the input gets nothing.
    pub open spec fn grad_spec<T: Numeric>(
        self,
        dependent: usize,
        x: ArrayValue<T>,
        grad: ArrayValue<T>,
    ) -> Result<Option<ArrayValue<T>>, ShapeError> {
        if dependent == self.input {
            scaled(grad, ArrayValue::full(T::one_spec(), x.shape))
        } else {
            Ok(None)
        }
    }

    /// Computes the value of the node from the values of its inputs.
    pub fn compute<T: Numeric>(&self, x: &Array<T>) -> (r: Result<Array<T>, ShapeError>)
        requires
            x.wf(),
        ensures
            answers(r, self.value_spec(x@)),
    {
        reduce_sum(x, self.axis, self.keep_dims)
    }

    /// Computes the gradient that the node hands to `dependent`, given the
    /// gradient `grad` that has arrived at the node.
    pub fn compute_accum_grad<T: Numeric>(
        &self,
        dependent: usize,
        x: &Array<T>,
        grad: &Array<T>,
    ) -> (r: Result<Option<Array<T>>, ShapeError>)
        requires
            x.wf(),
            grad.wf(),
        ensures
            answers_optional(r, self.grad_spec(dependent, x@, grad@)),
    {
        if dependent == self.input {
            scale(grad, &x.full_like(T::one()))
        } else {
            Ok(None)
        }
    }

    /// The name of the kind of the node.
    pub fn get_name(&self) -> (r: &'static str)
        ensures
            r@ == "ReduceSumOp"@,
    {
        "ReduceSumOp"
    }

    /// The places of the inputs of the node, in their order.
    pub fn get_inputs(&self) -> (r: Vec<usize>)
        ensures
            r@ == seq![self.input],
    {
        let mut inputs: Vec<usize> = Vec::new();
        inputs.push(self.input);
        inputs
    }
}

/// The mean of a node along an axis, or of all of its elements.
#[derive(Clone, Copy, Debug, PartialEq, Eq)]
pub struct ReduceMeanOp {
    pub input: usize,
    pub axis: Option<usize>,
    pub keep_dims: bool,
}

impl ReduceMeanOp {
    /// Makes the node.
    pub fn new(input: usize, axis: Option<usize>, keep_dims: bool) -> (r: ReduceMeanOp)
        ensures
            r.input == input,
            r.axis == axis,
            r.keep_dims == keep_dims,
    {
        ReduceMeanOp { input, axis, keep_dims }
    }

    /// The value of the node for the value `x` of its input.
    pub open spec fn value_spec<T: Numeric>(self, x: ArrayValue<T>) -> Result<
        ArrayValue<T>,
        ShapeError,
    > {
        x.checked_mean(self.axis, self.keep_dims)
    }

    /// The gradient that the node hands to `dependent`, given the
    /// gradient `grad` that has arrived at the node: `grad`, broadcast
    /// back by multiplication with an array of the shape of the input
    /// whose elements all are one divided by the number of elements that
    /// the mean takes together. A node that is not the input gets
    /// nothing.
    pub open spec fn grad_spec<T: Numeric>(
        self,
        dependent: usize,
        x: ArrayValue<T>,
        grad: ArrayValue<T>,
    ) -> Result<Option<ArrayValue<T>>, ShapeError> {
        if dependent == self.input {
            if reduce_axis_valid(x.shape, self.axis) {
                scaled(
                    grad,
                    ArrayValue::full(
                        T::one_spec().div_spec(
                            T::from_usize_spec(reduce_count(x, self.axis) as usize),
                        ),
                        x.shape,
                    ),
                )
            } else {
                Err(ShapeError::Axis)
            }
        } else {
            Ok(None)
        }
    }

    /// Computes the value of the node from the values of its inputs.
    pub fn compute<T: Numeric>(&self, x: &Array<T>) -> (r: Result<Array<T>, ShapeError>)
        requires
            x.wf(),
        ensures
            answers(r, self.value_spec(x@)),
    {
        reduce_mean(x, self.axis, self.keep_dims)
    }

    /// Computes the gradient that the node hands to `dependent`, given the
    /// gradient `grad` that has arrived at the node.
    pub fn compute_accum_grad<T: Numeric>(
        &self,
        dependent: usize,
        x: &Array<T>,
        grad: &Array<T>,
    ) -> (r: Result<Option<Array<T>>, ShapeError>)
        requires
            x.wf(),
            grad.wf(),
        ensures
            answers_optional(r, self.grad_spec(dependent, x@, grad@)),
    {
        if dependent == self.input {
            let dim_size = match self.axis {
                Some(axis_val) => {
                    if axis_val >= x.shape_ref().len() {
                        return Err(ShapeError::Axis);
                    }
                    x.shape_ref()[axis_val]
                },
                None => x.data_ref().len(),
            };
            scale(grad, &x.full_like(T::one().div(T::from_usize(dim_size))))
        } else {
            Ok(None)
        }
    }

    /// The name of the kind of the node.
    pub fn get_name(&self) -> (r: &'static str)
        ensures
            r@ == "ReduceMeanOp"@,
    {
        "ReduceMeanOp"
    }

    /// The places of the inputs of the node, in their order.
    pub fn get_inputs(&self) -> (r: Vec<usize>)
        ensures
            r@ == seq![self.input],
    {
        let mut inputs: Vec<usize> = Vec::new();
        inputs.push(self.input);
        inputs
    }
}

} // verus!
