//! The tensors of element-wise arithmetic.

use crate::graph::arithmetic::{
    AddOp, AddScalarOp, DivOp, DivScalarOp, MulOp, MulScalarOp, NegOp, SubOp, SubScalarOp,
};
use crate::graph::{Graph, GraphError, Node};
use crate::linalg::numeric::Numeric;
use crate::tensor::{makes, Tensor};
use vstd::prelude::*;

verus! {

impl Tensor {
    /// Makes the sum of the tensor and `other`.
    pub fn add<T: Numeric>(&self, graph: &mut Graph<T>, other: &Tensor) -> (r: Result<
        Tensor,
        GraphError,
    >)
        requires
            old(graph).wf(),
        ensures
            final(graph).wf(),
            makes(
                old(graph).nodes(),
                final(graph).nodes(),
                Node::Add(AddOp { input_1: self.place(), input_2: other.place() }),
                r,
            ),
    {
        Tensor::from_node(graph, Node::Add(AddOp::new(self.id(), other.id())))
    }

    /// Makes the difference of the tensor and `other`.
    pub fn sub<T: Numeric>(&self, graph: &mut Graph<T>, other: &Tensor) -> (r: Result<
        Tensor,
        GraphError,
    >)
        requires
            old(graph).wf(),
        ensures
            final(graph).wf(),
            makes(
                old(graph).nodes(),
                final(graph).nodes(),
                Node::Sub(SubOp { input_1: self.place(), input_2: other.place() }),
                r,
            ),
    {
        Tensor::from_node(graph, Node::Sub(SubOp::new(self.id(), other.id())))
    }

    /// Makes the element-wise product of the tensor and `other`.
    pub fn mul<T: Numeric>(&self, graph: &mut Graph<T>, other: &Tensor) -> (r: Result<
        Tensor,
        GraphError,
    >)
        requires
            old(graph).wf(),
        ensures
            final(graph).wf(),
            makes(
                old(graph).nodes(),
                final(graph).nodes(),
                Node::Mul(MulOp { input_1: self.place(), input_2: other.place() }),
                r,
            ),
    {
        Tensor::from_node(graph, Node::Mul(MulOp::new(self.id(), other.id())))
    }

    /// Makes the element-wise quotient of the tensor by `other`.
    pub fn div<T: Numeric>(&self, graph: &mut Graph<T>, other: &Tensor) -> (r: Result<
        Tensor,
        GraphError,
    >)
        requires
            old(graph).wf(),
        ensures
            final(graph).wf(),
            makes(
                old(graph).nodes(),
                final(graph).nodes(),
                Node::Div(DivOp { input_1: self.place(), input_2: other.place() }),
                r,
            ),
    {
        Tensor::from_node(graph, Node::Div(DivOp::new(self.id(), other.id())))
    }

    /// Makes the tensor plus the scalar `other`.
    pub fn add_scalar<T: Numeric>(&self, graph: &mut Graph<T>, other: T) -> (r: Result<
        Tensor,
        GraphError,
    >)
        requires
            old(graph).wf(),
        ensures
            final(graph).wf(),
            makes(
                old(graph).nodes(),
                final(graph).nodes(),
                Node::AddScalar(AddScalarOp { input: self.place(), scalar: other }),
                r,
            ),
    {
        Tensor::from_node(graph, Node::AddScalar(AddScalarOp::new(self.id(), other)))
    }

    /// Makes the tensor minus the scalar `other`.
    pub fn sub_scalar<T: Numeric>(&self, graph: &mut Graph<T>, other: T) -> (r: Result<
        Tensor,
        GraphError,
    >)
        requires
            old(graph).wf(),
        ensures
            final(graph).wf(),
            makes(
                old(graph).nodes(),
                final(graph).nodes(),
                Node::SubScalar(SubScalarOp { input: self.place(), scalar: other }),
                r,
            ),
    {
        Tensor::from_node(graph, Node::SubScalar(SubScalarOp::new(self.id(), other)))
    }

    /// Makes the tensor times the scalar `other`.
    pub fn mul_scalar<T: Numeric>(&self, graph: &mut Graph<T>, other: T) -> (r: Result<
        Tensor,
        GraphError,
    >)
        requires
            old(graph).wf(),
        ensures
            final(graph).wf(),
            makes(
                old(graph).nodes(),
                final(graph).nodes(),
                Node::MulScalar(MulScalarOp { input: self.place(), scalar: other }),
                r,
            ),
    {
        Tensor::from_node(graph, Node::MulScalar(MulScalarOp::new(self.id(), other)))
    }

    /// Makes the tensor divided by the scalar `other`.
    pub fn div_scalar<T: Numeric>(&self, graph: &mut Graph<T>, other: T) -> (r: Result<
        Tensor,
        GraphError,
    >)
        requires
            old(graph).wf(),
        ensures
            final(graph).wf(),
            makes(
                old(graph).nodes(),
                final(graph).nodes(),
                Node::DivScalar(DivScalarOp { input: self.place(), scalar: other }),
                r,
            ),
    {
        Tensor::from_node(graph, Node::DivScalar(DivScalarOp::new(self.id(), other)))
    }

    /// Makes the negation of the tensor.
    pub fn neg<T: Numeric>(&self, graph: &mut Graph<T>) -> (r: Result<Tensor, GraphError>)
        requires
            old(graph).wf(),
        ensures
            final(graph).wf(),
            makes(
                old(graph).nodes(),
                final(graph).nodes(),
                Node::Neg(NegOp { input: self.place() }),
                r,
            ),
    {
        Tensor::from_node(graph, Node::Neg(NegOp::new(self.id())))
    }
}

} // verus!
