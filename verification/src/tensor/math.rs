//! The tensors that apply one function to every element.

use crate::graph::math::{MapKind, MapOp, ParamKind, ParamMapOp};
use crate::graph::{Graph, GraphError, Node};
use crate::linalg::numeric::Numeric;
use crate::tensor::{makes, Tensor};
use vstd::prelude::*;

verus! {

/// Makes the tensor of `kind` of every element of `tensor`.
pub fn map_kind<T: Numeric>(graph: &mut Graph<T>, tensor: &Tensor, kind: MapKind) -> (r: Result<
    Tensor,
    GraphError,
>)
    requires
        old(graph).wf(),
    ensures
        final(graph).wf(),
        makes(
            old(graph).nodes(),
            final(graph).nodes(),
            Node::Unary(MapOp { kind, input: tensor.place() }),
            r,
        ),
{
    Tensor::from_node(graph, Node::Unary(MapOp::new(kind, tensor.id())))
}

/// Makes the tensor of the sine of every element of `tensor`.
pub fn sin<T: Numeric>(graph: &mut Graph<T>, tensor: &Tensor) -> (r: Result<Tensor, GraphError>)
    requires
        old(graph).wf(),
    ensures
        final(graph).wf(),
        makes(
            old(graph).nodes(),
            final(graph).nodes(),
            Node::Unary(MapOp { kind: MapKind::Sin, input: tensor.place() }),
            r,
        ),
{
    map_kind(graph, tensor, MapKind::Sin)
}

/// Makes the tensor of the cosine of every element of `tensor`.
pub fn cos<T: Numeric>(graph: &mut Graph<T>, tensor: &Tensor) -> (r: Result<Tensor, GraphError>)
    requires
        old(graph).wf(),
    ensures
        final(graph).wf(),
        makes(
            old(graph).nodes(),
            final(graph).nodes(),
            Node::Unary(MapOp { kind: MapKind::Cos, input: tensor.place() }),
            r,
        ),
{
    map_kind(graph, tensor, MapKind::Cos)
}

/// Makes the tensor of the natural logarithm of every element of `tensor`.
pub fn ln<T: Numeric>(graph: &mut Graph<T>, tensor: &Tensor) -> (r: Result<Tensor, GraphError>)
    requires
        old(graph).wf(),
    ensures
        final(graph).wf(),
        makes(
            old(graph).nodes(),
            final(graph).nodes(),
            Node::Unary(MapOp { kind: MapKind::Ln, input: tensor.place() }),
            r,
        ),
{
    map_kind(graph, tensor, MapKind::Ln)
}

/// Makes the tensor of the logistic function of every element of `tensor`.
pub fn sigmoid<T: Numeric>(graph: &mut Graph<T>, tensor: &Tensor) -> (r: Result<Tensor, GraphError>)
    requires
        old(graph).wf(),
    ensures
        final(graph).wf(),
        makes(
            old(graph).nodes(),
            final(graph).nodes(),
            Node::Unary(MapOp { kind: MapKind::Sigmoid, input: tensor.place() }),
            r,
        ),
{
    map_kind(graph, tensor, MapKind::Sigmoid)
}

/// Makes the tensor of the hyperbolic tangent of every element of `tensor`.
pub fn tanh<T: Numeric>(graph: &mut Graph<T>, tensor: &Tensor) -> (r: Result<Tensor, GraphError>)
    requires
        old(graph).wf(),
    ensures
        final(graph).wf(),
        makes(
            old(graph).nodes(),
            final(graph).nodes(),
            Node::Unary(MapOp { kind: MapKind::Tanh, input: tensor.place() }),
            r,
        ),
{
    map_kind(graph, tensor, MapKind::Tanh)
}

/// Makes the tensor of the rectifier of every element of `tensor`.
pub fn relu<T: Numeric>(graph: &mut Graph<T>, tensor: &Tensor) -> (r: Result<Tensor, GraphError>)
    requires
        old(graph).wf(),
    ensures
        final(graph).wf(),
        makes(
            old(graph).nodes(),
            final(graph).nodes(),
            Node::Unary(MapOp { kind: MapKind::Relu, input: tensor.place() }),
            r,
        ),
{
    map_kind(graph, tensor, MapKind::Relu)
}

/// Makes the tensor of every element of `tensor` raised to the power `exponent`.
pub fn pow<T: Numeric>(graph: &mut Graph<T>, tensor: &Tensor, exponent: T) -> (r: Result<
    Tensor,
    GraphError,
>)
    requires
        old(graph).wf(),
    ensures
        final(graph).wf(),
        makes(
            old(graph).nodes(),
            final(graph).nodes(),
            Node::Parametric(
                ParamMapOp { kind: ParamKind::Pow, input: tensor.place(), parameter: exponent },
            ),
            r,
        ),
{
    Tensor::from_node(
        graph,
        Node::Parametric(ParamMapOp::new(ParamKind::Pow, tensor.id(), exponent)),
    )
}

/// Makes the tensor of the logarithm to the base `base` of every element of `tensor`.
pub fn log<T: Numeric>(graph: &mut Graph<T>, tensor: &Tensor, base: T) -> (r: Result<
    Tensor,
    GraphError,
>)
    requires
        old(graph).wf(),
    ensures
        final(graph).wf(),
        makes(
            old(graph).nodes(),
            final(graph).nodes(),
            Node::Parametric(
                ParamMapOp { kind: ParamKind::Log, input: tensor.place(), parameter: base },
            ),
            r,
        ),
{
    Tensor::from_node(
        graph,
        Node::Parametric(ParamMapOp::new(ParamKind::Log, tensor.id(), base)),
    )
}

} // verus!
