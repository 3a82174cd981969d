//! The tensors that reduce along an axis or over all elements.

use crate::graph::reduce::{ReduceMeanOp, ReduceSumOp};
use crate::graph::{Graph, GraphError, Node};
use crate::linalg::numeric::Numeric;
use crate::tensor::{makes, Tensor};
use vstd::prelude::*;

verus! {

/// Makes the tensor of the sum of `tensor` along `axis`, or of all of
/// its elements where there is no axis. With `keep_dims` the reduced
/// dimensions stay, with length one.
pub fn reduce_sum<T: Numeric>(
    graph: &mut Graph<T>,
    tensor: &Tensor,
    axis: Option<usize>,
    keep_dims: bool,
) -> (r: Result<Tensor, GraphError>)
    requires
        old(graph).wf(),
    ensures
        final(graph).wf(),
        makes(
            old(graph).nodes(),
            final(graph).nodes(),
            Node::ReduceSum(ReduceSumOp { input: tensor.place(), axis, keep_dims }),
            r,
        ),
{
    Tensor::from_node(graph, Node::ReduceSum(ReduceSumOp::new(tensor.id(), axis, keep_dims)))
}

/// Makes the tensor of the mean of `tensor` along `axis`, or of all of
/// its elements where there is no axis. With `keep_dims` the reduced
/// dimensions stay, with length one.
pub fn reduce_mean<T: Numeric>(
    graph: &mut Graph<T>,
    tensor: &Tensor,
    axis: Option<usize>,
    keep_dims: bool,
) -> (r: Result<Tensor, GraphError>)
    requires
        old(graph).wf(),
    ensures
        final(graph).wf(),
        makes(
            old(graph).nodes(),
            final(graph).nodes(),
            Node::ReduceMean(ReduceMeanOp { input: tensor.place(), axis, keep_dims }),
            r,
        ),
{
    Tensor::from_node(graph, Node::ReduceMean(ReduceMeanOp::new(tensor.id(), axis, keep_dims)))
}

} // verus!
