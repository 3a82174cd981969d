//! Tensors: the handles by which the nodes of a graph are made, combined,
//! evaluated and differentiated.

pub mod arithmetic;
pub mod math;
pub mod reduce;

use crate::graph::arithmetic::MatMulOp;
use crate::graph::walk::grad_spec;
use crate::graph::{
    assign_add_to_spec, assign_spec, checked_shape_spec, differentiates, eval_spec, evaluates,
    feed_value, feed_wf, Feed, FeedValue, Graph, GraphError, Node, Placeholder, Variable,
};
use crate::linalg::array::{Array, ArrayValue};
use crate::linalg::error::ShapeError;
use crate::linalg::numeric::{BinaryFn, Numeric};
use vstd::prelude::*;

verus! {

/// A handle to a node of a graph: the place of the node.
#[derive(Clone, Copy, Debug, PartialEq, Eq)]
pub struct Tensor {
    op: usize,
}

/// What making a node answers: the node `node` goes to the end of the
/// graph, and the tensor answered is at its place. Where an input of the
/// node is no node of the graph, the graph stays as it is.
pub open spec fn makes<T: Numeric>(
    before: Seq<Node<T>>,
    after: Seq<Node<T>>,
    node: Node<T>,
    r: Result<Tensor, GraphError>,
) -> bool {
    match r {
        Ok(tensor) => {
            &&& node.wf(before.len() as int)
            &&& after == before.push(node)
            &&& tensor.place() == before.len()
        },
        Err(e) => {
            &&& e == GraphError::UnknownNode
            &&& !node.wf(before.len() as int)
            &&& after == before
        },
    }
}

/// What evaluating the node at place `id` answers.
pub open spec fn checked_eval_spec<T: Numeric>(
    nodes: Seq<Node<T>>,
    feed: Option<FeedValue<T>>,
    id: usize,
) -> Result<ArrayValue<T>, GraphError> {
    if id >= nodes.len() {
        Err(GraphError::UnknownNode)
    } else {
        eval_spec(nodes, feed, id as int)
    }
}

/// What differentiating the node at place `root` by the node at place
/// `target` answers.
pub open spec fn checked_grad_spec<T: Numeric>(
    nodes: Seq<Node<T>>,
    feed: Option<FeedValue<T>>,
    root: usize,
    target: usize,
) -> Result<Option<ArrayValue<T>>, GraphError> {
    if root >= nodes.len() || target >= nodes.len() {
        Err(GraphError::UnknownNode)
    } else {
        grad_spec(nodes, feed, root, target)
    }
}

impl Tensor {
    /// The place of the node.
    pub closed spec fn place(&self) -> usize {
        self.op
    }

    /// The handle to the node at place `op`.
    pub(crate) fn new(op: usize) -> (r: Tensor)
        ensures
            r.place() == op,
    {
        Tensor { op }
    }

    /// The place of the node.
    pub fn id(&self) -> (r: usize)
        ensures
            r == self.place(),
    {
        self.op
    }

    /// Makes a node of `node` in `graph`.
    pub fn from_node<T: Numeric>(graph: &mut Graph<T>, node: Node<T>) -> (r: Result<
        Tensor,
        GraphError,
    >)
        requires
            old(graph).wf(),
            node.source_wf(),
        ensures
            final(graph).wf(),
            makes(old(graph).nodes(), final(graph).nodes(), node, r),
    {
        match graph.push(node) {
            Ok(id) => Ok(Tensor::new(id)),
            Err(e) => Err(e),
        }
    }

    /// The shape of the value of the tensor, as it follows from the shapes
    /// of the sources without an evaluation.
    pub fn shape<T: Numeric>(&self, graph: &Graph<T>) -> (r: Result<Vec<usize>, GraphError>)
        requires
            graph.wf(),
        ensures
            match r {
                Ok(shape) => checked_shape_spec(graph.nodes(), self.place()) == Ok::<
                    Seq<usize>,
                    GraphError,
                >(shape@),
                Err(e) => checked_shape_spec(graph.nodes(), self.place()) == Err::<
                    Seq<usize>,
                    GraphError,
                >(e),
            },
    {
        graph.shape(self.op)
    }

    /// Makes a placeholder of the name `id` and the shape `shape`, which
    /// must have a dimension.
    pub fn new_placeholder<T: Numeric>(graph: &mut Graph<T>, id: String, shape: Vec<usize>) -> (r:
        Result<Tensor, GraphError>)
        requires
            old(graph).wf(),
        ensures
            final(graph).wf(),
            match r {
                Ok(tensor) => {
                    &&& shape@.len() > 0
                    &&& tensor.place() == old(graph).nodes().len()
                    &&& final(graph).nodes().len() == old(graph).nodes().len() + 1
                    &&& final(graph).nodes().drop_last() == old(graph).nodes()
                    &&& final(graph).nodes().last() matches Node::Placeholder(p) && p.id@ == id@
                        && p.shape@ == shape@
                },
                Err(e) => {
                    &&& e == GraphError::Shape(ShapeError::EmptyShape)
                    &&& shape@.len() == 0
                    &&& final(graph).nodes() == old(graph).nodes()
                },
            },
    {
        let placeholder = match Placeholder::new(id, shape) {
            Ok(p) => p,
            Err(e) => {
                return Err(GraphError::Shape(e));
            },
        };
        let ghost before = graph.nodes();
        match graph.push(Node::Placeholder(placeholder)) {
            Ok(place) => {
                Ok(Tensor::new(place))
            },
            Err(e) => {
                Err(e)
            },
        }
    }

    /// Makes a variable that holds `init_value`, whose shape must have a
    /// dimension.
    pub fn new_variable<T: Numeric>(graph: &mut Graph<T>, init_value: Array<T>) -> (r: Result<
        Tensor,
        GraphError,
    >)
        requires
            old(graph).wf(),
            init_value.wf(),
        ensures
            final(graph).wf(),
            match r {
                Ok(tensor) => {
                    &&& init_value@.shape.len() > 0
                    &&& tensor.place() == old(graph).nodes().len()
                    &&& final(graph).nodes().len() == old(graph).nodes().len() + 1
                    &&& final(graph).nodes().drop_last() == old(graph).nodes()
                    &&& final(graph).nodes().last() matches Node::Variable(v) && v.value()
                        == init_value@
                },
                Err(e) => {
                    &&& e == GraphError::Shape(ShapeError::EmptyShape)
                    &&& init_value@.shape.len() == 0
                    &&& final(graph).nodes() == old(graph).nodes()
                },
            },
    {
        let variable = match Variable::new(init_value) {
            Ok(v) => v,
            Err(e) => {
                return Err(GraphError::Shape(e));
            },
        };
        let ghost before = graph.nodes();
        let ghost node = Node::Variable(variable);
        match graph.push(Node::Variable(variable)) {
            Ok(place) => {
                Ok(Tensor::new(place))
            },
            Err(e) => {
                Err(e)
            },
        }
    }

    /// Evaluates the tensor.
    pub fn eval<T: Numeric>(&self, graph: &Graph<T>, feed_dict: Option<&Feed<T>>) -> (r: Result<
        Array<T>,
        GraphError,
    >)
        requires
            graph.wf(),
            feed_wf(feed_dict),
        ensures
            evaluates(r, checked_eval_spec(graph.nodes(), feed_value(feed_dict), self.place())),
    {
        if self.op >= graph.len() {
            return Err(GraphError::UnknownNode);
        }
        graph.eval(self.op, feed_dict)
    }

    /// Computes the gradient of the tensor by the tensor `y`: an array, or
    /// nothing where no path leads from the tensor to `y`. The gradient of
    /// a tensor by itself is ones of its shape, for which the tensor is
    /// not evaluated.
    pub fn grad<T: Numeric>(&self, graph: &Graph<T>, y: &Tensor, feed_dict: Option<&Feed<T>>) -> (r:
        Result<Option<Array<T>>, GraphError>)
        requires
            graph.wf(),
            feed_wf(feed_dict),
        ensures
            differentiates(
                r,
                checked_grad_spec(graph.nodes(), feed_value(feed_dict), self.place(), y.place()),
            ),
    {
        if self.op >= graph.len() || y.op >= graph.len() {
            return Err(GraphError::UnknownNode);
        }
        graph.grad(self.op, y.op, feed_dict)
    }

    /// Makes the matrix product of the tensor and `other`.
    pub fn matmul<T: Numeric>(&self, graph: &mut Graph<T>, other: &Tensor) -> (r: Result<
        Tensor,
        GraphError,
    >)
        requires
            old(graph).wf(),
        ensures
            final(graph).wf(),
            makes(
                old(graph).nodes(),
                final(graph).nodes(),
                Node::MatMul(MatMulOp { input_1: self.place(), input_2: other.place() }),
                r,
            ),
    {
        Tensor::from_node(graph, Node::MatMul(MatMulOp::new(self.op, other.op)))
    }

    /// Replaces the value of the variable behind the tensor by
    /// `new_value`, which must have the shape of the variable.
    pub fn assign<T: Numeric>(&self, graph: &mut Graph<T>, new_value: &Array<T>) -> (r: Result<
        (),
        GraphError,
    >)
        requires
            old(graph).wf(),
            new_value.wf(),
        ensures
            final(graph).wf(),
            final(graph).nodes().len() == old(graph).nodes().len(),
            forall|i: int|
                0 <= i < old(graph).nodes().len() && i != self.place() ==> final(graph).nodes()[i]
                    == old(graph).nodes()[i],
            r == assign_spec(old(graph).nodes(), self.place(), new_value@),
            match r {
                Ok(_) => final(graph).nodes()[self.place() as int] matches Node::Variable(v)
                    && v.value() == new_value@,
                Err(_) => final(graph).nodes() == old(graph).nodes(),
            },
    {
        graph.assign(self.op, new_value)
    }

    /// Adds `value` to the value of the variable behind the tensor,
    /// element by element under broadcasting. The sum must have the shape
    /// of the variable.
    pub fn assign_add<T: Numeric>(&self, graph: &mut Graph<T>, value: &Array<T>) -> (r: Result<
        (),
        GraphError,
    >)
        requires
            old(graph).wf(),
            value.wf(),
        ensures
            final(graph).wf(),
            final(graph).nodes().len() == old(graph).nodes().len(),
            forall|i: int|
                0 <= i < old(graph).nodes().len() && i != self.place() ==> final(graph).nodes()[i]
                    == old(graph).nodes()[i],
            r == assign_add_to_spec(old(graph).nodes(), self.place(), value@),
            match r {
                Ok(_) => final(graph).nodes()[self.place() as int] matches Node::Variable(v)
                    && old(graph).nodes()[self.place() as int] matches Node::Variable(u)
                    && v.value() == u.value().zip(value@, BinaryFn::Add),
                Err(_) => final(graph).nodes() == old(graph).nodes(),
            },
    {
        graph.assign_add(self.op, value)
    }
}

} // verus!
