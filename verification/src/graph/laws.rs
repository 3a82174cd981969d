//! Laws of evaluation and of the shapes of values.

use crate::graph::walk::grad_spec;
use crate::graph::{
    eval_spec, feed_lookup, input_values_spec, shape_spec, FeedValue, GraphError, Node,
};
use crate::linalg::array::ArrayValue;
use crate::linalg::error::ShapeError;
use crate::linalg::laws::{lemma_matmul_wf, lemma_reduced_wf, lemma_zip_wf};
use crate::linalg::numeric::{BinaryFn, Numeric};
use crate::linalg::shape::{shape_positive, shape_product};
use vstd::prelude::*;

verus! {

/// Every node of `nodes` is well formed at its place.
pub open spec fn nodes_wf<T: Numeric>(nodes: Seq<Node<T>>) -> bool {
    forall|i: int| 0 <= i < nodes.len() ==> (#[trigger] nodes[i]).wf(i)
}

/// Every value among the entries of a feed is a well-formed array.
pub open spec fn entries_wf<T: Numeric>(entries: FeedValue<T>) -> bool {
    forall|i: int| 0 <= i < entries.len() ==> (#[trigger] entries[i]).1.wf()
}

/// Every value that a feed holds, where there is a feed, is a well-formed
/// array.
pub open spec fn feed_values_wf<T: Numeric>(feed: Option<FeedValue<T>>) -> bool {
    match feed {
        Some(entries) => entries_wf(entries),
        None => true,
    }
}

/// A value found in a feed of well-formed arrays is well formed.
pub proof fn lemma_feed_lookup_wf<T: Numeric>(entries: FeedValue<T>, id: Seq<char>)
    requires
        entries_wf(entries),
        feed_lookup(entries, id) is Some,
    ensures
        feed_lookup(entries, id).unwrap().wf(),
    decreases entries.len(),
{
    if entries.len() > 0 {
        if entries.last().0 == id {
            assert(entries[entries.len() - 1].1.wf());
        } else {
            assert forall|i: int| 0 <= i < entries.drop_last().len() implies (
            #[trigger] entries.drop_last()[i]).1.wf() by {
                assert(entries.drop_last()[i] == entries[i]);
            }
            lemma_feed_lookup_wf(entries.drop_last(), id);
        }
    }
}

/// The value that a node gives for the well-formed values of its inputs is
/// well formed and has the shape that the node gives for their shapes.
pub proof fn lemma_node_value_has_shape<T: Numeric>(
    node: Node<T>,
    feed: Option<FeedValue<T>>,
    values: Seq<ArrayValue<T>>,
    a: Seq<usize>,
    b: Seq<usize>,
)
    requires
        node.source_wf(),
        feed_values_wf(feed),
        node.value_spec(feed, values) is Ok,
        values.len() == node.inputs().len(),
        forall|k: int| 0 <= k < values.len() ==> (#[trigger] values[k]).wf(),
        values.len() >= 1 ==> a == values[0].shape,
        values.len() >= 2 ==> b == values[1].shape,
    ensures
        node.value_spec(feed, values).unwrap().wf(),
        node.shape_of(a, b) == Ok::<Seq<usize>, ShapeError>(
            node.value_spec(feed, values).unwrap().shape,
        ),
{
    reveal(Node::value_spec);
    match node {
        Node::Variable(_) => {},
        Node::Placeholder(p) => {
            lemma_feed_lookup_wf(feed.unwrap(), p.id@);
        },
        Node::Add(_) => {
            assert(values[0].wf() && values[1].wf());
            lemma_zip_wf(values[0], values[1], BinaryFn::Add);
        },
        Node::Sub(_) => {
            assert(values[0].wf() && values[1].wf());
            lemma_zip_wf(values[0], values[1], BinaryFn::Sub);
        },
        Node::Mul(_) => {
            assert(values[0].wf() && values[1].wf());
            lemma_zip_wf(values[0], values[1], BinaryFn::Mul);
        },
        Node::Div(_) => {
            assert(values[0].wf() && values[1].wf());
            lemma_zip_wf(values[0], values[1], BinaryFn::Div);
        },
        Node::MatMul(_) => {
            assert(values[0].wf() && values[1].wf());
            lemma_matmul_wf(values[0], values[1]);
        },
        Node::ReduceSum(op) => {
            assert(values[0].wf());
            lemma_reduced_wf(values[0], BinaryFn::Add, op.axis, op.keep_dims);
        },
        Node::ReduceMean(op) => {
            assert(values[0].wf());
            lemma_reduced_wf(values[0], BinaryFn::Add, op.axis, op.keep_dims);
        },
        _ => {
            assert(values[0].wf());
        },
    }
}

/// Where a node has a value, the value is well formed and has the shape
/// of the node: the one that follows from the shapes of the sources
/// without an evaluation.
pub proof fn lemma_value_has_shape<T: Numeric>(
    nodes: Seq<Node<T>>,
    feed: Option<FeedValue<T>>,
    id: int,
)
    requires
        0 <= id < nodes.len(),
        nodes_wf(nodes),
        feed_values_wf(feed),
        eval_spec(nodes, feed, id) is Ok,
    ensures
        eval_spec(nodes, feed, id).unwrap().wf(),
        shape_spec(nodes, id) == Ok::<Seq<usize>, ShapeError>(
            eval_spec(nodes, feed, id).unwrap().shape,
        ),
    decreases id,
{
    let node = nodes[id];
    let inputs = node.inputs();
    assert(node.wf(id));
    let empty = Seq::<usize>::empty();
    let v0 = input_values_spec(nodes, feed, id, 0);
    let v1 = input_values_spec(nodes, feed, id, 1);
    let v2 = input_values_spec(nodes, feed, id, 2);
    if inputs.len() == 0 {
        lemma_node_value_has_shape(node, feed, v0.unwrap(), empty, empty);
    } else if inputs.len() == 1 {
        assert(inputs[0] < id);
        let x = eval_spec(nodes, feed, inputs[0] as int);
        assert(v1.unwrap() == v0.unwrap().push(x.unwrap()));
        lemma_value_has_shape(nodes, feed, inputs[0] as int);
        lemma_node_value_has_shape(node, feed, v1.unwrap(), x.unwrap().shape, x.unwrap().shape);
    } else {
        assert(inputs[0] < id);
        assert(inputs[1] < id);
        let x = eval_spec(nodes, feed, inputs[0] as int);
        let y = eval_spec(nodes, feed, inputs[1] as int);
        assert(v1.unwrap() == v0.unwrap().push(x.unwrap()));
        assert(v2.unwrap() == v1.unwrap().push(y.unwrap()));
        lemma_value_has_shape(nodes, feed, inputs[0] as int);
        lemma_value_has_shape(nodes, feed, inputs[1] as int);
        lemma_node_value_has_shape(node, feed, v2.unwrap(), x.unwrap().shape, y.unwrap().shape);
    }
}

/// A shape that follows for a node is one that an array can have.
pub proof fn lemma_shape_holdable<T: Numeric>(nodes: Seq<Node<T>>, id: int)
    requires
        shape_spec(nodes, id) is Ok,
    ensures
        shape_positive(shape_spec(nodes, id).unwrap()),
        shape_product(shape_spec(nodes, id).unwrap()) <= usize::MAX,
{
}

/// The gradient of a node by itself is ones of the shape of the node, for
/// every node that has a shape, whether it has a value or not. A node
/// without a shape has no such gradient, for the reason that it has no
/// shape.
pub proof fn lemma_self_gradient<T: Numeric>(
    nodes: Seq<Node<T>>,
    feed: Option<FeedValue<T>>,
    node: usize,
)
    ensures
        grad_spec(nodes, feed, node, node) == (match shape_spec(nodes, node as int) {
            Ok(shape) => Ok(Some(ArrayValue::full(T::one_spec(), shape))),
            Err(e) => Err(GraphError::Shape(e)),
        }),
{
}

} // verus!
