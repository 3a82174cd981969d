//! What reverse-mode differentiation computes: the walk from the node that
//! is differentiated down to the node it is differentiated by, and the
//! gradients gathered on the way.

use crate::graph::{eval_spec, local_grad_spec, shape_spec, FeedValue, GraphError, Node};
use crate::linalg::array::ArrayValue;
use crate::linalg::error::ShapeError;
use crate::linalg::numeric::{BinaryFn, Numeric};
use vstd::prelude::*;

verus! {

/// The gradients gathered so far: for each place of the graph the gradient
/// that has arrived at its node, if any has.
pub type Gradients<T> = Seq<Option<ArrayValue<T>>>;

/// A visit that is still to be made: the node to visit and the parent
/// through which it is reached. No parent stands for the stand-in of the
/// root.
pub type Visit = (usize, Option<usize>);

/// A differentiation of the node at place `root` by the node at place
/// `target`, seeded with the gradient `seed`.
pub struct Walk<T: Numeric> {
    pub nodes: Seq<Node<T>>,
    pub feed: Option<FeedValue<T>>,
    pub root: usize,
    pub target: usize,
    pub seed: ArrayValue<T>,
}

impl<T: Numeric> Walk<T> {
    /// The place of the node behind a parent: the root behind its
    /// stand-in.
    pub open spec fn parent_node(self, parent: Option<usize>) -> int {
        match parent {
            Some(p) => p as int,
            None => self.root as int,
        }
    }

    /// The gradient that has arrived at a parent: the seed at the stand-in
    /// of the root.
    pub open spec fn parent_grad(self, parent: Option<usize>, acc: Gradients<T>) -> Option<
        ArrayValue<T>,
    > {
        match parent {
            Some(p) => acc[p as int],
            None => Some(self.seed),
        }
    }

    /// The inputs of the node at place `node`.
    pub open spec fn inputs(self, node: int) -> Seq<usize> {
        self.nodes[node].inputs()
    }

    /// The gradients after `parent` has handed its contribution to
    /// `child`: the contribution is the first gradient at `child`, or is
    /// added to the one that is there.
    pub open spec fn accumulate(
        self,
        child: usize,
        parent: Option<usize>,
        acc: Gradients<T>,
    ) -> Result<Gradients<T>, GraphError> {
        match self.parent_grad(parent, acc) {
            None => Ok(acc),
            Some(grad) => match local_grad_spec(
                self.nodes,
                self.feed,
                self.parent_node(parent),
                child,
                grad,
            ) {
                Err(e) => Err(e),
                Ok(None) => Ok(acc),
                Ok(Some(contribution)) => match acc[child as int] {
                    None => Ok(acc.update(child as int, Some(contribution))),
                    Some(sum) => match sum.checked_zip(contribution, BinaryFn::Add) {
                        Err(e) => Err(GraphError::Shape(e)),
                        Ok(sum) => Ok(acc.update(child as int, Some(sum))),
                    },
                },
            },
        }
    }

    /// The gradients after the visit of `child` through `parent`: the
    /// parent hands its contribution to the child; then, unless the child
    /// is the target, its inputs are visited through it.
    pub open spec fn visit(self, child: usize, parent: Option<usize>, acc: Gradients<T>) -> Result<
        Gradients<T>,
        GraphError,
    >
        decreases child, 1int, 0nat,
    {
        match self.accumulate(child, parent, acc) {
            Err(e) => Err(e),
            Ok(next) => if child == self.target {
                Ok(next)
            } else {
                self.visit_inputs(Some(child), self.inputs(child as int).len(), next)
            },
        }
    }

    /// The gradients after the visits of the first `k` inputs of the node
    /// behind `parent` through it, the last of them first.
    pub open spec fn visit_inputs(self, parent: Option<usize>, k: nat, acc: Gradients<T>) -> Result<
        Gradients<T>,
        GraphError,
    >
        decreases self.parent_node(parent), 0int, k,
    {
        if k == 0 {
            Ok(acc)
        } else {
            let child = self.inputs(self.parent_node(parent))[k - 1];
            if child < self.parent_node(parent) {
                match self.visit(child, parent, acc) {
                    Err(e) => Err(e),
                    Ok(next) => self.visit_inputs(parent, (k - 1) as nat, next),
                }
            } else {
                Err(GraphError::Shape(ShapeError::Index))
            }
        }
    }

    /// The gradients after the visits on a stack have been made, the top
    /// of the stack, which is its last entry, first.
    pub open spec fn run_stack(self, stack: Seq<Visit>, acc: Gradients<T>) -> Result<
        Gradients<T>,
        GraphError,
    >
        decreases stack.len(),
    {
        if stack.len() == 0 {
            Ok(acc)
        } else {
            match self.visit(stack.last().0, stack.last().1, acc) {
                Err(e) => Err(e),
                Ok(next) => self.run_stack(stack.drop_last(), next),
            }
        }
    }

    /// The visits of the first `k` inputs of the node behind `parent`, in
    /// the order in which they go onto the stack.
    pub open spec fn input_visits(self, parent: Option<usize>, k: nat) -> Seq<Visit> {
        Seq::new(k, |i: int| (self.inputs(self.parent_node(parent))[i], parent))
    }

    /// The number of visits that the visit of `child` takes in all.
    pub open spec fn visits(self, child: int) -> nat
        decreases child, 1int, 0nat,
    {
        if child == self.target {
            1
        } else {
            1 + self.visits_of_inputs(child, self.inputs(child).len())
        }
    }

    /// The number of visits that the visits of the first `k` inputs of the
    /// node at place `node` take in all.
    pub open spec fn visits_of_inputs(self, node: int, k: nat) -> nat
        decreases node, 0int, k,
    {
        if k == 0 {
            0
        } else {
            let child = self.inputs(node)[k - 1];
            (if child < node {
                self.visits(child as int)
            } else {
                0
            }) + self.visits_of_inputs(node, (k - 1) as nat)
        }
    }

    /// The number of visits that the visits on a stack take in all.
    pub open spec fn stack_visits(self, stack: Seq<Visit>) -> nat
        decreases stack.len(),
    {
        if stack.len() == 0 {
            0
        } else {
            self.stack_visits(stack.drop_last()) + self.visits(stack.last().0 as int)
        }
    }

    /// Every visit on the stack is of an input of the node behind its
    /// parent, which stands before that node in the graph.
    pub open spec fn stack_valid(self, stack: Seq<Visit>) -> bool {
        forall|i: int|
            0 <= i < stack.len() ==> (#[trigger] stack[i]).0 < self.parent_node(stack[i].1)
                < self.nodes.len()
    }

    /// Putting the visits of the inputs of a node onto a stack has them
    /// made before the visits that were there.
    pub proof fn lemma_run_stack_inputs(
        self,
        rest: Seq<Visit>,
        parent: Option<usize>,
        k: nat,
        acc: Gradients<T>,
    )
        requires
            k <= self.inputs(self.parent_node(parent)).len(),
            forall|i: int|
                0 <= i < k ==> (#[trigger] self.inputs(self.parent_node(parent))[i])
                    < self.parent_node(parent),
        ensures
            self.run_stack(rest + self.input_visits(parent, k), acc) == (match self.visit_inputs(
                parent,
                k,
                acc,
            ) {
                Err(e) => Err(e),
                Ok(next) => self.run_stack(rest, next),
            }),
        decreases k,
    {
        let stack = rest + self.input_visits(parent, k);
        if k == 0 {
        } else {
            let child = self.inputs(self.parent_node(parent))[k - 1];
            assert(stack.drop_last() =~= rest + self.input_visits(parent, (k - 1) as nat));
            match self.visit(child, parent, acc) {
                Err(e) => {},
                Ok(next) => {
                    self.lemma_run_stack_inputs(rest, parent, (k - 1) as nat, next);
                },
            }
        }
    }

    /// The visits of the inputs of a node, put onto a stack, take as many
    /// visits more as the inputs take.
    pub proof fn lemma_stack_visits_inputs(self, rest: Seq<Visit>, parent: Option<usize>, k: nat)
        requires
            k <= self.inputs(self.parent_node(parent)).len(),
            forall|i: int|
                0 <= i < k ==> (#[trigger] self.inputs(self.parent_node(parent))[i])
                    < self.parent_node(parent),
        ensures
            self.stack_visits(rest + self.input_visits(parent, k)) == self.stack_visits(rest)
                + self.visits_of_inputs(self.parent_node(parent), k),
        decreases k,
    {
        let stack = rest + self.input_visits(parent, k);
        if k == 0 {
        } else {
            assert(stack.drop_last() =~= rest + self.input_visits(parent, (k - 1) as nat));
            self.lemma_stack_visits_inputs(rest, parent, (k - 1) as nat);
        }
    }
}

/// The gradient of the node at place `root` by the node at place `target`
/// under `feed`. If the two nodes are one, the gradient is ones of the
/// shape of the node, which follows from the shapes of the sources; the
/// node is not evaluated. Else the root is evaluated, its inputs are
/// visited through its stand-in, which holds ones of the shape of its
/// value, and the gradient is what has then arrived at the target, if
/// anything has.
pub open spec fn grad_spec<T: Numeric>(
    nodes: Seq<Node<T>>,
    feed: Option<FeedValue<T>>,
    root: usize,
    target: usize,
) -> Result<Option<ArrayValue<T>>, GraphError> {
    if root == target {
        match shape_spec(nodes, root as int) {
            Ok(shape) => Ok(Some(ArrayValue::full(T::one_spec(), shape))),
            Err(e) => Err(GraphError::Shape(e)),
        }
    } else {
        match eval_spec(nodes, feed, root as int) {
            Err(e) => Err(e),
            Ok(value) => {
                let walk = Walk {
                    nodes,
                    feed,
                    root,
                    target,
                    seed: ArrayValue::full(T::one_spec(), value.shape),
                };
                match walk.visit_inputs(
                    None,
                    nodes[root as int].inputs().len(),
                    no_gradients(nodes.len()),
                ) {
                    Err(e) => Err(e),
                    Ok(acc) => Ok(acc[target as int]),
                }
            },
        }
    }
}

/// No gradient at any of `n` places.
pub open spec fn no_gradients<T>(n: nat) -> Gradients<T> {
    Seq::new(n, |i: int| None)
}

/// There is a path from the node at place `from` to the node at place
/// `to` that leads from a node to one of its inputs at each step. A node
/// reaches itself.
pub open spec fn reaches<T: Numeric>(nodes: Seq<Node<T>>, from: int, to: int) -> bool
    decreases from, 1int, 0nat,
{
    from == to || reaches_through_inputs(nodes, from, to, nodes[from].inputs().len())
}

/// One of the first `k` inputs of the node at place `from` reaches the
/// node at place `to`.
pub open spec fn reaches_through_inputs<T: Numeric>(
    nodes: Seq<Node<T>>,
    from: int,
    to: int,
    k: nat,
) -> bool
    decreases from, 0int, k,
{
    k > 0 && ((nodes[from].inputs()[k - 1] < from && reaches(
        nodes,
        nodes[from].inputs()[k - 1] as int,
        to,
    )) || reaches_through_inputs(nodes, from, to, (k - 1) as nat))
}

impl<T: Numeric> Walk<T> {
    /// A visit leaves the gradient alone at every place that the visited
    /// node does not reach.
    pub proof fn lemma_visit_keeps(
        self,
        child: usize,
        parent: Option<usize>,
        acc: Gradients<T>,
        x: int,
    )
        requires
            !reaches(self.nodes, child as int, x),
            self.visit(child, parent, acc) is Ok,
            0 <= child < acc.len(),
            0 <= x < acc.len(),
        ensures
            self.visit(child, parent, acc).unwrap().len() == acc.len(),
            self.visit(child, parent, acc).unwrap()[x] == acc[x],
        decreases child, 1int, 0nat,
    {
        let next = self.accumulate(child, parent, acc).unwrap();
        if child != self.target {
            self.lemma_visit_inputs_keeps(
                Some(child),
                self.inputs(child as int).len(),
                next,
                x,
            );
        }
    }

    /// The visits of inputs leave the gradient alone at every place that
    /// none of those inputs reaches.
    pub proof fn lemma_visit_inputs_keeps(
        self,
        parent: Option<usize>,
        k: nat,
        acc: Gradients<T>,
        x: int,
    )
        requires
            !reaches_through_inputs(self.nodes, self.parent_node(parent), x, k),
            self.visit_inputs(parent, k, acc) is Ok,
            self.parent_node(parent) <= acc.len(),
            0 <= x < acc.len(),
        ensures
            self.visit_inputs(parent, k, acc).unwrap().len() == acc.len(),
            self.visit_inputs(parent, k, acc).unwrap()[x] == acc[x],
        decreases self.parent_node(parent), 0int, k,
    {
        if k > 0 {
            let child = self.inputs(self.parent_node(parent))[k - 1];
            self.lemma_visit_keeps(child, parent, acc, x);
            let next = self.visit(child, parent, acc).unwrap();
            self.lemma_visit_inputs_keeps(parent, (k - 1) as nat, next, x);
        }
    }
}

/// The gradient of a node by a node that it does not reach is nothing,
/// wherever the differentiation succeeds.
pub proof fn lemma_unreachable_gradient<T: Numeric>(
    nodes: Seq<Node<T>>,
    feed: Option<FeedValue<T>>,
    root: usize,
    target: usize,
)
    requires
        root < nodes.len(),
        target < nodes.len(),
        !reaches(nodes, root as int, target as int),
        grad_spec(nodes, feed, root, target) is Ok,
    ensures
        grad_spec(nodes, feed, root, target) == Ok::<Option<ArrayValue<T>>, GraphError>(None),
{
    let value = eval_spec(nodes, feed, root as int).unwrap();
    let walk = Walk {
        nodes,
        feed,
        root,
        target,
        seed: ArrayValue::full(T::one_spec(), value.shape),
    };
    walk.lemma_visit_inputs_keeps(
        None,
        nodes[root as int].inputs().len(),
        no_gradients(nodes.len()),
        target as int,
    );
}

/// A node that hands a gradient to one of its inputs hands it something.
pub proof fn lemma_input_gets_gradient<T: Numeric>(
    node: Node<T>,
    dependent: usize,
    values: Seq<ArrayValue<T>>,
    grad: ArrayValue<T>,
)
    requires
        node.inputs().contains(dependent),
        node.grad_spec(dependent, values, grad) is Ok,
    ensures
        node.grad_spec(dependent, values, grad).unwrap() is Some,
{
    reveal(Node::grad_spec);
    let i = choose|i: int| 0 <= i < node.inputs().len() && node.inputs()[i] == dependent;
    assert(node.inputs()[i] == dependent);
}

impl<T: Numeric> Walk<T> {
    /// Fan-in: the contribution that a parent hands to a child is the
    /// first gradient at the child, or is added, element by element under
    /// broadcasting, to the gradient that is there. It replaces nothing,
    /// and the gradient at every other place stays as it is.
    pub proof fn lemma_accumulate_adds(
        self,
        child: usize,
        parent: Option<usize>,
        acc: Gradients<T>,
        grad: ArrayValue<T>,
        contribution: ArrayValue<T>,
    )
        requires
            0 <= child < acc.len(),
            self.parent_grad(parent, acc) == Some(grad),
            local_grad_spec(self.nodes, self.feed, self.parent_node(parent), child, grad) == Ok::<
                Option<ArrayValue<T>>,
                GraphError,
            >(Some(contribution)),
        ensures
            self.accumulate(child, parent, acc) == (match acc[child as int] {
                None => Ok(acc.update(child as int, Some(contribution))),
                Some(sum) => match sum.checked_zip(contribution, BinaryFn::Add) {
                    Ok(total) => Ok(acc.update(child as int, Some(total))),
                    Err(e) => Err(GraphError::Shape(e)),
                },
            }),
            self.accumulate(child, parent, acc) is Ok ==> {
                let after = self.accumulate(child, parent, acc).unwrap();
                &&& after.len() == acc.len()
                &&& after[child as int] is Some
                &&& forall|x: int| 0 <= x < acc.len() && x != child ==> after[x] == acc[x]
            },
    {
    }

    /// What a visit leaves behind. No gradient that was there is lost. A
    /// child that is visited through a parent at which a gradient has
    /// arrived has a gradient afterwards, and so has the target, if the
    /// child reaches it.
    pub proof fn lemma_visit_arrives(self, child: usize, parent: Option<usize>, acc: Gradients<T>)
        requires
            acc.len() == self.nodes.len(),
            self.target < self.nodes.len(),
            forall|i: int| 0 <= i < self.nodes.len() ==> (#[trigger] self.nodes[i]).wf(i),
            0 <= self.parent_node(parent) < self.nodes.len(),
            self.inputs(self.parent_node(parent)).contains(child),
            self.parent_grad(parent, acc) is Some,
            self.visit(child, parent, acc) is Ok,
        ensures
            self.visit(child, parent, acc).unwrap().len() == acc.len(),
            forall|x: int|
                0 <= x < acc.len() && acc[x] is Some ==> self.visit(child, parent, acc).unwrap()[x]
                    is Some,
            self.visit(child, parent, acc).unwrap()[child as int] is Some,
            reaches(self.nodes, child as int, self.target as int) ==> self.visit(
                child,
                parent,
                acc,
            ).unwrap()[self.target as int] is Some,
        decreases child, 1int, 0nat,
    {
        let node = self.parent_node(parent);
        let i = choose|i: int| 0 <= i < self.inputs(node).len() && self.inputs(node)[i] == child;
        assert(self.nodes[node].wf(node));
        assert(self.nodes[node].inputs()[i] < node);
        let grad = self.parent_grad(parent, acc).unwrap();
        let local = local_grad_spec(self.nodes, self.feed, node, child, grad);
        let values = crate::graph::input_values_spec(
            self.nodes,
            self.feed,
            node,
            self.nodes[node].inputs().len(),
        );
        lemma_input_gets_gradient(self.nodes[node], child, values.unwrap(), grad);
        self.lemma_accumulate_adds(child, parent, acc, grad, local.unwrap().unwrap());
        let next = self.accumulate(child, parent, acc).unwrap();
        if child != self.target {
            self.lemma_visit_inputs_arrive(
                Some(child),
                self.inputs(child as int).len(),
                next,
            );
        }
    }

    /// What the visits of inputs leave behind. No gradient that was there
    /// is lost, and the target has a gradient afterwards, if one of the
    /// visited inputs reaches it.
    pub proof fn lemma_visit_inputs_arrive(self, parent: Option<usize>, k: nat, acc: Gradients<T>)
        requires
            acc.len() == self.nodes.len(),
            self.target < self.nodes.len(),
            forall|i: int| 0 <= i < self.nodes.len() ==> (#[trigger] self.nodes[i]).wf(i),
            0 <= self.parent_node(parent) < self.nodes.len(),
            k <= self.inputs(self.parent_node(parent)).len(),
            self.parent_grad(parent, acc) is Some,
            self.visit_inputs(parent, k, acc) is Ok,
        ensures
            self.visit_inputs(parent, k, acc).unwrap().len() == acc.len(),
            forall|x: int|
                0 <= x < acc.len() && acc[x] is Some ==> self.visit_inputs(
                    parent,
                    k,
                    acc,
                ).unwrap()[x] is Some,
            reaches_through_inputs(self.nodes, self.parent_node(parent), self.target as int, k)
                ==> self.visit_inputs(parent, k, acc).unwrap()[self.target as int] is Some,
        decreases self.parent_node(parent), 0int, k,
    {
        if k > 0 {
            let node = self.parent_node(parent);
            let child = self.inputs(node)[k - 1];
            assert(self.nodes[node].wf(node));
            assert(self.nodes[node].inputs()[k - 1] < node);
            self.lemma_visit_arrives(child, parent, acc);
            let next = self.visit(child, parent, acc).unwrap();
            self.lemma_visit_inputs_arrive(parent, (k - 1) as nat, next);
        }
    }
}

/// The gradient of a node by another node that it reaches is an array,
/// wherever the differentiation succeeds.
pub proof fn lemma_reachable_gradient<T: Numeric>(
    nodes: Seq<Node<T>>,
    feed: Option<FeedValue<T>>,
    root: usize,
    target: usize,
)
    requires
        root < nodes.len(),
        target < nodes.len(),
        forall|i: int| 0 <= i < nodes.len() ==> (#[trigger] nodes[i]).wf(i),
        reaches(nodes, root as int, target as int),
        grad_spec(nodes, feed, root, target) is Ok,
    ensures
        grad_spec(nodes, feed, root, target).unwrap() is Some,
{
    if root != target {
        let value = eval_spec(nodes, feed, root as int).unwrap();
        let walk = Walk {
            nodes,
            feed,
            root,
            target,
            seed: ArrayValue::full(T::one_spec(), value.shape),
        };
        walk.lemma_visit_inputs_arrive(
            None,
            nodes[root as int].inputs().len(),
            no_gradients(nodes.len()),
        );
    }
}

/// Where the differentiation of a node by another succeeds, the gradient
/// is nothing if and only if the node does not reach the other.
pub proof fn lemma_gradient_is_nothing_iff_unreachable<T: Numeric>(
    nodes: Seq<Node<T>>,
    feed: Option<FeedValue<T>>,
    root: usize,
    target: usize,
)
    requires
        root < nodes.len(),
        target < nodes.len(),
        forall|i: int| 0 <= i < nodes.len() ==> (#[trigger] nodes[i]).wf(i),
        grad_spec(nodes, feed, root, target) is Ok,
    ensures
        grad_spec(nodes, feed, root, target).unwrap() is None <==> !reaches(
            nodes,
            root as int,
            target as int,
        ),
{
    if reaches(nodes, root as int, target as int) {
        lemma_reachable_gradient(nodes, feed, root, target);
    } else {
        lemma_unreachable_gradient(nodes, feed, root, target);
    }
}

/// The sum of a gradient, if there is one, and the contributions `more`,
/// added one after the other in their order: the first contribution to no
/// gradient is the gradient, and each further one is added element by
/// element under broadcasting.
pub open spec fn sum_of<T: Numeric>(
    start: Option<ArrayValue<T>>,
    more: Seq<ArrayValue<T>>,
) -> Result<Option<ArrayValue<T>>, GraphError>
    decreases more.len(),
{
    if more.len() == 0 {
        Ok(start)
    } else {
        match sum_of(start, more.drop_last()) {
            Err(e) => Err(e),
            Ok(None) => Ok(Some(more.last())),
            Ok(Some(sum)) => match sum.checked_zip(more.last(), BinaryFn::Add) {
                Ok(total) => Ok(Some(total)),
                Err(e) => Err(GraphError::Shape(e)),
            },
        }
    }
}

/// Adding the contributions `a` and then the contributions `b` is adding
/// the contributions `a + b`.
pub proof fn lemma_sum_of_concat<T: Numeric>(
    start: Option<ArrayValue<T>>,
    a: Seq<ArrayValue<T>>,
    b: Seq<ArrayValue<T>>,
)
    ensures
        sum_of(start, a + b) == (match sum_of(start, a) {
            Err(e) => Err(e),
            Ok(sum) => sum_of(sum, b),
        }),
    decreases b.len(),
{
    if b.len() == 0 {
        assert(a + b =~= a);
    } else {
        assert((a + b).drop_last() =~= a + b.drop_last());
        lemma_sum_of_concat(start, a, b.drop_last());
    }
}

impl<T: Numeric> Walk<T> {
    /// The contributions that arrive at the target during the visit of
    /// `child` through `parent`, in the order of their arrival: what the
    /// parent hands to the child, if the child is the target; else what
    /// arrives during the visits of the inputs of the child.
    pub open spec fn arrivals(
        self,
        child: usize,
        parent: Option<usize>,
        acc: Gradients<T>,
    ) -> Seq<ArrayValue<T>>
        decreases child, 1int, 0nat,
    {
        if child == self.target {
            match self.parent_grad(parent, acc) {
                None => Seq::empty(),
                Some(grad) => match local_grad_spec(
                    self.nodes,
                    self.feed,
                    self.parent_node(parent),
                    child,
                    grad,
                ) {
                    Ok(Some(contribution)) => seq![contribution],
                    _ => Seq::empty(),
                },
            }
        } else {
            match self.accumulate(child, parent, acc) {
                Err(_) => Seq::empty(),
                Ok(next) => self.arrivals_of_inputs(
                    Some(child),
                    self.inputs(child as int).len(),
                    next,
                ),
            }
        }
    }

    /// The contributions that arrive at the target during the visits of
    /// the first `k` inputs of the node behind `parent`, in the order of
    /// their arrival.
    pub open spec fn arrivals_of_inputs(
        self,
        parent: Option<usize>,
        k: nat,
        acc: Gradients<T>,
    ) -> Seq<ArrayValue<T>>
        decreases self.parent_node(parent), 0int, k,
    {
        if k == 0 {
            Seq::empty()
        } else {
            let child = self.inputs(self.parent_node(parent))[k - 1];
            if child < self.parent_node(parent) {
                match self.visit(child, parent, acc) {
                    Err(_) => Seq::empty(),
                    Ok(next) => self.arrivals(child, parent, acc) + self.arrivals_of_inputs(
                        parent,
                        (k - 1) as nat,
                        next,
                    ),
                }
            } else {
                Seq::empty()
            }
        }
    }

    /// After a visit the gradient at the target is the sum of the one
    /// that was there and of every contribution that has arrived.
    pub proof fn lemma_visit_sums(self, child: usize, parent: Option<usize>, acc: Gradients<T>)
        requires
            acc.len() == self.nodes.len(),
            self.target < self.nodes.len(),
            child < self.nodes.len(),
            forall|i: int| 0 <= i < self.nodes.len() ==> (#[trigger] self.nodes[i]).wf(i),
            self.visit(child, parent, acc) is Ok,
        ensures
            self.visit(child, parent, acc).unwrap().len() == acc.len(),
            sum_of(acc[self.target as int], self.arrivals(child, parent, acc)) == Ok::<
                Option<ArrayValue<T>>,
                GraphError,
            >(self.visit(child, parent, acc).unwrap()[self.target as int]),
        decreases child, 1int, 0nat,
    {
        reveal_with_fuel(sum_of, 2);
        let next = self.accumulate(child, parent, acc).unwrap();
        if child == self.target {
            match self.parent_grad(parent, acc) {
                None => {},
                Some(grad) => {
                    match local_grad_spec(
                        self.nodes,
                        self.feed,
                        self.parent_node(parent),
                        child,
                        grad,
                    ) {
                        Ok(Some(contribution)) => {
                            assert(seq![contribution].drop_last() =~= Seq::<
                                ArrayValue<T>,
                            >::empty());
                        },
                        _ => {},
                    }
                },
            }
        } else {
            assert(next[self.target as int] == acc[self.target as int]);
            self.lemma_visit_inputs_sum(Some(child), self.inputs(child as int).len(), next);
        }
    }

    /// After the visits of inputs the gradient at the target is the sum of
    /// the one that was there and of every contribution that has
    /// arrived.
    pub proof fn lemma_visit_inputs_sum(self, parent: Option<usize>, k: nat, acc: Gradients<T>)
        requires
            acc.len() == self.nodes.len(),
            self.target < self.nodes.len(),
            0 <= self.parent_node(parent) < self.nodes.len(),
            k <= self.inputs(self.parent_node(parent)).len(),
            forall|i: int| 0 <= i < self.nodes.len() ==> (#[trigger] self.nodes[i]).wf(i),
            self.visit_inputs(parent, k, acc) is Ok,
        ensures
            self.visit_inputs(parent, k, acc).unwrap().len() == acc.len(),
            sum_of(acc[self.target as int], self.arrivals_of_inputs(parent, k, acc)) == Ok::<
                Option<ArrayValue<T>>,
                GraphError,
            >(self.visit_inputs(parent, k, acc).unwrap()[self.target as int]),
        decreases self.parent_node(parent), 0int, k,
    {
        if k > 0 {
            let node = self.parent_node(parent);
            let child = self.inputs(node)[k - 1];
            assert(self.nodes[node].wf(node));
            assert(self.nodes[node].inputs()[k - 1] < node);
            self.lemma_visit_sums(child, parent, acc);
            let next = self.visit(child, parent, acc).unwrap();
            self.lemma_visit_inputs_sum(parent, (k - 1) as nat, next);
            lemma_sum_of_concat(
                acc[self.target as int],
                self.arrivals(child, parent, acc),
                self.arrivals_of_inputs(parent, (k - 1) as nat, next),
            );
        }
    }
}

/// Fan-in: the gradient of a node by another is the sum of all the
/// contributions that arrive at the other on the walk, each of them what a
/// parent hands to it, added in the order of their arrival. None replaces
/// an earlier one.
pub proof fn lemma_gradient_is_sum_of_arrivals<T: Numeric>(
    nodes: Seq<Node<T>>,
    feed: Option<FeedValue<T>>,
    root: usize,
    target: usize,
)
    requires
        root < nodes.len(),
        target < nodes.len(),
        root != target,
        forall|i: int| 0 <= i < nodes.len() ==> (#[trigger] nodes[i]).wf(i),
        grad_spec(nodes, feed, root, target) is Ok,
    ensures
        grad_spec(nodes, feed, root, target) == sum_of(
            None,
            (Walk {
                nodes,
                feed,
                root,
                target,
                seed: ArrayValue::full(
                    T::one_spec(),
                    eval_spec(nodes, feed, root as int).unwrap().shape,
                ),
            }).arrivals_of_inputs(
                None,
                nodes[root as int].inputs().len(),
                no_gradients(nodes.len()),
            ),
        ),
{
    let value = eval_spec(nodes, feed, root as int).unwrap();
    let walk = Walk {
        nodes,
        feed,
        root,
        target,
        seed: ArrayValue::full(T::one_spec(), value.shape),
    };
    walk.lemma_visit_inputs_sum(
        None,
        nodes[root as int].inputs().len(),
        no_gradients(nodes.len()),
    );
}

} // verus!
