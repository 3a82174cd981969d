//! The computation graph: nodes that stand for arrays, their evaluation,
//! and reverse-mode differentiation.

pub mod arithmetic;
pub mod laws;
pub mod math;
pub mod reduce;
pub mod walk;

use crate::graph::arithmetic::{
    AddOp, AddScalarOp, DivOp, DivScalarOp, MatMulOp, MulOp, MulScalarOp, NegOp, SubOp,
    SubScalarOp,
};
use crate::graph::math::{MapOp, ParamMapOp};
use crate::graph::reduce::{ReduceMeanOp, ReduceSumOp};
use crate::graph::walk::{grad_spec, no_gradients, Visit, Walk};
use crate::linalg::array::{answers, answers_optional, copy_of, Array, ArrayValue};
use crate::linalg::error::ShapeError;
use crate::linalg::numeric::{BinaryFn, Numeric};
use crate::linalg::shape::{broadcast_compatible, broadcast_shape, shape_positive, shape_product};
use crate::linalg::utils::{
    check_matmul_spec, check_shape_positive, element_count, get_shape_after_broadcast,
    get_shape_after_broadcast_matmul, get_shape_after_reduce, matmul_shape, reduce_axis_valid,
    reduce_shape, same_shape,
};
use vstd::prelude::*;

verus! {

/// Why an evaluation, a differentiation or an assignment failed.
#[derive(Clone, Copy, Debug, PartialEq, Eq, Structural)]
pub enum GraphError {
    /// An array operation rejected its operands.
    Shape(ShapeError),
    /// A placeholder has no value: its name is not in the feed, or there
    /// is no feed.
    MissingPlaceholder,
    /// The value fed for a placeholder has another shape than the
    /// placeholder.
    PlaceholderShape,
    /// A value was assigned to a node that is not a variable.
    InvalidMutation,
    /// A place was named at which the graph has no node.
    UnknownNode,
}

/// The values fed to an evaluation: for each name the value of the
/// placeholders of that name, in the order of insertion.
pub struct Feed<T: Numeric> {
    ids: Vec<String>,
    values: Vec<Array<T>>,
}

/// The mathematical value of a feed: its entries in the order of
/// insertion, each a name and the value of an array.
pub type FeedValue<T> = Seq<(Seq<char>, ArrayValue<T>)>;

/// The value that a feed holds for a name: that of the last entry of that
/// name.
pub open spec fn feed_lookup<T>(entries: FeedValue<T>, id: Seq<char>) -> Option<ArrayValue<T>>
    decreases entries.len(),
{
    if entries.len() == 0 {
        None
    } else if entries.last().0 == id {
        Some(entries.last().1)
    } else {
        feed_lookup(entries.drop_last(), id)
    }
}

impl<T: Numeric> View for Feed<T> {
    type V = FeedValue<T>;

    closed spec fn view(&self) -> FeedValue<T> {
        Seq::new(self.ids@.len(), |i: int| (self.ids@[i]@, self.values@[i]@))
    }
}

impl<T: Numeric> Feed<T> {
    /// The invariant of a feed: every value is a well-formed array.
    pub closed spec fn wf(&self) -> bool {
        &&& self.ids@.len() == self.values@.len()
        &&& forall|i: int| 0 <= i < self.values@.len() ==> self.values@[i].wf()
    }

    /// Creates an empty feed.
    pub fn new() -> (r: Feed<T>)
        ensures
            r.wf(),
            r@ == Seq::<(Seq<char>, ArrayValue<T>)>::empty(),
    {
        let r = Feed { ids: Vec::new(), values: Vec::new() };
        r
    }

    /// Sets the value for a name. An earlier value for that name is no
    /// longer found.
    pub fn insert(&mut self, id: String, value: Array<T>)
        requires
            old(self).wf(),
            value.wf(),
        ensures
            final(self).wf(),
            final(self)@ == old(self)@.push((id@, value@)),
    {
        self.ids.push(id);
        self.values.push(value);
    }

    /// The value for a name, if there is one.
    pub fn get(&self, id: &String) -> (r: Option<&Array<T>>)
        requires
            self.wf(),
        ensures
            match r {
                Some(a) => a.wf() && feed_lookup(self@, id@) == Some(a@),
                None => feed_lookup(self@, id@) is None,
            },
    {
        let mut i: usize = self.ids.len();
        proof {
            assert(self@.take(i as int) =~= self@);
        }
        while i > 0
            invariant
                i <= self.ids@.len(),
                self.wf(),
                feed_lookup(self@, id@) == feed_lookup(self@.take(i as int), id@),
            decreases i,
        {
            i -= 1;
            proof {
                assert(self@.take(i + 1).drop_last() =~= self@.take(i as int));
            }
            if self.ids[i] == *id {
                return Some(&self.values[i]);
            }
        }
        None
    }
}

/// The value of the feed that an evaluation was given, where it was given
/// one.
pub open spec fn feed_value<T: Numeric>(feed: Option<&Feed<T>>) -> Option<FeedValue<T>> {
    match feed {
        Some(f) => Some(f@),
        None => None,
    }
}

/// The feed that an evaluation was given, where it was given one, is well
/// formed.
pub open spec fn feed_wf<T: Numeric>(feed: Option<&Feed<T>>) -> bool {
    match feed {
        Some(f) => f.wf(),
        None => true,
    }
}

/// Checks that the shape of a node has at least one dimension.
pub fn check_tensor_shape_non_empty(shape: &[usize]) -> (r: Result<(), ShapeError>)
    ensures
        r is Ok <==> shape@.len() > 0,
        r is Err ==> r == Err::<(), ShapeError>(ShapeError::EmptyShape),
{
    if shape.len() == 0 {
        Err(ShapeError::EmptyShape)
    } else {
        Ok(())
    }
}

/// A node whose value is supplied with each evaluation.
pub struct Placeholder {
    pub id: String,
    pub shape: Vec<usize>,
}

impl Placeholder {
    /// The invariant of a placeholder: its shape has a dimension.
    pub open spec fn wf(&self) -> bool {
        self.shape@.len() > 0
    }

    /// Makes a placeholder of the name `id` and the shape `shape`, which
    /// must have a dimension.
    pub fn new(id: String, shape: Vec<usize>) -> (r: Result<Placeholder, ShapeError>)
        ensures
            match r {
                Ok(p) => p.wf() && p.id@ == id@ && p.shape@ == shape@,
                Err(e) => e == ShapeError::EmptyShape && shape@.len() == 0,
            },
    {
        match check_tensor_shape_non_empty(shape.as_slice()) {
            Ok(_) => Ok(Placeholder { id, shape }),
            Err(e) => Err(e),
        }
    }

    /// The value of the placeholder under a feed: the value that the feed
    /// holds for its name, which must have its shape.
    pub open spec fn value_spec<T: Numeric>(&self, feed: Option<FeedValue<T>>) -> Result<
        ArrayValue<T>,
        GraphError,
    > {
        match feed {
            None => Err(GraphError::MissingPlaceholder),
            Some(entries) => match feed_lookup(entries, self.id@) {
                None => Err(GraphError::MissingPlaceholder),
                Some(value) => if value.shape == self.shape@ {
                    Ok(value)
                } else {
                    Err(GraphError::PlaceholderShape)
                },
            },
        }
    }

    /// Looks the value of the placeholder up in the feed.
    pub fn compute<T: Numeric>(&self, feed: Option<&Feed<T>>) -> (r: Result<Array<T>, GraphError>)
        requires
            feed_wf(feed),
        ensures
            evaluates(r, self.value_spec(feed_value(feed))),
    {
        match feed {
            None => Err(GraphError::MissingPlaceholder),
            Some(feed_dict) => match feed_dict.get(&self.id) {
                None => Err(GraphError::MissingPlaceholder),
                Some(value) => {
                    if !same_shape(value.shape_ref().as_slice(), self.shape.as_slice()) {
                        return Err(GraphError::PlaceholderShape);
                    }
                    Ok(value.clone())
                },
            },
        }
    }

    /// The name of the kind of the node.
    pub fn get_name(&self) -> (r: &'static str)
        ensures
            r@ == "PlaceholderOp"@,
    {
        "PlaceholderOp"
    }

    /// The shape of the node.
    pub fn shape(&self) -> (r: Vec<usize>)
        ensures
            r@ == self.shape@,
    {
        copy_of(&self.shape)
    }
}

/// A node that holds its value, which stays from one evaluation to the
/// next until it is assigned anew.
pub struct Variable<T: Numeric> {
    data: Array<T>,
    shape: Vec<usize>,
}

impl<T: Numeric> Variable<T> {
    /// The value that the variable holds.
    pub closed spec fn value(&self) -> ArrayValue<T> {
        self.data@
    }

    /// The shape that the variable was made with.
    pub closed spec fn shape_spec(&self) -> Seq<usize> {
        self.shape@
    }

    /// The invariant of a variable: its value is a well-formed array of
    /// its shape, which has a dimension.
    pub open spec fn wf(&self) -> bool {
        &&& self.value().wf()
        &&& self.value().shape == self.shape_spec()
        &&& self.shape_spec().len() > 0
    }

    /// Makes a variable that holds `init_value`, whose shape must have a
    /// dimension.
    pub fn new(init_value: Array<T>) -> (r: Result<Variable<T>, ShapeError>)
        requires
            init_value.wf(),
        ensures
            match r {
                Ok(v) => v.wf() && v.value() == init_value@,
                Err(e) => e == ShapeError::EmptyShape && init_value@.shape.len() == 0,
            },
    {
        let shape = init_value.get_shape();
        match check_tensor_shape_non_empty(shape.as_slice()) {
            Ok(_) => Ok(Variable { data: init_value, shape }),
            Err(e) => Err(e),
        }
    }

    /// A copy of the value that the variable holds.
    pub fn compute(&self) -> (r: Array<T>)
        requires
            self.wf(),
        ensures
            r.wf(),
            r@ == self.value(),
    {
        self.data.clone()
    }

    /// The name of the kind of the node.
    pub fn get_name(&self) -> (r: &'static str)
        ensures
            r@ == "VariableOp"@,
    {
        "VariableOp"
    }

    /// The shape of the node.
    pub fn shape(&self) -> (r: Vec<usize>)
        ensures
            r@ == self.shape_spec(),
    {
        copy_of(&self.shape)
    }

    /// Replaces the value of the variable by `new_value`, which must have
    /// its shape.
    pub fn assign(&mut self, new_value: &Array<T>) -> (r: Result<(), ShapeError>)
        requires
            old(self).wf(),
            new_value.wf(),
        ensures
            final(self).wf(),
            final(self).shape_spec() == old(self).shape_spec(),
            match r {
                Ok(_) => new_value@.shape == old(self).shape_spec() && final(self).value()
                    == new_value@,
                Err(e) => e == ShapeError::ShapeChanged && new_value@.shape != old(
                    self,
                ).shape_spec() && *final(self) == *old(self),
            },
    {
        if !same_shape(new_value.shape_ref().as_slice(), self.shape.as_slice()) {
            return Err(ShapeError::ShapeChanged);
        }
        self.data = new_value.clone();
        Ok(())
    }

    /// Adds `value` to the value of the variable, element by element under
    /// broadcasting. The sum must have the shape of the variable.
    pub fn assign_add(&mut self, value: &Array<T>) -> (r: Result<(), ShapeError>)
        requires
            old(self).wf(),
            value.wf(),
        ensures
            final(self).wf(),
            final(self).shape_spec() == old(self).shape_spec(),
            r == assign_add_spec(old(self).value(), value@),
            match r {
                Ok(_) => final(self).value() == old(self).value().zip(
                    value@,
                    BinaryFn::Add,
                ),
                Err(_) => *final(self) == *old(self),
            },
    {
        match self.data.add(value) {
            Ok(sum) => {
                if !same_shape(sum.shape_ref().as_slice(), self.shape.as_slice()) {
                    return Err(ShapeError::ShapeChanged);
                }
                self.data = sum;
                Ok(())
            },
            Err(e) => Err(e),
        }
    }
}

/// What adding `delta` to a variable of value `value` answers: the reason
/// why the sum is not defined, or that it has another shape than the
/// variable.
pub open spec fn assign_add_spec<T: Numeric>(value: ArrayValue<T>, delta: ArrayValue<T>) -> Result<
    (),
    ShapeError,
> {
    match value.checked_zip(delta, BinaryFn::Add) {
        Err(e) => Err(e),
        Ok(sum) => if sum.shape == value.shape {
            Ok(())
        } else {
            Err(ShapeError::ShapeChanged)
        },
    }
}

/// What an evaluation says of its result: an array answered is well
/// formed and has the value `expected` names; a reason answered is the one
/// `expected` names.
pub open spec fn evaluates<T: Numeric>(
    r: Result<Array<T>, GraphError>,
    expected: Result<ArrayValue<T>, GraphError>,
) -> bool {
    match r {
        Ok(a) => a.wf() && expected == Ok::<ArrayValue<T>, GraphError>(a@),
        Err(e) => expected == Err::<ArrayValue<T>, GraphError>(e),
    }
}

/// What a differentiation says of its result, in the manner of
/// `evaluates`.
pub open spec fn differentiates<T: Numeric>(
    r: Result<Option<Array<T>>, GraphError>,
    expected: Result<Option<ArrayValue<T>>, GraphError>,
) -> bool {
    match r {
        Ok(Some(a)) => a.wf() && expected == Ok::<Option<ArrayValue<T>>, GraphError>(Some(a@)),
        Ok(None) => expected == Ok::<Option<ArrayValue<T>>, GraphError>(None),
        Err(e) => expected == Err::<Option<ArrayValue<T>>, GraphError>(e),
    }
}

/// The result of an array operation as the result of an evaluation.
pub open spec fn lift<T>(
    r: Result<ArrayValue<T>, ShapeError>,
) -> Result<ArrayValue<T>, GraphError> {
    match r {
        Ok(a) => Ok(a),
        Err(e) => Err(GraphError::Shape(e)),
    }
}

/// The gradient that an operator hands on as the result of a
/// differentiation step.
pub open spec fn lift_optional<T>(r: Result<Option<ArrayValue<T>>, ShapeError>) -> Result<
    Option<ArrayValue<T>>,
    GraphError,
> {
    match r {
        Ok(a) => Ok(a),
        Err(e) => Err(GraphError::Shape(e)),
    }
}

/// Hands on the result of an array operation as that of an evaluation.
pub fn raise<T: Numeric>(r: Result<Array<T>, ShapeError>) -> (out: Result<Array<T>, GraphError>)
    ensures
        forall|expected: Result<ArrayValue<T>, ShapeError>|
            answers(r, expected) ==> evaluates(out, lift(expected)),
{
    match r {
        Ok(a) => Ok(a),
        Err(e) => Err(GraphError::Shape(e)),
    }
}

/// Hands on the gradient of an operator as the result of a
/// differentiation step.
pub fn raise_optional<T: Numeric>(r: Result<Option<Array<T>>, ShapeError>) -> (out: Result<
    Option<Array<T>>,
    GraphError,
>)
    ensures
        forall|expected: Result<Option<ArrayValue<T>>, ShapeError>|
            answers_optional(r, expected) ==> differentiates(
                out,
                lift_optional(expected),
            ),
{
    match r {
        Ok(a) => Ok(a),
        Err(e) => Err(GraphError::Shape(e)),
    }
}

/// A stand-in for the node that a differentiation starts from. It is the
/// parent through which the inputs of that node are first visited, and it
/// holds the gradient that the differentiation is seeded with. It is no
/// node of a graph.
pub struct WrapperOp {
    pub input: usize,
    pub shape: Vec<usize>,
}

impl WrapperOp {
    /// Makes the stand-in of the node at place `input`, whose value has
    /// the shape `shape`.
    pub fn new(input: usize, shape: Vec<usize>) -> (r: WrapperOp)
        ensures
            r.input == input,
            r.shape@ == shape@,
    {
        WrapperOp { input, shape }
    }

    /// The name of the kind of the node.
    pub fn get_name(&self) -> (r: &'static str)
        ensures
            r@ == "WrapperOp"@,
    {
        "WrapperOp"
    }

    /// The shape of the node.
    pub fn shape(&self) -> (r: Vec<usize>)
        ensures
            r@ == self.shape@,
    {
        copy_of(&self.shape)
    }
}

/// A node of the graph: a source, or an operator with the places of its
/// inputs in the graph.
pub enum Node<T: Numeric> {
    Variable(Variable<T>),
    Placeholder(Placeholder),
    Add(AddOp),
    Sub(SubOp),
    Mul(MulOp),
    Div(DivOp),
    MatMul(MatMulOp),
    AddScalar(AddScalarOp<T>),
    SubScalar(SubScalarOp<T>),
    MulScalar(MulScalarOp<T>),
    DivScalar(DivScalarOp<T>),
    Neg(NegOp),
    Unary(MapOp),
    Parametric(ParamMapOp<T>),
    ReduceSum(ReduceSumOp),
    ReduceMean(ReduceMeanOp),
}

impl<T: Numeric> Node<T> {
    /// The places of the inputs of the node, in their order.
    pub open spec fn inputs(&self) -> Seq<usize> {
        match self {
            Node::Variable(_) => Seq::empty(),
            Node::Placeholder(_) => Seq::empty(),
            Node::Add(op) => seq![op.input_1, op.input_2],
            Node::Sub(op) => seq![op.input_1, op.input_2],
            Node::Mul(op) => seq![op.input_1, op.input_2],
            Node::Div(op) => seq![op.input_1, op.input_2],
            Node::MatMul(op) => seq![op.input_1, op.input_2],
            Node::AddScalar(op) => seq![op.input],
            Node::SubScalar(op) => seq![op.input],
            Node::MulScalar(op) => seq![op.input],
            Node::DivScalar(op) => seq![op.input],
            Node::Neg(op) => seq![op.input],
            Node::Unary(op) => seq![op.input],
            Node::Parametric(op) => seq![op.input],
            Node::ReduceSum(op) => seq![op.input],
            Node::ReduceMean(op) => seq![op.input],
        }
    }

    /// The invariant of the node at place `id` of a graph: its inputs
    /// stand before it, and a source is well formed.
    pub open spec fn wf(&self, id: int) -> bool {
        &&& forall|k: int| 0 <= k < self.inputs().len() ==> (#[trigger] self.inputs()[k]) < id
        &&& self.source_wf()
    }

    /// A source is well formed.
    pub open spec fn source_wf(&self) -> bool {
        match self {
            Node::Variable(v) => v.wf(),
            Node::Placeholder(p) => p.wf(),
            _ => true,
        }
    }

    /// The value of the node, given the feed and the values of its
    /// inputs.
    #[verifier::opaque]
    pub open spec fn value_spec(
        &self,
        feed: Option<FeedValue<T>>,
        inputs: Seq<ArrayValue<T>>,
    ) -> Result<ArrayValue<T>, GraphError> {
        match self {
            Node::Variable(v) => Ok(v.value()),
            Node::Placeholder(p) => p.value_spec(feed),
            Node::Add(_) => lift(AddOp::value_spec(inputs[0], inputs[1])),
            Node::Sub(_) => lift(SubOp::value_spec(inputs[0], inputs[1])),
            Node::Mul(_) => lift(MulOp::value_spec(inputs[0], inputs[1])),
            Node::Div(_) => lift(DivOp::value_spec(inputs[0], inputs[1])),
            Node::MatMul(_) => lift(MatMulOp::value_spec(inputs[0], inputs[1])),
            Node::AddScalar(op) => Ok(op.value_spec(inputs[0])),
            Node::SubScalar(op) => Ok(op.value_spec(inputs[0])),
            Node::MulScalar(op) => Ok(op.value_spec(inputs[0])),
            Node::DivScalar(op) => Ok(op.value_spec(inputs[0])),
            Node::Neg(_) => Ok(NegOp::value_spec(inputs[0])),
            Node::Unary(op) => Ok(op.value_spec(inputs[0])),
            Node::Parametric(op) => Ok(op.value_spec(inputs[0])),
            Node::ReduceSum(op) => lift(op.value_spec(inputs[0])),
            Node::ReduceMean(op) => lift(op.value_spec(inputs[0])),
        }
    }

    /// The gradient that the node hands to `dependent`, given the values
    /// of its inputs and the gradient `grad` that has arrived at the
    /// node. A source hands on nothing.
    #[verifier::opaque]
    pub open spec fn grad_spec(
        &self,
        dependent: usize,
        inputs: Seq<ArrayValue<T>>,
        grad: ArrayValue<T>,
    ) -> Result<Option<ArrayValue<T>>, GraphError> {
        match self {
            Node::Variable(_) => Ok(None),
            Node::Placeholder(_) => Ok(None),
            Node::Add(op) => lift_optional(op.grad_spec(dependent, inputs[0], inputs[1], grad)),
            Node::Sub(op) => lift_optional(op.grad_spec(dependent, inputs[0], inputs[1], grad)),
            Node::Mul(op) => lift_optional(op.grad_spec(dependent, inputs[0], inputs[1], grad)),
            Node::Div(op) => lift_optional(op.grad_spec(dependent, inputs[0], inputs[1], grad)),
            Node::MatMul(op) => lift_optional(op.grad_spec(dependent, inputs[0], inputs[1], grad)),
            Node::AddScalar(op) => lift_optional(op.grad_spec(dependent, inputs[0], grad)),
            Node::SubScalar(op) => lift_optional(op.grad_spec(dependent, inputs[0], grad)),
            Node::MulScalar(op) => lift_optional(op.grad_spec(dependent, inputs[0], grad)),
            Node::DivScalar(op) => lift_optional(op.grad_spec(dependent, inputs[0], grad)),
            Node::Neg(op) => lift_optional(op.grad_spec(dependent, inputs[0], grad)),
            Node::Unary(op) => lift_optional(op.grad_spec(dependent, inputs[0], grad)),
            Node::Parametric(op) => lift_optional(op.grad_spec(dependent, inputs[0], grad)),
            Node::ReduceSum(op) => lift_optional(op.grad_spec(dependent, inputs[0], grad)),
            Node::ReduceMean(op) => lift_optional(op.grad_spec(dependent, inputs[0], grad)),
        }
    }

    /// The shape that the rule of the node gives for the shapes `a` and `b`
    /// of the values of its first and second input, as far as it has
    /// them.
    pub open spec fn shape_rule(
        &self,
        a: Seq<usize>,
        b: Seq<usize>,
    ) -> Result<Seq<usize>, ShapeError> {
        match self {
            Node::Variable(v) => Ok(v.shape_spec()),
            Node::Placeholder(p) => Ok(p.shape@),
            Node::Add(_) | Node::Sub(_) | Node::Mul(_) | Node::Div(_) => if broadcast_compatible(
                a,
                b,
            ) {
                Ok(broadcast_shape(a, b))
            } else {
                Err(ShapeError::Broadcast)
            },
            Node::MatMul(_) => match check_matmul_spec(a, b) {
                Ok(_) => Ok(matmul_shape(a, b)),
                Err(e) => Err(e),
            },
            Node::ReduceSum(op) => if reduce_axis_valid(a, op.axis) {
                Ok(reduce_shape(a, op.axis, op.keep_dims))
            } else {
                Err(ShapeError::Axis)
            },
            Node::ReduceMean(op) => if reduce_axis_valid(a, op.axis) {
                Ok(reduce_shape(a, op.axis, op.keep_dims))
            } else {
                Err(ShapeError::Axis)
            },
            _ => Ok(a),
        }
    }

    /// The shape of the value of the node, given the shapes `a` and `b` of
    /// the values of its first and second input, as far as it has them:
    /// the shape that the rule of the node gives, which must be one that
    /// an array can have.
    pub open spec fn shape_of(
        &self,
        a: Seq<usize>,
        b: Seq<usize>,
    ) -> Result<Seq<usize>, ShapeError> {
        match self.shape_rule(a, b) {
            Ok(shape) => holdable(shape),
            Err(e) => Err(e),
        }
    }

    /// Computes the shape of the value of the node from the shapes of the
    /// values of its inputs.
    pub fn shape(&self, a: &[usize], b: &[usize]) -> (r: Result<Vec<usize>, ShapeError>)
        ensures
            match r {
                Ok(shape) => self.shape_of(a@, b@) == Ok::<Seq<usize>, ShapeError>(shape@),
                Err(e) => self.shape_of(a@, b@) == Err::<Seq<usize>, ShapeError>(e),
            },
    {
        let found = match self {
            Node::Variable(v) => Ok(v.shape()),
            Node::Placeholder(p) => Ok(p.shape()),
            Node::Add(_) | Node::Sub(_) | Node::Mul(_) | Node::Div(_) => get_shape_after_broadcast(
                a,
                b,
            ),
            Node::MatMul(_) => get_shape_after_broadcast_matmul(a, b),
            Node::ReduceSum(op) => get_shape_after_reduce(a, op.axis, op.keep_dims),
            Node::ReduceMean(op) => get_shape_after_reduce(a, op.axis, op.keep_dims),
            _ => Ok(vstd::slice::slice_to_vec(a)),
        };
        let shape = match found {
            Ok(shape) => shape,
            Err(e) => {
                return Err(e);
            },
        };
        match check_shape_positive(shape.as_slice()) {
            Ok(_) => {},
            Err(e) => {
                return Err(e);
            },
        }
        match element_count(shape.as_slice()) {
            Ok(_) => Ok(shape),
            Err(e) => Err(e),
        }
    }

    /// Computes the value of the node from the feed and the values of its
    /// inputs.
    pub fn compute(&self, feed: Option<&Feed<T>>, inputs: &Vec<Array<T>>) -> (r: Result<
        Array<T>,
        GraphError,
    >)
        requires
            self.source_wf(),
            feed_wf(feed),
            inputs@.len() == self.inputs().len(),
            arrays_wf(inputs@),
        ensures
            evaluates(r, self.value_spec(feed_value(feed), array_values(inputs@))),
    {
        reveal(Node::value_spec);
        match self {
            Node::Variable(v) => Ok(v.compute()),
            Node::Placeholder(p) => p.compute(feed),
            Node::Add(op) => raise(op.compute(&inputs[0], &inputs[1])),
            Node::Sub(op) => raise(op.compute(&inputs[0], &inputs[1])),
            Node::Mul(op) => raise(op.compute(&inputs[0], &inputs[1])),
            Node::Div(op) => raise(op.compute(&inputs[0], &inputs[1])),
            Node::MatMul(op) => raise(op.compute(&inputs[0], &inputs[1])),
            Node::AddScalar(op) => Ok(op.compute(&inputs[0])),
            Node::SubScalar(op) => Ok(op.compute(&inputs[0])),
            Node::MulScalar(op) => Ok(op.compute(&inputs[0])),
            Node::DivScalar(op) => Ok(op.compute(&inputs[0])),
            Node::Neg(op) => Ok(op.compute(&inputs[0])),
            Node::Unary(op) => Ok(op.compute(&inputs[0])),
            Node::Parametric(op) => Ok(op.compute(&inputs[0])),
            Node::ReduceSum(op) => raise(op.compute(&inputs[0])),
            Node::ReduceMean(op) => raise(op.compute(&inputs[0])),
        }
    }

    /// Computes the gradient that the node hands to `dependent`, from the
    /// values of its inputs and the gradient `grad` that has arrived at
    /// the node.
    pub fn compute_accum_grad(
        &self,
        dependent: usize,
        inputs: &Vec<Array<T>>,
        grad: &Array<T>,
    ) -> (r:
        Result<Option<Array<T>>, GraphError>)
        requires
            inputs@.len() == self.inputs().len(),
            arrays_wf(inputs@),
            grad.wf(),
        ensures
            differentiates(r, self.grad_spec(dependent, array_values(inputs@), grad@)),
    {
        reveal(Node::grad_spec);
        match self {
            Node::Variable(_) => Ok(None),
            Node::Placeholder(_) => Ok(None),
            Node::Add(op) => raise_optional(
                op.compute_accum_grad(dependent, &inputs[0], &inputs[1], grad),
            ),
            Node::Sub(op) => raise_optional(
                op.compute_accum_grad(dependent, &inputs[0], &inputs[1], grad),
            ),
            Node::Mul(op) => raise_optional(
                op.compute_accum_grad(dependent, &inputs[0], &inputs[1], grad),
            ),
            Node::Div(op) => raise_optional(
                op.compute_accum_grad(dependent, &inputs[0], &inputs[1], grad),
            ),
            Node::MatMul(op) => raise_optional(
                op.compute_accum_grad(dependent, &inputs[0], &inputs[1], grad),
            ),
            Node::AddScalar(op) => raise_optional(
                op.compute_accum_grad(dependent, &inputs[0], grad),
            ),
            Node::SubScalar(op) => raise_optional(
                op.compute_accum_grad(dependent, &inputs[0], grad),
            ),
            Node::MulScalar(op) => raise_optional(
                op.compute_accum_grad(dependent, &inputs[0], grad),
            ),
            Node::DivScalar(op) => raise_optional(
                op.compute_accum_grad(dependent, &inputs[0], grad),
            ),
            Node::Neg(op) => raise_optional(op.compute_accum_grad(dependent, &inputs[0], grad)),
            Node::Unary(op) => raise_optional(op.compute_accum_grad(dependent, &inputs[0], grad)),
            Node::Parametric(op) => raise_optional(
                op.compute_accum_grad(dependent, &inputs[0], grad),
            ),
            Node::ReduceSum(op) => raise_optional(
                op.compute_accum_grad(dependent, &inputs[0], grad),
            ),
            Node::ReduceMean(op) => raise_optional(
                op.compute_accum_grad(dependent, &inputs[0], grad),
            ),
        }
    }

    /// The places of the inputs of the node, in their order.
    pub fn get_inputs(&self) -> (r: Vec<usize>)
        ensures
            r@ == self.inputs(),
    {
        match self {
            Node::Variable(_) => Vec::new(),
            Node::Placeholder(_) => Vec::new(),
            Node::Add(op) => op.get_inputs(),
            Node::Sub(op) => op.get_inputs(),
            Node::Mul(op) => op.get_inputs(),
            Node::Div(op) => op.get_inputs(),
            Node::MatMul(op) => op.get_inputs(),
            Node::AddScalar(op) => op.get_inputs(),
            Node::SubScalar(op) => op.get_inputs(),
            Node::MulScalar(op) => op.get_inputs(),
            Node::DivScalar(op) => op.get_inputs(),
            Node::Neg(op) => op.get_inputs(),
            Node::Unary(op) => op.get_inputs(),
            Node::Parametric(op) => op.get_inputs(),
            Node::ReduceSum(op) => op.get_inputs(),
            Node::ReduceMean(op) => op.get_inputs(),
        }
    }

    /// The name of the kind of the node.
    pub open spec fn name_spec(&self) -> Seq<char> {
        match self {
            Node::Variable(_) => "VariableOp"@,
            Node::Placeholder(_) => "PlaceholderOp"@,
            Node::Add(_) => "AddOp"@,
            Node::Sub(_) => "SubOp"@,
            Node::Mul(_) => "MulOp"@,
            Node::Div(_) => "DivOp"@,
            Node::MatMul(_) => "MatMulOp"@,
            Node::AddScalar(_) => "AddScalarOp"@,
            Node::SubScalar(_) => "SubScalarOp"@,
            Node::MulScalar(_) => "MulScalarOp"@,
            Node::DivScalar(_) => "DivScalarOp"@,
            Node::Neg(_) => "NegOp"@,
            Node::Unary(op) => MapOp::name_spec(op.kind),
            Node::Parametric(op) => ParamMapOp::<T>::name_spec(op.kind),
            Node::ReduceSum(_) => "ReduceSumOp"@,
            Node::ReduceMean(_) => "ReduceMeanOp"@,
        }
    }

    /// The name of the kind of the node.
    pub fn get_name(&self) -> (r: &'static str)
        ensures
            r@ == self.name_spec(),
    {
        match self {
            Node::Variable(v) => v.get_name(),
            Node::Placeholder(p) => p.get_name(),
            Node::Add(op) => op.get_name(),
            Node::Sub(op) => op.get_name(),
            Node::Mul(op) => op.get_name(),
            Node::Div(op) => op.get_name(),
            Node::MatMul(op) => op.get_name(),
            Node::AddScalar(op) => op.get_name(),
            Node::SubScalar(op) => op.get_name(),
            Node::MulScalar(op) => op.get_name(),
            Node::DivScalar(op) => op.get_name(),
            Node::Neg(op) => op.get_name(),
            Node::Unary(op) => op.get_name(),
            Node::Parametric(op) => op.get_name(),
            Node::ReduceSum(op) => op.get_name(),
            Node::ReduceMean(op) => op.get_name(),
        }
    }
}

/// The values of the first `k` inputs of the node at place `id` under
/// `feed`, in their order, or the reason why the first of them that fails
/// has no value.
pub open spec fn input_values_spec<T: Numeric>(
    nodes: Seq<Node<T>>,
    feed: Option<FeedValue<T>>,
    id: int,
    k: nat,
) -> Result<Seq<ArrayValue<T>>, GraphError>
    decreases id, 0int, k,
{
    if k == 0 {
        Ok(Seq::empty())
    } else {
        match input_values_spec(nodes, feed, id, (k - 1) as nat) {
            Err(e) => Err(e),
            Ok(values) => {
                let input = nodes[id].inputs()[k - 1];
                if 0 <= input < id {
                    match eval_spec(nodes, feed, input as int) {
                        Err(e) => Err(e),
                        Ok(value) => Ok(values.push(value)),
                    }
                } else {
                    Err(GraphError::Shape(ShapeError::Index))
                }
            },
        }
    }
}

/// The value of the node at place `id` of `nodes` under `feed`: the value
/// that the node gives for the values of its inputs.
pub open spec fn eval_spec<T: Numeric>(
    nodes: Seq<Node<T>>,
    feed: Option<FeedValue<T>>,
    id: int,
) -> Result<ArrayValue<T>, GraphError>
    decreases id, 1int, 0nat,
{
    match input_values_spec(nodes, feed, id, nodes[id].inputs().len()) {
        Err(e) => Err(e),
        Ok(values) => nodes[id].value_spec(feed, values),
    }
}

/// The gradient that the node at place `parent` hands to `dependent`
/// under `feed`, given the gradient `grad` that has arrived at it: what
/// the node gives for the values of its inputs.
pub open spec fn local_grad_spec<T: Numeric>(
    nodes: Seq<Node<T>>,
    feed: Option<FeedValue<T>>,
    parent: int,
    dependent: usize,
    grad: ArrayValue<T>,
) -> Result<Option<ArrayValue<T>>, GraphError> {
    match input_values_spec(nodes, feed, parent, nodes[parent].inputs().len()) {
        Err(e) => Err(e),
        Ok(values) => nodes[parent].grad_spec(dependent, values, grad),
    }
}

/// A shape that an array can have: its dimensions are positive and its
/// elements can be counted in `usize`. Else the reason why it cannot.
pub open spec fn holdable(shape: Seq<usize>) -> Result<Seq<usize>, ShapeError> {
    if !shape_positive(shape) {
        Err(ShapeError::ZeroDimension)
    } else if shape_product(shape) > usize::MAX {
        Err(ShapeError::TooLarge)
    } else {
        Ok(shape)
    }
}

/// The shape of the value of the node at place `id`, as it follows from
/// the shapes of the sources without an evaluation: the shape that the
/// node gives for the shapes of its inputs. The inputs are taken in their
/// order, and the first that has no shape decides.
pub open spec fn shape_spec<T: Numeric>(nodes: Seq<Node<T>>, id: int) -> Result<
    Seq<usize>,
    ShapeError,
>
    decreases id,
{
    let node = nodes[id];
    let inputs = node.inputs();
    if inputs.len() == 0 {
        node.shape_of(Seq::empty(), Seq::empty())
    } else if !(0 <= inputs[0] < id) {
        Err(ShapeError::Index)
    } else {
        match shape_spec(nodes, inputs[0] as int) {
            Err(e) => Err(e),
            Ok(a) => if inputs.len() == 1 {
                node.shape_of(a, a)
            } else if !(0 <= inputs[1] < id) {
                Err(ShapeError::Index)
            } else {
                match shape_spec(nodes, inputs[1] as int) {
                    Err(e) => Err(e),
                    Ok(b) => node.shape_of(a, b),
                }
            },
        }
    }
}

/// What asking for the shape of the node at place `id` answers.
pub open spec fn checked_shape_spec<T: Numeric>(nodes: Seq<Node<T>>, id: usize) -> Result<
    Seq<usize>,
    GraphError,
> {
    if id >= nodes.len() {
        Err(GraphError::UnknownNode)
    } else {
        match shape_spec(nodes, id as int) {
            Ok(shape) => Ok(shape),
            Err(e) => Err(GraphError::Shape(e)),
        }
    }
}

/// A shape that was found, or the reason why there is none, stands for
/// what `expected` names.
pub open spec fn shape_found(
    found: Result<Vec<usize>, ShapeError>,
    expected: Result<Seq<usize>, ShapeError>,
) -> bool {
    match found {
        Ok(shape) => expected == Ok::<Seq<usize>, ShapeError>(shape@),
        Err(e) => expected == Err::<Seq<usize>, ShapeError>(e),
    }
}

/// The values of arrays.
pub open spec fn array_values<T: Numeric>(arrays: Seq<Array<T>>) -> Seq<ArrayValue<T>> {
    Seq::new(arrays.len(), |i: int| arrays[i]@)
}

/// Every array is well formed.
pub open spec fn arrays_wf<T: Numeric>(arrays: Seq<Array<T>>) -> bool {
    forall|i: int| 0 <= i < arrays.len() ==> (#[trigger] arrays[i]).wf()
}

/// The values of arrays that are there.
pub open spec fn values_of<T: Numeric>(slots: Seq<Option<Array<T>>>) -> Seq<Option<ArrayValue<T>>> {
    Seq::new(
        slots.len(),
        |i: int|
            match slots[i] {
                Some(a) => Some(a@),
                None => None,
            },
    )
}

/// Every array that is there is well formed.
pub open spec fn slots_wf<T: Numeric>(slots: Seq<Option<Array<T>>>) -> bool {
    forall|i: int|
        0 <= i < slots.len() ==> match #[trigger] slots[i] {
            Some(a) => a.wf(),
            None => true,
        }
}

/// The invariant of the cache of an evaluation: it has a slot for each
/// node, and a value in a slot is the value of that node.
pub open spec fn cache_valid<T: Numeric>(
    cache: Seq<Option<Array<T>>>,
    nodes: Seq<Node<T>>,
    feed: Option<FeedValue<T>>,
) -> bool {
    &&& cache.len() == nodes.len()
    &&& forall|i: int|
        0 <= i < cache.len() ==> match #[trigger] cache[i] {
            Some(a) => a.wf() && eval_spec(nodes, feed, i) == Ok::<ArrayValue<T>, GraphError>(a@),
            None => true,
        }
}

/// What the assignment of `new_value` to the node at place `id` answers:
/// there must be a node at that place, it must be a variable, and the
/// value must have its shape.
pub open spec fn assign_spec<T: Numeric>(
    nodes: Seq<Node<T>>,
    id: usize,
    new_value: ArrayValue<T>,
) -> Result<(), GraphError> {
    if id >= nodes.len() {
        Err(GraphError::UnknownNode)
    } else {
        match nodes[id as int] {
            Node::Variable(v) => if new_value.shape == v.shape_spec() {
                Ok(())
            } else {
                Err(GraphError::Shape(ShapeError::ShapeChanged))
            },
            _ => Err(GraphError::InvalidMutation),
        }
    }
}

/// What adding `value` to the node at place `id` answers: there must be a
/// node at that place, it must be a variable, and the sum must be defined
/// and have its shape.
pub open spec fn assign_add_to_spec<T: Numeric>(
    nodes: Seq<Node<T>>,
    id: usize,
    value: ArrayValue<T>,
) -> Result<(), GraphError> {
    if id >= nodes.len() {
        Err(GraphError::UnknownNode)
    } else {
        match nodes[id as int] {
            Node::Variable(v) => match assign_add_spec(v.value(), value) {
                Ok(_) => Ok(()),
                Err(e) => Err(GraphError::Shape(e)),
            },
            _ => Err(GraphError::InvalidMutation),
        }
    }
}

/// The cache `after` holds every value that the cache `before` held.
pub open spec fn cache_extends<T: Numeric>(
    before: Seq<Option<Array<T>>>,
    after: Seq<Option<Array<T>>>,
) -> bool {
    &&& before.len() == after.len()
    &&& forall|i: int| 0 <= i < before.len() && before[i] is Some ==> after[i] == before[i]
}

/// The nodes of a computation, each at its place. A node stands after its
/// inputs, so that the nodes form a directed acyclic graph; a node may be
/// the input of many.
pub struct Graph<T: Numeric> {
    nodes: Vec<Node<T>>,
}

impl<T: Numeric> Graph<T> {
    /// The nodes in the order of their places.
    pub closed spec fn nodes(&self) -> Seq<Node<T>> {
        self.nodes@
    }

    /// The invariant of the graph: every node is well formed at its
    /// place.
    pub open spec fn wf(&self) -> bool {
        forall|i: int| 0 <= i < self.nodes().len() ==> (#[trigger] self.nodes()[i]).wf(i)
    }

    /// Creates a graph without nodes.
    pub fn new() -> (r: Graph<T>)
        ensures
            r.wf(),
            r.nodes().len() == 0,
    {
        Graph { nodes: Vec::new() }
    }

    /// The number of nodes.
    pub fn len(&self) -> (r: usize)
        ensures
            r == self.nodes().len(),
    {
        self.nodes.len()
    }

    /// Adds a node, whose inputs must be nodes of the graph, and answers
    /// its place.
    pub fn push(&mut self, node: Node<T>) -> (r: Result<usize, GraphError>)
        requires
            old(self).wf(),
            node.source_wf(),
        ensures
            final(self).wf(),
            match r {
                Ok(id) => {
                    &&& id == old(self).nodes().len()
                    &&& node.wf(id as int)
                    &&& final(self).nodes() == old(self).nodes().push(node)
                },
                Err(e) => {
                    &&& e == GraphError::UnknownNode
                    &&& !node.wf(old(self).nodes().len() as int)
                    &&& final(self).nodes() == old(self).nodes()
                },
            },
    {
        let id = self.nodes.len();
        let inputs = node.get_inputs();
        let mut k: usize = 0;
        while k < inputs.len()
            invariant
                k <= inputs@.len(),
                inputs@ == node.inputs(),
                id == self.nodes().len(),
                self.nodes() == old(self).nodes(),
                old(self).wf(),
                forall|m: int| 0 <= m < k ==> inputs@[m] < id,
            decreases inputs@.len() - k,
        {
            if inputs[k] >= id {
                return Err(GraphError::UnknownNode);
            }
            k += 1;
        }
        self.nodes.push(node);
        Ok(id)
    }

    /// Replaces the value of the variable at place `id` by `new_value`,
    /// which must have the shape of the variable.
    pub fn assign(&mut self, id: usize, new_value: &Array<T>) -> (r: Result<(), GraphError>)
        requires
            old(self).wf(),
            new_value.wf(),
        ensures
            final(self).wf(),
            final(self).nodes().len() == old(self).nodes().len(),
            forall|i: int|
                0 <= i < old(self).nodes().len() && i != id ==> final(self).nodes()[i] == old(
                    self,
                ).nodes()[i],
            r == assign_spec(old(self).nodes(), id, new_value@),
            match r {
                Ok(_) => final(self).nodes()[id as int] matches Node::Variable(v) && v.value()
                    == new_value@,
                Err(_) => final(self).nodes() == old(self).nodes(),
            },
    {
        if id >= self.nodes.len() {
            return Err(GraphError::UnknownNode);
        }
        let ghost before = self.nodes();
        let r = match &mut self.nodes[id] {
            Node::Variable(variable) => match variable.assign(new_value) {
                Ok(_) => Ok(()),
                Err(e) => Err(GraphError::Shape(e)),
            },
            _ => Err(GraphError::InvalidMutation),
        };
        proof {
            assert forall|i: int| 0 <= i < self.nodes().len() implies (#[trigger] self.nodes()[
                i
            ]).wf(i) by {}
        }
        r
    }

    /// Adds `value` to the value of the variable at place `id`, element by
    /// element under broadcasting. The sum must have the shape of the
    /// variable.
    pub fn assign_add(&mut self, id: usize, value: &Array<T>) -> (r: Result<(), GraphError>)
        requires
            old(self).wf(),
            value.wf(),
        ensures
            final(self).wf(),
            final(self).nodes().len() == old(self).nodes().len(),
            forall|i: int|
                0 <= i < old(self).nodes().len() && i != id ==> final(self).nodes()[i] == old(
                    self,
                ).nodes()[i],
            r == assign_add_to_spec(old(self).nodes(), id, value@),
            match r {
                Ok(_) => final(self).nodes()[id as int] matches Node::Variable(v) && old(
                    self,
                ).nodes()[id as int] matches Node::Variable(u) && v.value() == u.value().zip(
                    value@,
                    BinaryFn::Add,
                ),
                Err(_) => final(self).nodes() == old(self).nodes(),
            },
    {
        if id >= self.nodes.len() {
            return Err(GraphError::UnknownNode);
        }
        let ghost before = self.nodes();
        let r = match &mut self.nodes[id] {
            Node::Variable(variable) => match variable.assign_add(value) {
                Ok(_) => Ok(()),
                Err(e) => Err(GraphError::Shape(e)),
            },
            _ => Err(GraphError::InvalidMutation),
        };
        proof {
            assert forall|i: int| 0 <= i < self.nodes().len() implies (#[trigger] self.nodes()[
                i
            ]).wf(i) by {}
        }
        r
    }

    /// Computes the shape of the value of the node at place `id` from the
    /// shapes of the sources, without an evaluation.
    pub fn shape(&self, id: usize) -> (r: Result<Vec<usize>, GraphError>)
        requires
            self.wf(),
        ensures
            match r {
                Ok(shape) => checked_shape_spec(self.nodes(), id) == Ok::<Seq<usize>, GraphError>(
                    shape@,
                ),
                Err(e) => checked_shape_spec(self.nodes(), id) == Err::<Seq<usize>, GraphError>(e),
            },
    {
        if id >= self.nodes.len() {
            return Err(GraphError::UnknownNode);
        }
        let n = self.nodes.len();
        let mut shapes: Vec<Result<Vec<usize>, ShapeError>> = Vec::new();
        let mut i: usize = 0;
        while i <= id
            invariant
                i <= id + 1,
                id < n,
                n == self.nodes().len(),
                self.wf(),
                shapes@.len() == i,
                forall|j: int|
                    0 <= j < i ==> shape_found(#[trigger] shapes@[j], shape_spec(self.nodes(), j)),
            decreases id + 1 - i,
        {
            let node = &self.nodes[i];
            let inputs = node.get_inputs();
            let empty: Vec<usize> = Vec::new();
            let found = if inputs.len() == 0 {
                node.shape(empty.as_slice(), empty.as_slice())
            } else {
                match &shapes[inputs[0]] {
                    Err(e) => Err(*e),
                    Ok(a) => if inputs.len() == 1 {
                        node.shape(a.as_slice(), a.as_slice())
                    } else {
                        match &shapes[inputs[1]] {
                            Err(e) => Err(*e),
                            Ok(b) => node.shape(a.as_slice(), b.as_slice()),
                        }
                    },
                }
            };
            shapes.push(found);
            i += 1;
        }
        match &shapes[id] {
            Ok(shape) => Ok(copy_of(shape)),
            Err(e) => Err(GraphError::Shape(*e)),
        }
    }

    /// The node at a place.
    pub fn node(&self, id: usize) -> (r: &Node<T>)
        requires
            id < self.nodes().len(),
        ensures
            *r == self.nodes()[id as int],
    {
        &self.nodes[id]
    }
}

impl<T: Numeric> Graph<T> {
    /// Computes the values of the inputs of the node at place `id`, in
    /// their order.
    pub fn input_values(
        &self,
        id: usize,
        feed: Option<&Feed<T>>,
        cache: &mut Vec<Option<Array<T>>>,
    ) -> (r: Result<Vec<Array<T>>, GraphError>)
        requires
            self.wf(),
            id < self.nodes().len(),
            feed_wf(feed),
            cache_valid(old(cache)@, self.nodes(), feed_value(feed)),
        ensures
            cache_valid(final(cache)@, self.nodes(), feed_value(feed)),
            cache_extends(old(cache)@, final(cache)@),
            match r {
                Ok(values) => arrays_wf(values@) && values@.len() == self.nodes()[id as int].inputs(
                ).len() && input_values_spec(
                    self.nodes(),
                    feed_value(feed),
                    id as int,
                    self.nodes()[id as int].inputs().len(),
                ) == Ok::<Seq<ArrayValue<T>>, GraphError>(array_values(values@)),
                Err(e) => input_values_spec(
                    self.nodes(),
                    feed_value(feed),
                    id as int,
                    self.nodes()[id as int].inputs().len(),
                ) == Err::<Seq<ArrayValue<T>>, GraphError>(e),
            },
        decreases id, 0int,
    {
        let inputs = self.nodes[id].get_inputs();
        let mut values: Vec<Array<T>> = Vec::new();
        let mut k: usize = 0;
        proof {
            assert(array_values(values@) =~= Seq::<ArrayValue<T>>::empty());
        }
        while k < inputs.len()
            invariant
                k <= inputs@.len(),
                self.wf(),
                id < self.nodes().len(),
                feed_wf(feed),
                inputs@ == self.nodes()[id as int].inputs(),
                cache_valid(cache@, self.nodes(), feed_value(feed)),
                cache_extends(old(cache)@, cache@),
                arrays_wf(values@),
                values@.len() == k,
                input_values_spec(self.nodes(), feed_value(feed), id as int, k as nat) == Ok::<
                    Seq<ArrayValue<T>>,
                    GraphError,
                >(array_values(values@)),
            decreases inputs@.len() - k,
        {
            let input = inputs[k];
            let ghost before = values@;
            match self.value(input, feed, cache) {
                Ok(value) => {
                    values.push(value);
                    proof {
                        assert(array_values(values@) =~= array_values(before).push(value@));
                    }
                },
                Err(e) => {
                    proof {
                        lemma_input_values_error(
                            self.nodes(),
                            feed_value(feed),
                            id as int,
                            (k + 1) as nat,
                            inputs@.len(),
                        );
                    }
                    return Err(e);
                },
            }
            k += 1;
        }
        Ok(values)
    }

    /// Computes the value of the node at place `id` from the values of its
    /// inputs.
    pub fn compute(
        &self,
        id: usize,
        feed: Option<&Feed<T>>,
        cache: &mut Vec<Option<Array<T>>>,
    ) -> (r:
        Result<Array<T>, GraphError>)
        requires
            self.wf(),
            id < self.nodes().len(),
            feed_wf(feed),
            cache_valid(old(cache)@, self.nodes(), feed_value(feed)),
        ensures
            cache_valid(final(cache)@, self.nodes(), feed_value(feed)),
            cache_extends(old(cache)@, final(cache)@),
            evaluates(r, eval_spec(self.nodes(), feed_value(feed), id as int)),
        decreases id, 1int,
    {
        let values = match self.input_values(id, feed, cache) {
            Ok(values) => values,
            Err(e) => {
                return Err(e);
            },
        };
        self.nodes[id].compute(feed, &values)
    }

    /// The value of the node at place `id`: the one in the cache, where
    /// there is one, and else the computed one, which then goes into the
    /// cache.
    pub fn value(&self, id: usize, feed: Option<&Feed<T>>, cache: &mut Vec<Option<Array<T>>>) -> (r:
        Result<Array<T>, GraphError>)
        requires
            self.wf(),
            id < self.nodes().len(),
            feed_wf(feed),
            cache_valid(old(cache)@, self.nodes(), feed_value(feed)),
        ensures
            cache_valid(final(cache)@, self.nodes(), feed_value(feed)),
            cache_extends(old(cache)@, final(cache)@),
            old(cache)@[id as int] is Some ==> final(cache)@ == old(cache)@,
            r is Ok ==> final(cache)@[id as int] is Some,
            evaluates(r, eval_spec(self.nodes(), feed_value(feed), id as int)),
        decreases id, 2int,
    {
        match &cache[id] {
            Some(cached_value) => {
                return Ok(cached_value.clone());
            },
            None => {},
        }
        let value = match self.compute(id, feed, cache) {
            Ok(value) => value,
            Err(e) => {
                return Err(e);
            },
        };
        let return_value = value.clone();
        cache[id] = Some(value);
        Ok(return_value)
    }

    /// Evaluates the node at place `id`.
    pub fn eval(&self, id: usize, feed: Option<&Feed<T>>) -> (r: Result<Array<T>, GraphError>)
        requires
            self.wf(),
            id < self.nodes().len(),
            feed_wf(feed),
        ensures
            evaluates(r, eval_spec(self.nodes(), feed_value(feed), id as int)),
    {
        let mut compute_cache = empty_slots::<T>(self.nodes.len());
        self.value(id, feed, &mut compute_cache)
    }
}

impl<T: Numeric> Graph<T> {
    /// Computes the gradient that the node at place `parent` hands to
    /// `dependent`, given the gradient `grad` that has arrived at it.
    pub fn compute_accum_grad(
        &self,
        parent: usize,
        dependent: usize,
        grad: &Array<T>,
        feed: Option<&Feed<T>>,
        cache: &mut Vec<Option<Array<T>>>,
    ) -> (r: Result<Option<Array<T>>, GraphError>)
        requires
            self.wf(),
            parent < self.nodes().len(),
            grad.wf(),
            feed_wf(feed),
            cache_valid(old(cache)@, self.nodes(), feed_value(feed)),
        ensures
            cache_valid(final(cache)@, self.nodes(), feed_value(feed)),
            cache_extends(old(cache)@, final(cache)@),
            differentiates(
                r,
                local_grad_spec(self.nodes(), feed_value(feed), parent as int, dependent, grad@),
            ),
    {
        let values = match self.input_values(parent, feed, cache) {
            Ok(values) => values,
            Err(e) => {
                return Err(e);
            },
        };
        self.nodes[parent].compute_accum_grad(dependent, &values, grad)
    }

    /// Has `parent` hand its contribution to the gradient of
    /// `current_node`: the contribution becomes the first gradient at that
    /// node, or is added to the one that is there. No parent stands for
    /// `phantom_parent`, at which the gradient `seed` has arrived.
    pub fn accumulate(
        &self,
        phantom_parent: &WrapperOp,
        seed: &Array<T>,
        current_node: usize,
        current_parent: Option<usize>,
        target: usize,
        accum_grad_map: &mut Vec<Option<Array<T>>>,
        feed: Option<&Feed<T>>,
        cache: &mut Vec<Option<Array<T>>>,
    ) -> (r: Result<(), GraphError>)
        requires
            self.wf(),
            seed.wf(),
            phantom_parent.input < self.nodes().len(),
            current_node < self.nodes().len(),
            match current_parent {
                Some(p) => p < self.nodes().len(),
                None => true,
            },
            old(accum_grad_map)@.len() == self.nodes().len(),
            slots_wf(old(accum_grad_map)@),
            feed_wf(feed),
            cache_valid(old(cache)@, self.nodes(), feed_value(feed)),
        ensures
            cache_valid(final(cache)@, self.nodes(), feed_value(feed)),
            cache_extends(old(cache)@, final(cache)@),
            final(accum_grad_map)@.len() == self.nodes().len(),
            slots_wf(final(accum_grad_map)@),
            match r {
                Ok(_) => (Walk {
                    nodes: self.nodes(),
                    feed: feed_value(feed),
                    root: phantom_parent.input,
                    target,
                    seed: seed@,
                }).accumulate(current_node, current_parent, values_of(old(accum_grad_map)@))
                    == Ok::<Seq<Option<ArrayValue<T>>>, GraphError>(
                    values_of(final(accum_grad_map)@),
                ),
                Err(e) => (Walk {
                    nodes: self.nodes(),
                    feed: feed_value(feed),
                    root: phantom_parent.input,
                    target,
                    seed: seed@,
                }).accumulate(current_node, current_parent, values_of(old(accum_grad_map)@))
                    == Err::<Seq<Option<ArrayValue<T>>>, GraphError>(e),
            },
    {
        let ghost acc = values_of(accum_grad_map@);
        let parent_node = match current_parent {
            Some(p) => p,
            None => phantom_parent.input,
        };
        let parent_grad = match current_parent {
            Some(p) => match &accum_grad_map[p] {
                Some(grad) => {
                    match self.compute_accum_grad(parent_node, current_node, grad, feed, cache) {
                        Ok(contribution) => contribution,
                        Err(e) => {
                            return Err(e);
                        },
                    }
                },
                None => None,
            },
            None => {
                match self.compute_accum_grad(parent_node, current_node, seed, feed, cache) {
                    Ok(contribution) => contribution,
                    Err(e) => {
                        return Err(e);
                    },
                }
            },
        };
        if let Some(grad) = parent_grad {
            let updated = match &accum_grad_map[current_node] {
                Some(accum_grad) => match accum_grad.add(&grad) {
                    Ok(sum) => sum,
                    Err(e) => {
                        return Err(GraphError::Shape(e));
                    },
                },
                None => grad,
            };
            let ghost sum = updated@;
            accum_grad_map[current_node] = Some(updated);
            proof {
                assert(values_of(accum_grad_map@) =~= acc.update(current_node as int, Some(sum)));
            }
        }
        Ok(())
    }

    /// Puts the visits of the inputs of the node at place `node` onto the
    /// stack, to be made through `parent`, behind which that node stands.
    pub fn push_inputs(&self, stack: &mut Vec<Visit>, node: usize, parent: Option<usize>)
        requires
            self.wf(),
            node < self.nodes().len(),
            match parent {
                Some(p) => p == node,
                None => true,
            },
        ensures
            final(stack)@ == old(stack)@ + Seq::new(
                self.nodes()[node as int].inputs().len(),
                |i: int| (self.nodes()[node as int].inputs()[i], parent),
            ),
    {
        let children = self.nodes[node].get_inputs();
        let mut k: usize = 0;
        proof {
            assert(stack@ =~= old(stack)@ + Seq::new(
                0,
                |i: int| (self.nodes()[node as int].inputs()[i], parent),
            ));
        }
        while k < children.len()
            invariant
                k <= children@.len(),
                children@ == self.nodes()[node as int].inputs(),
                stack@ == old(stack)@ + Seq::new(
                    k as nat,
                    |i: int| (self.nodes()[node as int].inputs()[i], parent),
                ),
            decreases children@.len() - k,
        {
            stack.push((children[k], parent));
            k += 1;
            proof {
                assert(stack@ =~= old(stack)@ + Seq::new(
                    k as nat,
                    |i: int| (self.nodes()[node as int].inputs()[i], parent),
                ));
            }
        }
    }

    /// Computes the gradient of the node at place `root` by the node at
    /// place `target`. The gradient of a node by itself is ones of its
    /// shape, for which the node is not evaluated.
    pub fn grad(&self, root: usize, target: usize, feed: Option<&Feed<T>>) -> (r: Result<
        Option<Array<T>>,
        GraphError,
    >)
        requires
            self.wf(),
            root < self.nodes().len(),
            target < self.nodes().len(),
            feed_wf(feed),
        ensures
            differentiates(r, grad_spec(self.nodes(), feed_value(feed), root, target)),
    {
        if root == target {
            let shape = match self.shape(root) {
                Ok(shape) => shape,
                Err(e) => {
                    return Err(e);
                },
            };
            return match Array::new(T::one(), shape) {
                Ok(ones) => Ok(Some(ones)),
                Err(e) => Err(GraphError::Shape(e)),
            };
        }
        let n = self.nodes.len();
        let mut compute_cache = empty_slots::<T>(n);
        let mut accum_grad_map = empty_slots::<T>(n);
        let mut stack: Vec<Visit> = Vec::new();

        let value = match self.compute(root, feed, &mut compute_cache) {
            Ok(value) => value,
            Err(e) => {
                return Err(e);
            },
        };
        let accum_grad_self = value.full_like(T::one());
        let phantom_parent = WrapperOp::new(root, value.get_shape());
        let ghost walk = Walk {
            nodes: self.nodes(),
            feed: feed_value(feed),
            root,
            target,
            seed: accum_grad_self@,
        };
        let ghost expected = walk.visit_inputs(
            None,
            self.nodes()[root as int].inputs().len(),
            no_gradients(n as nat),
        );
        self.push_inputs(&mut stack, root, None);
        proof {
            assert(stack@ =~= Seq::<Visit>::empty() + walk.input_visits(
                None,
                walk.inputs(root as int).len(),
            ));
            walk.lemma_run_stack_inputs(
                Seq::<Visit>::empty(),
                None,
                walk.inputs(root as int).len(),
                no_gradients(n as nat),
            );
            assert(values_of(accum_grad_map@) =~= no_gradients::<T>(n as nat));
        }
        while stack.len() > 0
            invariant
                self.wf(),
                feed_wf(feed),
                n == self.nodes().len(),
                root < n,
                target < n,
                phantom_parent.input == root,
                accum_grad_self.wf(),
                walk.nodes == self.nodes(),
                walk.feed == feed_value(feed),
                walk.root == root,
                walk.target == target,
                walk.seed == accum_grad_self@,
                cache_valid(compute_cache@, self.nodes(), feed_value(feed)),
                accum_grad_map@.len() == n,
                slots_wf(accum_grad_map@),
                walk.stack_valid(stack@),
                walk.run_stack(stack@, values_of(accum_grad_map@)) == expected,
                grad_spec(self.nodes(), feed_value(feed), root, target) == (match expected {
                    Err(e) => Err(e),
                    Ok(acc) => Ok(acc[target as int]),
                }),
            decreases walk.stack_visits(stack@),
        {
            let ghost before = stack@;
            let ghost acc = values_of(accum_grad_map@);
            let (current_node, current_parent) = stack.pop().unwrap();
            let ghost rest = stack@;
            match self.accumulate(
                &phantom_parent,
                &accum_grad_self,
                current_node,
                current_parent,
                target,
                &mut accum_grad_map,
                feed,
                &mut compute_cache,
            ) {
                Ok(_) => {},
                Err(e) => {
                    proof {
                        assert(walk.run_stack(before, acc) == Err::<
                            Seq<Option<ArrayValue<T>>>,
                            GraphError,
                        >(e));
                    }
                    return Err(e);
                },
            }
            let ghost next = values_of(accum_grad_map@);
            proof {
                assert(walk.accumulate(current_node, current_parent, acc) == Ok::<
                    Seq<Option<ArrayValue<T>>>,
                    GraphError,
                >(next));
            }
            if current_node != target {
                self.push_inputs(&mut stack, current_node, Some(current_node));
                proof {
                    let k = walk.inputs(current_node as int).len();
                    walk.lemma_run_stack_inputs(rest, Some(current_node), k, next);
                    walk.lemma_stack_visits_inputs(rest, Some(current_node), k);
                    assert forall|i: int| 0 <= i < stack@.len() implies (#[trigger] stack@[i]).0
                        < walk.parent_node(stack@[i].1) < walk.nodes.len() by {
                        if i < rest.len() {
                        } else {
                            assert(stack@[i] == walk.input_visits(Some(current_node), k)[i
                                - rest.len()]);
                            assert(walk.inputs(current_node as int)[i - rest.len()]
                                < current_node);
                        }
                    }
                }
            } else {
                proof {
                    assert forall|i: int| 0 <= i < stack@.len() implies (#[trigger] stack@[i]).0
                        < walk.parent_node(stack@[i].1) < walk.nodes.len() by {}
                }
            }
        }
        proof {
            assert(expected == Ok::<Seq<Option<ArrayValue<T>>>, GraphError>(
                values_of(accum_grad_map@),
            ));
        }
        match &accum_grad_map[target] {
            Some(grad) => Ok(Some(grad.clone())),
            None => Ok(None),
        }
    }
}

/// A slot for each of `n` nodes, with nothing in it.
pub fn empty_slots<T: Numeric>(n: usize) -> (r: Vec<Option<Array<T>>>)
    ensures
        r@.len() == n,
        forall|i: int| 0 <= i < n ==> r@[i] is None,
{
    let mut r: Vec<Option<Array<T>>> = Vec::new();
    let mut i: usize = 0;
    while i < n
        invariant
            i <= n,
            r@.len() == i,
            forall|k: int| 0 <= k < i ==> r@[k] is None,
        decreases n - i,
    {
        r.push(None);
        i += 1;
    }
    r
}

/// Where the values of the first `k` inputs fail, those of the first `n`
/// fail for the same reason.
pub proof fn lemma_input_values_error<T: Numeric>(
    nodes: Seq<Node<T>>,
    feed: Option<FeedValue<T>>,
    id: int,
    k: nat,
    n: nat,
)
    requires
        k <= n,
        input_values_spec(nodes, feed, id, k) is Err,
    ensures
        input_values_spec(nodes, feed, id, n) == input_values_spec(nodes, feed, id, k),
    decreases n - k,
{
    if k < n {
        lemma_input_values_error(nodes, feed, id, k, (n - 1) as nat);
    }
}

} // verus!
