use vstd::prelude::*;

verus! {

/// Why an array operation rejected its operands.
#[derive(Clone, Copy, Debug, PartialEq, Eq, Structural)]
pub enum ShapeError {
    /// A shape holds a dimension of length zero.
    ZeroDimension,
    /// A buffer's length differs from the product of the dimensions it is
    /// meant to fill.
    LengthMismatch,
    /// Two shapes cannot be broadcast against each other.
    Broadcast,
    /// Two operands of a matrix product have fewer than two dimensions, or
    /// their inner dimensions differ.
    MatMul,
    /// An axis or a count of dimensions is not within the rank: a reduction
    /// axis that the array does not have, a transposition of fewer than two
    /// dimensions, or more trailing dimensions asked for than there are.
    Axis,
    /// An index has the wrong length or leaves the array.
    Index,
    /// The result would hold more elements than `usize` can count.
    TooLarge,
    /// A node was given a shape without dimensions.
    EmptyShape,
    /// A variable was given a value of another shape than its own.
    ShapeChanged,
}

} // verus!
