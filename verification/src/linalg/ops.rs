//! The array operations as functions of two operands.

use crate::linalg::array::{answers, Array};
use crate::linalg::error::ShapeError;
use crate::linalg::numeric::{BinaryFn, Numeric};
use vstd::prelude::*;

verus! {

/// The product of `a` and `b`, element by element under broadcasting.
pub fn multiply<T: Numeric>(a: &Array<T>, b: &Array<T>) -> (r: Result<Array<T>, ShapeError>)
    requires
        a.wf(),
        b.wf(),
    ensures
        answers(r, a@.checked_zip(b@, BinaryFn::Mul)),
{
    a.mul(b)
}

/// The product of every element of `a` and the scalar `b`.
pub fn multiply_scalar<T: Numeric>(a: &Array<T>, b: T) -> (r: Array<T>)
    requires
        a.wf(),
    ensures
        r.wf(),
        r@ == a@.with_scalar(b, BinaryFn::Mul),
{
    a.mul_scalar(b)
}

/// The sum of `a` and `b`, element by element under broadcasting.
pub fn add<T: Numeric>(a: &Array<T>, b: &Array<T>) -> (r: Result<Array<T>, ShapeError>)
    requires
        a.wf(),
        b.wf(),
    ensures
        answers(r, a@.checked_zip(b@, BinaryFn::Add)),
{
    a.add(b)
}

/// The sum of every element of `a` and the scalar `b`.
pub fn add_scalar<T: Numeric>(a: &Array<T>, b: T) -> (r: Array<T>)
    requires
        a.wf(),
    ensures
        r.wf(),
        r@ == a@.with_scalar(b, BinaryFn::Add),
{
    a.add_scalar(b)
}

/// The difference of `a` and `b`, element by element under broadcasting.
pub fn sub<T: Numeric>(a: &Array<T>, b: &Array<T>) -> (r: Result<Array<T>, ShapeError>)
    requires
        a.wf(),
        b.wf(),
    ensures
        answers(r, a@.checked_zip(b@, BinaryFn::Sub)),
{
    a.sub(b)
}

/// The difference of every element of `a` and the scalar `b`.
pub fn sub_scalar<T: Numeric>(a: &Array<T>, b: T) -> (r: Array<T>)
    requires
        a.wf(),
    ensures
        r.wf(),
        r@ == a@.with_scalar(b, BinaryFn::Sub),
{
    a.sub_scalar(b)
}

/// The quotient of `a` and `b`, element by element under broadcasting.
pub fn div<T: Numeric>(a: &Array<T>, b: &Array<T>) -> (r: Result<Array<T>, ShapeError>)
    requires
        a.wf(),
        b.wf(),
    ensures
        answers(r, a@.checked_zip(b@, BinaryFn::Div)),
{
    a.div(b)
}

/// The quotient of every element of `a` and the scalar `b`.
pub fn div_scalar<T: Numeric>(a: &Array<T>, b: T) -> (r: Array<T>)
    requires
        a.wf(),
    ensures
        r.wf(),
        r@ == a@.with_scalar(b, BinaryFn::Div),
{
    a.div_scalar(b)
}

/// The batched matrix product of `a` and `b`.
pub fn matmul<T: Numeric>(a: &Array<T>, b: &Array<T>) -> (r: Result<Array<T>, ShapeError>)
    requires
        a.wf(),
        b.wf(),
    ensures
        answers(r, a@.checked_matmul(b@)),
{
    a.matmul(b)
}

} // verus!
