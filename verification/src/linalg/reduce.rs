//! Reductions of an array along one axis or over all of its elements.

use crate::linalg::array::{answers, Array, ArrayValue};
use crate::linalg::broadcast::{get_slice_len, lemma_product_ones};
use crate::linalg::error::ShapeError;
use crate::linalg::numeric::{BinaryFn, Numeric};
use crate::linalg::shape::{
    lemma_product_concat, lemma_product_positive, lemma_product_single, lemma_product_split,
    ones_shape, shape_positive, shape_product,
};
use crate::linalg::utils::{element_count, filled, reduce_axis_valid, reduce_shape};
use vstd::prelude::*;

verus! {

/// The reduction of `count` elements of `data`, the first at `start` and
/// each next one `step` places on: it begins with the first element and
/// takes in the others in order, each as the second argument of `f`.
pub open spec fn fold_strided<T: Numeric>(
    f: BinaryFn,
    data: Seq<T>,
    start: int,
    step: int,
    count: nat,
) -> T
    decreases count,
{
    if count <= 1 {
        data[start]
    } else {
        f.apply_spec(
            fold_strided(f, data, start, step, (count - 1) as nat),
            data[start + (count - 1) * step],
        )
    }
}

/// How many elements a reduction takes together into one: the length of
/// the axis, or with no axis the number of all elements.
pub open spec fn reduce_count<T>(array: ArrayValue<T>, axis: Option<usize>) -> nat {
    match axis {
        Some(a) => array.shape[a as int] as nat,
        None => array.data.len(),
    }
}

impl<T: Numeric> ArrayValue<T> {
    /// The array reduced by `f`. Along an axis, each element of the result
    /// is the reduction of the elements of `self` that differ from it in
    /// the coordinate of that axis only, taken in the order of that
    /// coordinate. With no axis, the one element of the result is the
    /// reduction of all elements in their order, begun at the first.
    pub open spec fn reduced(self, f: BinaryFn, axis: Option<usize>, keep_dims: bool) -> ArrayValue<
        T,
    > {
        match axis {
            Some(a) => {
                let inner = shape_product(self.shape.skip(a + 1)) as int;
                let dim = self.shape[a as int] as int;
                ArrayValue {
                    shape: reduce_shape(self.shape, axis, keep_dims),
                    data: Seq::new(
                        shape_product(self.shape.take(a as int)) * (inner as nat),
                        |o: int|
                            fold_strided(
                                f,
                                self.data,
                                (o / inner) * (dim * inner) + o % inner,
                                inner,
                                dim as nat,
                            ),
                    ),
                }
            },
            None => ArrayValue {
                shape: reduce_shape(self.shape, axis, keep_dims),
                data: seq![fold_strided(f, self.data, 0, 1, self.data.len())],
            },
        }
    }

    /// What a reduction answers: the reduced array where the axis is one
    /// of the array.
    pub open spec fn checked_reduced(
        self,
        f: BinaryFn,
        axis: Option<usize>,
        keep_dims: bool,
    ) -> Result<ArrayValue<T>, ShapeError> {
        if reduce_axis_valid(self.shape, axis) {
            Ok(self.reduced(f, axis, keep_dims))
        } else {
            Err(ShapeError::Axis)
        }
    }

    /// The mean along an axis, or of all elements: the sum, divided by the
    /// number of elements taken together.
    pub open spec fn mean(self, axis: Option<usize>, keep_dims: bool) -> ArrayValue<T> {
        self.reduced(BinaryFn::Add, axis, keep_dims).with_scalar(
            T::from_usize_spec(reduce_count(self, axis) as usize),
            BinaryFn::Div,
        )
    }

    /// What the mean answers.
    pub open spec fn checked_mean(self, axis: Option<usize>, keep_dims: bool) -> Result<
        ArrayValue<T>,
        ShapeError,
    > {
        if reduce_axis_valid(self.shape, axis) {
            Ok(self.mean(axis, keep_dims))
        } else {
            Err(ShapeError::Axis)
        }
    }
}

/// Along a valid axis the element count is that of the dimensions before
/// it, times its length, times that of the dimensions after it; the
/// reduced shape is positive and holds the first times the last.
pub proof fn lemma_reduce_shape(shape: Seq<usize>, axis: Option<usize>, keep_dims: bool)
    requires
        shape_positive(shape),
        reduce_axis_valid(shape, axis),
    ensures
        shape_positive(reduce_shape(shape, axis, keep_dims)),
        match axis {
            Some(a) => {
                &&& shape_product(shape) == shape_product(shape.take(a as int)) * ((shape[a as int]
                    as nat) * shape_product(shape.skip(a + 1)))
                &&& shape_product(reduce_shape(shape, axis, keep_dims)) == shape_product(
                    shape.take(a as int),
                ) * shape_product(shape.skip(a + 1))
                &&& shape_product(shape.take(a as int)) >= 1
                &&& shape_product(shape.skip(a + 1)) >= 1
            },
            None => shape_product(reduce_shape(shape, axis, keep_dims)) == 1,
        },
{
    match axis {
        Some(a) => {
            let a = a as int;
            let before = shape.take(a);
            let after = shape.skip(a + 1);
            let d = shape[a];
            lemma_product_positive(before);
            lemma_product_positive(after);
            lemma_product_split(shape, a);
            assert(shape.skip(a) =~= seq![d] + after);
            lemma_product_concat(seq![d], after);
            lemma_product_single(d);
            if keep_dims {
                let kept = shape.update(a, 1usize);
                lemma_product_split(kept, a);
                assert(kept.take(a) =~= before);
                assert(kept.skip(a) =~= seq![1usize] + after);
                lemma_product_concat(seq![1usize], after);
                lemma_product_single(1usize);
            } else {
                assert(shape.remove(a) =~= before + after);
                lemma_product_concat(before, after);
            }
        },
        None => {
            if keep_dims {
                lemma_product_ones(shape.len());
            } else {
                lemma_product_single(1usize);
            }
        },
    }
}

/// Checks that a reduction along `axis` is defined on `array`.
pub fn check_reduce_axis<T: Numeric>(array: &Array<T>, axis: Option<usize>) -> (r: Result<
    (),
    ShapeError,
>)
    ensures
        r is Ok <==> reduce_axis_valid(array@.shape, axis),
        r is Err ==> r == Err::<(), ShapeError>(ShapeError::Axis),
{
    crate::linalg::utils::check_reduce_axis(array.shape_ref().as_slice(), axis)
}

/// Computes the shape that a reduction leaves of `array`.
pub fn get_shape_after_reduce<T: Numeric>(
    array: &Array<T>,
    axis: Option<usize>,
    keep_dims: bool,
) -> (r:
    Result<Vec<usize>, ShapeError>)
    ensures
        match r {
            Ok(new_shape) => reduce_axis_valid(array@.shape, axis) && new_shape@ == reduce_shape(
                array@.shape,
                axis,
                keep_dims,
            ),
            Err(e) => e == ShapeError::Axis && !reduce_axis_valid(array@.shape, axis),
        },
{
    crate::linalg::utils::get_shape_after_reduce(array.shape_ref().as_slice(), axis, keep_dims)
}

/// Reduces `array` by `reducer` along `axis`, or over all of its elements
/// where there is no axis. With `keep_dims` the reduced dimensions stay,
/// with length one.
pub fn reduce<T: Numeric>(
    array: &Array<T>,
    reducer: BinaryFn,
    axis: Option<usize>,
    keep_dims: bool,
) -> (r: Result<Array<T>, ShapeError>)
    requires
        array.wf(),
    ensures
        answers(r, array@.checked_reduced(reducer, axis, keep_dims)),
{
    let new_shape = match get_shape_after_reduce(array, axis, keep_dims) {
        Ok(shape) => shape,
        Err(e) => {
            return Err(e);
        },
    };
    let shape = array.shape_ref();
    let data = array.data_ref();
    let total = data.len();
    proof {
        lemma_reduce_shape(shape@, axis, keep_dims);
    }
    if let Some(axis_val) = axis {
        let ghost outer = shape_product(shape@.take(axis_val as int));
        let ghost inner = shape_product(shape@.skip(axis_val + 1));
        let dim_len = shape[axis_val];
        proof {
            let d = dim_len as nat;
            assert(outer * inner <= outer * (d * inner) && inner <= outer * (d * inner) && d
                * inner <= outer * (d * inner) && d * inner >= 1) by (nonlinear_arith)
                requires
                    outer >= 1,
                    d >= 1,
                    inner >= 1,
            ;
        }
        let new_len = match element_count(new_shape.as_slice()) {
            Ok(n) => n,
            Err(e) => {
                return Err(e);
            },
        };
        let mut new_data = filled(T::zero(), new_len);
        let rank = shape.len();
        let axis_len = get_slice_len(shape.as_slice(), rank - (axis_val + 1));
        let single_slide = dim_len * axis_len;
        let ghost expected = array@.reduced(reducer, axis, keep_dims).data;
        let mut total_slide: usize = 0;
        let mut current_row: usize = 0;
        let ghost mut slides: nat = 0;
        let mut o: usize = 0;
        while o < new_len
            invariant
                o <= new_len,
                array.wf(),
                data@ == array@.data,
                shape@ == array@.shape,
                axis == Some(axis_val),
                axis_val < shape@.len(),
                total == data@.len(),
                total == outer * (dim_len * inner),
                new_len == outer * inner,
                new_data@.len() == new_len,
                axis_len == inner,
                inner >= 1,
                dim_len >= 1,
                dim_len == shape@[axis_val as int],
                outer == shape_product(shape@.take(axis_val as int)),
                inner == shape_product(shape@.skip(axis_val + 1)),
                single_slide == dim_len * inner,
                total_slide == slides * single_slide,
                o == slides * inner + current_row,
                current_row < inner,
                slides <= outer,
                expected == array@.reduced(reducer, axis, keep_dims).data,
                forall|p: int| 0 <= p < o ==> new_data@[p] == expected[p],
            decreases new_len - o,
        {
            proof {
                let d = dim_len as nat;
                let w = current_row as nat;
                assert(slides < outer) by (nonlinear_arith)
                    requires
                        slides * inner + w < outer * inner,
                        slides <= outer,
                        w < inner,
                ;
                assert((slides * inner + w) / inner == slides && (slides * inner + w) % inner == w)
                    by (nonlinear_arith)
                    requires
                        w < inner,
                ;
                assert(slides * (d * inner) + d * inner == (slides + 1) * (d * inner) && (slides
                    + 1) * (d * inner) <= outer * (d * inner)) by (nonlinear_arith)
                    requires
                        slides < outer,
                ;
                assert(w + (d - 1) * inner < d * inner) by (nonlinear_arith)
                    requires
                        w < inner,
                        d >= 1,
                ;
            }
            let start = total_slide + current_row;
            let mut acc = data[start];
            let mut j: usize = 1;
            while j < dim_len
                invariant
                    1 <= j <= dim_len,
                    start == total_slide + current_row,
                    total_slide + single_slide <= total,
                    single_slide == dim_len * inner,
                    axis_len == inner,
                    current_row < inner,
                    total == data@.len(),
                    acc == fold_strided(reducer, data@, start as int, inner as int, j as nat),
                decreases dim_len - j,
            {
                proof {
                    let d = dim_len as nat;
                    let w = current_row as nat;
                    assert(inner * j + w < d * inner && inner * j == j * inner) by (nonlinear_arith)
                        requires
                            w < inner,
                            j < d,
                    ;
                }
                acc = reducer.apply(acc, data[total_slide + axis_len * j + current_row]);
                j += 1;
            }
            new_data[o] = acc;
            current_row += 1;
            if current_row == axis_len {
                total_slide += single_slide;
                current_row = 0;
                proof {
                    assert((slides + 1) * inner + 0 == slides * inner + inner) by (nonlinear_arith);
                    assert((slides + 1) * single_slide == slides * single_slide + single_slide)
                        by (nonlinear_arith);
                    slides = slides + 1;
                }
            }
            o += 1;
        }
        proof {
            assert(new_data@ =~= expected);
        }
        Ok(Array::from_parts(new_shape, new_data))
    } else {
        proof {
            lemma_product_positive(shape@);
        }
        let mut acc = data[0];
        let mut k: usize = 1;
        while k < total
            invariant
                1 <= k <= total,
                total == data@.len(),
                acc == fold_strided(reducer, data@, 0, 1, k as nat),
            decreases total - k,
        {
            acc = reducer.apply(acc, data[k]);
            k += 1;
        }
        let mut new_data: Vec<T> = Vec::new();
        new_data.push(acc);
        Ok(Array::from_parts(new_shape, new_data))
    }
}

/// Sums `array` along `axis`, or all of its elements.
pub fn reduce_sum<T: Numeric>(array: &Array<T>, axis: Option<usize>, keep_dims: bool) -> (r: Result<
    Array<T>,
    ShapeError,
>)
    requires
        array.wf(),
    ensures
        answers(r, array@.checked_reduced(BinaryFn::Add, axis, keep_dims)),
{
    reduce(array, BinaryFn::Add, axis, keep_dims)
}

/// Multiplies the elements of `array` along `axis`, or all of them.
pub fn reduce_prod<T: Numeric>(array: &Array<T>, axis: Option<usize>, keep_dims: bool) -> (r:
    Result<Array<T>, ShapeError>)
    requires
        array.wf(),
    ensures
        answers(r, array@.checked_reduced(BinaryFn::Mul, axis, keep_dims)),
{
    reduce(array, BinaryFn::Mul, axis, keep_dims)
}

/// Takes the largest element of `array` along `axis`, or of all.
pub fn reduce_max<T: Numeric>(array: &Array<T>, axis: Option<usize>, keep_dims: bool) -> (r: Result<
    Array<T>,
    ShapeError,
>)
    requires
        array.wf(),
    ensures
        answers(r, array@.checked_reduced(BinaryFn::Max, axis, keep_dims)),
{
    reduce(array, BinaryFn::Max, axis, keep_dims)
}

/// Takes the smallest element of `array` along `axis`, or of all.
pub fn reduce_min<T: Numeric>(array: &Array<T>, axis: Option<usize>, keep_dims: bool) -> (r: Result<
    Array<T>,
    ShapeError,
>)
    requires
        array.wf(),
    ensures
        answers(r, array@.checked_reduced(BinaryFn::Min, axis, keep_dims)),
{
    reduce(array, BinaryFn::Min, axis, keep_dims)
}

/// Takes the mean of `array` along `axis`, or of all of its elements: the
/// sum, divided by the length of the axis or by the number of all
/// elements.
pub fn reduce_mean<T: Numeric>(array: &Array<T>, axis: Option<usize>, keep_dims: bool) -> (r:
    Result<Array<T>, ShapeError>)
    requires
        array.wf(),
    ensures
        answers(r, array@.checked_mean(axis, keep_dims)),
{
    let mut sum = match reduce_sum(array, axis, keep_dims) {
        Ok(sum) => sum,
        Err(e) => {
            return Err(e);
        },
    };
    let count = if let Some(axis_val) = axis {
        array.shape_ref()[axis_val]
    } else {
        array.data_ref().len()
    };
    sum.div_assign_scalar(T::from_usize(count));
    Ok(sum)
}

/// The mean is the sum divided by the number of elements taken together:
/// the two arrays have one shape, and each element of the mean is the
/// element of the sum at its place, divided by that number.
pub proof fn lemma_mean_is_sum_over_count<T: Numeric>(
    array: ArrayValue<T>,
    axis: Option<usize>,
    keep_dims: bool,
    i: int,
)
    requires
        0 <= i < array.reduced(BinaryFn::Add, axis, keep_dims).data.len(),
    ensures
        array.mean(axis, keep_dims).shape == array.reduced(BinaryFn::Add, axis, keep_dims).shape,
        array.mean(axis, keep_dims).data.len() == array.reduced(
            BinaryFn::Add,
            axis,
            keep_dims,
        ).data.len(),
        array.mean(axis, keep_dims).data[i] == array.reduced(
            BinaryFn::Add,
            axis,
            keep_dims,
        ).data[i].div_spec(T::from_usize_spec(reduce_count(array, axis) as usize)),
{
}

} // verus!
