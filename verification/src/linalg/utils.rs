//! Shape checks and shape computations shared by the array operations, the
//! transposition of one matrix, and approximate comparison.

use crate::linalg::array::{Array, ArrayValue};
use crate::linalg::error::ShapeError;
use crate::linalg::numeric::Numeric;
use crate::linalg::shape::{
    broadcast_compatible, broadcast_dim, broadcast_shape, dims_compatible, index_in_range,
    lemma_product_prefix_le, lemma_ravel_bound, max_len, ones_shape, ravel, shape_positive,
    shape_product,
};
use vstd::prelude::*;
use vstd::slice::{slice_subrange, slice_to_vec};

verus! {

/// The inputs on which a matrix product is defined: both shapes have at
/// least two dimensions, the leading ones can be broadcast, and the columns
/// of the first matrix are as many as the rows of the second.
pub open spec fn matmul_compatible(s1: Seq<usize>, s2: Seq<usize>) -> bool {
    &&& s1.len() >= 2
    &&& s2.len() >= 2
    &&& broadcast_compatible(s1.take(s1.len() - 2), s2.take(s2.len() - 2))
    &&& s1[s1.len() - 1] == s2[s2.len() - 2]
}

/// The shape of a matrix product: the broadcast of the leading dimensions,
/// then the rows of the first matrix and the columns of the second.
pub open spec fn matmul_shape(s1: Seq<usize>, s2: Seq<usize>) -> Seq<usize> {
    broadcast_shape(s1.take(s1.len() - 2), s2.take(s2.len() - 2)).push(s1[s1.len() - 2]).push(
        s2[s2.len() - 1],
    )
}

/// A reduction along `axis` is defined on `shape`.
pub open spec fn reduce_axis_valid(shape: Seq<usize>, axis: Option<usize>) -> bool {
    match axis {
        Some(a) => a < shape.len(),
        None => true,
    }
}

/// The shape left by a reduction: the reduced dimension becomes one or
/// goes; with no axis, a single element remains, under as many dimensions
/// as before if they are kept.
pub open spec fn reduce_shape(shape: Seq<usize>, axis: Option<usize>, keep_dims: bool) -> Seq<
    usize,
> {
    match axis {
        Some(a) => if keep_dims {
            shape.update(a as int, 1usize)
        } else {
            shape.remove(a as int)
        },
        None => if keep_dims {
            ones_shape(shape.len())
        } else {
            seq![1usize]
        },
    }
}

/// The transpose of a row-major matrix of `n_rows` rows and `n_cols`
/// columns: element `(j, i)` of the result is element `(i, j)` of `data`.
pub open spec fn transpose_matrix<T>(data: Seq<T>, n_rows: nat, n_cols: nat) -> Seq<T> {
    Seq::new(
        n_rows * n_cols,
        |p: int| data[(p % (n_rows as int)) * (n_cols as int) + p / (n_rows as int)],
    )
}

/// A vector of `n` copies of `value`.
pub fn filled<T: Copy>(value: T, n: usize) -> (v: Vec<T>)
    ensures
        v@ == Seq::new(n as nat, |i: int| value),
{
    let mut v: Vec<T> = Vec::new();
    let mut i: usize = 0;
    while i < n
        invariant
            i <= n,
            v@ =~= Seq::new(i as nat, |k: int| value),
        decreases n - i,
    {
        v.push(value);
        i += 1;
    }
    v
}

/// Checks that no dimension of `shape` is zero.
pub fn check_shape_positive(shape: &[usize]) -> (r: Result<(), ShapeError>)
    ensures
        r is Ok <==> shape_positive(shape@),
        r is Err ==> r == Err::<(), ShapeError>(ShapeError::ZeroDimension),
{
    let mut i: usize = 0;
    while i < shape.len()
        invariant
            i <= shape@.len(),
            forall|k: int| 0 <= k < i ==> shape@[k] > 0,
        decreases shape@.len() - i,
    {
        if shape[i] == 0 {
            return Err(ShapeError::ZeroDimension);
        }
        i += 1;
    }
    Ok(())
}

/// Computes the number of elements of an array of shape `shape`, whose
/// dimensions are positive.
pub fn element_count(shape: &[usize]) -> (r: Result<usize, ShapeError>)
    requires
        shape_positive(shape@),
    ensures
        match r {
            Ok(n) => n == shape_product(shape@),
            Err(e) => e == ShapeError::TooLarge && shape_product(shape@) > usize::MAX,
        },
{
    let mut count: usize = 1;
    let mut i: usize = 0;
    while i < shape.len()
        invariant
            i <= shape@.len(),
            shape_positive(shape@),
            count == shape_product(shape@.take(i as int)),
        decreases shape@.len() - i,
    {
        proof {
            assert(shape@.take(i + 1).drop_last() =~= shape@.take(i as int));
            lemma_product_prefix_le(shape@, i + 1);
        }
        match count.checked_mul(shape[i]) {
            Some(next) => {
                count = next;
            },
            None => {
                return Err(ShapeError::TooLarge);
            },
        }
        i += 1;
    }
    proof {
        assert(shape@.take(shape@.len() as int) =~= shape@);
    }
    Ok(count)
}

/// Computes the position, in a row-major buffer of shape `shape`, of the
/// element that an index addresses.
pub fn ravel_index(index: &[usize], shape: &[usize]) -> (r: usize)
    requires
        shape_positive(shape@),
        shape_product(shape@) <= usize::MAX,
        index_in_range(index@, shape@),
    ensures
        r == ravel(index@, shape@),
        r < shape_product(shape@),
{
    let n = shape.len();
    let mut idx: usize = 0;
    let mut i: usize = 0;
    proof {
        lemma_ravel_bound(index@, shape@);
    }
    while i < n
        invariant
            i <= n,
            n == shape@.len(),
            index_in_range(index@, shape@),
            idx == ravel(index@.take(i as int), shape@.take(i as int)),
            ravel(index@, shape@) < shape_product(shape@),
            shape_product(shape@) <= usize::MAX,
            shape_positive(shape@),
        decreases n - i,
    {
        proof {
            let ix = index@.take(i + 1);
            let sx = shape@.take(i + 1);
            assert(ix.drop_last() =~= index@.take(i as int));
            assert(sx.drop_last() =~= shape@.take(i as int));
            lemma_ravel_bound(ix, sx);
            lemma_product_prefix_le(shape@, i + 1);
        }
        idx = idx * shape[i] + index[i];
        i += 1;
    }
    proof {
        assert(index@.take(n as int) =~= index@);
        assert(shape@.take(n as int) =~= shape@);
    }
    idx
}

/// Checks that two shapes can be broadcast against each other.
pub fn check_shapes_broadcast(shape1: &[usize], shape2: &[usize]) -> (r: Result<(), ShapeError>)
    ensures
        r is Ok <==> broadcast_compatible(shape1@, shape2@),
        r is Err ==> r == Err::<(), ShapeError>(ShapeError::Broadcast),
{
    let shape1_len = shape1.len();
    let shape2_len = shape2.len();
    let smaller_len = if shape1_len > shape2_len {
        shape2_len
    } else {
        shape1_len
    };
    let mut i: usize = 0;
    while i < smaller_len
        invariant
            i <= smaller_len,
            shape1_len == shape1@.len(),
            shape2_len == shape2@.len(),
            smaller_len <= shape1_len,
            smaller_len <= shape2_len,
            forall|m: int|
                1 <= m <= i ==> dims_compatible(
                    #[trigger] shape1@[shape1_len - m],
                    shape2@[shape2_len - m],
                ),
        decreases smaller_len - i,
    {
        let d1 = shape1[shape1_len - 1 - i];
        let d2 = shape2[shape2_len - 1 - i];
        if d1 != d2 && d1 != 1 && d2 != 1 {
            assert(!dims_compatible(
                shape1@[shape1_len - (i + 1)],
                shape2@[shape2_len - (i + 1)],
            ));
            return Err(ShapeError::Broadcast);
        }
        i += 1;
    }
    Ok(())
}

/// Checks that two shapes are those of the operands of a matrix product.
pub fn check_shapes_broadcast_matmul(arr1_shape: &[usize], arr2_shape: &[usize]) -> (r: Result<
    (),
    ShapeError,
>)
    ensures
        r == check_matmul_spec(arr1_shape@, arr2_shape@),
        r is Ok <==> matmul_compatible(arr1_shape@, arr2_shape@),
{
    let arr1_shape_len = arr1_shape.len();
    let arr2_shape_len = arr2_shape.len();
    if arr1_shape_len < 2 || arr2_shape_len < 2 {
        return Err(ShapeError::MatMul);
    }
    let lead1 = slice_subrange(arr1_shape, 0, arr1_shape_len - 2);
    let lead2 = slice_subrange(arr2_shape, 0, arr2_shape_len - 2);
    match check_shapes_broadcast(lead1, lead2) {
        Ok(_) => {},
        Err(e) => {
            return Err(e);
        },
    }
    if arr1_shape[arr1_shape_len - 1] != arr2_shape[arr2_shape_len - 2] {
        return Err(ShapeError::MatMul);
    }
    Ok(())
}

/// Computes the shape of the element-wise combination of two arrays.
pub fn get_shape_after_broadcast(shape1: &[usize], shape2: &[usize]) -> (r: Result<
    Vec<usize>,
    ShapeError,
>)
    ensures
        match r {
            Ok(shape) => broadcast_compatible(shape1@, shape2@) && shape@ == broadcast_shape(
                shape1@,
                shape2@,
            ),
            Err(e) => e == ShapeError::Broadcast && !broadcast_compatible(shape1@, shape2@),
        },
{
    match check_shapes_broadcast(shape1, shape2) {
        Ok(_) => {},
        Err(e) => {
            return Err(e);
        },
    }
    let shape1_len = shape1.len();
    let shape2_len = shape2.len();
    let (smaller_shape, smaller_shape_len, bigger_shape, bigger_shape_len) = if shape1_len
        > shape2_len {
        (shape2, shape2_len, shape1, shape1_len)
    } else {
        (shape1, shape1_len, shape2, shape2_len)
    };
    let mut new_shape = slice_to_vec(bigger_shape);
    let shapes_lens_diff = bigger_shape_len - smaller_shape_len;
    let mut i: usize = 0;
    while i < smaller_shape_len
        invariant
            i <= smaller_shape_len,
            smaller_shape_len == smaller_shape@.len(),
            bigger_shape_len == bigger_shape@.len(),
            shapes_lens_diff == bigger_shape_len - smaller_shape_len,
            new_shape@.len() == bigger_shape_len,
            bigger_shape_len == max_len(shape1@.len(), shape2@.len()),
            shape1@.len() > shape2@.len() ==> smaller_shape@ == shape2@ && bigger_shape@
                == shape1@,
            shape1@.len() <= shape2@.len() ==> smaller_shape@ == shape1@ && bigger_shape@
                == shape2@,
            forall|m: int|
                0 <= m < shapes_lens_diff + i ==> new_shape@[m] == broadcast_dim(
                    shape1@,
                    shape2@,
                    m,
                ),
            forall|m: int|
                shapes_lens_diff + i <= m < bigger_shape_len ==> new_shape@[m] == bigger_shape@[m],
        decreases smaller_shape_len - i,
    {
        let a = smaller_shape[i];
        let b = bigger_shape[i + shapes_lens_diff];
        let dim = if a >= b {
            a
        } else {
            b
        };
        new_shape[i + shapes_lens_diff] = dim;
        i += 1;
    }
    Ok(new_shape)
}

/// Computes the shape of a matrix product.
pub fn get_shape_after_broadcast_matmul(shape1: &[usize], shape2: &[usize]) -> (r: Result<
    Vec<usize>,
    ShapeError,
>)
    ensures
        match r {
            Ok(shape) => matmul_compatible(shape1@, shape2@) && shape@ == matmul_shape(
                shape1@,
                shape2@,
            ),
            Err(e) => !matmul_compatible(shape1@, shape2@) && check_matmul_spec(shape1@, shape2@)
                == Err::<(), ShapeError>(e),
        },
{
    match check_shapes_broadcast_matmul(shape1, shape2) {
        Ok(_) => {},
        Err(e) => {
            return Err(e);
        },
    }
    let lead1 = slice_subrange(shape1, 0, shape1.len() - 2);
    let lead2 = slice_subrange(shape2, 0, shape2.len() - 2);
    match get_shape_after_broadcast(lead1, lead2) {
        Ok(shape) => {
            let mut new_shape = shape;
            new_shape.push(shape1[shape1.len() - 2]);
            new_shape.push(shape2[shape2.len() - 1]);
            Ok(new_shape)
        },
        Err(e) => Err(e),
    }
}

/// What the check of the operands of a matrix product answers: too few
/// dimensions and unequal inner dimensions are `MatMul`, leading
/// dimensions that cannot be broadcast are `Broadcast`.
pub open spec fn check_matmul_spec(s1: Seq<usize>, s2: Seq<usize>) -> Result<(), ShapeError> {
    if s1.len() < 2 || s2.len() < 2 {
        Err(ShapeError::MatMul)
    } else if !broadcast_compatible(s1.take(s1.len() - 2), s2.take(s2.len() - 2)) {
        Err(ShapeError::Broadcast)
    } else if s1[s1.len() - 1] != s2[s2.len() - 2] {
        Err(ShapeError::MatMul)
    } else {
        Ok(())
    }
}

/// Transposes the matrix in `data` into `output_buffer`.
pub fn transpose_2d_matrix_slices<T: Copy>(
    data: &[T],
    n_rows: usize,
    n_cols: usize,
    output_buffer: &mut [T],
) -> (r: Result<(), ShapeError>)
    ensures
        r is Ok <==> old(output_buffer)@.len() == n_rows * n_cols && data@.len() == n_rows
            * n_cols,
        r is Ok ==> final(output_buffer)@ == transpose_matrix(data@, n_rows as nat, n_cols as nat),
        r is Err ==> r == Err::<(), ShapeError>(ShapeError::LengthMismatch)
            && final(output_buffer)@ == old(output_buffer)@,
{
    let output_len = output_buffer.len();
    let data_len = data.len();
    let len = match n_rows.checked_mul(n_cols) {
        Some(len) => len,
        None => {
            return Err(ShapeError::LengthMismatch);
        },
    };
    if output_len != len || data_len != len {
        return Err(ShapeError::LengthMismatch);
    }
    let mut i: usize = 0;
    while i < n_rows
        invariant
            i <= n_rows,
            len == n_rows * n_cols,
            data@.len() == len,
            output_buffer@.len() == len,
            forall|p: int|
                0 <= p < len && p % (n_rows as int) < i ==> #[trigger] output_buffer@[p]
                    == data@[(p % (n_rows as int)) * (n_cols as int) + p / (n_rows as int)],
        decreases n_rows - i,
    {
        let mut j: usize = 0;
        while j < n_cols
            invariant
                i < n_rows,
                j <= n_cols,
                len == n_rows * n_cols,
                data@.len() == len,
                output_buffer@.len() == len,
                forall|p: int|
                    0 <= p < len && (p % (n_rows as int) < i || (p % (n_rows as int) == i && p / (
                    n_rows as int) < j)) ==> #[trigger] output_buffer@[p] == data@[(p % (
                    n_rows as int)) * (n_cols as int) + p / (n_rows as int)],
            decreases n_cols - j,
        {
            proof {
                lemma_matrix_position(j as int, i as int, n_cols as int, n_rows as int);
                lemma_matrix_position(i as int, j as int, n_rows as int, n_cols as int);
            }
            let ghost before = output_buffer@;
            let target = j * n_rows + i;
            output_buffer[target] = data[i * n_cols + j];
            proof {
                assert forall|p: int|
                    0 <= p < len && (p % (n_rows as int) < i || (p % (n_rows as int) == i && p / (
                    n_rows as int) < j + 1)) implies #[trigger] output_buffer@[p] == data@[(p % (
                    n_rows as int)) * (n_cols as int) + p / (n_rows as int)] by {
                    if p != target {
                        if p % (n_rows as int) == i && p / (n_rows as int) == j {
                            lemma_div_mod_unique(p, n_rows as int);
                        }
                    }
                }
            }
            j += 1;
        }
        proof {
            assert forall|p: int| 0 <= p < len && p % (n_rows as int) < i + 1 implies #[trigger]
                output_buffer@[p] == data@[(p % (n_rows as int)) * (n_cols as int) + p / (
            n_rows as int)] by {
                lemma_div_below(p, n_rows as int, n_cols as int);
            }
        }
        i += 1;
    }
    proof {
        assert forall|p: int| 0 <= p < len implies #[trigger] output_buffer@[p] == data@[(p % (
        n_rows as int)) * (n_cols as int) + p / (n_rows as int)] by {
            lemma_div_mod_unique(p, n_rows as int);
        }
    }
    Ok(())
}

/// In a row-major matrix of `rows` rows of `cols` elements, element
/// `(i, j)` stands at position `i * cols + j`, from which the row and the
/// column are recovered by division.
pub proof fn lemma_matrix_position(i: int, j: int, rows: int, cols: int)
    requires
        0 <= i < rows,
        0 <= j < cols,
    ensures
        0 <= i * cols + j < rows * cols,
        (i * cols + j) / cols == i,
        (i * cols + j) % cols == j,
{
    assert(0 <= i * cols + j < rows * cols && (i * cols + j) / cols == i && (i * cols + j) % cols
        == j) by (nonlinear_arith)
        requires
            0 <= i < rows,
            0 <= j < cols,
    ;
}

/// A number is its quotient times the divisor plus its remainder.
pub proof fn lemma_div_mod_unique(p: int, d: int)
    requires
        0 <= p,
        0 < d,
    ensures
        p == (p / d) * d + p % d,
        0 <= p % d < d,
        0 <= p / d,
{
    assert(p == (p / d) * d + p % d && 0 <= p % d < d && 0 <= p / d) by (nonlinear_arith)
        requires
            0 <= p,
            0 < d,
    ;
}

/// The quotient of a number below `d * n` by `d` is below `n`.
pub proof fn lemma_div_below(p: int, d: int, n: int)
    requires
        0 <= p < d * n,
        0 < d,
    ensures
        0 <= p / d < n,
{
    assert(0 <= p / d < n) by (nonlinear_arith)
        requires
            0 <= p < d * n,
            0 < d,
    ;
}

/// Checks that a reduction along `axis` is defined on `shape`.
pub fn check_reduce_axis(shape: &[usize], axis: Option<usize>) -> (r: Result<(), ShapeError>)
    ensures
        r is Ok <==> reduce_axis_valid(shape@, axis),
        r is Err ==> r == Err::<(), ShapeError>(ShapeError::Axis),
{
    if let Some(axis_val) = axis {
        if axis_val >= shape.len() {
            return Err(ShapeError::Axis);
        }
    }
    Ok(())
}

/// Computes the shape left by a reduction.
pub fn get_shape_after_reduce(shape: &[usize], axis: Option<usize>, keep_dims: bool) -> (r: Result<
    Vec<usize>,
    ShapeError,
>)
    ensures
        match r {
            Ok(new_shape) => reduce_axis_valid(shape@, axis) && new_shape@ == reduce_shape(
                shape@,
                axis,
                keep_dims,
            ),
            Err(e) => e == ShapeError::Axis && !reduce_axis_valid(shape@, axis),
        },
{
    match check_reduce_axis(shape, axis) {
        Ok(_) => {},
        Err(e) => {
            return Err(e);
        },
    }
    if let Some(axis_val) = axis {
        let mut new_shape = slice_to_vec(shape);
        if keep_dims {
            new_shape[axis_val] = 1;
        } else {
            new_shape.remove(axis_val);
        }
        Ok(new_shape)
    } else if keep_dims {
        let new_shape = filled(1usize, shape.len());
        Ok(new_shape)
    } else {
        let mut new_shape: Vec<usize> = Vec::new();
        new_shape.push(1);
        Ok(new_shape)
    }
}

/// Whether `a` and `b` are equal up to the relative error `epsilon`: equal
/// numbers are; near zero the difference of the magnitudes is held against
/// `epsilon` times the smallest positive normal number; elsewhere its
/// quotient by the sum of the magnitudes, capped at the largest finite
/// number, is held against `epsilon`.
pub open spec fn near_equal_spec<T: Numeric>(a: T, b: T, epsilon: T) -> bool {
    let abs_a = a.abs_spec();
    let abs_b = b.abs_spec();
    let diff = abs_a.sub_spec(abs_b).abs_spec();
    let sum = abs_a.add_spec(abs_b);
    if a.equals_spec(b) {
        true
    } else if a.equals_spec(T::zero_spec()) || b.equals_spec(T::zero_spec()) || sum.less_than_spec(
        T::min_positive_value_spec(),
    ) {
        diff.less_than_spec(epsilon.mul_spec(T::min_positive_value_spec()))
    } else {
        diff.div_spec(sum.min_spec(T::max_value_spec())).less_than_spec(epsilon)
    }
}

/// Whether two arrays are equal up to the relative error `epsilon`: they
/// have one shape, and their elements are equal up to that error, pair by
/// pair.
pub open spec fn arrays_near_equal_spec<T: Numeric>(
    a: ArrayValue<T>,
    b: ArrayValue<T>,
    epsilon: T,
) -> bool {
    &&& a.shape == b.shape
    &&& forall|i: int|
        0 <= i < a.data.len() && i < b.data.len() ==> near_equal_spec(
            #[trigger] a.data[i],
            b.data[i],
            epsilon,
        )
}

/// Whether two shapes are the same.
pub fn same_shape(a: &[usize], b: &[usize]) -> (r: bool)
    ensures
        r == (a@ == b@),
{
    if a.len() != b.len() {
        return false;
    }
    let mut i: usize = 0;
    while i < a.len()
        invariant
            i <= a@.len(),
            a@.len() == b@.len(),
            forall|k: int| 0 <= k < i ==> a@[k] == b@[k],
        decreases a@.len() - i,
    {
        if a[i] != b[i] {
            return false;
        }
        i += 1;
    }
    assert(a@ =~= b@);
    true
}

/// Checks if two arrays are equal up to a relative error.
pub fn are_arrays_near_equal<T: Numeric>(a: &Array<T>, b: &Array<T>, epsilon: T) -> (r: bool)
    ensures
        r == arrays_near_equal_spec(a@, b@, epsilon),
{
    if !same_shape(a.shape_ref().as_slice(), b.shape_ref().as_slice()) {
        return false;
    }
    let data1 = a.data_ref();
    let data2 = b.data_ref();
    let mut i: usize = 0;
    while i < data1.len() && i < data2.len()
        invariant
            data1@ == a@.data,
            data2@ == b@.data,
            a@.shape == b@.shape,
            forall|k: int|
                0 <= k < i && k < data1@.len() && k < data2@.len() ==> near_equal_spec(
                    #[trigger] data1@[k],
                    data2@[k],
                    epsilon,
                ),
        decreases data1@.len() - i,
    {
        if !are_numbers_near_equal(data1[i], data2[i], epsilon) {
            return false;
        }
        i += 1;
    }
    true
}

/// Checks if two numbers are equal up to a relative error.
pub fn are_numbers_near_equal<T: Numeric>(a: T, b: T, epsilon: T) -> (r: bool)
    ensures
        r == near_equal_spec(a, b, epsilon),
{
    let abs_a = a.abs();
    let abs_b = b.abs();
    let diff = abs_a.sub(abs_b).abs();
    let sum = abs_a.add(abs_b);
    if a.equals(b) {
        true
    } else if a.equals(T::zero()) || b.equals(T::zero()) || sum.less_than(T::min_positive_value()) {
        diff.less_than(epsilon.mul(T::min_positive_value()))
    } else {
        diff.div(sum.min(T::max_value())).less_than(epsilon)
    }
}

} // verus!
