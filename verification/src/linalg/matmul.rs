//! The product of two matrices held in row-major buffers.

use crate::linalg::error::ShapeError;
use crate::linalg::numeric::Numeric;
use crate::linalg::utils::{lemma_div_mod_unique, lemma_matrix_position};
use vstd::prelude::*;

verus! {

/// The sum, begun at zero and taken in the order of `k`, of the first `len`
/// products `x[x_start + k] * y[y_start + k * y_step]`: the inner product
/// of a row of one matrix with a column of another.
pub open spec fn dot<T: Numeric>(
    x: Seq<T>,
    x_start: int,
    y: Seq<T>,
    y_start: int,
    y_step: int,
    len: nat,
) -> T
    decreases len,
{
    if len == 0 {
        T::zero_spec()
    } else {
        dot(x, x_start, y, y_start, y_step, (len - 1) as nat).add_spec(
            x[x_start + len - 1].mul_spec(y[y_start + (len - 1) * y_step]),
        )
    }
}

/// The product of the matrix `a`, of `n_rows1` rows and `n_cols1` columns,
/// with the matrix `b`, of `n_cols1` rows and `n_cols2` columns.
pub open spec fn matmul_2d<T: Numeric>(
    a: Seq<T>,
    n_rows1: nat,
    n_cols1: nat,
    b: Seq<T>,
    n_cols2: nat,
) -> Seq<T> {
    Seq::new(
        n_rows1 * n_cols2,
        |p: int|
            dot(
                a,
                (p / (n_cols2 as int)) * (n_cols1 as int),
                b,
                p % (n_cols2 as int),
                n_cols2 as int,
                n_cols1,
            ),
    )
}

/// The buffers and dimensions are those of a matrix product: the inner
/// dimensions agree and each buffer has the length of its matrix.
pub open spec fn matrix_product_shapes_spec(
    len1: nat,
    n_rows1: nat,
    n_cols1: nat,
    len2: nat,
    n_rows2: nat,
    n_cols2: nat,
    output_len: nat,
) -> Result<(), ShapeError> {
    if n_cols1 != n_rows2 {
        Err(ShapeError::MatMul)
    } else if output_len != n_cols2 * n_rows1 || len1 != n_rows1 * n_cols1 || len2 != n_rows2
        * n_cols2 {
        Err(ShapeError::LengthMismatch)
    } else {
        Ok(())
    }
}

/// Multiplies the matrix in `data1` with the matrix in `data2` into
/// `output_buffer`.
pub fn matmul_2d_matrix_slices<T: Numeric>(
    data1: &[T],
    n_rows1: usize,
    n_cols1: usize,
    data2: &[T],
    n_rows2: usize,
    n_cols2: usize,
    output_buffer: &mut [T],
) -> (r: Result<(), ShapeError>)
    ensures
        r == matrix_product_shapes_spec(
            data1@.len(),
            n_rows1 as nat,
            n_cols1 as nat,
            data2@.len(),
            n_rows2 as nat,
            n_cols2 as nat,
            old(output_buffer)@.len(),
        ),
        r is Ok ==> final(output_buffer)@ == matmul_2d(
            data1@,
            n_rows1 as nat,
            n_cols1 as nat,
            data2@,
            n_cols2 as nat,
        ),
        r is Err ==> final(output_buffer)@ == old(output_buffer)@,
{
    match check_matrix_product_shapes(
        data1,
        n_rows1,
        n_cols1,
        data2,
        n_rows2,
        n_cols2,
        output_buffer,
    ) {
        Ok(_) => {},
        Err(e) => {
            return Err(e);
        },
    }
    general_matmul_2d_matrix_slices(data1, n_rows1, n_cols1, data2, n_cols2, output_buffer);
    Ok(())
}

/// Multiplies two matrices by accumulating, for each element of the
/// result, the products along the inner dimension.
pub fn general_matmul_2d_matrix_slices<T: Numeric>(
    data1: &[T],
    n_rows1: usize,
    n_cols1: usize,
    data2: &[T],
    n_cols2: usize,
    output_buffer: &mut [T],
)
    requires
        data1@.len() == n_rows1 * n_cols1,
        data2@.len() == n_cols1 * n_cols2,
        old(output_buffer)@.len() == n_rows1 * n_cols2,
    ensures
        final(output_buffer)@ == matmul_2d(
            data1@,
            n_rows1 as nat,
            n_cols1 as nat,
            data2@,
            n_cols2 as nat,
        ),
{
    let ghost expected = matmul_2d(data1@, n_rows1 as nat, n_cols1 as nat, data2@, n_cols2 as nat);
    let total = output_buffer.len();
    let len1 = data1.len();
    let len2 = data2.len();
    let mut i: usize = 0;
    while i < n_rows1
        invariant
            i <= n_rows1,
            len1 == data1@.len(),
            len2 == data2@.len(),
            data1@.len() == n_rows1 * n_cols1,
            data2@.len() == n_cols1 * n_cols2,
            output_buffer@.len() == n_rows1 * n_cols2,
            total == n_rows1 * n_cols2,
            expected == matmul_2d(data1@, n_rows1 as nat, n_cols1 as nat, data2@, n_cols2 as nat),
            forall|p: int| 0 <= p < i * n_cols2 ==> output_buffer@[p] == expected[p],
        decreases n_rows1 - i,
    {
        proof {
            assert(i * n_cols2 + n_cols2 == (i + 1) * n_cols2 && (i + 1) * n_cols2 <= n_rows1
                * n_cols2) by (nonlinear_arith)
                requires
                    i < n_rows1,
            ;
            assert(i * n_cols1 + n_cols1 == (i + 1) * n_cols1 && (i + 1) * n_cols1 <= n_rows1
                * n_cols1) by (nonlinear_arith)
                requires
                    i < n_rows1,
            ;
        }
        let row = i * n_cols1;
        let out_row = i * n_cols2;
        let mut j: usize = 0;
        while j < n_cols2
            invariant
                i < n_rows1,
                j <= n_cols2,
                row == i * n_cols1,
                out_row == i * n_cols2,
                row + n_cols1 <= data1@.len(),
                out_row + n_cols2 <= total,
                len1 == data1@.len(),
                len2 == data2@.len(),
                data1@.len() == n_rows1 * n_cols1,
                data2@.len() == n_cols1 * n_cols2,
                output_buffer@.len() == total,
                total == n_rows1 * n_cols2,
                expected == matmul_2d(
                    data1@,
                    n_rows1 as nat,
                    n_cols1 as nat,
                    data2@,
                    n_cols2 as nat,
                ),
                forall|p: int| 0 <= p < out_row + j ==> output_buffer@[p] == expected[p],
            decreases n_cols2 - j,
        {
            let mut sum = T::zero();
            let mut k: usize = 0;
            while k < n_cols1
                invariant
                    k <= n_cols1,
                    j < n_cols2,
                    row + n_cols1 <= data1@.len(),
                    len1 == data1@.len(),
                    len2 == data2@.len(),
                    data2@.len() == n_cols1 * n_cols2,
                    sum == dot(data1@, row as int, data2@, j as int, n_cols2 as int, k as nat),
                decreases n_cols1 - k,
            {
                proof {
                    lemma_matrix_position(k as int, j as int, n_cols1 as int, n_cols2 as int);
                }
                sum = sum.add(data1[row + k].mul(data2[k * n_cols2 + j]));
                k += 1;
            }
            proof {
                lemma_matrix_position(i as int, j as int, n_rows1 as int, n_cols2 as int);
            }
            output_buffer[out_row + j] = sum;
            j += 1;
        }
        i += 1;
    }
}

/// Checks that the dimensions of two matrices fit a product and that each
/// buffer has the length of its matrix.
pub fn check_matrix_product_shapes<T>(
    data1: &[T],
    n_rows1: usize,
    n_cols1: usize,
    data2: &[T],
    n_rows2: usize,
    n_cols2: usize,
    output_buffer: &[T],
) -> (r: Result<(), ShapeError>)
    ensures
        r == matrix_product_shapes_spec(
            data1@.len(),
            n_rows1 as nat,
            n_cols1 as nat,
            data2@.len(),
            n_rows2 as nat,
            n_cols2 as nat,
            output_buffer@.len(),
        ),
{
    let len1 = data1.len();
    let len2 = data2.len();
    let output_len = output_buffer.len();
    if n_cols1 != n_rows2 {
        return Err(ShapeError::MatMul);
    }
    match n_cols2.checked_mul(n_rows1) {
        Some(expected) => {
            if output_len != expected {
                return Err(ShapeError::LengthMismatch);
            }
        },
        None => {
            return Err(ShapeError::LengthMismatch);
        },
    }
    match n_rows1.checked_mul(n_cols1) {
        Some(expected) => {
            if len1 != expected {
                return Err(ShapeError::LengthMismatch);
            }
        },
        None => {
            return Err(ShapeError::LengthMismatch);
        },
    }
    match n_rows2.checked_mul(n_cols2) {
        Some(expected) => {
            if len2 != expected {
                return Err(ShapeError::LengthMismatch);
            }
        },
        None => {
            return Err(ShapeError::LengthMismatch);
        },
    }
    Ok(())
}

/// The part of `buffer` that begins at `start` and has `len` elements, for
/// writing.
pub fn chunk_mut<T>(buffer: &mut [T], start: usize, len: usize) -> (chunk: &mut [T])
    requires
        start + len <= old(buffer)@.len(),
    ensures
        chunk@ == old(buffer)@.subrange(start as int, start + len),
        final(buffer)@ == old(buffer)@.subrange(0, start as int) + final(chunk)@ + old(
            buffer,
        )@.subrange(start + len, old(buffer)@.len() as int),
{
    let (_, rest) = buffer.split_at_mut(start);
    let (chunk, _) = rest.split_at_mut(len);
    chunk
}

} // verus!
