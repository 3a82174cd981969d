//! Laws that relate the array operations to each other and to indexing.

use crate::linalg::array::ArrayValue;
use crate::linalg::reduce::lemma_reduce_shape;
use crate::linalg::matmul::{dot, matmul_2d};
use crate::linalg::numeric::{BinaryFn, Numeric};
use crate::linalg::shape::{
    broadcast_ravel, broadcast_shape, broadcast_source, index_in_range,
    lemma_broadcast_shape_positive, lemma_product_pair, lemma_ravel_bound, lemma_unravel_ravel,
    ravel, shape_positive, shape_product, unravel,
};
use crate::linalg::utils::{
    lemma_div_mod_unique, lemma_matrix_position, matmul_shape, reduce_axis_valid,
    transpose_matrix,
};
use vstd::prelude::*;

verus! {

/// The element-wise combination of two arrays has the broadcast of their
/// shapes, and its element at an index is `f` of the elements of the two
/// arrays at that index, where a coordinate along a dimension of length
/// one counts as zero and the coordinates that an array has no dimension
/// for are left out.
pub proof fn lemma_zip_at_index<T: Numeric>(
    a: ArrayValue<T>,
    b: ArrayValue<T>,
    f: BinaryFn,
    index: Seq<usize>,
)
    requires
        index_in_range(index, broadcast_shape(a.shape, b.shape)),
    ensures
        a.zip(b, f).shape == broadcast_shape(a.shape, b.shape),
        a.zip(b, f).at(index) == f.apply_spec(
            a.data[broadcast_ravel(index, a.shape) as int],
            b.data[broadcast_ravel(index, b.shape) as int],
        ),
{
    let shape = broadcast_shape(a.shape, b.shape);
    lemma_ravel_bound(index, shape);
    lemma_unravel_ravel(index, shape);
}

/// The product of an element of `a` and an element of `b` does not depend
/// on the order of the two.
pub open spec fn products_commute<T: Numeric>(a: Seq<T>, b: Seq<T>) -> bool {
    forall|i: int, j: int|
        0 <= i < a.len() && 0 <= j < b.len() ==> (#[trigger] a[i]).mul_spec(#[trigger] b[j])
            == b[j].mul_spec(a[i])
}

/// Two inner products are equal where their factors are, pair by pair, the
/// same two elements in exchanged order, and the product of the two does
/// not depend on their order.
pub proof fn lemma_dot_exchanged<T: Numeric>(
    x: Seq<T>,
    x_start: int,
    y: Seq<T>,
    y_start: int,
    y_step: int,
    u: Seq<T>,
    u_start: int,
    v: Seq<T>,
    v_start: int,
    v_step: int,
    len: nat,
)
    requires
        forall|t: int|
            0 <= t < len ==> (#[trigger] x[x_start + t]).mul_spec(y[y_start + t * y_step])
                == y[y_start + t * y_step].mul_spec(x[x_start + t]),
        forall|t: int| 0 <= t < len ==> x[x_start + t] == #[trigger] v[v_start + t * v_step],
        forall|t: int| 0 <= t < len ==> #[trigger] y[y_start + t * y_step] == u[u_start + t],
    ensures
        dot(x, x_start, y, y_start, y_step, len) == dot(u, u_start, v, v_start, v_step, len),
    decreases len,
{
    if len > 0 {
        lemma_dot_exchanged(
            x,
            x_start,
            y,
            y_start,
            y_step,
            u,
            u_start,
            v,
            v_start,
            v_step,
            (len - 1) as nat,
        );
        let t = len - 1;
        assert(x[x_start + t] == v[v_start + t * v_step]);
        assert(y[y_start + t * y_step] == u[u_start + t]);
    }
}

/// The transpose of a product of two matrices is the product of their
/// transposes in exchanged order, where the product of an element of the
/// one and an element of the other does not depend on their order.
pub proof fn lemma_transpose_of_product<T: Numeric>(a: ArrayValue<T>, b: ArrayValue<T>)
    requires
        a.wf(),
        b.wf(),
        a.shape.len() == 2,
        b.shape.len() == 2,
        a.cols() == b.rows(),
        products_commute(a.data, b.data),
    ensures
        a.matmul(b).transposed() == b.transposed().matmul(a.transposed()),
{
    let m = a.rows() as int;
    let k = a.cols() as int;
    let n = b.cols() as int;
    let empty = Seq::<usize>::empty();
    let ab = a.matmul(b);
    let bt = b.transposed();
    let at = a.transposed();
    let left = ab.transposed();
    let right = bt.matmul(at);
    assert(a.shape =~= seq![a.shape[0], a.shape[1]]);
    assert(b.shape =~= seq![b.shape[0], b.shape[1]]);
    lemma_product_pair(a.shape[0], a.shape[1]);
    lemma_product_pair(b.shape[0], b.shape[1]);
    lemma_product_pair(a.shape[0], b.shape[1]);
    lemma_product_pair(b.shape[1], a.shape[0]);
    assert(a.batch() =~= empty);
    assert(b.batch() =~= empty);
    assert(bt.batch() =~= empty);
    assert(at.batch() =~= empty);
    assert(broadcast_shape(empty, empty) =~= empty);
    assert(ab.shape =~= seq![a.shape[0], b.shape[1]]);
    assert(left.shape =~= seq![b.shape[1], a.shape[0]]);
    assert(bt.shape =~= seq![b.shape[1], b.shape[0]]);
    assert(at.shape =~= seq![a.shape[1], a.shape[0]]);
    assert(right.shape =~= seq![b.shape[1], a.shape[0]]);
    assert(unravel(0, empty) =~= empty);
    assert(broadcast_source(empty, empty, 0) == 0);
    assert(m * n == n * m && k * n == n * k && m * k == k * m) by (nonlinear_arith);
    assert((m * k) * 0 == 0 && (k * n) * 0 == 0 && (n * k) * 0 == 0 && (k * m) * 0 == 0)
        by (nonlinear_arith);
    assert(a.data.len() == m * k);
    assert(b.data.len() == k * n);
    assert(a.matrix(empty, 0) =~= a.data);
    assert(b.matrix(empty, 0) =~= b.data);
    assert(bt.data.len() == n * k);
    assert(at.data.len() == k * m);
    assert(bt.matrix(empty, 0) =~= bt.data);
    assert(at.matrix(empty, 0) =~= at.data);
    assert(ab.data.len() == m * n);
    assert(ab.data.subrange(0, m * n) =~= ab.data);
    assert(a.data.subrange(0, m * k) =~= a.data);
    assert(b.data.subrange(0, k * n) =~= b.data);
    assert(left.data.len() == right.data.len());
    assert forall|p: int| 0 <= p < left.data.len() implies left.data[p] == right.data[p] by {
        lemma_div_mod_unique(p, m);
        crate::linalg::utils::lemma_div_below(p, m, n);
        let i = p % m;
        let j = p / m;
        assert(p / (m * n) == 0 && p % (m * n) == p && p / (n * m) == 0 && p % (n * m) == p)
            by (nonlinear_arith)
            requires
                0 <= p < m * n,
                m * n == n * m,
        ;
        let q = i * n + j;
        lemma_matrix_position(i, j, m, n);
        assert(q / (m * n) == 0 && q % (m * n) == q) by (nonlinear_arith)
            requires
                0 <= q < m * n,
        ;
        assert(left.data[p] == ab.data[q]);
        assert(ab.data[q] == dot(a.data, i * k, b.data, j, n, k as nat));
        assert(right.data[p] == dot(bt.data, j * k, at.data, i, m, k as nat));
        assert forall|t: int| 0 <= t < k implies a.data[i * k + t] == #[trigger] at.data[i + t
            * m] by {
            lemma_matrix_position(t, i, k, m);
            assert(i + t * m == t * m + i);
            assert((t * m + i) / (k * m) == 0 && (t * m + i) % (k * m) == t * m + i)
                by (nonlinear_arith)
                requires
                    0 <= t * m + i < k * m,
            ;
            lemma_matrix_position(i, t, m, k);
        }
        assert forall|t: int| 0 <= t < k implies #[trigger] b.data[j + t * n] == bt.data[j * k
            + t] by {
            lemma_matrix_position(j, t, n, k);
            assert((j * k + t) / (n * k) == 0 && (j * k + t) % (n * k) == j * k + t)
                by (nonlinear_arith)
                requires
                    0 <= j * k + t < n * k,
            ;
            assert((j * k + t) % k == t && (j * k + t) / k == j);
            lemma_matrix_position(t, j, k, n);
            assert(j + t * n == t * n + j);
        }
        assert forall|t: int| 0 <= t < k implies (#[trigger] a.data[i * k + t]).mul_spec(
            b.data[j + t * n],
        ) == b.data[j + t * n].mul_spec(a.data[i * k + t]) by {
            lemma_matrix_position(i, t, m, k);
            lemma_matrix_position(t, j, k, n);
            assert(j + t * n == t * n + j);
            assert(0 <= i * k + t < a.data.len());
            assert(0 <= j + t * n < b.data.len());
            let x = a.data[i * k + t];
            let y = b.data[j + t * n];
            assert(x.mul_spec(y) == y.mul_spec(x));
        }
        lemma_dot_exchanged(
            a.data,
            i * k,
            b.data,
            j,
            n,
            bt.data,
            j * k,
            at.data,
            i,
            m,
            k as nat,
        );
    }
    assert(left.data =~= right.data);
}

/// The element-wise combination of two well-formed arrays, where it is
/// defined, is well formed.
pub proof fn lemma_zip_wf<T: Numeric>(a: ArrayValue<T>, b: ArrayValue<T>, f: BinaryFn)
    requires
        a.wf(),
        b.wf(),
        a.checked_zip(b, f) is Ok,
    ensures
        a.zip(b, f).wf(),
{
    lemma_broadcast_shape_positive(a.shape, b.shape);
}

/// The matrix product of two well-formed arrays, where it is defined, is
/// well formed.
pub proof fn lemma_matmul_wf<T: Numeric>(a: ArrayValue<T>, b: ArrayValue<T>)
    requires
        a.wf(),
        b.wf(),
        a.checked_matmul(b) is Ok,
    ensures
        a.matmul(b).wf(),
{
    lemma_broadcast_shape_positive(a.batch(), b.batch());
}

/// A reduction of a well-formed array along an axis that it has, or over
/// all of its elements, is well formed; and so is the mean.
pub proof fn lemma_reduced_wf<T: Numeric>(
    a: ArrayValue<T>,
    f: BinaryFn,
    axis: Option<usize>,
    keep_dims: bool,
)
    requires
        a.wf(),
        reduce_axis_valid(a.shape, axis),
    ensures
        a.reduced(f, axis, keep_dims).wf(),
        a.mean(axis, keep_dims).wf(),
        a.mean(axis, keep_dims).shape == a.reduced(f, axis, keep_dims).shape,
{
    lemma_reduce_shape(a.shape, axis, keep_dims);
    match axis {
        Some(k) => {
            let outer = shape_product(a.shape.take(k as int));
            let inner = shape_product(a.shape.skip(k + 1));
            let d = a.shape[k as int] as nat;
            assert(outer * inner <= outer * (d * inner)) by (nonlinear_arith)
                requires
                    d >= 1,
            ;
        },
        None => {},
    }
}

} // verus!
