//! The dense n-dimensional array and its operations.

use crate::linalg::array_view::{index_checked, ArrayView, Slice};
use crate::linalg::broadcast::{
    get_slice_len, leading_shape, lemma_block_source, lemma_block_start, BroadcastIterator,
};
use crate::linalg::error::ShapeError;
use crate::linalg::matmul::{chunk_mut, matmul_2d, matmul_2d_matrix_slices};
use crate::linalg::numeric::{BinaryFn, Numeric};
use crate::linalg::shape::{
    broadcast_compatible, broadcast_ravel, broadcast_shape, broadcast_source, dims_compatible,
    index_in_range, lemma_broadcast_shape_positive, lemma_product_pair, lemma_product_positive,
    lemma_product_push, lemma_product_split, lemma_ravel_bound, ravel, shape_positive,
    shape_product,
};
use crate::linalg::utils::{
    check_matmul_spec, check_shape_positive, element_count, filled, get_shape_after_broadcast,
    get_shape_after_broadcast_matmul, matmul_compatible, matmul_shape, ravel_index,
    transpose_2d_matrix_slices, transpose_matrix,
};
use vstd::pervasive::unreached;
use vstd::prelude::*;
use vstd::slice::slice_subrange;

verus! {

/// The mathematical value of an array: its shape and its elements in
/// row-major order.
pub struct ArrayValue<T> {
    pub shape: Seq<usize>,
    pub data: Seq<T>,
}

impl<T> ArrayValue<T> {
    /// Every dimension is positive, there is one element for each index,
    /// and the elements can be counted in `usize`.
    pub open spec fn wf(self) -> bool {
        &&& shape_positive(self.shape)
        &&& self.data.len() == shape_product(self.shape)
        &&& self.data.len() <= usize::MAX
    }

    /// The array of shape `shape` whose elements all are `value`.
    pub open spec fn full(value: T, shape: Seq<usize>) -> ArrayValue<T> {
        ArrayValue { shape, data: Seq::new(shape_product(shape), |i: int| value) }
    }

    /// The element that `index` addresses.
    pub open spec fn at(self, index: Seq<usize>) -> T {
        self.data[ravel(index, self.shape) as int]
    }
}

impl<T: Numeric> ArrayValue<T> {
    /// The element-wise combination of two arrays under broadcasting: the
    /// result has the broadcast of the two shapes, and each of its
    /// elements is `f` of the elements of `self` and of `other` that
    /// broadcasting puts at its index.
    pub open spec fn zip(self, other: ArrayValue<T>, f: BinaryFn) -> ArrayValue<T> {
        let shape = broadcast_shape(self.shape, other.shape);
        ArrayValue {
            shape,
            data: Seq::new(
                shape_product(shape),
                |i: int|
                    f.apply_spec(
                        self.data[broadcast_source(shape, self.shape, i as nat) as int],
                        other.data[broadcast_source(shape, other.shape, i as nat) as int],
                    ),
            ),
        }
    }

    /// The array whose elements are `f` of those of `self` and of the
    /// scalar `other`.
    pub open spec fn with_scalar(self, other: T, f: BinaryFn) -> ArrayValue<T> {
        ArrayValue {
            shape: self.shape,
            data: Seq::new(self.data.len(), |i: int| f.apply_spec(self.data[i], other)),
        }
    }

    /// The array whose elements are `g` of those of `self`.
    pub open spec fn mapped(self, g: spec_fn(T) -> T) -> ArrayValue<T> {
        ArrayValue { shape: self.shape, data: Seq::new(self.data.len(), |i: int| g(self.data[i])) }
    }

    /// The number of rows of the matrices of the array: its dimension
    /// before the last.
    pub open spec fn rows(self) -> nat {
        self.shape[self.shape.len() - 2] as nat
    }

    /// The number of columns of the matrices of the array: its last
    /// dimension.
    pub open spec fn cols(self) -> nat {
        self.shape[self.shape.len() - 1] as nat
    }

    /// The dimensions before the last two, which number the matrices of
    /// the array.
    pub open spec fn batch(self) -> Seq<usize> {
        self.shape.take(self.shape.len() - 2)
    }

    /// Matrix `n` of the array, where `n` is the position of an index of
    /// the shape `lead`, the batch dimensions broadcast.
    pub open spec fn matrix(self, lead: Seq<usize>, n: nat) -> Seq<T> {
        let block = self.rows() * self.cols();
        let start = block * broadcast_source(lead, self.batch(), n);
        self.data.subrange(start as int, (start + block) as int)
    }

    /// The batched matrix product: the batch dimensions are broadcast, and
    /// matrix `n` of the result is the product of the matrices of `self`
    /// and of `other` that broadcasting puts at `n`.
    pub open spec fn matmul(self, other: ArrayValue<T>) -> ArrayValue<T> {
        let lead = broadcast_shape(self.batch(), other.batch());
        let shape = matmul_shape(self.shape, other.shape);
        let block = self.rows() * other.cols();
        ArrayValue {
            shape,
            data: Seq::new(
                shape_product(shape),
                |p: int|
                    matmul_2d(
                        self.matrix(lead, (p / (block as int)) as nat),
                        self.rows(),
                        self.cols(),
                        other.matrix(lead, (p / (block as int)) as nat),
                        other.cols(),
                    )[p % (block as int)],
            ),
        }
    }

    /// What the matrix product answers: the product where the shapes fit
    /// and the result can be held, else the reason.
    pub open spec fn checked_matmul(self, other: ArrayValue<T>) -> Result<
        ArrayValue<T>,
        ShapeError,
    > {
        match check_matmul_spec(self.shape, other.shape) {
            Err(e) => Err(e),
            Ok(_) => if shape_product(matmul_shape(self.shape, other.shape)) > usize::MAX {
                Err(ShapeError::TooLarge)
            } else {
                Ok(self.matmul(other))
            },
        }
    }

    /// The shape with its last two dimensions exchanged.
    pub open spec fn transposed_shape(self) -> Seq<usize> {
        let n = self.shape.len() as int;
        self.shape.update(n - 2, self.shape[n - 1]).update(n - 1, self.shape[n - 2])
    }

    /// The array with each of its matrices transposed.
    pub open spec fn transposed(self) -> ArrayValue<T> {
        let block = self.rows() * self.cols();
        ArrayValue {
            shape: self.transposed_shape(),
            data: Seq::new(
                self.data.len(),
                |p: int|
                    transpose_matrix(
                        self.data.subrange(
                            (p / (block as int)) * block,
                            (p / (block as int)) * block + block,
                        ),
                        self.rows(),
                        self.cols(),
                    )[p % (block as int)],
            ),
        }
    }

    /// What transposition answers: the transposed array where there are at
    /// least two dimensions.
    pub open spec fn checked_transposed(self) -> Result<ArrayValue<T>, ShapeError> {
        if self.shape.len() < 2 {
            Err(ShapeError::Axis)
        } else {
            Ok(self.transposed())
        }
    }

    /// What the element-wise combination of two arrays answers: the
    /// combination where the shapes can be broadcast and the result can be
    /// held, else the reason.
    pub open spec fn checked_zip(self, other: ArrayValue<T>, f: BinaryFn) -> Result<
        ArrayValue<T>,
        ShapeError,
    > {
        if !broadcast_compatible(self.shape, other.shape) {
            Err(ShapeError::Broadcast)
        } else if shape_product(broadcast_shape(self.shape, other.shape)) > usize::MAX {
            Err(ShapeError::TooLarge)
        } else {
            Ok(self.zip(other, f))
        }
    }
}

/// What an operation that answers an array or a reason says of its result:
/// an array answered is well formed and has the value `expected` names; a
/// reason answered is the one `expected` names.
pub open spec fn answers<T: Numeric>(
    r: Result<Array<T>, ShapeError>,
    expected: Result<ArrayValue<T>, ShapeError>,
) -> bool {
    match r {
        Ok(a) => a.wf() && expected == Ok::<ArrayValue<T>, ShapeError>(a@),
        Err(e) => expected == Err::<ArrayValue<T>, ShapeError>(e),
    }
}

/// What an operation that answers an array, nothing, or a reason says of
/// its result, in the manner of `answers`.
pub open spec fn answers_optional<T: Numeric>(
    r: Result<Option<Array<T>>, ShapeError>,
    expected: Result<Option<ArrayValue<T>>, ShapeError>,
) -> bool {
    match r {
        Ok(Some(a)) => a.wf() && expected == Ok::<Option<ArrayValue<T>>, ShapeError>(Some(a@)),
        Ok(None) => expected == Ok::<Option<ArrayValue<T>>, ShapeError>(None),
        Err(e) => expected == Err::<Option<ArrayValue<T>>, ShapeError>(e),
    }
}

/// N-dimensional array: a shape and, in row-major order, one element for
/// each index that the shape admits.
#[derive(Debug, PartialEq)]
pub struct Array<T: Numeric> {
    shape: Vec<usize>,
    data: Vec<T>,
}

impl<T: Numeric> View for Array<T> {
    type V = ArrayValue<T>;

    closed spec fn view(&self) -> ArrayValue<T> {
        ArrayValue { shape: self.shape@, data: self.data@ }
    }
}

impl<T: Numeric> Clone for Array<T> {
    fn clone(&self) -> (r: Self)
        ensures
            r@ == self@,
    {
        let shape = copy_of(&self.shape);
        let data = copy_of(&self.data);
        Array { shape, data }
    }
}

/// A copy of a vector of plain values.
pub fn copy_of<T: Copy>(v: &Vec<T>) -> (r: Vec<T>)
    ensures
        r@ == v@,
{
    let mut r: Vec<T> = Vec::new();
    let mut i: usize = 0;
    while i < v.len()
        invariant
            i <= v@.len(),
            r@ =~= v@.take(i as int),
        decreases v@.len() - i,
    {
        r.push(v[i]);
        i += 1;
    }
    r
}

impl<T: Numeric> Array<T> {
    /// The invariant of every array: its value is well formed.
    pub open spec fn wf(&self) -> bool {
        self@.wf()
    }

    /// Builds an array from a shape and the elements that fill it.
    pub(crate) fn from_parts(shape: Vec<usize>, data: Vec<T>) -> (r: Array<T>)
        requires
            shape_positive(shape@),
            data@.len() == shape_product(shape@),
        ensures
            r.wf(),
            r@.shape == shape@,
            r@.data == data@,
    {
        assert(data@.len() == data.len());
        Array { shape, data }
    }

    /// The dimensions.
    pub(crate) fn shape_ref(&self) -> (r: &Vec<usize>)
        ensures
            r@ == self@.shape,
    {
        &self.shape
    }

    /// The elements in row-major order.
    pub(crate) fn data_ref(&self) -> (r: &Vec<T>)
        ensures
            r@ == self@.data,
    {
        &self.data
    }

    /// Creates an array of shape `shape` with every element equal to
    /// `init_value`.
    pub fn new(init_value: T, shape: Vec<usize>) -> (r: Result<Array<T>, ShapeError>)
        ensures
            match r {
                Ok(a) => a.wf() && a@ == ArrayValue::full(init_value, shape@) && shape_positive(
                    shape@,
                ),
                Err(e) => if !shape_positive(shape@) {
                    e == ShapeError::ZeroDimension
                } else {
                    e == ShapeError::TooLarge && shape_product(shape@) > usize::MAX
                },
            },
    {
        match check_shape_positive(shape.as_slice()) {
            Ok(_) => {},
            Err(e) => {
                return Err(e);
            },
        }
        let size = match element_count(shape.as_slice()) {
            Ok(size) => size,
            Err(e) => {
                return Err(e);
            },
        };
        let data = filled(init_value, size);
        Ok(Array { shape, data })
    }

    /// Creates an array of shape `shape` from its elements in row-major
    /// order.
    pub fn from_vec(data: Vec<T>, shape: Vec<usize>) -> (r: Result<Array<T>, ShapeError>)
        ensures
            match r {
                Ok(a) => a.wf() && a@.shape == shape@ && a@.data == data@,
                Err(e) => if !shape_positive(shape@) {
                    e == ShapeError::ZeroDimension
                } else {
                    e == ShapeError::LengthMismatch && data@.len() != shape_product(shape@)
                },
            },
            r is Ok <==> shape_positive(shape@) && data@.len() == shape_product(shape@),
    {
        match check_shape_positive(shape.as_slice()) {
            Ok(_) => {},
            Err(e) => {
                return Err(e);
            },
        }
        let len = data.len();
        match element_count(shape.as_slice()) {
            Ok(size) => {
                if len != size {
                    return Err(ShapeError::LengthMismatch);
                }
            },
            Err(_) => {
                return Err(ShapeError::LengthMismatch);
            },
        }
        Ok(Array { data, shape })
    }

    /// Creates an array of the shape of `self` with every element equal to
    /// `value`.
    pub fn full_like(&self, value: T) -> (r: Array<T>)
        requires
            self.wf(),
        ensures
            r.wf(),
            r@ == ArrayValue::full(value, self@.shape),
    {
        let shape = copy_of(&self.shape);
        let data = filled(value, self.data.len());
        Array { shape, data }
    }

    /// The dimensions of the array.
    pub fn get_shape(&self) -> (r: Vec<usize>)
        ensures
            r@ == self@.shape,
    {
        copy_of(&self.shape)
    }

    /// The elements of the array in row-major order.
    pub fn to_vec(&self) -> (r: Vec<T>)
        ensures
            r@ == self@.data,
    {
        copy_of(&self.data)
    }

    /// Takes a view of the part of the array that `index` selects: for
    /// each dimension one coordinate or a range of coordinates.
    pub fn s(&self, index: Vec<Slice>) -> (r: Result<ArrayView<'_, T>, ShapeError>)
        ensures
            match r {
                Ok(view) => {
                    &&& view.source() == self@
                    &&& view.selection() == index@
                    &&& index_checked(index@, self@.shape)
                },
                Err(e) => e == ShapeError::Index && !index_checked(index@, self@.shape),
            },
    {
        if index.len() != self.shape.len() {
            return Err(ShapeError::Index);
        }
        let mut i: usize = 0;
        while i < self.shape.len()
            invariant
                i <= self.shape@.len(),
                index@.len() == self.shape@.len(),
                forall|k: int|
                    0 <= k < i ==> (#[trigger] index@[k] matches Slice::Index(idx) ==> idx
                        < self.shape@[k]),
            decreases self.shape@.len() - i,
        {
            if let Slice::Index(idx) = index[i] {
                if idx >= self.shape[i] {
                    return Err(ShapeError::Index);
                }
            }
            i += 1;
        }
        Ok(ArrayView::new(self.data.as_slice(), index, self.shape.as_slice()))
    }

    /// Returns the element at a given index.
    pub fn i(&self, index: Vec<usize>) -> (r: Result<T, ShapeError>)
        requires
            self.wf(),
        ensures
            match r {
                Ok(x) => index_in_range(index@, self@.shape) && x == self@.at(index@),
                Err(e) => e == ShapeError::Index && !index_in_range(index@, self@.shape),
            },
    {
        match self.check_index(index.as_slice()) {
            Ok(_) => {},
            Err(e) => {
                return Err(e);
            },
        }
        let idx = self.compute_data_index(index.as_slice());
        Ok(self.data[idx])
    }

    /// Replaces the element at a given index.
    pub fn set(&mut self, index: Vec<usize>, value: T) -> (r: Result<(), ShapeError>)
        requires
            old(self).wf(),
        ensures
            final(self).wf(),
            final(self)@.shape == old(self)@.shape,
            match r {
                Ok(_) => index_in_range(index@, old(self)@.shape) && final(self)@.data == old(
                    self,
                )@.data.update(ravel(index@, old(self)@.shape) as int, value),
                Err(e) => e == ShapeError::Index && !index_in_range(index@, old(self)@.shape)
                    && final(self)@ == old(self)@,
            },
    {
        match self.check_index(index.as_slice()) {
            Ok(_) => {},
            Err(e) => {
                return Err(e);
            },
        }
        let idx = self.compute_data_index(index.as_slice());
        self.data[idx] = value;
        Ok(())
    }

    /// Checks that an index has the length of the shape and that each of
    /// its coordinates fits its dimension.
    pub fn check_index(&self, index: &[usize]) -> (r: Result<(), ShapeError>)
        ensures
            r is Ok <==> index_in_range(index@, self@.shape),
            r is Err ==> r == Err::<(), ShapeError>(ShapeError::Index),
    {
        if index.len() != self.shape.len() {
            return Err(ShapeError::Index);
        }
        let mut i: usize = 0;
        while i < self.shape.len()
            invariant
                i <= self.shape@.len(),
                index@.len() == self.shape@.len(),
                forall|k: int| 0 <= k < i ==> index@[k] < self.shape@[k],
            decreases self.shape@.len() - i,
        {
            if index[i] >= self.shape[i] {
                return Err(ShapeError::Index);
            }
            i += 1;
        }
        Ok(())
    }

    /// Computes the position in the buffer of the element that an index
    /// addresses.
    pub fn compute_data_index(&self, index: &[usize]) -> (r: usize)
        requires
            self.wf(),
            index_in_range(index@, self@.shape),
        ensures
            r == ravel(index@, self@.shape),
            r < self@.data.len(),
    {
        ravel_index(index, self.shape.as_slice())
    }
}

impl<T: Numeric> Array<T> {
    /// Creates a new array whose elements are `f` of the paired elements of
    /// `self` and `other`, under broadcasting.
    pub fn compute_elementwise_with_other_array(&self, other: &Array<T>, f: BinaryFn) -> (r: Result<
        Array<T>,
        ShapeError,
    >)
        requires
            self.wf(),
            other.wf(),
        ensures
            answers(r, self@.checked_zip(other@, f)),
    {
        let shape = match get_shape_after_broadcast(
            self.shape.as_slice(),
            other.shape.as_slice(),
        ) {
            Ok(shape) => shape,
            Err(e) => {
                return Err(e);
            },
        };
        proof {
            lemma_broadcast_shape_positive(self.shape@, other.shape@);
        }
        let size = match element_count(shape.as_slice()) {
            Ok(size) => size,
            Err(e) => {
                return Err(e);
            },
        };
        let mut data = filled(T::zero(), size);
        self.compute_elementwise_with_other_array_on_mem_buffer(
            other,
            f,
            shape.as_slice(),
            &mut data,
        );
        Ok(Array { shape, data })
    }

    /// Fills `buff` with `f` of the paired elements of `self` and `other`,
    /// under broadcasting to `shape`.
    pub fn compute_elementwise_with_other_array_on_mem_buffer(
        &self,
        other: &Array<T>,
        f: BinaryFn,
        shape: &[usize],
        buff: &mut Vec<T>,
    )
        requires
            self.wf(),
            other.wf(),
            broadcast_compatible(self@.shape, other@.shape),
            shape@ == broadcast_shape(self@.shape, other@.shape),
            old(buff)@.len() == shape_product(shape@),
        ensures
            final(buff)@ == self@.zip(other@, f).data,
    {
        let len1 = self.shape.len();
        let len2 = other.shape.len();
        let rank = shape.len();
        let total = buff.len();
        let mut trailing_dims: usize = 0;
        while trailing_dims < len1 && trailing_dims < len2 && self.shape[len1 - 1 - trailing_dims]
            == other.shape[len2 - 1 - trailing_dims]
            invariant
                len1 == self.shape@.len(),
                len2 == other.shape@.len(),
                trailing_dims <= len1,
                trailing_dims <= len2,
                forall|m: int|
                    1 <= m <= trailing_dims ==> #[trigger] self.shape@[len1 - m]
                        == other.shape@[len2 - m],
            decreases len1 - trailing_dims,
        {
            trailing_dims += 1;
        }
        let ghost t = trailing_dims as int;
        let ghost lead1 = self.shape@.take(len1 - t);
        let ghost lead2 = other.shape@.take(len2 - t);
        let ghost tail = shape@.skip(rank - t);
        proof {
            lemma_broadcast_shape_positive(self.shape@, other.shape@);
            assert forall|k: int| 1 <= k <= lead1.len() && k <= lead2.len() implies dims_compatible(
                #[trigger] lead1[lead1.len() - k],
                lead2[lead2.len() - k],
            ) by {
                assert(dims_compatible(
                    self.shape@[len1 - (k + t)],
                    other.shape@[len2 - (k + t)],
                ));
            }
            assert(tail =~= self.shape@.skip(len1 - t)) by {
                assert forall|k: int| 0 <= k < t implies tail[k] == self.shape@[len1 - t + k] by {
                    assert(self.shape@[len1 - (t - k)] == other.shape@[len2 - (t - k)]);
                }
            }
            assert(tail =~= other.shape@.skip(len2 - t)) by {
                assert forall|k: int| 0 <= k < t implies tail[k] == other.shape@[len2 - t + k] by {
                    assert(self.shape@[len1 - (t - k)] == other.shape@[len2 - (t - k)]);
                }
            }
            assert(shape@.take(rank - t) =~= broadcast_shape(lead1, lead2));
            lemma_product_split(shape@, rank - t);
        }
        let slice_len = get_slice_len(shape, trailing_dims);
        let mut it = match BroadcastIterator::new(self, other, trailing_dims) {
            Ok(it) => it,
            Err(_) => unreached(),
        };
        let ghost start = it;
        let ghost lead = it.lead_result();
        let ghost expected = self@.zip(other@, f).data;
        let mut i: usize = 0;
        proof {
            let a = shape_product(lead);
            assert(a <= a * slice_len) by (nonlinear_arith)
                requires
                    slice_len >= 1,
            ;
        }
        loop
            invariant
                self.wf(),
                other.wf(),
                it.wf(),
                it.same_walk(&start),
                start.first() == self@,
                start.second() == other@,
                start.lead_result() == lead,
                lead == shape@.take(rank - t),
                tail == shape@.skip(rank - t),
                tail == self@.shape.skip(len1 - t),
                tail == other@.shape.skip(len2 - t),
                start.lead1() == leading_shape(self@.shape, t as nat, lead.len()),
                start.lead2() == leading_shape(other@.shape, t as nat, lead.len()),
                start.block1() == slice_len,
                start.block2() == slice_len,
                slice_len == shape_product(tail),
                slice_len >= 1,
                0 <= t <= len1,
                t <= len2,
                t <= rank,
                len1 <= rank,
                len2 <= rank,
                len1 == self@.shape.len(),
                len2 == other@.shape.len(),
                rank == shape@.len(),
                shape@ == broadcast_shape(self@.shape, other@.shape),
                shape_positive(shape@),
                total == shape_product(shape@),
                total == shape_product(lead) * slice_len,
                buff@.len() == total,
                expected == self@.zip(other@, f).data,
                it.position() == i,
                it.position() <= shape_product(lead),
                shape_product(lead) <= total,
                forall|p: int| 0 <= p < i * slice_len ==> buff@[p] == expected[p],
            ensures
                it.done(),
            decreases shape_product(lead) - it.position(),
        {
            let ghost cursor = it.cursor();
            match it.next() {
                None => {
                    break ;
                },
                Some((slice1, slice2)) => {
                    proof {
                        lemma_ravel_bound(cursor, lead);
                        assert((i + 1) * slice_len <= shape_product(lead) * slice_len
                            && i * slice_len + slice_len == (i + 1) * slice_len)
                            by (nonlinear_arith)
                            requires
                                i < shape_product(lead),
                        ;
                    }
                    let base = i * slice_len;
                    let mut j: usize = 0;
                    while j < slice_len
                        invariant
                            j <= slice_len,
                            base == i * slice_len,
                            base + slice_len <= total,
                            buff@.len() == total,
                            slice1@.len() == slice_len,
                            slice2@.len() == slice_len,
                            self.wf(),
                            other.wf(),
                            index_in_range(cursor, lead),
                            ravel(cursor, lead) == i,
                            lead == shape@.take(rank - t),
                            tail == shape@.skip(rank - t),
                            tail == self@.shape.skip(len1 - t),
                            tail == other@.shape.skip(len2 - t),
                            slice_len == shape_product(tail),
                            0 <= t <= len1,
                            t <= len2,
                            t <= rank,
                            len1 <= rank,
                            len2 <= rank,
                            len1 == self@.shape.len(),
                            len2 == other@.shape.len(),
                            rank == shape@.len(),
                            shape@ == broadcast_shape(self@.shape, other@.shape),
                            shape_positive(shape@),
                            total == shape_product(shape@),
                            expected == self@.zip(other@, f).data,
                            forall|q: int|
                                0 <= q < slice_len ==> slice1@[q] == self@.data[slice_len
                                    * broadcast_ravel_lead(cursor, self@.shape, t as nat) + q],
                            forall|q: int|
                                0 <= q < slice_len ==> slice2@[q] == other@.data[slice_len
                                    * broadcast_ravel_lead(cursor, other@.shape, t as nat) + q],
                            forall|p: int| 0 <= p < base + j ==> buff@[p] == expected[p],
                        decreases slice_len - j,
                    {
                        proof {
                            let (n, k) = (i as nat, j as nat);
                            lemma_block_source(shape@, self@.shape, t as nat, cursor, n, k);
                            lemma_block_source(shape@, other@.shape, t as nat, cursor, n, k);
                        }
                        let value = f.apply(slice1[j], slice2[j]);
                        buff[base + j] = value;
                        j += 1;
                    }
                    i += 1;
                },
            }
        }
        proof {
            assert(i * slice_len == total) by (nonlinear_arith)
                requires
                    i == shape_product(lead),
                    total == shape_product(lead) * slice_len,
            ;
        }
    }

    /// Creates a new array whose elements are `f` of the elements of
    /// `self` and of the scalar `other`.
    pub fn compute_elementwise_with_scalar(&self, other: T, f: BinaryFn) -> (r: Array<T>)
        requires
            self.wf(),
        ensures
            r.wf(),
            r@ == self@.with_scalar(other, f),
    {
        let mut r = self.clone();
        r.assign_compute_elementwise_with_scalar(other, f);
        r
    }

    /// Creates a new array by applying `f` to every element.
    pub fn map<F: Fn(T) -> T>(&self, f: F) -> (r: Array<T>)
        requires
            self.wf(),
            forall|i: int| 0 <= i < self@.data.len() ==> f.requires((self@.data[i],)),
        ensures
            r.wf(),
            r@.shape == self@.shape,
            r@.data.len() == self@.data.len(),
            forall|i: int| 0 <= i < self@.data.len() ==> f.ensures((self@.data[i],), r@.data[i]),
    {
        let mut r = self.clone();
        r.map_assign(f);
        r
    }

    /// Replaces every element by `f` of it.
    pub fn map_assign<F: Fn(T) -> T>(&mut self, f: F)
        requires
            old(self).wf(),
            forall|i: int| 0 <= i < old(self)@.data.len() ==> f.requires((old(self)@.data[i],)),
        ensures
            final(self).wf(),
            final(self)@.shape == old(self)@.shape,
            final(self)@.data.len() == old(self)@.data.len(),
            forall|i: int|
                0 <= i < old(self)@.data.len() ==> f.ensures(
                    (old(self)@.data[i],),
                    final(self)@.data[i],
                ),
    {
        let n = self.data.len();
        let mut i: usize = 0;
        while i < n
            invariant
                i <= n,
                n == self.data@.len(),
                self.shape@ == old(self).shape@,
                self.data@.len() == old(self).data@.len(),
                forall|k: int| 0 <= k < n ==> f.requires((old(self).data@[k],)),
                forall|k: int| 0 <= k < i ==> f.ensures((old(self).data@[k],), self.data@[k]),
                forall|k: int| i <= k < n ==> self.data@[k] == old(self).data@[k],
            decreases n - i,
        {
            let value = f(self.data[i]);
            self.data[i] = value;
            i += 1;
        }
    }

    /// Replaces the array by the element-wise combination of it and
    /// `other`. Where the combination is not defined, the array stays as it
    /// is.
    pub fn assign_compute_elementwise_with_other_array(
        &mut self,
        other: &Array<T>,
        f: BinaryFn,
    ) -> (r:
        Result<(), ShapeError>)
        requires
            old(self).wf(),
            other.wf(),
        ensures
            final(self).wf(),
            match r {
                Ok(_) => old(self)@.checked_zip(other@, f) == Ok::<ArrayValue<T>, ShapeError>(
                    final(self)@,
                ),
                Err(e) => old(self)@.checked_zip(other@, f) == Err::<ArrayValue<T>, ShapeError>(e)
                    && final(self)@ == old(self)@,
            },
    {
        let shape = match get_shape_after_broadcast(
            self.shape.as_slice(),
            other.shape.as_slice(),
        ) {
            Ok(shape) => shape,
            Err(e) => {
                return Err(e);
            },
        };
        proof {
            lemma_broadcast_shape_positive(self.shape@, other.shape@);
        }
        let size = match element_count(shape.as_slice()) {
            Ok(size) => size,
            Err(e) => {
                return Err(e);
            },
        };
        let mut data = filled(T::zero(), size);
        self.compute_elementwise_with_other_array_on_mem_buffer(
            other,
            f,
            shape.as_slice(),
            &mut data,
        );
        self.data = data;
        self.shape = shape;
        Ok(())
    }

    /// Replaces every element by `f` of it and of the scalar `other`.
    pub fn assign_compute_elementwise_with_scalar(&mut self, other: T, f: BinaryFn)
        requires
            old(self).wf(),
        ensures
            final(self).wf(),
            final(self)@ == old(self)@.with_scalar(other, f),
    {
        let n = self.data.len();
        let mut i: usize = 0;
        while i < n
            invariant
                i <= n,
                n == self.data@.len(),
                self.shape@ == old(self).shape@,
                self.data@.len() == old(self).data@.len(),
                forall|k: int|
                    0 <= k < i ==> self.data@[k] == f.apply_spec(old(self).data@[k], other),
                forall|k: int| i <= k < n ==> self.data@[k] == old(self).data@[k],
            decreases n - i,
        {
            let value = f.apply(self.data[i], other);
            self.data[i] = value;
            i += 1;
        }
        assert(self.data@ =~= old(self)@.with_scalar(other, f).data);
    }
}

impl<T: Numeric> Array<T> {
    /// Creates the array of the negated elements.
    pub fn neg(&self) -> (r: Array<T>)
        requires
            self.wf(),
        ensures
            r.wf(),
            r@ == self@.mapped(|x: T| x.neg_spec()),
    {
        let r = self.map(|x: T| -> (y: T)
            ensures
                y == x.neg_spec(),
            { x.neg() });
        assert(r@.data =~= self@.mapped(|x: T| x.neg_spec()).data);
        r
    }

    /// Negates every element.
    pub fn neg_assign(&mut self)
        requires
            old(self).wf(),
        ensures
            final(self).wf(),
            final(self)@ == old(self)@.mapped(|x: T| x.neg_spec()),
    {
        self.map_assign(|x: T| -> (y: T)
            ensures
                y == x.neg_spec(),
            { x.neg() });
        assert(self@.data =~= old(self)@.mapped(|x: T| x.neg_spec()).data);
    }

    /// Computes the sum of the array and `other`, element by element under
    /// broadcasting.
    pub fn add(&self, other: &Array<T>) -> (r: Result<Array<T>, ShapeError>)
        requires
            self.wf(),
            other.wf(),
        ensures
            answers(r, self@.checked_zip(other@, BinaryFn::Add)),
    {
        self.compute_elementwise_with_other_array(other, BinaryFn::Add)
    }

    /// Creates the array of the elements of `self`, each combined with the
    /// scalar `other` by `add`.
    pub fn add_scalar(&self, other: T) -> (r: Array<T>)
        requires
            self.wf(),
        ensures
            r.wf(),
            r@ == self@.with_scalar(other, BinaryFn::Add),
    {
        self.compute_elementwise_with_scalar(other, BinaryFn::Add)
    }

    /// Computes the difference of the array and `other`, element by element
    /// under broadcasting.
    pub fn sub(&self, other: &Array<T>) -> (r: Result<Array<T>, ShapeError>)
        requires
            self.wf(),
            other.wf(),
        ensures
            answers(r, self@.checked_zip(other@, BinaryFn::Sub)),
    {
        self.compute_elementwise_with_other_array(other, BinaryFn::Sub)
    }

    /// Creates the array of the elements of `self`, each combined with the
    /// scalar `other` by `sub`.
    pub fn sub_scalar(&self, other: T) -> (r: Array<T>)
        requires
            self.wf(),
        ensures
            r.wf(),
            r@ == self@.with_scalar(other, BinaryFn::Sub),
    {
        self.compute_elementwise_with_scalar(other, BinaryFn::Sub)
    }

    /// Computes the product of the array and `other`, element by element
    /// under broadcasting.
    pub fn mul(&self, other: &Array<T>) -> (r: Result<Array<T>, ShapeError>)
        requires
            self.wf(),
            other.wf(),
        ensures
            answers(r, self@.checked_zip(other@, BinaryFn::Mul)),
    {
        self.compute_elementwise_with_other_array(other, BinaryFn::Mul)
    }

    /// Creates the array of the elements of `self`, each combined with the
    /// scalar `other` by `mul`.
    pub fn mul_scalar(&self, other: T) -> (r: Array<T>)
        requires
            self.wf(),
        ensures
            r.wf(),
            r@ == self@.with_scalar(other, BinaryFn::Mul),
    {
        self.compute_elementwise_with_scalar(other, BinaryFn::Mul)
    }

    /// Computes the quotient of the array by `other`, element by element
    /// under broadcasting.
    pub fn div(&self, other: &Array<T>) -> (r: Result<Array<T>, ShapeError>)
        requires
            self.wf(),
            other.wf(),
        ensures
            answers(r, self@.checked_zip(other@, BinaryFn::Div)),
    {
        self.compute_elementwise_with_other_array(other, BinaryFn::Div)
    }

    /// Creates the array of the elements of `self`, each combined with the
    /// scalar `other` by `div`.
    pub fn div_scalar(&self, other: T) -> (r: Array<T>)
        requires
            self.wf(),
        ensures
            r.wf(),
            r@ == self@.with_scalar(other, BinaryFn::Div),
    {
        self.compute_elementwise_with_scalar(other, BinaryFn::Div)
    }

    /// Replaces the array by what `add` gives for it and `other`. Where
    /// that is not defined, the array stays as it is.
    pub fn add_assign(&mut self, other: &Array<T>) -> (r: Result<(), ShapeError>)
        requires
            old(self).wf(),
            other.wf(),
        ensures
            final(self).wf(),
            match r {
                Ok(_) => old(self)@.checked_zip(other@, BinaryFn::Add) == Ok::<
                    ArrayValue<T>,
                    ShapeError,
                >(final(self)@),
                Err(e) => old(self)@.checked_zip(other@, BinaryFn::Add) == Err::<
                    ArrayValue<T>,
                    ShapeError,
                >(e) && final(self)@ == old(self)@,
            },
    {
        self.assign_compute_elementwise_with_other_array(other, BinaryFn::Add)
    }

    /// Replaces every element by what `add` gives for it and the scalar
    /// `other`.
    pub fn add_assign_scalar(&mut self, other: T)
        requires
            old(self).wf(),
        ensures
            final(self).wf(),
            final(self)@ == old(self)@.with_scalar(other, BinaryFn::Add),
    {
        self.assign_compute_elementwise_with_scalar(other, BinaryFn::Add)
    }

    /// Replaces the array by what `sub` gives for it and `other`. Where
    /// that is not defined, the array stays as it is.
    pub fn sub_assign(&mut self, other: &Array<T>) -> (r: Result<(), ShapeError>)
        requires
            old(self).wf(),
            other.wf(),
        ensures
            final(self).wf(),
            match r {
                Ok(_) => old(self)@.checked_zip(other@, BinaryFn::Sub) == Ok::<
                    ArrayValue<T>,
                    ShapeError,
                >(final(self)@),
                Err(e) => old(self)@.checked_zip(other@, BinaryFn::Sub) == Err::<
                    ArrayValue<T>,
                    ShapeError,
                >(e) && final(self)@ == old(self)@,
            },
    {
        self.assign_compute_elementwise_with_other_array(other, BinaryFn::Sub)
    }

    /// Replaces every element by what `sub` gives for it and the scalar
    /// `other`.
    pub fn sub_assign_scalar(&mut self, other: T)
        requires
            old(self).wf(),
        ensures
            final(self).wf(),
            final(self)@ == old(self)@.with_scalar(other, BinaryFn::Sub),
    {
        self.assign_compute_elementwise_with_scalar(other, BinaryFn::Sub)
    }

    /// Replaces the array by what `mul` gives for it and `other`. Where
    /// that is not defined, the array stays as it is.
    pub fn mul_assign(&mut self, other: &Array<T>) -> (r: Result<(), ShapeError>)
        requires
            old(self).wf(),
            other.wf(),
        ensures
            final(self).wf(),
            match r {
                Ok(_) => old(self)@.checked_zip(other@, BinaryFn::Mul) == Ok::<
                    ArrayValue<T>,
                    ShapeError,
                >(final(self)@),
                Err(e) => old(self)@.checked_zip(other@, BinaryFn::Mul) == Err::<
                    ArrayValue<T>,
                    ShapeError,
                >(e) && final(self)@ == old(self)@,
            },
    {
        self.assign_compute_elementwise_with_other_array(other, BinaryFn::Mul)
    }

    /// Replaces every element by what `mul` gives for it and the scalar
    /// `other`.
    pub fn mul_assign_scalar(&mut self, other: T)
        requires
            old(self).wf(),
        ensures
            final(self).wf(),
            final(self)@ == old(self)@.with_scalar(other, BinaryFn::Mul),
    {
        self.assign_compute_elementwise_with_scalar(other, BinaryFn::Mul)
    }

    /// Replaces the array by what `div` gives for it and `other`. Where
    /// that is not defined, the array stays as it is.
    pub fn div_assign(&mut self, other: &Array<T>) -> (r: Result<(), ShapeError>)
        requires
            old(self).wf(),
            other.wf(),
        ensures
            final(self).wf(),
            match r {
                Ok(_) => old(self)@.checked_zip(other@, BinaryFn::Div) == Ok::<
                    ArrayValue<T>,
                    ShapeError,
                >(final(self)@),
                Err(e) => old(self)@.checked_zip(other@, BinaryFn::Div) == Err::<
                    ArrayValue<T>,
                    ShapeError,
                >(e) && final(self)@ == old(self)@,
            },
    {
        self.assign_compute_elementwise_with_other_array(other, BinaryFn::Div)
    }

    /// Replaces every element by what `div` gives for it and the scalar
    /// `other`.
    pub fn div_assign_scalar(&mut self, other: T)
        requires
            old(self).wf(),
        ensures
            final(self).wf(),
            final(self)@ == old(self)@.with_scalar(other, BinaryFn::Div),
    {
        self.assign_compute_elementwise_with_scalar(other, BinaryFn::Div)
    }

}

/// Where, counted in blocks, the block of an array of shape `shape` begins
/// that belongs to index `cursor` of the broadcast leading dimensions: the
/// leading dimensions are those before the last `trailing_dims`.
pub open spec fn broadcast_ravel_lead(
    cursor: Seq<usize>,
    shape: Seq<usize>,
    trailing_dims: nat,
) -> nat {
    broadcast_ravel(cursor, leading_shape(shape, trailing_dims, cursor.len()))
}

impl<T: Numeric> Array<T> {
    /// Computes the batched matrix product of `self` and `other`.
    pub fn matmul(&self, other: &Array<T>) -> (r: Result<Array<T>, ShapeError>)
        requires
            self.wf(),
            other.wf(),
        ensures
            answers(r, self@.checked_matmul(other@)),
    {
        let new_shape = match get_shape_after_broadcast_matmul(
            self.shape.as_slice(),
            other.shape.as_slice(),
        ) {
            Ok(shape) => shape,
            Err(e) => {
                return Err(e);
            },
        };
        let len1 = self.shape.len();
        let len2 = other.shape.len();
        let matrix1_shape = (self.shape[len1 - 2], self.shape[len1 - 1]);
        let matrix2_shape = (other.shape[len2 - 2], other.shape[len2 - 1]);
        let ghost lead = broadcast_shape(self@.batch(), other@.batch());
        proof {
            lemma_broadcast_shape_positive(self@.batch(), other@.batch());
        }
        let data_len = match element_count(new_shape.as_slice()) {
            Ok(size) => size,
            Err(e) => {
                return Err(e);
            },
        };
        proof {
            lemma_product_push(lead, matrix1_shape.0);
            lemma_product_push(lead.push(matrix1_shape.0), matrix2_shape.1);
            lemma_product_positive(lead);
            let a = shape_product(lead);
            let b = matrix1_shape.0 as nat;
            let c = matrix2_shape.1 as nat;
            assert(b * c <= (a * b) * c && (a * b) * c == a * (b * c) && a <= a * (b * c))
                by (nonlinear_arith)
                requires
                    a >= 1,
                    b >= 1,
                    c >= 1,
            ;
            lemma_product_split(self.shape@, len1 - 2);
            lemma_product_split(other.shape@, len2 - 2);
            assert(self.shape@.skip(len1 - 2) =~= seq![matrix1_shape.0, matrix1_shape.1]);
            assert(other.shape@.skip(len2 - 2) =~= seq![matrix2_shape.0, matrix2_shape.1]);
            lemma_product_pair(matrix1_shape.0, matrix1_shape.1);
            lemma_product_pair(matrix2_shape.0, matrix2_shape.1);
        }
        let slice_len_output = matrix1_shape.0 * matrix2_shape.1;
        let mut data = filled(T::zero(), data_len);
        let mut it = match BroadcastIterator::new(self, other, 2) {
            Ok(it) => it,
            Err(e) => {
                return Err(e);
            },
        };
        let ghost start = it;
        let ghost expected = self@.matmul(other@).data;
        let mut i: usize = 0;
        loop
            invariant
                self.wf(),
                other.wf(),
                it.wf(),
                it.same_walk(&start),
                start.first() == self@,
                start.second() == other@,
                start.lead_result() == lead,
                lead == broadcast_shape(self@.batch(), other@.batch()),
                start.lead1() == leading_shape(self@.shape, 2, lead.len()),
                start.lead2() == leading_shape(other@.shape, 2, lead.len()),
                start.block1() == self@.rows() * self@.cols(),
                start.block2() == other@.rows() * other@.cols(),
                self@.shape.len() >= 2,
                other@.shape.len() >= 2,
                self@.cols() == other@.rows(),
                matrix1_shape.0 == self@.rows(),
                matrix1_shape.1 == self@.cols(),
                matrix2_shape.0 == other@.rows(),
                matrix2_shape.1 == other@.cols(),
                lead.len() >= self@.batch().len(),
                lead.len() >= other@.batch().len(),
                slice_len_output == self@.rows() * other@.cols(),
                data@.len() == data_len,
                data_len == shape_product(lead) * slice_len_output,
                data_len == shape_product(matmul_shape(self@.shape, other@.shape)),
                expected == self@.matmul(other@).data,
                it.position() == i,
                it.position() <= shape_product(lead),
                shape_product(lead) <= usize::MAX,
                forall|p: int| 0 <= p < i * slice_len_output ==> data@[p] == expected[p],
            ensures
                it.done(),
            decreases shape_product(lead) - it.position(),
        {
            let ghost cursor = it.cursor();
            match it.next() {
                None => {
                    break ;
                },
                Some((slice1, slice2)) => {
                    proof {
                        lemma_ravel_bound(cursor, lead);
                        assert((i + 1) * slice_len_output <= shape_product(lead) * slice_len_output
                            && i * slice_len_output + slice_len_output == (i + 1)
                            * slice_len_output) by (nonlinear_arith)
                            requires
                                i < shape_product(lead),
                        ;
                        lemma_block_start(lead, self@.batch(), cursor, i as nat);
                        lemma_block_start(lead, other@.batch(), cursor, i as nat);
                    }
                    let ghost before = data@;
                    let base = i * slice_len_output;
                    let chunk = chunk_mut(data.as_mut_slice(), base, slice_len_output);
                    match matmul_2d_matrix_slices(
                        slice1,
                        matrix1_shape.0,
                        matrix1_shape.1,
                        slice2,
                        matrix2_shape.0,
                        matrix2_shape.1,
                        chunk,
                    ) {
                        Ok(_) => {},
                        Err(e) => {
                            return Err(e);
                        },
                    }
                    proof {
                        let block = slice_len_output as int;
                        assert forall|p: int| 0 <= p < base + block implies data@[p]
                            == expected[p] by {
                            if p >= base {
                                let q = p - base;
                                assert(p / block == i && p % block == q) by (nonlinear_arith)
                                    requires
                                        p == i * block + q,
                                        0 <= q < block,
                                ;
                            }
                        }
                    }
                    i += 1;
                },
            }
        }
        proof {
            assert(i * slice_len_output == data_len) by (nonlinear_arith)
                requires
                    i == shape_product(lead),
                    data_len == shape_product(lead) * slice_len_output,
            ;
            assert(data@ =~= expected);
        }
        Ok(Array { data, shape: new_shape })
    }

    /// Creates the array with each matrix of `self` transposed.
    pub fn transpose(&self) -> (r: Result<Array<T>, ShapeError>)
        requires
            self.wf(),
        ensures
            answers(r, self@.checked_transposed()),
    {
        let new_shape = match self.get_transposed_shape() {
            Ok(shape) => shape,
            Err(e) => {
                return Err(e);
            },
        };
        let mut data = filled(T::zero(), self.data.len());
        self.transpose_on_mem_buffer(&mut data);
        proof {
            lemma_transposed_product(self.shape@);
        }
        Ok(Array { data, shape: new_shape })
    }

    /// Computes the shape of the transposed array.
    pub fn get_transposed_shape(&self) -> (r: Result<Vec<usize>, ShapeError>)
        ensures
            match r {
                Ok(shape) => self@.shape.len() >= 2 && shape@ == self@.transposed_shape(),
                Err(e) => e == ShapeError::Axis && self@.shape.len() < 2,
            },
    {
        let n = self.shape.len();
        if n < 2 {
            return Err(ShapeError::Axis);
        }
        let mut new_shape = copy_of(&self.shape);
        new_shape[n - 2] = self.shape[n - 1];
        new_shape[n - 1] = self.shape[n - 2];
        Ok(new_shape)
    }

    /// Writes the elements of the transposed array to `output_buffer`.
    pub fn transpose_on_mem_buffer(&self, output_buffer: &mut Vec<T>)
        requires
            self.wf(),
            self@.shape.len() >= 2,
            old(output_buffer)@.len() == self@.data.len(),
        ensures
            final(output_buffer)@ == self@.transposed().data,
    {
        let n = self.shape.len();
        let matrix_shape = (self.shape[n - 2], self.shape[n - 1]);
        let total = self.data.len();
        let ghost lead = self.shape@.take(n - 2);
        proof {
            lemma_product_split(self.shape@, n - 2);
            assert(self.shape@.skip(n - 2) =~= seq![matrix_shape.0, matrix_shape.1]);
            lemma_product_pair(matrix_shape.0, matrix_shape.1);
            lemma_product_positive(lead);
            let a = shape_product(lead);
            let b = matrix_shape.0 as nat;
            let c = matrix_shape.1 as nat;
            assert(b * c <= a * (b * c) && b * c >= 1) by (nonlinear_arith)
                requires
                    a >= 1,
                    b >= 1,
                    c >= 1,
            ;
        }
        let slice_len = matrix_shape.0 * matrix_shape.1;
        let num_slices = output_buffer.len() / slice_len;
        proof {
            let a = shape_product(lead) as int;
            let b = slice_len as int;
            assert((a * b) / b == a) by (nonlinear_arith)
                requires
                    b >= 1,
            ;
        }
        let ghost expected = self@.transposed().data;
        let mut i: usize = 0;
        while i < num_slices
            invariant
                i <= num_slices,
                self.wf(),
                n == self.shape@.len(),
                n >= 2,
                matrix_shape.0 == self@.rows(),
                matrix_shape.1 == self@.cols(),
                slice_len == matrix_shape.0 * matrix_shape.1,
                slice_len >= 1,
                total == self.data@.len(),
                total == num_slices * slice_len,
                output_buffer@.len() == total,
                expected == self@.transposed().data,
                forall|p: int| 0 <= p < i * slice_len ==> output_buffer@[p] == expected[p],
            decreases num_slices - i,
        {
            proof {
                assert((i + 1) * slice_len <= num_slices * slice_len && i * slice_len + slice_len
                    == (i + 1) * slice_len) by (nonlinear_arith)
                    requires
                        i < num_slices,
                ;
            }
            let base = i * slice_len;
            let ghost before = output_buffer@;
            let source = slice_subrange(self.data.as_slice(), base, base + slice_len);
            let chunk = chunk_mut(output_buffer.as_mut_slice(), base, slice_len);
            let done = transpose_2d_matrix_slices(source, matrix_shape.0, matrix_shape.1, chunk);
            proof {
                let block = slice_len as int;
                assert forall|p: int| 0 <= p < base + block implies output_buffer@[p]
                    == expected[p] by {
                    if p >= base {
                        let q = p - base;
                        assert(p / block == i && p % block == q) by (nonlinear_arith)
                            requires
                                p == i * block + q,
                                0 <= q < block,
                        ;
                    }
                }
            }
            i += 1;
        }
    }

    /// Replaces the array by its transpose. An array of fewer than two
    /// dimensions stays as it is.
    pub fn transpose_assign(&mut self) -> (r: Result<(), ShapeError>)
        requires
            old(self).wf(),
        ensures
            final(self).wf(),
            match r {
                Ok(_) => old(self)@.checked_transposed() == Ok::<ArrayValue<T>, ShapeError>(
                    final(self)@,
                ),
                Err(e) => old(self)@.checked_transposed() == Err::<ArrayValue<T>, ShapeError>(e)
                    && final(self)@ == old(self)@,
            },
    {
        let new_shape = match self.get_transposed_shape() {
            Ok(shape) => shape,
            Err(e) => {
                return Err(e);
            },
        };
        let mut data = filled(T::zero(), self.data.len());
        self.transpose_on_mem_buffer(&mut data);
        proof {
            lemma_transposed_product(self.shape@);
        }
        self.data = data;
        self.shape = new_shape;
        Ok(())
    }
}

/// Exchanging the last two dimensions keeps the dimensions positive and
/// the element count.
pub proof fn lemma_transposed_product(shape: Seq<usize>)
    requires
        shape.len() >= 2,
    ensures
        shape_product(
            shape.update(shape.len() - 2, shape[shape.len() - 1]).update(
                shape.len() - 1,
                shape[shape.len() - 2],
            ),
        ) == shape_product(shape),
        shape_positive(shape) ==> shape_positive(
            shape.update(shape.len() - 2, shape[shape.len() - 1]).update(
                shape.len() - 1,
                shape[shape.len() - 2],
            ),
        ),
{
    let n = shape.len() as int;
    let a = shape[n - 2];
    let b = shape[n - 1];
    let swapped = shape.update(n - 2, b).update(n - 1, a);
    lemma_product_split(shape, n - 2);
    lemma_product_split(swapped, n - 2);
    assert(shape.skip(n - 2) =~= seq![a, b]);
    assert(swapped.skip(n - 2) =~= seq![b, a]);
    assert(swapped.take(n - 2) =~= shape.take(n - 2));
    lemma_product_pair(a, b);
    lemma_product_pair(b, a);
}

} // verus!
