//! Views of parts of an array: one coordinate or a range of coordinates
//! along each dimension.

use crate::linalg::array::{answers, Array, ArrayValue};
use crate::linalg::broadcast::{advance_index, lemma_ravel_zero};
use crate::linalg::error::ShapeError;
use crate::linalg::numeric::Numeric;
use crate::linalg::shape::{
    index_in_range, lemma_product_positive, lemma_product_push, lemma_product_single,
    lemma_unravel_ravel, ravel, shape_positive, shape_product, unravel,
};
use crate::linalg::utils::{element_count, filled, ravel_index};
use vstd::prelude::*;

verus! {

/// What is selected along one dimension.
#[derive(Clone, Copy, Debug, PartialEq, Eq)]
pub enum Slice {
    /// The coordinates from `start` up to, and without, `end`.
    Range { start: usize, end: usize },
    /// The coordinates from `start` on.
    RangeFrom { start: usize },
    /// The coordinates up to, and without, `end`.
    RangeTo { end: usize },
    /// Every coordinate.
    RangeFull,
    /// One coordinate. The dimension is left out of the selected part.
    Index(usize),
}

impl Slice {
    /// The selection is not empty and lies within a dimension of length
    /// `dim`.
    pub open spec fn valid(self, dim: usize) -> bool {
        match self {
            Slice::Range { start, end } => start < end && end <= dim,
            Slice::RangeFrom { start } => start < dim,
            Slice::RangeTo { end } => 0 < end && end <= dim,
            Slice::RangeFull => 0 < dim,
            Slice::Index(i) => i < dim,
        }
    }

    /// The first coordinate selected.
    pub open spec fn first(self) -> usize {
        match self {
            Slice::Range { start, end } => start,
            Slice::RangeFrom { start } => start,
            Slice::RangeTo { end } => 0,
            Slice::RangeFull => 0,
            Slice::Index(i) => i,
        }
    }

    /// The number of coordinates selected of a dimension of length `dim`.
    pub open spec fn extent(self, dim: usize) -> usize {
        match self {
            Slice::Range { start, end } => (end - start) as usize,
            Slice::RangeFrom { start } => (dim - start) as usize,
            Slice::RangeTo { end } => end,
            Slice::RangeFull => dim,
            Slice::Index(i) => 1,
        }
    }
}

impl From<usize> for Slice {
    fn from(index: usize) -> (r: Slice) {
        Slice::Index(index)
    }
}

impl vstd::std_specs::convert::FromSpecImpl<usize> for Slice {
    open spec fn obeys_from_spec() -> bool {
        true
    }

    open spec fn from_spec(index: usize) -> Slice {
        Slice::Index(index)
    }
}

impl From<core::ops::Range<usize>> for Slice {
    fn from(range: core::ops::Range<usize>) -> (r: Slice) {
        Slice::Range { start: range.start, end: range.end }
    }
}

impl vstd::std_specs::convert::FromSpecImpl<core::ops::Range<usize>> for Slice {
    open spec fn obeys_from_spec() -> bool {
        true
    }

    open spec fn from_spec(range: core::ops::Range<usize>) -> Slice {
        Slice::Range { start: range.start, end: range.end }
    }
}

/// What taking a view checks: there is a selection for each dimension, and
/// a single coordinate lies within its dimension.
pub open spec fn index_checked(index: Seq<Slice>, shape: Seq<usize>) -> bool {
    &&& index.len() == shape.len()
    &&& forall|k: int|
        0 <= k < index.len() ==> (#[trigger] index[k] matches Slice::Index(i) ==> i < shape[k])
}

/// There is a valid selection for each dimension.
pub open spec fn slices_valid(index: Seq<Slice>, shape: Seq<usize>) -> bool {
    &&& index.len() == shape.len()
    &&& forall|k: int| 0 <= k < index.len() ==> (#[trigger] index[k]).valid(shape[k])
}

/// The number of coordinates selected along each dimension.
pub open spec fn slice_extents(index: Seq<Slice>, shape: Seq<usize>) -> Seq<usize> {
    Seq::new(index.len(), |k: int| index[k].extent(shape[k]))
}

/// The first coordinate selected along each dimension.
pub open spec fn slice_starts(index: Seq<Slice>) -> Seq<usize> {
    Seq::new(index.len(), |k: int| index[k].first())
}

/// The dimensions of the selected part: the extents of the ranges. Where a
/// single coordinate is selected, the dimension is left out.
pub open spec fn kept_dims(index: Seq<Slice>, shape: Seq<usize>) -> Seq<usize>
    decreases index.len(),
{
    if index.len() == 0 {
        Seq::empty()
    } else {
        let rest = kept_dims(index.drop_last(), shape.drop_last());
        match index.last() {
            Slice::Index(_) => rest,
            _ => rest.push(index.last().extent(shape.last())),
        }
    }
}

/// The shape of the array made of the selected part: its dimensions, or
/// one dimension of length one where no dimension is kept.
pub open spec fn sliced_shape(index: Seq<Slice>, shape: Seq<usize>) -> Seq<usize> {
    if kept_dims(index, shape).len() == 0 {
        seq![1usize]
    } else {
        kept_dims(index, shape)
    }
}

/// The index `idx`, moved by `starts` along each dimension.
pub open spec fn shifted(idx: Seq<usize>, starts: Seq<usize>) -> Seq<usize> {
    Seq::new(idx.len(), |k: int| (idx[k] + starts[k]) as usize)
}

/// The array made of the part of `source` that `index` selects: its
/// element at an index, counted within the selected coordinates, is the
/// element of `source` at that index moved to where the selections begin.
pub open spec fn sliced<T>(source: ArrayValue<T>, index: Seq<Slice>) -> ArrayValue<T> {
    let extents = slice_extents(index, source.shape);
    ArrayValue {
        shape: sliced_shape(index, source.shape),
        data: Seq::new(
            shape_product(extents),
            |q: int|
                source.data[ravel(
                    shifted(unravel(q as nat, extents), slice_starts(index)),
                    source.shape,
                ) as int],
        ),
    }
}

/// What making an array of a view answers: the selected part where the
/// selections are valid.
pub open spec fn checked_sliced<T>(source: ArrayValue<T>, index: Seq<Slice>) -> Result<
    ArrayValue<T>,
    ShapeError,
> {
    if slices_valid(index, source.shape) {
        Ok(sliced(source, index))
    } else {
        Err(ShapeError::Index)
    }
}

/// The selected part holds as many elements as its dimensions say, and
/// they are positive.
pub proof fn lemma_sliced_shape(index: Seq<Slice>, shape: Seq<usize>)
    requires
        slices_valid(index, shape),
    ensures
        shape_positive(slice_extents(index, shape)),
        shape_positive(kept_dims(index, shape)),
        shape_positive(sliced_shape(index, shape)),
        shape_product(kept_dims(index, shape)) == shape_product(slice_extents(index, shape)),
        shape_product(sliced_shape(index, shape)) == shape_product(slice_extents(index, shape)),
    decreases index.len(),
{
    let extents = slice_extents(index, shape);
    if index.len() == 0 {
        lemma_product_single(1usize);
    } else {
        let rest_index = index.drop_last();
        let rest_shape = shape.drop_last();
        lemma_sliced_shape(rest_index, rest_shape);
        assert(extents.drop_last() =~= slice_extents(rest_index, rest_shape));
        let e = index.last().extent(shape.last());
        let p = shape_product(slice_extents(rest_index, rest_shape));
        match index.last() {
            Slice::Index(_) => {
            },
            _ => {
                lemma_product_push(kept_dims(rest_index, rest_shape), e);
            },
        }
        if kept_dims(index, shape).len() == 0 {
            lemma_product_single(1usize);
        }
    }
}

/// Where no dimension of `small` is longer than that of `big`, `small`
/// holds no more elements.
pub proof fn lemma_product_le(small: Seq<usize>, big: Seq<usize>)
    requires
        small.len() == big.len(),
        forall|k: int| 0 <= k < small.len() ==> small[k] <= big[k],
    ensures
        shape_product(small) <= shape_product(big),
    decreases small.len(),
{
    if small.len() > 0 {
        lemma_product_le(small.drop_last(), big.drop_last());
        let a = shape_product(small.drop_last());
        let b = shape_product(big.drop_last());
        let x = small.last() as nat;
        let y = big.last() as nat;
        assert(a * x <= b * y) by (nonlinear_arith)
            requires
                a <= b,
                x <= y,
        ;
    }
}

/// A read-only view of a part of an array.
#[derive(Debug, PartialEq)]
pub struct ArrayView<'a, T: Numeric> {
    data: &'a [T],
    index: Vec<Slice>,
    shape: &'a [usize],
}

impl<'a, T: Numeric> ArrayView<'a, T> {
    /// The value of the array that is viewed.
    pub closed spec fn source(&self) -> ArrayValue<T> {
        ArrayValue { shape: self.shape@, data: self.data@ }
    }

    /// What is selected along each dimension.
    pub closed spec fn selection(&self) -> Seq<Slice> {
        self.index@
    }

    /// Creates a view of the part that `index` selects of the array of
    /// shape `shape` whose elements are `data`.
    pub fn new(data: &'a [T], index: Vec<Slice>, shape: &'a [usize]) -> (r: ArrayView<'a, T>)
        ensures
            r.source() == (ArrayValue { shape: shape@, data: data@ }),
            r.selection() == index@,
    {
        ArrayView { data, index, shape }
    }

    /// Makes an array of the selected part, with copies of its elements.
    pub fn to_array(&self) -> (r: Result<Array<T>, ShapeError>)
        requires
            self.source().wf(),
        ensures
            answers(r, checked_sliced(self.source(), self.selection())),
    {
        let n = self.shape.len();
        let source_len = self.data.len();
        if self.index.len() != n {
            return Err(ShapeError::Index);
        }
        let mut extents: Vec<usize> = Vec::new();
        let mut starts: Vec<usize> = Vec::new();
        let mut new_shape: Vec<usize> = Vec::new();
        let mut i: usize = 0;
        while i < n
            invariant
                i <= n,
                n == self.shape@.len(),
                n == self.index@.len(),
                extents@.len() == i,
                starts@.len() == i,
                forall|k: int| 0 <= k < i ==> (#[trigger] self.index@[k]).valid(self.shape@[k]),
                forall|k: int|
                    0 <= k < i ==> #[trigger] extents@[k] == self.index@[k].extent(self.shape@[k]),
                forall|k: int| 0 <= k < i ==> #[trigger] starts@[k] == self.index@[k].first(),
                new_shape@ == kept_dims(self.index@.take(i as int), self.shape@.take(i as int)),
            decreases n - i,
        {
            let dim = self.shape[i];
            proof {
                assert(self.index@.take(i + 1).drop_last() =~= self.index@.take(i as int));
                assert(self.shape@.take(i + 1).drop_last() =~= self.shape@.take(i as int));
            }
            match self.index[i] {
                Slice::Index(idx) => {
                    if idx >= dim {
                        return Err(ShapeError::Index);
                    }
                    extents.push(1);
                    starts.push(idx);
                },
                Slice::Range { start, end } => {
                    if start >= end || end > dim {
                        return Err(ShapeError::Index);
                    }
                    extents.push(end - start);
                    starts.push(start);
                    new_shape.push(end - start);
                },
                Slice::RangeTo { end } => {
                    if end == 0 || end > dim {
                        return Err(ShapeError::Index);
                    }
                    extents.push(end);
                    starts.push(0);
                    new_shape.push(end);
                },
                Slice::RangeFrom { start } => {
                    if start >= dim {
                        return Err(ShapeError::Index);
                    }
                    extents.push(dim - start);
                    starts.push(start);
                    new_shape.push(dim - start);
                },
                Slice::RangeFull => {
                    if dim == 0 {
                        return Err(ShapeError::Index);
                    }
                    extents.push(dim);
                    starts.push(0);
                    new_shape.push(dim);
                },
            }
            i += 1;
        }
        if new_shape.len() == 0 {
            new_shape.push(1);
        }
        proof {
            assert(self.index@.take(n as int) =~= self.index@);
            assert(self.shape@.take(n as int) =~= self.shape@);
            assert(new_shape@ =~= sliced_shape(self.index@, self.shape@));
            lemma_sliced_shape(self.index@, self.shape@);
            assert forall|k: int| 0 <= k < extents@.len() implies extents@[k]
                <= self.shape@[k] by {}
            lemma_product_le(extents@, self.shape@);
        }
        let total = match element_count(extents.as_slice()) {
            Ok(total) => total,
            Err(e) => {
                return Err(e);
            },
        };
        let ghost expected = sliced(self.source(), self.selection()).data;
        let mut data: Vec<T> = Vec::new();
        let mut curr_idx = filled(0usize, n);
        proof {
            lemma_ravel_zero(curr_idx@, extents@);
            lemma_product_positive(extents@);
        }
        let mut q: usize = 0;
        while q < total
            invariant
                q <= total,
                n == self.shape@.len(),
                n == self.index@.len(),
                self.source().wf(),
                source_len == self.data@.len(),
                extents@ == slice_extents(self.index@, self.shape@),
                starts@ == slice_starts(self.index@),
                slices_valid(self.index@, self.shape@),
                shape_positive(extents@),
                total == shape_product(extents@),
                curr_idx@.len() == n,
                q < total ==> index_in_range(curr_idx@, extents@) && ravel(curr_idx@, extents@)
                    == q,
                data@.len() == q,
                expected == sliced(self.source(), self.selection()).data,
                forall|p: int| 0 <= p < q ==> data@[p] == expected[p],
            decreases total - q,
        {
            let mut source_index: Vec<usize> = Vec::new();
            let mut d: usize = 0;
            while d < n
                invariant
                    d <= n,
                    n == self.shape@.len(),
                    n == self.index@.len(),
                    extents@ == slice_extents(self.index@, self.shape@),
                    starts@ == slice_starts(self.index@),
                    slices_valid(self.index@, self.shape@),
                    index_in_range(curr_idx@, extents@),
                    source_index@.len() == d,
                    forall|k: int|
                        0 <= k < d ==> #[trigger] source_index@[k] == curr_idx@[k] + starts@[k]
                            && source_index@[k] < self.shape@[k],
                decreases n - d,
            {
                proof {
                    assert(extents@[d as int] == self.index@[d as int].extent(
                        self.shape@[d as int],
                    ));
                }
                source_index.push(curr_idx[d] + starts[d]);
                d += 1;
            }
            proof {
                lemma_unravel_ravel(curr_idx@, extents@);
                assert(source_index@ =~= shifted(curr_idx@, starts@));
            }
            let position = ravel_index(source_index.as_slice(), self.shape);
            data.push(self.data[position]);
            if n > 0 {
                advance_index(&mut curr_idx, extents.as_slice());
            }
            q += 1;
        }
        proof {
            assert(data@ =~= expected);
        }
        Ok(Array::from_parts(new_shape, data))
    }
}

} // verus!
