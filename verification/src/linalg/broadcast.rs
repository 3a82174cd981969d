//! Walks two arrays in step, block by block, in the order of the broadcast
//! of their leading dimensions.

use crate::linalg::array::{copy_of, Array, ArrayValue};
use crate::linalg::error::ShapeError;
use crate::linalg::numeric::Numeric;
use crate::linalg::shape::{
    broadcast_compatible, broadcast_ravel, broadcast_shape, broadcast_source, index_in_range,
    lemma_broadcast_ravel_bound, lemma_broadcast_ravel_concat, lemma_broadcast_ravel_padded,
    lemma_broadcast_source_split, lemma_product_concat, lemma_product_positive,
    lemma_product_prefix_le, lemma_product_single, lemma_product_split, lemma_ravel_bound,
    lemma_ravel_carry, lemma_ravel_single, lemma_ravel_step, lemma_unravel_ravel, max_len,
    ones_shape, padded_shape, ravel, shape_positive, shape_product,
};
use crate::linalg::utils::{check_shapes_broadcast, filled};
use vstd::prelude::*;
use vstd::slice::slice_subrange;

verus! {

/// Yields, pair by pair, the blocks of two arrays that correspond under
/// broadcasting.
///
/// The last `trailing_dims` dimensions of each array make up its blocks,
/// which are handed out whole. The dimensions before them, the leading
/// ones, are broadcast against each other; the pairs come in the row-major
/// order of that broadcast. Along a leading dimension of length one an
/// array does not advance: its block is handed out again.
pub struct BroadcastIterator<'a, T: Numeric> {
    array1: &'a Array<T>,
    array2: &'a Array<T>,
    slice1_len: usize,
    slice2_len: usize,
    broadcast_shape1: Vec<usize>,
    broadcast_shape2: Vec<usize>,
    broadcast_result_shape: Vec<usize>,
    current_index: Vec<usize>,
    done: bool,
}

/// The leading dimensions of `shape` before its last `trailing_dims`,
/// padded with ones on the left to `rank` dimensions.
pub open spec fn leading_shape(shape: Seq<usize>, trailing_dims: nat, rank: nat) -> Seq<usize> {
    padded_shape(shape.take(shape.len() - trailing_dims), rank)
}

impl<'a, T: Numeric> BroadcastIterator<'a, T> {
    /// The value of the first array.
    pub closed spec fn first(&self) -> ArrayValue<T> {
        self.array1@
    }

    /// The value of the second array.
    pub closed spec fn second(&self) -> ArrayValue<T> {
        self.array2@
    }

    /// The length of a block of the first array.
    pub closed spec fn block1(&self) -> nat {
        self.slice1_len as nat
    }

    /// The length of a block of the second array.
    pub closed spec fn block2(&self) -> nat {
        self.slice2_len as nat
    }

    /// The leading dimensions of the first array, padded to the rank of
    /// the walk.
    pub closed spec fn lead1(&self) -> Seq<usize> {
        self.broadcast_shape1@
    }

    /// The leading dimensions of the second array, padded to the rank of
    /// the walk.
    pub closed spec fn lead2(&self) -> Seq<usize> {
        self.broadcast_shape2@
    }

    /// The shape that is walked: the broadcast of the leading dimensions.
    pub closed spec fn lead_result(&self) -> Seq<usize> {
        self.broadcast_result_shape@
    }

    /// The index, in the walked shape, of the pair that comes next.
    pub closed spec fn cursor(&self) -> Seq<usize> {
        self.current_index@
    }

    /// Every pair has been handed out.
    pub closed spec fn done(&self) -> bool {
        self.done
    }

    /// The number of pairs handed out so far.
    pub open spec fn position(&self) -> nat {
        if self.done() {
            shape_product(self.lead_result())
        } else {
            ravel(self.cursor(), self.lead_result())
        }
    }

    /// Where the block of the first array that comes next begins.
    pub open spec fn offset1(&self) -> nat {
        self.block1() * broadcast_ravel(self.cursor(), self.lead1())
    }

    /// Where the block of the second array that comes next begins.
    pub open spec fn offset2(&self) -> nat {
        self.block2() * broadcast_ravel(self.cursor(), self.lead2())
    }

    /// The invariant of the walk.
    pub open spec fn wf(&self) -> bool {
        &&& self.first().wf()
        &&& self.second().wf()
        &&& self.lead1().len() == self.lead_result().len()
        &&& self.lead2().len() == self.lead_result().len()
        &&& self.cursor().len() == self.lead_result().len()
        &&& shape_positive(self.lead1())
        &&& shape_positive(self.lead2())
        &&& shape_positive(self.lead_result())
        &&& self.block1() * shape_product(self.lead1()) == self.first().data.len()
        &&& self.block2() * shape_product(self.lead2()) == self.second().data.len()
        &&& (!self.done() ==> index_in_range(self.cursor(), self.lead_result()))
    }

    /// The two walks are over the same arrays, cut into the same blocks.
    pub open spec fn same_walk(&self, other: &Self) -> bool {
        &&& self.first() == other.first()
        &&& self.second() == other.second()
        &&& self.block1() == other.block1()
        &&& self.block2() == other.block2()
        &&& self.lead1() == other.lead1()
        &&& self.lead2() == other.lead2()
        &&& self.lead_result() == other.lead_result()
    }

    /// Starts a walk over `array1` and `array2` that keeps the last
    /// `trailing_dims` dimensions of each together.
    pub fn new(array1: &'a Array<T>, array2: &'a Array<T>, trailing_dims: usize) -> (r: Result<
        BroadcastIterator<'a, T>,
        ShapeError,
    >)
        requires
            array1.wf(),
            array2.wf(),
        ensures
            match r {
                Ok(it) => {
                    let rank = (max_len(array1@.shape.len(), array2@.shape.len())
                        - trailing_dims) as nat;
                    &&& trailing_dims <= array1@.shape.len()
                    &&& trailing_dims <= array2@.shape.len()
                    &&& broadcast_compatible(
                        array1@.shape.take(array1@.shape.len() - trailing_dims),
                        array2@.shape.take(array2@.shape.len() - trailing_dims),
                    )
                    &&& it.wf()
                    &&& !it.done()
                    &&& it.position() == 0
                    &&& it.first() == array1@
                    &&& it.second() == array2@
                    &&& it.block1() == shape_product(
                        array1@.shape.skip(array1@.shape.len() - trailing_dims),
                    )
                    &&& it.block2() == shape_product(
                        array2@.shape.skip(array2@.shape.len() - trailing_dims),
                    )
                    &&& it.lead1() == leading_shape(array1@.shape, trailing_dims as nat, rank)
                    &&& it.lead2() == leading_shape(array2@.shape, trailing_dims as nat, rank)
                    &&& it.lead_result() == broadcast_shape(
                        array1@.shape.take(array1@.shape.len() - trailing_dims),
                        array2@.shape.take(array2@.shape.len() - trailing_dims),
                    )
                },
                Err(e) => if trailing_dims > array1@.shape.len() || trailing_dims
                    > array2@.shape.len() {
                    e == ShapeError::Axis
                } else {
                    e == ShapeError::Broadcast && !broadcast_compatible(
                        array1@.shape.take(array1@.shape.len() - trailing_dims),
                        array2@.shape.take(array2@.shape.len() - trailing_dims),
                    )
                },
            },
    {
        let shape1 = array1.shape_ref();
        let shape2 = array2.shape_ref();
        if shape1.len() < trailing_dims || shape2.len() < trailing_dims {
            return Err(ShapeError::Axis);
        }
        let max_shape_len = if shape1.len() > shape2.len() {
            shape1.len()
        } else {
            shape2.len()
        };
        let (broadcast_shape1, broadcast_shape2) = get_padded_broadcast_shapes(
            shape1.as_slice(),
            shape2.as_slice(),
            trailing_dims,
        );
        proof {
            lemma_product_split(shape1@, shape1@.len() - trailing_dims);
            lemma_product_split(shape2@, shape2@.len() - trailing_dims);
            lemma_product_positive(shape1@.take(shape1@.len() - trailing_dims));
            lemma_product_positive(shape2@.take(shape2@.len() - trailing_dims));
            let rank = (max_shape_len - trailing_dims) as nat;
            lemma_leading_product(shape1@, trailing_dims as nat, rank);
            lemma_leading_product(shape2@, trailing_dims as nat, rank);
        }
        let slice1_len = get_slice_len(shape1.as_slice(), trailing_dims);
        let slice2_len = get_slice_len(shape2.as_slice(), trailing_dims);

        let lead1 = slice_subrange(shape1.as_slice(), 0, shape1.len() - trailing_dims);
        let lead2 = slice_subrange(shape2.as_slice(), 0, shape2.len() - trailing_dims);
        match check_shapes_broadcast(lead1, lead2) {
            Ok(_) => {},
            Err(e) => {
                return Err(e);
            },
        }

        let rank = max_shape_len - trailing_dims;
        let mut broadcast_result_shape: Vec<usize> = Vec::new();
        let mut i: usize = 0;
        while i < rank
            invariant
                i <= rank,
                broadcast_shape1@.len() == rank,
                broadcast_shape2@.len() == rank,
                broadcast_result_shape@.len() == i,
                forall|k: int|
                    0 <= k < i ==> broadcast_result_shape@[k] == (if broadcast_shape1@[k]
                        >= broadcast_shape2@[k] {
                        broadcast_shape1@[k]
                    } else {
                        broadcast_shape2@[k]
                    }),
            decreases rank - i,
        {
            let a = broadcast_shape1[i];
            let b = broadcast_shape2[i];
            broadcast_result_shape.push(
                if a >= b {
                    a
                } else {
                    b
                },
            );
            i += 1;
        }
        let current_index = filled(0usize, rank);
        proof {
            assert(broadcast_shape1@ == leading_shape(shape1@, trailing_dims as nat, rank as nat));
            assert(broadcast_shape2@ == leading_shape(shape2@, trailing_dims as nat, rank as nat));
            assert(broadcast_result_shape@ =~= broadcast_shape(lead1@, lead2@));
            assert(shape_positive(broadcast_result_shape@));
            lemma_ravel_zero(current_index@, broadcast_result_shape@);
            let take1 = shape_product(shape1@.take(shape1@.len() - trailing_dims));
            let take2 = shape_product(shape2@.take(shape2@.len() - trailing_dims));
            assert(slice1_len * take1 == take1 * slice1_len) by (nonlinear_arith);
            assert(slice2_len * take2 == take2 * slice2_len) by (nonlinear_arith);
        }
        Ok(
            BroadcastIterator {
                array1,
                array2,
                slice1_len,
                slice2_len,
                broadcast_shape1,
                broadcast_shape2,
                broadcast_result_shape,
                current_index,
                done: false,
            },
        )
    }

    /// The leading dimensions of the first array, padded to the rank of
    /// the walk.
    pub fn broadcast_shape1(&self) -> (r: Vec<usize>)
        ensures
            r@ == self.lead1(),
    {
        copy_of(&self.broadcast_shape1)
    }

    /// The leading dimensions of the second array, padded to the rank of
    /// the walk.
    pub fn broadcast_shape2(&self) -> (r: Vec<usize>)
        ensures
            r@ == self.lead2(),
    {
        copy_of(&self.broadcast_shape2)
    }

    /// The shape that is walked.
    pub fn broadcast_result_shape(&self) -> (r: Vec<usize>)
        ensures
            r@ == self.lead_result(),
    {
        copy_of(&self.broadcast_result_shape)
    }

    /// The index of the pair that comes next.
    pub fn current_index(&self) -> (r: Vec<usize>)
        ensures
            r@ == self.cursor(),
    {
        copy_of(&self.current_index)
    }

    /// Moves the cursor to the next index of the walked shape, in
    /// row-major order, or past the end.
    pub fn increment_broadcast_shape_iterator(&mut self)
        requires
            old(self).wf(),
            !old(self).done(),
            old(self).cursor().len() > 0,
        ensures
            final(self).wf(),
            final(self).same_walk(old(self)),
            final(self).position() == old(self).position() + 1,
    {
        let done = advance_index(
            &mut self.current_index,
            self.broadcast_result_shape.as_slice(),
        );
        self.done = done;
    }

    /// Computes where the block that the cursor selects begins in an array
    /// whose padded leading dimensions are `shape` and whose blocks have
    /// `slice_len` elements.
    pub fn compute_slice_index(&self, shape: &[usize], slice_len: usize) -> (r: usize)
        requires
            shape@.len() == self.cursor().len(),
            shape_positive(shape@),
            slice_len * shape_product(shape@) <= usize::MAX,
        ensures
            r == slice_len * broadcast_ravel(self.cursor(), shape@),
            r + slice_len <= slice_len * shape_product(shape@),
    {
        let n = shape.len();
        let mut idx: usize = 0;
        let mut prod: usize = slice_len;
        let mut i: usize = n;
        proof {
            assert(slice_len * 1 == slice_len) by (nonlinear_arith);
            assert(slice_len * 0 == 0) by (nonlinear_arith);
        }
        while i > 0
            invariant
                0 <= i <= n,
                n == shape@.len(),
                n == self.current_index@.len(),
                shape_positive(shape@),
                slice_len * shape_product(shape@) <= usize::MAX,
                idx == slice_len * broadcast_ravel(
                    self.current_index@.skip(i as int),
                    shape@.skip(i as int),
                ),
                prod == slice_len * shape_product(shape@.skip(i as int)),
            decreases i,
        {
            i -= 1;
            let ghost x = seq![self.current_index@[i as int]];
            let ghost y = self.current_index@.skip(i + 1);
            let ghost sp = seq![shape@[i as int]];
            let ghost ss = shape@.skip(i + 1);
            let ghost digit: nat = if self.current_index@[i as int] < shape@[i as int] {
                self.current_index@[i as int] as nat
            } else {
                0
            };
            proof {
                assert(x + y =~= self.current_index@.skip(i as int));
                assert(sp + ss =~= shape@.skip(i as int));
                lemma_broadcast_ravel_concat(x, y, sp, ss);
                lemma_product_concat(sp, ss);
                lemma_ravel_single(self.current_index@[i as int], shape@[i as int]);
                lemma_product_single(shape@[i as int]);
                lemma_broadcast_ravel_bound(y, ss);
                lemma_product_split(shape@, i as int);
                lemma_product_positive(shape@.take(i as int));
                let d = shape@[i as int] as nat;
                let ps = shape_product(ss);
                let br = broadcast_ravel(y, ss);
                let pt = shape_product(shape@.take(i as int));
                let whole = shape_product(shape@);
                let sl = slice_len as nat;
                lemma_slice_step(sl, d, ps, br, digit, pt, whole);
            }
            if self.current_index[i] < shape[i] {
                idx = idx + self.current_index[i] * prod;
            }
            prod = prod * shape[i];
        }
        proof {
            assert(self.current_index@.skip(0) =~= self.current_index@);
            assert(shape@.skip(0) =~= shape@);
            lemma_broadcast_ravel_bound(self.current_index@, shape@);
            let sl = slice_len as nat;
            let br = broadcast_ravel(self.current_index@, shape@);
            let whole = shape_product(shape@);
            assert(sl * br + sl <= sl * whole) by (nonlinear_arith)
                requires
                    br < whole,
            ;
        }
        idx
    }

    /// Hands out the next pair of blocks, or nothing once the walk is
    /// over.
    pub fn next(&mut self) -> (r: Option<(&'a [T], &'a [T])>)
        requires
            old(self).wf(),
        ensures
            final(self).wf(),
            final(self).same_walk(old(self)),
            match r {
                None => old(self).done() && final(self).done(),
                Some((slice1, slice2)) => {
                    &&& !old(self).done()
                    &&& final(self).position() == old(self).position() + 1
                    &&& old(self).offset1() + old(self).block1() <= old(self).first().data.len()
                    &&& old(self).offset2() + old(self).block2() <= old(self).second().data.len()
                    &&& slice1@ == old(self).first().data.subrange(
                        old(self).offset1() as int,
                        (old(self).offset1() + old(self).block1()) as int,
                    )
                    &&& slice2@ == old(self).second().data.subrange(
                        old(self).offset2() as int,
                        (old(self).offset2() + old(self).block2()) as int,
                    )
                },
            },
    {
        let array1: &'a Array<T> = self.array1;
        let array2: &'a Array<T> = self.array2;
        let data1 = array1.data_ref().as_slice();
        let data2 = array2.data_ref().as_slice();
        if self.done {
            None
        } else if self.current_index.len() == 0 {
            proof {
                assert(self.broadcast_shape1@ =~= Seq::<usize>::empty());
                assert(self.broadcast_shape2@ =~= Seq::<usize>::empty());
            }
            self.done = true;
            Some((data1, data2))
        } else {
            let slice1_index = self.compute_slice_index(
                self.broadcast_shape1.as_slice(),
                self.slice1_len,
            );
            let slice2_index = self.compute_slice_index(
                self.broadcast_shape2.as_slice(),
                self.slice2_len,
            );
            let slice1_len = self.slice1_len;
            let slice2_len = self.slice2_len;
            self.increment_broadcast_shape_iterator();
            Some(
                (
                    slice_subrange(data1, slice1_index, slice1_index + slice1_len),
                    slice_subrange(data2, slice2_index, slice2_index + slice2_len),
                ),
            )
        }
    }
}

/// Moves `index` to the next index of `shape` in row-major order: the
/// last coordinate advances, and a coordinate that has reached its
/// dimension goes back to zero and carries into the one before it. After
/// the last index the first coordinate stands at its dimension, and the
/// answer is `true`.
pub fn advance_index(index: &mut Vec<usize>, shape: &[usize]) -> (done: bool)
    requires
        old(index)@.len() > 0,
        shape_positive(shape@),
        index_in_range(old(index)@, shape@),
    ensures
        final(index)@.len() == shape@.len(),
        !done ==> index_in_range(final(index)@, shape@) && ravel(final(index)@, shape@) == ravel(
            old(index)@,
            shape@,
        ) + 1,
        done ==> ravel(old(index)@, shape@) + 1 == shape_product(shape@) && final(index)@[0]
            == shape@[0] && forall|k: int| 1 <= k < shape@.len() ==> final(index)@[k] == 0,
{
    let n = shape.len();
    let ghost start = index@;
    proof {
        lemma_ravel_step(start, shape@);
        lemma_ravel_bound(start, shape@);
    }
    let last = index[n - 1];
    index[n - 1] = last + 1;
    let mut done = false;
    let mut i: usize = n;
    while i > 0
        invariant
            0 <= i <= n,
            n == shape@.len(),
            n > 0,
            index@.len() == n,
            shape_positive(shape@),
            ravel(index@, shape@) == ravel(start, shape@) + 1,
            forall|k: int| 1 <= k < n && i <= k ==> index@[k] < shape@[k],
            forall|k: int| 0 <= k < i - 1 ==> index@[k] < shape@[k],
            i > 0 ==> index@[i - 1] <= shape@[i - 1],
            i > 0 ==> !done,
            i == 0 ==> (done <==> index@[0] == shape@[0]),
            i == 0 ==> index@[0] <= shape@[0],
        decreases i,
    {
        i -= 1;
        if i == 0 && index[0] == shape[0] {
            done = true;
        }
        if index[i] == shape[i] && i != 0 {
            proof {
                assert(index@[i - 1] < shape@[i - 1]);
                lemma_ravel_carry(index@, shape@, i as int);
            }
            let before = index[i - 1];
            index[i] = 0;
            index[i - 1] = before + 1;
        }
    }
    proof {
        if done {
            lemma_ravel_end_of_walk(index@, shape@);
        }
    }
    done
}

/// The arithmetic of one step of `compute_slice_index`: with `sl` the
/// block length, `d` the dimension taken in, `ps` the element count of the
/// dimensions after it, `br` the position among them, `digit` the
/// coordinate and `whole` the element count of all dimensions.
pub proof fn lemma_slice_step(sl: nat, d: nat, ps: nat, br: nat, digit: nat, pt: nat, whole: nat)
    requires
        whole == pt * (d * ps),
        pt >= 1,
        digit < d,
        br < ps,
    ensures
        sl * (d * ps) <= sl * whole,
        sl * (digit * ps + br) == sl * br + digit * (sl * ps),
        (sl * ps) * d == sl * (d * ps),
        sl * br + digit * (sl * ps) <= sl * (d * ps),
        digit * (sl * ps) <= sl * (d * ps),
{
    assert(d * ps <= pt * (d * ps)) by (nonlinear_arith)
        requires
            pt >= 1,
    ;
    assert(sl * (d * ps) <= sl * whole) by (nonlinear_arith)
        requires
            d * ps <= whole,
    ;
    assert(sl * (digit * ps + br) == sl * br + digit * (sl * ps)) by (nonlinear_arith);
    assert((sl * ps) * d == sl * (d * ps)) by (nonlinear_arith);
    assert(digit * ps + br <= d * ps) by (nonlinear_arith)
        requires
            digit < d,
            br < ps,
    ;
    assert(sl * (digit * ps + br) <= sl * (d * ps)) by (nonlinear_arith)
        requires
            digit * ps + br <= d * ps,
    ;
}

/// The index of all zeros stands at position zero.
pub proof fn lemma_ravel_zero(idx: Seq<usize>, shape: Seq<usize>)
    requires
        idx.len() == shape.len(),
        forall|k: int| 0 <= k < idx.len() ==> idx[k] == 0,
    ensures
        ravel(idx, shape) == 0,
    decreases shape.len(),
{
    if shape.len() > 0 {
        lemma_ravel_zero(idx.drop_last(), shape.drop_last());
        assert(0 * (shape.last() as nat) == 0) by (nonlinear_arith);
    }
}

/// Once the first coordinate has reached its dimension, with every other
/// coordinate in range, the position is the element count.
pub proof fn lemma_ravel_end_of_walk(idx: Seq<usize>, shape: Seq<usize>)
    requires
        idx.len() == shape.len(),
        idx.len() > 0,
        shape_positive(shape),
        idx[0] == shape[0],
        forall|k: int| 1 <= k < idx.len() ==> idx[k] < shape[k],
        ravel(idx, shape) <= shape_product(shape),
    ensures
        ravel(idx, shape) == shape_product(shape),
        forall|k: int| 1 <= k < idx.len() ==> idx[k] == 0,
{
    let rest = idx.skip(1);
    let rest_shape = shape.skip(1);
    let head = idx.take(1);
    let head_shape = shape.take(1);
    assert(idx =~= head + rest);
    assert(shape =~= head_shape + rest_shape);
    lemma_ravel_concat(head, rest, head_shape, rest_shape);
    lemma_product_concat(head_shape, rest_shape);
    assert(head =~= seq![idx[0]]);
    assert(head_shape =~= seq![shape[0]]);
    lemma_ravel_single(idx[0], shape[0]);
    lemma_product_single(shape[0]);
    let d = shape[0] as nat;
    let p = shape_product(rest_shape);
    let r = ravel(rest, rest_shape);
    assert(r == 0) by (nonlinear_arith)
        requires
            d * p + r <= d * p,
    ;
    lemma_ravel_is_zero(rest, rest_shape);
    assert forall|k: int| 1 <= k < idx.len() implies idx[k] == 0 by {}
}

/// The position of an index splits at any place into that of its leading
/// coordinates, weighted by the trailing element count, and that of its
/// trailing ones.
pub proof fn lemma_ravel_concat(x: Seq<usize>, y: Seq<usize>, sp: Seq<usize>, ss: Seq<usize>)
    requires
        y.len() == ss.len(),
        x.len() == sp.len(),
    ensures
        ravel(x + y, sp + ss) == ravel(x, sp) * shape_product(ss) + ravel(y, ss),
    decreases ss.len(),
{
    if ss.len() == 0 {
        assert(ravel(x, sp) * 1 == ravel(x, sp)) by (nonlinear_arith);
    } else {
        let d = ss.last() as nat;
        assert((x + y).drop_last() =~= x + y.drop_last());
        assert((sp + ss).drop_last() =~= sp + ss.drop_last());
        lemma_ravel_concat(x, y.drop_last(), sp, ss.drop_last());
        let a = ravel(x, sp);
        let b = shape_product(ss.drop_last());
        let c = ravel(y.drop_last(), ss.drop_last());
        assert((a * b + c) * d == a * (b * d) + c * d) by (nonlinear_arith);
    }
}

/// Among positive dimensions, only the index of all zeros stands at
/// position zero.
pub proof fn lemma_ravel_is_zero(idx: Seq<usize>, shape: Seq<usize>)
    requires
        idx.len() == shape.len(),
        shape_positive(shape),
        ravel(idx, shape) == 0,
    ensures
        forall|k: int| 0 <= k < idx.len() ==> idx[k] == 0,
    decreases shape.len(),
{
    if shape.len() > 0 {
        let r = ravel(idx.drop_last(), shape.drop_last());
        let d = shape.last() as nat;
        let x = idx.last() as nat;
        assert(r == 0 && x == 0) by (nonlinear_arith)
            requires
                r * d + x == 0,
                d >= 1,
        ;
        lemma_ravel_is_zero(idx.drop_last(), shape.drop_last());
        assert forall|k: int| 0 <= k < idx.len() implies idx[k] == 0 by {
            if k < idx.len() - 1 {
                assert(idx[k] == idx.drop_last()[k]);
            }
        }
    }
}

/// In a broadcast result of shape `out`, position `n * b + j` reads from a
/// source of shape `src` the element `j` places into the block that the
/// index at position `n` of the leading dimensions selects, where the
/// source shares its last `trailing_dims` dimensions with the result and
/// `b` is their element count.
pub proof fn lemma_block_source(
    out: Seq<usize>,
    src: Seq<usize>,
    trailing_dims: nat,
    cursor: Seq<usize>,
    n: nat,
    j: nat,
)
    requires
        trailing_dims <= src.len() <= out.len(),
        out.skip(out.len() - trailing_dims) == src.skip(src.len() - trailing_dims),
        shape_positive(out),
        index_in_range(cursor, out.take(out.len() - trailing_dims)),
        ravel(cursor, out.take(out.len() - trailing_dims)) == n,
        j < shape_product(src.skip(src.len() - trailing_dims)),
    ensures
        broadcast_source(out, src, n * shape_product(src.skip(src.len() - trailing_dims)) + j)
            == shape_product(src.skip(src.len() - trailing_dims)) * broadcast_ravel(
            cursor,
            leading_shape(src, trailing_dims, cursor.len()),
        ) + j,
{
    let tail = src.skip(src.len() - trailing_dims);
    let out_lead = out.take(out.len() - trailing_dims);
    let src_lead = src.take(src.len() - trailing_dims);
    assert(out =~= out_lead + tail);
    assert(src =~= src_lead + tail);
    lemma_unravel_ravel(cursor, out_lead);
    lemma_broadcast_source_split(out_lead, src_lead, tail, n, j);
    lemma_broadcast_ravel_padded(cursor, src_lead);
    let a = broadcast_ravel(cursor, src_lead);
    let b = shape_product(tail);
    assert(a * b == b * a) by (nonlinear_arith);
}

/// The block that the cursor selects in a source is the one that
/// broadcasting puts at the cursor's position.
pub proof fn lemma_block_start(lead: Seq<usize>, src_lead: Seq<usize>, cursor: Seq<usize>, n: nat)
    requires
        index_in_range(cursor, lead),
        ravel(cursor, lead) == n,
        src_lead.len() <= lead.len(),
    ensures
        broadcast_ravel(cursor, padded_shape(src_lead, cursor.len())) == broadcast_source(
            lead,
            src_lead,
            n,
        ),
{
    lemma_unravel_ravel(cursor, lead);
    lemma_broadcast_ravel_padded(cursor, src_lead);
}

/// The padded leading dimensions are positive and hold as many elements as
/// the leading dimensions themselves.
pub proof fn lemma_leading_product(shape: Seq<usize>, trailing_dims: nat, rank: nat)
    requires
        shape_positive(shape),
        trailing_dims <= shape.len(),
        shape.len() - trailing_dims <= rank,
    ensures
        shape_positive(leading_shape(shape, trailing_dims, rank)),
        leading_shape(shape, trailing_dims, rank).len() == rank,
        shape_product(leading_shape(shape, trailing_dims, rank)) == shape_product(
            shape.take(shape.len() - trailing_dims),
        ),
{
    let lead = shape.take(shape.len() - trailing_dims);
    let k = (rank - lead.len()) as nat;
    lemma_product_concat(ones_shape(k), lead);
    lemma_product_ones(k);
}

/// Dimensions of length one hold one element.
pub proof fn lemma_product_ones(k: nat)
    ensures
        shape_product(ones_shape(k)) == 1,
    decreases k,
{
    if k > 0 {
        assert(ones_shape(k).drop_last() =~= ones_shape((k - 1) as nat));
        lemma_product_ones((k - 1) as nat);
    }
}

/// Pads the leading dimensions of two shapes, those before the last
/// `trailing_dims`, with ones on the left to a common length.
pub fn get_padded_broadcast_shapes(shape1: &[usize], shape2: &[usize], trailing_dims: usize) -> (r:
    (Vec<usize>, Vec<usize>))
    requires
        trailing_dims <= shape1@.len(),
        trailing_dims <= shape2@.len(),
    ensures
        r.0@ == leading_shape(
            shape1@,
            trailing_dims as nat,
            (max_len(shape1@.len(), shape2@.len()) - trailing_dims) as nat,
        ),
        r.1@ == leading_shape(
            shape2@,
            trailing_dims as nat,
            (max_len(shape1@.len(), shape2@.len()) - trailing_dims) as nat,
        ),
{
    let shape1_len = shape1.len();
    let shape2_len = shape2.len();
    let shape1_trunc = slice_subrange(shape1, 0, shape1_len - trailing_dims);
    let shape2_trunc = slice_subrange(shape2, 0, shape2_len - trailing_dims);
    let pad1 = if shape2_len > shape1_len {
        shape2_len - shape1_len
    } else {
        0
    };
    let pad2 = if shape1_len > shape2_len {
        shape1_len - shape2_len
    } else {
        0
    };
    let mut broadcast_shape1 = filled(1usize, pad1);
    let mut broadcast_shape2 = filled(1usize, pad2);
    append_copy(&mut broadcast_shape1, shape1_trunc);
    append_copy(&mut broadcast_shape2, shape2_trunc);
    proof {
        let rank = (max_len(shape1@.len(), shape2@.len()) - trailing_dims) as nat;
    }
    (broadcast_shape1, broadcast_shape2)
}

/// Appends a copy of `tail` to `v`.
pub fn append_copy<T: Copy>(v: &mut Vec<T>, tail: &[T])
    ensures
        final(v)@ == old(v)@ + tail@,
{
    let mut i: usize = 0;
    while i < tail.len()
        invariant
            i <= tail@.len(),
            v@ =~= old(v)@ + tail@.take(i as int),
        decreases tail@.len() - i,
    {
        v.push(tail[i]);
        i += 1;
    }
}

/// Computes the length of a block: the product of the last
/// `trailing_dims` dimensions of `shape`.
pub fn get_slice_len(shape: &[usize], trailing_dims: usize) -> (r: usize)
    requires
        trailing_dims <= shape@.len(),
        shape_positive(shape@),
        shape_product(shape@) <= usize::MAX,
    ensures
        r == shape_product(shape@.skip(shape@.len() - trailing_dims)),
        r >= 1,
{
    let n = shape.len();
    let start = n - trailing_dims;
    let ghost tail = shape@.skip(start as int);
    let mut len: usize = 1;
    let mut i: usize = start;
    while i < n
        invariant
            start <= i <= n,
            n == shape@.len(),
            tail == shape@.skip(start as int),
            shape_positive(shape@),
            shape_product(shape@) <= usize::MAX,
            len == shape_product(tail.take(i - start)),
        decreases n - i,
    {
        proof {
            assert(tail.take(i - start + 1).drop_last() =~= tail.take(i - start));
            lemma_product_prefix_le(tail, i - start + 1);
            lemma_product_split(shape@, start as int);
            lemma_product_positive(shape@.take(start as int));
            let a = shape_product(shape@.take(start as int));
            let b = shape_product(tail);
            assert(b <= a * b) by (nonlinear_arith)
                requires
                    a >= 1,
            ;
        }
        len = len * shape[i];
        i += 1;
    }
    proof {
        assert(tail.take(n - start) =~= tail);
        lemma_product_positive(tail);
    }
    len
}

} // verus!
