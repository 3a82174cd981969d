//! The mathematics of shapes: element counts, row-major indexing and the
//! broadcast relation, with the lemmas that the array engine rests on.

use vstd::prelude::*;

verus! {

/// The number of elements of an array of shape `s`: the product of its
/// dimensions. The empty shape holds one element.
pub open spec fn shape_product(s: Seq<usize>) -> nat
    decreases s.len(),
{
    if s.len() == 0 {
        1
    } else {
        shape_product(s.drop_last()) * (s.last() as nat)
    }
}

/// Every dimension of `s` is at least one.
pub open spec fn shape_positive(s: Seq<usize>) -> bool {
    forall|i: int| 0 <= i < s.len() ==> s[i] > 0
}

/// `idx` addresses an element of an array of shape `shape`.
pub open spec fn index_in_range(idx: Seq<usize>, shape: Seq<usize>) -> bool {
    &&& idx.len() == shape.len()
    &&& forall|i: int| 0 <= i < idx.len() ==> idx[i] < shape[i]
}

/// The position in a row-major buffer of the element that `idx` addresses.
pub open spec fn ravel(idx: Seq<usize>, shape: Seq<usize>) -> nat
    decreases shape.len(),
{
    if shape.len() == 0 || idx.len() == 0 {
        0
    } else {
        ravel(idx.drop_last(), shape.drop_last()) * (shape.last() as nat) + (idx.last() as nat)
    }
}

/// The index of the element at position `i` of a row-major buffer of shape
/// `shape`: the inverse of `ravel`.
pub open spec fn unravel(i: nat, shape: Seq<usize>) -> Seq<usize>
    decreases shape.len(),
{
    if shape.len() == 0 {
        Seq::empty()
    } else {
        unravel(i / (shape.last() as nat), shape.drop_last()).push(
            (i % (shape.last() as nat)) as usize,
        )
    }
}

/// The position, in a buffer of shape `shape`, of the element that stands
/// for index `idx` of a broadcast result. `idx` is at least as long as
/// `shape`; the two are aligned at their last entries. A coordinate that
/// does not fit its dimension, which is then of length one, counts as zero,
/// so that the one element along it is repeated.
pub open spec fn broadcast_ravel(idx: Seq<usize>, shape: Seq<usize>) -> nat
    decreases shape.len(),
{
    if shape.len() == 0 || idx.len() == 0 {
        0
    } else {
        broadcast_ravel(idx.drop_last(), shape.drop_last()) * (shape.last() as nat) + (if idx.last()
            < shape.last() {
            idx.last() as nat
        } else {
            0
        })
    }
}

/// The position in a source buffer of shape `src` of the element that is
/// read for position `i` of a broadcast result of shape `out`.
pub open spec fn broadcast_source(out: Seq<usize>, src: Seq<usize>, i: nat) -> nat {
    broadcast_ravel(unravel(i, out), src)
}

/// Two aligned dimensions can be broadcast: they are equal or one of them
/// is one.
pub open spec fn dims_compatible(a: usize, b: usize) -> bool {
    a == b || a == 1 || b == 1
}

/// Two shapes can be broadcast: aligned at their last entries, every pair
/// of dimensions is compatible. The shorter shape counts as padded with
/// ones on the left.
pub open spec fn broadcast_compatible(s1: Seq<usize>, s2: Seq<usize>) -> bool {
    forall|k: int|
        1 <= k <= s1.len() && k <= s2.len() ==> dims_compatible(
            #[trigger] s1[s1.len() - k],
            s2[s2.len() - k],
        )
}

/// The larger of two lengths.
pub open spec fn max_len(a: nat, b: nat) -> nat {
    if a >= b {
        a
    } else {
        b
    }
}

/// Dimension `i` of the broadcast of `s1` and `s2`, which has
/// `max_len(s1.len(), s2.len())` dimensions: where both shapes reach, the
/// larger of the two; else that of the longer shape.
pub open spec fn broadcast_dim(s1: Seq<usize>, s2: Seq<usize>, i: int) -> usize {
    let n = max_len(s1.len(), s2.len()) as int;
    let i1 = i - (n - s1.len());
    let i2 = i - (n - s2.len());
    if i1 < 0 {
        s2[i2]
    } else if i2 < 0 {
        s1[i1]
    } else if s1[i1] >= s2[i2] {
        s1[i1]
    } else {
        s2[i2]
    }
}

/// The shape of the broadcast of `s1` and `s2`.
pub open spec fn broadcast_shape(s1: Seq<usize>, s2: Seq<usize>) -> Seq<usize> {
    Seq::new(max_len(s1.len(), s2.len()), |i: int| broadcast_dim(s1, s2, i))
}

/// `k` ones.
pub open spec fn ones_shape(k: nat) -> Seq<usize> {
    Seq::new(k, |i: int| 1usize)
}

/// `s` padded with ones on the left to `n` dimensions.
pub open spec fn padded_shape(s: Seq<usize>, n: nat) -> Seq<usize>
    recommends
        s.len() <= n,
{
    ones_shape((n - s.len()) as nat) + s
}

/// Multiplication is associative.
pub proof fn lemma_mul_assoc3(a: nat, b: nat, c: nat)
    ensures
        (a * b) * c == a * (b * c),
{
    assert((a * b) * c == a * (b * c)) by (nonlinear_arith);
}

/// A further dimension multiplies the element count by its length.
pub proof fn lemma_product_push(s: Seq<usize>, d: usize)
    ensures
        shape_product(s.push(d)) == shape_product(s) * (d as nat),
{
    assert(s.push(d).drop_last() =~= s);
}

/// A single dimension holds as many elements as it is long.
pub proof fn lemma_product_single(d: usize)
    ensures
        shape_product(seq![d]) == d as nat,
{
    reveal_with_fuel(shape_product, 2);
    assert(1 * (d as nat) == d as nat) by (nonlinear_arith);
}

/// Two dimensions hold as many elements as their product.
pub proof fn lemma_product_pair(a: usize, b: usize)
    ensures
        shape_product(seq![a, b]) == (a as nat) * (b as nat),
{
    assert(seq![a, b].drop_last() =~= seq![a]);
    lemma_product_single(a);
}

/// A single coordinate is its own position.
pub proof fn lemma_ravel_single(c: usize, d: usize)
    ensures
        ravel(seq![c], seq![d]) == c as nat,
        broadcast_ravel(seq![c], seq![d]) == (if c < d {
            c as nat
        } else {
            0
        }),
{
    reveal_with_fuel(ravel, 2);
    reveal_with_fuel(broadcast_ravel, 2);
}

/// Positive dimensions hold at least one element.
pub proof fn lemma_product_positive(s: Seq<usize>)
    requires
        shape_positive(s),
    ensures
        shape_product(s) >= 1,
    decreases s.len(),
{
    if s.len() > 0 {
        lemma_product_positive(s.drop_last());
        let a = shape_product(s.drop_last());
        let b = s.last() as nat;
        assert(a * b >= 1) by (nonlinear_arith)
            requires
                a >= 1,
                b >= 1,
        ;
    }
}

/// The element count of two shapes in a row is the product of their element
/// counts.
pub proof fn lemma_product_concat(a: Seq<usize>, b: Seq<usize>)
    ensures
        shape_product(a + b) == shape_product(a) * shape_product(b),
    decreases b.len(),
{
    if b.len() == 0 {
        assert(shape_product(a) * 1 == shape_product(a)) by (nonlinear_arith);
    } else {
        assert((a + b).drop_last() =~= a + b.drop_last());
        lemma_product_concat(a, b.drop_last());
        lemma_mul_assoc3(shape_product(a), shape_product(b.drop_last()), b.last() as nat);
    }
}

/// The element count splits at any position into that of the leading and
/// that of the trailing dimensions.
pub proof fn lemma_product_split(s: Seq<usize>, k: int)
    requires
        0 <= k <= s.len(),
    ensures
        shape_product(s) == shape_product(s.take(k)) * shape_product(s.skip(k)),
{
    assert(s =~= s.take(k) + s.skip(k));
    lemma_product_concat(s.take(k), s.skip(k));
}

/// Among positive dimensions, no leading part holds more elements than the
/// whole.
pub proof fn lemma_product_prefix_le(s: Seq<usize>, k: int)
    requires
        shape_positive(s),
        0 <= k <= s.len(),
    ensures
        shape_product(s.take(k)) <= shape_product(s),
{
    lemma_product_split(s, k);
    lemma_product_positive(s.skip(k));
    let a = shape_product(s.take(k));
    let b = shape_product(s.skip(k));
    assert(a <= a * b) by (nonlinear_arith)
        requires
            b >= 1,
    ;
}

/// The position of an index in range lies within the buffer.
pub proof fn lemma_ravel_bound(idx: Seq<usize>, shape: Seq<usize>)
    requires
        index_in_range(idx, shape),
    ensures
        ravel(idx, shape) < shape_product(shape),
    decreases shape.len(),
{
    if shape.len() > 0 {
        lemma_ravel_bound(idx.drop_last(), shape.drop_last());
        let r = ravel(idx.drop_last(), shape.drop_last());
        let p = shape_product(shape.drop_last());
        let d = shape.last() as nat;
        let x = idx.last() as nat;
        assert(r * d + x < p * d) by (nonlinear_arith)
            requires
                r < p,
                x < d,
        ;
    }
}

/// The source position of any index lies within a source of positive
/// dimensions.
pub proof fn lemma_broadcast_ravel_bound(idx: Seq<usize>, shape: Seq<usize>)
    requires
        shape_positive(shape),
    ensures
        broadcast_ravel(idx, shape) < shape_product(shape),
    decreases shape.len(),
{
    if shape.len() == 0 || idx.len() == 0 {
        lemma_product_positive(shape);
    } else {
        lemma_broadcast_ravel_bound(idx.drop_last(), shape.drop_last());
        let r = broadcast_ravel(idx.drop_last(), shape.drop_last());
        let p = shape_product(shape.drop_last());
        let d = shape.last() as nat;
        let x: nat = if idx.last() < shape.last() {
            idx.last() as nat
        } else {
            0
        };
        assert(r * d + x < p * d) by (nonlinear_arith)
            requires
                r < p,
                x < d,
        ;
    }
}

/// For an index in range, the source position is the position.
pub proof fn lemma_broadcast_ravel_in_range(idx: Seq<usize>, shape: Seq<usize>)
    requires
        index_in_range(idx, shape),
    ensures
        broadcast_ravel(idx, shape) == ravel(idx, shape),
    decreases shape.len(),
{
    if shape.len() > 0 {
        lemma_broadcast_ravel_in_range(idx.drop_last(), shape.drop_last());
    }
}

/// The index of a position lies in range.
pub proof fn lemma_unravel_in_range(i: nat, shape: Seq<usize>)
    requires
        shape_positive(shape),
    ensures
        index_in_range(unravel(i, shape), shape),
    decreases shape.len(),
{
    if shape.len() > 0 {
        let d = shape.last() as nat;
        lemma_unravel_in_range(i / d, shape.drop_last());
        assert(i % d < d) by (nonlinear_arith)
            requires
                d > 0,
        ;
    }
}

/// Position `i` is that of the index that `unravel` gives for it.
pub proof fn lemma_ravel_unravel(i: nat, shape: Seq<usize>)
    requires
        shape_positive(shape),
        i < shape_product(shape),
    ensures
        ravel(unravel(i, shape), shape) == i,
    decreases shape.len(),
{
    if shape.len() > 0 {
        let d = shape.last() as nat;
        let p = shape_product(shape.drop_last());
        assert(i / d < p && (i / d) * d + i % d == i && i % d < d) by (nonlinear_arith)
            requires
                d > 0,
                i < p * d,
        ;
        lemma_ravel_unravel(i / d, shape.drop_last());
        lemma_unravel_in_range(i / d, shape.drop_last());
        let u = unravel(i, shape);
        assert(u.drop_last() =~= unravel(i / d, shape.drop_last()));
    }
}

/// An index in range is the one that `unravel` gives for its position.
pub proof fn lemma_unravel_ravel(idx: Seq<usize>, shape: Seq<usize>)
    requires
        index_in_range(idx, shape),
    ensures
        unravel(ravel(idx, shape), shape) =~= idx,
    decreases shape.len(),
{
    if shape.len() > 0 {
        let d = shape.last() as nat;
        let r = ravel(idx.drop_last(), shape.drop_last());
        let x = idx.last() as nat;
        lemma_unravel_ravel(idx.drop_last(), shape.drop_last());
        assert((r * d + x) / d == r && (r * d + x) % d == x) by (nonlinear_arith)
            requires
                x < d,
        ;
    }
}

/// The index of a position splits like the position: the leading
/// coordinates are those of the quotient by the trailing element count, the
/// trailing ones those of the remainder.
pub proof fn lemma_unravel_concat(n: nat, j: nat, p: Seq<usize>, s: Seq<usize>)
    requires
        shape_positive(s),
        j < shape_product(s),
    ensures
        unravel(n * shape_product(s) + j, p + s) =~= unravel(n, p) + unravel(j, s),
    decreases s.len(),
{
    if s.len() == 0 {
    } else {
        let d = s.last() as nat;
        let sp = s.drop_last();
        let lp = shape_product(sp);
        let i = n * shape_product(s) + j;
        assert(i / d == n * lp + j / d && i % d == j % d && j / d < lp) by (nonlinear_arith)
            requires
                d > 0,
                j < lp * d,
                i == n * (lp * d) + j,
        ;
        assert((p + s).drop_last() =~= p + sp);
        lemma_unravel_concat(n, j / d, p, sp);
    }
}

/// The source position of an index splits at any place into that of its
/// leading coordinates, weighted by the trailing element count, and that of
/// its trailing ones.
pub proof fn lemma_broadcast_ravel_concat(
    x: Seq<usize>,
    y: Seq<usize>,
    sp: Seq<usize>,
    ss: Seq<usize>,
)
    requires
        y.len() == ss.len(),
    ensures
        broadcast_ravel(x + y, sp + ss) == broadcast_ravel(x, sp) * shape_product(ss)
            + broadcast_ravel(y, ss),
    decreases ss.len(),
{
    if ss.len() == 0 {
        assert(broadcast_ravel(x, sp) * 1 == broadcast_ravel(x, sp)) by (nonlinear_arith);
    } else {
        let d = ss.last() as nat;
        assert((x + y).drop_last() =~= x + y.drop_last());
        assert((sp + ss).drop_last() =~= sp + ss.drop_last());
        lemma_broadcast_ravel_concat(x, y.drop_last(), sp, ss.drop_last());
        let a = broadcast_ravel(x, sp);
        let b = shape_product(ss.drop_last());
        let c = broadcast_ravel(y.drop_last(), ss.drop_last());
        assert((a * b + c) * d == a * (b * d) + c * d) by (nonlinear_arith);
    }
}

/// Along dimensions of length one every source position is zero.
pub proof fn lemma_broadcast_ravel_ones(x: Seq<usize>, k: nat)
    ensures
        broadcast_ravel(x, ones_shape(k)) == 0,
    decreases k,
{
    let s = ones_shape(k);
    if k > 0 && x.len() > 0 {
        assert(s.drop_last() =~= ones_shape((k - 1) as nat));
        lemma_broadcast_ravel_ones(x.drop_last(), (k - 1) as nat);
    }
}

/// Padding a shape with ones on the left changes no source position.
pub proof fn lemma_broadcast_ravel_padded(idx: Seq<usize>, s: Seq<usize>)
    requires
        idx.len() >= s.len(),
    ensures
        broadcast_ravel(idx, padded_shape(s, idx.len())) == broadcast_ravel(idx, s),
{
    let k = (idx.len() - s.len()) as int;
    let x = idx.take(k);
    let y = idx.skip(k);
    assert(idx =~= x + y);
    lemma_broadcast_ravel_concat(x, y, ones_shape(k as nat), s);
    lemma_broadcast_ravel_concat(x, y, Seq::<usize>::empty(), s);
    lemma_broadcast_ravel_ones(x, k as nat);
}

/// Where result and source share their trailing dimensions `s`, the source
/// position of result position `n * |s| + j` lies `j` places into the block
/// that the leading dimensions select for `n`.
pub proof fn lemma_broadcast_source_split(
    out_lead: Seq<usize>,
    src_lead: Seq<usize>,
    s: Seq<usize>,
    n: nat,
    j: nat,
)
    requires
        shape_positive(s),
        j < shape_product(s),
    ensures
        broadcast_source(out_lead + s, src_lead + s, n * shape_product(s) + j) == broadcast_source(
            out_lead,
            src_lead,
            n,
        ) * shape_product(s) + j,
{
    lemma_unravel_concat(n, j, out_lead, s);
    lemma_unravel_in_range(j, s);
    lemma_broadcast_ravel_concat(unravel(n, out_lead), unravel(j, s), src_lead, s);
    lemma_broadcast_ravel_in_range(unravel(j, s), s);
    lemma_ravel_unravel(j, s);
}

/// Moving a full coordinate one place to the left, as a carry, keeps the
/// position.
pub proof fn lemma_ravel_carry(idx: Seq<usize>, shape: Seq<usize>, i: int)
    requires
        idx.len() == shape.len(),
        0 < i < idx.len(),
        idx[i] == shape[i],
        idx[i - 1] < usize::MAX,
    ensures
        ravel(idx.update(i, 0usize).update(i - 1, (idx[i - 1] + 1) as usize), shape) == ravel(
            idx,
            shape,
        ),
    decreases shape.len(),
{
    let next = idx.update(i, 0usize).update(i - 1, (idx[i - 1] + 1) as usize);
    if i == idx.len() - 1 {
        let a = idx.drop_last();
        let b = next.drop_last();
        let sa = shape.drop_last();
        assert(b.drop_last() =~= a.drop_last());
        let r = ravel(a.drop_last(), sa.drop_last());
        let e = sa.last() as nat;
        let d = shape.last() as nat;
        let x = idx[i - 1] as nat;
        assert(ravel(b, sa) == r * e + (x + 1));
        assert((r * e + (x + 1)) * d + 0 == (r * e + x) * d + d) by (nonlinear_arith);
    } else {
        assert(next.drop_last() =~= idx.drop_last().update(i, 0usize).update(
            i - 1,
            (idx[i - 1] + 1) as usize,
        ));
        lemma_ravel_carry(idx.drop_last(), shape.drop_last(), i);
    }
}

/// Raising the last coordinate by one raises the position by one.
pub proof fn lemma_ravel_step(idx: Seq<usize>, shape: Seq<usize>)
    requires
        idx.len() == shape.len(),
        idx.len() > 0,
        idx.last() < usize::MAX,
    ensures
        ravel(idx.update(idx.len() - 1, (idx.last() + 1) as usize), shape) == ravel(idx, shape) + 1,
{
    let next = idx.update(idx.len() - 1, (idx.last() + 1) as usize);
    assert(next.drop_last() =~= idx.drop_last());
}

/// The broadcast of two compatible positive shapes is positive.
pub proof fn lemma_broadcast_shape_positive(s1: Seq<usize>, s2: Seq<usize>)
    requires
        shape_positive(s1),
        shape_positive(s2),
    ensures
        shape_positive(broadcast_shape(s1, s2)),
{
}

} // verus!
