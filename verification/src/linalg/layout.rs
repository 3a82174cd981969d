//! The text of an array: its elements within nested brackets, one pair of
//! brackets around the elements of each dimension.

use crate::linalg::array::Array;
use crate::linalg::broadcast::append_copy;
use crate::linalg::error::ShapeError;
use crate::linalg::numeric::Numeric;
use crate::linalg::shape::{
    lemma_product_positive, lemma_product_single, lemma_product_split, shape_positive,
    shape_product,
};
use vstd::prelude::*;

verus! {

/// Among the blocks that the last dimension, the last two dimensions and
/// so on up to the last `k` dimensions of `shape` cut the elements into,
/// the number of kinds of which one has its border at position `i`.
pub open spec fn aligned(shape: Seq<usize>, i: nat, k: nat) -> nat
    decreases k,
{
    if k == 0 {
        0
    } else {
        aligned(shape, i, (k - 1) as nat) + (if i % shape_product(shape.skip(shape.len() - k))
            == 0 {
            1nat
        } else {
            0nat
        })
    }
}

/// `n` times the character `c`.
pub open spec fn repeated(c: char, n: nat) -> Seq<char> {
    Seq::new(n, |i: int| c)
}

/// The texts of the elements as sequences of characters.
pub open spec fn texts_of(texts: Seq<Vec<char>>) -> Seq<Seq<char>> {
    Seq::new(texts.len(), |i: int| texts[i]@)
}

/// The text of element `i` with what goes around it. Where blocks begin
/// at the element, it is indented by as many spaces as dimensions begin no
/// block there, and a bracket opens for each that does. After the element
/// comes a comma and a space, unless it ends a row. Then a bracket closes
/// for each block that ends with the element, and, unless all of them end,
/// as many lines end.
pub open spec fn element_text(shape: Seq<usize>, texts: Seq<Seq<char>>, i: nat) -> Seq<char> {
    let n = shape.len();
    let opened = aligned(shape, i, n);
    let closed = aligned(shape, i + 1, n);
    let row = if n == 0 {
        1nat
    } else {
        shape.last() as nat
    };
    (if opened > 0 {
        repeated(' ', (n - opened) as nat) + repeated('[', opened)
    } else {
        Seq::empty()
    }) + texts[i as int] + (if (i + 1) % row != 0 {
        seq![',', ' ']
    } else {
        Seq::empty()
    }) + repeated(']', closed) + (if closed != n {
        repeated('\n', closed)
    } else {
        Seq::empty()
    })
}

/// The text of the first `count` elements of an array of shape `shape`,
/// each with what goes around it, in their order.
pub open spec fn layout_spec(shape: Seq<usize>, texts: Seq<Seq<char>>, count: nat) -> Seq<char>
    decreases count,
{
    if count == 0 {
        Seq::empty()
    } else {
        layout_spec(shape, texts, (count - 1) as nat) + element_text(
            shape,
            texts,
            (count - 1) as nat,
        )
    }
}

/// Appends `n` times the character `c` to `out`.
pub fn push_repeated(out: &mut Vec<char>, c: char, n: usize)
    ensures
        final(out)@ == old(out)@ + repeated(c, n as nat),
{
    let mut i: usize = 0;
    while i < n
        invariant
            i <= n,
            out@ =~= old(out)@ + repeated(c, i as nat),
        decreases n - i,
    {
        out.push(c);
        i += 1;
    }
}

/// Counts the kinds of blocks of which one has its border at position
/// `i`.
pub fn count_aligned(shape: &[usize], i: usize) -> (r: usize)
    requires
        shape_positive(shape@),
        shape_product(shape@) <= usize::MAX,
    ensures
        r == aligned(shape@, i as nat, shape@.len()),
        r <= shape@.len(),
{
    let n = shape.len();
    let mut prod: usize = 1;
    let mut count: usize = 0;
    let mut k: usize = 0;
    proof {
        assert(shape@.skip(n as int) =~= Seq::<usize>::empty());
    }
    while k < n
        invariant
            k <= n,
            n == shape@.len(),
            shape_positive(shape@),
            shape_product(shape@) <= usize::MAX,
            prod == shape_product(shape@.skip(n - k)),
            prod >= 1,
            count == aligned(shape@, i as nat, k as nat),
            count <= k,
        decreases n - k,
    {
        proof {
            let tail = shape@.skip(n - k - 1);
            assert(tail.skip(1) =~= shape@.skip(n - k));
            assert(tail.take(1) =~= seq![shape@[n - k - 1]]);
            lemma_product_split(tail, 1);
            lemma_product_single(shape@[n - k - 1]);
            lemma_product_split(shape@, n - k - 1);
            lemma_product_positive(shape@.take(n - k - 1));
            lemma_product_positive(tail);
            let a = shape_product(shape@.take(n - k - 1));
            let b = shape_product(tail);
            assert(b <= a * b) by (nonlinear_arith)
                requires
                    a >= 1,
            ;
            let d = shape@[n - k - 1] as nat;
            let p = prod as nat;
            assert(p * d == d * p) by (nonlinear_arith);
        }
        prod = prod * shape[n - 1 - k];
        if i % prod == 0 {
            count += 1;
        }
        k += 1;
    }
    count
}

impl<T: Numeric> Array<T> {
    /// Lays the texts of the elements out within nested brackets. There
    /// must be one text for each element.
    pub fn layout(&self, texts: &Vec<Vec<char>>) -> (r: Result<Vec<char>, ShapeError>)
        requires
            self.wf(),
        ensures
            match r {
                Ok(out) => texts@.len() == self@.data.len() && out@ == layout_spec(
                    self@.shape,
                    texts_of(texts@),
                    self@.data.len(),
                ),
                Err(e) => e == ShapeError::LengthMismatch && texts@.len() != self@.data.len(),
            },
    {
        let shape = self.shape_ref();
        let total = self.data_ref().len();
        if texts.len() != total {
            return Err(ShapeError::LengthMismatch);
        }
        let n = shape.len();
        let row = if n == 0 {
            1
        } else {
            shape[n - 1]
        };
        let mut out: Vec<char> = Vec::new();
        let mut i: usize = 0;
        while i < total
            invariant
                i <= total,
                self.wf(),
                shape@ == self@.shape,
                n == shape@.len(),
                total == self@.data.len(),
                texts@.len() == total,
                row >= 1,
                row == (if n == 0 {
                    1nat
                } else {
                    shape@.last() as nat
                }),
                out@ == layout_spec(shape@, texts_of(texts@), i as nat),
            decreases total - i,
        {
            let ghost before = out@;
            let opened = count_aligned(shape.as_slice(), i);
            let closed = count_aligned(shape.as_slice(), i + 1);
            if opened > 0 {
                push_repeated(&mut out, ' ', n - opened);
                push_repeated(&mut out, '[', opened);
            }
            append_copy(&mut out, texts[i].as_slice());
            if (i + 1) % row != 0 {
                out.push(',');
                out.push(' ');
            }
            push_repeated(&mut out, ']', closed);
            if closed != n {
                push_repeated(&mut out, '\n', closed);
            }
            proof {
                assert(out@ =~= before + element_text(shape@, texts_of(texts@), i as nat));
            }
            i += 1;
        }
        Ok(out)
    }
}

} // verus!
