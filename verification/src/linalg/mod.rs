//! The array engine: shapes, broadcasting, element-wise arithmetic, matrix
//! products, transposition and reductions.

pub mod array;
pub mod array_view;
pub mod broadcast;
pub mod error;
pub mod laws;
pub mod layout;
pub mod matmul;
pub mod numeric;
pub mod ops;
pub mod reduce;
pub mod shape;
pub mod utils;

pub use array::{Array, ArrayValue};
pub use array_view::{ArrayView, Slice};
pub use broadcast::{
    advance_index, append_copy, get_padded_broadcast_shapes, get_slice_len, leading_shape,
    lemma_block_source, lemma_block_start, lemma_leading_product, lemma_product_ones,
    lemma_ravel_concat, lemma_ravel_end_of_walk, lemma_ravel_is_zero, lemma_ravel_zero,
    lemma_slice_step, BroadcastIterator,
};
pub use error::ShapeError;
pub use numeric::{BinaryFn, Numeric};
