//! A small tensor engine: dense n-dimensional arrays with broadcasting
//! arithmetic, and a computation graph with forward evaluation and
//! reverse-mode differentiation over them.
//!
//! The elements of an array are of any type that implements [`Numeric`].
//! Arrays are made and combined through [`Array`]; every operation that can
//! fail answers a [`ShapeError`]:
//!
//! ```ignore
//! let a = Array::from_vec(vec![x1, x2, x3, x4, x5, x6], vec![2, 3])?;
//! let b = Array::new(one, vec![3])?;
//! let sum = a.add(&b)?;
//! let product = a.matmul(&sum.transpose()?)?;
//! ```
//!
//! The nodes of a computation live in a [`Graph`] and are handled through
//! [`Tensor`]s. A tensor is evaluated under a [`Feed`], which holds the
//! values of the placeholders, and differentiated by any other tensor:
//!
//! ```ignore
//! let mut graph = Graph::new();
//! let a = Tensor::new_variable(&mut graph, a)?;
//! let p = Tensor::new_placeholder(&mut graph, "p".to_owned(), vec![2, 3])?;
//! let e = a.mul(&mut graph, &p)?;
//! let mut feed = Feed::new();
//! feed.insert("p".to_owned(), value);
//! let value = e.eval(&graph, Some(&feed))?;
//! let gradient = e.grad(&graph, &a, Some(&feed))?;
//! ```

pub mod graph;
pub mod linalg;
pub mod tensor;

pub use graph::{Feed, Graph, GraphError};
pub use linalg::{Array, BinaryFn, Numeric, ShapeError};
pub use tensor::reduce::{reduce_mean, reduce_sum};
pub use tensor::Tensor;
