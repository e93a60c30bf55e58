//! Forward-mode automatic differentiation on expression trees.
//!
//! An expression is a tree of additions, subtractions, multiplications and
//! divisions over leaves that each carry a value and its derivative.
//! Resolving a tree reduces it bottom-up to one such pair by the sum,
//! difference, product and quotient rules.
//!
//! Scalars are IEEE 754 single-precision numbers held as their 32 bits. The
//! tree, the rules and the test for a zero divisor are decided here; the four
//! scalar operations themselves are performed by an arithmetic that the
//! caller hands to `Node::resolve`.
pub mod arith;
pub mod laws;
pub mod node;
pub mod resolve;
pub mod rules;
pub mod value;

pub use arith::Op;
pub use node::Node;
pub use value::{DivisionByZeroFault, Value};
