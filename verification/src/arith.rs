//! The scalar arithmetic that resolving is carried out with.
//!
//! An arithmetic is any function from an operation and two operands to a
//! result, all scalars as bit patterns. Contracts speak of it in two ways:
//! by the answers it may give, and, where those are determined by the
//! request, by the function that it computes.
use vstd::prelude::*;

verus! {

/// The four scalar operations.
#[derive(Clone, Copy, Debug, PartialEq, Eq, Structural)]
pub enum Op {
    Add,
    Sub,
    Mul,
    Div,
}

/// A function that an arithmetic may compute.
pub type Model = spec_fn(Op, u32, u32) -> u32;

/// `arith` accepts every request.
pub open spec fn total<A: Fn(Op, u32, u32) -> u32>(arith: &A) -> bool {
    forall|op: Op, a: u32, b: u32| #[trigger] call_requires(*arith, (op, a, b))
}

/// `r` is an answer that `arith` may give when asked for `a op b`.
#[verifier::inline]
pub open spec fn answers<A: Fn(Op, u32, u32) -> u32>(
    arith: &A,
    op: Op,
    a: u32,
    b: u32,
    r: u32,
) -> bool {
    call_ensures(*arith, (op, a, b), r)
}

/// Every answer of `arith` is the one that `m` gives.
pub open spec fn computes<A: Fn(Op, u32, u32) -> u32>(arith: &A, m: Model) -> bool {
    forall|op: Op, a: u32, b: u32, r: u32| #[trigger] answers(arith, op, a, b, r) ==> r == m(op, a, b)
}

} // verus!
