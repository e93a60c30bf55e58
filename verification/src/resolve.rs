//! Resolving a tree to its value and derivative.
//!
//! A tree is reduced in post-order: both operands of a node are resolved
//! before the node's rule is applied to them, the left one first. A
//! division whose divisor has resolved to zero faults, and the fault ends the
//! whole evaluation.
use vstd::prelude::*;
use crate::arith::{computes, total, Model, Op};
use crate::node::Node;
use crate::rules::{
    difference, difference_of, difference_rule, product, product_of, product_rule, quotient,
    quotient_or_fault, quotient_rule, sum, sum_of, sum_rule,
};
use crate::value::{zero_bits, DivisionByZeroFault, Outcome, Value};

verus! {

/// What `node` resolves to when every request is answered as `m` says.
pub open spec fn eval(node: Node, m: Model) -> Outcome
    decreases node,
{
    match node {
        Node::Load(v) => Ok(*v),
        Node::Add(p) => match (eval(p.0, m), eval(p.1, m)) {
            (Ok(l), Ok(r)) => Ok(sum_of(m, l, r)),
            _ => Err(DivisionByZeroFault),
        },
        Node::Sub(p) => match (eval(p.0, m), eval(p.1, m)) {
            (Ok(l), Ok(r)) => Ok(difference_of(m, l, r)),
            _ => Err(DivisionByZeroFault),
        },
        Node::Mul(p) => match (eval(p.0, m), eval(p.1, m)) {
            (Ok(l), Ok(r)) => Ok(product_of(m, l, r)),
            _ => Err(DivisionByZeroFault),
        },
        Node::Div(p) => match (eval(p.0, m), eval(p.1, m)) {
            (Ok(l), Ok(r)) => quotient_or_fault(m, l, r),
            _ => Err(DivisionByZeroFault),
        },
    }
}

/// `node` can resolve to `out` by the answers of `arith`: its operands can
/// resolve to values that the node's rule combines into `out`, and where the
/// node is a division, that divisor is not zero.
pub open spec fn yields<A: Fn(Op, u32, u32) -> u32>(node: Node, arith: &A, out: Value) -> bool
    decreases node,
{
    match node {
        Node::Load(v) => out == *v,
        Node::Add(p) => exists|l: Value, r: Value|
            yields(p.0, arith, l) && yields(p.1, arith, r) && #[trigger] sum_rule(arith, l, r, out),
        Node::Sub(p) => exists|l: Value, r: Value|
            yields(p.0, arith, l) && yields(p.1, arith, r) && #[trigger] difference_rule(
                arith,
                l,
                r,
                out,
            ),
        Node::Mul(p) => exists|l: Value, r: Value|
            yields(p.0, arith, l) && yields(p.1, arith, r) && #[trigger] product_rule(
                arith,
                l,
                r,
                out,
            ),
        Node::Div(p) => exists|l: Value, r: Value|
            yields(p.0, arith, l) && yields(p.1, arith, r) && !zero_bits(r.data)
                && #[trigger] quotient_rule(arith, l, r, out),
    }
}

/// `node` can resolve to some value by the answers of `arith`.
pub open spec fn can_yield<A: Fn(Op, u32, u32) -> u32>(node: Node, arith: &A) -> bool {
    exists|out: Value| #[trigger] yields(node, arith, out)
}

/// `node` can fault by the answers of `arith`: its left operand can; or
/// that one can resolve and the right operand can fault; or the node is a
/// division whose operands can resolve with a zero divisor.
pub open spec fn faults<A: Fn(Op, u32, u32) -> u32>(node: Node, arith: &A) -> bool
    decreases node,
{
    match node {
        Node::Load(_) => false,
        Node::Add(p) => faults(p.0, arith) || (can_yield(p.0, arith) && faults(p.1, arith)),
        Node::Sub(p) => faults(p.0, arith) || (can_yield(p.0, arith) && faults(p.1, arith)),
        Node::Mul(p) => faults(p.0, arith) || (can_yield(p.0, arith) && faults(p.1, arith)),
        Node::Div(p) => faults(p.0, arith) || (can_yield(p.0, arith) && faults(p.1, arith))
            || exists|l: Value, r: Value|
            #[trigger] yields(p.0, arith, l) && #[trigger] yields(p.1, arith, r) && zero_bits(
                r.data,
            ),
    }
}

/// `out` is an outcome that `node` can have by the answers of `arith`.
pub open spec fn resolves<A: Fn(Op, u32, u32) -> u32>(node: Node, arith: &A, out: Outcome) -> bool {
    match out {
        Ok(value) => yields(node, arith, value),
        Err(_) => faults(node, arith),
    }
}

impl Node {
    /// Resolves the tree with `arith`, consuming it.
    ///
    /// The outcome is one that the tree can have by the answers that `arith`
    /// gives. Where those answers are determined by the requests, it is the
    /// outcome that the function they compute leads to.
    pub fn resolve<A: Fn(Op, u32, u32) -> u32>(self, arith: &A) -> (out: Outcome)
        requires
            total(arith),
        ensures
            resolves(self, arith, out),
            forall|m: Model| #[trigger] computes(arith, m) ==> out == eval(self, m),
        decreases self,
    {
        match self {
            Node::Load(value) => Ok(*value),
            Node::Add(operands) => {
                let (lhs, rhs) = *operands;
                let l = match lhs.resolve(arith) {
                    Ok(value) => value,
                    Err(_) => return Err(DivisionByZeroFault),
                };
                let r = match rhs.resolve(arith) {
                    Ok(value) => value,
                    Err(_) => return Err(DivisionByZeroFault),
                };
                Ok(sum(arith, l, r))
            },
            Node::Sub(operands) => {
                let (lhs, rhs) = *operands;
                let l = match lhs.resolve(arith) {
                    Ok(value) => value,
                    Err(_) => return Err(DivisionByZeroFault),
                };
                let r = match rhs.resolve(arith) {
                    Ok(value) => value,
                    Err(_) => return Err(DivisionByZeroFault),
                };
                Ok(difference(arith, l, r))
            },
            Node::Mul(operands) => {
                let (lhs, rhs) = *operands;
                let l = match lhs.resolve(arith) {
                    Ok(value) => value,
                    Err(_) => return Err(DivisionByZeroFault),
                };
                let r = match rhs.resolve(arith) {
                    Ok(value) => value,
                    Err(_) => return Err(DivisionByZeroFault),
                };
                Ok(product(arith, l, r))
            },
            Node::Div(operands) => {
                let (lhs, rhs) = *operands;
                let l = match lhs.resolve(arith) {
                    Ok(value) => value,
                    Err(_) => return Err(DivisionByZeroFault),
                };
                let r = match rhs.resolve(arith) {
                    Ok(value) => value,
                    Err(_) => return Err(DivisionByZeroFault),
                };
                quotient(arith, l, r)
            },
        }
    }
}

} // verus!
