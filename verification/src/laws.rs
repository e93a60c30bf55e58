//! What holds of resolving, whatever the tree and the arithmetic.
//!
//! The laws on `eval` speak of an arithmetic that computes a function `m`;
//! those on `resolves` of any arithmetic, by the answers it may give.
//! `determined` connects the two.
use vstd::prelude::*;
use crate::arith::{computes, Model, Op};
use crate::node::{leaf, minus, over, plus, times, Node};
use crate::resolve::{can_yield, eval, faults, resolves, yields};
use crate::rules::{
    difference_of, difference_rule, product_of, product_rule, quotient_or_fault,
    quotient_rule, sum_of, sum_rule,
};
use crate::value::{zero_bits, DivisionByZeroFault, Outcome, Value};

verus! {

/// A leaf resolves to the value it holds, unchanged, and to nothing else.
pub proof fn leaf_identity<A: Fn(Op, u32, u32) -> u32>(
    value: Value,
    arith: &A,
    m: Model,
    out: Outcome,
)
    ensures
        eval(leaf(value), m) == Outcome::Ok(value),
        resolves(leaf(value), arith, out) <==> out == Outcome::Ok(value),
{
}

/// Sum rule on leaves: the sum of two leaves resolves to the sum of their
/// values and the sum of their derivatives.
pub proof fn sum_of_leaves(a: Value, b: Value, m: Model)
    ensures
        eval(plus(leaf(a), leaf(b)), m) == Outcome::Ok(
            Value { data: m(Op::Add, a.data, b.data), grad: m(Op::Add, a.grad, b.grad) },
        ),
{
    reveal_with_fuel(eval, 2);
}

/// Difference rule on leaves: the difference of two leaves resolves to the
/// difference of their values and the difference of their derivatives.
pub proof fn difference_of_leaves(a: Value, b: Value, m: Model)
    ensures
        eval(minus(leaf(a), leaf(b)), m) == Outcome::Ok(
            Value { data: m(Op::Sub, a.data, b.data), grad: m(Op::Sub, a.grad, b.grad) },
        ),
{
    reveal_with_fuel(eval, 2);
}

/// Product rule on leaves: the value is the product of the values, the
/// derivative is `a * b' + a' * b`.
pub proof fn product_of_leaves(a: Value, b: Value, m: Model)
    ensures
        eval(times(leaf(a), leaf(b)), m) == Outcome::Ok(
            Value {
                data: m(Op::Mul, a.data, b.data),
                grad: m(Op::Add, m(Op::Mul, a.data, b.grad), m(Op::Mul, a.grad, b.data)),
            },
        ),
{
    reveal_with_fuel(eval, 2);
}

/// Quotient rule on leaves: where the divisor is not zero, the value is the
/// quotient of the values, the derivative is `(a' * b - a * b') / (b * b)`.
pub proof fn quotient_of_leaves(a: Value, b: Value, m: Model)
    requires
        !zero_bits(b.data),
    ensures
        eval(over(leaf(a), leaf(b)), m) == Outcome::Ok(
            Value {
                data: m(Op::Div, a.data, b.data),
                grad: m(
                    Op::Div,
                    m(Op::Sub, m(Op::Mul, a.grad, b.data), m(Op::Mul, a.data, b.grad)),
                    m(Op::Mul, b.data, b.data),
                ),
            },
        ),
{
    reveal_with_fuel(eval, 2);
}

/// Division by zero: a division whose divisor resolves to zero faults,
/// whatever the dividend is and whatever the divisor's derivative.
pub proof fn zero_divisor_faults(dividend: Node, divisor: Node, m: Model)
    requires
        eval(divisor, m) matches Ok(r) && zero_bits(r.data),
    ensures
        eval(over(dividend, divisor), m) == Outcome::Err(DivisionByZeroFault),
{
}

/// A division faults only for a fault of an operand or a zero divisor.
pub proof fn division_faults_only_on_zero(dividend: Node, divisor: Node, m: Model)
    ensures
        eval(over(dividend, divisor), m) is Err <==> (eval(dividend, m) is Err || eval(
            divisor,
            m,
        ) is Err || (eval(divisor, m) matches Ok(r) && zero_bits(r.data))),
{
}

/// The rules hold at every level of a tree: a node over two subtrees that
/// resolve to `l` and `r` resolves to what its rule makes of `l` and `r`, in
/// this order.
pub proof fn rule_at_each_level(lhs: Node, rhs: Node, m: Model, l: Value, r: Value)
    requires
        eval(lhs, m) == Outcome::Ok(l),
        eval(rhs, m) == Outcome::Ok(r),
    ensures
        eval(plus(lhs, rhs), m) == Outcome::Ok(sum_of(m, l, r)),
        eval(minus(lhs, rhs), m) == Outcome::Ok(difference_of(m, l, r)),
        eval(times(lhs, rhs), m) == Outcome::Ok(product_of(m, l, r)),
        eval(over(lhs, rhs), m) == quotient_or_fault(m, l, r),
{
}

/// A fault below a node is the node's outcome, whatever its operation.
pub proof fn fault_propagates(lhs: Node, rhs: Node, m: Model)
    requires
        eval(lhs, m) is Err || eval(rhs, m) is Err,
    ensures
        eval(plus(lhs, rhs), m) is Err,
        eval(minus(lhs, rhs), m) is Err,
        eval(times(lhs, rhs), m) is Err,
        eval(over(lhs, rhs), m) is Err,
{
}

/// No division occurs in `node`.
pub open spec fn division_free(node: Node) -> bool
    decreases node,
{
    match node {
        Node::Load(_) => true,
        Node::Add(p) => division_free(p.0) && division_free(p.1),
        Node::Sub(p) => division_free(p.0) && division_free(p.1),
        Node::Mul(p) => division_free(p.0) && division_free(p.1),
        Node::Div(_) => false,
    }
}

/// A tree without a division never faults: under a function `m` it
/// resolves, and no arithmetic can make it fault.
pub proof fn division_free_resolves<A: Fn(Op, u32, u32) -> u32>(node: Node, arith: &A, m: Model)
    requires
        division_free(node),
    ensures
        eval(node, m) is Ok,
        !faults(node, arith),
    decreases node,
{
    match node {
        Node::Load(_) => {},
        Node::Add(p) => {
            division_free_resolves(p.0, arith, m);
            division_free_resolves(p.1, arith, m);
        },
        Node::Sub(p) => {
            division_free_resolves(p.0, arith, m);
            division_free_resolves(p.1, arith, m);
        },
        Node::Mul(p) => {
            division_free_resolves(p.0, arith, m);
            division_free_resolves(p.1, arith, m);
        },
        Node::Div(_) => {},
    }
}

/// A sum of three trees is resolved as it is grouped: by the sum rule on
/// the inner sum, then by the sum rule on the outer one.
pub proof fn sums_resolve_as_grouped(
    a: Node,
    b: Node,
    c: Node,
    m: Model,
    x: Value,
    y: Value,
    z: Value,
)
    requires
        eval(a, m) == Outcome::Ok(x),
        eval(b, m) == Outcome::Ok(y),
        eval(c, m) == Outcome::Ok(z),
    ensures
        eval(plus(plus(a, b), c), m) == Outcome::Ok(sum_of(m, sum_of(m, x, y), z)),
        eval(plus(a, plus(b, c)), m) == Outcome::Ok(sum_of(m, x, sum_of(m, y, z))),
{
    reveal_with_fuel(eval, 2);
}

/// Where addition under `m` is associative, the two groupings of a sum of
/// three trees have the same outcome.
pub proof fn regrouped_sums_agree(a: Node, b: Node, c: Node, m: Model)
    requires
        forall|x: u32, y: u32, z: u32| #[trigger]
            m(Op::Add, m(Op::Add, x, y), z) == m(Op::Add, x, m(Op::Add, y, z)),
    ensures
        eval(plus(plus(a, b), c), m) == eval(plus(a, plus(b, c)), m),
{
    reveal_with_fuel(eval, 2);
}

/// A division of three trees is resolved as it is grouped, each quotient
/// with its left operand as the dividend.
pub proof fn quotients_resolve_as_grouped(
    a: Node,
    b: Node,
    c: Node,
    m: Model,
    x: Value,
    y: Value,
    z: Value,
)
    requires
        eval(a, m) == Outcome::Ok(x),
        eval(b, m) == Outcome::Ok(y),
        eval(c, m) == Outcome::Ok(z),
    ensures
        eval(over(over(a, b), c), m) == (match quotient_or_fault(m, x, y) {
            Ok(q) => quotient_or_fault(m, q, z),
            Err(_) => Outcome::Err(DivisionByZeroFault),
        }),
        eval(over(a, over(b, c)), m) == (match quotient_or_fault(m, y, z) {
            Ok(q) => quotient_or_fault(m, x, q),
            Err(_) => Outcome::Err(DivisionByZeroFault),
        }),
{
    reveal_with_fuel(eval, 2);
}

/// Where every answer of `arith` is the one that `m` gives, a value that
/// `node` can resolve to is the one that it resolves to under `m`.
proof fn yields_determined<A: Fn(Op, u32, u32) -> u32>(
    node: Node,
    arith: &A,
    m: Model,
    value: Value,
)
    requires
        computes(arith, m),
        yields(node, arith, value),
    ensures
        eval(node, m) == Outcome::Ok(value),
    decreases node,
{
    match node {
        Node::Load(_) => {},
        Node::Add(p) => {
            let (l, r) = choose|l: Value, r: Value|
                yields(p.0, arith, l) && yields(p.1, arith, r) && #[trigger] sum_rule(
                    arith,
                    l,
                    r,
                    value,
                );
            yields_determined(p.0, arith, m, l);
            yields_determined(p.1, arith, m, r);
        },
        Node::Sub(p) => {
            let (l, r) = choose|l: Value, r: Value|
                yields(p.0, arith, l) && yields(p.1, arith, r) && #[trigger] difference_rule(
                    arith,
                    l,
                    r,
                    value,
                );
            yields_determined(p.0, arith, m, l);
            yields_determined(p.1, arith, m, r);
        },
        Node::Mul(p) => {
            let (l, r) = choose|l: Value, r: Value|
                yields(p.0, arith, l) && yields(p.1, arith, r) && #[trigger] product_rule(
                    arith,
                    l,
                    r,
                    value,
                );
            yields_determined(p.0, arith, m, l);
            yields_determined(p.1, arith, m, r);
        },
        Node::Div(p) => {
            let (l, r) = choose|l: Value, r: Value|
                yields(p.0, arith, l) && yields(p.1, arith, r) && !zero_bits(r.data)
                    && #[trigger] quotient_rule(arith, l, r, value);
            yields_determined(p.0, arith, m, l);
            yields_determined(p.1, arith, m, r);
        },
    }
}

/// Where every answer of `arith` is the one that `m` gives, a tree that can
/// fault does fault under `m`.
proof fn fault_determined<A: Fn(Op, u32, u32) -> u32>(node: Node, arith: &A, m: Model)
    requires
        computes(arith, m),
        faults(node, arith),
    ensures
        eval(node, m) is Err,
    decreases node,
{
    match node {
        Node::Load(_) => {},
        Node::Add(p) => {
            if faults(p.0, arith) {
                fault_determined(p.0, arith, m);
            } else {
                fault_determined(p.1, arith, m);
            }
        },
        Node::Sub(p) => {
            if faults(p.0, arith) {
                fault_determined(p.0, arith, m);
            } else {
                fault_determined(p.1, arith, m);
            }
        },
        Node::Mul(p) => {
            if faults(p.0, arith) {
                fault_determined(p.0, arith, m);
            } else {
                fault_determined(p.1, arith, m);
            }
        },
        Node::Div(p) => {
            if faults(p.0, arith) {
                fault_determined(p.0, arith, m);
            } else if can_yield(p.0, arith) && faults(p.1, arith) {
                fault_determined(p.1, arith, m);
            } else {
                let (l, r) = choose|l: Value, r: Value|
                    #[trigger] yields(p.0, arith, l) && #[trigger] yields(p.1, arith, r)
                        && zero_bits(r.data);
                yields_determined(p.0, arith, m, l);
                yields_determined(p.1, arith, m, r);
            }
        },
    }
}

/// An arithmetic whose answers are determined by the requests leaves a tree
/// one outcome: where every answer of `arith` is the one that `m` gives,
/// whatever `node` can resolve to is `eval(node, m)`.
pub proof fn determined<A: Fn(Op, u32, u32) -> u32>(
    node: Node,
    arith: &A,
    m: Model,
    out: Outcome,
)
    requires
        computes(arith, m),
        resolves(node, arith, out),
    ensures
        out == eval(node, m),
{
    match out {
        Ok(value) => yields_determined(node, arith, m, value),
        Err(fault) => {
            fault_determined(node, arith, m);
            assert(eval(node, m)->Err_0 == fault);
        },
    }
}

/// For any arithmetic, a node over two leaves can resolve exactly to what
/// its rule makes of the two leaves' values by the arithmetic's answers. A
/// division does so where the divisor is not zero, and otherwise faults.
pub proof fn rules_on_leaves<A: Fn(Op, u32, u32) -> u32>(
    a: Value,
    b: Value,
    arith: &A,
    out: Value,
)
    ensures
        yields(plus(leaf(a), leaf(b)), arith, out) <==> sum_rule(arith, a, b, out),
        yields(minus(leaf(a), leaf(b)), arith, out) <==> difference_rule(arith, a, b, out),
        yields(times(leaf(a), leaf(b)), arith, out) <==> product_rule(arith, a, b, out),
        yields(over(leaf(a), leaf(b)), arith, out) <==> !zero_bits(b.data) && quotient_rule(
            arith,
            a,
            b,
            out,
        ),
        !faults(plus(leaf(a), leaf(b)), arith),
        !faults(minus(leaf(a), leaf(b)), arith),
        !faults(times(leaf(a), leaf(b)), arith),
        faults(over(leaf(a), leaf(b)), arith) <==> zero_bits(b.data),
{
    reveal_with_fuel(yields, 2);
    reveal_with_fuel(faults, 2);
    assert(yields(leaf(a), arith, a));
    assert(yields(leaf(b), arith, b));
}

/// For any arithmetic, a division cannot resolve to a value where its
/// divisor can resolve to zero only.
pub proof fn zero_divisor_never_yields<A: Fn(Op, u32, u32) -> u32>(
    dividend: Node,
    divisor: Node,
    arith: &A,
    out: Value,
)
    requires
        forall|r: Value| #[trigger] yields(divisor, arith, r) ==> zero_bits(r.data),
    ensures
        !yields(over(dividend, divisor), arith, out),
{
    if yields(over(dividend, divisor), arith, out) {
        let (l, r) = choose|l: Value, r: Value|
            yields(dividend, arith, l) && yields(divisor, arith, r) && !zero_bits(r.data)
                && #[trigger] quotient_rule(arith, l, r, out);
        assert(yields(divisor, arith, r));
    }
}

} // verus!
