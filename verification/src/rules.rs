//! The differentiation rules, one for each operation.
//!
//! Each rule combines the resolved operands `l` and `r` into the value of
//! the node above them. It is stated twice: as the pair that a given
//! function `m` on scalars leads to, and as the pairs that an arithmetic may
//! lead to through its answers. The executable rule meets both.
use vstd::prelude::*;
use crate::arith::{answers, computes, total, Model, Op};
use crate::value::{is_zero, zero_bits, DivisionByZeroFault, Outcome, Value};

verus! {

/// Sum rule: `(l + r)' = l' + r'`.
pub open spec fn sum_of(m: Model, l: Value, r: Value) -> Value {
    Value { data: m(Op::Add, l.data, r.data), grad: m(Op::Add, l.grad, r.grad) }
}

/// Difference rule: `(l - r)' = l' - r'`.
pub open spec fn difference_of(m: Model, l: Value, r: Value) -> Value {
    Value { data: m(Op::Sub, l.data, r.data), grad: m(Op::Sub, l.grad, r.grad) }
}

/// Product rule: `(l * r)' = l * r' + l' * r`.
pub open spec fn product_of(m: Model, l: Value, r: Value) -> Value {
    Value {
        data: m(Op::Mul, l.data, r.data),
        grad: m(Op::Add, m(Op::Mul, l.data, r.grad), m(Op::Mul, l.grad, r.data)),
    }
}

/// Quotient rule: `(l / r)' = (l' * r - l * r') / (r * r)`.
pub open spec fn quotient_of(m: Model, l: Value, r: Value) -> Value {
    Value {
        data: m(Op::Div, l.data, r.data),
        grad: m(
            Op::Div,
            m(Op::Sub, m(Op::Mul, l.grad, r.data), m(Op::Mul, l.data, r.grad)),
            m(Op::Mul, r.data, r.data),
        ),
    }
}

/// The quotient of `l` and `r` under `m`, or the fault where `r` is zero.
pub open spec fn quotient_or_fault(m: Model, l: Value, r: Value) -> Outcome {
    if zero_bits(r.data) {
        Err(DivisionByZeroFault)
    } else {
        Ok(quotient_of(m, l, r))
    }
}

/// `out` is a sum of `l` and `r` by the answers of `arith`.
pub open spec fn sum_rule<A: Fn(Op, u32, u32) -> u32>(
    arith: &A,
    l: Value,
    r: Value,
    out: Value,
) -> bool {
    &&& answers(arith, Op::Add, l.data, r.data, out.data)
    &&& answers(arith, Op::Add, l.grad, r.grad, out.grad)
}

/// `out` is a difference of `l` and `r` by the answers of `arith`.
pub open spec fn difference_rule<A: Fn(Op, u32, u32) -> u32>(
    arith: &A,
    l: Value,
    r: Value,
    out: Value,
) -> bool {
    &&& answers(arith, Op::Sub, l.data, r.data, out.data)
    &&& answers(arith, Op::Sub, l.grad, r.grad, out.grad)
}

/// `out` is a product of `l` and `r` by the answers of `arith`: its
/// derivative is a sum of some `l * r'` and some `l' * r`.
pub open spec fn product_rule<A: Fn(Op, u32, u32) -> u32>(
    arith: &A,
    l: Value,
    r: Value,
    out: Value,
) -> bool {
    &&& answers(arith, Op::Mul, l.data, r.data, out.data)
    &&& exists|p: u32, q: u32|
        {
            &&& answers(arith, Op::Mul, l.data, r.grad, p)
            &&& answers(arith, Op::Mul, l.grad, r.data, q)
            &&& #[trigger] answers(arith, Op::Add, p, q, out.grad)
        }
}

/// `out` is a quotient of `l` and `r` by the answers of `arith`: its
/// derivative is some `l' * r - l * r'` divided by some `r * r`.
pub open spec fn quotient_rule<A: Fn(Op, u32, u32) -> u32>(
    arith: &A,
    l: Value,
    r: Value,
    out: Value,
) -> bool {
    &&& answers(arith, Op::Div, l.data, r.data, out.data)
    &&& exists|p: u32, q: u32, n: u32, d: u32|
        {
            &&& answers(arith, Op::Mul, l.grad, r.data, p)
            &&& answers(arith, Op::Mul, l.data, r.grad, q)
            &&& #[trigger] answers(arith, Op::Sub, p, q, n)
            &&& answers(arith, Op::Mul, r.data, r.data, d)
            &&& #[trigger] answers(arith, Op::Div, n, d, out.grad)
        }
}

/// Adds two resolved operands.
pub fn sum<A: Fn(Op, u32, u32) -> u32>(arith: &A, l: Value, r: Value) -> (out: Value)
    requires
        total(arith),
    ensures
        sum_rule(arith, l, r, out),
        forall|m: Model| #[trigger] computes(arith, m) ==> out == sum_of(m, l, r),
{
    let data = arith(Op::Add, l.data, r.data);
    let grad = arith(Op::Add, l.grad, r.grad);
    Value { data, grad }
}

/// Subtracts the resolved operand `r` from `l`.
pub fn difference<A: Fn(Op, u32, u32) -> u32>(arith: &A, l: Value, r: Value) -> (out: Value)
    requires
        total(arith),
    ensures
        difference_rule(arith, l, r, out),
        forall|m: Model| #[trigger] computes(arith, m) ==> out == difference_of(m, l, r),
{
    let data = arith(Op::Sub, l.data, r.data);
    let grad = arith(Op::Sub, l.grad, r.grad);
    Value { data, grad }
}

/// Multiplies two resolved operands.
pub fn product<A: Fn(Op, u32, u32) -> u32>(arith: &A, l: Value, r: Value) -> (out: Value)
    requires
        total(arith),
    ensures
        product_rule(arith, l, r, out),
        forall|m: Model| #[trigger] computes(arith, m) ==> out == product_of(m, l, r),
{
    let data = arith(Op::Mul, l.data, r.data);
    let p = arith(Op::Mul, l.data, r.grad);
    let q = arith(Op::Mul, l.grad, r.data);
    let grad = arith(Op::Add, p, q);
    let out = Value { data, grad };
    assert(answers(arith, Op::Add, p, q, out.grad));
    out
}

/// Divides the resolved operand `l` by `r`, unless `r` is zero: then it
/// faults, whatever `l` and the derivative of `r` are.
pub fn quotient<A: Fn(Op, u32, u32) -> u32>(arith: &A, l: Value, r: Value) -> (out: Outcome)
    requires
        total(arith),
    ensures
        out is Err <==> zero_bits(r.data),
        out matches Ok(v) ==> quotient_rule(arith, l, r, v),
        forall|m: Model| #[trigger] computes(arith, m) ==> out == quotient_or_fault(m, l, r),
{
    if is_zero(r.data) {
        return Err(DivisionByZeroFault);
    }
    let data = arith(Op::Div, l.data, r.data);
    let p = arith(Op::Mul, l.grad, r.data);
    let q = arith(Op::Mul, l.data, r.grad);
    let n = arith(Op::Sub, p, q);
    let d = arith(Op::Mul, r.data, r.data);
    let grad = arith(Op::Div, n, d);
    let out = Value { data, grad };
    assert(answers(arith, Op::Sub, p, q, n) && answers(arith, Op::Div, n, d, out.grad));
    Ok(out)
}

} // verus!
