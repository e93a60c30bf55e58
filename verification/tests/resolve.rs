use forward_ad::{DivisionByZeroFault, Node, Op, Value};

/// Single-precision arithmetic on bit patterns.
fn ieee(op: Op, a: u32, b: u32) -> u32 {
    let x = f32::from_bits(a);
    let y = f32::from_bits(b);
    let r = match op {
        Op::Add => x + y,
        Op::Sub => x - y,
        Op::Mul => x * y,
        Op::Div => x / y,
    };
    r.to_bits()
}

/// Arithmetic on the integers modulo 2^32.
fn modular(op: Op, a: u32, b: u32) -> u32 {
    match op {
        Op::Add => a.wrapping_add(b),
        Op::Sub => a.wrapping_sub(b),
        Op::Mul => a.wrapping_mul(b),
        Op::Div => a.checked_div(b).unwrap_or(0),
    }
}

fn leaf(data: f32, grad: f32) -> Node {
    Node::new(data.to_bits(), grad.to_bits())
}

fn run(node: Node) -> Result<(f32, f32), DivisionByZeroFault> {
    node.resolve(&ieee).map(|v| (f32::from_bits(v.data), f32::from_bits(v.grad)))
}

#[test]
fn leaf_resolves_to_itself() {
    assert_eq!(run(leaf(1.5, -2.25)), Ok((1.5, -2.25)));
    assert_eq!(run(leaf(0.0, 0.0)), Ok((0.0, 0.0)));
}

#[test]
fn leaf_keeps_every_bit() {
    for &(data, grad) in &[
        (0u32, 0u32),
        (0x8000_0000, 0x0000_0001),
        (0x7fc0_0001, 0xffc1_2345),
        (0x7f80_0000, 0xff80_0000),
        (u32::MAX, 0x1234_5678),
    ] {
        assert_eq!(Node::new(data, grad).resolve(&ieee), Ok(Value { data, grad }));
    }
}

#[test]
fn sum_rule_on_leaves() {
    assert_eq!(run(leaf(1.5, 2.0) + leaf(0.25, -1.0)), Ok((1.75, 1.0)));
}

#[test]
fn difference_rule_on_leaves() {
    assert_eq!(run(leaf(1.5, 2.0) - leaf(0.25, -1.0)), Ok((1.25, 3.0)));
}

#[test]
fn product_rule_on_leaves() {
    // data = 3 * 4, grad = 3 * 5 + 2 * 4
    assert_eq!(run(leaf(3.0, 2.0) * leaf(4.0, 5.0)), Ok((12.0, 23.0)));
}

#[test]
fn quotient_rule_on_leaves() {
    // data = 6 / 2, grad = (1 * 2 - 6 * 3) / (2 * 2)
    assert_eq!(run(leaf(6.0, 1.0) / leaf(2.0, 3.0)), Ok((3.0, -4.0)));
}

#[test]
fn quotient_rule_with_inexact_results() {
    let (a_d, a_g, b_d, b_g) = (1.0f32, 0.1f32, 3.0f32, 0.7f32);
    let expected = (a_d / b_d, (a_g * b_d - a_d * b_g) / (b_d * b_d));
    assert_eq!(run(leaf(a_d, a_g) / leaf(b_d, b_g)), Ok(expected));
}

#[test]
fn division_by_zero_faults() {
    assert_eq!(run(leaf(1.0, 2.0) / leaf(0.0, 3.0)), Err(DivisionByZeroFault));
}

#[test]
fn division_by_zero_faults_whatever_the_rest() {
    for &a_d in &[0.0f32, 1.0, -7.5, f32::INFINITY, f32::NAN] {
        for &a_g in &[0.0f32, -1.0, f32::MAX] {
            for &b_g in &[0.0f32, 1.0, -3.5, f32::NAN] {
                assert_eq!(run(leaf(a_d, a_g) / leaf(0.0, b_g)), Err(DivisionByZeroFault));
            }
        }
    }
}

#[test]
fn division_by_negative_zero_faults() {
    assert_eq!(run(leaf(1.0, 2.0) / leaf(-0.0, 3.0)), Err(DivisionByZeroFault));
}

#[test]
fn division_by_a_subtree_that_resolves_to_zero_faults() {
    let divisor = leaf(2.5, 1.0) - leaf(2.5, 4.0);
    assert_eq!(run(leaf(1.0, 2.0) / divisor), Err(DivisionByZeroFault));
    let divisor = leaf(0.0, 1.0) * leaf(9.0, 4.0);
    assert_eq!(run(leaf(1.0, 2.0) / divisor), Err(DivisionByZeroFault));
}

#[test]
fn division_by_a_tiny_divisor_does_not_fault() {
    let tiny = f32::from_bits(1);
    let out = run(leaf(1.0, 0.0) / leaf(tiny, 0.0));
    assert_eq!(out.map(|(data, _)| data), Ok(f32::INFINITY));
    let out = run(leaf(0.0, 0.0) / leaf(f32::MIN_POSITIVE, 0.0));
    assert_eq!(out.map(|(data, _)| data), Ok(0.0));
}

#[test]
fn division_by_nan_does_not_fault() {
    let out = run(leaf(1.0, 1.0) / leaf(f32::NAN, 1.0)).unwrap();
    assert!(out.0.is_nan());
    assert!(out.1.is_nan());
}

#[test]
fn zero_dividend_is_no_fault() {
    assert_eq!(run(leaf(0.0, 1.0) / leaf(2.0, 0.0)), Ok((0.0, 0.5)));
}

#[test]
fn fault_propagates_to_the_root() {
    let faulty = leaf(1.0, 1.0) / leaf(0.0, 1.0);
    assert_eq!(run((faulty + leaf(1.0, 1.0)) * leaf(2.0, 2.0)), Err(DivisionByZeroFault));
    let faulty = leaf(1.0, 1.0) / leaf(0.0, 1.0);
    assert_eq!(run(leaf(2.0, 2.0) - (leaf(1.0, 1.0) * faulty)), Err(DivisionByZeroFault));
    let faulty = leaf(1.0, 1.0) / leaf(0.0, 1.0);
    assert_eq!(run(leaf(2.0, 2.0) / (leaf(1.0, 1.0) + faulty)), Err(DivisionByZeroFault));
}

#[test]
fn other_operations_never_fault() {
    let zero = || leaf(0.0, 0.0);
    assert_eq!(run(zero() + zero()), Ok((0.0, 0.0)));
    assert_eq!(run(zero() - zero()), Ok((0.0, 0.0)));
    assert_eq!(run(zero() * zero()), Ok((0.0, 0.0)));
}

#[test]
fn both_groupings_of_a_sum_agree() {
    let left = (leaf(1.0, 2.0) + leaf(-2.0, 2.0)) + leaf(4.0, -1.0);
    let right = leaf(1.0, 2.0) + (leaf(-2.0, 2.0) + leaf(4.0, -1.0));
    assert_eq!(run(left), Ok((3.0, 3.0)));
    assert_eq!(run(right), Ok((3.0, 3.0)));
}

#[test]
fn both_groupings_of_a_product_agree() {
    let left = (leaf(2.0, 1.0) * leaf(3.0, 1.0)) * leaf(4.0, 1.0);
    let right = leaf(2.0, 1.0) * (leaf(3.0, 1.0) * leaf(4.0, 1.0));
    // d(xyz) = yz + xz + xy = 12 + 8 + 6
    assert_eq!(run(left), Ok((24.0, 26.0)));
    assert_eq!(run(right), Ok((24.0, 26.0)));
}

#[test]
fn groupings_of_a_sum_are_resolved_as_grouped() {
    // In single precision 1e8 + 1 rounds back to 1e8, so the grouping shows.
    let left = (leaf(1.0e8, 0.0) + leaf(1.0, 0.0)) + leaf(-1.0e8, 0.0);
    let right = leaf(1.0e8, 0.0) + (leaf(1.0, 0.0) + leaf(-1.0e8, 0.0));
    assert_eq!(run(left), Ok((0.0, 0.0)));
    assert_eq!(run(right), Ok(((1.0e8f32 + (1.0f32 + -1.0e8f32)), 0.0)));
}

#[test]
fn division_keeps_the_order_of_its_operands() {
    assert_eq!(run(leaf(6.0, 0.0) / leaf(2.0, 0.0)), Ok((3.0, 0.0)));
    assert_eq!(run(leaf(2.0, 0.0) / leaf(6.0, 0.0)), Ok((2.0f32 / 6.0f32, 0.0)));
}

#[test]
fn division_is_resolved_as_grouped() {
    let left = (leaf(8.0, 0.0) / leaf(4.0, 0.0)) / leaf(2.0, 0.0);
    let right = leaf(8.0, 0.0) / (leaf(4.0, 0.0) / leaf(2.0, 0.0));
    assert_eq!(run(left), Ok((1.0, 0.0)));
    assert_eq!(run(right), Ok((4.0, 0.0)));
}

#[test]
fn subtraction_keeps_the_order_of_its_operands() {
    assert_eq!(run(leaf(5.0, 1.0) - leaf(3.0, 4.0)), Ok((2.0, -3.0)));
    assert_eq!(run(leaf(3.0, 4.0) - leaf(5.0, 1.0)), Ok((-2.0, 3.0)));
}

#[test]
fn sum_then_product_end_to_end() {
    let a = leaf(1.0, 2.0);
    let b = leaf(-2.0, 2.0);
    let c = leaf(0.0, -1.0);
    assert_eq!(run((a + b) * c), Ok((0.0, 1.0)));
}

#[test]
fn sum_then_product_matches_the_formula() {
    let (a_d, a_g, b_d, b_g, c_d, c_g) = (1.0f32, 2.0f32, -2.0f32, 2.0f32, 0.0f32, -1.0f32);
    let data = (a_d + b_d) * c_d;
    let grad = (a_g + b_g) * c_d + (a_d + b_d) * c_g;
    let out = run((leaf(a_d, a_g) + leaf(b_d, b_g)) * leaf(c_d, c_g)).unwrap();
    assert_eq!(out.0, data);
    assert_eq!(out.1, grad);
}

#[test]
fn intermediate_sum_of_the_scenario() {
    assert_eq!(run(leaf(1.0, 2.0) + leaf(-2.0, 2.0)), Ok((-1.0, 4.0)));
}

#[test]
fn derivative_of_a_polynomial() {
    // f(x) = x * x * x - 2 * x at x = 3: f = 21, f' = 3 * 9 - 2 = 25
    let x = || leaf(3.0, 1.0);
    let two = leaf(2.0, 0.0);
    assert_eq!(run(x() * x() * x() - two * x()), Ok((21.0, 25.0)));
}

#[test]
fn derivative_of_a_rational_function() {
    // f(x) = (x + 1) / (x - 1) at x = 3: f = 2, f' = -2 / (x - 1)^2 = -0.5
    let x = || leaf(3.0, 1.0);
    let one = || leaf(1.0, 0.0);
    assert_eq!(run((x() + one()) / (x() - one())), Ok((2.0, -0.5)));
}

#[test]
fn rules_with_modular_arithmetic() {
    let a = || Node::new(7, 2);
    let b = || Node::new(5, 3);
    assert_eq!((a() + b()).resolve(&modular), Ok(Value { data: 12, grad: 5 }));
    assert_eq!((a() - b()).resolve(&modular), Ok(Value { data: 2, grad: u32::MAX }));
    // grad = 7 * 3 + 2 * 5
    assert_eq!((a() * b()).resolve(&modular), Ok(Value { data: 35, grad: 31 }));
    // grad = (2 * 5 - 7 * 3) / (5 * 5), with the numerator taken modulo 2^32
    let numerator = 10u32.wrapping_sub(21);
    assert_eq!((a() / b()).resolve(&modular), Ok(Value { data: 1, grad: numerator / 25 }));
}

#[test]
fn operands_are_resolved_before_their_node_left_first() {
    let asked = std::cell::RefCell::new(Vec::new());
    let recording = |op: Op, a: u32, b: u32| {
        asked.borrow_mut().push(op);
        ieee(op, a, b)
    };
    let tree = (leaf(1.0, 1.0) - leaf(2.0, 1.0)) / (leaf(3.0, 1.0) + leaf(4.0, 1.0));
    assert!(tree.resolve(&recording).is_ok());
    let asked = asked.into_inner();
    assert_eq!(
        asked,
        vec![
            Op::Sub,
            Op::Sub,
            Op::Add,
            Op::Add,
            Op::Div,
            Op::Mul,
            Op::Mul,
            Op::Sub,
            Op::Mul,
            Op::Div,
        ]
    );
}

#[test]
fn a_fault_on_the_left_ends_the_evaluation() {
    let asked = std::cell::Cell::new(0u32);
    let counting = |op: Op, a: u32, b: u32| {
        asked.set(asked.get() + 1);
        ieee(op, a, b)
    };
    let tree = (leaf(1.0, 1.0) / leaf(0.0, 1.0)) + (leaf(3.0, 1.0) * leaf(4.0, 1.0));
    assert_eq!(tree.resolve(&counting), Err(DivisionByZeroFault));
    assert_eq!(asked.get(), 0);
}

#[test]
fn a_zero_divisor_is_found_before_the_division_is_asked_for() {
    let asked = std::cell::RefCell::new(Vec::new());
    let recording = |op: Op, a: u32, b: u32| {
        asked.borrow_mut().push(op);
        ieee(op, a, b)
    };
    let tree = leaf(1.0, 1.0) / (leaf(2.0, 1.0) - leaf(2.0, 1.0));
    assert_eq!(tree.resolve(&recording), Err(DivisionByZeroFault));
    assert_eq!(asked.into_inner(), vec![Op::Sub, Op::Sub]);
}

#[test]
fn deep_left_leaning_tree() {
    let mut tree = leaf(0.0, 0.0);
    for _ in 0..1000 {
        tree = tree + leaf(1.0, 0.5);
    }
    assert_eq!(run(tree), Ok((1000.0, 500.0)));
}
