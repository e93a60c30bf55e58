//! Expression trees and their composition.
//!
//! A tree is built bottom-up: leaves from `Node::new`, larger trees from two
//! smaller ones by `+`, `-`, `*` and `/`. Each operand moves into the node
//! built from it, so no subtree is shared and none can be used twice.
use vstd::prelude::*;
use crate::value::Value;

verus! {

/// An arithmetic expression: a leaf, or an operation on two subtrees, the
/// left operand first.
#[derive(Debug)]
pub enum Node {
    Load(Box<Value>),
    Add(Box<(Node, Node)>),
    Sub(Box<(Node, Node)>),
    Mul(Box<(Node, Node)>),
    Div(Box<(Node, Node)>),
}

/// The leaf that holds `value`.
pub open spec fn leaf(value: Value) -> Node {
    Node::Load(Box::new(value))
}

/// The tree `lhs + rhs`.
pub open spec fn plus(lhs: Node, rhs: Node) -> Node {
    Node::Add(Box::new((lhs, rhs)))
}

/// The tree `lhs - rhs`.
pub open spec fn minus(lhs: Node, rhs: Node) -> Node {
    Node::Sub(Box::new((lhs, rhs)))
}

/// The tree `lhs * rhs`.
pub open spec fn times(lhs: Node, rhs: Node) -> Node {
    Node::Mul(Box::new((lhs, rhs)))
}

/// The tree `lhs / rhs`.
pub open spec fn over(lhs: Node, rhs: Node) -> Node {
    Node::Div(Box::new((lhs, rhs)))
}

impl Node {
    /// A leaf with the given value and derivative.
    pub fn new(data: u32, grad: u32) -> (node: Node)
        ensures
            node == leaf(Value { data, grad }),
    {
        Node::Load(Box::new(Value { data, grad }))
    }
}

impl core::ops::Add for Node {
    type Output = Node;

    /// Composes the two operands into their sum.
    fn add(self, rhs: Node) -> (node: Node)
        ensures
            node == plus(self, rhs),
    {
        Node::Add(Box::new((self, rhs)))
    }
}

impl vstd::std_specs::ops::AddSpecImpl for Node {
    open spec fn obeys_add_spec() -> bool {
        true
    }

    open spec fn add_req(self, rhs: Node) -> bool {
        true
    }

    open spec fn add_spec(self, rhs: Node) -> Node {
        plus(self, rhs)
    }
}

impl core::ops::Sub for Node {
    type Output = Node;

    /// Composes the two operands into their difference.
    fn sub(self, rhs: Node) -> (node: Node)
        ensures
            node == minus(self, rhs),
    {
        Node::Sub(Box::new((self, rhs)))
    }
}

impl vstd::std_specs::ops::SubSpecImpl for Node {
    open spec fn obeys_sub_spec() -> bool {
        true
    }

    open spec fn sub_req(self, rhs: Node) -> bool {
        true
    }

    open spec fn sub_spec(self, rhs: Node) -> Node {
        minus(self, rhs)
    }
}

impl core::ops::Mul for Node {
    type Output = Node;

    /// Composes the two operands into their product.
    fn mul(self, rhs: Node) -> (node: Node)
        ensures
            node == times(self, rhs),
    {
        Node::Mul(Box::new((self, rhs)))
    }
}

impl vstd::std_specs::ops::MulSpecImpl for Node {
    open spec fn obeys_mul_spec() -> bool {
        true
    }

    open spec fn mul_req(self, rhs: Node) -> bool {
        true
    }

    open spec fn mul_spec(self, rhs: Node) -> Node {
        times(self, rhs)
    }
}

impl core::ops::Div for Node {
    type Output = Node;

    /// Composes the two operands into their quotient. A zero divisor is
    /// found only when the tree is resolved.
    fn div(self, rhs: Node) -> (node: Node)
        ensures
            node == over(self, rhs),
    {
        Node::Div(Box::new((self, rhs)))
    }
}

impl vstd::std_specs::ops::DivSpecImpl for Node {
    open spec fn obeys_div_spec() -> bool {
        true
    }

    open spec fn div_req(self, rhs: Node) -> bool {
        true
    }

    open spec fn div_spec(self, rhs: Node) -> Node {
        over(self, rhs)
    }
}

} // verus!
