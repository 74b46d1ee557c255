//! Nodes of a predicate tree.

use crate::laws::{lemma_ready_step, lemma_walk_descends, lemma_yields_step};
use crate::node::Node;
use crate::operation::Operation;
use crate::rule::Predicate;
use crate::shared::{held, share};
use std::rc::Rc;
use vstd::prelude::*;

verus! {

/// One node of a predicate tree: an operation and the operands it applies to.
///
/// A `Single` node is a leaf and holds an atomic rule as its left operand.
/// `And` and `Or` nodes hold two operands.
#[derive(Debug)]
pub struct OpUnit<T> {
    op: Operation,
    lhs: Option<Rc<T>>,
    rhs: Option<Rc<T>>,
}

impl<T> View for OpUnit<T> {
    type V = Node<T>;

    closed spec fn view(&self) -> Node<T> {
        Node { op: self.op, lhs: held(self.lhs), rhs: held(self.rhs) }
    }
}

impl<T> OpUnit<T> {
    /// A node that holds exactly what is passed. Whether the operands that
    /// `op` needs are there is not looked at here: [`OpUnit::check`] asks for
    /// it.
    pub fn new(lhs: Option<Rc<T>>, rhs: Option<Rc<T>>, op: Operation) -> (unit: OpUnit<T>)
        ensures
            unit@ == (Node { op, lhs: held(lhs), rhs: held(rhs) }),
    {
        OpUnit { op, lhs, rhs }
    }

    /// New handles to both operands.
    pub fn get_lhs_and_rhs(&self) -> (operands: (Option<Rc<T>>, Option<Rc<T>>))
        ensures
            held(operands.0) == self@.lhs,
            held(operands.1) == self@.rhs,
    {
        let lhs = match &self.lhs {
            Some(operand) => Some(share(operand)),
            None => None,
        };
        let rhs = match &self.rhs {
            Some(operand) => Some(share(operand)),
            None => None,
        };
        (lhs, rhs)
    }
}

impl<T: Predicate> OpUnit<T> {
    /// Evaluates this node on `item`.
    ///
    /// `And` and `Or` evaluate the node of the left operand, and that of the
    /// right operand only where the left one has not decided: after `false`
    /// under `And` and after `true` under `Or` the right operand is not looked
    /// at. `Single` consults the rule in the left operand, and does not go
    /// through that operand's node. Nothing in the tree is changed.
    ///
    /// The node must be ready for `item`. An operand that is missing where
    /// the walk comes to it is a fault in the tree's construction, and
    /// `false` would hide it. Unverified code that gets there panics.
    ///
    /// [`lemma_ready_step`] and [`lemma_yields_step`] unfold both sides of
    /// the contract node by node.
    pub fn check(&self, item: &T::Item) -> (verdict: bool)
        requires
            self@.ready(item),
        ensures
            self@.yields(item, verdict),
        decreases self@.walk_depth(item),
    {
        let (lhs, rhs) = self.get_lhs_and_rhs();
        proof {
            lemma_ready_step(self@, item);
            lemma_yields_step(self@, item, true);
            lemma_yields_step(self@, item, false);
            if !(self@.op is Single) {
                lemma_walk_descends(self@, item);
            }
        }
        match &self.op {
            Operation::And => {
                let lhs = lhs.expect("lhs is none");
                let rhs = rhs.expect("rhs is none");
                lhs.get_op_unit().check(item) && rhs.get_op_unit().check(item)
            },
            Operation::Or => {
                let lhs = lhs.expect("lhs is none");
                let rhs = rhs.expect("rhs is none");
                lhs.get_op_unit().check(item) || rhs.get_op_unit().check(item)
            },
            Operation::Single => {
                let lhs = lhs.expect("lhs is none");
                lhs.rules(item)
            },
        }
    }
}

} // verus!
