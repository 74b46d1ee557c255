//! The view of a node, and what evaluating it means.
//!
//! Evaluation is described by relations, since nothing obliges a rule to give
//! the same verdict twice: [`Node::yields`] relates an item to the verdicts
//! that evaluation may give, [`Node::ready`] holds of the items on which it
//! can be carried through, and [`Node::consults`] relates an item to the
//! rules that may be asked. A tree is as deep as the rule type makes it, so
//! each relation is defined by walks of bounded depth first, and holds where
//! it holds within some depth. The functions that end in `_step` say the same
//! without a depth.

use crate::operation::Operation;
use crate::rule::Predicate;
use vstd::prelude::*;

verus! {

/// A node of a predicate tree as a plain value: its operation and the
/// operands it holds.
///
/// An operand is a value of the rule type `T`, and the node below it is
/// `operand.op_unit()`. The tree under a node is what these two steps reach
/// in turn.
pub struct Node<T> {
    pub op: Operation,
    pub lhs: Option<T>,
    pub rhs: Option<T>,
}

impl<T: Predicate> Node<T> {
    /// The operands that the operation needs are there: the left one for
    /// `Single`, both for `And` and `Or`.
    pub open spec fn complete(self) -> bool {
        match self.op {
            Operation::Single => self.lhs is Some,
            _ => self.lhs is Some && self.rhs is Some,
        }
    }

    /// The node below the left operand.
    pub open spec fn left(self) -> Node<T>
        recommends
            self.lhs is Some,
    {
        self.lhs->0.op_unit()
    }

    /// The node below the right operand.
    pub open spec fn right(self) -> Node<T>
        recommends
            self.rhs is Some,
    {
        self.rhs->0.op_unit()
    }

    /// This node and every node under it, which lie at most `depth` nodes
    /// below it, are complete.
    pub open spec fn well_formed_within(self, depth: nat) -> bool
        decreases depth,
    {
        self.complete() && match self.op {
            Operation::Single => true,
            _ => depth > 0 && {
                &&& self.left().well_formed_within((depth - 1) as nat)
                &&& self.right().well_formed_within((depth - 1) as nat)
            },
        }
    }

    /// The tree under this node is well formed: it ends in `Single` nodes,
    /// and no node of it lacks an operand that its operation needs.
    pub open spec fn well_formed(self) -> bool {
        exists|depth: nat| self.well_formed_within(depth)
    }

    /// Evaluating this node on `item` may give `verdict`, by a walk that goes
    /// at most `depth` nodes below this one.
    ///
    /// A `Single` node gives what the rule in its left operand gives. `And`
    /// gives `false` as soon as its left operand does, and otherwise what its
    /// right operand gives; `Or` gives `true` as soon as its left operand
    /// does, and otherwise what its right operand gives.
    pub open spec fn yields_within(self, item: &T::Item, verdict: bool, depth: nat) -> bool
        decreases depth,
    {
        self.complete() && match self.op {
            Operation::Single => self.lhs->0.gives(item, verdict),
            Operation::And => depth > 0 && {
                ||| !verdict && self.left().yields_within(item, false, (depth - 1) as nat)
                ||| self.left().yields_within(item, true, (depth - 1) as nat)
                    && self.right().yields_within(item, verdict, (depth - 1) as nat)
            },
            Operation::Or => depth > 0 && {
                ||| verdict && self.left().yields_within(item, true, (depth - 1) as nat)
                ||| self.left().yields_within(item, false, (depth - 1) as nat)
                    && self.right().yields_within(item, verdict, (depth - 1) as nat)
            },
        }
    }

    /// Evaluating this node on `item` may give `verdict`.
    pub open spec fn yields(self, item: &T::Item, verdict: bool) -> bool {
        exists|depth: nat| self.yields_within(item, verdict, depth)
    }

    /// Evaluating this node on `item` can be carried through, by a walk that
    /// goes at most `depth` nodes below this one: every node it comes to is
    /// complete, and every rule it consults accepts `item`.
    ///
    /// Nothing is asked of a right operand that the walk does not come to:
    /// that of an `And` whose left operand cannot give `true`, and that of an
    /// `Or` whose left operand cannot give `false`.
    pub open spec fn ready_within(self, item: &T::Item, depth: nat) -> bool
        decreases depth,
    {
        self.complete() && match self.op {
            Operation::Single => self.lhs->0.accepts(item),
            Operation::And => depth > 0 && {
                &&& self.left().ready_within(item, (depth - 1) as nat)
                &&& self.left().yields(item, true)
                    ==> self.right().ready_within(item, (depth - 1) as nat)
            },
            Operation::Or => depth > 0 && {
                &&& self.left().ready_within(item, (depth - 1) as nat)
                &&& self.left().yields(item, false)
                    ==> self.right().ready_within(item, (depth - 1) as nat)
            },
        }
    }

    /// Evaluating this node on `item` can be carried through.
    pub open spec fn ready(self, item: &T::Item) -> bool {
        exists|depth: nat| self.ready_within(item, depth)
    }

    /// Evaluating this node on `item` may consult `rule`, at a leaf that lies
    /// at most `depth` nodes below this one.
    ///
    /// The rules under a right operand are consulted only where the left
    /// operand may leave the verdict open.
    pub open spec fn consults_within(self, item: &T::Item, rule: T, depth: nat) -> bool
        decreases depth,
    {
        self.complete() && match self.op {
            Operation::Single => self.lhs->0 == rule,
            Operation::And => depth > 0 && {
                ||| self.left().consults_within(item, rule, (depth - 1) as nat)
                ||| self.left().yields(item, true)
                    && self.right().consults_within(item, rule, (depth - 1) as nat)
            },
            Operation::Or => depth > 0 && {
                ||| self.left().consults_within(item, rule, (depth - 1) as nat)
                ||| self.left().yields(item, false)
                    && self.right().consults_within(item, rule, (depth - 1) as nat)
            },
        }
    }

    /// Evaluating this node on `item` may consult `rule`.
    pub open spec fn consults(self, item: &T::Item, rule: T) -> bool {
        exists|depth: nat| self.consults_within(item, rule, depth)
    }

    /// Every rule that evaluating this node on `item` may consult accepts
    /// `item`.
    pub open spec fn admitted(self, item: &T::Item) -> bool {
        forall|rule: T| self.consults(item, rule) ==> rule.accepts(item)
    }

    /// No rule that evaluating this node on `item` may consult gives two
    /// verdicts on `item`.
    pub open spec fn settled(self, item: &T::Item) -> bool {
        forall|rule: T, first: bool, second: bool|
            self.consults(item, rule) && rule.gives(item, first) && rule.gives(item, second)
                ==> first == second
    }

    /// The least depth within which this node is ready for `item`: the
    /// measure by which evaluation goes down the tree.
    pub open spec fn walk_depth(self, item: &T::Item) -> nat {
        choose|depth: nat|
            self.ready_within(item, depth) && forall|less: nat|
                self.ready_within(item, less) ==> depth <= less
    }

    /// [`Node::well_formed`] unfolded by one step.
    pub open spec fn well_formed_step(self) -> bool {
        self.complete() && match self.op {
            Operation::Single => true,
            _ => self.left().well_formed() && self.right().well_formed(),
        }
    }

    /// [`Node::yields`] unfolded by one step: what this node gives, in terms
    /// of what the nodes below its operands yield.
    pub open spec fn yields_step(self, item: &T::Item, verdict: bool) -> bool {
        self.complete() && match self.op {
            Operation::Single => self.lhs->0.gives(item, verdict),
            Operation::And => {
                ||| !verdict && self.left().yields(item, false)
                ||| self.left().yields(item, true) && self.right().yields(item, verdict)
            },
            Operation::Or => {
                ||| verdict && self.left().yields(item, true)
                ||| self.left().yields(item, false) && self.right().yields(item, verdict)
            },
        }
    }

    /// [`Node::consults`] unfolded by one step.
    pub open spec fn consults_step(self, item: &T::Item, rule: T) -> bool {
        self.complete() && match self.op {
            Operation::Single => self.lhs->0 == rule,
            Operation::And => {
                ||| self.left().consults(item, rule)
                ||| self.left().yields(item, true) && self.right().consults(item, rule)
            },
            Operation::Or => {
                ||| self.left().consults(item, rule)
                ||| self.left().yields(item, false) && self.right().consults(item, rule)
            },
        }
    }

    /// [`Node::ready`] unfolded by one step: what this node needs, in terms of
    /// what the nodes below its operands are ready for.
    pub open spec fn ready_step(self, item: &T::Item) -> bool {
        self.complete() && match self.op {
            Operation::Single => self.lhs->0.accepts(item),
            Operation::And => {
                &&& self.left().ready(item)
                &&& self.left().yields(item, true) ==> self.right().ready(item)
            },
            Operation::Or => {
                &&& self.left().ready(item)
                &&& self.left().yields(item, false) ==> self.right().ready(item)
            },
        }
    }
}

} // verus!
