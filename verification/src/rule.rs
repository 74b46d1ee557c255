//! What a type of atomic rules provides.

use crate::node::Node;
use crate::operation::Operation;
use crate::ret::PredicateRet;
use crate::unit::OpUnit;
use std::rc::Rc;
use vstd::prelude::*;

verus! {

/// Every operand, atomic or combined, has a node that stands for it, so that
/// a tree can be walked without asking which of the two an operand is.
pub trait OpUnitTrait: Sized {
    /// The node that stands for this operand.
    ///
    /// For an atomic rule it is a `Single` node that holds the rule itself,
    /// which is the default. A type with values that are built by `And` and
    /// `Or` says here which node such a value stands for.
    open spec fn op_unit(&self) -> Node<Self> {
        Node { op: Operation::Single, lhs: Some(*self), rhs: None }
    }

    /// Hands out the node that stands for this operand.
    fn get_op_unit(self: &Rc<Self>) -> (unit: Rc<OpUnit<Self>>)
        ensures
            unit@ == self.op_unit(),
    ;
}

/// A type of atomic rules over `Item`.
///
/// An implementation writes [`Predicate::rules`]. What it says of
/// [`Predicate::accepts`] and [`Predicate::gives`] is what the contracts of
/// this crate then say of the trees built from its rules.
pub trait Predicate: OpUnitTrait + 'static {
    type Item;

    /// The items on which this rule may be consulted: all of them, unless an
    /// implementation says otherwise. Consulted on another item, a rule may
    /// fail.
    open spec fn accepts(&self, item: &Self::Item) -> bool {
        true
    }

    /// Whether consulting this rule on `item` may give `verdict`. By default
    /// nothing is said of what a rule gives. A rule need not give the same
    /// verdict each time.
    open spec fn gives(&self, item: &Self::Item, verdict: bool) -> bool {
        true
    }

    /// Consults this rule on `item`: the check that a leaf of a tree makes.
    fn rules(&self, item: &Self::Item) -> (verdict: bool)
        requires
            self.accepts(item),
        ensures
            self.gives(item, verdict),
    ;

    /// Wraps this operand as the root of a tree, ready to hand out closures.
    fn wrap_ret(self) -> (ret: PredicateRet<Self>)
        ensures
            ret@ == self,
    {
        PredicateRet::new(Rc::new(self))
    }
}

} // verus!
