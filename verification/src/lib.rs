//! Predicates built from atomic rules with logical AND and OR.
//!
//! A caller supplies a type of atomic rules over some item type and combines
//! values of it into a tree. Evaluating the tree on an item consults the rules
//! at its leaves and joins what they give as `&&` and `||` do: the right
//! operand of a node is looked at only where the left one has not decided.
//!
//! * [`OpUnit`] is one node of such a tree, and [`OpUnit::check`] evaluates it.
//! * [`OpUnitTrait`] and [`Predicate`] are what a rule type provides.
//! * [`PredicateRet`] holds the root of a tree and hands out closures that
//!   evaluate it, for the three ways in which an item may be passed.
//!
//! A tree is built once and only read afterwards. Its operands are held by
//! shared handles, so that one operand can stand under several parents and
//! one tree behind several closures.
//!
//! Contracts are stated over [`Node`], the view of an [`OpUnit`]:
//! [`Node::ready`] says on which items a tree can be evaluated,
//! [`Node::yields`] what evaluation may give, and [`Node::consults`] which
//! rules it may ask. The module [`laws`] holds what is proved of them.

pub mod laws;
pub mod node;
pub mod operation;
pub mod ret;
pub mod rule;
pub mod shared;
pub mod unit;

pub use node::Node;
pub use operation::Operation;
pub use ret::PredicateRet;
pub use rule::{OpUnitTrait, Predicate};
pub use shared::OpUnitRcType;
pub use unit::OpUnit;
