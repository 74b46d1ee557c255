//! The operations of a predicate tree.

use vstd::prelude::*;

verus! {

/// What a node does with its operands.
///
/// `A & B` is `A` `And` `B`, `A | B` is `A` `Or` `B`, and a lone `A` is
/// `Single` with `A` as its only operand.
#[derive(Debug, Clone, Copy)]
pub enum Operation {
    And,
    Or,
    Single,
}

} // verus!
