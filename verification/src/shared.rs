//! Shared ownership of operands.

use std::rc::Rc;
use vstd::prelude::*;

verus! {

/// The handle by which a tree holds its operands: a single-threaded
/// reference-counting pointer. Several parents and several closures may hold
/// the same operand, and none of them can change it.
pub type OpUnitRcType<T> = Rc<T>;

/// The operand behind a handle that may be absent.
pub open spec fn held<T>(handle: Option<Rc<T>>) -> Option<T> {
    match handle {
        Some(operand) => Some(*operand),
        None => None,
    }
}

/// `Rc::clone`, taken on trust: the new handle points to the allocation of the
/// old one, so both stand for the same value.
#[verifier::external_body]
pub(crate) fn share<T>(handle: &Rc<T>) -> (shared: Rc<T>)
    ensures
        shared == *handle,
{
    Rc::clone(handle)
}

} // verus!
