//! Closures that evaluate a tree.

use crate::laws::lemma_yields_one_verdict;
use crate::rule::Predicate;
use crate::shared::share;
use std::rc::Rc;
use vstd::prelude::*;

verus! {

/// Holds the root of a predicate tree and hands out closures that evaluate it.
pub struct PredicateRet<T> {
    inner: Rc<T>,
}

impl<T> View for PredicateRet<T> {
    type V = T;

    /// The operand at the root.
    closed spec fn view(&self) -> T {
        *self.inner
    }
}

impl<T> PredicateRet<T> {
    /// Wraps the root of a tree.
    pub fn new(inner: Rc<T>) -> (ret: PredicateRet<T>)
        ensures
            ret@ == *inner,
    {
        PredicateRet { inner }
    }

    /// A new handle to the root.
    pub fn get_inner_by_clone(&self) -> (root: Rc<T>)
        ensures
            *root == self@,
    {
        share(&self.inner)
    }
}

impl<T: Predicate> PredicateRet<T> {
    /// `f` evaluates the tree on an item passed by double reference: it may
    /// be called on every item that the root's node is ready for, and gives
    /// only what that node yields.
    pub open spec fn evaluates_ref_double<F: Fn(&&T::Item) -> bool>(&self, f: F) -> bool {
        &&& forall|item: &&T::Item| self@.op_unit().ready(*item) ==> f.requires((item,))
        &&& forall|item: &&T::Item, verdict: bool|
            f.ensures((item,), verdict) ==> self@.op_unit().yields(*item, verdict)
    }

    /// `f` evaluates the tree on an item passed by reference: it may be
    /// called on every item that the root's node is ready for, and gives only
    /// what that node yields.
    pub open spec fn evaluates_ref_one<F: Fn(&T::Item) -> bool>(&self, f: F) -> bool {
        &&& forall|item: &T::Item| self@.op_unit().ready(item) ==> f.requires((item,))
        &&& forall|item: &T::Item, verdict: bool|
            f.ensures((item,), verdict) ==> self@.op_unit().yields(item, verdict)
    }

    /// `f` evaluates the tree on an item passed by value: it may be called on
    /// every item that the root's node is ready for, and gives only what that
    /// node yields.
    pub open spec fn evaluates_self<F: Fn(T::Item) -> bool>(&self, f: F) -> bool {
        &&& forall|item: T::Item| self@.op_unit().ready(&item) ==> f.requires((item,))
        &&& forall|item: T::Item, verdict: bool|
            f.ensures((item,), verdict) ==> self@.op_unit().yields(&item, verdict)
    }

    /// A closure that evaluates the tree on an item passed by double
    /// reference, as a filter over borrowed items passes it.
    ///
    /// The closure holds a handle of its own to the root. It can be called any
    /// number of times, and any number of closures can be made.
    pub fn predicate_ref_double(&self) -> (f: impl Fn(&&T::Item) -> bool)
        ensures
            self.evaluates_ref_double(f),
    {
        let root = self.get_inner_by_clone();
        let f = move |item: &&T::Item| -> (verdict: bool)
            requires
                root.op_unit().ready(*item),
            ensures
                root.op_unit().yields(*item, verdict),
            { root.get_op_unit().check(*item) };
        f
    }

    /// A closure that evaluates the tree on an item passed by reference, as a
    /// filter over owned items passes it.
    ///
    /// The closure holds a handle of its own to the root. It can be called any
    /// number of times, and any number of closures can be made.
    pub fn predicate_ref_one(&self) -> (f: impl Fn(&T::Item) -> bool)
        ensures
            self.evaluates_ref_one(f),
    {
        let root = self.get_inner_by_clone();
        let f = move |item: &T::Item| -> (verdict: bool)
            requires
                root.op_unit().ready(item),
            ensures
                root.op_unit().yields(item, verdict),
            { root.get_op_unit().check(item) };
        f
    }

    /// A closure that evaluates the tree on an item passed by value.
    ///
    /// The closure holds a handle of its own to the root. It can be called any
    /// number of times, and any number of closures can be made.
    pub fn predicate_self(&self) -> (f: impl Fn(T::Item) -> bool)
        ensures
            self.evaluates_self(f),
    {
        let root = self.get_inner_by_clone();
        let f = move |item: T::Item| -> (verdict: bool)
            requires
                root.op_unit().ready(&item),
            ensures
                root.op_unit().yields(&item, verdict),
            { root.get_op_unit().check(&item) };
        f
    }
}

/// The three shapes of closure agree: on one item, closures of one tree give
/// the same verdict whichever way the item is passed, where no rule that the
/// tree may consult gives two verdicts on it.
pub proof fn lemma_shapes_agree<T, F, G, H>(
    ret: PredicateRet<T>,
    by_double_ref: F,
    by_ref: G,
    by_value: H,
    item: T::Item,
    first: bool,
    second: bool,
    third: bool,
) where T: Predicate, F: Fn(&&T::Item) -> bool, G: Fn(&T::Item) -> bool, H: Fn(T::Item) -> bool
    requires
        ret.evaluates_ref_double(by_double_ref),
        ret.evaluates_ref_one(by_ref),
        ret.evaluates_self(by_value),
        ret@.op_unit().settled(&item),
        by_double_ref.ensures((&&item,), first),
        by_ref.ensures((&item,), second),
        by_value.ensures((item,), third),
    ensures
        first == second,
        second == third,
{
    lemma_yields_one_verdict(ret@.op_unit(), &item, first, second);
    lemma_yields_one_verdict(ret@.op_unit(), &item, second, third);
}

/// A closure by double reference can be used again: called twice on one
/// item, it gives the same verdict, where no rule that the tree may consult
/// gives two verdicts on it.
pub proof fn lemma_ref_double_repeats<T, F>(
    ret: PredicateRet<T>,
    f: F,
    item: &&T::Item,
    first: bool,
    second: bool,
) where T: Predicate, F: Fn(&&T::Item) -> bool
    requires
        ret.evaluates_ref_double(f),
        ret@.op_unit().settled(*item),
        f.ensures((item,), first),
        f.ensures((item,), second),
    ensures
        first == second,
{
    lemma_yields_one_verdict(ret@.op_unit(), *item, first, second);
}

/// A closure by reference can be used again: called twice on one item, it
/// gives the same verdict, where no rule that the tree may consult gives two
/// verdicts on it.
pub proof fn lemma_ref_one_repeats<T, F>(
    ret: PredicateRet<T>,
    f: F,
    item: &T::Item,
    first: bool,
    second: bool,
) where T: Predicate, F: Fn(&T::Item) -> bool
    requires
        ret.evaluates_ref_one(f),
        ret@.op_unit().settled(item),
        f.ensures((item,), first),
        f.ensures((item,), second),
    ensures
        first == second,
{
    lemma_yields_one_verdict(ret@.op_unit(), item, first, second);
}

/// A closure by value can be used again: called twice on one item, it gives
/// the same verdict, where no rule that the tree may consult gives two
/// verdicts on it.
pub proof fn lemma_self_repeats<T, F>(
    ret: PredicateRet<T>,
    f: F,
    item: T::Item,
    first: bool,
    second: bool,
) where T: Predicate, F: Fn(T::Item) -> bool
    requires
        ret.evaluates_self(f),
        ret@.op_unit().settled(&item),
        f.ensures((item,), first),
        f.ensures((item,), second),
    ensures
        first == second,
{
    lemma_yields_one_verdict(ret@.op_unit(), &item, first, second);
}

} // verus!
