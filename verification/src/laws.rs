//! What holds of evaluation.
//!
//! The relations of [`Node`] are defined by the depth of a walk. The lemmas
//! that end in `_step` state them again without a depth, node by node; those
//! that follow are the laws of evaluation itself: what a broken node does,
//! when a tree can be evaluated, where `And` and `Or` stop, and when a verdict
//! is the only one.

use crate::node::Node;
use crate::operation::Operation;
use crate::rule::Predicate;
use vstd::prelude::*;

verus! {

/// A tree that is well formed within some depth is so within any greater one.
pub proof fn lemma_well_formed_deeper<T: Predicate>(node: Node<T>, depth: nat, deeper: nat)
    requires
        node.well_formed_within(depth),
        depth <= deeper,
    ensures
        node.well_formed_within(deeper),
    decreases depth,
{
    if !(node.op is Single) {
        lemma_well_formed_deeper(node.left(), (depth - 1) as nat, (deeper - 1) as nat);
        lemma_well_formed_deeper(node.right(), (depth - 1) as nat, (deeper - 1) as nat);
    }
}

/// A verdict that a walk of some depth gives, a deeper walk gives too.
pub proof fn lemma_yields_deeper<T: Predicate>(
    node: Node<T>,
    item: &T::Item,
    verdict: bool,
    depth: nat,
    deeper: nat,
)
    requires
        node.yields_within(item, verdict, depth),
        depth <= deeper,
    ensures
        node.yields_within(item, verdict, deeper),
    decreases depth,
{
    if !(node.op is Single) {
        let below: nat = (depth - 1) as nat;
        let deeper_below: nat = (deeper - 1) as nat;
        if node.left().yields_within(item, true, below) {
            lemma_yields_deeper(node.left(), item, true, below, deeper_below);
        }
        if node.left().yields_within(item, false, below) {
            lemma_yields_deeper(node.left(), item, false, below, deeper_below);
        }
        if node.right().yields_within(item, verdict, below) {
            lemma_yields_deeper(node.right(), item, verdict, below, deeper_below);
        }
    }
}

/// A node that is ready within some depth is ready within any greater one.
pub proof fn lemma_ready_deeper<T: Predicate>(
    node: Node<T>,
    item: &T::Item,
    depth: nat,
    deeper: nat,
)
    requires
        node.ready_within(item, depth),
        depth <= deeper,
    ensures
        node.ready_within(item, deeper),
    decreases depth,
{
    if !(node.op is Single) {
        let below: nat = (depth - 1) as nat;
        let deeper_below: nat = (deeper - 1) as nat;
        lemma_ready_deeper(node.left(), item, below, deeper_below);
        if node.right().ready_within(item, below) {
            lemma_ready_deeper(node.right(), item, below, deeper_below);
        }
    }
}

/// A rule that a walk of some depth consults, a deeper walk consults too.
pub proof fn lemma_consults_deeper<T: Predicate>(
    node: Node<T>,
    item: &T::Item,
    rule: T,
    depth: nat,
    deeper: nat,
)
    requires
        node.consults_within(item, rule, depth),
        depth <= deeper,
    ensures
        node.consults_within(item, rule, deeper),
    decreases depth,
{
    if !(node.op is Single) {
        let below: nat = (depth - 1) as nat;
        let deeper_below: nat = (deeper - 1) as nat;
        if node.left().consults_within(item, rule, below) {
            lemma_consults_deeper(node.left(), item, rule, below, deeper_below);
        }
        if node.right().consults_within(item, rule, below) {
            lemma_consults_deeper(node.right(), item, rule, below, deeper_below);
        }
    }
}

/// A tree is well formed exactly when its top node is complete and the trees
/// under its operands are well formed.
pub proof fn lemma_well_formed_step<T: Predicate>(node: Node<T>)
    ensures
        node.well_formed() == node.well_formed_step(),
{
    if node.well_formed() {
        let depth = choose|depth: nat| node.well_formed_within(depth);
        if !(node.op is Single) {
            assert(node.left().well_formed_within((depth - 1) as nat));
            assert(node.right().well_formed_within((depth - 1) as nat));
        }
    }
    if node.well_formed_step() {
        if node.op is Single {
            assert(node.well_formed_within(0));
        } else {
            let on_left = choose|depth: nat| node.left().well_formed_within(depth);
            let on_right = choose|depth: nat| node.right().well_formed_within(depth);
            let depth: nat = if on_left <= on_right {
                on_right
            } else {
                on_left
            };
            lemma_well_formed_deeper(node.left(), on_left, depth);
            lemma_well_formed_deeper(node.right(), on_right, depth);
            assert(node.well_formed_within(depth + 1));
        }
    }
}

/// A node yields a verdict exactly when one step of evaluation gives it.
pub proof fn lemma_yields_step<T: Predicate>(node: Node<T>, item: &T::Item, verdict: bool)
    ensures
        node.yields(item, verdict) == node.yields_step(item, verdict),
{
    let passed = node.op is And;
    let stopped = !passed;
    if node.yields(item, verdict) {
        let depth = choose|depth: nat| node.yields_within(item, verdict, depth);
        if !(node.op is Single) {
            let below: nat = (depth - 1) as nat;
            if node.left().yields_within(item, passed, below) {
                assert(node.left().yields(item, passed));
            }
            if node.left().yields_within(item, stopped, below) {
                assert(node.left().yields(item, stopped));
            }
            if node.right().yields_within(item, verdict, below) {
                assert(node.right().yields(item, verdict));
            }
        }
    }
    if node.yields_step(item, verdict) {
        if node.op is Single {
            assert(node.yields_within(item, verdict, 0));
        } else if verdict == stopped && node.left().yields(item, stopped) {
            let depth = choose|depth: nat| node.left().yields_within(item, stopped, depth);
            assert(node.yields_within(item, verdict, depth + 1));
        } else {
            let on_left = choose|depth: nat| node.left().yields_within(item, passed, depth);
            let on_right = choose|depth: nat| node.right().yields_within(item, verdict, depth);
            let depth: nat = if on_left <= on_right {
                on_right
            } else {
                on_left
            };
            lemma_yields_deeper(node.left(), item, passed, on_left, depth);
            lemma_yields_deeper(node.right(), item, verdict, on_right, depth);
            assert(node.yields_within(item, verdict, depth + 1));
        }
    }
}

/// A node is ready for an item exactly when one step of evaluation can be
/// taken.
pub proof fn lemma_ready_step<T: Predicate>(node: Node<T>, item: &T::Item)
    ensures
        node.ready(item) == node.ready_step(item),
{
    if node.ready(item) {
        let depth = choose|depth: nat| node.ready_within(item, depth);
        if !(node.op is Single) {
            let below: nat = (depth - 1) as nat;
            assert(node.left().ready_within(item, below));
            if node.right().ready_within(item, below) {
                assert(node.right().ready(item));
            }
        }
    }
    if node.ready_step(item) {
        if node.op is Single {
            assert(node.ready_within(item, 0));
        } else {
            let on_left = choose|depth: nat| node.left().ready_within(item, depth);
            if node.right().ready(item) {
                let on_right = choose|depth: nat| node.right().ready_within(item, depth);
                let depth: nat = if on_left <= on_right {
                    on_right
                } else {
                    on_left
                };
                lemma_ready_deeper(node.left(), item, on_left, depth);
                lemma_ready_deeper(node.right(), item, on_right, depth);
                assert(node.ready_within(item, depth + 1));
            } else {
                assert(node.ready_within(item, on_left + 1));
            }
        }
    }
}

/// A node consults a rule exactly when one step of evaluation leads to it.
pub proof fn lemma_consults_step<T: Predicate>(node: Node<T>, item: &T::Item, rule: T)
    ensures
        node.consults(item, rule) == node.consults_step(item, rule),
{
    if node.consults(item, rule) {
        let depth = choose|depth: nat| node.consults_within(item, rule, depth);
        if !(node.op is Single) {
            let below: nat = (depth - 1) as nat;
            if node.left().consults_within(item, rule, below) {
                assert(node.left().consults(item, rule));
            }
            if node.right().consults_within(item, rule, below) {
                assert(node.right().consults(item, rule));
            }
        }
    }
    if node.consults_step(item, rule) {
        if node.op is Single {
            assert(node.consults_within(item, rule, 0));
        } else if node.left().consults(item, rule) {
            let depth = choose|depth: nat| node.left().consults_within(item, rule, depth);
            assert(node.consults_within(item, rule, depth + 1));
        } else {
            let depth = choose|depth: nat| node.right().consults_within(item, rule, depth);
            assert(node.consults_within(item, rule, depth + 1));
        }
    }
}

/// A node that is ready within some depth is ready within its walk depth,
/// which is no greater.
pub proof fn lemma_walk_depth_least<T: Predicate>(node: Node<T>, item: &T::Item, depth: nat)
    requires
        node.ready_within(item, depth),
    ensures
        node.ready_within(item, node.walk_depth(item)),
        node.walk_depth(item) <= depth,
    decreases depth,
{
    if exists|less: nat| less < depth && node.ready_within(item, less) {
        let less = choose|less: nat| less < depth && node.ready_within(item, less);
        lemma_walk_depth_least(node, item, less);
    } else {
        assert(node.ready_within(item, depth) && forall|less: nat|
            node.ready_within(item, less) ==> depth <= less);
    }
}

/// Below an `And` or `Or` node that is ready, the walk goes on with less
/// depth: into the left operand, and into the right operand where the left
/// one may leave the verdict open.
pub proof fn lemma_walk_descends<T: Predicate>(node: Node<T>, item: &T::Item)
    requires
        node.ready(item),
        !(node.op is Single),
    ensures
        node.left().ready(item),
        node.left().walk_depth(item) < node.walk_depth(item),
        node.left().yields(item, node.op is And) ==> node.right().ready(item)
            && node.right().walk_depth(item) < node.walk_depth(item),
{
    let some = choose|depth: nat| node.ready_within(item, depth);
    lemma_walk_depth_least(node, item, some);
    let below: nat = (node.walk_depth(item) - 1) as nat;
    lemma_walk_depth_least(node.left(), item, below);
    if node.left().yields(item, node.op is And) {
        lemma_walk_depth_least(node.right(), item, below);
    }
}

/// What the walk consults under an operand, it consults under the node: under
/// the left operand always, under the right one where the left one may leave
/// the verdict open.
proof fn lemma_consults_below<T: Predicate>(node: Node<T>, item: &T::Item)
    requires
        !(node.op is Single),
        node.complete(),
    ensures
        forall|rule: T| node.left().consults(item, rule) ==> node.consults(item, rule),
        node.left().yields(item, node.op is And) ==> forall|rule: T|
            node.right().consults(item, rule) ==> node.consults(item, rule),
{
    assert forall|rule: T| node.left().consults(item, rule) implies node.consults(item, rule) by {
        lemma_consults_step(node, item, rule);
    }
    if node.left().yields(item, node.op is And) {
        assert forall|rule: T| node.right().consults(item, rule) implies node.consults(
            item,
            rule,
        ) by {
            lemma_consults_step(node, item, rule);
        }
    }
}

/// A node that lacks an operand that its operation needs is not well formed
/// and is ready for no item: evaluating it is a fault, and gives no verdict.
pub proof fn lemma_incomplete_never_ready<T: Predicate>(node: Node<T>, item: &T::Item)
    requires
        !node.complete(),
    ensures
        !node.well_formed(),
        !node.ready(item),
        !node.yields(item, true),
        !node.yields(item, false),
{
}

/// A rule that a walk consults under a node that is ready accepts the item,
/// whatever the depths of the two.
proof fn lemma_ready_admits_within<T: Predicate>(
    node: Node<T>,
    item: &T::Item,
    rule: T,
    depth: nat,
    other: nat,
)
    requires
        node.ready_within(item, depth),
        node.consults_within(item, rule, other),
    ensures
        rule.accepts(item),
    decreases depth,
{
    if !(node.op is Single) {
        let below: nat = (depth - 1) as nat;
        let other_below: nat = (other - 1) as nat;
        if node.left().consults_within(item, rule, other_below) {
            lemma_ready_admits_within(node.left(), item, rule, below, other_below);
        } else {
            lemma_ready_admits_within(node.right(), item, rule, below, other_below);
        }
    }
}

/// Evaluation consults a rule only on what the rule accepts: every rule that
/// a ready node may consult on `item` accepts `item`.
pub proof fn lemma_ready_admits<T: Predicate>(node: Node<T>, item: &T::Item)
    requires
        node.ready(item),
    ensures
        node.admitted(item),
{
    let depth = choose|depth: nat| node.ready_within(item, depth);
    assert forall|rule: T| node.consults(item, rule) implies rule.accepts(item) by {
        let other = choose|other: nat| node.consults_within(item, rule, other);
        lemma_ready_admits_within(node, item, rule, depth, other);
    }
}

/// A tree that is well formed within some depth is ready within that depth
/// for an item that the rules it may consult accept.
proof fn lemma_well_formed_ready_within<T: Predicate>(node: Node<T>, item: &T::Item, depth: nat)
    requires
        node.well_formed_within(depth),
        node.admitted(item),
    ensures
        node.ready_within(item, depth),
    decreases depth,
{
    if node.op is Single {
        assert(node.consults_within(item, node.lhs->0, 0));
    } else {
        lemma_consults_below(node, item);
        lemma_well_formed_ready_within(node.left(), item, (depth - 1) as nat);
        if node.left().yields(item, node.op is And) {
            lemma_well_formed_ready_within(node.right(), item, (depth - 1) as nat);
        }
    }
}

/// A well-formed tree can be evaluated on every item that the rules it may
/// consult accept: on every item, where its rules do not narrow what they
/// accept.
pub proof fn lemma_well_formed_ready<T: Predicate>(node: Node<T>, item: &T::Item)
    requires
        node.well_formed(),
        node.admitted(item),
    ensures
        node.ready(item),
{
    let depth = choose|depth: nat| node.well_formed_within(depth);
    lemma_well_formed_ready_within(node, item, depth);
}

/// `And` stops at a left operand that gives `false`. Where the left operand
/// is ready for `item` and cannot give `true`, the node is ready for `item`
/// whatever its right operand is, gives `false` only, and consults no rule
/// but those that its left operand consults.
pub proof fn lemma_and_short_circuits<T: Predicate>(node: Node<T>, item: &T::Item)
    requires
        node.op is And,
        node.complete(),
        node.left().ready(item),
        !node.left().yields(item, true),
    ensures
        node.ready(item),
        !node.yields(item, true),
        node.yields(item, false) == node.left().yields(item, false),
        forall|rule: T| node.consults(item, rule) == node.left().consults(item, rule),
{
    lemma_ready_step(node, item);
    lemma_yields_step(node, item, true);
    lemma_yields_step(node, item, false);
    assert forall|rule: T| node.consults(item, rule) == node.left().consults(item, rule) by {
        lemma_consults_step(node, item, rule);
    }
}

/// `Or` stops at a left operand that gives `true`. Where the left operand is
/// ready for `item` and cannot give `false`, the node is ready for `item`
/// whatever its right operand is, gives `true` only, and consults no rule but
/// those that its left operand consults.
pub proof fn lemma_or_short_circuits<T: Predicate>(node: Node<T>, item: &T::Item)
    requires
        node.op is Or,
        node.complete(),
        node.left().ready(item),
        !node.left().yields(item, false),
    ensures
        node.ready(item),
        !node.yields(item, false),
        node.yields(item, true) == node.left().yields(item, true),
        forall|rule: T| node.consults(item, rule) == node.left().consults(item, rule),
{
    lemma_ready_step(node, item);
    lemma_yields_step(node, item, true);
    lemma_yields_step(node, item, false);
    assert forall|rule: T| node.consults(item, rule) == node.left().consults(item, rule) by {
        lemma_consults_step(node, item, rule);
    }
}

/// Two walks through a settled node give the same verdict, whatever their
/// depths.
proof fn lemma_one_verdict_within<T: Predicate>(
    node: Node<T>,
    item: &T::Item,
    first: bool,
    second: bool,
    depth: nat,
    other: nat,
)
    requires
        node.settled(item),
        node.yields_within(item, first, depth),
        node.yields_within(item, second, other),
    ensures
        first == second,
    decreases depth,
{
    if node.op is Single {
        assert(node.consults_within(item, node.lhs->0, 0));
    } else {
        let below: nat = (depth - 1) as nat;
        let other_below: nat = (other - 1) as nat;
        let passed = node.op is And;
        lemma_consults_below(node, item);
        if node.left().yields_within(item, passed, below) {
            if node.left().yields_within(item, !passed, below) {
                lemma_one_verdict_within(node.left(), item, passed, !passed, below, below);
            }
            if node.left().yields_within(item, !passed, other_below) {
                lemma_one_verdict_within(node.left(), item, passed, !passed, below, other_below);
            }
            lemma_one_verdict_within(node.right(), item, first, second, below, other_below);
        } else {
            if node.left().yields_within(item, passed, other_below) {
                lemma_one_verdict_within(node.left(), item, !passed, passed, below, other_below);
            }
        }
    }
}

/// Evaluation is repeatable as far as the rules are: where no rule that the
/// walk may consult gives two verdicts on `item`, the node yields one verdict
/// at most, however often it is evaluated.
pub proof fn lemma_yields_one_verdict<T: Predicate>(
    node: Node<T>,
    item: &T::Item,
    first: bool,
    second: bool,
)
    requires
        node.settled(item),
        node.yields(item, first),
        node.yields(item, second),
    ensures
        first == second,
{
    let depth = choose|depth: nat| node.yields_within(item, first, depth);
    let other = choose|depth: nat| node.yields_within(item, second, depth);
    lemma_one_verdict_within(node, item, first, second, depth, other);
}

} // verus!
