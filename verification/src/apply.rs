//! What a list of changes does to a tree.
//!
//! A backend applies changes to its own state. The functions here say, on
//! trees, what each change means, so that the diff can be held to its purpose:
//! applied to the old tree, its changes give the new one.
use vstd::prelude::*;
use crate::change::{Change, Operation};
use crate::diff::scalar_same;
use crate::path::Step;
use crate::value::{Scalar, Tree};

verus! {

/// The subtree one step below `tree`, if the step leads anywhere. An element of
/// a text is the string scalar of its grapheme.
pub open spec fn child(tree: Tree, step: Step) -> Option<Tree> {
    match (tree, step) {
        (Tree::Mapping(_, entries), Step::Key(key)) => if entries.dom().contains(key) {
            Some(entries[key])
        } else {
            None
        },
        (Tree::List(items), Step::Index(i)) => if 0 <= i < items.len() {
            Some(items[i])
        } else {
            None
        },
        (Tree::Text(text), Step::Index(i)) => if 0 <= i < text.len() {
            Some(Tree::Primitive(Scalar::Str(text[i])))
        } else {
            None
        },
        _ => None,
    }
}

/// `tree` with `below` as the subtree one step down: under a key of a keyed
/// node, new or not, or in place of an element of a list or text.
pub open spec fn with_child(tree: Tree, step: Step, below: Tree) -> Option<Tree> {
    match (tree, step) {
        (Tree::Mapping(kind, entries), Step::Key(key)) => Some(
            Tree::Mapping(kind, entries.insert(key, below)),
        ),
        (Tree::List(items), Step::Index(i)) => if 0 <= i < items.len() {
            Some(Tree::List(items.update(i, below)))
        } else {
            None
        },
        (Tree::Text(text), Step::Index(i)) => match below {
            Tree::Primitive(Scalar::Str(grapheme)) => if 0 <= i < text.len() {
                Some(Tree::Text(text.update(i, grapheme)))
            } else {
                None
            },
            _ => None,
        },
        _ => None,
    }
}

/// `tree` with `element` inserted at the index of `step`, which may be the
/// length. Only a string scalar can be inserted into a text.
pub open spec fn with_inserted(tree: Tree, step: Step, element: Tree) -> Option<Tree> {
    match (tree, step) {
        (Tree::List(items), Step::Index(i)) => if 0 <= i <= items.len() {
            Some(Tree::List(items.insert(i, element)))
        } else {
            None
        },
        (Tree::Text(text), Step::Index(i)) => match element {
            Tree::Primitive(Scalar::Str(grapheme)) => if 0 <= i <= text.len() {
                Some(Tree::Text(text.insert(i, grapheme)))
            } else {
                None
            },
            _ => None,
        },
        _ => None,
    }
}

/// `tree` without the entry or element one step down.
pub open spec fn without_child(tree: Tree, step: Step) -> Option<Tree> {
    match (tree, step) {
        (Tree::Mapping(kind, entries), Step::Key(key)) => if entries.dom().contains(key) {
            Some(Tree::Mapping(kind, entries.remove(key)))
        } else {
            None
        },
        (Tree::List(items), Step::Index(i)) => if 0 <= i < items.len() {
            Some(Tree::List(items.remove(i)))
        } else {
            None
        },
        (Tree::Text(text), Step::Index(i)) => if 0 <= i < text.len() {
            Some(Tree::Text(text.remove(i)))
        } else {
            None
        },
        _ => None,
    }
}

/// The tree after `operation` has acted at `path`, or `None` where it cannot.
pub open spec fn apply_at(tree: Tree, path: Seq<Step>, operation: Operation) -> Option<Tree>
    decreases path.len(),
{
    if path.len() == 0 {
        match operation {
            Operation::Put(new) => Some(new),
            Operation::Increment(by) => match tree {
                Tree::Primitive(Scalar::Counter(count)) => if i64::MIN <= count + by
                    <= i64::MAX {
                    Some(Tree::Primitive(Scalar::Counter((count + by) as i64)))
                } else {
                    None
                },
                _ => None,
            },
            Operation::Delete => None,
            Operation::Insert(_) => None,
        }
    } else if path.len() == 1 && operation is Insert {
        with_inserted(tree, path[0], operation->Insert_0)
    } else if path.len() == 1 && operation is Delete {
        without_child(tree, path[0])
    } else if path.len() == 1 && operation is Put && tree is Mapping {
        with_child(tree, path[0], operation->Put_0)
    } else {
        match child(tree, path[0]) {
            Some(below) => match apply_at(below, path.drop_first(), operation) {
                Some(changed) => with_child(tree, path[0], changed),
                None => None,
            },
            None => None,
        }
    }
}

/// The tree after one change.
pub open spec fn apply(tree: Tree, change: Change) -> Option<Tree> {
    apply_at(tree, change.path, change.operation)
}

/// The tree after the changes, made in order; `None` where one of them cannot
/// be made.
pub open spec fn apply_all(tree: Tree, changes: Seq<Change>) -> Option<Tree>
    decreases changes.len(),
{
    if changes.len() == 0 {
        Some(tree)
    } else {
        match apply_all(tree, changes.drop_last()) {
            Some(before) => apply(before, changes.last()),
            None => None,
        }
    }
}

/// Two trees are the same value: of one shape, with the same keys or the same
/// length, the same text, scalars that are the same value, and subtrees that
/// are the same value in turn.
pub open spec fn tree_same(a: Tree, b: Tree) -> bool
    decreases a,
{
    match (a, b) {
        (Tree::Mapping(kind, entries), Tree::Mapping(other_kind, other_entries)) => {
            &&& kind == other_kind
            &&& entries.dom() == other_entries.dom()
            &&& forall|key: Seq<char>| #[trigger]
                entries.dom().contains(key) ==> tree_same(entries[key], other_entries[key])
        },
        (Tree::List(items), Tree::List(other_items)) => {
            &&& items.len() == other_items.len()
            &&& forall|i: int|
                0 <= i < items.len() ==> tree_same(#[trigger] items[i], other_items[i])
        },
        (Tree::Text(text), Tree::Text(other_text)) => text == other_text,
        (Tree::Primitive(scalar), Tree::Primitive(other_scalar)) => scalar_same(
            scalar,
            other_scalar,
        ),
        _ => false,
    }
}

/// Every tree is the same value as itself.
pub proof fn lemma_tree_same_reflexive(tree: Tree)
    ensures
        tree_same(tree, tree),
    decreases tree,
{
    match tree {
        Tree::Mapping(_, entries) => {
            assert forall|key: Seq<char>| #[trigger] entries.dom().contains(key) implies tree_same(
                entries[key],
                entries[key],
            ) by {
                lemma_tree_same_reflexive(entries[key]);
            }
        },
        Tree::List(items) => {
            assert forall|i: int| 0 <= i < items.len() implies tree_same(
                #[trigger] items[i],
                items[i],
            ) by {
                lemma_tree_same_reflexive(items[i]);
            }
        },
        Tree::Text(_) => {},
        Tree::Primitive(_) => {},
    }
}

/// Making one list of changes and then another is making their concatenation.
pub proof fn lemma_apply_all_concat(tree: Tree, first: Seq<Change>, second: Seq<Change>)
    ensures
        apply_all(tree, first + second) == match apply_all(tree, first) {
            Some(between) => apply_all(between, second),
            None => None,
        },
    decreases second.len(),
{
    if second.len() == 0 {
        assert(first + second =~= first);
    } else {
        assert((first + second).drop_last() =~= first + second.drop_last());
        assert((first + second).last() == second.last());
        lemma_apply_all_concat(tree, first, second.drop_last());
    }
}

/// Making a single change is applying it.
pub proof fn lemma_apply_all_single(tree: Tree, change: Change)
    ensures
        apply_all(tree, seq![change]) == apply(tree, change),
{
    assert(seq![change].drop_last() =~= Seq::<Change>::empty());
    assert(apply_all(tree, Seq::<Change>::empty()) == Some(tree));
}

} // verus!
