//! Equality of value trees.
//!
//! Two values are equal when the trees they stand for are the same value:
//! the order of a keyed node's entries does not count, and floating-point
//! numbers are compared as values.
use vstd::prelude::*;
use vstd::std_specs::cmp::PartialEqSpecImpl;
use crate::apply::tree_same;
use crate::diff::{same_primitive, scalar_same};
use crate::value::{
    Primitive,
    Tree,
    Value,
    ValueMap,
    items_tree,
    lemma_key_found,
    lemma_key_index,
    string_views,
    tree_of,
};

verus! {

/// Tells whether two lists of strings hold the same strings in the same order.
pub fn same_strings(a: &Vec<String>, b: &Vec<String>) -> (same: bool)
    ensures
        same == (string_views(a@) == string_views(b@)),
{
    if a.len() != b.len() {
        assert(string_views(a@).len() != string_views(b@).len());
        return false;
    }
    let mut i: usize = 0;
    while i < a.len()
        invariant
            i <= a.len(),
            a.len() == b.len(),
            forall|j: int| 0 <= j < i ==> a@[j]@ == b@[j]@,
        decreases a.len() - i,
    {
        if a[i] != b[i] {
            assert(string_views(a@)[i as int] != string_views(b@)[i as int]);
            return false;
        }
        i += 1;
    }
    assert(string_views(a@) =~= string_views(b@));
    true
}

/// Tells whether two values stand for trees that are the same value.
pub fn same_value(a: &Value, b: &Value) -> (same: bool)
    ensures
        same == tree_same(a@, b@),
    decreases a, 1nat,
{
    match (a, b) {
        (Value::Mapping(kind, entries), Value::Mapping(other_kind, other_entries)) => {
            *kind == *other_kind && same_entries(entries, other_entries)
        },
        (Value::List(items), Value::List(other_items)) => {
            if items.len() != other_items.len() {
                return false;
            }
            let mut i: usize = 0;
            while i < items.len()
                invariant
                    i <= items.len(),
                    items.len() == other_items.len(),
                    a is List,
                    a->List_0 == *items,
                    a@ == Tree::List(items_tree(items@)),
                    b@ == Tree::List(items_tree(other_items@)),
                    forall|j: int|
                        0 <= j < i ==> tree_same(
                            #[trigger] items_tree(items@)[j],
                            items_tree(other_items@)[j],
                        ),
                decreases items.len() - i,
            {
                proof {
                    assert(decreases_to!(*a => a->List_0));
                    vstd::std_specs::vec::axiom_vec_index_decreases(*items, i as int);
                }
                if !same_value(&items[i], &other_items[i]) {
                    assert(!tree_same(items_tree(items@)[i as int], items_tree(other_items@)[i as int]));
                    return false;
                }
                i += 1;
            }
            true
        },
        (Value::Text(text), Value::Text(other_text)) => same_strings(text, other_text),
        (Value::Primitive(primitive), Value::Primitive(other_primitive)) => same_primitive(
            primitive,
            other_primitive,
        ),
        _ => false,
    }
}

/// Tells whether two keyed nodes have the same keys and, under each key,
/// values that stand for trees that are the same value.
pub fn same_entries(a: &ValueMap, b: &ValueMap) -> (same: bool)
    ensures
        same == (a@.dom() == b@.dom() && forall|key: Seq<char>| #[trigger]
            a@.dom().contains(key) ==> tree_same(a@[key], b@[key])),
    decreases a, 0nat,
{
    let ghost entries = a.entries();
    let ghost other_entries = b.entries();
    proof {
        use_type_invariant(a);
        use_type_invariant(b);
    }
    let mut i: usize = 0;
    while i < a.len()
        invariant
            i <= entries.len(),
            entries == a.entries(),
            other_entries == b.entries(),
            a.keys_are_distinct(),
            b.keys_are_distinct(),
            forall|j: int|
                0 <= j < i ==> b@.dom().contains((#[trigger] entries[j]).0@) && tree_same(
                    tree_of(entries[j].1),
                    b@[entries[j].0@],
                ),
        decreases entries.len() - i,
    {
        let key = a.key_at(i);
        let value = a.value_at(i);
        proof {
            lemma_key_index(entries, i as int);
        }
        match b.get(key.as_str()) {
            Some(other_value) => {
                proof {
                    a.lemma_entries_decrease();
                    assert(decreases_to!(entries => entries[i as int]));
                    assert(decreases_to!(entries[i as int] => entries[i as int].1));
                }
                if !same_value(value, other_value) {
                    assert(a@.dom().contains(key@));
                    assert(!tree_same(a@[key@], b@[key@]));
                    return false;
                }
            },
            None => {
                assert(a@.dom().contains(key@));
                assert(!b@.dom().contains(key@));
                return false;
            },
        }
        i += 1;
    }
    let mut j: usize = 0;
    while j < b.len()
        invariant
            j <= other_entries.len(),
            entries == a.entries(),
            other_entries == b.entries(),
            b.keys_are_distinct(),
            forall|k: int| 0 <= k < j ==> a@.dom().contains((#[trigger] other_entries[k]).0@),
        decreases other_entries.len() - j,
    {
        let key = b.key_at(j);
        if !a.contains_key(key.as_str()) {
            proof {
                lemma_key_index(other_entries, j as int);
            }
            assert(b@.dom().contains(key@));
            return false;
        }
        j += 1;
    }
    proof {
        assert forall|key: Seq<char>| a@.dom().contains(key) == b@.dom().contains(key) by {
            if a@.dom().contains(key) {
                lemma_key_found(entries, key);
                let at = crate::value::key_index(entries, key);
                assert(b@.dom().contains(entries[at].0@));
            }
            if b@.dom().contains(key) {
                lemma_key_found(other_entries, key);
                let at = crate::value::key_index(other_entries, key);
                assert(a@.dom().contains(other_entries[at].0@));
            }
        }
        assert(a@.dom() =~= b@.dom());
        assert forall|key: Seq<char>| #[trigger] a@.dom().contains(key) implies tree_same(
            a@[key],
            b@[key],
        ) by {
            lemma_key_found(entries, key);
            let at = crate::value::key_index(entries, key);
            assert(tree_same(tree_of(entries[at].1), b@[entries[at].0@]));
        }
    }
    true
}

impl PartialEq for Primitive {
    fn eq(&self, other: &Self) -> (same: bool) {
        same_primitive(self, other)
    }
}

impl PartialEqSpecImpl for Primitive {
    open spec fn obeys_eq_spec() -> bool {
        true
    }

    open spec fn eq_spec(&self, other: &Self) -> bool {
        scalar_same(self@, other@)
    }
}

impl PartialEq for ValueMap {
    fn eq(&self, other: &Self) -> (same: bool) {
        same_entries(self, other)
    }
}

impl PartialEqSpecImpl for ValueMap {
    open spec fn obeys_eq_spec() -> bool {
        true
    }

    open spec fn eq_spec(&self, other: &Self) -> bool {
        self@.dom() == other@.dom() && forall|key: Seq<char>| #[trigger]
            self@.dom().contains(key) ==> tree_same(self@[key], other@[key])
    }
}

impl PartialEq for Value {
    fn eq(&self, other: &Self) -> (same: bool) {
        same_value(self, other)
    }
}

impl PartialEqSpecImpl for Value {
    open spec fn obeys_eq_spec() -> bool {
        true
    }

    open spec fn eq_spec(&self, other: &Self) -> bool {
        tree_same(self@, other@)
    }
}

} // verus!
