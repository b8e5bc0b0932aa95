//! Laws of the diff, proved from its definition.
//!
//! A value compared with itself needs no change; the changes between two
//! values, made on the old one, give the new one; and a counter only moves
//! forward.
use vstd::prelude::*;
use crate::apply::{apply_all, tree_same};
use crate::change::Change;
use crate::diff::{
    diff,
    diff_entries,
    diff_items,
    diff_scalar,
    diff_text,
    increment_at,
    prefixed,
    removals,
    scalar_same,
    truncation,
};
use crate::path::Step;
use crate::round_trip::lemma_diff_round_trip;
use crate::value::{
    Primitive,
    Scalar,
    Value,
    entries_tree,
    has_key,
    items_tree,
    key_index,
    lemma_key_found,
    lemma_key_index,
    string_views,
    tree_of,
    well_formed,
    well_formed_entries,
    well_formed_items,
};

verus! {

/// Every scalar is the same value as itself.
pub proof fn lemma_scalar_same_reflexive(scalar: Scalar)
    ensures
        scalar_same(scalar, scalar),
{
}

/// A tree compared with itself needs no change: for every well-formed value
/// `v`, `diff(v, v)` is the empty list of changes.
pub proof fn lemma_diff_of_equal_is_empty(value: Value)
    requires
        well_formed(value),
    ensures
        diff(value, value) == Ok::<Seq<Change>, Seq<Step>>(Seq::empty()),
    decreases value, 0nat,
{
    match value {
        Value::Mapping(_, map) => {
            let entries = map.entries();
            map.lemma_entries_decrease();
            lemma_entries_of_equal(entries, entries.len());
            lemma_no_removals(entries, entries.len());
            assert(Seq::<Change>::empty() + Seq::<Change>::empty() =~= Seq::<Change>::empty());
        },
        Value::List(items) => {
            lemma_items_of_equal(items@, items@.len());
            assert(truncation(items@.len() as int, items@.len() as int) =~= Seq::<Change>::empty());
            assert(Seq::<Change>::empty() + Seq::<Change>::empty() =~= Seq::<Change>::empty());
        },
        Value::Text(text) => {
            lemma_text_of_equal(string_views(text@), text@.len());
            assert(truncation(text@.len() as int, text@.len() as int) =~= Seq::<Change>::empty());
            assert(Seq::<Change>::empty() + Seq::<Change>::empty() =~= Seq::<Change>::empty());
        },
        Value::Primitive(primitive) => {
            lemma_scalar_same_reflexive(primitive@);
        },
    }
}

/// The first `n` entries of a well-formed keyed node, compared with the node
/// itself, need no change.
pub proof fn lemma_entries_of_equal(entries: Seq<(String, Value)>, n: nat)
    requires
        well_formed_entries(entries),
        n <= entries.len(),
    ensures
        diff_entries(entries, entries, n) == Ok::<Seq<Change>, Seq<Step>>(Seq::empty()),
    decreases entries, n,
{
    if n > 0 {
        let i = n - 1;
        let key = entries[i].0@;
        lemma_entries_of_equal(entries, (n - 1) as nat);
        lemma_key_index(entries, i);
        lemma_diff_of_equal_is_empty(entries[i].1);
        assert(prefixed(seq![Step::Key(key)], Seq::empty()) =~= Seq::<Change>::empty());
        assert(Seq::<Change>::empty() + Seq::<Change>::empty() =~= Seq::<Change>::empty());
    }
}

/// The first `n` items of a well-formed list, compared with the list itself,
/// need no change.
pub proof fn lemma_items_of_equal(items: Seq<Value>, n: nat)
    requires
        well_formed_items(items),
        n <= items.len(),
    ensures
        diff_items(items, items, n) == Ok::<Seq<Change>, Seq<Step>>(Seq::empty()),
    decreases items, n,
{
    if n > 0 {
        let i = n - 1;
        lemma_items_of_equal(items, (n - 1) as nat);
        lemma_diff_of_equal_is_empty(items[i]);
        assert(prefixed(seq![Step::Index(i)], Seq::empty()) =~= Seq::<Change>::empty());
        assert(Seq::<Change>::empty() + Seq::<Change>::empty() =~= Seq::<Change>::empty());
    }
}

/// The first `n` graphemes of a text, compared with the text itself, need no
/// change.
pub proof fn lemma_text_of_equal(text: Seq<Seq<char>>, n: nat)
    requires
        n <= text.len(),
    ensures
        diff_text(text, text, n) == Seq::<Change>::empty(),
    decreases n,
{
    if n > 0 {
        lemma_text_of_equal(text, (n - 1) as nat);
        assert(Seq::<Change>::empty() + Seq::<Change>::empty() =~= Seq::<Change>::empty());
    }
}

/// No entry of a keyed node is removed when the node is compared with itself.
pub proof fn lemma_no_removals(entries: Seq<(String, Value)>, n: nat)
    requires
        n <= entries.len(),
    ensures
        removals(entries, entries, n) == Seq::<Change>::empty(),
    decreases n,
{
    if n > 0 {
        lemma_no_removals(entries, (n - 1) as nat);
        assert(entries[n - 1].0@ == entries[n - 1].0@);
        assert(has_key(entries, entries[n - 1].0@));
        assert(Seq::<Change>::empty() + Seq::<Change>::empty() =~= Seq::<Change>::empty());
    }
}

/// The changes that the diff gives for a well-formed new value and
/// a well-formed old one can all be made, in order, on the tree of the old
/// value, and what they give is the same value as the tree of the new one.
pub proof fn lemma_changes_give_the_new_value(new: Value, old: Value)
    requires
        well_formed(new),
        well_formed(old),
        diff(new, old) is Ok,
    ensures
        apply_all(tree_of(old), diff(new, old)->Ok_0) is Some,
        tree_same(apply_all(tree_of(old), diff(new, old)->Ok_0)->Some_0, tree_of(new)),
{
    lemma_diff_round_trip(new, old);
}

/// The diff of a well-formed new value and a well-formed old one is empty
/// exactly where the two stand for trees that are the same value.
pub proof fn lemma_no_change_exactly_for_the_same_value(new: Value, old: Value)
    requires
        well_formed(new),
        well_formed(old),
    ensures
        diff(new, old) == Ok::<Seq<Change>, Seq<Step>>(Seq::empty()) <==> tree_same(
            tree_of(old),
            tree_of(new),
        ),
{
    if diff(new, old) == Ok::<Seq<Change>, Seq<Step>>(Seq::empty()) {
        lemma_changes_give_the_new_value(new, old);
    }
    if tree_same(tree_of(old), tree_of(new)) {
        lemma_same_value_needs_no_change(new, old);
    }
}

/// Two well-formed values that stand for trees that are the same value need
/// no change.
pub proof fn lemma_same_value_needs_no_change(new: Value, old: Value)
    requires
        well_formed(new),
        well_formed(old),
        tree_same(tree_of(old), tree_of(new)),
    ensures
        diff(new, old) == Ok::<Seq<Change>, Seq<Step>>(Seq::empty()),
    decreases new, 0nat,
{
    match (new, old) {
        (Value::Mapping(_, new_map), Value::Mapping(_, old_map)) => {
            let new_entries = new_map.entries();
            let old_entries = old_map.entries();
            new_map.lemma_entries_decrease();
            lemma_entries_of_same(new_entries, old_entries, new_entries.len());
            assert forall|i: int| 0 <= i < old_entries.len() implies has_key(
                new_entries,
                (#[trigger] old_entries[i]).0@,
            ) by {
                lemma_key_index(old_entries, i);
                assert(entries_tree(new_entries).dom().contains(old_entries[i].0@));
            }
            lemma_nothing_removed(old_entries, new_entries, old_entries.len());
            assert(Seq::<Change>::empty() + Seq::<Change>::empty() =~= Seq::<Change>::empty());
        },
        (Value::List(new_items), Value::List(old_items)) => {
            assert(items_tree(new_items@).len() == items_tree(old_items@).len());
            lemma_items_of_same(new_items@, old_items@, new_items@.len());
            assert(truncation(new_items@.len() as int, old_items@.len() as int)
                =~= Seq::<Change>::empty());
            assert(Seq::<Change>::empty() + Seq::<Change>::empty() =~= Seq::<Change>::empty());
        },
        (Value::Text(new_text), Value::Text(old_text)) => {
            assert(string_views(new_text@) == string_views(old_text@));
            assert(string_views(new_text@).len() == new_text@.len());
            assert(string_views(old_text@).len() == old_text@.len());
            lemma_text_of_equal(string_views(new_text@), new_text@.len());
            assert(truncation(new_text@.len() as int, old_text@.len() as int)
                =~= Seq::<Change>::empty());
            assert(Seq::<Change>::empty() + Seq::<Change>::empty() =~= Seq::<Change>::empty());
        },
        (Value::Primitive(_), Value::Primitive(_)) => {},
        _ => {},
    }
}

/// The first `n` entries of a keyed node, compared with a keyed node that
/// stands for the same value, need no change.
pub proof fn lemma_entries_of_same(
    new_entries: Seq<(String, Value)>,
    old_entries: Seq<(String, Value)>,
    n: nat,
)
    requires
        well_formed_entries(new_entries),
        well_formed_entries(old_entries),
        n <= new_entries.len(),
        entries_tree(old_entries).dom() == entries_tree(new_entries).dom(),
        forall|key: Seq<char>| #[trigger]
            entries_tree(old_entries).dom().contains(key) ==> tree_same(
                entries_tree(old_entries)[key],
                entries_tree(new_entries)[key],
            ),
    ensures
        diff_entries(new_entries, old_entries, n) == Ok::<Seq<Change>, Seq<Step>>(Seq::empty()),
    decreases new_entries, n,
{
    if n > 0 {
        let i = n - 1;
        let key = new_entries[i].0@;
        lemma_entries_of_same(new_entries, old_entries, (n - 1) as nat);
        lemma_key_index(new_entries, i);
        assert(entries_tree(old_entries).dom().contains(key));
        assert(has_key(old_entries, key));
        lemma_key_found(old_entries, key);
        let at = key_index(old_entries, key);
        assert(tree_same(entries_tree(old_entries)[key], entries_tree(new_entries)[key]));
        lemma_same_value_needs_no_change(new_entries[i].1, old_entries[at].1);
        assert(prefixed(seq![Step::Key(key)], Seq::empty()) =~= Seq::<Change>::empty());
        assert(Seq::<Change>::empty() + Seq::<Change>::empty() =~= Seq::<Change>::empty());
    }
}

/// The first `n` items of a list, compared with a list of the same length
/// whose items stand for the same values, need no change.
pub proof fn lemma_items_of_same(new_items: Seq<Value>, old_items: Seq<Value>, n: nat)
    requires
        well_formed_items(new_items),
        well_formed_items(old_items),
        n <= new_items.len(),
        new_items.len() == old_items.len(),
        forall|i: int|
            0 <= i < old_items.len() ==> tree_same(
                #[trigger] items_tree(old_items)[i],
                items_tree(new_items)[i],
            ),
    ensures
        diff_items(new_items, old_items, n) == Ok::<Seq<Change>, Seq<Step>>(Seq::empty()),
    decreases new_items, n,
{
    if n > 0 {
        let i = n - 1;
        lemma_items_of_same(new_items, old_items, (n - 1) as nat);
        assert(tree_same(items_tree(old_items)[i], items_tree(new_items)[i]));
        lemma_same_value_needs_no_change(new_items[i], old_items[i]);
        assert(prefixed(seq![Step::Index(i)], Seq::empty()) =~= Seq::<Change>::empty());
        assert(Seq::<Change>::empty() + Seq::<Change>::empty() =~= Seq::<Change>::empty());
    }
}

/// No entry is removed from a keyed node whose keys the new node all has.
pub proof fn lemma_nothing_removed(
    old_entries: Seq<(String, Value)>,
    new_entries: Seq<(String, Value)>,
    n: nat,
)
    requires
        n <= old_entries.len(),
        forall|i: int|
            0 <= i < old_entries.len() ==> has_key(new_entries, (#[trigger] old_entries[i]).0@),
    ensures
        removals(old_entries, new_entries, n) == Seq::<Change>::empty(),
    decreases n,
{
    if n > 0 {
        lemma_nothing_removed(old_entries, new_entries, (n - 1) as nat);
        assert(has_key(new_entries, old_entries[n - 1].0@));
        assert(Seq::<Change>::empty() + Seq::<Change>::empty() =~= Seq::<Change>::empty());
    }
}

/// A counter is only moved forward. Comparing the counter `after` with the
/// counter `before`, where the two differ and their difference is a 64-bit
/// number, gives the one increment by `after - before` exactly when `after`
/// is not less than `before`, and fails at the counter's path otherwise.
pub proof fn lemma_counter_moves_forward(after: i64, before: i64)
    requires
        after != before,
        after - before <= i64::MAX,
    ensures
        after >= before <==> diff(
            Value::Primitive(Primitive::Counter(after)),
            Value::Primitive(Primitive::Counter(before)),
        ) == Ok::<Seq<Change>, Seq<Step>>(
            seq![increment_at(Seq::empty(), (after - before) as i64)],
        ),
        after < before <==> diff(
            Value::Primitive(Primitive::Counter(after)),
            Value::Primitive(Primitive::Counter(before)),
        ) == Err::<Seq<Change>, Seq<Step>>(Seq::empty()),
{
}

/// Comparing two counters never fails where the new one is the greater and
/// their difference is a 64-bit number, and always fails where the new one is
/// the smaller or the difference is no 64-bit number.
pub proof fn lemma_counter_outcome(after: i64, before: i64)
    ensures
        diff_scalar(Scalar::Counter(after), Scalar::Counter(before)) is Ok <==> (after == before
            || (after > before && after - before <= i64::MAX)),
        after == before ==> diff_scalar(Scalar::Counter(after), Scalar::Counter(before)) == Ok::<
            Seq<Change>,
            Seq<Step>,
        >(Seq::empty()),
{
}

} // verus!
