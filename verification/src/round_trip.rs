//! The diff's purpose: its changes, applied to the old tree, give the new one.
use vstd::prelude::*;
use crate::apply::{
    apply,
    apply_all,
    apply_at,
    child,
    lemma_apply_all_concat,
    lemma_apply_all_single,
    lemma_tree_same_reflexive,
    tree_same,
    with_child,
};
use crate::change::Change;
use crate::diff::{
    delete_at,
    diff,
    diff_entries,
    diff_items,
    diff_text,
    insert_at,
    prefixed,
    put_at,
    removals,
    replacement,
    scalar_same,
    truncation,
};
use crate::path::Step;
use crate::value::{
    MapType,
    Primitive,
    Scalar,
    Tree,
    Value,
    distinct_keys,
    entries_tree,
    has_key,
    items_tree,
    key_index,
    lemma_key_found,
    string_views,
    tree_of,
    well_formed,
    well_formed_entries,
    well_formed_items,
};

verus! {

/// A change that still means the same once its node sits one step below
/// another: it acts below its node, or it puts a tree in the node's place or
/// moves the node forward.
pub open spec fn liftable(change: Change) -> bool {
    change.path.len() > 0 || change.operation is Put || change.operation is Increment
}

/// Every change of the list is liftable.
pub open spec fn all_liftable(changes: Seq<Change>) -> bool {
    forall|i: int| 0 <= i < changes.len() ==> liftable(#[trigger] changes[i])
}

/// A keyed node or a list: a tree whose subtrees are trees of any shape.
pub open spec fn is_branch(tree: Tree) -> bool {
    tree is Mapping || tree is List
}

/// A change made one step below a branch changes the subtree there as it would
/// change that subtree alone.
pub proof fn lemma_apply_below(tree: Tree, step: Step, change: Change)
    requires
        is_branch(tree),
        child(tree, step) is Some,
        liftable(change),
    ensures
        apply(tree, Change { path: seq![step] + change.path, operation: change.operation })
            == match apply(child(tree, step)->Some_0, change) {
            Some(changed) => with_child(tree, step, changed),
            None => None,
        },
{
    let path = seq![step] + change.path;
    assert(path[0] == step);
    assert(path.drop_first() =~= change.path);
    reveal_with_fuel(apply_at, 2);
}

/// Changes made one step below a branch change the subtree there as they would
/// change that subtree alone.
pub proof fn lemma_apply_all_below(tree: Tree, step: Step, changes: Seq<Change>)
    requires
        is_branch(tree),
        child(tree, step) is Some,
        all_liftable(changes),
        apply_all(child(tree, step)->Some_0, changes) is Some,
    ensures
        apply_all(tree, prefixed(seq![step], changes)) == with_child(
            tree,
            step,
            apply_all(child(tree, step)->Some_0, changes)->Some_0,
        ),
        with_child(tree, step, apply_all(child(tree, step)->Some_0, changes)->Some_0) is Some,
    decreases changes.len(),
{
    let below = child(tree, step)->Some_0;
    let lifted = prefixed(seq![step], changes);
    if changes.len() == 0 {
        assert(lifted =~= Seq::<Change>::empty());
        match (tree, step) {
            (Tree::Mapping(_, entries), Step::Key(key)) => {
                assert(entries.insert(key, below) =~= entries);
            },
            (Tree::List(items), Step::Index(i)) => {
                assert(items.update(i, below) =~= items);
            },
            _ => {},
        }
    } else {
        let earlier = changes.drop_last();
        let last = changes.last();
        assert(all_liftable(earlier)) by {
            assert forall|i: int| 0 <= i < earlier.len() implies liftable(
                #[trigger] earlier[i],
            ) by {
                assert(earlier[i] == changes[i]);
            }
        }
        assert(liftable(last));
        assert(lifted.drop_last() =~= prefixed(seq![step], earlier));
        assert(lifted.last() == Change {
            path: seq![step] + last.path,
            operation: last.operation,
        });
        lemma_apply_all_below(tree, step, earlier);
        let below_before = apply_all(below, earlier)->Some_0;
        let tree_before = with_child(tree, step, below_before)->Some_0;
        assert(is_branch(tree_before));
        assert(child(tree_before, step) == Some(below_before));
        lemma_apply_below(tree_before, step, last);
        let below_after = apply(below_before, last)->Some_0;
        match (tree, step) {
            (Tree::Mapping(_, entries), Step::Key(key)) => {
                assert(entries.insert(key, below_before).insert(key, below_after)
                    =~= entries.insert(key, below_after));
            },
            (Tree::List(items), Step::Index(i)) => {
                assert(items.update(i, below_before).update(i, below_after) =~= items.update(
                    i,
                    below_after,
                ));
            },
            _ => {},
        }
    }
}

/// Two lists of liftable changes, one after the other, are liftable.
pub proof fn lemma_liftable_concat(first: Seq<Change>, second: Seq<Change>)
    requires
        all_liftable(first),
        all_liftable(second),
    ensures
        all_liftable(first + second),
{
    assert forall|i: int| 0 <= i < (first + second).len() implies liftable(
        #[trigger] (first + second)[i],
    ) by {
        if i < first.len() {
            assert((first + second)[i] == first[i]);
        } else {
            assert((first + second)[i] == second[i - first.len()]);
        }
    }
}

/// Changes that act below a step are liftable.
pub proof fn lemma_liftable_prefixed(step: Step, changes: Seq<Change>)
    ensures
        all_liftable(prefixed(seq![step], changes)),
{
    assert forall|i: int| 0 <= i < changes.len() implies liftable(
        #[trigger] prefixed(seq![step], changes)[i],
    ) by {
        assert(prefixed(seq![step], changes)[i].path == seq![step] + changes[i].path);
    }
}

/// The first `n` elements of `new`, followed by what `old` has beyond them.
pub open spec fn merged<T>(new: Seq<T>, old: Seq<T>, n: nat) -> Seq<T> {
    Seq::new(
        if n > old.len() {
            n
        } else {
            old.len()
        },
        |i: int|
            if i < n {
                new[i]
            } else {
                old[i]
            },
    )
}

/// The changes for the first `n` graphemes of a text, applied to the old text,
/// give the new text's first `n` graphemes followed by what the old text has
/// beyond them.
pub proof fn lemma_text_round_trip(new: Seq<Seq<char>>, old: Seq<Seq<char>>, n: nat)
    requires
        n <= new.len(),
    ensures
        all_liftable(diff_text(new, old, n)),
        apply_all(Tree::Text(old), diff_text(new, old, n)) == Some(
            Tree::Text(merged(new, old, n)),
        ),
    decreases n,
{
    if n == 0 {
        assert(merged(new, old, n) =~= old);
    } else {
        let i = n - 1;
        let earlier = diff_text(new, old, (n - 1) as nat);
        let before = merged(new, old, (n - 1) as nat);
        let grapheme = Tree::Primitive(Scalar::Str(new[i]));
        lemma_text_round_trip(new, old, (n - 1) as nat);
        reveal_with_fuel(apply_at, 2);
        if i < old.len() {
            if new[i] == old[i] {
                assert(earlier + Seq::<Change>::empty() =~= earlier);
                assert(merged(new, old, n) =~= before);
            } else {
                let change = put_at(seq![Step::Index(i)], grapheme);
                lemma_apply_all_concat(Tree::Text(old), earlier, seq![change]);
                lemma_apply_all_single(Tree::Text(before), change);
                assert(change.path.drop_first() =~= Seq::<Step>::empty());
                assert(before.update(i, new[i]) =~= merged(new, old, n));
                lemma_liftable_concat(earlier, seq![change]);
            }
        } else {
            let change = insert_at(seq![Step::Index(i)], grapheme);
            lemma_apply_all_concat(Tree::Text(old), earlier, seq![change]);
            lemma_apply_all_single(Tree::Text(before), change);
            assert(before.insert(i, new[i]) =~= merged(new, old, n));
            lemma_liftable_concat(earlier, seq![change]);
        }
    }
}

/// The first `done` deletions of a truncation.
pub open spec fn truncation_start(new_len: int, old_len: int, done: nat) -> Seq<Change> {
    truncation(new_len, old_len).subrange(0, done as int)
}

/// The first `done` deletions that shorten a list take its last `done` items.
pub proof fn lemma_truncate_list(items: Seq<Tree>, new_len: int, done: nat)
    requires
        0 <= new_len,
        done <= items.len() - new_len,
    ensures
        all_liftable(truncation_start(new_len, items.len() as int, done)),
        apply_all(Tree::List(items), truncation_start(new_len, items.len() as int, done))
            == Some(Tree::List(items.subrange(0, items.len() - done))),
    decreases done,
{
    let old_len = items.len() as int;
    let changes = truncation_start(new_len, old_len, done);
    if done == 0 {
        assert(items.subrange(0, items.len() - done) =~= items);
    } else {
        lemma_truncate_list(items, new_len, (done - 1) as nat);
        let earlier = truncation_start(new_len, old_len, (done - 1) as nat);
        assert(changes.drop_last() =~= earlier);
        assert(changes.last() == delete_at(seq![Step::Index(old_len - done)]));
        let before = items.subrange(0, items.len() - done + 1);
        assert(before.remove(old_len - done) =~= items.subrange(0, items.len() - done));
        assert forall|i: int| 0 <= i < changes.len() implies liftable(#[trigger] changes[i]) by {
            assert(changes[i].path.len() == 1);
        }
    }
}

/// The first `done` deletions that shorten a text take its last `done`
/// graphemes.
pub proof fn lemma_truncate_text(text: Seq<Seq<char>>, new_len: int, done: nat)
    requires
        0 <= new_len,
        done <= text.len() - new_len,
    ensures
        all_liftable(truncation_start(new_len, text.len() as int, done)),
        apply_all(Tree::Text(text), truncation_start(new_len, text.len() as int, done)) == Some(
            Tree::Text(text.subrange(0, text.len() - done)),
        ),
    decreases done,
{
    let old_len = text.len() as int;
    let changes = truncation_start(new_len, old_len, done);
    if done == 0 {
        assert(text.subrange(0, text.len() - done) =~= text);
    } else {
        lemma_truncate_text(text, new_len, (done - 1) as nat);
        let earlier = truncation_start(new_len, old_len, (done - 1) as nat);
        assert(changes.drop_last() =~= earlier);
        assert(changes.last() == delete_at(seq![Step::Index(old_len - done)]));
        let before = text.subrange(0, text.len() - done + 1);
        assert(before.remove(old_len - done) =~= text.subrange(0, text.len() - done));
        assert forall|i: int| 0 <= i < changes.len() implies liftable(#[trigger] changes[i]) by {
            assert(changes[i].path.len() == 1);
        }
    }
}

/// One of the first `n` entries has the key `key`.
pub open spec fn among_first(entries: Seq<(String, Value)>, n: nat, key: Seq<char>) -> bool {
    exists|i: int| 0 <= i < n && i < entries.len() && #[trigger] entries[i].0@ == key
}

/// `key` is the key of one of the first `n` old entries, and no new entry has
/// it.
pub open spec fn removed(
    old_entries: Seq<(String, Value)>,
    new_entries: Seq<(String, Value)>,
    n: nat,
    key: Seq<char>,
) -> bool {
    among_first(old_entries, n, key) && !has_key(new_entries, key)
}

/// `start` without the keys of the first `n` old entries that no new entry
/// has.
pub open spec fn trimmed(
    start: Map<Seq<char>, Tree>,
    old_entries: Seq<(String, Value)>,
    new_entries: Seq<(String, Value)>,
    n: nat,
) -> Map<Seq<char>, Tree> {
    Map::new(
        |key: Seq<char>| start.dom().contains(key) && !removed(old_entries, new_entries, n, key),
        |key: Seq<char>| start[key],
    )
}

/// The removals for the first `n` old entries, applied to a keyed node that
/// has every old key, take out the old keys that no new entry has and nothing
/// else.
pub proof fn lemma_removals_round_trip(
    old_entries: Seq<(String, Value)>,
    new_entries: Seq<(String, Value)>,
    kind: MapType,
    start: Map<Seq<char>, Tree>,
    n: nat,
)
    requires
        distinct_keys(old_entries),
        n <= old_entries.len(),
        forall|j: int| 0 <= j < old_entries.len() ==> start.dom().contains(#[trigger] old_entries[j].0@),
    ensures
        all_liftable(removals(old_entries, new_entries, n)),
        apply_all(Tree::Mapping(kind, start), removals(old_entries, new_entries, n)) == Some(
            Tree::Mapping(kind, trimmed(start, old_entries, new_entries, n)),
        ),
    decreases n,
{
    if n == 0 {
        assert(trimmed(start, old_entries, new_entries, n) =~= start);
    } else {
        let j = n - 1;
        let key = old_entries[j].0@;
        let earlier = removals(old_entries, new_entries, (n - 1) as nat);
        let before = trimmed(start, old_entries, new_entries, (n - 1) as nat);
        let after = trimmed(start, old_entries, new_entries, n);
        lemma_removals_round_trip(old_entries, new_entries, kind, start, (n - 1) as nat);
        assert forall|k: Seq<char>| among_first(old_entries, n, k) == (k == key || among_first(
            old_entries,
            (n - 1) as nat,
            k,
        )) by {
            if among_first(old_entries, n, k) {
                let i = choose|i: int|
                    0 <= i < n && i < old_entries.len() && #[trigger] old_entries[i].0@ == k;
                if i < n - 1 {
                    assert(old_entries[i].0@ == k);
                }
            }
            if among_first(old_entries, (n - 1) as nat, k) {
                let i = choose|i: int|
                    0 <= i < n - 1 && i < old_entries.len() && #[trigger] old_entries[i].0@ == k;
                assert(old_entries[i].0@ == k);
            }
            if k == key {
                assert(old_entries[j].0@ == k);
            }
        }
        if has_key(new_entries, key) {
            assert(earlier + Seq::<Change>::empty() =~= earlier);
            assert(after =~= before);
        } else {
            let change = delete_at(seq![Step::Key(key)]);
            lemma_apply_all_concat(Tree::Mapping(kind, start), earlier, seq![change]);
            lemma_apply_all_single(Tree::Mapping(kind, before), change);
            lemma_liftable_concat(earlier, seq![change]);
            assert(!among_first(old_entries, (n - 1) as nat, key)) by {
                if among_first(old_entries, (n - 1) as nat, key) {
                    let i = choose|i: int|
                        0 <= i < n - 1 && i < old_entries.len() && #[trigger] old_entries[i].0@
                            == key;
                    assert(old_entries[i].0@ == old_entries[j].0@);
                }
            }
            assert(start.dom().contains(old_entries[j].0@));
            assert(before.dom().contains(key));
            assert(before.remove(key) =~= after);
        }
    }
}

/// What a keyed node holds once the first `n` new entries have been treated:
/// the old keys and the first `n` new keys; under each of these new keys a
/// tree that is the same value as the new entry's; under any other key what
/// the old node had.
pub open spec fn entries_treated(
    new_entries: Seq<(String, Value)>,
    old_entries: Seq<(String, Value)>,
    n: nat,
    entries: Map<Seq<char>, Tree>,
) -> bool {
    &&& forall|key: Seq<char>| #[trigger]
        entries.dom().contains(key) <==> (has_key(old_entries, key) || among_first(
            new_entries,
            n,
            key,
        ))
    &&& forall|i: int|
        0 <= i < n && i < new_entries.len() ==> tree_same(
            entries[(#[trigger] new_entries[i]).0@],
            tree_of(new_entries[i].1),
        )
    &&& forall|key: Seq<char>|
        has_key(old_entries, key) && !among_first(new_entries, n, key) ==> #[trigger] entries[key]
            == entries_tree(old_entries)[key]
}

/// What a list holds once the first `n` new items have been treated: as many
/// items as the longer of the old list and `n`; at each of the first `n`
/// positions a tree that is the same value as the new item; beyond them what
/// the old list had.
pub open spec fn items_treated(
    new_items: Seq<Value>,
    old_items: Seq<Value>,
    n: nat,
    items: Seq<Tree>,
) -> bool {
    &&& items.len() == if n > old_items.len() {
        n
    } else {
        old_items.len()
    }
    &&& forall|i: int|
        0 <= i < n && i < new_items.len() ==> tree_same(
            #[trigger] items[i],
            tree_of(new_items[i]),
        )
    &&& forall|i: int| n <= i < old_items.len() ==> #[trigger] items[i] == tree_of(old_items[i])
}

/// Applying to a well-formed old tree the changes that the diff gives for a
/// well-formed new tree yields a tree that is the same value as the new one.
pub proof fn lemma_diff_round_trip(new: Value, old: Value)
    requires
        well_formed(new),
        well_formed(old),
        diff(new, old) is Ok,
    ensures
        all_liftable(diff(new, old)->Ok_0),
        apply_all(tree_of(old), diff(new, old)->Ok_0) is Some,
        tree_same(apply_all(tree_of(old), diff(new, old)->Ok_0)->Some_0, tree_of(new)),
    decreases new, 0nat,
{
    let changes = diff(new, old)->Ok_0;
    match new {
        Value::Mapping(new_kind, new_map) => match old {
            Value::Mapping(old_kind, old_map) => {
                if new_kind == old_kind {
                    let new_entries = new_map.entries();
                    let old_entries = old_map.entries();
                    new_map.lemma_entries_decrease();
                    lemma_entries_round_trip(new_entries, old_entries, new_kind, new_entries.len());
                    let kept = diff_entries(new_entries, old_entries, new_entries.len())->Ok_0;
                    let gone = removals(old_entries, new_entries, old_entries.len());
                    let start = apply_all(tree_of(old), kept)->Some_0->Mapping_1;
                    assert forall|j: int| 0 <= j < old_entries.len() implies start.dom().contains(
                        #[trigger] old_entries[j].0@,
                    ) by {
                        assert(has_key(old_entries, old_entries[j].0@));
                    }
                    lemma_removals_round_trip(
                        old_entries,
                        new_entries,
                        new_kind,
                        start,
                        old_entries.len(),
                    );
                    lemma_apply_all_concat(tree_of(old), kept, gone);
                    lemma_liftable_concat(kept, gone);
                    let result = trimmed(start, old_entries, new_entries, old_entries.len());
                    let wanted = entries_tree(new_entries);
                    assert forall|key: Seq<char>| result.dom().contains(key)
                        == wanted.dom().contains(key) by {
                        if has_key(new_entries, key) {
                            let i = key_index(new_entries, key);
                            assert(new_entries[i].0@ == key);
                            assert(among_first(new_entries, new_entries.len(), key));
                            assert(start.dom().contains(key));
                        } else {
                            if among_first(new_entries, new_entries.len(), key) {
                                let i = choose|i: int|
                                    0 <= i < new_entries.len() && i < new_entries.len()
                                        && #[trigger] new_entries[i].0@ == key;
                                assert(new_entries[i].0@ == key);
                            }
                            if has_key(old_entries, key) {
                                let j = key_index(old_entries, key);
                                assert(old_entries[j].0@ == key);
                                assert(among_first(old_entries, old_entries.len(), key));
                            } else {
                                assert(!start.dom().contains(key));
                            }
                        }
                    }
                    assert(result.dom() =~= wanted.dom());
                    assert forall|key: Seq<char>| #[trigger]
                        result.dom().contains(key) implies tree_same(result[key], wanted[key]) by {
                        let i = key_index(new_entries, key);
                        lemma_key_found(new_entries, key);
                        assert(tree_same(start[new_entries[i].0@], tree_of(new_entries[i].1)));
                    }
                } else {
                    lemma_replacement_round_trip(new, old);
                }
            },
            _ => {
                lemma_replacement_round_trip(new, old);
            },
        },
        Value::List(new_items) => match old {
            Value::List(old_items) => {
                lemma_items_round_trip(new_items@, old_items@, new_items@.len());
                let kept = diff_items(new_items@, old_items@, new_items@.len())->Ok_0;
                let new_len = new_items@.len() as int;
                let old_len = old_items@.len() as int;
                let gone = truncation(new_len, old_len);
                let start = apply_all(tree_of(old), kept)->Some_0->List_0;
                let done = gone.len();
                assert(truncation_start(new_len, start.len() as int, done) =~= gone);
                lemma_truncate_list(start, new_len, done);
                lemma_apply_all_concat(tree_of(old), kept, gone);
                lemma_liftable_concat(kept, gone);
                let result = start.subrange(0, start.len() - done);
                assert(result.len() == new_len);
                assert forall|i: int| 0 <= i < result.len() implies tree_same(
                    #[trigger] result[i],
                    items_tree(new_items@)[i],
                ) by {
                    assert(result[i] == start[i]);
                }
            },
            _ => {
                lemma_replacement_round_trip(new, old);
            },
        },
        Value::Text(new_text) => match old {
            Value::Text(old_text) => {
                let new_views = string_views(new_text@);
                let old_views = string_views(old_text@);
                lemma_text_round_trip(new_views, old_views, new_views.len());
                let kept = diff_text(new_views, old_views, new_views.len());
                let new_len = new_views.len() as int;
                let old_len = old_views.len() as int;
                let gone = truncation(new_len, old_len);
                let start = merged(new_views, old_views, new_views.len());
                let done = gone.len();
                assert(truncation_start(new_len, start.len() as int, done) =~= gone);
                lemma_truncate_text(start, new_len, done);
                lemma_apply_all_concat(tree_of(old), kept, gone);
                lemma_liftable_concat(kept, gone);
                assert(start.subrange(0, start.len() - done) =~= new_views);
            },
            _ => {
                lemma_replacement_round_trip(new, old);
            },
        },
        Value::Primitive(new_primitive) => match old {
            Value::Primitive(old_primitive) => {
                let after = new_primitive@;
                let before = old_primitive@;
                reveal_with_fuel(apply_at, 2);
                match before {
                    Scalar::Counter(count) => {
                        let target = after->Counter_0;
                        if target == count {
                        } else {
                            lemma_apply_all_single(tree_of(old), changes[0]);
                            assert(changes =~= seq![changes[0]]);
                        }
                    },
                    _ => {
                        if scalar_same(after, before) {
                        } else {
                            lemma_apply_all_single(tree_of(old), changes[0]);
                            assert(changes =~= seq![changes[0]]);
                        }
                    },
                }
            },
            _ => {
                lemma_replacement_round_trip(new, old);
            },
        },
    }
}

/// Where the new tree takes the place of the old one, the one change gives the
/// new tree.
pub proof fn lemma_replacement_round_trip(new: Value, old: Value)
    requires
        replacement(new, old) is Ok,
    ensures
        all_liftable(replacement(new, old)->Ok_0),
        apply_all(tree_of(old), replacement(new, old)->Ok_0) == Some(tree_of(new)),
        tree_same(tree_of(new), tree_of(new)),
{
    let change = put_at(Seq::empty(), tree_of(new));
    lemma_apply_all_single(tree_of(old), change);
    lemma_tree_same_reflexive(tree_of(new));
    assert(replacement(new, old)->Ok_0 =~= seq![change]);
}

/// The changes for the first `n` new entries of a keyed node, applied to the
/// old node, give a node in which these entries have been treated.
pub proof fn lemma_entries_round_trip(
    new_entries: Seq<(String, Value)>,
    old_entries: Seq<(String, Value)>,
    kind: MapType,
    n: nat,
)
    requires
        well_formed_entries(new_entries),
        well_formed_entries(old_entries),
        n <= new_entries.len(),
        diff_entries(new_entries, old_entries, n) is Ok,
    ensures
        all_liftable(diff_entries(new_entries, old_entries, n)->Ok_0),
        apply_all(
            Tree::Mapping(kind, entries_tree(old_entries)),
            diff_entries(new_entries, old_entries, n)->Ok_0,
        ) is Some,
        apply_all(
            Tree::Mapping(kind, entries_tree(old_entries)),
            diff_entries(new_entries, old_entries, n)->Ok_0,
        )->Some_0 is Mapping,
        apply_all(
            Tree::Mapping(kind, entries_tree(old_entries)),
            diff_entries(new_entries, old_entries, n)->Ok_0,
        )->Some_0->Mapping_0 == kind,
        entries_treated(
            new_entries,
            old_entries,
            n,
            apply_all(
                Tree::Mapping(kind, entries_tree(old_entries)),
                diff_entries(new_entries, old_entries, n)->Ok_0,
            )->Some_0->Mapping_1,
        ),
    decreases new_entries, n,
{
    let old_tree = Tree::Mapping(kind, entries_tree(old_entries));
    if n == 0 {
        assert forall|key: Seq<char>| !among_first(new_entries, n, key) by {}
    } else {
        let i = n - 1;
        let key = new_entries[i].0@;
        let at = Step::Key(key);
        let value = new_entries[i].1;
        let earlier = diff_entries(new_entries, old_entries, (n - 1) as nat)->Ok_0;
        lemma_entries_round_trip(new_entries, old_entries, kind, (n - 1) as nat);
        let tree_before = apply_all(old_tree, earlier)->Some_0;
        let before = tree_before->Mapping_1;
        assert(tree_before == Tree::Mapping(kind, before));
        assert(!among_first(new_entries, (n - 1) as nat, key)) by {
            if among_first(new_entries, (n - 1) as nat, key) {
                let j = choose|j: int|
                    0 <= j < n - 1 && j < new_entries.len() && #[trigger] new_entries[j].0@
                        == key;
                assert(new_entries[j].0@ == new_entries[i].0@);
            }
        }
        assert forall|k: Seq<char>| among_first(new_entries, n, k) == (k == key || among_first(
            new_entries,
            (n - 1) as nat,
            k,
        )) by {
            if among_first(new_entries, n, k) {
                let j = choose|j: int|
                    0 <= j < n && j < new_entries.len() && #[trigger] new_entries[j].0@ == k;
                if j < n - 1 {
                    assert(new_entries[j].0@ == k);
                }
            }
            if among_first(new_entries, (n - 1) as nat, k) {
                let j = choose|j: int|
                    0 <= j < n - 1 && j < new_entries.len() && #[trigger] new_entries[j].0@ == k;
                assert(new_entries[j].0@ == k);
            }
            if k == key {
                assert(new_entries[i].0@ == k);
            }
        }
        let placed: Tree;
        if has_key(old_entries, key) {
            let old_value = old_entries[key_index(old_entries, key)].1;
            lemma_key_found(old_entries, key);
            lemma_diff_round_trip(value, old_value);
            let below = diff(value, old_value)->Ok_0;
            let step_changes = prefixed(seq![at], below);
            assert(before[key] == tree_of(old_value));
            assert(child(tree_before, at) == Some(tree_of(old_value)));
            lemma_apply_all_below(tree_before, at, below);
            lemma_liftable_prefixed(at, below);
            lemma_apply_all_concat(old_tree, earlier, step_changes);
            lemma_liftable_concat(earlier, step_changes);
            placed = apply_all(tree_of(old_value), below)->Some_0;
        } else {
            let change = put_at(seq![at], tree_of(value));
            lemma_apply_all_concat(old_tree, earlier, seq![change]);
            lemma_apply_all_single(tree_before, change);
            lemma_liftable_concat(earlier, seq![change]);
            lemma_tree_same_reflexive(tree_of(value));
            placed = tree_of(value);
        }
        let after = before.insert(key, placed);
        let changes = diff_entries(new_entries, old_entries, n)->Ok_0;
        assert(apply_all(old_tree, changes) == Some(Tree::Mapping(kind, after)));
        assert(tree_same(placed, tree_of(value)));
        assert forall|j: int| 0 <= j < n && j < new_entries.len() implies tree_same(
            after[(#[trigger] new_entries[j]).0@],
            tree_of(new_entries[j].1),
        ) by {
            if j < n - 1 {
                assert(new_entries[j].0@ != key) by {
                    if new_entries[j].0@ == key {
                        assert(new_entries[j].0@ == new_entries[i].0@);
                    }
                }
                assert(tree_same(before[new_entries[j].0@], tree_of(new_entries[j].1)));
            }
        }
        assert forall|k: Seq<char>|
            has_key(old_entries, k) && !among_first(new_entries, n, k) implies #[trigger] after[k]
            == entries_tree(old_entries)[k] by {
            assert(before[k] == entries_tree(old_entries)[k]);
        }
        assert forall|k: Seq<char>| #[trigger]
            after.dom().contains(k) <==> (has_key(old_entries, k) || among_first(
                new_entries,
                n,
                k,
            )) by {
            assert(before.dom().contains(k) <==> (has_key(old_entries, k) || among_first(
                new_entries,
                (n - 1) as nat,
                k,
            )));
        }
    }
}

/// The changes for the first `n` new items of a list, applied to the old list,
/// give a list in which these items have been treated.
pub proof fn lemma_items_round_trip(new_items: Seq<Value>, old_items: Seq<Value>, n: nat)
    requires
        well_formed_items(new_items),
        well_formed_items(old_items),
        n <= new_items.len(),
        diff_items(new_items, old_items, n) is Ok,
    ensures
        all_liftable(diff_items(new_items, old_items, n)->Ok_0),
        apply_all(
            Tree::List(items_tree(old_items)),
            diff_items(new_items, old_items, n)->Ok_0,
        ) is Some,
        apply_all(
            Tree::List(items_tree(old_items)),
            diff_items(new_items, old_items, n)->Ok_0,
        )->Some_0 is List,
        items_treated(
            new_items,
            old_items,
            n,
            apply_all(
                Tree::List(items_tree(old_items)),
                diff_items(new_items, old_items, n)->Ok_0,
            )->Some_0->List_0,
        ),
    decreases new_items, n,
{
    let old_tree = Tree::List(items_tree(old_items));
    if n > 0 {
        let i = n - 1;
        let at = Step::Index(i);
        let value = new_items[i];
        let earlier = diff_items(new_items, old_items, (n - 1) as nat)->Ok_0;
        lemma_items_round_trip(new_items, old_items, (n - 1) as nat);
        let tree_before = apply_all(old_tree, earlier)->Some_0;
        let before = tree_before->List_0;
        assert(tree_before == Tree::List(before));
        let after: Seq<Tree>;
        if i < old_items.len() {
            let old_value = old_items[i];
            lemma_diff_round_trip(value, old_value);
            let below = diff(value, old_value)->Ok_0;
            let step_changes = prefixed(seq![at], below);
            assert(before[i] == tree_of(old_value));
            assert(child(tree_before, at) == Some(tree_of(old_value)));
            lemma_apply_all_below(tree_before, at, below);
            lemma_liftable_prefixed(at, below);
            lemma_apply_all_concat(old_tree, earlier, step_changes);
            lemma_liftable_concat(earlier, step_changes);
            after = before.update(i, apply_all(tree_of(old_value), below)->Some_0);
        } else {
            let change = insert_at(seq![at], tree_of(value));
            lemma_apply_all_concat(old_tree, earlier, seq![change]);
            lemma_apply_all_single(tree_before, change);
            lemma_liftable_concat(earlier, seq![change]);
            lemma_tree_same_reflexive(tree_of(value));
            after = before.insert(i, tree_of(value));
        }
        let changes = diff_items(new_items, old_items, n)->Ok_0;
        assert(apply_all(old_tree, changes) == Some(Tree::List(after)));
        assert forall|j: int| 0 <= j < n && j < new_items.len() implies tree_same(
            #[trigger] after[j],
            tree_of(new_items[j]),
        ) by {
            if j < n - 1 {
                assert(after[j] == before[j]);
            }
        }
        assert forall|j: int| n <= j < old_items.len() implies #[trigger] after[j] == tree_of(
            old_items[j],
        ) by {
            assert(after[j] == before[j]);
        }
    }
}

} // verus!
