//! The structural diff of two value trees.
//!
//! [`diff`] says, for a new and an old tree, which changes turn the old one
//! into the new one. Paths in its result start at the compared node;
//! [`relocated`] moves them to where the node sits in the document. Keyed nodes
//! of one flavour are compared key by key, lists and text position by position,
//! and a counter is only ever moved forward.
use vstd::prelude::*;
use crate::change::{Change, InvalidChangeRequest, LocalChange, Operation, Refusal, changes_of};
use crate::float::{f32_same, f64_same, same_f32, same_f64};
use crate::path::{Path, Step};
use crate::value::{
    Cursor,
    Primitive,
    Scalar,
    Tree,
    Value,
    ValueMap,
    has_key,
    key_index,
    string_views,
    tree_of,
};

verus! {

/// What comparing two trees gives: the changes, or the path of the counter
/// that no change can bring to its new value.
pub type Outcome = Result<Seq<Change>, Seq<Step>>;

/// The change that puts `tree` at `path`.
pub open spec fn put_at(path: Seq<Step>, tree: Tree) -> Change {
    Change { path, operation: Operation::Put(tree) }
}

/// The change that inserts `tree` as the element at `path`.
pub open spec fn insert_at(path: Seq<Step>, tree: Tree) -> Change {
    Change { path, operation: Operation::Insert(tree) }
}

/// The change that takes out what is at `path`.
pub open spec fn delete_at(path: Seq<Step>) -> Change {
    Change { path, operation: Operation::Delete }
}

/// The change that moves the counter at `path` forward by `by`.
pub open spec fn increment_at(path: Seq<Step>, by: i64) -> Change {
    Change { path, operation: Operation::Increment(by) }
}

/// The same changes, each path with `prefix` before it.
pub open spec fn prefixed(prefix: Seq<Step>, changes: Seq<Change>) -> Seq<Change> {
    Seq::new(
        changes.len(),
        |i: int| Change { path: prefix + changes[i].path, operation: changes[i].operation },
    )
}

/// The same outcome for a node that sits at `prefix`.
pub open spec fn relocated(prefix: Seq<Step>, outcome: Outcome) -> Outcome {
    match outcome {
        Ok(changes) => Ok(prefixed(prefix, changes)),
        Err(at) => Err(prefix + at),
    }
}

/// One outcome after another: the first failure, or else all changes in order.
pub open spec fn followed_by(first: Outcome, second: Outcome) -> Outcome {
    match first {
        Err(at) => Err(at),
        Ok(changes) => match second {
            Err(at) => Err(at),
            Ok(more) => Ok(changes + more),
        },
    }
}

/// Two scalars are the same value: equal, or floating-point numbers that
/// compare as equal.
pub open spec fn scalar_same(a: Scalar, b: Scalar) -> bool {
    match (a, b) {
        (Scalar::F64(x), Scalar::F64(y)) => f64_same(x, y),
        (Scalar::F32(x), Scalar::F32(y)) => f32_same(x, y),
        _ => a == b,
    }
}

/// The changes from the scalar `old` to the scalar `new`. A counter moves
/// forward by the difference; any other scalar is put in place where the two
/// are not the same value.
pub open spec fn diff_scalar(new: Scalar, old: Scalar) -> Outcome {
    match old {
        Scalar::Counter(before) => match new {
            Scalar::Counter(after) => if after == before {
                Ok(Seq::empty())
            } else if after > before && after - before <= i64::MAX {
                Ok(seq![increment_at(Seq::empty(), (after - before) as i64)])
            } else {
                Err(Seq::empty())
            },
            _ => Err(Seq::empty()),
        },
        _ => if scalar_same(new, old) {
            Ok(Seq::empty())
        } else {
            Ok(seq![put_at(Seq::empty(), Tree::Primitive(new))])
        },
    }
}

/// The changes where the two nodes are of different shapes: the new tree
/// takes the place of the old one, unless the old one is a counter.
pub open spec fn replacement(new: Value, old: Value) -> Outcome {
    match old {
        Value::Primitive(Primitive::Counter(_)) => Err(Seq::empty()),
        _ => Ok(seq![put_at(Seq::empty(), tree_of(new))]),
    }
}

/// The deletions that shorten a list or text of `old_len` elements to
/// `new_len`: the last element first.
pub open spec fn truncation(new_len: int, old_len: int) -> Seq<Change> {
    Seq::new(
        if old_len > new_len {
            (old_len - new_len) as nat
        } else {
            0nat
        },
        |j: int| delete_at(seq![Step::Index(old_len - 1 - j)]),
    )
}

/// The deletions of the first `n` old entries whose key the new entries lack.
pub open spec fn removals(
    old_entries: Seq<(String, Value)>,
    new_entries: Seq<(String, Value)>,
    n: nat,
) -> Seq<Change>
    decreases n,
{
    if n == 0 || n > old_entries.len() {
        Seq::empty()
    } else {
        let key = old_entries[n - 1].0@;
        removals(old_entries, new_entries, (n - 1) as nat) + if has_key(new_entries, key) {
            Seq::empty()
        } else {
            seq![delete_at(seq![Step::Key(key)])]
        }
    }
}

/// The changes for the first `n` graphemes of a text: a grapheme that differs
/// from the old one at its position is put in place, one past the old text's
/// end is inserted.
pub open spec fn diff_text(new: Seq<Seq<char>>, old: Seq<Seq<char>>, n: nat) -> Seq<Change>
    decreases n,
{
    if n == 0 || n > new.len() {
        Seq::empty()
    } else {
        let i = n - 1;
        let grapheme = Tree::Primitive(Scalar::Str(new[i]));
        diff_text(new, old, (n - 1) as nat) + if i < old.len() {
            if new[i] == old[i] {
                Seq::empty()
            } else {
                seq![put_at(seq![Step::Index(i)], grapheme)]
            }
        } else {
            seq![insert_at(seq![Step::Index(i)], grapheme)]
        }
    }
}

/// The changes that turn the tree `old` into the tree `new`, with paths that
/// start at the compared node.
pub open spec fn diff(new: Value, old: Value) -> Outcome
    decreases new, 0nat,
{
    match new {
        Value::Mapping(new_kind, new_map) => match old {
            Value::Mapping(old_kind, old_map) => if new_kind == old_kind {
                proof {
                    new_map.lemma_entries_decrease();
                }
                followed_by(
                    diff_entries(new_map.entries(), old_map.entries(), new_map.entries().len()),
                    Ok(removals(old_map.entries(), new_map.entries(), old_map.entries().len())),
                )
            } else {
                replacement(new, old)
            },
            _ => replacement(new, old),
        },
        Value::List(new_items) => match old {
            Value::List(old_items) => followed_by(
                diff_items(new_items@, old_items@, new_items@.len()),
                Ok(truncation(new_items@.len() as int, old_items@.len() as int)),
            ),
            _ => replacement(new, old),
        },
        Value::Text(new_text) => match old {
            Value::Text(old_text) => Ok(
                diff_text(string_views(new_text@), string_views(old_text@), new_text@.len())
                    + truncation(new_text@.len() as int, old_text@.len() as int),
            ),
            _ => replacement(new, old),
        },
        Value::Primitive(new_primitive) => match old {
            Value::Primitive(old_primitive) => diff_scalar(new_primitive@, old_primitive@),
            _ => replacement(new, old),
        },
    }
}

/// The changes for the first `n` new entries of a keyed node: an entry whose
/// key the old node has is compared with the old value, any other is put in
/// place.
pub open spec fn diff_entries(
    new_entries: Seq<(String, Value)>,
    old_entries: Seq<(String, Value)>,
    n: nat,
) -> Outcome
    decreases new_entries, n,
{
    if n == 0 || n > new_entries.len() {
        Ok(Seq::empty())
    } else {
        let key = new_entries[n - 1].0@;
        let at = seq![Step::Key(key)];
        followed_by(
            diff_entries(new_entries, old_entries, (n - 1) as nat),
            if has_key(old_entries, key) {
                relocated(
                    at,
                    diff(new_entries[n - 1].1, old_entries[key_index(old_entries, key)].1),
                )
            } else {
                Ok(seq![put_at(at, tree_of(new_entries[n - 1].1))])
            },
        )
    }
}

/// The changes for the first `n` new items of a list: an item at a position
/// that the old list has is compared with the old item, any other is inserted.
pub open spec fn diff_items(new_items: Seq<Value>, old_items: Seq<Value>, n: nat) -> Outcome
    decreases new_items, n,
{
    if n == 0 || n > new_items.len() {
        Ok(Seq::empty())
    } else {
        let i = n - 1;
        let at = seq![Step::Index(i)];
        followed_by(
            diff_items(new_items, old_items, (n - 1) as nat),
            if i < old_items.len() {
                relocated(at, diff(new_items[i], old_items[i]))
            } else {
                Ok(seq![insert_at(at, tree_of(new_items[i]))])
            },
        )
    }
}

/// The changes between two optional nodes at `path`: a node that appears is
/// put in place, one that disappears is deleted, two nodes are compared.
pub open spec fn diff_at(new: Option<&Value>, old: Option<&Value>, path: Seq<Step>) -> Outcome {
    match (new, old) {
        (None, None) => Ok(Seq::empty()),
        (Some(after), None) => Ok(seq![put_at(path, tree_of(*after))]),
        (None, Some(_)) => Ok(seq![delete_at(path)]),
        (Some(after), Some(before)) => relocated(path, diff(*after, *before)),
    }
}

/// The executable result stands for the outcome: the same changes in the same
/// order, or the refusal to overwrite the counter at the outcome's path.
pub open spec fn stands_for(
    result: Result<Vec<LocalChange>, InvalidChangeRequest>,
    outcome: Outcome,
) -> bool {
    match result {
        Ok(changes) => outcome == Ok::<Seq<Change>, Seq<Step>>(changes_of(changes@)),
        Err(refusal) => outcome is Err && refusal@ == (Refusal::CannotOverwriteCounter {
            path: outcome->Err_0,
        }),
    }
}

/// Prefixing distributes over a concatenation of changes.
pub proof fn lemma_prefixed_concat(prefix: Seq<Step>, first: Seq<Change>, second: Seq<Change>)
    ensures
        prefixed(prefix, first + second) == prefixed(prefix, first) + prefixed(prefix, second),
{
    assert(prefixed(prefix, first + second) =~= prefixed(prefix, first) + prefixed(
        prefix,
        second,
    ));
}

/// Prefixing by a path and then by one more step is prefixing by the longer
/// path.
pub proof fn lemma_prefixed_step(prefix: Seq<Step>, step: Step, changes: Seq<Change>)
    ensures
        prefixed(prefix, prefixed(seq![step], changes)) == prefixed(prefix.push(step), changes),
{
    assert forall|i: int| 0 <= i < changes.len() implies prefix + (seq![step]
        + changes[i].path) == prefix.push(step) + #[trigger] changes[i].path by {
        assert(prefix + (seq![step] + changes[i].path) =~= prefix.push(step) + changes[i].path);
    }
    assert(prefixed(prefix, prefixed(seq![step], changes)) =~= prefixed(
        prefix.push(step),
        changes,
    ));
}

/// Relocating an outcome by a path and then by one more step is relocating
/// it by the longer path.
pub proof fn lemma_relocated_step(prefix: Seq<Step>, step: Step, outcome: Outcome)
    ensures
        relocated(prefix, relocated(seq![step], outcome)) == relocated(prefix.push(step), outcome),
{
    match outcome {
        Ok(changes) => {
            lemma_prefixed_step(prefix, step, changes);
        },
        Err(at) => {
            assert(prefix + (seq![step] + at) =~= prefix.push(step) + at);
        },
    }
}

/// Once the comparison of a keyed node's entries has failed, it stays failed
/// however many further entries are compared.
pub proof fn lemma_entries_failure_stays(
    new_entries: Seq<(String, Value)>,
    old_entries: Seq<(String, Value)>,
    failed: nat,
    n: nat,
)
    requires
        diff_entries(new_entries, old_entries, failed) is Err,
        failed <= n <= new_entries.len(),
    ensures
        diff_entries(new_entries, old_entries, n) == diff_entries(
            new_entries,
            old_entries,
            failed,
        ),
    decreases n,
{
    if n > failed {
        lemma_entries_failure_stays(new_entries, old_entries, failed, (n - 1) as nat);
    }
}

/// Once the comparison of a list's items has failed, it stays failed however
/// many further items are compared.
pub proof fn lemma_items_failure_stays(
    new_items: Seq<Value>,
    old_items: Seq<Value>,
    failed: nat,
    n: nat,
)
    requires
        diff_items(new_items, old_items, failed) is Err,
        failed <= n <= new_items.len(),
    ensures
        diff_items(new_items, old_items, n) == diff_items(new_items, old_items, failed),
    decreases n,
{
    if n > failed {
        lemma_items_failure_stays(new_items, old_items, failed, (n - 1) as nat);
    }
}

/// Tells whether two cursors are equal.
pub fn same_cursor(a: &Cursor, b: &Cursor) -> (same: bool)
    ensures
        same == (a@ == b@),
{
    a.index == b.index && a.object == b.object && a.elem_opid == b.elem_opid
}

/// Tells whether two byte strings are equal.
pub fn same_bytes(a: &Vec<u8>, b: &Vec<u8>) -> (same: bool)
    ensures
        same == (a@ == b@),
{
    if a.len() != b.len() {
        return false;
    }
    let mut i: usize = 0;
    while i < a.len()
        invariant
            i <= a.len(),
            a.len() == b.len(),
            forall|j: int| 0 <= j < i ==> a@[j] == b@[j],
        decreases a.len() - i,
    {
        if a[i] != b[i] {
            return false;
        }
        i += 1;
    }
    assert(a@ =~= b@);
    true
}

/// Tells whether two scalars are the same value.
pub fn same_primitive(a: &Primitive, b: &Primitive) -> (same: bool)
    ensures
        same == scalar_same(a@, b@),
{
    match (a, b) {
        (Primitive::Str(x), Primitive::Str(y)) => *x == *y,
        (Primitive::Int(x), Primitive::Int(y)) => *x == *y,
        (Primitive::Uint(x), Primitive::Uint(y)) => *x == *y,
        (Primitive::F64(x), Primitive::F64(y)) => same_f64(*x, *y),
        (Primitive::F32(x), Primitive::F32(y)) => same_f32(*x, *y),
        (Primitive::Counter(x), Primitive::Counter(y)) => *x == *y,
        (Primitive::Timestamp(x), Primitive::Timestamp(y)) => *x == *y,
        (Primitive::Boolean(x), Primitive::Boolean(y)) => *x == *y,
        (Primitive::Bytes(x), Primitive::Bytes(y)) => same_bytes(x, y),
        (Primitive::Cursor(x), Primitive::Cursor(y)) => same_cursor(x, y),
        (Primitive::Null, Primitive::Null) => true,
        _ => false,
    }
}

/// The one change that puts `value` at `path`.
fn put_whole(path: Path, value: &Value) -> (changes: Vec<LocalChange>)
    ensures
        changes_of(changes@) == seq![put_at(path@, tree_of(*value))],
{
    let mut changes: Vec<LocalChange> = Vec::new();
    changes.push(LocalChange::set(path, value.clone()));
    assert(changes_of(changes@) =~= seq![put_at(path@, tree_of(*value))]);
    changes
}

/// Calculates the changes from the scalar `old` to the scalar `new` at `path`.
pub fn diff_primitives(new: &Primitive, old: &Primitive, path: Path) -> (result: Result<
    Vec<LocalChange>,
    InvalidChangeRequest,
>)
    ensures
        stands_for(result, relocated(path@, diff_scalar(new@, old@))),
{
    let ghost outcome = relocated(path@, diff_scalar(new@, old@));
    match old {
        Primitive::Counter(before) => match new {
            Primitive::Counter(after) => {
                if *after == *before {
                    let changes: Vec<LocalChange> = Vec::new();
                    assert(outcome->Ok_0 =~= changes_of(changes@));
                    Ok(changes)
                } else if *after > *before {
                    match after.checked_sub(*before) {
                        Some(by) => {
                            let mut changes: Vec<LocalChange> = Vec::new();
                            changes.push(LocalChange::increment_by(path, by));
                            assert(path@ + Seq::<Step>::empty() =~= path@);
                            assert(outcome->Ok_0 =~= changes_of(changes@));
                            Ok(changes)
                        },
                        None => {
                            assert(path@ + Seq::<Step>::empty() =~= path@);
                            Err(InvalidChangeRequest::CannotOverwriteCounter { path })
                        },
                    }
                } else {
                    assert(path@ + Seq::<Step>::empty() =~= path@);
                    Err(InvalidChangeRequest::CannotOverwriteCounter { path })
                }
            },
            _ => {
                assert(path@ + Seq::<Step>::empty() =~= path@);
                Err(InvalidChangeRequest::CannotOverwriteCounter { path })
            },
        },
        _ => {
            if same_primitive(new, old) {
                let changes: Vec<LocalChange> = Vec::new();
                assert(outcome->Ok_0 =~= changes_of(changes@));
                Ok(changes)
            } else {
                let mut changes: Vec<LocalChange> = Vec::new();
                changes.push(LocalChange::set(path, Value::Primitive(new.clone())));
                assert(path@ + Seq::<Step>::empty() =~= path@);
                assert(outcome->Ok_0 =~= changes_of(changes@));
                Ok(changes)
            }
        },
    }
}

/// Calculates the changes where the new tree takes the place of the old one.
fn replace_node(new: &Value, old: &Value, path: Path) -> (result: Result<
    Vec<LocalChange>,
    InvalidChangeRequest,
>)
    ensures
        stands_for(result, relocated(path@, replacement(*new, *old))),
{
    assert(path@ + Seq::<Step>::empty() =~= path@);
    match old {
        Value::Primitive(Primitive::Counter(_)) => Err(
            InvalidChangeRequest::CannotOverwriteCounter { path },
        ),
        _ => {
            let changes = put_whole(path, new);
            assert(relocated(path@, replacement(*new, *old))->Ok_0 =~= changes_of(changes@));
            Ok(changes)
        },
    }
}

/// Appends to `changes` the deletions that shorten a list or text at `path`
/// from `old_len` elements to `new_len`, the last element first.
fn push_truncation(changes: &mut Vec<LocalChange>, path: &Path, new_len: usize, old_len: usize)
    ensures
        changes_of(final(changes)@) == changes_of(old(changes)@) + prefixed(
            path@,
            truncation(new_len as int, old_len as int),
        ),
{
    let ghost before = changes_of(changes@);
    let mut i: usize = old_len;
    while i > new_len
        invariant
            new_len <= i <= old_len || (old_len < new_len && i == old_len),
            changes_of(changes@) == before + Seq::new(
                (old_len - i) as nat,
                |j: int| delete_at(path@.push(Step::Index(old_len - 1 - j))),
            ),
        decreases i,
    {
        i -= 1;
        let ghost so_far = changes_of(changes@);
        changes.push(LocalChange::delete(path.clone().index(i)));
        assert(changes_of(changes@) =~= so_far.push(delete_at(path@.push(Step::Index(i as int)))));
        assert(changes_of(changes@) =~= before + Seq::new(
            (old_len - i) as nat,
            |j: int| delete_at(path@.push(Step::Index(old_len - 1 - j))),
        ));
    }
    proof {
        let deletions = truncation(new_len as int, old_len as int);
        assert forall|j: int| 0 <= j < deletions.len() implies path@ + deletions[j].path
            == path@.push(Step::Index(old_len - 1 - j)) by {
            assert(path@ + seq![Step::Index(old_len - 1 - j)] =~= path@.push(
                Step::Index(old_len - 1 - j),
            ));
        }
        assert(changes_of(changes@) =~= before + prefixed(path@, deletions));
    }
}

/// Calculates the changes between two keyed nodes of one flavour at `path`.
fn diff_maps(new: &Value, new_map: &ValueMap, old_map: &ValueMap, path: Path) -> (result: Result<
    Vec<LocalChange>,
    InvalidChangeRequest,
>)
    requires
        new is Mapping,
        new->Mapping_1 == *new_map,
    ensures
        stands_for(
            result,
            relocated(
                path@,
                followed_by(
                    diff_entries(new_map.entries(), old_map.entries(), new_map.entries().len()),
                    Ok(removals(old_map.entries(), new_map.entries(), old_map.entries().len())),
                ),
            ),
        ),
    decreases new, 0nat,
{
    let ghost new_entries = new_map.entries();
    let ghost old_entries = old_map.entries();
    let mut changes: Vec<LocalChange> = Vec::new();
    let mut i: usize = 0;
    assert(changes_of(changes@) =~= prefixed(path@, Seq::empty()));
    while i < new_map.len()
        invariant
            i <= new_entries.len(),
            new_entries == new_map.entries(),
            old_entries == old_map.entries(),
            new is Mapping,
            new->Mapping_1 == *new_map,
            diff_entries(new_entries, old_entries, i as nat) is Ok,
            changes_of(changes@) == prefixed(
                path@,
                diff_entries(new_entries, old_entries, i as nat)->Ok_0,
            ),
        decreases new_entries.len() - i,
    {
        let key = new_map.key_at(i);
        let value = new_map.value_at(i);
        let ghost so_far = diff_entries(new_entries, old_entries, i as nat)->Ok_0;
        let ghost at = seq![Step::Key(key@)];
        match old_map.get(key.as_str()) {
            Some(old_value) => {
                proof {
                    new_map.lemma_entries_decrease();
                    assert(decreases_to!(*new => new->Mapping_1));
                    assert(decreases_to!(new_entries => new_entries[i as int]));
                    assert(decreases_to!(new_entries[i as int] => new_entries[i as int].1));
                }
                let child = diff_nodes(value, old_value, path.clone().key(key.as_str()));
                proof {
                    lemma_relocated_step(path@, Step::Key(key@), diff(*value, *old_value));
                }
                match child {
                    Ok(mut child_changes) => {
                        let ghost first = changes_of(changes@);
                        let ghost second = changes_of(child_changes@);
                        changes.append(&mut child_changes);
                        proof {
                            assert(changes_of(changes@) =~= first + second);
                            lemma_prefixed_concat(
                                path@,
                                so_far,
                                prefixed(at, diff(*value, *old_value)->Ok_0),
                            );
                        }
                    },
                    Err(refusal) => {
                        proof {
                            lemma_entries_failure_stays(
                                new_entries,
                                old_entries,
                                (i + 1) as nat,
                                new_entries.len(),
                            );
                        }
                        return Err(refusal);
                    },
                }
            },
            None => {
                let ghost first = changes_of(changes@);
                changes.push(LocalChange::set(path.clone().key(key.as_str()), value.clone()));
                proof {
                    assert(path@ + at =~= path@.push(Step::Key(key@)));
                    assert(changes_of(changes@) =~= first + prefixed(
                        path@,
                        seq![put_at(at, tree_of(*value))],
                    ));
                    lemma_prefixed_concat(path@, so_far, seq![put_at(at, tree_of(*value))]);
                }
            },
        }
        i += 1;
    }
    let ghost kept = diff_entries(new_entries, old_entries, new_entries.len())->Ok_0;
    let mut j: usize = 0;
    proof {
        lemma_prefixed_concat(path@, kept, removals(old_entries, new_entries, 0));
        assert(kept + removals(old_entries, new_entries, 0) =~= kept);
    }
    while j < old_map.len()
        invariant
            j <= old_entries.len(),
            new_entries == new_map.entries(),
            old_entries == old_map.entries(),
            changes_of(changes@) == prefixed(
                path@,
                kept + removals(old_entries, new_entries, j as nat),
            ),
        decreases old_entries.len() - j,
    {
        let key = old_map.key_at(j);
        let ghost gone = removals(old_entries, new_entries, j as nat);
        if !new_map.contains_key(key.as_str()) {
            let ghost first = changes_of(changes@);
            changes.push(LocalChange::delete(path.clone().key(key.as_str())));
            proof {
                let deletion = seq![delete_at(seq![Step::Key(key@)])];
                assert(path@ + seq![Step::Key(key@)] =~= path@.push(Step::Key(key@)));
                assert(changes_of(changes@) =~= first + prefixed(path@, deletion));
                lemma_prefixed_concat(path@, kept + gone, deletion);
                assert(kept + (gone + deletion) =~= (kept + gone) + deletion);
            }
        } else {
            assert(kept + (gone + Seq::<Change>::empty()) =~= kept + gone);
        }
        j += 1;
    }
    Ok(changes)
}

/// Calculates the changes between two lists at `path`.
fn diff_lists(new: &Value, new_items: &Vec<Value>, old_items: &Vec<Value>, path: Path) -> (result:
    Result<Vec<LocalChange>, InvalidChangeRequest>)
    requires
        new is List,
        new->List_0 == *new_items,
    ensures
        stands_for(
            result,
            relocated(
                path@,
                followed_by(
                    diff_items(new_items@, old_items@, new_items@.len()),
                    Ok(truncation(new_items@.len() as int, old_items@.len() as int)),
                ),
            ),
        ),
    decreases new, 0nat,
{
    let mut changes: Vec<LocalChange> = Vec::new();
    let mut i: usize = 0;
    assert(changes_of(changes@) =~= prefixed(path@, Seq::empty()));
    while i < new_items.len()
        invariant
            i <= new_items@.len(),
            new is List,
            new->List_0 == *new_items,
            diff_items(new_items@, old_items@, i as nat) is Ok,
            changes_of(changes@) == prefixed(
                path@,
                diff_items(new_items@, old_items@, i as nat)->Ok_0,
            ),
        decreases new_items@.len() - i,
    {
        let value = &new_items[i];
        let ghost so_far = diff_items(new_items@, old_items@, i as nat)->Ok_0;
        let ghost at = seq![Step::Index(i as int)];
        if i < old_items.len() {
            let old_value = &old_items[i];
            proof {
                assert(decreases_to!(*new => new->List_0));
                vstd::std_specs::vec::axiom_vec_index_decreases(*new_items, i as int);
            }
            let child = diff_nodes(value, old_value, path.clone().index(i));
            proof {
                lemma_relocated_step(path@, Step::Index(i as int), diff(*value, *old_value));
            }
            match child {
                Ok(mut child_changes) => {
                    let ghost first = changes_of(changes@);
                    let ghost second = changes_of(child_changes@);
                    changes.append(&mut child_changes);
                    proof {
                        assert(changes_of(changes@) =~= first + second);
                        lemma_prefixed_concat(
                            path@,
                            so_far,
                            prefixed(at, diff(*value, *old_value)->Ok_0),
                        );
                    }
                },
                Err(refusal) => {
                    proof {
                        lemma_items_failure_stays(
                            new_items@,
                            old_items@,
                            (i + 1) as nat,
                            new_items@.len(),
                        );
                    }
                    return Err(refusal);
                },
            }
        } else {
            let ghost first = changes_of(changes@);
            changes.push(LocalChange::insert(path.clone().index(i), value.clone()));
            proof {
                assert(path@ + at =~= path@.push(Step::Index(i as int)));
                assert(changes_of(changes@) =~= first + prefixed(
                    path@,
                    seq![insert_at(at, tree_of(*value))],
                ));
                lemma_prefixed_concat(path@, so_far, seq![insert_at(at, tree_of(*value))]);
            }
        }
        i += 1;
    }
    push_truncation(&mut changes, &path, new_items.len(), old_items.len());
    proof {
        lemma_prefixed_concat(
            path@,
            diff_items(new_items@, old_items@, new_items@.len())->Ok_0,
            truncation(new_items@.len() as int, old_items@.len() as int),
        );
    }
    Ok(changes)
}

/// Calculates the changes between two texts at `path`.
fn diff_texts(new_text: &Vec<String>, old_text: &Vec<String>, path: Path) -> (changes: Vec<
    LocalChange,
>)
    ensures
        changes_of(changes@) == prefixed(
            path@,
            diff_text(string_views(new_text@), string_views(old_text@), new_text@.len())
                + truncation(new_text@.len() as int, old_text@.len() as int),
        ),
{
    let ghost new_views = string_views(new_text@);
    let ghost old_views = string_views(old_text@);
    let mut changes: Vec<LocalChange> = Vec::new();
    let mut i: usize = 0;
    assert(changes_of(changes@) =~= prefixed(path@, Seq::empty()));
    while i < new_text.len()
        invariant
            i <= new_text@.len(),
            new_views == string_views(new_text@),
            old_views == string_views(old_text@),
            changes_of(changes@) == prefixed(path@, diff_text(new_views, old_views, i as nat)),
        decreases new_text@.len() - i,
    {
        let grapheme = &new_text[i];
        let ghost so_far = diff_text(new_views, old_views, i as nat);
        let ghost at = seq![Step::Index(i as int)];
        let ghost tree = Tree::Primitive(Scalar::Str(new_views[i as int]));
        let ghost first = changes_of(changes@);
        proof {
            assert(path@ + at =~= path@.push(Step::Index(i as int)));
        }
        if i < old_text.len() {
            if *grapheme != old_text[i] {
                changes.push(
                    LocalChange::set(
                        path.clone().index(i),
                        Value::Primitive(Primitive::Str(grapheme.clone())),
                    ),
                );
                proof {
                    assert(changes_of(changes@) =~= first + prefixed(
                        path@,
                        seq![put_at(at, tree)],
                    ));
                    lemma_prefixed_concat(path@, so_far, seq![put_at(at, tree)]);
                }
            } else {
                assert(so_far + Seq::<Change>::empty() =~= so_far);
            }
        } else {
            changes.push(
                LocalChange::insert(
                    path.clone().index(i),
                    Value::Primitive(Primitive::Str(grapheme.clone())),
                ),
            );
            proof {
                assert(changes_of(changes@) =~= first + prefixed(
                    path@,
                    seq![insert_at(at, tree)],
                ));
                lemma_prefixed_concat(path@, so_far, seq![insert_at(at, tree)]);
            }
        }
        i += 1;
    }
    push_truncation(&mut changes, &path, new_text.len(), old_text.len());
    proof {
        lemma_prefixed_concat(
            path@,
            diff_text(new_views, old_views, new_text@.len()),
            truncation(new_text@.len() as int, old_text@.len() as int),
        );
    }
    changes
}

/// Calculates the changes that turn the node `old` into the node `new`, both
/// at `path`.
pub fn diff_nodes(new: &Value, old: &Value, path: Path) -> (result: Result<
    Vec<LocalChange>,
    InvalidChangeRequest,
>)
    ensures
        stands_for(result, relocated(path@, diff(*new, *old))),
    decreases new, 1nat,
{
    match new {
        Value::Mapping(new_kind, new_map) => match old {
            Value::Mapping(old_kind, old_map) => {
                if *new_kind == *old_kind {
                    diff_maps(new, new_map, old_map, path)
                } else {
                    replace_node(new, old, path)
                }
            },
            _ => replace_node(new, old, path),
        },
        Value::List(new_items) => match old {
            Value::List(old_items) => diff_lists(new, new_items, old_items, path),
            _ => replace_node(new, old, path),
        },
        Value::Text(new_text) => match old {
            Value::Text(old_text) => Ok(diff_texts(new_text, old_text, path)),
            _ => replace_node(new, old, path),
        },
        Value::Primitive(new_primitive) => match old {
            Value::Primitive(old_primitive) => diff_primitives(new_primitive, old_primitive, path),
            _ => replace_node(new, old, path),
        },
    }
}

/// Calculates the changes between two optional nodes at `path`: a node that
/// appears is put in place, one that disappears is deleted, and two nodes are
/// compared.
pub fn diff_with_path(new: Option<&Value>, old: Option<&Value>, path: Path) -> (result: Result<
    Vec<LocalChange>,
    InvalidChangeRequest,
>)
    ensures
        stands_for(result, diff_at(new, old, path@)),
{
    match (new, old) {
        (None, None) => {
            let changes: Vec<LocalChange> = Vec::new();
            assert(changes_of(changes@) =~= Seq::empty());
            Ok(changes)
        },
        (Some(after), None) => Ok(put_whole(path, after)),
        (None, Some(_)) => {
            let mut changes: Vec<LocalChange> = Vec::new();
            changes.push(LocalChange::delete(path));
            assert(changes_of(changes@) =~= seq![delete_at(path@)]);
            Ok(changes)
        },
        (Some(after), Some(before)) => diff_nodes(after, before, path),
    }
}

/// Calculates the changes that turn the document `old` into the document
/// `new`, with paths from the root.
pub fn diff_values(new: &Value, old: &Value) -> (result: Result<
    Vec<LocalChange>,
    InvalidChangeRequest,
>)
    ensures
        stands_for(result, diff(*new, *old)),
{
    let result = diff_with_path(Some(new), Some(old), Path::root());
    proof {
        lemma_relocated_root(diff(*new, *old));
    }
    result
}

/// Relocating an outcome to the root leaves it as it is.
pub proof fn lemma_relocated_root(outcome: Outcome)
    ensures
        relocated(Seq::empty(), outcome) == outcome,
{
    match outcome {
        Ok(changes) => {
            assert forall|i: int| 0 <= i < changes.len() implies Seq::<Step>::empty()
                + #[trigger] changes[i].path == changes[i].path by {
                assert(Seq::<Step>::empty() + changes[i].path =~= changes[i].path);
            }
            assert(prefixed(Seq::empty(), changes) =~= changes);
        },
        Err(at) => {
            assert(Seq::<Step>::empty() + at =~= at);
        },
    }
}

} // verus!
