//! Questions about what a value tree holds somewhere inside.
use vstd::prelude::*;
use crate::float::{f32_is_nan, f64_is_nan, is_nan_f32, is_nan_f64};
use crate::text::{grapheme_clusters, split_graphemes};
use crate::value::{MapType, Primitive, Scalar, Tree, Value, string_views};

verus! {

/// What to look for in a tree.
#[derive(Clone, Copy, Debug, PartialEq, Eq, Structural)]
pub enum Probe {
    /// A cursor.
    Cursor,
    /// A keyed node that is a table.
    Table,
    /// A text element that is not exactly one grapheme cluster.
    SplitGrapheme,
    /// A floating-point scalar that is not a number.
    NotANumber,
}

/// The node `tree` itself is what the probe looks for.
pub open spec fn probe_holds(probe: Probe, tree: Tree) -> bool {
    match probe {
        Probe::Cursor => tree is Primitive && tree->Primitive_0 is Cursor,
        Probe::Table => tree is Mapping && tree->Mapping_0 == MapType::Table,
        Probe::SplitGrapheme => tree is Text && exists|i: int|
            0 <= i < tree->Text_0.len() && (#[trigger] grapheme_clusters(tree->Text_0[i])).len()
                != 1,
        Probe::NotANumber => match tree {
            Tree::Primitive(Scalar::F64(bits)) => f64_is_nan(bits),
            Tree::Primitive(Scalar::F32(bits)) => f32_is_nan(bits),
            _ => false,
        },
    }
}

/// The value, or a value somewhere below it, is what the probe looks for.
pub open spec fn some_node(value: Value, probe: Probe) -> bool
    decreases value,
{
    probe_holds(probe, value@) || match value {
        Value::Mapping(_, map) => {
            proof {
                map.lemma_entries_decrease();
            }
            exists|i: int|
                0 <= i < map.entries().len() && some_node(
                    (#[trigger] map.entries()[i]).1,
                    probe,
                )
        },
        Value::List(items) => exists|i: int|
            0 <= i < items@.len() && some_node(#[trigger] items@[i], probe),
        _ => false,
    }
}

/// Tells whether the node itself is what the probe looks for.
fn holds_here(value: &Value, probe: Probe) -> (found: bool)
    ensures
        found == probe_holds(probe, value@),
{
    match probe {
        Probe::Cursor => match value {
            Value::Primitive(Primitive::Cursor(_)) => true,
            _ => false,
        },
        Probe::Table => match value {
            Value::Mapping(MapType::Table, _) => true,
            _ => false,
        },
        Probe::SplitGrapheme => match value {
            Value::Text(text) => {
                let mut i: usize = 0;
                while i < text.len()
                    invariant
                        i <= text.len(),
                        probe == Probe::SplitGrapheme,
                        value@ == Tree::Text(string_views(text@)),
                        forall|j: int|
                            0 <= j < i ==> (#[trigger] grapheme_clusters(
                                string_views(text@)[j],
                            )).len() == 1,
                    decreases text.len() - i,
                {
                    let clusters = split_graphemes(text[i].as_str());
                    if clusters.len() != 1 {
                        assert(grapheme_clusters(value@->Text_0[i as int]).len() != 1);
                        return true;
                    }
                    i += 1;
                }
                false
            },
            _ => false,
        },
        Probe::NotANumber => match value {
            Value::Primitive(Primitive::F64(bits)) => is_nan_f64(*bits),
            Value::Primitive(Primitive::F32(bits)) => is_nan_f32(*bits),
            _ => false,
        },
    }
}

/// Tells whether the tree, or a tree somewhere below it, is what the probe
/// looks for.
pub fn find_node(value: &Value, probe: Probe) -> (found: bool)
    ensures
        found == some_node(*value, probe),
    decreases value,
{
    if holds_here(value, probe) {
        return true;
    }
    match value {
        Value::Mapping(_, map) => {
            let ghost entries = map.entries();
            let mut i: usize = 0;
            while i < map.len()
                invariant
                    i <= entries.len(),
                    entries == map.entries(),
                    value is Mapping,
                    value->Mapping_1 == *map,
                    forall|j: int| 0 <= j < i ==> !some_node((#[trigger] entries[j]).1, probe),
                decreases entries.len() - i,
            {
                proof {
                    map.lemma_entries_decrease();
                    assert(decreases_to!(*value => value->Mapping_1));
                    assert(decreases_to!(entries => entries[i as int]));
                    assert(decreases_to!(entries[i as int] => entries[i as int].1));
                }
                if find_node(map.value_at(i), probe) {
                    assert(some_node(entries[i as int].1, probe));
                    return true;
                }
                i += 1;
            }
            false
        },
        Value::List(items) => {
            let mut i: usize = 0;
            while i < items.len()
                invariant
                    i <= items.len(),
                    value is List,
                    value->List_0 == *items,
                    forall|j: int| 0 <= j < i ==> !some_node(#[trigger] items@[j], probe),
                decreases items.len() - i,
            {
                proof {
                    assert(decreases_to!(*value => value->List_0));
                    vstd::std_specs::vec::axiom_vec_index_decreases(*items, i as int);
                }
                if find_node(&items[i], probe) {
                    return true;
                }
                i += 1;
            }
            false
        },
        _ => false,
    }
}

/// Tells whether the tree holds a cursor anywhere.
pub fn has_cursor(v: &Value) -> (found: bool)
    ensures
        found == some_node(*v, Probe::Cursor),
{
    find_node(v, Probe::Cursor)
}

/// Tells whether the tree holds a table anywhere.
pub fn has_table(v: &Value) -> (found: bool)
    ensures
        found == some_node(*v, Probe::Table),
{
    find_node(v, Probe::Table)
}

/// Tells whether the tree holds, in some text, an element that is not exactly
/// one grapheme cluster: an empty one, or one that holds several.
pub fn has_empty_text(v: &Value) -> (found: bool)
    ensures
        found == some_node(*v, Probe::SplitGrapheme),
{
    find_node(v, Probe::SplitGrapheme)
}

/// Tells whether the tree holds anywhere a floating-point scalar that is not
/// a number.
pub fn has_nan(v: &Value) -> (found: bool)
    ensures
        found == some_node(*v, Probe::NotANumber),
{
    find_node(v, Probe::NotANumber)
}

} // verus!
