//! Equality of views.
//!
//! Two views are equal when they are of one kind and show the same: maps with
//! the same identifier, as many keys and, under each key, equal views; lists
//! and texts with the same identifier, as many elements and, position by
//! position, equal views or strings; and equal scalars. The comparison
//! descends as deep as the documents are, up to the largest number of levels
//! that a machine word can count.
use vstd::prelude::*;
use vstd::std_specs::cmp::PartialEqSpecImpl;
use vstd::view::View as _;
use crate::list_view::{
    HistoricalListView,
    ListView,
    MutableListView,
    historical_indexed_views,
    indexed_views,
};
use crate::map_view::{
    HistoricalMapView,
    MapView,
    MutableMapView,
    entry_views,
    historical_entry_views,
    historical_keyed_views,
    keyed_views,
};
use crate::outside::{
    held_keys,
    held_keys_at,
    held_length,
    held_length_at,
    objects_equal,
    same_object,
    same_scalar,
    scalars_equal,
};
use crate::text_view::{
    HistoricalTextView,
    MutableTextView,
    TextView,
    graphemes,
    historical_graphemes,
};
use crate::value::string_views;
use crate::view::{HistoricalView, MutableView, View};
use crate::viewable::Viewable;

verus! {

/// The first position from `from` on at which `entries` has the key `key`,
/// or the length where it has none.
pub open spec fn key_position<W>(entries: Seq<(Seq<char>, W)>, key: Seq<char>, from: int) -> int
    decreases entries.len() - from,
{
    if from < 0 || from >= entries.len() {
        entries.len() as int
    } else if entries[from].0 == key {
        from
    } else {
        key_position(entries, key, from + 1)
    }
}

/// The entries that a view of a map shows.
pub open spec fn shown_entries<'a, V: Viewable>(map: MapView<'a, V>) -> Seq<
    (Seq<char>, View<'a, V>),
> {
    keyed_views(
        map.doc,
        map.obj,
        held_keys(map.doc.document(), map.obj),
        held_keys(map.doc.document(), map.obj).len(),
    )
}

/// The elements that a view of a list shows.
pub open spec fn shown_items<'a, V: Viewable>(list: ListView<'a, V>) -> Seq<View<'a, V>> {
    indexed_views(list.doc, list.obj, held_length(list.doc.document(), list.obj) as nat)
}

/// The strings that a view of a text shows.
pub open spec fn shown_text<'a, V: Viewable>(text: TextView<'a, V>) -> Seq<Seq<char>> {
    graphemes(text.doc, text.obj, held_length(text.doc.document(), text.obj) as nat)
}

/// Two views are equal, as far as `depth` levels show.
pub open spec fn views_same<'a, 'b, V: Viewable, W: Viewable>(
    a: View<'a, V>,
    b: View<'b, W>,
    depth: nat,
) -> bool
    decreases depth, 1nat,
{
    match (a, b) {
        (View::Mapping(x), View::Mapping(y)) => maps_same(x, y, depth),
        (View::List(x), View::List(y)) => lists_same(x, y, depth),
        (View::Text(x), View::Text(y)) => texts_same(x, y),
        (View::Scalar(x), View::Scalar(y)) => same_scalar(x, y),
        _ => false,
    }
}

/// Two views of maps are equal, as far as `depth` levels show.
pub open spec fn maps_same<'a, 'b, V: Viewable, W: Viewable>(
    a: MapView<'a, V>,
    b: MapView<'b, W>,
    depth: nat,
) -> bool
    decreases depth, 0nat,
{
    &&& depth > 0
    &&& same_object(a.obj, b.obj)
    &&& held_keys(a.doc.document(), a.obj).len() == held_keys(b.doc.document(), b.obj).len()
    &&& shown_entries(a).len() == shown_entries(b).len()
    &&& forall|i: int|
        0 <= i < shown_entries(a).len() ==> {
            let at = key_position(shown_entries(b), (#[trigger] shown_entries(a)[i]).0, 0);
            at < shown_entries(b).len() && views_same(
                shown_entries(a)[i].1,
                shown_entries(b)[at].1,
                (depth - 1) as nat,
            )
        }
}

/// Two views of lists are equal, as far as `depth` levels show.
pub open spec fn lists_same<'a, 'b, V: Viewable, W: Viewable>(
    a: ListView<'a, V>,
    b: ListView<'b, W>,
    depth: nat,
) -> bool
    decreases depth, 0nat,
{
    &&& depth > 0
    &&& same_object(a.obj, b.obj)
    &&& held_length(a.doc.document(), a.obj) == held_length(b.doc.document(), b.obj)
    &&& forall|i: int|
        0 <= i < shown_items(a).len() && i < shown_items(b).len() ==> views_same(
            #[trigger] shown_items(a)[i],
            shown_items(b)[i],
            (depth - 1) as nat,
        )
}

/// Two views of texts are equal.
pub open spec fn texts_same<'a, 'b, V: Viewable, W: Viewable>(
    a: TextView<'a, V>,
    b: TextView<'b, W>,
) -> bool {
    &&& same_object(a.obj, b.obj)
    &&& held_length(a.doc.document(), a.obj) == held_length(b.doc.document(), b.obj)
    &&& forall|i: int|
        0 <= i < shown_text(a).len() && i < shown_text(b).len() ==> #[trigger] shown_text(a)[i]
            == shown_text(b)[i]
}

/// The position of the first entry with the key `key`.
fn position_of_key<'b, W: Viewable>(entries: &Vec<(String, View<'b, W>)>, key: &String) -> (at: usize)
    ensures
        at == key_position(entry_views(entries@), key@, 0),
        at <= entries@.len(),
{
    let ghost shown = entry_views(entries@);
    let mut i: usize = 0;
    while i < entries.len()
        invariant
            i <= entries.len(),
            shown == entry_views(entries@),
            key_position(shown, key@, 0) == key_position(shown, key@, i as int),
        decreases entries.len() - i,
    {
        if entries[i].0 == *key {
            return i;
        }
        i += 1;
    }
    i
}

/// Tells whether two views are equal, as far as `depth` levels show.
pub fn same_views<'a, 'b, V: Viewable, W: Viewable>(
    a: &View<'a, V>,
    b: &View<'b, W>,
    depth: usize,
) -> (same: bool)
    ensures
        same == views_same(*a, *b, depth as nat),
    decreases depth, 1nat,
{
    match (a, b) {
        (View::Mapping(x), View::Mapping(y)) => same_maps(x, y, depth),
        (View::List(x), View::List(y)) => same_lists(x, y, depth),
        (View::Text(x), View::Text(y)) => same_texts(x, y),
        (View::Scalar(x), View::Scalar(y)) => scalars_equal(x, y),
        _ => false,
    }
}

/// Tells whether two views of maps are equal, as far as `depth` levels show.
pub fn same_maps<'a, 'b, V: Viewable, W: Viewable>(
    a: &MapView<'a, V>,
    b: &MapView<'b, W>,
    depth: usize,
) -> (same: bool)
    ensures
        same == maps_same(*a, *b, depth as nat),
    decreases depth, 0nat,
{
    if depth == 0 || !objects_equal(&a.obj, &b.obj) || a.len() != b.len() {
        return false;
    }
    let ours = a.iter();
    let theirs = b.iter();
    if ours.len() != theirs.len() {
        assert(entry_views(ours@).len() == ours@.len());
        assert(entry_views(theirs@).len() == theirs@.len());
        return false;
    }
    let ghost shown = entry_views(ours@);
    let ghost other = entry_views(theirs@);
    let mut i: usize = 0;
    while i < ours.len()
        invariant
            i <= ours.len(),
            depth > 0,
            shown == entry_views(ours@),
            other == entry_views(theirs@),
            shown == shown_entries(*a),
            other == shown_entries(*b),
            forall|j: int|
                0 <= j < i ==> {
                    let at = key_position(other, (#[trigger] shown[j]).0, 0);
                    at < other.len() && views_same(shown[j].1, other[at].1, (depth - 1) as nat)
                },
        decreases ours.len() - i,
    {
        let at = position_of_key(&theirs, &ours[i].0);
        assert(shown[i as int].0 == ours@[i as int].0@);
        if at >= theirs.len() {
            return false;
        }
        assert(other[at as int].1 == theirs@[at as int].1);
        if !same_views(&ours[i].1, &theirs[at].1, depth - 1) {
            return false;
        }
        i += 1;
    }
    true
}

/// Tells whether two views of lists are equal, as far as `depth` levels show.
pub fn same_lists<'a, 'b, V: Viewable, W: Viewable>(
    a: &ListView<'a, V>,
    b: &ListView<'b, W>,
    depth: usize,
) -> (same: bool)
    ensures
        same == lists_same(*a, *b, depth as nat),
    decreases depth, 0nat,
{
    if depth == 0 || !objects_equal(&a.obj, &b.obj) || a.len() != b.len() {
        return false;
    }
    let ours = a.iter();
    let theirs = b.iter();
    let mut i: usize = 0;
    while i < ours.len() && i < theirs.len()
        invariant
            depth > 0,
            ours@ == shown_items(*a),
            theirs@ == shown_items(*b),
            forall|j: int|
                0 <= j < i ==> views_same(#[trigger] ours@[j], theirs@[j], (depth - 1) as nat),
        decreases ours.len() - i,
    {
        if !same_views(&ours[i], &theirs[i], depth - 1) {
            return false;
        }
        i += 1;
    }
    true
}

/// Tells whether two views of texts are equal.
pub fn same_texts<'a, 'b, V: Viewable, W: Viewable>(a: &TextView<'a, V>, b: &TextView<'b, W>) -> (same:
    bool)
    ensures
        same == texts_same(*a, *b),
{
    if !objects_equal(&a.obj, &b.obj) || a.len() != b.len() {
        return false;
    }
    let ours = a.iter();
    let theirs = b.iter();
    let mut i: usize = 0;
    while i < ours.len() && i < theirs.len()
        invariant
            string_views(ours@) == shown_text(*a),
            string_views(theirs@) == shown_text(*b),
            forall|j: int| 0 <= j < i ==> #[trigger] string_views(ours@)[j] == string_views(theirs@)[j],
        decreases ours.len() - i,
    {
        if ours[i] != theirs[i] {
            assert(string_views(ours@)[i as int] != string_views(theirs@)[i as int]);
            return false;
        }
        i += 1;
    }
    assert(string_views(ours@).len() == ours@.len());
    assert(string_views(theirs@).len() == theirs@.len());
    true
}

impl<'a, 'oa, V: Viewable, OV: Viewable> PartialEq<View<'oa, OV>> for View<'a, V> {
    fn eq(&self, other: &View<'oa, OV>) -> (same: bool) {
        same_views(self, other, usize::MAX)
    }
}

impl<'a, 'oa, V: Viewable, OV: Viewable> PartialEqSpecImpl<View<'oa, OV>> for View<'a, V> {
    open spec fn obeys_eq_spec() -> bool {
        true
    }

    open spec fn eq_spec(&self, other: &View<'oa, OV>) -> bool {
        views_same(*self, *other, usize::MAX as nat)
    }
}

impl<'a, 'oa, V: Viewable, OV: Viewable> PartialEq<MapView<'oa, OV>> for MapView<'a, V> {
    fn eq(&self, other: &MapView<'oa, OV>) -> (same: bool) {
        same_maps(self, other, usize::MAX)
    }
}

impl<'a, 'oa, V: Viewable, OV: Viewable> PartialEqSpecImpl<MapView<'oa, OV>> for MapView<'a, V> {
    open spec fn obeys_eq_spec() -> bool {
        true
    }

    open spec fn eq_spec(&self, other: &MapView<'oa, OV>) -> bool {
        maps_same(*self, *other, usize::MAX as nat)
    }
}

impl<'a, 'oa, V: Viewable, OV: Viewable> PartialEq<ListView<'oa, OV>> for ListView<'a, V> {
    fn eq(&self, other: &ListView<'oa, OV>) -> (same: bool) {
        same_lists(self, other, usize::MAX)
    }
}

impl<'a, 'oa, V: Viewable, OV: Viewable> PartialEqSpecImpl<ListView<'oa, OV>> for ListView<'a, V> {
    open spec fn obeys_eq_spec() -> bool {
        true
    }

    open spec fn eq_spec(&self, other: &ListView<'oa, OV>) -> bool {
        lists_same(*self, *other, usize::MAX as nat)
    }
}

impl<'a, 'oa, V: Viewable, OV: Viewable> PartialEq<TextView<'oa, OV>> for TextView<'a, V> {
    fn eq(&self, other: &TextView<'oa, OV>) -> (same: bool) {
        same_texts(self, other)
    }
}

impl<'a, 'oa, V: Viewable, OV: Viewable> PartialEqSpecImpl<TextView<'oa, OV>> for TextView<'a, V> {
    open spec fn obeys_eq_spec() -> bool {
        true
    }

    open spec fn eq_spec(&self, other: &TextView<'oa, OV>) -> bool {
        texts_same(*self, *other)
    }
}

impl<'a, 't> PartialEq for MutableMapView<'a, 't> {
    fn eq(&self, other: &Self) -> (same: bool) {
        same_maps(&self.to_immutable(), &other.to_immutable(), usize::MAX)
    }
}

impl<'a, 't> PartialEqSpecImpl for MutableMapView<'a, 't> {
    open spec fn obeys_eq_spec() -> bool {
        true
    }

    open spec fn eq_spec(&self, other: &Self) -> bool {
        maps_same(
            MapView { obj: self.obj, doc: &self.transaction() },
            MapView { obj: other.obj, doc: &other.transaction() },
            usize::MAX as nat,
        )
    }
}

impl<'a, 't> PartialEq for MutableListView<'a, 't> {
    fn eq(&self, other: &Self) -> (same: bool) {
        same_lists(&self.to_immutable(), &other.to_immutable(), usize::MAX)
    }
}

impl<'a, 't> PartialEqSpecImpl for MutableListView<'a, 't> {
    open spec fn obeys_eq_spec() -> bool {
        true
    }

    open spec fn eq_spec(&self, other: &Self) -> bool {
        lists_same(
            ListView { obj: self.obj, doc: &self.transaction() },
            ListView { obj: other.obj, doc: &other.transaction() },
            usize::MAX as nat,
        )
    }
}

impl<'a, 't> PartialEq for MutableTextView<'a, 't> {
    fn eq(&self, other: &Self) -> (same: bool) {
        same_texts(&self.to_immutable(), &other.to_immutable())
    }
}

impl<'a, 't> PartialEqSpecImpl for MutableTextView<'a, 't> {
    open spec fn obeys_eq_spec() -> bool {
        true
    }

    open spec fn eq_spec(&self, other: &Self) -> bool {
        texts_same(
            TextView { obj: self.obj, doc: &self.transaction() },
            TextView { obj: other.obj, doc: &other.transaction() },
        )
    }
}

impl<'a, 't> PartialEq for MutableView<'a, 't> {
    fn eq(&self, other: &Self) -> (same: bool) {
        same_views(&self.to_immutable(), &other.to_immutable(), usize::MAX)
    }
}

impl<'a, 't> PartialEqSpecImpl for MutableView<'a, 't> {
    open spec fn obeys_eq_spec() -> bool {
        true
    }

    open spec fn eq_spec(&self, other: &Self) -> bool {
        views_same(self.reading(), other.reading(), usize::MAX as nat)
    }
}

/// The entries that a historical view of a map shows.
pub open spec fn shown_historical_entries<'a, 'h, V: Viewable>(
    map: HistoricalMapView<'a, 'h, V>,
) -> Seq<(Seq<char>, HistoricalView<'a, 'h, V>)> {
    historical_keyed_views(
        map.doc,
        map.obj,
        map.heads,
        held_keys_at(map.doc.document(), map.obj, map.heads@),
        held_keys_at(map.doc.document(), map.obj, map.heads@).len(),
    )
}

/// The elements that a historical view of a list shows.
pub open spec fn shown_historical_items<'a, 'h, V: Viewable>(
    list: HistoricalListView<'a, 'h, V>,
) -> Seq<HistoricalView<'a, 'h, V>> {
    historical_indexed_views(
        list.doc,
        list.obj,
        list.heads,
        held_length_at(list.doc.document(), list.obj, list.heads@) as nat,
    )
}

/// The strings that a historical view of a text shows.
pub open spec fn shown_historical_text<'a, 'h, V: Viewable>(
    text: HistoricalTextView<'a, 'h, V>,
) -> Seq<Seq<char>> {
    historical_graphemes(
        text.doc,
        text.obj,
        text.heads,
        held_length_at(text.doc.document(), text.obj, text.heads@) as nat,
    )
}

/// Two historical views are equal, as far as `depth` levels show.
pub open spec fn historical_views_same<'a, 'h, 'b, 'g, V: Viewable, W: Viewable>(
    a: HistoricalView<'a, 'h, V>,
    b: HistoricalView<'b, 'g, W>,
    depth: nat,
) -> bool
    decreases depth, 1nat,
{
    match (a, b) {
        (HistoricalView::Mapping(x), HistoricalView::Mapping(y)) => historical_maps_same(
            x,
            y,
            depth,
        ),
        (HistoricalView::List(x), HistoricalView::List(y)) => historical_lists_same(x, y, depth),
        (HistoricalView::Text(x), HistoricalView::Text(y)) => historical_texts_same(x, y),
        (HistoricalView::Scalar(x), HistoricalView::Scalar(y)) => same_scalar(x, y),
        _ => false,
    }
}

/// Two historical views of maps are equal, as far as `depth` levels show.
pub open spec fn historical_maps_same<'a, 'h, 'b, 'g, V: Viewable, W: Viewable>(
    a: HistoricalMapView<'a, 'h, V>,
    b: HistoricalMapView<'b, 'g, W>,
    depth: nat,
) -> bool
    decreases depth, 0nat,
{
    &&& depth > 0
    &&& same_object(a.obj, b.obj)
    &&& held_keys_at(a.doc.document(), a.obj, a.heads@).len() == held_keys_at(
        b.doc.document(),
        b.obj,
        b.heads@,
    ).len()
    &&& shown_historical_entries(a).len() == shown_historical_entries(b).len()
    &&& forall|i: int|
        0 <= i < shown_historical_entries(a).len() ==> {
            let at = key_position(
                shown_historical_entries(b),
                (#[trigger] shown_historical_entries(a)[i]).0,
                0,
            );
            at < shown_historical_entries(b).len() && historical_views_same(
                shown_historical_entries(a)[i].1,
                shown_historical_entries(b)[at].1,
                (depth - 1) as nat,
            )
        }
}

/// Two historical views of lists are equal, as far as `depth` levels show.
pub open spec fn historical_lists_same<'a, 'h, 'b, 'g, V: Viewable, W: Viewable>(
    a: HistoricalListView<'a, 'h, V>,
    b: HistoricalListView<'b, 'g, W>,
    depth: nat,
) -> bool
    decreases depth, 0nat,
{
    &&& depth > 0
    &&& same_object(a.obj, b.obj)
    &&& held_length_at(a.doc.document(), a.obj, a.heads@) == held_length_at(
        b.doc.document(),
        b.obj,
        b.heads@,
    )
    &&& forall|i: int|
        0 <= i < shown_historical_items(a).len() && i < shown_historical_items(b).len()
            ==> historical_views_same(
            #[trigger] shown_historical_items(a)[i],
            shown_historical_items(b)[i],
            (depth - 1) as nat,
        )
}

/// Two historical views of texts are equal.
pub open spec fn historical_texts_same<'a, 'h, 'b, 'g, V: Viewable, W: Viewable>(
    a: HistoricalTextView<'a, 'h, V>,
    b: HistoricalTextView<'b, 'g, W>,
) -> bool {
    &&& same_object(a.obj, b.obj)
    &&& held_length_at(a.doc.document(), a.obj, a.heads@) == held_length_at(
        b.doc.document(),
        b.obj,
        b.heads@,
    )
    &&& forall|i: int|
        0 <= i < shown_historical_text(a).len() && i < shown_historical_text(b).len()
            ==> #[trigger] shown_historical_text(a)[i] == shown_historical_text(b)[i]
}

/// The position of the first entry with the key `key`.
fn position_of_historical_key<'b, 'g, W: Viewable>(
    entries: &Vec<(String, HistoricalView<'b, 'g, W>)>,
    key: &String,
) -> (at: usize)
    ensures
        at == key_position(historical_entry_views(entries@), key@, 0),
        at <= entries@.len(),
{
    let ghost shown = historical_entry_views(entries@);
    let mut i: usize = 0;
    while i < entries.len()
        invariant
            i <= entries.len(),
            shown == historical_entry_views(entries@),
            key_position(shown, key@, 0) == key_position(shown, key@, i as int),
        decreases entries.len() - i,
    {
        if entries[i].0 == *key {
            return i;
        }
        i += 1;
    }
    i
}

/// Tells whether two historical views are equal, as far as `depth` levels
/// show.
pub fn same_historical_views<'a, 'h, 'b, 'g, V: Viewable, W: Viewable>(
    a: &HistoricalView<'a, 'h, V>,
    b: &HistoricalView<'b, 'g, W>,
    depth: usize,
) -> (same: bool)
    ensures
        same == historical_views_same(*a, *b, depth as nat),
    decreases depth, 1nat,
{
    match (a, b) {
        (HistoricalView::Mapping(x), HistoricalView::Mapping(y)) => same_historical_maps(
            x,
            y,
            depth,
        ),
        (HistoricalView::List(x), HistoricalView::List(y)) => same_historical_lists(x, y, depth),
        (HistoricalView::Text(x), HistoricalView::Text(y)) => same_historical_texts(x, y),
        (HistoricalView::Scalar(x), HistoricalView::Scalar(y)) => scalars_equal(x, y),
        _ => false,
    }
}

/// Tells whether two historical views of maps are equal, as far as `depth`
/// levels show.
pub fn same_historical_maps<'a, 'h, 'b, 'g, V: Viewable, W: Viewable>(
    a: &HistoricalMapView<'a, 'h, V>,
    b: &HistoricalMapView<'b, 'g, W>,
    depth: usize,
) -> (same: bool)
    ensures
        same == historical_maps_same(*a, *b, depth as nat),
    decreases depth, 0nat,
{
    if depth == 0 || !objects_equal(&a.obj, &b.obj) || a.len() != b.len() {
        return false;
    }
    let ours = a.iter();
    let theirs = b.iter();
    if ours.len() != theirs.len() {
        assert(historical_entry_views(ours@).len() == ours@.len());
        assert(historical_entry_views(theirs@).len() == theirs@.len());
        return false;
    }
    let ghost shown = historical_entry_views(ours@);
    let ghost other = historical_entry_views(theirs@);
    let mut i: usize = 0;
    while i < ours.len()
        invariant
            i <= ours.len(),
            depth > 0,
            shown == historical_entry_views(ours@),
            other == historical_entry_views(theirs@),
            shown == shown_historical_entries(*a),
            other == shown_historical_entries(*b),
            forall|j: int|
                0 <= j < i ==> {
                    let at = key_position(other, (#[trigger] shown[j]).0, 0);
                    at < other.len() && historical_views_same(
                        shown[j].1,
                        other[at].1,
                        (depth - 1) as nat,
                    )
                },
        decreases ours.len() - i,
    {
        let at = position_of_historical_key(&theirs, &ours[i].0);
        assert(shown[i as int].0 == ours@[i as int].0@);
        if at >= theirs.len() {
            return false;
        }
        assert(other[at as int].1 == theirs@[at as int].1);
        if !same_historical_views(&ours[i].1, &theirs[at].1, depth - 1) {
            return false;
        }
        i += 1;
    }
    true
}

/// Tells whether two historical views of lists are equal, as far as `depth`
/// levels show.
pub fn same_historical_lists<'a, 'h, 'b, 'g, V: Viewable, W: Viewable>(
    a: &HistoricalListView<'a, 'h, V>,
    b: &HistoricalListView<'b, 'g, W>,
    depth: usize,
) -> (same: bool)
    ensures
        same == historical_lists_same(*a, *b, depth as nat),
    decreases depth, 0nat,
{
    if depth == 0 || !objects_equal(&a.obj, &b.obj) || a.len() != b.len() {
        return false;
    }
    let ours = a.iter();
    let theirs = b.iter();
    let mut i: usize = 0;
    while i < ours.len() && i < theirs.len()
        invariant
            depth > 0,
            ours@ == shown_historical_items(*a),
            theirs@ == shown_historical_items(*b),
            forall|j: int|
                0 <= j < i ==> historical_views_same(
                    #[trigger] ours@[j],
                    theirs@[j],
                    (depth - 1) as nat,
                ),
        decreases ours.len() - i,
    {
        if !same_historical_views(&ours[i], &theirs[i], depth - 1) {
            return false;
        }
        i += 1;
    }
    true
}

/// Tells whether two historical views of texts are equal.
pub fn same_historical_texts<'a, 'h, 'b, 'g, V: Viewable, W: Viewable>(
    a: &HistoricalTextView<'a, 'h, V>,
    b: &HistoricalTextView<'b, 'g, W>,
) -> (same: bool)
    ensures
        same == historical_texts_same(*a, *b),
{
    if !objects_equal(&a.obj, &b.obj) || a.len() != b.len() {
        return false;
    }
    let ours = a.iter();
    let theirs = b.iter();
    let mut i: usize = 0;
    while i < ours.len() && i < theirs.len()
        invariant
            string_views(ours@) == shown_historical_text(*a),
            string_views(theirs@) == shown_historical_text(*b),
            forall|j: int| 0 <= j < i ==> #[trigger] string_views(ours@)[j] == string_views(theirs@)[j],
        decreases ours.len() - i,
    {
        if ours[i] != theirs[i] {
            assert(string_views(ours@)[i as int] != string_views(theirs@)[i as int]);
            return false;
        }
        i += 1;
    }
    assert(string_views(ours@).len() == ours@.len());
    assert(string_views(theirs@).len() == theirs@.len());
    true
}

impl<'a, 'h, 'oa, 'oh, V: Viewable, OV: Viewable> PartialEq<
    HistoricalView<'oa, 'oh, OV>,
> for HistoricalView<'a, 'h, V> {
    fn eq(&self, other: &HistoricalView<'oa, 'oh, OV>) -> (same: bool) {
        same_historical_views(self, other, usize::MAX)
    }
}

impl<'a, 'h, 'oa, 'oh, V: Viewable, OV: Viewable> PartialEqSpecImpl<
    HistoricalView<'oa, 'oh, OV>,
> for HistoricalView<'a, 'h, V> {
    open spec fn obeys_eq_spec() -> bool {
        true
    }

    open spec fn eq_spec(&self, other: &HistoricalView<'oa, 'oh, OV>) -> bool {
        historical_views_same(*self, *other, usize::MAX as nat)
    }
}

impl<'a, 'h, 'oa, 'oh, V: Viewable, OV: Viewable> PartialEq<
    HistoricalMapView<'oa, 'oh, OV>,
> for HistoricalMapView<'a, 'h, V> {
    fn eq(&self, other: &HistoricalMapView<'oa, 'oh, OV>) -> (same: bool) {
        same_historical_maps(self, other, usize::MAX)
    }
}

impl<'a, 'h, 'oa, 'oh, V: Viewable, OV: Viewable> PartialEqSpecImpl<
    HistoricalMapView<'oa, 'oh, OV>,
> for HistoricalMapView<'a, 'h, V> {
    open spec fn obeys_eq_spec() -> bool {
        true
    }

    open spec fn eq_spec(&self, other: &HistoricalMapView<'oa, 'oh, OV>) -> bool {
        historical_maps_same(*self, *other, usize::MAX as nat)
    }
}

impl<'a, 'h, 'oa, 'oh, V: Viewable, OV: Viewable> PartialEq<
    HistoricalListView<'oa, 'oh, OV>,
> for HistoricalListView<'a, 'h, V> {
    fn eq(&self, other: &HistoricalListView<'oa, 'oh, OV>) -> (same: bool) {
        same_historical_lists(self, other, usize::MAX)
    }
}

impl<'a, 'h, 'oa, 'oh, V: Viewable, OV: Viewable> PartialEqSpecImpl<
    HistoricalListView<'oa, 'oh, OV>,
> for HistoricalListView<'a, 'h, V> {
    open spec fn obeys_eq_spec() -> bool {
        true
    }

    open spec fn eq_spec(&self, other: &HistoricalListView<'oa, 'oh, OV>) -> bool {
        historical_lists_same(*self, *other, usize::MAX as nat)
    }
}

impl<'a, 'h, 'oa, 'oh, V: Viewable, OV: Viewable> PartialEq<
    HistoricalTextView<'oa, 'oh, OV>,
> for HistoricalTextView<'a, 'h, V> {
    fn eq(&self, other: &HistoricalTextView<'oa, 'oh, OV>) -> (same: bool) {
        same_historical_texts(self, other)
    }
}

impl<'a, 'h, 'oa, 'oh, V: Viewable, OV: Viewable> PartialEqSpecImpl<
    HistoricalTextView<'oa, 'oh, OV>,
> for HistoricalTextView<'a, 'h, V> {
    open spec fn obeys_eq_spec() -> bool {
        true
    }

    open spec fn eq_spec(&self, other: &HistoricalTextView<'oa, 'oh, OV>) -> bool {
        historical_texts_same(*self, *other)
    }
}

} // verus!
