//! Views over whatever a document holds at one place.
use automerge::transaction::Transaction;
use automerge::{ChangeHash, ObjId, ObjType, Prop, ScalarValue};
use vstd::prelude::*;
use vstd::std_specs::convert::FromSpecImpl;
use vstd::view::View as _;
use crate::list_view::{HistoricalListView, ListView, MutableListView};
use crate::map_view::{HistoricalMapView, MapView, MutableMapView};
use crate::outside::{
    Fetched,
    Found,
    found_of,
    held_keys,
    held_keys_at,
    held_length,
    held_length_at,
    scalar_from_i64,
    scalar_from_u64,
    signed_scalar,
    step_of,
    unsigned_scalar,
};
use crate::places::{
    delete_outcome,
    held,
    held_at,
    insert_object_outcome,
    insert_outcome,
    put_object_outcome,
    put_outcome,
};
use crate::path::Step;
use crate::text_view::{HistoricalTextView, MutableTextView, TextView, grapheme_scalar_of};
use crate::viewable::Viewable;

verus! {

/// A view over a document, providing a lightweight way to traverse it.
#[derive(Debug)]
pub enum View<'a, V> {
    Mapping(MapView<'a, V>),
    List(ListView<'a, V>),
    Text(TextView<'a, V>),
    Scalar(ScalarValue),
}

/// The view of what was found in `doc`: of a map, a list or a text, or the
/// scalar itself. A table cannot be viewed.
pub open spec fn view_of<'a, V>(doc: &'a V, found: Option<Found>) -> Option<View<'a, V>> {
    match found {
        Some(Found::Object(ObjType::Map, obj)) => Some(View::Mapping(MapView { obj, doc })),
        Some(Found::Object(ObjType::List, obj)) => Some(View::List(ListView { obj, doc })),
        Some(Found::Object(ObjType::Text, obj)) => Some(View::Text(TextView { obj, doc })),
        Some(Found::Object(ObjType::Table, _)) => None,
        Some(Found::Text(scalar, _)) => Some(View::Scalar(scalar)),
        Some(Found::Scalar(scalar)) => Some(View::Scalar(scalar)),
        None => None,
    }
}

impl<'a, V: Viewable> View<'a, V> {
    /// The view one step below this one: under a key of a map, or at an index
    /// of a list or, where a string is there, of a text.
    pub open spec fn below(self, at: Step) -> Option<View<'a, V>> {
        match (self, at) {
            (View::Mapping(map), Step::Key(_)) => view_of(
                map.doc,
                held(map.doc.document(), map.obj, at),
            ),
            (View::List(list), Step::Index(_)) => view_of(
                list.doc,
                held(list.doc.document(), list.obj, at),
            ),
            (View::Text(text), Step::Index(_)) => match grapheme_scalar_of(
                held(text.doc.document(), text.obj, at),
            ) {
                Some(scalar) => Some(View::Scalar(scalar)),
                None => None,
            },
            _ => None,
        }
    }

    /// The number of keys of a map or of elements of a list or text; zero for
    /// a scalar.
    pub open spec fn length(self) -> nat {
        match self {
            View::Mapping(map) => held_keys(map.doc.document(), map.obj).len(),
            View::List(list) => held_length(list.doc.document(), list.obj) as nat,
            View::Text(text) => held_length(text.doc.document(), text.obj) as nat,
            View::Scalar(_) => 0,
        }
    }

    /// The view of what was found in `doc`.
    pub fn of(doc: &'a V, found: Option<Fetched>) -> (view: Option<View<'a, V>>)
        ensures
            view == view_of(doc, found_of(found)),
    {
        match found {
            Some(Fetched::Object(ObjType::Map, obj)) => Some(View::Mapping(MapView { obj, doc })),
            Some(Fetched::Object(ObjType::List, obj)) => Some(View::List(ListView { obj, doc })),
            Some(Fetched::Object(ObjType::Text, obj)) => Some(View::Text(TextView { obj, doc })),
            Some(Fetched::Object(ObjType::Table, _)) => None,
            Some(Fetched::Text(scalar, _)) => Some(View::Scalar(scalar)),
            Some(Fetched::Scalar(scalar)) => Some(View::Scalar(scalar)),
            None => None,
        }
    }

    /// Get the view of the object at `prop`.
    pub fn get(&self, prop: Prop) -> (view: Option<View<'a, V>>)
        ensures
            view == self.below(step_of(prop)),
    {
        match self {
            View::Mapping(map) => match prop {
                Prop::Map(key) => map.get(key.as_str()),
                Prop::Seq(_) => None,
            },
            View::List(list) => match prop {
                Prop::Seq(index) => list.get(index),
                Prop::Map(_) => None,
            },
            View::Text(text) => match prop {
                Prop::Seq(index) => match text.scalar_at(index) {
                    Some(scalar) => Some(View::Scalar(scalar)),
                    None => None,
                },
                Prop::Map(_) => None,
            },
            View::Scalar(_) => None,
        }
    }

    /// Get the length of this object.
    pub fn len(&self) -> (n: usize)
        ensures
            n == self.length(),
    {
        match self {
            View::Mapping(map) => map.len(),
            View::List(list) => list.len(),
            View::Text(text) => text.len(),
            View::Scalar(_) => 0,
        }
    }

    /// Check if this object is empty.
    pub fn is_empty(&self) -> (empty: bool)
        ensures
            empty == (self.length() == 0),
    {
        self.len() == 0
    }

    /// Try and extract a map from this view.
    pub fn map(&self) -> (map: Option<&MapView<'a, V>>)
        ensures
            match *self {
                View::Mapping(inner) => map == Some(&inner),
                _ => map is None,
            },
    {
        if let View::Mapping(map) = self {
            Some(map)
        } else {
            None
        }
    }

    /// Try and extract a map from this view.
    pub fn into_map(self) -> (map: Option<MapView<'a, V>>)
        ensures
            match self {
                View::Mapping(inner) => map == Some(inner),
                _ => map is None,
            },
    {
        if let View::Mapping(map) = self {
            Some(map)
        } else {
            None
        }
    }

    /// Try and extract a list from this view.
    pub fn list(&self) -> (list: Option<&ListView<'a, V>>)
        ensures
            match *self {
                View::List(inner) => list == Some(&inner),
                _ => list is None,
            },
    {
        if let View::List(list) = self {
            Some(list)
        } else {
            None
        }
    }

    /// Try and extract a list from this view.
    pub fn into_list(self) -> (list: Option<ListView<'a, V>>)
        ensures
            match self {
                View::List(inner) => list == Some(inner),
                _ => list is None,
            },
    {
        if let View::List(list) = self {
            Some(list)
        } else {
            None
        }
    }

    /// Try and extract text from this view.
    pub fn text(&self) -> (text: Option<&TextView<'a, V>>)
        ensures
            match *self {
                View::Text(inner) => text == Some(&inner),
                _ => text is None,
            },
    {
        if let View::Text(text) = self {
            Some(text)
        } else {
            None
        }
    }

    /// Try and extract text from this view.
    pub fn into_text(self) -> (text: Option<TextView<'a, V>>)
        ensures
            match self {
                View::Text(inner) => text == Some(inner),
                _ => text is None,
            },
    {
        if let View::Text(text) = self {
            Some(text)
        } else {
            None
        }
    }

    /// Try and extract a scalar value from this view.
    pub fn scalar(&self) -> (scalar: Option<ScalarValue>)
        ensures
            match *self {
                View::Scalar(inner) => scalar == Some(inner),
                _ => scalar is None,
            },
    {
        if let View::Scalar(scalar) = self {
            Some(scalar.clone())
        } else {
            None
        }
    }
}

impl<V> From<u64> for View<'static, V> {
    fn from(u: u64) -> (view: Self) {
        View::Scalar(scalar_from_u64(u))
    }
}

impl<V> FromSpecImpl<u64> for View<'static, V> {
    open spec fn obeys_from_spec() -> bool {
        true
    }

    open spec fn from_spec(u: u64) -> Self {
        View::Scalar(unsigned_scalar(u))
    }
}

impl<V> From<i32> for View<'static, V> {
    fn from(i: i32) -> (view: Self) {
        View::Scalar(scalar_from_i64(i as i64))
    }
}

impl<V> FromSpecImpl<i32> for View<'static, V> {
    open spec fn obeys_from_spec() -> bool {
        true
    }

    open spec fn from_spec(i: i32) -> Self {
        View::Scalar(signed_scalar(i as i64))
    }
}

/// A view over a document as it was at some point of its history.
#[derive(Debug)]
pub enum HistoricalView<'a, 'h, V> {
    Mapping(HistoricalMapView<'a, 'h, V>),
    List(HistoricalListView<'a, 'h, V>),
    Text(HistoricalTextView<'a, 'h, V>),
    Scalar(ScalarValue),
}

/// The view of what was found in `doc` at `heads`: of a map, a list or a
/// text, or the scalar itself. A table cannot be viewed.
pub open spec fn historical_view_of<'a, 'h, V>(
    doc: &'a V,
    heads: &'h [ChangeHash],
    found: Option<Found>,
) -> Option<HistoricalView<'a, 'h, V>> {
    match found {
        Some(Found::Object(ObjType::Map, obj)) => Some(
            HistoricalView::Mapping(HistoricalMapView { obj, doc, heads }),
        ),
        Some(Found::Object(ObjType::List, obj)) => Some(
            HistoricalView::List(HistoricalListView { obj, doc, heads }),
        ),
        Some(Found::Object(ObjType::Text, obj)) => Some(
            HistoricalView::Text(HistoricalTextView { obj, doc, heads }),
        ),
        Some(Found::Object(ObjType::Table, _)) => None,
        Some(Found::Text(scalar, _)) => Some(HistoricalView::Scalar(scalar)),
        Some(Found::Scalar(scalar)) => Some(HistoricalView::Scalar(scalar)),
        None => None,
    }
}

impl<'a, 'h, V: Viewable> HistoricalView<'a, 'h, V> {
    /// The view one step below this one: under a key of a map, or at an index
    /// of a list or, where a string was there, of a text.
    pub open spec fn below(self, at: Step) -> Option<HistoricalView<'a, 'h, V>> {
        match (self, at) {
            (HistoricalView::Mapping(map), Step::Key(_)) => historical_view_of(
                map.doc,
                map.heads,
                held_at(map.doc.document(), map.obj, at, map.heads@),
            ),
            (HistoricalView::List(list), Step::Index(_)) => historical_view_of(
                list.doc,
                list.heads,
                held_at(list.doc.document(), list.obj, at, list.heads@),
            ),
            (HistoricalView::Text(text), Step::Index(_)) => match grapheme_scalar_of(
                held_at(text.doc.document(), text.obj, at, text.heads@),
            ) {
                Some(scalar) => Some(HistoricalView::Scalar(scalar)),
                None => None,
            },
            _ => None,
        }
    }

    /// The number of keys of a map or of elements of a list or text; zero for
    /// a scalar.
    pub open spec fn length(self) -> nat {
        match self {
            HistoricalView::Mapping(map) => held_keys_at(
                map.doc.document(),
                map.obj,
                map.heads@,
            ).len(),
            HistoricalView::List(list) => held_length_at(
                list.doc.document(),
                list.obj,
                list.heads@,
            ) as nat,
            HistoricalView::Text(text) => held_length_at(
                text.doc.document(),
                text.obj,
                text.heads@,
            ) as nat,
            HistoricalView::Scalar(_) => 0,
        }
    }

    /// The view of what was found in `doc` at `heads`.
    pub fn of(doc: &'a V, heads: &'h [ChangeHash], found: Option<Fetched>) -> (view: Option<
        HistoricalView<'a, 'h, V>,
    >)
        ensures
            view == historical_view_of(doc, heads, found_of(found)),
    {
        match found {
            Some(Fetched::Object(ObjType::Map, obj)) => Some(
                HistoricalView::Mapping(HistoricalMapView { obj, doc, heads }),
            ),
            Some(Fetched::Object(ObjType::List, obj)) => Some(
                HistoricalView::List(HistoricalListView { obj, doc, heads }),
            ),
            Some(Fetched::Object(ObjType::Text, obj)) => Some(
                HistoricalView::Text(HistoricalTextView { obj, doc, heads }),
            ),
            Some(Fetched::Object(ObjType::Table, _)) => None,
            Some(Fetched::Text(scalar, _)) => Some(HistoricalView::Scalar(scalar)),
            Some(Fetched::Scalar(scalar)) => Some(HistoricalView::Scalar(scalar)),
            None => None,
        }
    }

    /// Get the view of the object at `prop`.
    pub fn get(&self, prop: Prop) -> (view: Option<HistoricalView<'a, 'h, V>>)
        ensures
            view == self.below(step_of(prop)),
    {
        match self {
            HistoricalView::Mapping(map) => match prop {
                Prop::Map(key) => map.get(key.as_str()),
                Prop::Seq(_) => None,
            },
            HistoricalView::List(list) => match prop {
                Prop::Seq(index) => list.get(index),
                Prop::Map(_) => None,
            },
            HistoricalView::Text(text) => match prop {
                Prop::Seq(index) => match text.scalar_at(index) {
                    Some(scalar) => Some(HistoricalView::Scalar(scalar)),
                    None => None,
                },
                Prop::Map(_) => None,
            },
            HistoricalView::Scalar(_) => None,
        }
    }

    /// Get the length of this object.
    pub fn len(&self) -> (n: usize)
        ensures
            n == self.length(),
    {
        match self {
            HistoricalView::Mapping(map) => map.len(),
            HistoricalView::List(list) => list.len(),
            HistoricalView::Text(text) => text.len(),
            HistoricalView::Scalar(_) => 0,
        }
    }

    /// Check if this object is empty.
    pub fn is_empty(&self) -> (empty: bool)
        ensures
            empty == (self.length() == 0),
    {
        self.len() == 0
    }

    /// Try and extract a map from this view.
    pub fn map(&self) -> (map: Option<&HistoricalMapView<'a, 'h, V>>)
        ensures
            match *self {
                HistoricalView::Mapping(inner) => map == Some(&inner),
                _ => map is None,
            },
    {
        if let HistoricalView::Mapping(map) = self {
            Some(map)
        } else {
            None
        }
    }

    /// Try and extract a map from this view.
    pub fn into_map(self) -> (map: Option<HistoricalMapView<'a, 'h, V>>)
        ensures
            match self {
                HistoricalView::Mapping(inner) => map == Some(inner),
                _ => map is None,
            },
    {
        if let HistoricalView::Mapping(map) = self {
            Some(map)
        } else {
            None
        }
    }

    /// Try and extract a list from this view.
    pub fn list(&self) -> (list: Option<&HistoricalListView<'a, 'h, V>>)
        ensures
            match *self {
                HistoricalView::List(inner) => list == Some(&inner),
                _ => list is None,
            },
    {
        if let HistoricalView::List(list) = self {
            Some(list)
        } else {
            None
        }
    }

    /// Try and extract a list from this view.
    pub fn into_list(self) -> (list: Option<HistoricalListView<'a, 'h, V>>)
        ensures
            match self {
                HistoricalView::List(inner) => list == Some(inner),
                _ => list is None,
            },
    {
        if let HistoricalView::List(list) = self {
            Some(list)
        } else {
            None
        }
    }

    /// Try and extract text from this view.
    pub fn text(&self) -> (text: Option<&HistoricalTextView<'a, 'h, V>>)
        ensures
            match *self {
                HistoricalView::Text(inner) => text == Some(&inner),
                _ => text is None,
            },
    {
        if let HistoricalView::Text(text) = self {
            Some(text)
        } else {
            None
        }
    }

    /// Try and extract text from this view.
    pub fn into_text(self) -> (text: Option<HistoricalTextView<'a, 'h, V>>)
        ensures
            match self {
                HistoricalView::Text(inner) => text == Some(inner),
                _ => text is None,
            },
    {
        if let HistoricalView::Text(text) = self {
            Some(text)
        } else {
            None
        }
    }

    /// Try and extract a scalar value from this view.
    pub fn scalar(&self) -> (scalar: Option<ScalarValue>)
        ensures
            match *self {
                HistoricalView::Scalar(inner) => scalar == Some(inner),
                _ => scalar is None,
            },
    {
        if let HistoricalView::Scalar(scalar) = self {
            Some(scalar.clone())
        } else {
            None
        }
    }
}

/// A mutable view over the document, allowing editing.
#[derive(Debug)]
pub enum MutableView<'a, 't> {
    Mapping(MutableMapView<'a, 't>),
    List(MutableListView<'a, 't>),
    Text(MutableTextView<'a, 't>),
    Scalar(ScalarValue),
}

/// The mutable view is the view of what was found: of the map, list or text
/// with the identifier that was found, or the scalar that was found.
pub open spec fn views_what_was_found(view: Option<MutableView>, found: Option<Found>) -> bool {
    match found {
        Some(Found::Object(ObjType::Map, obj)) => view is Some && view->0 is Mapping
            && view->0->Mapping_0.obj == obj,
        Some(Found::Object(ObjType::List, obj)) => view is Some && view->0 is List
            && view->0->List_0.obj == obj,
        Some(Found::Object(ObjType::Text, obj)) => view is Some && view->0 is Text
            && view->0->Text_0.obj == obj,
        Some(Found::Object(ObjType::Table, _)) => view is None,
        Some(Found::Text(scalar, _)) => view == Some(MutableView::Scalar(scalar)),
        Some(Found::Scalar(scalar)) => view == Some(MutableView::Scalar(scalar)),
        None => view is None,
    }
}

/// What is found where an object of the type `kind` was made: the object with
/// the identifier `made`, if the transaction made one.
pub open spec fn made_object(made: Option<ObjId>, kind: ObjType) -> Option<Found> {
    match made {
        Some(obj) => Some(Found::Object(kind, obj)),
        None => None,
    }
}

/// The mutable view, if there is one, is that of a new object of the type
/// `kind`. A table cannot be viewed.
pub open spec fn made_view(view: Option<MutableView>, kind: ObjType) -> bool {
    view is Some ==> match kind {
        ObjType::Map => view->0 is Mapping,
        ObjType::List => view->0 is List,
        ObjType::Text => view->0 is Text,
        ObjType::Table => false,
    }
}

/// The view `after` leads where the view `before` led, and edits the
/// transaction `tx`.
pub open spec fn edited(before: MutableView, after: MutableView, tx: Transaction) -> bool {
    match before {
        MutableView::Mapping(map) => after is Mapping && after->Mapping_0.obj == map.obj
            && after->Mapping_0.transaction() == tx,
        MutableView::List(list) => after is List && after->List_0.obj == list.obj
            && after->List_0.transaction() == tx,
        MutableView::Text(text) => after is Text && after->Text_0.obj == text.obj
            && after->Text_0.transaction() == tx,
        MutableView::Scalar(_) => after == before,
    }
}

/// Inserting `scalar` at `at` through the view `before` gives the view
/// `after` and the answer `taken`: a map has the scalar put under the key,
/// a list or text has it inserted at the index.
pub open spec fn insert_gives(
    before: MutableView,
    at: Step,
    scalar: ScalarValue,
    after: MutableView,
    taken: bool,
) -> bool {
    match (before, at) {
        (MutableView::Mapping(map), Step::Key(_)) => edited(
            before,
            after,
            put_outcome(map.transaction(), map.obj, at, scalar).0,
        ) && taken == put_outcome(map.transaction(), map.obj, at, scalar).1,
        (MutableView::List(list), Step::Index(index)) => edited(
            before,
            after,
            insert_outcome(list.transaction(), list.obj, index, scalar).0,
        ) && taken == insert_outcome(list.transaction(), list.obj, index, scalar).1,
        (MutableView::Text(text), Step::Index(index)) => edited(
            before,
            after,
            insert_outcome(text.transaction(), text.obj, index, scalar).0,
        ) && taken == insert_outcome(text.transaction(), text.obj, index, scalar).1,
        _ => false,
    }
}

/// Setting `scalar` at `at` through the view `before` gives the view `after`
/// and the answer `taken`: the scalar is put at the place.
pub open spec fn set_gives(
    before: MutableView,
    at: Step,
    scalar: ScalarValue,
    after: MutableView,
    taken: bool,
) -> bool {
    match (before, at) {
        (MutableView::Mapping(map), Step::Key(_)) => edited(
            before,
            after,
            put_outcome(map.transaction(), map.obj, at, scalar).0,
        ) && taken == put_outcome(map.transaction(), map.obj, at, scalar).1,
        (MutableView::List(list), Step::Index(_)) => edited(
            before,
            after,
            put_outcome(list.transaction(), list.obj, at, scalar).0,
        ) && taken == put_outcome(list.transaction(), list.obj, at, scalar).1,
        (MutableView::Text(text), Step::Index(_)) => edited(
            before,
            after,
            put_outcome(text.transaction(), text.obj, at, scalar).0,
        ) && taken == put_outcome(text.transaction(), text.obj, at, scalar).1,
        _ => false,
    }
}

/// Removing what is at `at` through the view `before` gives the view `after`
/// and the answer `removed`: what is at the place is deleted.
pub open spec fn remove_gives(before: MutableView, at: Step, after: MutableView, removed: bool) -> bool {
    match (before, at) {
        (MutableView::Mapping(map), Step::Key(_)) => edited(
            before,
            after,
            delete_outcome(map.transaction(), map.obj, at).0,
        ) && removed == delete_outcome(map.transaction(), map.obj, at).1,
        (MutableView::List(list), Step::Index(_)) => edited(
            before,
            after,
            delete_outcome(list.transaction(), list.obj, at).0,
        ) && removed == delete_outcome(list.transaction(), list.obj, at).1,
        (MutableView::Text(text), Step::Index(_)) => edited(
            before,
            after,
            delete_outcome(text.transaction(), text.obj, at).0,
        ) && removed == delete_outcome(text.transaction(), text.obj, at).1,
        _ => false,
    }
}

impl<'a, 't> MutableView<'a, 't> {
    /// The mutable view of what was found in `tx`.
    pub fn of(tx: &'t mut Transaction<'a>, found: Option<Fetched>) -> (view: Option<
        MutableView<'a, 't>,
    >)
        ensures
            views_what_was_found(view, found_of(found)),
            match view {
                Some(MutableView::Mapping(map)) => map.transaction() == *old(tx) && *final(tx)
                    == *final(map.tx),
                Some(MutableView::List(list)) => list.transaction() == *old(tx) && *final(tx)
                    == *final(list.tx),
                Some(MutableView::Text(text)) => text.transaction() == *old(tx) && *final(tx)
                    == *final(text.tx),
                Some(MutableView::Scalar(_)) | None => *final(tx) == *old(tx),
            },
    {
        match found {
            Some(Fetched::Object(ObjType::Map, obj)) => Some(
                MutableView::Mapping(MutableMapView { obj, tx }),
            ),
            Some(Fetched::Object(ObjType::List, obj)) => Some(
                MutableView::List(MutableListView { obj, tx }),
            ),
            Some(Fetched::Object(ObjType::Text, obj)) => Some(
                MutableView::Text(MutableTextView { obj, tx }),
            ),
            Some(Fetched::Object(ObjType::Table, _)) => None,
            Some(Fetched::Text(scalar, _)) => Some(MutableView::Scalar(scalar)),
            Some(Fetched::Scalar(scalar)) => Some(MutableView::Scalar(scalar)),
            None => None,
        }
    }

    /// The view of the same place that only reads.
    pub open spec fn reading(self) -> View<'t, Transaction<'a>> {
        match self {
            MutableView::Mapping(map) => View::Mapping(
                MapView { obj: map.obj, doc: &map.transaction() },
            ),
            MutableView::List(list) => View::List(
                ListView { obj: list.obj, doc: &list.transaction() },
            ),
            MutableView::Text(text) => View::Text(
                TextView { obj: text.obj, doc: &text.transaction() },
            ),
            MutableView::Scalar(scalar) => View::Scalar(scalar),
        }
    }

    /// What the document holds one step below this view, as far as a mutable
    /// view can lead there: under a key of a map, or at an index of a list
    /// or, where a string is there, of a text.
    pub open spec fn found_below(self, at: Step) -> Option<Found> {
        match (self, at) {
            (MutableView::Mapping(map), Step::Key(_)) => held(map.document(), map.obj, at),
            (MutableView::List(list), Step::Index(_)) => held(list.document(), list.obj, at),
            (MutableView::Text(text), Step::Index(_)) => match held(
                text.document(),
                text.obj,
                at,
            ) {
                Some(Found::Text(scalar, string)) => Some(Found::Text(scalar, string)),
                _ => None,
            },
            _ => None,
        }
    }

    /// Whether a view of this kind leads to places like `at`: a map to keys,
    /// a list or text to indices.
    pub open spec fn has_place(self, at: Step) -> bool {
        match (self, at) {
            (MutableView::Mapping(_), Step::Key(_)) => true,
            (MutableView::List(_), Step::Index(_)) => true,
            (MutableView::Text(_), Step::Index(_)) => true,
            _ => false,
        }
    }

    /// The transaction after a new object of the type `kind` was inserted at
    /// `at` through this view, and the new object's identifier where the
    /// transaction took it: a map has the object put under the key, a list
    /// has it inserted at the index. `None` where the view is of no map or
    /// list, or `at` is no place of it.
    pub open spec fn object_inserted(self, at: Step, kind: ObjType) -> Option<
        (Transaction<'a>, Option<ObjId>),
    > {
        match (self, at) {
            (MutableView::Mapping(map), Step::Key(_)) => Some(
                put_object_outcome(map.transaction(), map.obj, at, kind),
            ),
            (MutableView::List(list), Step::Index(index)) => Some(
                insert_object_outcome(list.transaction(), list.obj, index, kind),
            ),
            _ => None,
        }
    }

    /// The transaction after a new object of the type `kind` was put at `at`
    /// through this view, and the new object's identifier where the
    /// transaction took it. `None` where the view is of no map or list, or
    /// `at` is no place of it.
    pub open spec fn object_set(self, at: Step, kind: ObjType) -> Option<
        (Transaction<'a>, Option<ObjId>),
    > {
        match (self, at) {
            (MutableView::Mapping(map), Step::Key(_)) => Some(
                put_object_outcome(map.transaction(), map.obj, at, kind),
            ),
            (MutableView::List(list), Step::Index(_)) => Some(
                put_object_outcome(list.transaction(), list.obj, at, kind),
            ),
            _ => None,
        }
    }

    /// The view of the same place that only reads.
    pub fn into_immutable(self) -> (view: View<'t, Transaction<'a>>)
        ensures
            view == self.reading(),
    {
        match self {
            MutableView::Mapping(map) => View::Mapping(map.into_immutable()),
            MutableView::List(list) => View::List(list.into_immutable()),
            MutableView::Text(text) => View::Text(text.into_immutable()),
            MutableView::Scalar(scalar) => View::Scalar(scalar),
        }
    }

    /// A view of the same place that only reads.
    pub fn to_immutable<'s>(&'s self) -> (view: View<'s, Transaction<'a>>)
        ensures
            view == self.reading(),
    {
        match self {
            MutableView::Mapping(map) => View::Mapping(map.to_immutable()),
            MutableView::List(list) => View::List(list.to_immutable()),
            MutableView::Text(text) => View::Text(text.to_immutable()),
            MutableView::Scalar(scalar) => View::Scalar(scalar.clone()),
        }
    }

    /// Get the view of the object at `prop`.
    pub fn get<'s>(&'s self, prop: Prop) -> (view: Option<View<'s, Transaction<'a>>>)
        ensures
            view == self.reading().below(step_of(prop)),
    {
        match self {
            MutableView::Mapping(map) => match prop {
                Prop::Map(key) => map.get(key.as_str()),
                Prop::Seq(_) => None,
            },
            MutableView::List(list) => match prop {
                Prop::Seq(index) => list.get(index),
                Prop::Map(_) => None,
            },
            MutableView::Text(text) => match prop {
                Prop::Seq(index) => match text.scalar_at(index) {
                    Some(scalar) => Some(View::Scalar(scalar)),
                    None => None,
                },
                Prop::Map(_) => None,
            },
            MutableView::Scalar(_) => None,
        }
    }

    /// Get the mutable view of the object at `prop`.
    pub fn get_mut<'s>(&'s mut self, prop: Prop) -> (view: Option<MutableView<'a, 's>>)
        ensures
            views_what_was_found(view, old(self).found_below(step_of(prop))),
    {
        match self {
            MutableView::Mapping(map) => match prop {
                Prop::Map(key) => map.get_mut(key.as_str()),
                Prop::Seq(_) => None,
            },
            MutableView::List(list) => match prop {
                Prop::Seq(index) => list.get_mut(index),
                Prop::Map(_) => None,
            },
            MutableView::Text(text) => match prop {
                Prop::Seq(index) => match text.scalar_at(index) {
                    Some(scalar) => Some(MutableView::Scalar(scalar)),
                    None => None,
                },
                Prop::Map(_) => None,
            },
            MutableView::Scalar(_) => None,
        }
    }

    /// Insert the given value at the `prop`. Tells whether the view is of
    /// a kind that has such a place and the transaction took the value.
    pub fn insert<P: Into<ScalarValue>>(&mut self, prop: Prop, value: P) -> (taken: bool)
        ensures
            taken ==> !(*old(self) is Scalar),
            !old(self).has_place(step_of(prop)) ==> !taken && *final(self) == *old(self),
            old(self).has_place(step_of(prop)) ==> exists|scalar: ScalarValue|
                #[trigger] call_ensures(<P as Into<ScalarValue>>::into, (value,), scalar)
                    && insert_gives(*old(self), step_of(prop), scalar, *final(self), taken),
    {
        match self {
            MutableView::Mapping(map) => match prop {
                Prop::Map(key) => map.insert(key.as_str(), value),
                Prop::Seq(_) => false,
            },
            MutableView::List(list) => match prop {
                Prop::Seq(index) => list.insert(index, value),
                Prop::Map(_) => false,
            },
            MutableView::Text(text) => match prop {
                Prop::Seq(index) => text.insert(index, value),
                Prop::Map(_) => false,
            },
            MutableView::Scalar(_) => false,
        }
    }

    /// Insert a new object at the `prop` of a map or a list. Gives a mutable
    /// view of the new object where the transaction made it and it can be
    /// viewed.
    pub fn insert_object<'s>(&'s mut self, prop: Prop, value: ObjType) -> (view: Option<
        MutableView<'a, 's>,
    >)
        ensures
            made_view(view, value),
            view is Some ==> *old(self) is Mapping || *old(self) is List,
            match old(self).object_inserted(step_of(prop), value) {
                Some((tx, made)) => views_what_was_found(view, made_object(made, value))
                    && match view {
                    Some(MutableView::Mapping(map)) => map.transaction() == tx && edited(
                        *old(self),
                        *final(self),
                        *final(map.tx),
                    ),
                    Some(MutableView::List(list)) => list.transaction() == tx && edited(
                        *old(self),
                        *final(self),
                        *final(list.tx),
                    ),
                    Some(MutableView::Text(text)) => text.transaction() == tx && edited(
                        *old(self),
                        *final(self),
                        *final(text.tx),
                    ),
                    Some(MutableView::Scalar(_)) | None => edited(*old(self), *final(self), tx),
                },
                None => view is None && *final(self) == *old(self),
            },
    {
        match self {
            MutableView::Mapping(map) => match prop {
                Prop::Map(key) => map.insert_object(key.as_str(), value),
                Prop::Seq(_) => None,
            },
            MutableView::List(list) => match prop {
                Prop::Seq(index) => list.insert_object(index, value),
                Prop::Map(_) => None,
            },
            MutableView::Text(_) => None,
            MutableView::Scalar(_) => None,
        }
    }

    /// Overwrite the `prop`'s current value with `value`. Tells whether the
    /// view is of a kind that has such a place and the transaction took the
    /// value.
    pub fn set<P: Into<ScalarValue>>(&mut self, prop: Prop, value: P) -> (taken: bool)
        ensures
            taken ==> !(*old(self) is Scalar),
            !old(self).has_place(step_of(prop)) ==> !taken && *final(self) == *old(self),
            old(self).has_place(step_of(prop)) ==> exists|scalar: ScalarValue|
                #[trigger] call_ensures(<P as Into<ScalarValue>>::into, (value,), scalar)
                    && set_gives(*old(self), step_of(prop), scalar, *final(self), taken),
    {
        match self {
            MutableView::Mapping(map) => match prop {
                Prop::Map(key) => map.insert(key.as_str(), value),
                Prop::Seq(_) => false,
            },
            MutableView::List(list) => match prop {
                Prop::Seq(index) => list.set(index, value),
                Prop::Map(_) => false,
            },
            MutableView::Text(text) => match prop {
                Prop::Seq(index) => text.set(index, value),
                Prop::Map(_) => false,
            },
            MutableView::Scalar(_) => false,
        }
    }

    /// Overwrite the `prop`'s current value with a new object. Gives
    /// a mutable view of the new object where the transaction made it and it
    /// can be viewed.
    pub fn set_object<'s>(&'s mut self, prop: Prop, value: ObjType) -> (view: Option<
        MutableView<'a, 's>,
    >)
        ensures
            made_view(view, value),
            view is Some ==> *old(self) is Mapping || *old(self) is List,
            match old(self).object_set(step_of(prop), value) {
                Some((tx, made)) => views_what_was_found(view, made_object(made, value))
                    && match view {
                    Some(MutableView::Mapping(map)) => map.transaction() == tx && edited(
                        *old(self),
                        *final(self),
                        *final(map.tx),
                    ),
                    Some(MutableView::List(list)) => list.transaction() == tx && edited(
                        *old(self),
                        *final(self),
                        *final(list.tx),
                    ),
                    Some(MutableView::Text(text)) => text.transaction() == tx && edited(
                        *old(self),
                        *final(self),
                        *final(text.tx),
                    ),
                    Some(MutableView::Scalar(_)) | None => edited(*old(self), *final(self), tx),
                },
                None => view is None && *final(self) == *old(self),
            },
    {
        match self {
            MutableView::Mapping(map) => match prop {
                Prop::Map(key) => map.insert_object(key.as_str(), value),
                Prop::Seq(_) => None,
            },
            MutableView::List(list) => match prop {
                Prop::Seq(index) => list.set_object(index, value),
                Prop::Map(_) => None,
            },
            MutableView::Text(_) => None,
            MutableView::Scalar(_) => None,
        }
    }

    /// Remove the value at `prop` if it exists. Tells whether something was
    /// there that the view leads to and the transaction took its removal.
    pub fn remove(&mut self, prop: Prop) -> (removed: bool)
        ensures
            if old(self).reading().below(step_of(prop)) is Some {
                remove_gives(*old(self), step_of(prop), *final(self), removed)
            } else {
                !removed && *final(self) == *old(self)
            },
    {
        match self {
            MutableView::Mapping(map) => match prop {
                Prop::Map(key) => map.remove(key.as_str()),
                Prop::Seq(_) => false,
            },
            MutableView::List(list) => match prop {
                Prop::Seq(index) => list.remove(index),
                Prop::Map(_) => false,
            },
            MutableView::Text(text) => match prop {
                Prop::Seq(index) => text.remove(index),
                Prop::Map(_) => false,
            },
            MutableView::Scalar(_) => false,
        }
    }

    /// Get the length of this object.
    pub fn len(&self) -> (n: usize)
        ensures
            n == match *self {
                MutableView::Mapping(map) => held_length(map.document(), map.obj),
                MutableView::List(list) => held_length(list.document(), list.obj),
                MutableView::Text(text) => held_length(text.document(), text.obj),
                MutableView::Scalar(_) => 0usize,
            },
    {
        match self {
            MutableView::Mapping(map) => map.len(),
            MutableView::List(list) => list.len(),
            MutableView::Text(text) => text.len(),
            MutableView::Scalar(_) => 0,
        }
    }

    /// Check if this object is empty.
    pub fn is_empty(&self) -> (empty: bool)
        ensures
            empty == match *self {
                MutableView::Mapping(map) => held_length(map.document(), map.obj) == 0,
                MutableView::List(list) => held_length(list.document(), list.obj) == 0,
                MutableView::Text(text) => held_length(text.document(), text.obj) == 0,
                MutableView::Scalar(_) => true,
            },
    {
        self.len() == 0
    }

    /// Try and extract a map from this view.
    pub fn map<'s>(&'s self) -> (map: Option<MapView<'s, Transaction<'a>>>)
        ensures
            match self.reading() {
                View::Mapping(inner) => map == Some(inner),
                _ => map is None,
            },
    {
        if let MutableView::Mapping(map) = self {
            Some(map.to_immutable())
        } else {
            None
        }
    }

    /// Try and extract a mutable map from this view.
    pub fn map_mut(&mut self) -> (map: Option<&mut MutableMapView<'a, 't>>)
        ensures
            match *old(self) {
                MutableView::Mapping(inner) => map is Some && *map->0 == inner && *final(self)
                    == MutableView::Mapping(*final(map->0)),
                _ => map is None && *final(self) == *old(self),
            },
    {
        match self {
            MutableView::Mapping(map) => Some(map),
            _ => None,
        }
    }

    /// Try and extract a map from this view.
    pub fn into_map(self) -> (map: Result<MapView<'t, Transaction<'a>>, Self>)
        ensures
            match self.reading() {
                View::Mapping(inner) => map == Ok::<MapView<'t, Transaction<'a>>, Self>(inner),
                _ => map == Err::<MapView<'t, Transaction<'a>>, Self>(self),
            },
    {
        match self {
            MutableView::Mapping(map) => Ok(map.into_immutable()),
            other => Err(other),
        }
    }

    /// Try and extract a mutable map from this view.
    pub fn into_map_mut(self) -> (map: Result<MutableMapView<'a, 't>, Self>)
        ensures
            match self {
                MutableView::Mapping(inner) => map == Ok::<MutableMapView<'a, 't>, Self>(inner),
                _ => map == Err::<MutableMapView<'a, 't>, Self>(self),
            },
    {
        match self {
            MutableView::Mapping(map) => Ok(map),
            other => Err(other),
        }
    }

    /// Try and extract a list from this view.
    pub fn list<'s>(&'s self) -> (list: Option<ListView<'s, Transaction<'a>>>)
        ensures
            match self.reading() {
                View::List(inner) => list == Some(inner),
                _ => list is None,
            },
    {
        if let MutableView::List(list) = self {
            Some(list.to_immutable())
        } else {
            None
        }
    }

    /// Try and extract a mutable list from this view.
    pub fn list_mut(&mut self) -> (list: Option<&mut MutableListView<'a, 't>>)
        ensures
            match *old(self) {
                MutableView::List(inner) => list is Some && *list->0 == inner && *final(self)
                    == MutableView::List(*final(list->0)),
                _ => list is None && *final(self) == *old(self),
            },
    {
        match self {
            MutableView::List(list) => Some(list),
            _ => None,
        }
    }

    /// Try and extract a list from this view.
    pub fn into_list(self) -> (list: Result<ListView<'t, Transaction<'a>>, Self>)
        ensures
            match self.reading() {
                View::List(inner) => list == Ok::<ListView<'t, Transaction<'a>>, Self>(inner),
                _ => list == Err::<ListView<'t, Transaction<'a>>, Self>(self),
            },
    {
        match self {
            MutableView::List(list) => Ok(list.into_immutable()),
            other => Err(other),
        }
    }

    /// Try and extract a mutable list from this view.
    pub fn into_list_mut(self) -> (list: Result<MutableListView<'a, 't>, Self>)
        ensures
            match self {
                MutableView::List(inner) => list == Ok::<MutableListView<'a, 't>, Self>(inner),
                _ => list == Err::<MutableListView<'a, 't>, Self>(self),
            },
    {
        match self {
            MutableView::List(list) => Ok(list),
            other => Err(other),
        }
    }

    /// Try and extract text from this view.
    pub fn text<'s>(&'s self) -> (text: Option<TextView<'s, Transaction<'a>>>)
        ensures
            match self.reading() {
                View::Text(inner) => text == Some(inner),
                _ => text is None,
            },
    {
        if let MutableView::Text(text) = self {
            Some(text.to_immutable())
        } else {
            None
        }
    }

    /// Try and extract mutable text from this view.
    pub fn text_mut(&mut self) -> (text: Option<&mut MutableTextView<'a, 't>>)
        ensures
            match *old(self) {
                MutableView::Text(inner) => text is Some && *text->0 == inner && *final(self)
                    == MutableView::Text(*final(text->0)),
                _ => text is None && *final(self) == *old(self),
            },
    {
        match self {
            MutableView::Text(text) => Some(text),
            _ => None,
        }
    }

    /// Try and extract text from this view.
    pub fn into_text(self) -> (text: Result<TextView<'t, Transaction<'a>>, Self>)
        ensures
            match self.reading() {
                View::Text(inner) => text == Ok::<TextView<'t, Transaction<'a>>, Self>(inner),
                _ => text == Err::<TextView<'t, Transaction<'a>>, Self>(self),
            },
    {
        match self {
            MutableView::Text(text) => Ok(text.into_immutable()),
            other => Err(other),
        }
    }

    /// Try and extract mutable text from this view.
    pub fn into_text_mut(self) -> (text: Result<MutableTextView<'a, 't>, Self>)
        ensures
            match self {
                MutableView::Text(inner) => text == Ok::<MutableTextView<'a, 't>, Self>(inner),
                _ => text == Err::<MutableTextView<'a, 't>, Self>(self),
            },
    {
        match self {
            MutableView::Text(text) => Ok(text),
            other => Err(other),
        }
    }

    /// Try and extract a scalar value from this view.
    pub fn scalar(&self) -> (scalar: Option<&ScalarValue>)
        ensures
            match *self {
                MutableView::Scalar(inner) => scalar == Some(&inner),
                _ => scalar is None,
            },
    {
        if let MutableView::Scalar(scalar) = self {
            Some(scalar)
        } else {
            None
        }
    }

    /// Try and extract a scalar value from this view.
    pub fn into_scalar(self) -> (scalar: Result<ScalarValue, Self>)
        ensures
            match self {
                MutableView::Scalar(inner) => scalar == Ok::<ScalarValue, Self>(inner),
                _ => scalar == Err::<ScalarValue, Self>(self),
            },
    {
        match self {
            MutableView::Scalar(scalar) => Ok(scalar),
            other => Err(other),
        }
    }
}

} // verus!
