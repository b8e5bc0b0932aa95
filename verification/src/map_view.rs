//! Views over the maps of a document.
use automerge::transaction::Transaction;
use automerge::{ChangeHash, ObjId, ObjType, Prop, ScalarValue};
use vstd::prelude::*;
use vstd::view::View as _;
use crate::outside::{
    Fetched,
    held_keys,
    held_keys_at,
    held_length,
    tx_keys,
    tx_length,
    working_copy,
};
use crate::places::{
    delete_outcome,
    held,
    held_at,
    put_object_outcome,
    put_outcome,
    tx_delete,
    tx_get,
    tx_put,
    tx_put_object,
};
use crate::path::Step;
use crate::value::string_views;
use crate::view::{
    HistoricalView,
    MutableView,
    View,
    historical_view_of,
    made_object,
    made_view,
    view_of,
    views_what_was_found,
};
use crate::viewable::Viewable;

verus! {

/// A view over a map in this document.
#[derive(Debug)]
pub struct MapView<'a, V> {
    pub obj: ObjId,
    pub doc: &'a V,
}

/// The keys among the first `n` of `keys` under which the map `obj` holds
/// something that can be viewed, each with the view of what it holds.
pub open spec fn keyed_views<'a, V: Viewable>(
    doc: &'a V,
    obj: ObjId,
    keys: Seq<Seq<char>>,
    n: nat,
) -> Seq<(Seq<char>, View<'a, V>)>
    decreases n,
{
    if n == 0 || n > keys.len() {
        Seq::empty()
    } else {
        let before = keyed_views(doc, obj, keys, (n - 1) as nat);
        match view_of(doc, held(doc.document(), obj, Step::Key(keys[n - 1]))) {
            Some(view) => before.push((keys[n - 1], view)),
            None => before,
        }
    }
}

/// The keys and views that a list of entries stands for.
pub open spec fn entry_views<'a, V>(entries: Seq<(String, View<'a, V>)>) -> Seq<
    (Seq<char>, View<'a, V>),
> {
    Seq::new(entries.len(), |i: int| (entries[i].0@, entries[i].1))
}

/// The views of a list of keys and views.
pub open spec fn second_of<'a, V>(entries: Seq<(Seq<char>, View<'a, V>)>) -> Seq<View<'a, V>> {
    Seq::new(entries.len(), |i: int| entries[i].1)
}

impl<'a, V: Viewable> MapView<'a, V> {
    /// The number of keys.
    pub fn len(&self) -> (n: usize)
        ensures
            n == held_keys(self.doc.document(), self.obj).len(),
    {
        let keys = self.doc.keys(&self.obj);
        assert(string_views(keys@).len() == keys@.len());
        keys.len()
    }

    /// Whether the map has no key.
    pub fn is_empty(&self) -> (empty: bool)
        ensures
            empty == (held_keys(self.doc.document(), self.obj).len() == 0),
    {
        self.len() == 0
    }

    /// Get the value at the given key in this map.
    pub fn get(&self, key: &str) -> (view: Option<View<'a, V>>)
        ensures
            view == view_of(self.doc, held(self.doc.document(), self.obj, Step::Key(key@))),
    {
        View::of(self.doc, self.doc.value(&self.obj, Prop::Map(key.to_owned())))
    }

    /// Check if this map contains a key.
    pub fn contains_key(&self, key: &str) -> (found: bool)
        ensures
            found == view_of(
                self.doc,
                held(self.doc.document(), self.obj, Step::Key(key@)),
            ) is Some,
    {
        self.get(key).is_some()
    }

    /// Get the keys in this map, in the order in which the document yields
    /// them.
    pub fn keys(&self) -> (keys: Vec<String>)
        ensures
            string_views(keys@) == held_keys(self.doc.document(), self.obj),
    {
        self.doc.keys(&self.obj)
    }

    /// Get both the keys and values in this map: each key under which the map
    /// holds something that can be viewed, with the view of it.
    pub fn iter(&self) -> (entries: Vec<(String, View<'a, V>)>)
        ensures
            entry_views(entries@) == keyed_views(
                self.doc,
                self.obj,
                held_keys(self.doc.document(), self.obj),
                held_keys(self.doc.document(), self.obj).len(),
            ),
    {
        let keys = self.doc.keys(&self.obj);
        let ghost names = string_views(keys@);
        let mut entries: Vec<(String, View<'a, V>)> = Vec::new();
        let mut i: usize = 0;
        let n = keys.len();
        assert(entry_views(entries@) =~= keyed_views(self.doc, self.obj, names, 0));
        while i < n
            invariant
                i <= n,
                n == keys.len(),
                names == string_views(keys@),
                entry_views(entries@) == keyed_views(self.doc, self.obj, names, i as nat),
            decreases n - i,
        {
            let key = keys[i].clone();
            let ghost before = entry_views(entries@);
            match self.get(key.as_str()) {
                Some(view) => {
                    entries.push((key, view));
                    assert(entry_views(entries@) =~= before.push((names[i as int], view)));
                },
                None => {},
            }
            i += 1;
        }
        entries
    }

    /// Get the values in this map: for each key under which the map holds
    /// something that can be viewed, the view of it.
    pub fn values(&self) -> (views: Vec<View<'a, V>>)
        ensures
            views@ == second_of(
                keyed_views(
                    self.doc,
                    self.obj,
                    held_keys(self.doc.document(), self.obj),
                    held_keys(self.doc.document(), self.obj).len(),
                ),
            ),
    {
        let keys = self.doc.keys(&self.obj);
        let ghost names = string_views(keys@);
        let mut views: Vec<View<'a, V>> = Vec::new();
        let mut i: usize = 0;
        let n = keys.len();
        assert(views@ =~= second_of(keyed_views(self.doc, self.obj, names, 0)));
        while i < n
            invariant
                i <= n,
                n == keys.len(),
                names == string_views(keys@),
                views@ == second_of(keyed_views(self.doc, self.obj, names, i as nat)),
            decreases n - i,
        {
            let ghost before = keyed_views(self.doc, self.obj, names, i as nat);
            match self.get(keys[i].as_str()) {
                Some(view) => {
                    views.push(view);
                    assert(views@ =~= second_of(before.push((names[i as int], view))));
                },
                None => {},
            }
            i += 1;
        }
        views
    }
}

/// A view over a map in this document as it was at some point of its history.
#[derive(Debug)]
pub struct HistoricalMapView<'a, 'h, V> {
    pub obj: ObjId,
    pub doc: &'a V,
    pub heads: &'h [ChangeHash],
}

/// The keys among the first `n` of `keys` under which the map `obj` held at
/// `heads` something that can be viewed, each with the view of what it held.
pub open spec fn historical_keyed_views<'a, 'h, V: Viewable>(
    doc: &'a V,
    obj: ObjId,
    heads: &'h [ChangeHash],
    keys: Seq<Seq<char>>,
    n: nat,
) -> Seq<(Seq<char>, HistoricalView<'a, 'h, V>)>
    decreases n,
{
    if n == 0 || n > keys.len() {
        Seq::empty()
    } else {
        let before = historical_keyed_views(doc, obj, heads, keys, (n - 1) as nat);
        match historical_view_of(
            doc,
            heads,
            held_at(doc.document(), obj, Step::Key(keys[n - 1]), heads@),
        ) {
            Some(view) => before.push((keys[n - 1], view)),
            None => before,
        }
    }
}

/// The keys and views that a list of entries stands for.
pub open spec fn historical_entry_views<'a, 'h, V>(
    entries: Seq<(String, HistoricalView<'a, 'h, V>)>,
) -> Seq<(Seq<char>, HistoricalView<'a, 'h, V>)> {
    Seq::new(entries.len(), |i: int| (entries[i].0@, entries[i].1))
}

impl<'a, 'h, V: Viewable> HistoricalMapView<'a, 'h, V> {
    /// The number of keys.
    pub fn len(&self) -> (n: usize)
        ensures
            n == held_keys_at(self.doc.document(), self.obj, self.heads@).len(),
    {
        let keys = self.doc.keys_at(&self.obj, self.heads);
        assert(string_views(keys@).len() == keys@.len());
        keys.len()
    }

    /// Whether the map had no key.
    pub fn is_empty(&self) -> (empty: bool)
        ensures
            empty == (held_keys_at(self.doc.document(), self.obj, self.heads@).len() == 0),
    {
        self.len() == 0
    }

    /// Get the value at the given key in this map.
    pub fn get(&self, key: &str) -> (view: Option<HistoricalView<'a, 'h, V>>)
        ensures
            view == historical_view_of(
                self.doc,
                self.heads,
                held_at(self.doc.document(), self.obj, Step::Key(key@), self.heads@),
            ),
    {
        HistoricalView::of(
            self.doc,
            self.heads,
            self.doc.value_at(&self.obj, Prop::Map(key.to_owned()), self.heads),
        )
    }

    /// Check if this map contains a key.
    pub fn contains_key(&self, key: &str) -> (found: bool)
        ensures
            found == historical_view_of(
                self.doc,
                self.heads,
                held_at(self.doc.document(), self.obj, Step::Key(key@), self.heads@),
            ) is Some,
    {
        self.get(key).is_some()
    }

    /// Get the keys in this map, in the order in which the document yields
    /// them.
    pub fn keys(&self) -> (keys: Vec<String>)
        ensures
            string_views(keys@) == held_keys_at(self.doc.document(), self.obj, self.heads@),
    {
        self.doc.keys_at(&self.obj, self.heads)
    }

    /// Get both the keys and values in this map: each key under which the map
    /// held something that can be viewed, with the view of it.
    pub fn iter(&self) -> (entries: Vec<(String, HistoricalView<'a, 'h, V>)>)
        ensures
            historical_entry_views(entries@) == historical_keyed_views(
                self.doc,
                self.obj,
                self.heads,
                held_keys_at(self.doc.document(), self.obj, self.heads@),
                held_keys_at(self.doc.document(), self.obj, self.heads@).len(),
            ),
    {
        let keys = self.doc.keys_at(&self.obj, self.heads);
        let ghost names = string_views(keys@);
        let mut entries: Vec<(String, HistoricalView<'a, 'h, V>)> = Vec::new();
        let mut i: usize = 0;
        let n = keys.len();
        assert(historical_entry_views(entries@) =~= historical_keyed_views(
            self.doc,
            self.obj,
            self.heads,
            names,
            0,
        ));
        while i < n
            invariant
                i <= n,
                n == keys.len(),
                names == string_views(keys@),
                historical_entry_views(entries@) == historical_keyed_views(
                    self.doc,
                    self.obj,
                    self.heads,
                    names,
                    i as nat,
                ),
            decreases n - i,
        {
            let key = keys[i].clone();
            let ghost before = historical_entry_views(entries@);
            match self.get(key.as_str()) {
                Some(view) => {
                    entries.push((key, view));
                    assert(historical_entry_views(entries@) =~= before.push(
                        (names[i as int], view),
                    ));
                },
                None => {},
            }
            i += 1;
        }
        entries
    }
}

/// The views of a list of keys and views.
pub open spec fn historical_second_of<'a, 'h, V>(
    entries: Seq<(Seq<char>, HistoricalView<'a, 'h, V>)>,
) -> Seq<HistoricalView<'a, 'h, V>> {
    Seq::new(entries.len(), |i: int| entries[i].1)
}

impl<'a, 'h, V: Viewable> HistoricalMapView<'a, 'h, V> {
    /// Get the values in this map: for each key under which the map held
    /// something that can be viewed, the view of it.
    pub fn values(&self) -> (views: Vec<HistoricalView<'a, 'h, V>>)
        ensures
            views@ == historical_second_of(
                historical_keyed_views(
                    self.doc,
                    self.obj,
                    self.heads,
                    held_keys_at(self.doc.document(), self.obj, self.heads@),
                    held_keys_at(self.doc.document(), self.obj, self.heads@).len(),
                ),
            ),
    {
        let keys = self.doc.keys_at(&self.obj, self.heads);
        let ghost names = string_views(keys@);
        let mut views: Vec<HistoricalView<'a, 'h, V>> = Vec::new();
        let mut i: usize = 0;
        let n = keys.len();
        assert(views@ =~= historical_second_of(
            historical_keyed_views(self.doc, self.obj, self.heads, names, 0),
        ));
        while i < n
            invariant
                i <= n,
                n == keys.len(),
                names == string_views(keys@),
                views@ == historical_second_of(
                    historical_keyed_views(self.doc, self.obj, self.heads, names, i as nat),
                ),
            decreases n - i,
        {
            let ghost before = historical_keyed_views(
                self.doc,
                self.obj,
                self.heads,
                names,
                i as nat,
            );
            match self.get(keys[i].as_str()) {
                Some(view) => {
                    views.push(view);
                    assert(views@ =~= historical_second_of(before.push((names[i as int], view))));
                },
                None => {},
            }
            i += 1;
        }
        views
    }
}

/// A mutable view over a map in the document.
#[derive(Debug)]
pub struct MutableMapView<'a, 't> {
    pub obj: ObjId,
    pub tx: &'t mut Transaction<'a>,
}

impl<'a, 't> MutableMapView<'a, 't> {
    /// The transaction that the view edits.
    pub open spec fn transaction(&self) -> Transaction<'a> {
        *self.tx
    }

    /// The document as the view's transaction sees it.
    pub open spec fn document(&self) -> automerge::Automerge {
        working_copy(*self.tx)
    }

    /// The view of the same map that only reads.
    pub fn into_immutable(self) -> (view: MapView<'t, Transaction<'a>>)
        ensures
            view.obj == self.obj,
            *view.doc == self.transaction(),
    {
        MapView { obj: self.obj, doc: self.tx }
    }

    /// A view of the same map that only reads.
    pub fn to_immutable<'s>(&'s self) -> (view: MapView<'s, Transaction<'a>>)
        ensures
            view.obj == self.obj,
            *view.doc == self.transaction(),
    {
        MapView { obj: self.obj.clone(), doc: &*self.tx }
    }

    /// The number of entries.
    pub fn len(&self) -> (n: usize)
        ensures
            n == held_length(self.document(), self.obj),
    {
        tx_length(&*self.tx, &self.obj)
    }

    /// Whether the map has no entry.
    pub fn is_empty(&self) -> (empty: bool)
        ensures
            empty == (held_length(self.document(), self.obj) == 0),
    {
        self.len() == 0
    }

    /// Get the value at the given key in this map.
    pub fn get<'s>(&'s self, key: &str) -> (view: Option<View<'s, Transaction<'a>>>)
        ensures
            view == view_of(&self.transaction(), held(self.document(), self.obj, Step::Key(key@))),
    {
        View::of(&*self.tx, tx_get(&*self.tx, &self.obj, Prop::Map(key.to_owned())))
    }

    /// Get the value at the given key in this map, to edit it.
    pub fn get_mut<'s>(&'s mut self, key: &str) -> (view: Option<MutableView<'a, 's>>)
        ensures
            views_what_was_found(
                view,
                held(old(self).document(), old(self).obj, Step::Key(key@)),
            ),
    {
        let found = tx_get(&*self.tx, &self.obj, Prop::Map(key.to_owned()));
        MutableView::of(&mut *self.tx, found)
    }

    /// Overwrite the `key`'s current value with `value`. Tells whether the
    /// transaction took the value.
    pub fn insert<V: Into<ScalarValue>>(&mut self, key: &str, value: V) -> (taken: bool)
        ensures
            final(self).obj == old(self).obj,
            exists|scalar: ScalarValue|
                call_ensures(<V as Into<ScalarValue>>::into, (value,), scalar) && (
                    final(self).transaction(),
                    taken,
                ) == #[trigger] put_outcome(
                    old(self).transaction(),
                    old(self).obj,
                    Step::Key(key@),
                    scalar,
                ),
    {
        let scalar = value.into();
        let ghost given = scalar;
        let taken = tx_put(&mut *self.tx, &self.obj, Prop::Map(key.to_owned()), scalar);
        assert(call_ensures(<V as Into<ScalarValue>>::into, (value,), given));
        assert((self.transaction(), taken) == put_outcome(
            old(self).transaction(),
            old(self).obj,
            Step::Key(key@),
            given,
        ));
        taken
    }

    /// Overwrite the `key`'s current value with a new object. Gives a mutable
    /// view of the new object where the transaction made it and it can be
    /// viewed.
    pub fn insert_object<'s>(&'s mut self, key: &str, value: ObjType) -> (view: Option<
        MutableView<'a, 's>,
    >)
        ensures
            made_view(view, value),
            final(self).obj == old(self).obj,
            views_what_was_found(
                view,
                made_object(
                    put_object_outcome(
                        old(self).transaction(),
                        old(self).obj,
                        Step::Key(key@),
                        value,
                    ).1,
                    value,
                ),
            ),
            match view {
                Some(MutableView::Mapping(map)) => map.transaction() == put_object_outcome(
                    old(self).transaction(),
                    old(self).obj,
                    Step::Key(key@),
                    value,
                ).0 && final(self).transaction() == *final(map.tx),
                Some(MutableView::List(list)) => list.transaction() == put_object_outcome(
                    old(self).transaction(),
                    old(self).obj,
                    Step::Key(key@),
                    value,
                ).0 && final(self).transaction() == *final(list.tx),
                Some(MutableView::Text(text)) => text.transaction() == put_object_outcome(
                    old(self).transaction(),
                    old(self).obj,
                    Step::Key(key@),
                    value,
                ).0 && final(self).transaction() == *final(text.tx),
                Some(MutableView::Scalar(_)) | None => final(self).transaction()
                    == put_object_outcome(
                    old(self).transaction(),
                    old(self).obj,
                    Step::Key(key@),
                    value,
                ).0,
            },
    {
        match tx_put_object(&mut *self.tx, &self.obj, Prop::Map(key.to_owned()), value) {
            Some(obj) => MutableView::of(&mut *self.tx, Some(Fetched::Object(value, obj))),
            None => None,
        }
    }

    /// Remove a value from this map. Tells whether a value was there that can
    /// be viewed and the transaction took its removal.
    pub fn remove(&mut self, key: &str) -> (removed: bool)
        ensures
            final(self).obj == old(self).obj,
            if view_of(
                &old(self).transaction(),
                held(old(self).document(), old(self).obj, Step::Key(key@)),
            ) is Some {
                (final(self).transaction(), removed) == delete_outcome(
                    old(self).transaction(),
                    old(self).obj,
                    Step::Key(key@),
                )
            } else {
                !removed && *final(self) == *old(self)
            },
    {
        if self.get(key).is_some() {
            tx_delete(&mut *self.tx, &self.obj, Prop::Map(key.to_owned()))
        } else {
            false
        }
    }

    /// Check if this map contains a key.
    pub fn contains_key(&self, key: &str) -> (found: bool)
        ensures
            found == view_of(
                &self.transaction(),
                held(self.document(), self.obj, Step::Key(key@)),
            ) is Some,
    {
        self.get(key).is_some()
    }

    /// Get the keys in this map, in the order in which the document yields
    /// them.
    pub fn keys(&self) -> (keys: Vec<String>)
        ensures
            string_views(keys@) == held_keys(self.document(), self.obj),
    {
        tx_keys(&*self.tx, &self.obj)
    }

    /// Get the values in this map: for each key under which the map holds
    /// something that can be viewed, the view of it.
    pub fn values<'s>(&'s self) -> (views: Vec<View<'s, Transaction<'a>>>)
        ensures
            views@ == second_of(
                keyed_views(
                    &self.transaction(),
                    self.obj,
                    held_keys(self.document(), self.obj),
                    held_keys(self.document(), self.obj).len(),
                ),
            ),
    {
        self.to_immutable().values()
    }

    /// Get both the keys and values in this map: each key under which the map
    /// holds something that can be viewed, with the view of it.
    pub fn iter<'s>(&'s self) -> (entries: Vec<(String, View<'s, Transaction<'a>>)>)
        ensures
            entry_views(entries@) == keyed_views(
                &self.transaction(),
                self.obj,
                held_keys(self.document(), self.obj),
                held_keys(self.document(), self.obj).len(),
            ),
    {
        self.to_immutable().iter()
    }
}

} // verus!
