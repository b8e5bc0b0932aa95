//! What a document must offer to be viewed.
use automerge::transaction::Transaction;
use automerge::{Automerge, ChangeHash, ObjId, Prop};
use vstd::prelude::*;
use crate::map_view::{HistoricalMapView, MapView, MutableMapView};
use crate::outside::{
    Fetched,
    doc_keys,
    doc_keys_at,
    doc_length,
    doc_length_at,
    doc_text,
    doc_text_at,
    found_of,
    held_keys,
    held_keys_at,
    held_length,
    held_length_at,
    held_text,
    held_text_at,
    step_of,
    tx_keys,
    tx_keys_at,
    tx_length,
    tx_length_at,
    tx_text,
    tx_text_at,
    working_copy,
};
use crate::places::{doc_get, doc_get_at, held, held_at, tx_get, tx_get_at};
use crate::value::string_views;

verus! {

/// A document, or a transaction on one, that can be read object by object.
pub trait Viewable {
    /// The document that is read.
    open spec fn document(&self) -> Automerge {
        arbitrary()
    }

    /// The keys of the map `obj`.
    fn keys(&self, obj: &ObjId) -> (keys: Vec<String>)
        ensures
            string_views(keys@) == held_keys(self.document(), *obj),
    ;

    /// The keys that the map `obj` had at `heads`.
    fn keys_at(&self, obj: &ObjId, heads: &[ChangeHash]) -> (keys: Vec<String>)
        ensures
            string_views(keys@) == held_keys_at(self.document(), *obj, heads@),
    ;

    /// The number of entries or elements of the object `obj`.
    fn length(&self, obj: &ObjId) -> (n: usize)
        ensures
            n == held_length(self.document(), *obj),
    ;

    /// The number of entries or elements that the object `obj` had at `heads`.
    fn length_at(&self, obj: &ObjId, heads: &[ChangeHash]) -> (n: usize)
        ensures
            n == held_length_at(self.document(), *obj, heads@),
    ;

    /// What the document holds at `prop` of the object `obj`.
    fn value(&self, obj: &ObjId, prop: Prop) -> (found: Option<Fetched>)
        ensures
            found_of(found) == held(self.document(), *obj, step_of(prop)),
    ;

    /// What the document held at `prop` of the object `obj` at `heads`.
    fn value_at(&self, obj: &ObjId, prop: Prop, heads: &[ChangeHash]) -> (found: Option<Fetched>)
        ensures
            found_of(found) == held_at(self.document(), *obj, step_of(prop), heads@),
    ;

    /// The characters of the text `obj`.
    fn text(&self, obj: &ObjId) -> (text: Option<String>)
        ensures
            match text {
                Some(s) => held_text(self.document(), *obj) == Some(s@),
                None => held_text(self.document(), *obj) is None,
            },
    ;

    /// The characters that the text `obj` had at `heads`.
    fn text_at(&self, obj: &ObjId, heads: &[ChangeHash]) -> (text: Option<String>)
        ensures
            match text {
                Some(s) => held_text_at(self.document(), *obj, heads@) == Some(s@),
                None => held_text_at(self.document(), *obj, heads@) is None,
            },
    ;
}

impl<'a> Viewable for Transaction<'a> {
    open spec fn document(&self) -> Automerge {
        working_copy(*self)
    }

    fn keys(&self, obj: &ObjId) -> (keys: Vec<String>) {
        tx_keys(self, obj)
    }

    fn keys_at(&self, obj: &ObjId, heads: &[ChangeHash]) -> (keys: Vec<String>) {
        tx_keys_at(self, obj, heads)
    }

    fn length(&self, obj: &ObjId) -> (n: usize) {
        tx_length(self, obj)
    }

    fn length_at(&self, obj: &ObjId, heads: &[ChangeHash]) -> (n: usize) {
        tx_length_at(self, obj, heads)
    }

    fn value(&self, obj: &ObjId, prop: Prop) -> (found: Option<Fetched>) {
        tx_get(self, obj, prop)
    }

    fn value_at(&self, obj: &ObjId, prop: Prop, heads: &[ChangeHash]) -> (found: Option<Fetched>) {
        tx_get_at(self, obj, prop, heads)
    }

    fn text(&self, obj: &ObjId) -> (text: Option<String>) {
        tx_text(self, obj)
    }

    fn text_at(&self, obj: &ObjId, heads: &[ChangeHash]) -> (text: Option<String>) {
        tx_text_at(self, obj, heads)
    }
}

impl Viewable for Automerge {
    open spec fn document(&self) -> Automerge {
        *self
    }

    fn keys(&self, obj: &ObjId) -> (keys: Vec<String>) {
        doc_keys(self, obj)
    }

    fn keys_at(&self, obj: &ObjId, heads: &[ChangeHash]) -> (keys: Vec<String>) {
        doc_keys_at(self, obj, heads)
    }

    fn length(&self, obj: &ObjId) -> (n: usize) {
        doc_length(self, obj)
    }

    fn length_at(&self, obj: &ObjId, heads: &[ChangeHash]) -> (n: usize) {
        doc_length_at(self, obj, heads)
    }

    fn value(&self, obj: &ObjId, prop: Prop) -> (found: Option<Fetched>) {
        doc_get(self, obj, prop)
    }

    fn value_at(&self, obj: &ObjId, prop: Prop, heads: &[ChangeHash]) -> (found: Option<Fetched>) {
        doc_get_at(self, obj, prop, heads)
    }

    fn text(&self, obj: &ObjId) -> (text: Option<String>) {
        doc_text(self, obj)
    }

    fn text_at(&self, obj: &ObjId, heads: &[ChangeHash]) -> (text: Option<String>) {
        doc_text_at(self, obj, heads)
    }
}

/// A document that can be viewed, both as it is and as it was.
pub trait ViewableDoc<V> {
    /// Create a new view over this document: the view of its root.
    fn view(&self) -> (view: MapView<'_, V>)
        ensures
            view.obj == ObjId::Root,
    ;

    /// Create a new view over this document at historical point `heads`:
    /// the view of its root at that point.
    fn view_at<'a, 'h>(&'a self, heads: &'h [ChangeHash]) -> (view: HistoricalMapView<'a, 'h, V>)
        ensures
            view.obj == ObjId::Root,
            view.heads@ == heads@,
    ;
}

impl ViewableDoc<Automerge> for Automerge {
    fn view(&self) -> (view: MapView<'_, Automerge>)
        ensures
            *view.doc == *self,
    {
        MapView { obj: ObjId::Root, doc: self }
    }

    fn view_at<'a, 'h>(&'a self, heads: &'h [ChangeHash]) -> (view: HistoricalMapView<
        'a,
        'h,
        Automerge,
    >)
        ensures
            *view.doc == *self,
    {
        HistoricalMapView { obj: ObjId::Root, doc: self, heads }
    }
}

/// A transaction that can be viewed and edited.
pub trait MutableDoc<'a> {
    /// Create a new mutable view over this document: the view of its root.
    fn view_mut<'t>(&'t mut self) -> (view: MutableMapView<'a, 't>)
        ensures
            view.obj == ObjId::Root,
    ;
}

impl<'a> MutableDoc<'a> for Transaction<'a> {
    fn view_mut<'t>(&'t mut self) -> (view: MutableMapView<'a, 't>)
        ensures
            *view.tx == *old(self),
    {
        MutableMapView { obj: ObjId::Root, tx: self }
    }
}

} // verus!
