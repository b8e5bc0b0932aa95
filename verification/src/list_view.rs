//! Views over the lists of a document.
use automerge::transaction::Transaction;
use automerge::{ChangeHash, ObjId, ObjType, Prop, ScalarValue};
use vstd::prelude::*;
use vstd::view::View as _;
use crate::outside::{Fetched, held_length, held_length_at, tx_length, working_copy};
use crate::places::{
    delete_outcome,
    held,
    held_at,
    insert_object_outcome,
    insert_outcome,
    put_object_outcome,
    put_outcome,
    tx_delete,
    tx_get,
    tx_get_at,
    tx_insert,
    tx_insert_object,
    tx_put,
    tx_put_object,
};
use crate::path::Step;
use crate::view::{
    HistoricalView,
    MutableView,
    View,
    historical_view_of,
    made_object,
    made_view,
    view_of,
    views_what_was_found,
};
use crate::viewable::Viewable;

verus! {

/// A view over a list in the document.
#[derive(Debug)]
pub struct ListView<'a, V> {
    pub obj: ObjId,
    pub doc: &'a V,
}

/// The views of what the list `obj` holds at the first `n` positions, as far
/// as it can be viewed.
pub open spec fn indexed_views<'a, V: Viewable>(doc: &'a V, obj: ObjId, n: nat) -> Seq<View<'a, V>>
    decreases n,
{
    if n == 0 {
        Seq::empty()
    } else {
        let before = indexed_views(doc, obj, (n - 1) as nat);
        match view_of(doc, held(doc.document(), obj, Step::Index(n - 1))) {
            Some(view) => before.push(view),
            None => before,
        }
    }
}

impl<'a, V: Viewable> ListView<'a, V> {
    /// The number of elements.
    pub fn len(&self) -> (n: usize)
        ensures
            n == held_length(self.doc.document(), self.obj),
    {
        self.doc.length(&self.obj)
    }

    /// Whether the list has no element.
    pub fn is_empty(&self) -> (empty: bool)
        ensures
            empty == (held_length(self.doc.document(), self.obj) == 0),
    {
        self.len() == 0
    }

    /// Get the element at the given index.
    pub fn get(&self, index: usize) -> (view: Option<View<'a, V>>)
        ensures
            view == view_of(
                self.doc,
                held(self.doc.document(), self.obj, Step::Index(index as int)),
            ),
    {
        View::of(self.doc, self.doc.value(&self.obj, Prop::Seq(index)))
    }

    /// Get the elements in order, as far as they can be viewed.
    pub fn iter(&self) -> (views: Vec<View<'a, V>>)
        ensures
            views@ == indexed_views(
                self.doc,
                self.obj,
                held_length(self.doc.document(), self.obj) as nat,
            ),
    {
        let n = self.len();
        let mut views: Vec<View<'a, V>> = Vec::new();
        let mut i: usize = 0;
        while i < n
            invariant
                i <= n,
                views@ == indexed_views(self.doc, self.obj, i as nat),
            decreases n - i,
        {
            match self.get(i) {
                Some(view) => {
                    views.push(view);
                },
                None => {},
            }
            i += 1;
        }
        views
    }
}

/// A view over a list in the document as it was at some point of its history.
#[derive(Debug)]
pub struct HistoricalListView<'a, 'h, V> {
    pub obj: ObjId,
    pub doc: &'a V,
    pub heads: &'h [ChangeHash],
}

/// The views of what the list `obj` held at `heads` at the first `n`
/// positions, as far as it can be viewed.
pub open spec fn historical_indexed_views<'a, 'h, V: Viewable>(
    doc: &'a V,
    obj: ObjId,
    heads: &'h [ChangeHash],
    n: nat,
) -> Seq<HistoricalView<'a, 'h, V>>
    decreases n,
{
    if n == 0 {
        Seq::empty()
    } else {
        let before = historical_indexed_views(doc, obj, heads, (n - 1) as nat);
        match historical_view_of(
            doc,
            heads,
            held_at(doc.document(), obj, Step::Index(n - 1), heads@),
        ) {
            Some(view) => before.push(view),
            None => before,
        }
    }
}

impl<'a, 'h, V: Viewable> HistoricalListView<'a, 'h, V> {
    /// The number of elements.
    pub fn len(&self) -> (n: usize)
        ensures
            n == held_length_at(self.doc.document(), self.obj, self.heads@),
    {
        self.doc.length_at(&self.obj, self.heads)
    }

    /// Whether the list had no element.
    pub fn is_empty(&self) -> (empty: bool)
        ensures
            empty == (held_length_at(self.doc.document(), self.obj, self.heads@) == 0),
    {
        self.len() == 0
    }

    /// Get the element at the given index.
    pub fn get(&self, index: usize) -> (view: Option<HistoricalView<'a, 'h, V>>)
        ensures
            view == historical_view_of(
                self.doc,
                self.heads,
                held_at(self.doc.document(), self.obj, Step::Index(index as int), self.heads@),
            ),
    {
        HistoricalView::of(
            self.doc,
            self.heads,
            self.doc.value_at(&self.obj, Prop::Seq(index), self.heads),
        )
    }

    /// Get the elements in order, as far as they can be viewed.
    pub fn iter(&self) -> (views: Vec<HistoricalView<'a, 'h, V>>)
        ensures
            views@ == historical_indexed_views(
                self.doc,
                self.obj,
                self.heads,
                held_length_at(self.doc.document(), self.obj, self.heads@) as nat,
            ),
    {
        let n = self.len();
        let mut views: Vec<HistoricalView<'a, 'h, V>> = Vec::new();
        let mut i: usize = 0;
        while i < n
            invariant
                i <= n,
                views@ == historical_indexed_views(self.doc, self.obj, self.heads, i as nat),
            decreases n - i,
        {
            match self.get(i) {
                Some(view) => {
                    views.push(view);
                },
                None => {},
            }
            i += 1;
        }
        views
    }
}

/// A mutable view over a list in the document.
#[derive(Debug)]
pub struct MutableListView<'a, 't> {
    pub obj: ObjId,
    pub tx: &'t mut Transaction<'a>,
}

impl<'a, 't> MutableListView<'a, 't> {
    /// The transaction that the view edits.
    pub open spec fn transaction(&self) -> Transaction<'a> {
        *self.tx
    }

    /// The document as the view's transaction sees it.
    pub open spec fn document(&self) -> automerge::Automerge {
        working_copy(*self.tx)
    }

    /// The view of the same list that only reads.
    pub fn into_immutable(self) -> (view: ListView<'t, Transaction<'a>>)
        ensures
            view.obj == self.obj,
            *view.doc == self.transaction(),
    {
        ListView { obj: self.obj, doc: self.tx }
    }

    /// A view of the same list that only reads.
    pub fn to_immutable<'s>(&'s self) -> (view: ListView<'s, Transaction<'a>>)
        ensures
            view.obj == self.obj,
            *view.doc == self.transaction(),
    {
        ListView { obj: self.obj.clone(), doc: &*self.tx }
    }

    /// The number of elements.
    pub fn len(&self) -> (n: usize)
        ensures
            n == held_length(self.document(), self.obj),
    {
        tx_length(&*self.tx, &self.obj)
    }

    /// Whether the list has no element.
    pub fn is_empty(&self) -> (empty: bool)
        ensures
            empty == (held_length(self.document(), self.obj) == 0),
    {
        self.len() == 0
    }

    /// Get the element at the given index.
    pub fn get<'s>(&'s self, index: usize) -> (view: Option<View<'s, Transaction<'a>>>)
        ensures
            view == view_of(
                &self.transaction(),
                held(self.document(), self.obj, Step::Index(index as int)),
            ),
    {
        View::of(&*self.tx, tx_get(&*self.tx, &self.obj, Prop::Seq(index)))
    }

    /// Get the element that was at the given index at `heads`.
    pub fn get_at<'s, 'h>(&'s self, index: usize, heads: &'h [ChangeHash]) -> (view: Option<
        HistoricalView<'s, 'h, Transaction<'a>>,
    >)
        ensures
            view == historical_view_of(
                &self.transaction(),
                heads,
                held_at(self.document(), self.obj, Step::Index(index as int), heads@),
            ),
    {
        HistoricalView::of(
            &*self.tx,
            heads,
            tx_get_at(&*self.tx, &self.obj, Prop::Seq(index), heads),
        )
    }

    /// Get the element at the given index, to edit it.
    pub fn get_mut<'s>(&'s mut self, index: usize) -> (view: Option<MutableView<'a, 's>>)
        ensures
            views_what_was_found(
                view,
                held(old(self).document(), old(self).obj, Step::Index(index as int)),
            ),
    {
        let found = tx_get(&*self.tx, &self.obj, Prop::Seq(index));
        MutableView::of(&mut *self.tx, found)
    }

    /// Insert a new value into the list. Tells whether the transaction took
    /// the value.
    pub fn insert<V: Into<ScalarValue>>(&mut self, index: usize, value: V) -> (taken: bool)
        ensures
            final(self).obj == old(self).obj,
            exists|scalar: ScalarValue|
                call_ensures(<V as Into<ScalarValue>>::into, (value,), scalar) && (
                    final(self).transaction(),
                    taken,
                ) == #[trigger] insert_outcome(
                    old(self).transaction(),
                    old(self).obj,
                    index as int,
                    scalar,
                ),
    {
        let scalar = value.into();
        let ghost given = scalar;
        let taken = tx_insert(&mut *self.tx, &self.obj, index, scalar);
        assert(call_ensures(<V as Into<ScalarValue>>::into, (value,), given));
        assert((self.transaction(), taken) == insert_outcome(
            old(self).transaction(),
            old(self).obj,
            index as int,
            given,
        ));
        taken
    }

    /// Insert a new object into the list. Gives a mutable view of the new
    /// object where the transaction made it and it can be viewed.
    pub fn insert_object<'s>(&'s mut self, index: usize, value: ObjType) -> (view: Option<
        MutableView<'a, 's>,
    >)
        ensures
            made_view(view, value),
            final(self).obj == old(self).obj,
            views_what_was_found(
                view,
                made_object(
                    insert_object_outcome(
                        old(self).transaction(),
                        old(self).obj,
                        index as int,
                        value,
                    ).1,
                    value,
                ),
            ),
            match view {
                Some(MutableView::Mapping(map)) => map.transaction() == insert_object_outcome(
                        old(self).transaction(),
                        old(self).obj,
                        index as int,
                        value,
                    ).0
                    && final(self).transaction() == *final(map.tx),
                Some(MutableView::List(list)) => list.transaction() == insert_object_outcome(
                        old(self).transaction(),
                        old(self).obj,
                        index as int,
                        value,
                    ).0
                    && final(self).transaction() == *final(list.tx),
                Some(MutableView::Text(text)) => text.transaction() == insert_object_outcome(
                        old(self).transaction(),
                        old(self).obj,
                        index as int,
                        value,
                    ).0
                    && final(self).transaction() == *final(text.tx),
                Some(MutableView::Scalar(_)) | None => final(self).transaction() == insert_object_outcome(
                        old(self).transaction(),
                        old(self).obj,
                        index as int,
                        value,
                    ).0,
            },
    {
        match tx_insert_object(&mut *self.tx, &self.obj, index, value) {
            Some(obj) => MutableView::of(&mut *self.tx, Some(Fetched::Object(value, obj))),
            None => None,
        }
    }

    /// Overwrite an existing item in the list. Tells whether the transaction
    /// took the value.
    pub fn set<V: Into<ScalarValue>>(&mut self, index: usize, value: V) -> (taken: bool)
        ensures
            final(self).obj == old(self).obj,
            exists|scalar: ScalarValue|
                call_ensures(<V as Into<ScalarValue>>::into, (value,), scalar) && (
                    final(self).transaction(),
                    taken,
                ) == #[trigger] put_outcome(
                    old(self).transaction(),
                    old(self).obj,
                    Step::Index(index as int),
                    scalar,
                ),
    {
        let scalar = value.into();
        let ghost given = scalar;
        let taken = tx_put(&mut *self.tx, &self.obj, Prop::Seq(index), scalar);
        assert(call_ensures(<V as Into<ScalarValue>>::into, (value,), given));
        assert((self.transaction(), taken) == put_outcome(
            old(self).transaction(),
            old(self).obj,
            Step::Index(index as int),
            given,
        ));
        taken
    }

    /// Overwrite an existing item in the list with a new object. Gives
    /// a mutable view of the new object where the transaction made it and it
    /// can be viewed.
    pub fn set_object<'s>(&'s mut self, index: usize, value: ObjType) -> (view: Option<
        MutableView<'a, 's>,
    >)
        ensures
            made_view(view, value),
            final(self).obj == old(self).obj,
            views_what_was_found(
                view,
                made_object(
                    put_object_outcome(
                        old(self).transaction(),
                        old(self).obj,
                        Step::Index(index as int),
                        value,
                    ).1,
                    value,
                ),
            ),
            match view {
                Some(MutableView::Mapping(map)) => map.transaction() == put_object_outcome(
                        old(self).transaction(),
                        old(self).obj,
                        Step::Index(index as int),
                        value,
                    ).0
                    && final(self).transaction() == *final(map.tx),
                Some(MutableView::List(list)) => list.transaction() == put_object_outcome(
                        old(self).transaction(),
                        old(self).obj,
                        Step::Index(index as int),
                        value,
                    ).0
                    && final(self).transaction() == *final(list.tx),
                Some(MutableView::Text(text)) => text.transaction() == put_object_outcome(
                        old(self).transaction(),
                        old(self).obj,
                        Step::Index(index as int),
                        value,
                    ).0
                    && final(self).transaction() == *final(text.tx),
                Some(MutableView::Scalar(_)) | None => final(self).transaction() == put_object_outcome(
                        old(self).transaction(),
                        old(self).obj,
                        Step::Index(index as int),
                        value,
                    ).0,
            },
    {
        match tx_put_object(&mut *self.tx, &self.obj, Prop::Seq(index), value) {
            Some(obj) => MutableView::of(&mut *self.tx, Some(Fetched::Object(value, obj))),
            None => None,
        }
    }

    /// Remove an element from this list. Tells whether an element was there
    /// that can be viewed and the transaction took its removal.
    pub fn remove(&mut self, index: usize) -> (removed: bool)
        ensures
            final(self).obj == old(self).obj,
            if view_of(
                &old(self).transaction(),
                held(old(self).document(), old(self).obj, Step::Index(index as int)),
            ) is Some {
                (final(self).transaction(), removed) == delete_outcome(
                    old(self).transaction(),
                    old(self).obj,
                    Step::Index(index as int),
                )
            } else {
                !removed && *final(self) == *old(self)
            },
    {
        if self.get(index).is_some() {
            tx_delete(&mut *self.tx, &self.obj, Prop::Seq(index))
        } else {
            false
        }
    }

    /// Get the elements in order, as far as they can be viewed.
    pub fn iter<'s>(&'s self) -> (views: Vec<View<'s, Transaction<'a>>>)
        ensures
            views@ == indexed_views(
                &self.transaction(),
                self.obj,
                held_length(self.document(), self.obj) as nat,
            ),
    {
        self.to_immutable().iter()
    }
}

} // verus!
