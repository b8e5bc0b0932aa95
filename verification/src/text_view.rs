//! Views over the texts of a document.
use automerge::transaction::Transaction;
use automerge::{ChangeHash, ObjId, Prop, ScalarValue};
use vstd::prelude::*;
use vstd::view::View as _;
use crate::outside::{
    Fetched,
    Found,
    found_of,
    held_length,
    held_length_at,
    held_text,
    held_text_at,
    tx_length,
    tx_text,
    working_copy,
};
use crate::places::{
    delete_outcome,
    held,
    held_at,
    insert_outcome,
    put_outcome,
    tx_delete,
    tx_get,
    tx_get_at,
    tx_insert,
    tx_put,
};
use crate::path::Step;
use crate::value::string_views;
use crate::viewable::Viewable;

verus! {

/// The string that was found, if a string was found.
pub open spec fn grapheme_of(found: Option<Found>) -> Option<Seq<char>> {
    match found {
        Some(Found::Text(_, text)) => Some(text),
        _ => None,
    }
}

/// The scalar that was found, if a string was found.
pub open spec fn grapheme_scalar_of(found: Option<Found>) -> Option<ScalarValue> {
    match found {
        Some(Found::Text(scalar, _)) => Some(scalar),
        _ => None,
    }
}

/// The string that was found, if a string was found.
pub fn grapheme(found: Option<Fetched>) -> (text: Option<String>)
    ensures
        match text {
            Some(s) => grapheme_of(found_of(found)) == Some(s@),
            None => grapheme_of(found_of(found)) is None,
        },
{
    match found {
        Some(Fetched::Text(_, text)) => Some(text),
        _ => None,
    }
}

/// The scalar that was found, if a string was found.
pub fn grapheme_scalar(found: Option<Fetched>) -> (scalar: Option<ScalarValue>)
    ensures
        scalar == grapheme_scalar_of(found_of(found)),
{
    match found {
        Some(Fetched::Text(scalar, _)) => Some(scalar),
        _ => None,
    }
}

/// A view over some text in the document.
#[derive(Debug)]
pub struct TextView<'a, V> {
    pub obj: ObjId,
    pub doc: &'a V,
}

/// The strings that the text `obj` holds at the first `n` positions.
pub open spec fn graphemes<V: Viewable>(doc: &V, obj: ObjId, n: nat) -> Seq<Seq<char>>
    decreases n,
{
    if n == 0 {
        Seq::empty()
    } else {
        let before = graphemes(doc, obj, (n - 1) as nat);
        match grapheme_of(held(doc.document(), obj, Step::Index(n - 1))) {
            Some(text) => before.push(text),
            None => before,
        }
    }
}

impl<'a, V: Viewable> TextView<'a, V> {
    /// The number of elements.
    pub fn len(&self) -> (n: usize)
        ensures
            n == held_length(self.doc.document(), self.obj),
    {
        self.doc.length(&self.obj)
    }

    /// Whether the text has no element.
    pub fn is_empty(&self) -> (empty: bool)
        ensures
            empty == (held_length(self.doc.document(), self.obj) == 0),
    {
        self.len() == 0
    }

    /// Get the string at the given index.
    pub fn get(&self, index: usize) -> (text: Option<String>)
        ensures
            match text {
                Some(s) => grapheme_of(
                    held(self.doc.document(), self.obj, Step::Index(index as int)),
                ) == Some(s@),
                None => grapheme_of(
                    held(self.doc.document(), self.obj, Step::Index(index as int)),
                ) is None,
            },
    {
        grapheme(self.doc.value(&self.obj, Prop::Seq(index)))
    }

    /// Get the scalar at the given index, if it is a string.
    pub fn scalar_at(&self, index: usize) -> (scalar: Option<ScalarValue>)
        ensures
            scalar == grapheme_scalar_of(
                held(self.doc.document(), self.obj, Step::Index(index as int)),
            ),
    {
        grapheme_scalar(self.doc.value(&self.obj, Prop::Seq(index)))
    }

    /// The whole text, or `None` where the document has no such text.
    pub fn as_string(&self) -> (text: Option<String>)
        ensures
            match text {
                Some(s) => held_text(self.doc.document(), self.obj) == Some(s@),
                None => held_text(self.doc.document(), self.obj) is None,
            },
    {
        self.doc.text(&self.obj)
    }

    /// Get the strings of the text in order.
    pub fn iter(&self) -> (texts: Vec<String>)
        ensures
            string_views(texts@) == graphemes(
                self.doc,
                self.obj,
                held_length(self.doc.document(), self.obj) as nat,
            ),
    {
        let n = self.len();
        let mut texts: Vec<String> = Vec::new();
        let mut i: usize = 0;
        assert(string_views(texts@) =~= graphemes(self.doc, self.obj, 0));
        while i < n
            invariant
                i <= n,
                string_views(texts@) == graphemes(self.doc, self.obj, i as nat),
            decreases n - i,
        {
            let ghost before = string_views(texts@);
            match self.get(i) {
                Some(text) => {
                    texts.push(text);
                    assert(string_views(texts@) =~= before.push(text@));
                },
                None => {},
            }
            i += 1;
        }
        texts
    }
}

/// A view over some text in the document as it was at some point of its
/// history.
#[derive(Debug)]
pub struct HistoricalTextView<'a, 'h, V> {
    pub obj: ObjId,
    pub doc: &'a V,
    pub heads: &'h [ChangeHash],
}

/// The strings that the text `obj` held at `heads` at the first `n`
/// positions.
pub open spec fn historical_graphemes<V: Viewable>(
    doc: &V,
    obj: ObjId,
    heads: &[ChangeHash],
    n: nat,
) -> Seq<Seq<char>>
    decreases n,
{
    if n == 0 {
        Seq::empty()
    } else {
        let before = historical_graphemes(doc, obj, heads, (n - 1) as nat);
        match grapheme_of(held_at(doc.document(), obj, Step::Index(n - 1), heads@)) {
            Some(text) => before.push(text),
            None => before,
        }
    }
}

impl<'a, 'h, V: Viewable> HistoricalTextView<'a, 'h, V> {
    /// The number of elements.
    pub fn len(&self) -> (n: usize)
        ensures
            n == held_length_at(self.doc.document(), self.obj, self.heads@),
    {
        self.doc.length_at(&self.obj, self.heads)
    }

    /// Whether the text had no element.
    pub fn is_empty(&self) -> (empty: bool)
        ensures
            empty == (held_length_at(self.doc.document(), self.obj, self.heads@) == 0),
    {
        self.len() == 0
    }

    /// Get the string at the given index.
    pub fn get(&self, index: usize) -> (text: Option<String>)
        ensures
            match text {
                Some(s) => grapheme_of(
                    held_at(
                        self.doc.document(),
                        self.obj,
                        Step::Index(index as int),
                        self.heads@,
                    ),
                ) == Some(s@),
                None => grapheme_of(
                    held_at(
                        self.doc.document(),
                        self.obj,
                        Step::Index(index as int),
                        self.heads@,
                    ),
                ) is None,
            },
    {
        grapheme(self.doc.value_at(&self.obj, Prop::Seq(index), self.heads))
    }

    /// Get the scalar at the given index, if it is a string.
    pub fn scalar_at(&self, index: usize) -> (scalar: Option<ScalarValue>)
        ensures
            scalar == grapheme_scalar_of(
                held_at(self.doc.document(), self.obj, Step::Index(index as int), self.heads@),
            ),
    {
        grapheme_scalar(self.doc.value_at(&self.obj, Prop::Seq(index), self.heads))
    }

    /// The whole text, or `None` where the document had no such text.
    pub fn as_string(&self) -> (text: Option<String>)
        ensures
            match text {
                Some(s) => held_text_at(self.doc.document(), self.obj, self.heads@) == Some(s@),
                None => held_text_at(self.doc.document(), self.obj, self.heads@) is None,
            },
    {
        self.doc.text_at(&self.obj, self.heads)
    }

    /// Get the strings of the text in order.
    pub fn iter(&self) -> (texts: Vec<String>)
        ensures
            string_views(texts@) == historical_graphemes(
                self.doc,
                self.obj,
                self.heads,
                held_length_at(self.doc.document(), self.obj, self.heads@) as nat,
            ),
    {
        let n = self.len();
        let mut texts: Vec<String> = Vec::new();
        let mut i: usize = 0;
        assert(string_views(texts@) =~= historical_graphemes(self.doc, self.obj, self.heads, 0));
        while i < n
            invariant
                i <= n,
                string_views(texts@) == historical_graphemes(
                    self.doc,
                    self.obj,
                    self.heads,
                    i as nat,
                ),
            decreases n - i,
        {
            let ghost before = string_views(texts@);
            match self.get(i) {
                Some(text) => {
                    texts.push(text);
                    assert(string_views(texts@) =~= before.push(text@));
                },
                None => {},
            }
            i += 1;
        }
        texts
    }
}

/// A mutable view over some text in the document.
#[derive(Debug)]
pub struct MutableTextView<'a, 't> {
    pub obj: ObjId,
    pub tx: &'t mut Transaction<'a>,
}

impl<'a, 't> MutableTextView<'a, 't> {
    /// The transaction that the view edits.
    pub open spec fn transaction(&self) -> Transaction<'a> {
        *self.tx
    }

    /// The document as the view's transaction sees it.
    pub open spec fn document(&self) -> automerge::Automerge {
        working_copy(*self.tx)
    }

    /// The view of the same text that only reads.
    pub fn into_immutable(self) -> (view: TextView<'t, Transaction<'a>>)
        ensures
            view.obj == self.obj,
            *view.doc == self.transaction(),
    {
        TextView { obj: self.obj, doc: self.tx }
    }

    /// A view of the same text that only reads.
    pub fn to_immutable<'s>(&'s self) -> (view: TextView<'s, Transaction<'a>>)
        ensures
            view.obj == self.obj,
            *view.doc == self.transaction(),
    {
        TextView { obj: self.obj.clone(), doc: &*self.tx }
    }

    /// The number of elements.
    pub fn len(&self) -> (n: usize)
        ensures
            n == held_length(self.document(), self.obj),
    {
        tx_length(&*self.tx, &self.obj)
    }

    /// Whether the text has no element.
    pub fn is_empty(&self) -> (empty: bool)
        ensures
            empty == (held_length(self.document(), self.obj) == 0),
    {
        self.len() == 0
    }

    /// Get the string at the given index.
    pub fn get(&self, index: usize) -> (text: Option<String>)
        ensures
            match text {
                Some(s) => grapheme_of(held(self.document(), self.obj, Step::Index(index as int)))
                    == Some(s@),
                None => grapheme_of(
                    held(self.document(), self.obj, Step::Index(index as int)),
                ) is None,
            },
    {
        grapheme(tx_get(&*self.tx, &self.obj, Prop::Seq(index)))
    }

    /// Get the scalar at the given index, if it is a string.
    pub fn scalar_at(&self, index: usize) -> (scalar: Option<ScalarValue>)
        ensures
            scalar == grapheme_scalar_of(
                held(self.document(), self.obj, Step::Index(index as int)),
            ),
    {
        grapheme_scalar(tx_get(&*self.tx, &self.obj, Prop::Seq(index)))
    }

    /// Get the string that was at the given index at `heads`.
    pub fn get_at(&self, index: usize, heads: &[ChangeHash]) -> (text: Option<String>)
        ensures
            match text {
                Some(s) => grapheme_of(
                    held_at(self.document(), self.obj, Step::Index(index as int), heads@),
                ) == Some(s@),
                None => grapheme_of(
                    held_at(self.document(), self.obj, Step::Index(index as int), heads@),
                ) is None,
            },
    {
        grapheme(tx_get_at(&*self.tx, &self.obj, Prop::Seq(index), heads))
    }

    /// Get the string at the given index, from a view that may edit.
    pub fn get_mut(&mut self, index: usize) -> (text: Option<String>)
        ensures
            *final(self) == *old(self),
            match text {
                Some(s) => grapheme_of(
                    held(old(self).document(), old(self).obj, Step::Index(index as int)),
                ) == Some(s@),
                None => grapheme_of(
                    held(old(self).document(), old(self).obj, Step::Index(index as int)),
                ) is None,
            },
    {
        grapheme(tx_get(&*self.tx, &self.obj, Prop::Seq(index)))
    }

    /// Insert a new value into the text. Tells whether the transaction took
    /// the value.
    pub fn insert<V: Into<ScalarValue>>(&mut self, index: usize, value: V) -> (taken: bool)
        ensures
            final(self).obj == old(self).obj,
            exists|scalar: ScalarValue|
                call_ensures(<V as Into<ScalarValue>>::into, (value,), scalar) && (
                    final(self).transaction(),
                    taken,
                ) == #[trigger] insert_outcome(
                    old(self).transaction(),
                    old(self).obj,
                    index as int,
                    scalar,
                ),
    {
        let scalar = value.into();
        let ghost given = scalar;
        let taken = tx_insert(&mut *self.tx, &self.obj, index, scalar);
        assert(call_ensures(<V as Into<ScalarValue>>::into, (value,), given));
        assert((self.transaction(), taken) == insert_outcome(
            old(self).transaction(),
            old(self).obj,
            index as int,
            given,
        ));
        taken
    }

    /// Overwrite an existing element of the text. Tells whether the
    /// transaction took the value.
    pub fn set<V: Into<ScalarValue>>(&mut self, index: usize, value: V) -> (taken: bool)
        ensures
            final(self).obj == old(self).obj,
            exists|scalar: ScalarValue|
                call_ensures(<V as Into<ScalarValue>>::into, (value,), scalar) && (
                    final(self).transaction(),
                    taken,
                ) == #[trigger] put_outcome(
                    old(self).transaction(),
                    old(self).obj,
                    Step::Index(index as int),
                    scalar,
                ),
    {
        let scalar = value.into();
        let ghost given = scalar;
        let taken = tx_put(&mut *self.tx, &self.obj, Prop::Seq(index), scalar);
        assert(call_ensures(<V as Into<ScalarValue>>::into, (value,), given));
        assert((self.transaction(), taken) == put_outcome(
            old(self).transaction(),
            old(self).obj,
            Step::Index(index as int),
            given,
        ));
        taken
    }

    /// Remove an element from this text. Tells whether a string was there and
    /// the transaction took its removal.
    pub fn remove(&mut self, index: usize) -> (removed: bool)
        ensures
            final(self).obj == old(self).obj,
            if grapheme_of(
                held(old(self).document(), old(self).obj, Step::Index(index as int)),
            ) is Some {
                (final(self).transaction(), removed) == delete_outcome(
                    old(self).transaction(),
                    old(self).obj,
                    Step::Index(index as int),
                )
            } else {
                !removed && *final(self) == *old(self)
            },
    {
        if self.get(index).is_some() {
            tx_delete(&mut *self.tx, &self.obj, Prop::Seq(index))
        } else {
            false
        }
    }

    /// The whole text, or `None` where the document has no such text.
    pub fn as_string(&self) -> (text: Option<String>)
        ensures
            match text {
                Some(s) => held_text(self.document(), self.obj) == Some(s@),
                None => held_text(self.document(), self.obj) is None,
            },
    {
        tx_text(&*self.tx, &self.obj)
    }

    /// Get the strings of the text in order.
    pub fn iter(&self) -> (texts: Vec<String>)
        ensures
            string_views(texts@) == graphemes(
                &self.transaction(),
                self.obj,
                held_length(self.document(), self.obj) as nat,
            ),
    {
        self.to_immutable().iter()
    }
}

} // verus!
