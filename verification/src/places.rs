//! Reading and editing a document at a place of an object.
//!
//! A key is a place of a map or a table, an index a place of a list or
//! a text. Each function here asks the document for the object's type before
//! it goes to the place, and finds nothing, or edits nothing, where the place
//! does not fit the type.
use automerge::transaction::Transaction;
use automerge::{Automerge, ChangeHash, ObjId, ObjType, Prop, ScalarValue};
use vstd::prelude::*;
use crate::outside::{
    Fetched,
    Found,
    automerge_get,
    automerge_get_at,
    delete_result,
    doc_kind,
    fits,
    found_of,
    got,
    got_at,
    held_kind,
    insert_object_result,
    insert_result,
    put_object_result,
    put_result,
    step_of,
    transaction_delete,
    transaction_get,
    transaction_get_at,
    transaction_insert,
    transaction_insert_object,
    transaction_put,
    transaction_put_object,
    tx_kind,
    working_copy,
};
use crate::path::Step;

verus! {

/// What the document holds one step below the object `obj`: what it gives for
/// the place, where the place fits the object's type, and nothing otherwise.
pub open spec fn held(doc: Automerge, obj: ObjId, at: Step) -> Option<Found> {
    if fits(held_kind(doc, obj), at) {
        got(doc, obj, at)
    } else {
        None
    }
}

/// What the document held one step below the object `obj` at `heads`.
pub open spec fn held_at(doc: Automerge, obj: ObjId, at: Step, heads: Seq<ChangeHash>) -> Option<
    Found,
> {
    if fits(held_kind(doc, obj), at) {
        got_at(doc, obj, at, heads)
    } else {
        None
    }
}

/// The transaction after a scalar was put at `at` of the object `obj`, and
/// whether the transaction took the scalar. Where the place does not fit the
/// object's type, the transaction stays as it is and takes nothing.
pub open spec fn put_outcome(tx: Transaction, obj: ObjId, at: Step, value: ScalarValue) -> (
    Transaction,
    bool,
) {
    if fits(held_kind(working_copy(tx), obj), at) {
        put_result(tx, obj, at, value)
    } else {
        (tx, false)
    }
}

/// The transaction after a new object of the type `kind` was put at `at` of
/// the object `obj`, and the new object's identifier where the transaction
/// took it. Where the place does not fit the object's type, the transaction
/// stays as it is and makes nothing.
pub open spec fn put_object_outcome(tx: Transaction, obj: ObjId, at: Step, kind: ObjType) -> (
    Transaction,
    Option<ObjId>,
) {
    if fits(held_kind(working_copy(tx), obj), at) {
        put_object_result(tx, obj, at, kind)
    } else {
        (tx, None)
    }
}

/// The transaction after a scalar was inserted at `index` of the list or
/// text `obj`, and whether the transaction took the scalar. Where `obj` is
/// no list or text, the transaction stays as it is and takes nothing.
pub open spec fn insert_outcome(tx: Transaction, obj: ObjId, index: int, value: ScalarValue) -> (
    Transaction,
    bool,
) {
    if fits(held_kind(working_copy(tx), obj), Step::Index(index)) {
        insert_result(tx, obj, index, value)
    } else {
        (tx, false)
    }
}

/// The transaction after a new object of the type `kind` was inserted at
/// `index` of the list `obj`, and the new object's identifier where the
/// transaction took it. Where `obj` is no list or text, the transaction stays
/// as it is and makes nothing.
pub open spec fn insert_object_outcome(tx: Transaction, obj: ObjId, index: int, kind: ObjType) -> (
    Transaction,
    Option<ObjId>,
) {
    if fits(held_kind(working_copy(tx), obj), Step::Index(index)) {
        insert_object_result(tx, obj, index, kind)
    } else {
        (tx, None)
    }
}

/// The transaction after what was at `at` of the object `obj` was deleted,
/// and whether the transaction took the deletion. Where the place does not
/// fit the object's type, the transaction stays as it is and takes nothing.
pub open spec fn delete_outcome(tx: Transaction, obj: ObjId, at: Step) -> (Transaction, bool) {
    if fits(held_kind(working_copy(tx), obj), at) {
        delete_result(tx, obj, at)
    } else {
        (tx, false)
    }
}

/// Tells whether a place fits an object of the type `kind`.
pub fn place_fits(kind: Option<ObjType>, prop: &Prop) -> (fitting: bool)
    ensures
        fitting == fits(kind, step_of(*prop)),
{
    match prop {
        Prop::Map(_) => match kind {
            Some(ObjType::Map) => true,
            Some(ObjType::Table) => true,
            _ => false,
        },
        Prop::Seq(_) => match kind {
            Some(ObjType::List) => true,
            Some(ObjType::Text) => true,
            _ => false,
        },
    }
}

/// What a document holds at one place.
pub fn doc_get(doc: &Automerge, obj: &ObjId, prop: Prop) -> (found: Option<Fetched>)
    ensures
        found_of(found) == held(*doc, *obj, step_of(prop)),
{
    if place_fits(doc_kind(doc, obj), &prop) {
        automerge_get(doc, obj, prop)
    } else {
        None
    }
}

/// What a document held at one place at `heads`.
pub fn doc_get_at(doc: &Automerge, obj: &ObjId, prop: Prop, heads: &[ChangeHash]) -> (found: Option<
    Fetched,
>)
    ensures
        found_of(found) == held_at(*doc, *obj, step_of(prop), heads@),
{
    if place_fits(doc_kind(doc, obj), &prop) {
        automerge_get_at(doc, obj, prop, heads)
    } else {
        None
    }
}

/// What a transaction's document holds at one place.
pub fn tx_get(tx: &Transaction<'_>, obj: &ObjId, prop: Prop) -> (found: Option<Fetched>)
    ensures
        found_of(found) == held(working_copy(*tx), *obj, step_of(prop)),
{
    if place_fits(tx_kind(tx, obj), &prop) {
        transaction_get(tx, obj, prop)
    } else {
        None
    }
}

/// What a transaction's document held at one place at `heads`.
pub fn tx_get_at(tx: &Transaction<'_>, obj: &ObjId, prop: Prop, heads: &[ChangeHash]) -> (found:
    Option<Fetched>)
    ensures
        found_of(found) == held_at(working_copy(*tx), *obj, step_of(prop), heads@),
{
    if place_fits(tx_kind(tx, obj), &prop) {
        transaction_get_at(tx, obj, prop, heads)
    } else {
        None
    }
}

/// Puts a scalar at `prop` of the object `obj`. Tells whether the transaction
/// took it.
pub fn tx_put(tx: &mut Transaction<'_>, obj: &ObjId, prop: Prop, value: ScalarValue) -> (taken: bool)
    ensures
        (*final(tx), taken) == put_outcome(*old(tx), *obj, step_of(prop), value),
{
    if place_fits(tx_kind(&*tx, obj), &prop) {
        transaction_put(tx, obj, prop, value)
    } else {
        false
    }
}

/// Puts a new object at `prop` of the object `obj`. Gives the new object's
/// identifier where the transaction took it.
pub fn tx_put_object(tx: &mut Transaction<'_>, obj: &ObjId, prop: Prop, kind: ObjType) -> (made:
    Option<ObjId>)
    ensures
        (*final(tx), made) == put_object_outcome(*old(tx), *obj, step_of(prop), kind),
{
    if place_fits(tx_kind(&*tx, obj), &prop) {
        transaction_put_object(tx, obj, prop, kind)
    } else {
        None
    }
}

/// Inserts a scalar at `index` of the list or text `obj`. Tells whether the
/// transaction took it.
pub fn tx_insert(tx: &mut Transaction<'_>, obj: &ObjId, index: usize, value: ScalarValue) -> (taken:
    bool)
    ensures
        (*final(tx), taken) == insert_outcome(*old(tx), *obj, index as int, value),
{
    if place_fits(tx_kind(&*tx, obj), &Prop::Seq(index)) {
        transaction_insert(tx, obj, index, value)
    } else {
        false
    }
}

/// Inserts a new object at `index` of the list `obj`. Gives the new object's
/// identifier where the transaction took it.
pub fn tx_insert_object(tx: &mut Transaction<'_>, obj: &ObjId, index: usize, kind: ObjType) -> (made:
    Option<ObjId>)
    ensures
        (*final(tx), made) == insert_object_outcome(*old(tx), *obj, index as int, kind),
{
    if place_fits(tx_kind(&*tx, obj), &Prop::Seq(index)) {
        transaction_insert_object(tx, obj, index, kind)
    } else {
        None
    }
}

/// Deletes what is at `prop` of the object `obj`. Tells whether the
/// transaction took it.
pub fn tx_delete(tx: &mut Transaction<'_>, obj: &ObjId, prop: Prop) -> (taken: bool)
    ensures
        (*final(tx), taken) == delete_outcome(*old(tx), *obj, step_of(prop)),
{
    if place_fits(tx_kind(&*tx, obj), &prop) {
        transaction_delete(tx, obj, prop)
    } else {
        false
    }
}

} // verus!
