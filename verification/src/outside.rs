//! The automerge documents that views look at.
//!
//! Everything here is trusted: the types of the crate `automerge` that the
//! views hold or hand on, names for what a document holds, and one function
//! for each call into the crate. A function's contract gives its result the
//! name that belongs to the call, and claims nothing else of the document.
//!
//! A call that goes to a place of an object asks that the place fits the
//! object's type: a key goes to a map or a table, an index to a list or
//! a text. On other places the crate may stop the program.
use automerge::transaction::{Transactable, Transaction};
use automerge::{Automerge, ChangeHash, ObjId, ObjType, Prop, ScalarValue};
use vstd::prelude::*;
use crate::path::Step;
use crate::value::string_views;

verus! {

/// `automerge::Automerge`, a document.
#[verifier::external_type_specification]
#[verifier::external_body]
pub struct ExAutomerge(automerge::Automerge);

/// `automerge::transaction::Transaction`, a document that is being edited.
#[verifier::external_type_specification]
#[verifier::external_body]
pub struct ExTransaction<'a>(automerge::transaction::Transaction<'a>);

/// `automerge::ActorId`, the identifier of an editor of a document. An
/// object's identifier holds one.
#[verifier::external_type_specification]
#[verifier::external_body]
pub struct ExActorId(automerge::ActorId);

/// `automerge::ObjId`, the identifier of a map, list or text of a document:
/// the root, or the counter, editor and index of the operation that made the
/// object.
#[verifier::external_type_specification]
pub struct ExObjId(automerge::ObjId);

/// `automerge::ScalarValue`, a scalar of a document.
#[verifier::external_type_specification]
#[verifier::external_body]
pub struct ExScalarValue(automerge::ScalarValue);

/// `automerge::ChangeHash`, the name of a point in a document's history.
#[verifier::external_type_specification]
#[verifier::external_body]
pub struct ExChangeHash(automerge::ChangeHash);

/// `automerge::ObjType`: map, table, list or text.
#[verifier::external_type_specification]
pub struct ExObjType(automerge::ObjType);

/// `automerge::Prop`: a key of a map or an index of a list or text.
#[verifier::external_type_specification]
pub struct ExProp(automerge::Prop);

/// What a document holds at one place: an object of some type, a scalar that
/// is a string, with the string, or any other scalar.
#[derive(Debug)]
pub enum Fetched {
    Object(ObjType, ObjId),
    Text(ScalarValue, String),
    Scalar(ScalarValue),
}

/// What a [`Fetched`] stands for.
pub ghost enum Found {
    Object(ObjType, ObjId),
    Text(ScalarValue, Seq<char>),
    Scalar(ScalarValue),
}

impl View for Fetched {
    type V = Found;

    open spec fn view(&self) -> Found {
        match *self {
            Fetched::Object(kind, obj) => Found::Object(kind, obj),
            Fetched::Text(scalar, text) => Found::Text(scalar, text@),
            Fetched::Scalar(scalar) => Found::Scalar(scalar),
        }
    }
}

/// What was found, if anything.
pub open spec fn found_of(fetched: Option<Fetched>) -> Option<Found> {
    match fetched {
        Some(found) => Some(found@),
        None => None,
    }
}

/// The step that a key or an index stands for.
pub open spec fn step_of(prop: Prop) -> Step {
    match prop {
        Prop::Map(key) => Step::Key(key@),
        Prop::Seq(index) => Step::Index(index as int),
    }
}

/// The document as a transaction sees it: with the edits made so far.
pub uninterp spec fn working_copy(tx: Transaction) -> Automerge;

/// The keys of the map `obj`, in the order in which the document yields them.
pub uninterp spec fn held_keys(doc: Automerge, obj: ObjId) -> Seq<Seq<char>>;

/// The keys that the map `obj` had at `heads`.
pub uninterp spec fn held_keys_at(doc: Automerge, obj: ObjId, heads: Seq<ChangeHash>) -> Seq<
    Seq<char>,
>;

/// The number of entries or elements of the object `obj`.
pub uninterp spec fn held_length(doc: Automerge, obj: ObjId) -> usize;

/// The number of entries or elements that the object `obj` had at `heads`.
pub uninterp spec fn held_length_at(doc: Automerge, obj: ObjId, heads: Seq<ChangeHash>) -> usize;

/// The type of the object `obj`, or `None` where the document has no such
/// object.
pub uninterp spec fn held_kind(doc: Automerge, obj: ObjId) -> Option<ObjType>;

/// A place fits an object of the type `kind`: a key goes to a map or a table,
/// an index to a list or a text.
pub open spec fn fits(kind: Option<ObjType>, at: Step) -> bool {
    match (kind, at) {
        (Some(ObjType::Map), Step::Key(_)) => true,
        (Some(ObjType::Table), Step::Key(_)) => true,
        (Some(ObjType::List), Step::Index(_)) => true,
        (Some(ObjType::Text), Step::Index(_)) => true,
        _ => false,
    }
}

/// What the document gives for the place `at` of the object `obj`.
pub uninterp spec fn got(doc: Automerge, obj: ObjId, at: Step) -> Option<Found>;

/// What the document gives for the place `at` of the object `obj` at
/// `heads`.
pub uninterp spec fn got_at(doc: Automerge, obj: ObjId, at: Step, heads: Seq<ChangeHash>) -> Option<
    Found,
>;

/// The characters of the text `obj`, or `None` where the document has no such
/// object.
pub uninterp spec fn held_text(doc: Automerge, obj: ObjId) -> Option<Seq<char>>;

/// The characters that the text `obj` had at `heads`.
pub uninterp spec fn held_text_at(doc: Automerge, obj: ObjId, heads: Seq<ChangeHash>) -> Option<
    Seq<char>,
>;

/// The transaction after a scalar was put at `at` of the object `obj`, and
/// whether the transaction took the scalar.
pub uninterp spec fn put_result(tx: Transaction, obj: ObjId, at: Step, value: ScalarValue) -> (
    Transaction,
    bool,
);

/// The transaction after a new object of the type `kind` was put at `at` of
/// the object `obj`, and the new object's identifier where the transaction
/// took it.
pub uninterp spec fn put_object_result(tx: Transaction, obj: ObjId, at: Step, kind: ObjType) -> (
    Transaction,
    Option<ObjId>,
);

/// The transaction after a scalar was inserted at `index` of the list or
/// text `obj`, and whether the transaction took the scalar.
pub uninterp spec fn insert_result(
    tx: Transaction,
    obj: ObjId,
    index: int,
    value: ScalarValue,
) -> (Transaction, bool);

/// The transaction after a new object of the type `kind` was inserted at
/// `index` of the list `obj`, and the new object's identifier where the
/// transaction took it.
pub uninterp spec fn insert_object_result(
    tx: Transaction,
    obj: ObjId,
    index: int,
    kind: ObjType,
) -> (Transaction, Option<ObjId>);

/// The transaction after what was at `at` of the object `obj` was deleted,
/// and whether the transaction took the deletion.
pub uninterp spec fn delete_result(tx: Transaction, obj: ObjId, at: Step) -> (Transaction, bool);

/// The two identifiers compare as equal.
pub uninterp spec fn same_object(a: ObjId, b: ObjId) -> bool;

/// The two scalars compare as equal.
pub uninterp spec fn same_scalar(a: ScalarValue, b: ScalarValue) -> bool;

/// The scalar of an unsigned integer.
pub uninterp spec fn unsigned_scalar(u: u64) -> ScalarValue;

/// The scalar of a signed integer.
pub uninterp spec fn signed_scalar(i: i64) -> ScalarValue;

/// `Clone::clone` of `automerge::ObjId`, which is derived: the copy is the
/// identifier itself.
pub assume_specification[ <automerge::ObjId as Clone>::clone ](id: &automerge::ObjId) -> (copy:
    automerge::ObjId)
    ensures
        copy == *id,
;

/// `Clone::clone` of `automerge::ScalarValue`, which is derived: the copy is
/// the scalar itself.
pub assume_specification[ <automerge::ScalarValue as Clone>::clone ](
    scalar: &automerge::ScalarValue,
) -> (copy: automerge::ScalarValue)
    ensures
        copy == *scalar,
;

/// Tells whether two identifiers are equal.
///
/// Trusted: calls `PartialEq::eq` of `automerge::ObjId`, which compares the
/// counter and the editor of two identifiers and not their index.
#[verifier::external_body]
pub(crate) fn objects_equal(a: &ObjId, b: &ObjId) -> (same: bool)
    ensures
        same == same_object(*a, *b),
{
    a == b
}

/// Tells whether two scalars are equal.
///
/// Trusted: calls `PartialEq::eq` of `automerge::ScalarValue`.
#[verifier::external_body]
pub(crate) fn scalars_equal(a: &ScalarValue, b: &ScalarValue) -> (same: bool)
    ensures
        same == same_scalar(*a, *b),
{
    a == b
}

/// The scalar of an unsigned integer.
///
/// Trusted: builds `automerge::ScalarValue::Uint`.
#[verifier::external_body]
pub(crate) fn scalar_from_u64(u: u64) -> (scalar: ScalarValue)
    ensures
        scalar == unsigned_scalar(u),
{
    ScalarValue::Uint(u)
}

/// The scalar of a signed integer.
///
/// Trusted: builds `automerge::ScalarValue::Int`.
#[verifier::external_body]
pub(crate) fn scalar_from_i64(i: i64) -> (scalar: ScalarValue)
    ensures
        scalar == signed_scalar(i),
{
    ScalarValue::Int(i)
}

/// The type of an object of a document.
///
/// Trusted: calls `Automerge::object_type`, which gives the type that the
/// object was made with, or `None` where the document has no such object.
#[verifier::external_body]
pub(crate) fn doc_kind(doc: &Automerge, obj: &ObjId) -> (kind: Option<ObjType>)
    ensures
        kind == held_kind(*doc, *obj),
{
    doc.object_type(obj)
}

/// The type of an object of a transaction's document.
///
/// Trusted: calls `Transactable::object_type` on the transaction, which
/// hands on to the document that the transaction edits.
#[verifier::external_body]
pub(crate) fn tx_kind(tx: &Transaction<'_>, obj: &ObjId) -> (kind: Option<ObjType>)
    ensures
        kind == held_kind(working_copy(*tx), *obj),
{
    Transactable::object_type(tx, obj)
}

/// The keys of a map of a document.
///
/// Trusted: calls `Automerge::keys` and collects the keys that its iterator
/// yields.
#[verifier::external_body]
pub(crate) fn doc_keys(doc: &Automerge, obj: &ObjId) -> (keys: Vec<String>)
    ensures
        string_views(keys@) == held_keys(*doc, *obj),
{
    doc.keys(obj).collect()
}

/// The keys that a map of a document had at `heads`.
///
/// Trusted: calls `Automerge::keys_at` and collects the keys that its
/// iterator yields.
#[verifier::external_body]
pub(crate) fn doc_keys_at(doc: &Automerge, obj: &ObjId, heads: &[ChangeHash]) -> (keys: Vec<String>)
    ensures
        string_views(keys@) == held_keys_at(*doc, *obj, heads@),
{
    doc.keys_at(obj, heads).collect()
}

/// The number of entries or elements of an object of a document.
///
/// Trusted: calls `Automerge::length`.
#[verifier::external_body]
pub(crate) fn doc_length(doc: &Automerge, obj: &ObjId) -> (n: usize)
    ensures
        n == held_length(*doc, *obj),
{
    doc.length(obj)
}

/// The number of entries or elements that an object of a document had at
/// `heads`.
///
/// Trusted: calls `Automerge::length_at`.
#[verifier::external_body]
pub(crate) fn doc_length_at(doc: &Automerge, obj: &ObjId, heads: &[ChangeHash]) -> (n: usize)
    ensures
        n == held_length_at(*doc, *obj, heads@),
{
    doc.length_at(obj, heads)
}

/// What a document holds at one place.
///
/// Trusted: calls `Automerge::get` and hands on the object's type and
/// identifier, or the scalar, that it finds. A failed reading finds nothing.
/// The place must fit the object's type: for a key in a list or a text the
/// crate compares keys of different kinds and stops the program.
#[verifier::external_body]
pub(crate) fn automerge_get(doc: &Automerge, obj: &ObjId, prop: Prop) -> (found: Option<Fetched>)
    requires
        fits(held_kind(*doc, *obj), step_of(prop)),
    ensures
        found_of(found) == got(*doc, *obj, step_of(prop)),
{
    match doc.get(obj, prop) {
        Ok(Some((automerge::Value::Object(kind), id))) => Some(Fetched::Object(kind, id)),
        Ok(Some((automerge::Value::Scalar(scalar), _))) => match scalar.into_owned() {
            ScalarValue::Str(s) => Some(Fetched::Text(ScalarValue::Str(s.clone()), s.into())),
            scalar => Some(Fetched::Scalar(scalar)),
        },
        Ok(None) | Err(_) => None,
    }
}

/// What a document held at one place at `heads`.
///
/// Trusted: calls `Automerge::get_at` and hands on what it finds, as
/// `automerge_get` does.
/// The place must fit the object's type, as for `automerge_get`.
#[verifier::external_body]
pub(crate) fn automerge_get_at(doc: &Automerge, obj: &ObjId, prop: Prop, heads: &[ChangeHash]) -> (found:
    Option<Fetched>)
    requires
        fits(held_kind(*doc, *obj), step_of(prop)),
    ensures
        found_of(found) == got_at(*doc, *obj, step_of(prop), heads@),
{
    match doc.get_at(obj, prop, heads) {
        Ok(Some((automerge::Value::Object(kind), id))) => Some(Fetched::Object(kind, id)),
        Ok(Some((automerge::Value::Scalar(scalar), _))) => match scalar.into_owned() {
            ScalarValue::Str(s) => Some(Fetched::Text(ScalarValue::Str(s.clone()), s.into())),
            scalar => Some(Fetched::Scalar(scalar)),
        },
        Ok(None) | Err(_) => None,
    }
}

/// The characters of a text of a document.
///
/// Trusted: calls `Automerge::text`. A failed reading gives `None`.
#[verifier::external_body]
pub(crate) fn doc_text(doc: &Automerge, obj: &ObjId) -> (text: Option<String>)
    ensures
        match text {
            Some(s) => held_text(*doc, *obj) == Some(s@),
            None => held_text(*doc, *obj) is None,
        },
{
    doc.text(obj).ok()
}

/// The characters that a text of a document had at `heads`.
///
/// Trusted: calls `Automerge::text_at`. A failed reading gives `None`.
#[verifier::external_body]
pub(crate) fn doc_text_at(doc: &Automerge, obj: &ObjId, heads: &[ChangeHash]) -> (text: Option<
    String,
>)
    ensures
        match text {
            Some(s) => held_text_at(*doc, *obj, heads@) == Some(s@),
            None => held_text_at(*doc, *obj, heads@) is None,
        },
{
    doc.text_at(obj, heads).ok()
}

/// The keys of a map of a transaction's document.
///
/// Trusted: calls `Transactable::keys` on the transaction and collects the
/// keys that its iterator yields.
#[verifier::external_body]
pub(crate) fn tx_keys(tx: &Transaction<'_>, obj: &ObjId) -> (keys: Vec<String>)
    ensures
        string_views(keys@) == held_keys(working_copy(*tx), *obj),
{
    Transactable::keys(tx, obj).collect()
}

/// The keys that a map of a transaction's document had at `heads`.
///
/// Trusted: calls `Transactable::keys_at` on the transaction and collects
/// the keys that its iterator yields.
#[verifier::external_body]
pub(crate) fn tx_keys_at(tx: &Transaction<'_>, obj: &ObjId, heads: &[ChangeHash]) -> (keys: Vec<
    String,
>)
    ensures
        string_views(keys@) == held_keys_at(working_copy(*tx), *obj, heads@),
{
    Transactable::keys_at(tx, obj, heads).collect()
}

/// The number of entries or elements of an object of a transaction's
/// document.
///
/// Trusted: calls `Transactable::length` on the transaction.
#[verifier::external_body]
pub(crate) fn tx_length(tx: &Transaction<'_>, obj: &ObjId) -> (n: usize)
    ensures
        n == held_length(working_copy(*tx), *obj),
{
    Transactable::length(tx, obj)
}

/// The number of entries or elements that an object of a transaction's
/// document had at `heads`.
///
/// Trusted: calls `Transactable::length_at` on the transaction.
#[verifier::external_body]
pub(crate) fn tx_length_at(tx: &Transaction<'_>, obj: &ObjId, heads: &[ChangeHash]) -> (n: usize)
    ensures
        n == held_length_at(working_copy(*tx), *obj, heads@),
{
    Transactable::length_at(tx, obj, heads)
}

/// What a transaction's document holds at one place.
///
/// Trusted: calls `Transactable::get` on the transaction and hands on what it
/// finds, as `automerge_get` does.
/// The place must fit the object's type, as for `automerge_get`.
#[verifier::external_body]
pub(crate) fn transaction_get(tx: &Transaction<'_>, obj: &ObjId, prop: Prop) -> (found: Option<Fetched>)
    requires
        fits(held_kind(working_copy(*tx), *obj), step_of(prop)),
    ensures
        found_of(found) == got(working_copy(*tx), *obj, step_of(prop)),
{
    match Transactable::get(tx, obj, prop) {
        Ok(Some((automerge::Value::Object(kind), id))) => Some(Fetched::Object(kind, id)),
        Ok(Some((automerge::Value::Scalar(scalar), _))) => match scalar.into_owned() {
            ScalarValue::Str(s) => Some(Fetched::Text(ScalarValue::Str(s.clone()), s.into())),
            scalar => Some(Fetched::Scalar(scalar)),
        },
        Ok(None) | Err(_) => None,
    }
}

/// What a transaction's document held at one place at `heads`.
///
/// Trusted: calls `Transactable::get_at` on the transaction and hands on
/// what it finds, as `automerge_get` does.
/// The place must fit the object's type, as for `automerge_get`.
#[verifier::external_body]
pub(crate) fn transaction_get_at(tx: &Transaction<'_>, obj: &ObjId, prop: Prop, heads: &[ChangeHash]) -> (found:
    Option<Fetched>)
    requires
        fits(held_kind(working_copy(*tx), *obj), step_of(prop)),
    ensures
        found_of(found) == got_at(working_copy(*tx), *obj, step_of(prop), heads@),
{
    match Transactable::get_at(tx, obj, prop, heads) {
        Ok(Some((automerge::Value::Object(kind), id))) => Some(Fetched::Object(kind, id)),
        Ok(Some((automerge::Value::Scalar(scalar), _))) => match scalar.into_owned() {
            ScalarValue::Str(s) => Some(Fetched::Text(ScalarValue::Str(s.clone()), s.into())),
            scalar => Some(Fetched::Scalar(scalar)),
        },
        Ok(None) | Err(_) => None,
    }
}

/// The characters of a text of a transaction's document.
///
/// Trusted: calls `Transactable::text` on the transaction. A failed reading
/// gives `None`.
#[verifier::external_body]
pub(crate) fn tx_text(tx: &Transaction<'_>, obj: &ObjId) -> (text: Option<String>)
    ensures
        match text {
            Some(s) => held_text(working_copy(*tx), *obj) == Some(s@),
            None => held_text(working_copy(*tx), *obj) is None,
        },
{
    Transactable::text(tx, obj).ok()
}

/// The characters that a text of a transaction's document had at `heads`.
///
/// Trusted: calls `Transactable::text_at` on the transaction. A failed
/// reading gives `None`.
#[verifier::external_body]
pub(crate) fn tx_text_at(tx: &Transaction<'_>, obj: &ObjId, heads: &[ChangeHash]) -> (text: Option<
    String,
>)
    ensures
        match text {
            Some(s) => held_text_at(working_copy(*tx), *obj, heads@) == Some(s@),
            None => held_text_at(working_copy(*tx), *obj, heads@) is None,
        },
{
    Transactable::text_at(tx, obj, heads).ok()
}

/// Puts a scalar at `prop` of the object `obj`. Tells whether the transaction
/// took it.
///
/// Trusted: calls `Transactable::put` on the transaction, which computes the
/// edited transaction and its answer from the transaction, the object, the
/// place and the scalar. The contract gives the two their name, and claims
/// nothing else of the document afterwards.
/// The place must fit the object's type, as for `automerge_get`.
#[verifier::external_body]
pub(crate) fn transaction_put(tx: &mut Transaction<'_>, obj: &ObjId, prop: Prop, value: ScalarValue) -> (taken:
    bool)
    requires
        fits(held_kind(working_copy(*old(tx)), *obj), step_of(prop)),
    ensures
        (*final(tx), taken) == put_result(*old(tx), *obj, step_of(prop), value),
{
    tx.put(obj, prop, value).is_ok()
}

/// Puts a new object at `prop` of the object `obj`. Gives the new object's
/// identifier where the transaction took it.
///
/// Trusted: calls `Transactable::put_object` on the transaction, which
/// computes the edited transaction and the new identifier from the
/// transaction, the object, the place and the type. The contract gives the
/// two their name, and claims nothing else of the document afterwards.
/// The place must fit the object's type, as for `automerge_get`.
#[verifier::external_body]
pub(crate) fn transaction_put_object(tx: &mut Transaction<'_>, obj: &ObjId, prop: Prop, kind: ObjType) -> (made:
    Option<ObjId>)
    requires
        fits(held_kind(working_copy(*old(tx)), *obj), step_of(prop)),
    ensures
        (*final(tx), made) == put_object_result(*old(tx), *obj, step_of(prop), kind),
{
    tx.put_object(obj, prop, kind).ok()
}

/// Inserts a scalar at `index` of the list or text `obj`. Tells whether the
/// transaction took it.
///
/// Trusted: calls `Transactable::insert` on the transaction, which computes
/// the edited transaction and its answer from the transaction, the object,
/// the index and the scalar. The contract gives the two their name, and
/// claims nothing else of the document afterwards.
/// The place must fit the object's type, as for `automerge_get`.
#[verifier::external_body]
pub(crate) fn transaction_insert(tx: &mut Transaction<'_>, obj: &ObjId, index: usize, value: ScalarValue) -> (taken:
    bool)
    requires
        fits(held_kind(working_copy(*old(tx)), *obj), Step::Index(index as int)),
    ensures
        (*final(tx), taken) == insert_result(*old(tx), *obj, index as int, value),
{
    tx.insert(obj, index, value).is_ok()
}

/// Inserts a new object at `index` of the list `obj`. Gives the new object's
/// identifier where the transaction took it.
///
/// Trusted: calls `Transactable::insert_object` on the transaction, which
/// computes the edited transaction and the new identifier from the
/// transaction, the object, the index and the type. The contract gives the
/// two their name, and claims nothing else of the document afterwards.
/// The place must fit the object's type, as for `automerge_get`.
#[verifier::external_body]
pub(crate) fn transaction_insert_object(tx: &mut Transaction<'_>, obj: &ObjId, index: usize, kind: ObjType) -> (made:
    Option<ObjId>)
    requires
        fits(held_kind(working_copy(*old(tx)), *obj), Step::Index(index as int)),
    ensures
        (*final(tx), made) == insert_object_result(*old(tx), *obj, index as int, kind),
{
    tx.insert_object(obj, index, kind).ok()
}

/// Deletes what is at `prop` of the object `obj`. Tells whether the
/// transaction took it.
///
/// Trusted: calls `Transactable::delete` on the transaction, which computes
/// the edited transaction and its answer from the transaction, the object
/// and the place. The contract gives the two their name, and claims nothing
/// else of the document afterwards.
/// The place must fit the object's type, as for `automerge_get`.
#[verifier::external_body]
pub(crate) fn transaction_delete(tx: &mut Transaction<'_>, obj: &ObjId, prop: Prop) -> (taken: bool)
    requires
        fits(held_kind(working_copy(*old(tx)), *obj), step_of(prop)),
    ensures
        (*final(tx), taken) == delete_result(*old(tx), *obj, step_of(prop)),
{
    tx.delete(obj, prop).is_ok()
}

} // verus!
