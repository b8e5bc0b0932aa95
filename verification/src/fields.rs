//! Encoding and decoding the fields of structs and the variants of enums.
//!
//! A struct with named fields is a keyed node with one entry per field, a
//! tuple struct is a list, and a variant with fields is a keyed node with the
//! variant's name as its only key. A field that the tree lacks decodes to its
//! type's default value, so that a document written before the field was added
//! can still be read.
use vstd::prelude::*;
use crate::decode::{FromAutomerge, FromAutomergeError, wrong_type, wrong_type_error};
use crate::text::{grapheme_clusters, split_graphemes};
use crate::value::{MapType, Primitive, Scalar, Tree, Value, ValueMap, string_views};

verus! {

/// How a field is kept in a document.
#[derive(Clone, Copy, Debug, PartialEq, Eq, Structural)]
pub enum Representation {
    /// As a text, grapheme by grapheme.
    Text,
    /// As a counter.
    Counter,
    /// As a timestamp.
    Timestamp,
    /// As its type is encoded.
    Plain,
}

/// The lower-case form of a string.
pub uninterp spec fn lowercase(text: Seq<char>) -> Seq<char>;

/// The lower-case form of a string.
///
/// Trusted: calls `str::to_lowercase` of the standard library, which gives
/// the string's lower-case form as Unicode defines it, whatever the machine
/// and its settings.
#[verifier::external_body]
pub(crate) fn to_lowercase(text: &str) -> (lowered: String)
    ensures
        lowered@ == lowercase(text@),
{
    text.to_lowercase()
}

/// The representation that a name in lower case stands for: `text`,
/// `counter` or `timestamp`; any other name stands for the plain one.
pub open spec fn named_representation(lowered: Seq<char>) -> Representation {
    if lowered == "text"@ {
        Representation::Text
    } else if lowered == "counter"@ {
        Representation::Counter
    } else if lowered == "timestamp"@ {
        Representation::Timestamp
    } else {
        Representation::Plain
    }
}

/// The representation that a name in lower case stands for.
pub fn representation_named(lowered: &str) -> (representation: Representation)
    ensures
        representation == named_representation(lowered@),
{
    let name = lowered.to_owned();
    if name == "text".to_owned() {
        Representation::Text
    } else if name == "counter".to_owned() {
        Representation::Counter
    } else if name == "timestamp".to_owned() {
        Representation::Timestamp
    } else {
        Representation::Plain
    }
}

/// The representation that a field asks for by name. The name is taken in
/// lower case; a field that names none is kept as its type is encoded.
pub fn representation_of(name: Option<&str>) -> (representation: Representation)
    ensures
        representation == match name {
            Some(asked) => named_representation(lowercase(asked@)),
            None => Representation::Plain,
        },
{
    match name {
        None => Representation::Plain,
        Some(asked) => {
            let lowered = to_lowercase(asked);
            representation_named(lowered.as_str())
        },
    }
}

/// The entries among which the named fields of a struct are looked up: those
/// of an ordinary keyed node. Any other value is of the wrong type.
pub fn named_fields(value: &Value) -> (result: Result<&ValueMap, FromAutomergeError>)
    ensures
        match result {
            Ok(fields) => *value == Value::Mapping(MapType::Plain, *fields),
            Err(error) => !(*value is Mapping && value->Mapping_0 == MapType::Plain) && error@
                == wrong_type(value@, "a map"@),
        },
{
    match value {
        Value::Mapping(MapType::Plain, fields) => Ok(fields),
        _ => Err(wrong_type_error(value, "a map")),
    }
}

/// The items among which the fields of a tuple struct are looked up: those of
/// a list. Any other value is of the wrong type.
pub fn unnamed_fields(value: &Value) -> (result: Result<&Vec<Value>, FromAutomergeError>)
    ensures
        match result {
            Ok(items) => *value == Value::List(*items),
            Err(error) => !(*value is List) && error@ == wrong_type(value@, "a list"@),
        },
{
    match value {
        Value::List(items) => Ok(items),
        _ => Err(wrong_type_error(value, "a list")),
    }
}

/// Decodes the field `key` of a struct from the entries of its keyed node. A
/// node without the key gives the default value of the field's type.
pub fn field_from_automerge<T: FromAutomerge + Default>(fields: &ValueMap, key: &str) -> (result:
    Result<T, FromAutomergeError>)
    ensures
        match result {
            Ok(decoded) => if fields@.dom().contains(key@) {
                T::decodable(fields@[key@]) && T::decodes_to(fields@[key@], decoded)
            } else {
                call_ensures(T::default, (), decoded)
            },
            Err(error) => fields@.dom().contains(key@) && !T::decodable(fields@[key@])
                && T::fails_with(fields@[key@], error@),
        },
{
    match fields.get(key) {
        Some(value) => T::from_automerge(value),
        None => Ok(T::default()),
    }
}

/// Decodes the field at position `index` of a tuple struct from the items of
/// its list. A list that is too short gives the default value of the field's
/// type.
pub fn element_from_automerge<T: FromAutomerge + Default>(items: &Vec<Value>, index: usize) -> (result:
    Result<T, FromAutomergeError>)
    ensures
        match result {
            Ok(decoded) => if index < items@.len() {
                T::decodable(items@[index as int]@) && T::decodes_to(
                    items@[index as int]@,
                    decoded,
                )
            } else {
                call_ensures(T::default, (), decoded)
            },
            Err(error) => index < items@.len() && !T::decodable(items@[index as int]@)
                && T::fails_with(items@[index as int]@, error@),
        },
{
    if index < items.len() {
        T::from_automerge(&items[index])
    } else {
        Ok(T::default())
    }
}

/// Encodes a number as a counter.
pub fn counter_to_automerge(count: i64) -> (value: Value)
    ensures
        value@ == Tree::Primitive(Scalar::Counter(count)),
{
    Value::Primitive(Primitive::Counter(count))
}

/// Encodes a number as a timestamp.
pub fn timestamp_to_automerge(time: i64) -> (value: Value)
    ensures
        value@ == Tree::Primitive(Scalar::Timestamp(time)),
{
    Value::Primitive(Primitive::Timestamp(time))
}

/// Encodes a string as text, one element per grapheme cluster.
pub fn text_to_automerge(text: &str) -> (value: Value)
    ensures
        value@ == Tree::Text(grapheme_clusters(text@)),
{
    Value::Text(split_graphemes(text))
}

/// Decodes a counter. An absent value gives zero.
pub fn counter_from_automerge(value: Option<&Value>) -> (result: Result<i64, FromAutomergeError>)
    ensures
        match value {
            None => result == Ok::<i64, FromAutomergeError>(0),
            Some(found) => match found@ {
                Tree::Primitive(Scalar::Counter(count)) => result == Ok::<i64, FromAutomergeError>(
                    count,
                ),
                _ => result is Err && result->Err_0@ == wrong_type(
                    found@,
                    "a primitive counter"@,
                ),
            },
        },
{
    match value {
        None => Ok(0),
        Some(found) => match found {
            Value::Primitive(Primitive::Counter(count)) => Ok(*count),
            _ => Err(wrong_type_error(found, "a primitive counter")),
        },
    }
}

/// Decodes a timestamp. An absent value gives zero.
pub fn timestamp_from_automerge(value: Option<&Value>) -> (result: Result<
    i64,
    FromAutomergeError,
>)
    ensures
        match value {
            None => result == Ok::<i64, FromAutomergeError>(0),
            Some(found) => match found@ {
                Tree::Primitive(Scalar::Timestamp(time)) => result == Ok::<i64, FromAutomergeError>(
                    time,
                ),
                _ => result is Err && result->Err_0@ == wrong_type(
                    found@,
                    "a primitive timestamp"@,
                ),
            },
        },
{
    match value {
        None => Ok(0),
        Some(found) => match found {
            Value::Primitive(Primitive::Timestamp(time)) => Ok(*time),
            _ => Err(wrong_type_error(found, "a primitive timestamp")),
        },
    }
}

/// The first `n` strings, one after the other.
pub open spec fn joined(parts: Seq<Seq<char>>, n: nat) -> Seq<char>
    decreases n,
{
    if n == 0 || n > parts.len() {
        Seq::empty()
    } else {
        joined(parts, (n - 1) as nat) + parts[n - 1]
    }
}

/// Decodes text as one string: its elements, joined. An absent value gives
/// the empty string.
pub fn text_from_automerge(value: Option<&Value>) -> (result: Result<String, FromAutomergeError>)
    ensures
        match value {
            None => result is Ok && result->Ok_0@ == Seq::<char>::empty(),
            Some(found) => match found@ {
                Tree::Text(graphemes) => result is Ok && result->Ok_0@ == joined(
                    graphemes,
                    graphemes.len(),
                ),
                _ => result is Err && result->Err_0@ == wrong_type(found@, "some text"@),
            },
        },
{
    match value {
        None => Ok(String::new()),
        Some(found) => match found {
            Value::Text(graphemes) => {
                let mut text = String::new();
                let mut i: usize = 0;
                while i < graphemes.len()
                    invariant
                        i <= graphemes.len(),
                        text@ == joined(string_views(graphemes@), i as nat),
                    decreases graphemes.len() - i,
                {
                    vstd::string::StringExecFns::append(&mut text, graphemes[i].as_str());
                    i += 1;
                }
                Ok(text)
            },
            _ => Err(wrong_type_error(found, "some text")),
        },
    }
}

/// Encodes a variant that has fields: a keyed node whose only key is the
/// variant's name, with the encoded fields under it.
pub fn variant_to_automerge(name: &str, fields: Value) -> (value: Value)
    ensures
        value@ == Tree::Mapping(
            MapType::Plain,
            Map::<Seq<char>, Tree>::empty().insert(name@, fields@),
        ),
{
    let mut outer = ValueMap::new();
    outer.insert(name.to_owned(), fields);
    Value::Mapping(MapType::Plain, outer)
}

/// Encodes a variant without fields: its name.
pub fn unit_variant_to_automerge(name: &str) -> (value: Value)
    ensures
        value@ == Tree::Primitive(Scalar::Str(name@)),
{
    Value::Primitive(Primitive::Str(name.to_owned()))
}

/// The name and the encoded fields of a variant that has fields. The value
/// must be an ordinary keyed node with exactly one entry.
pub fn variant_from_automerge(value: &Value) -> (result: Result<
    (&String, &Value),
    FromAutomergeError,
>)
    ensures
        match result {
            Ok((name, fields)) => value@ == Tree::Mapping(
                MapType::Plain,
                Map::<Seq<char>, Tree>::empty().insert(name@, fields@),
            ),
            Err(error) => error@ == wrong_type(value@, "a map with one entry"@) && !(value is Mapping
                && value->Mapping_0 == MapType::Plain && value->Mapping_1.entries().len() == 1),
        },
{
    match value {
        Value::Mapping(MapType::Plain, entries) => {
            if entries.len() == 1 {
                let name = entries.key_at(0);
                let fields = entries.value_at(0);
                proof {
                    use_type_invariant(entries);
                    crate::value::lemma_key_index(entries.entries(), 0);
                    assert forall|key: Seq<char>| entries@.dom().contains(key) implies key
                        == name@ by {
                        crate::value::lemma_key_found(entries.entries(), key);
                    }
                    assert(entries@ =~= Map::<Seq<char>, Tree>::empty().insert(name@, fields@));
                }
                Ok((name, fields))
            } else {
                Err(wrong_type_error(value, "a map with one entry"))
            }
        },
        _ => Err(wrong_type_error(value, "a map with one entry")),
    }
}

} // verus!
