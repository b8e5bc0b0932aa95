//! JSON documents as value trees.
//!
//! [`Json`] holds a JSON document as plain values. Encoding maps objects to
//! ordinary keyed nodes, arrays to lists, and a number to the narrowest of a
//! floating-point, a signed and an unsigned scalar that holds it. Decoding
//! goes the other way, and joins text into one string; a tree that holds
//! a cursor, a 32-bit floating-point number, or a 64-bit one that is not
//! finite has no JSON form.
use vstd::prelude::*;
use crate::decode::{Failure, FromAutomerge, FromAutomergeError};
use crate::encode::ToAutomerge;
use crate::fields::{joined, text_from_automerge};
use crate::float::{f64_is_finite, is_finite_f64};
use crate::value::{
    MapType,
    Primitive,
    Scalar,
    Tree,
    Value,
    ValueMap,
    distinct_keys,
    key_index,
    lemma_entries_tree_finite,
    lemma_key_found,
    lemma_key_index,
    lemma_mapping_decreases,
    tree_of,
};

verus! {

/// A JSON number: a non-negative integer, a negative integer, or the bits of
/// a 64-bit floating-point number.
#[derive(Clone, Copy, Debug, PartialEq)]
pub enum JsonNumber {
    PosInt(u64),
    NegInt(i64),
    Float(u64),
}

/// A JSON document.
#[derive(Debug, PartialEq)]
pub enum Json {
    Null,
    Bool(bool),
    Number(JsonNumber),
    String(String),
    Array(Vec<Json>),
    Object(Vec<(String, Json)>),
}

/// The scalar that a JSON number is encoded as.
pub open spec fn number_scalar(number: JsonNumber) -> Scalar {
    match number {
        JsonNumber::Float(bits) => Scalar::F64(bits),
        JsonNumber::NegInt(i) => Scalar::Int(i),
        JsonNumber::PosInt(u) => if u <= i64::MAX {
            Scalar::Int(u as i64)
        } else {
            Scalar::Uint(u)
        },
    }
}

/// The JSON number of a signed integer.
pub open spec fn signed_number(i: i64) -> JsonNumber {
    if i < 0 {
        JsonNumber::NegInt(i)
    } else {
        JsonNumber::PosInt(i as u64)
    }
}

/// The tree that a JSON document is encoded as.
pub open spec fn json_tree(json: Json) -> Tree
    decreases json, 0nat,
{
    match json {
        Json::Null => Tree::Primitive(Scalar::Null),
        Json::Bool(b) => Tree::Primitive(Scalar::Boolean(b)),
        Json::Number(number) => Tree::Primitive(number_scalar(number)),
        Json::String(s) => Tree::Primitive(Scalar::Str(s@)),
        Json::Array(items) => Tree::List(json_trees(items@)),
        Json::Object(members) => Tree::Mapping(
            MapType::Plain,
            members_tree(members@, members@.len()),
        ),
    }
}

/// The trees that the items of a JSON array are encoded as.
pub open spec fn json_trees(items: Seq<Json>) -> Seq<Tree>
    decreases items, 0nat,
{
    Seq::new(
        items.len(),
        |i: int|
            if 0 <= i < items.len() {
                json_tree(items[i])
            } else {
                Tree::Primitive(Scalar::Null)
            },
    )
}

/// The keyed node that the first `n` members of a JSON object are encoded as.
/// Where a key occurs twice, the later member counts.
pub open spec fn members_tree(members: Seq<(String, Json)>, n: nat) -> Map<Seq<char>, Tree>
    decreases members, n,
{
    if n == 0 || n > members.len() {
        Map::empty()
    } else {
        members_tree(members, (n - 1) as nat).insert(
            members[n - 1].0@,
            json_tree(members[n - 1].1),
        )
    }
}

/// Encodes a JSON number.
pub fn number_to_automerge(number: &JsonNumber) -> (primitive: Primitive)
    ensures
        primitive@ == number_scalar(*number),
{
    match number {
        JsonNumber::Float(bits) => Primitive::F64(*bits),
        JsonNumber::NegInt(i) => Primitive::Int(*i),
        JsonNumber::PosInt(u) => {
            if *u <= 0x7fff_ffff_ffff_ffff {
                Primitive::Int(*u as i64)
            } else {
                Primitive::Uint(*u)
            }
        },
    }
}

/// Encodes a JSON document.
pub fn json_to_automerge(json: &Json) -> (value: Value)
    ensures
        value@ == json_tree(*json),
    decreases json,
{
    match json {
        Json::Null => Value::Primitive(Primitive::Null),
        Json::Bool(b) => Value::Primitive(Primitive::Boolean(*b)),
        Json::Number(number) => Value::Primitive(number_to_automerge(number)),
        Json::String(s) => Value::Primitive(Primitive::Str(s.clone())),
        Json::Array(items) => {
            let mut encoded: Vec<Value> = Vec::new();
            let mut i: usize = 0;
            while i < items.len()
                invariant
                    i <= items.len(),
                    encoded.len() == i,
                    json is Array,
                    json->Array_0 == *items,
                    forall|j: int| 0 <= j < i ==> (#[trigger] encoded@[j])@ == json_tree(items@[j]),
                decreases items.len() - i,
            {
                proof {
                    assert(decreases_to!(*json => json->Array_0));
                    vstd::std_specs::vec::axiom_vec_index_decreases(*items, i as int);
                }
                encoded.push(json_to_automerge(&items[i]));
                i += 1;
            }
            let value = Value::List(encoded);
            assert(value@->List_0 =~= json_trees(items@));
            value
        },
        Json::Object(members) => {
            let mut node = ValueMap::new();
            let mut i: usize = 0;
            while i < members.len()
                invariant
                    i <= members.len(),
                    json is Object,
                    json->Object_0 == *members,
                    node@ == members_tree(members@, i as nat),
                decreases members.len() - i,
            {
                proof {
                    assert(decreases_to!(*json => json->Object_0));
                    vstd::std_specs::vec::axiom_vec_index_decreases(*members, i as int);
                    assert(decreases_to!(members@[i as int] => members@[i as int].1));
                }
                let member = json_to_automerge(&members[i].1);
                node.insert(members[i].0.clone(), member);
                i += 1;
            }
            Value::Mapping(MapType::Plain, node)
        },
    }
}

impl ToAutomerge for Json {
    open spec fn encoded(&self) -> Tree {
        json_tree(*self)
    }

    fn to_automerge(&self) -> (value: Value) {
        json_to_automerge(self)
    }
}

/// The scalar has a JSON form.
pub open spec fn scalar_has_json(scalar: Scalar) -> bool {
    match scalar {
        Scalar::Cursor(_) => false,
        Scalar::F32(_) => false,
        Scalar::F64(bits) => f64_is_finite(bits),
        _ => true,
    }
}

/// The tree has a JSON form: so has every scalar in it.
pub open spec fn has_json(tree: Tree) -> bool
    decreases tree,
{
    match tree {
        Tree::Mapping(_, entries) => forall|key: Seq<char>| #[trigger]
            entries.dom().contains(key) ==> has_json(entries[key]),
        Tree::List(items) => forall|i: int| 0 <= i < items.len() ==> has_json(#[trigger] items[i]),
        Tree::Text(_) => true,
        Tree::Primitive(scalar) => scalar_has_json(scalar),
    }
}

/// The JSON array of the bytes of a byte string.
pub open spec fn bytes_json(bytes: Seq<u8>, items: Seq<Json>) -> bool {
    &&& items.len() == bytes.len()
    &&& forall|i: int|
        0 <= i < bytes.len() ==> #[trigger] items[i] == Json::Number(
            JsonNumber::PosInt(bytes[i] as u64),
        )
}

/// `json` is the JSON form of the scalar.
pub open spec fn scalar_json(scalar: Scalar, json: Json) -> bool {
    match scalar {
        Scalar::Str(s) => json is String && json->String_0@ == s,
        Scalar::Int(i) => json == Json::Number(signed_number(i)),
        Scalar::Counter(i) => json == Json::Number(signed_number(i)),
        Scalar::Timestamp(i) => json == Json::Number(signed_number(i)),
        Scalar::Uint(u) => json == Json::Number(JsonNumber::PosInt(u)),
        Scalar::F64(bits) => json == Json::Number(JsonNumber::Float(bits)),
        Scalar::Boolean(b) => json == Json::Bool(b),
        Scalar::Null => json == Json::Null,
        Scalar::Bytes(bytes) => json is Array && bytes_json(bytes, json->Array_0@),
        Scalar::F32(_) => false,
        Scalar::Cursor(_) => false,
    }
}

/// `json` is the JSON form of the tree: an object with one member for each
/// entry of a keyed node, an array with one item for each item of a list, the
/// joined string of a text, and the JSON form of a scalar.
pub open spec fn json_of(tree: Tree, json: Json) -> bool
    decreases json, 0nat,
{
    match tree {
        Tree::Mapping(_, entries) => json is Object && members_of(
            entries,
            json->Object_0@,
            json->Object_0@.len(),
        ) && forall|key: Seq<char>| #[trigger]
            entries.dom().contains(key) ==> exists|i: int|
                0 <= i < json->Object_0@.len() && (#[trigger] json->Object_0@[i]).0@ == key,
        Tree::List(items) => json is Array && json->Array_0@.len() == items.len() && items_of(
            items,
            json->Array_0@,
            items.len(),
        ),
        Tree::Text(text) => json is String && json->String_0@ == joined(text, text.len()),
        Tree::Primitive(scalar) => scalar_json(scalar, json),
    }
}

/// The first `n` members are distinct in their keys, and each is the JSON
/// form of the entry under its key.
pub open spec fn members_of(
    entries: Map<Seq<char>, Tree>,
    members: Seq<(String, Json)>,
    n: nat,
) -> bool
    decreases members, n,
{
    if n == 0 || n > members.len() {
        true
    } else {
        &&& members_of(entries, members, (n - 1) as nat)
        &&& forall|j: int| 0 <= j < n - 1 ==> (#[trigger] members[j]).0@ != members[n - 1].0@
        &&& entries.dom().contains(members[n - 1].0@)
        &&& json_of(entries[members[n - 1].0@], members[n - 1].1)
    }
}

/// Each of the first `n` items is the JSON form of the tree at its position.
pub open spec fn items_of(trees: Seq<Tree>, items: Seq<Json>, n: nat) -> bool
    decreases items, n,
{
    if n == 0 || n > items.len() || n > trees.len() {
        true
    } else {
        items_of(trees, items, (n - 1) as nat) && json_of(trees[n - 1], items[n - 1])
    }
}

/// The JSON number of a signed integer.
pub fn number_of_signed(i: i64) -> (number: JsonNumber)
    ensures
        number == signed_number(i),
{
    if i < 0 {
        JsonNumber::NegInt(i)
    } else {
        JsonNumber::PosInt(i as u64)
    }
}

/// Decodes a scalar as JSON.
pub fn primitive_to_json(primitive: &Primitive) -> (result: Option<Json>)
    ensures
        match result {
            Some(json) => scalar_has_json(primitive@) && scalar_json(primitive@, json),
            None => !scalar_has_json(primitive@),
        },
{
    match primitive {
        Primitive::Str(s) => Some(Json::String(s.clone())),
        Primitive::Int(i) => Some(Json::Number(number_of_signed(*i))),
        Primitive::Counter(i) => Some(Json::Number(number_of_signed(*i))),
        Primitive::Timestamp(i) => Some(Json::Number(number_of_signed(*i))),
        Primitive::Uint(u) => Some(Json::Number(JsonNumber::PosInt(*u))),
        Primitive::F64(bits) => {
            if is_finite_f64(*bits) {
                Some(Json::Number(JsonNumber::Float(*bits)))
            } else {
                None
            }
        },
        Primitive::Boolean(b) => Some(Json::Bool(*b)),
        Primitive::Null => Some(Json::Null),
        Primitive::Bytes(bytes) => {
            let mut items: Vec<Json> = Vec::new();
            let mut i: usize = 0;
            while i < bytes.len()
                invariant
                    i <= bytes.len(),
                    items.len() == i,
                    forall|j: int|
                        0 <= j < i ==> #[trigger] items@[j] == Json::Number(
                            JsonNumber::PosInt(bytes@[j] as u64),
                        ),
                decreases bytes.len() - i,
            {
                items.push(Json::Number(JsonNumber::PosInt(bytes[i] as u64)));
                i += 1;
            }
            Some(Json::Array(items))
        },
        Primitive::F32(_) => None,
        Primitive::Cursor(_) => None,
    }
}

/// Decodes a tree as JSON, where it has a JSON form.
pub fn json_from_automerge(value: &Value) -> (result: Option<Json>)
    ensures
        match result {
            Some(json) => has_json(value@) && json_of(value@, json),
            None => !has_json(value@),
        },
    decreases value,
{
    match value {
        Value::Mapping(_, node) => {
            let ghost entries = node.entries();
            proof {
                use_type_invariant(node);
            }
            let mut members: Vec<(String, Json)> = Vec::new();
            let mut i: usize = 0;
            while i < node.len()
                invariant
                    i <= entries.len(),
                    entries == node.entries(),
                    distinct_keys(entries),
                    value is Mapping,
                    value->Mapping_1 == *node,
                    value@ == Tree::Mapping(value->Mapping_0, node@),
                    members.len() == i,
                    forall|j: int| 0 <= j < i ==> (#[trigger] members@[j]).0@ == entries[j].0@,
                    forall|j: int| 0 <= j < i ==> has_json(tree_of((#[trigger] entries[j]).1)),
                    members_of(node@, members@, i as nat),
                decreases entries.len() - i,
            {
                let key = node.key_at(i);
                let below = node.value_at(i);
                proof {
                    node.lemma_entries_decrease();
                    assert(decreases_to!(*value => value->Mapping_1));
                    assert(decreases_to!(entries => entries[i as int]));
                    assert(decreases_to!(entries[i as int] => entries[i as int].1));
                    lemma_key_index(entries, i as int);
                }
                match json_from_automerge(below) {
                    Some(member) => {
                        let ghost before = members@;
                        members.push((key.clone(), member));
                        proof {
                            lemma_members_of_extends(node@, before, members@, i as nat);
                            assert forall|j: int| 0 <= j < i implies (#[trigger] members@[j]).0@
                                != members@[i as int].0@ by {
                                assert(entries[j].0@ != entries[i as int].0@);
                            }
                        }
                    },
                    None => {
                        proof {
                            lemma_entries_tree_finite(entries);
                            lemma_mapping_decreases(value@, entries[i as int].0@);
                            assert(!has_json(node@[entries[i as int].0@]));
                        }
                        return None;
                    },
                }
                i += 1;
            }
            proof {
                assert forall|key: Seq<char>| #[trigger] node@.dom().contains(key) implies has_json(
                    node@[key],
                ) by {
                    lemma_key_found(entries, key);
                    let at = key_index(entries, key);
                    assert(has_json(tree_of(entries[at].1)));
                }
                assert forall|key: Seq<char>| #[trigger] node@.dom().contains(key) implies exists|
                    j: int,
                | 0 <= j < members@.len() && (#[trigger] members@[j]).0@ == key by {
                    lemma_key_found(entries, key);
                    let at = key_index(entries, key);
                    assert(members@[at].0@ == key);
                }
            }
            let json = Json::Object(members);
            assert(has_json(value@));
            assert(json_of(value@, json));
            Some(json)
        },
        Value::List(list) => {
            let mut items: Vec<Json> = Vec::new();
            let mut i: usize = 0;
            while i < list.len()
                invariant
                    i <= list.len(),
                    items.len() == i,
                    value is List,
                    value->List_0 == *list,
                    value@ == Tree::List(crate::value::items_tree(list@)),
                    forall|j: int| 0 <= j < i ==> has_json((#[trigger] list@[j])@),
                    items_of(crate::value::items_tree(list@), items@, i as nat),
                decreases list.len() - i,
            {
                proof {
                    assert(decreases_to!(*value => value->List_0));
                    vstd::std_specs::vec::axiom_vec_index_decreases(*list, i as int);
                }
                match json_from_automerge(&list[i]) {
                    Some(item) => {
                        let ghost before = items@;
                        items.push(item);
                        proof {
                            lemma_items_of_extends(
                                crate::value::items_tree(list@),
                                before,
                                items@,
                                i as nat,
                            );
                        }
                    },
                    None => {
                        assert(!has_json(value@->List_0[i as int]));
                        return None;
                    },
                }
                i += 1;
            }
            proof {
                assert forall|j: int| 0 <= j < value@->List_0.len() implies has_json(
                    #[trigger] value@->List_0[j],
                ) by {
                    assert(has_json(list@[j]@));
                }
            }
            let json = Json::Array(items);
            assert(has_json(value@));
            assert(json_of(value@, json));
            Some(json)
        },
        Value::Text(_) => match text_from_automerge(Some(value)) {
            Ok(text) => {
                let json = Json::String(text);
                assert(json_of(value@, json));
                Some(json)
            },
            Err(_) => None,
        },
        Value::Primitive(primitive) => primitive_to_json(primitive),
    }
}

/// Members that are the JSON form of entries stay so when a member is added
/// behind them.
pub proof fn lemma_members_of_extends(
    entries: Map<Seq<char>, Tree>,
    before: Seq<(String, Json)>,
    after: Seq<(String, Json)>,
    n: nat,
)
    requires
        n <= before.len(),
        before.len() <= after.len(),
        forall|j: int| 0 <= j < before.len() ==> #[trigger] after[j] == before[j],
        members_of(entries, before, n),
    ensures
        members_of(entries, after, n),
    decreases n,
{
    if n > 0 {
        lemma_members_of_extends(entries, before, after, (n - 1) as nat);
        assert(after[n - 1] == before[n - 1]);
        assert forall|j: int| 0 <= j < n - 1 implies (#[trigger] after[j]).0@ != after[n - 1].0@ by {
            assert(after[j] == before[j]);
        }
    }
}

/// Items that are the JSON form of trees stay so when an item is added behind
/// them.
pub proof fn lemma_items_of_extends(
    trees: Seq<Tree>,
    before: Seq<Json>,
    after: Seq<Json>,
    n: nat,
)
    requires
        n <= before.len(),
        before.len() <= after.len(),
        forall|j: int| 0 <= j < before.len() ==> #[trigger] after[j] == before[j],
        items_of(trees, before, n),
    ensures
        items_of(trees, after, n),
    decreases n,
{
    if n > 0 && n <= trees.len() {
        lemma_items_of_extends(trees, before, after, (n - 1) as nat);
        assert(after[n - 1] == before[n - 1]);
    }
}

impl FromAutomerge for Json {
    open spec fn decodable(tree: Tree) -> bool {
        has_json(tree)
    }

    open spec fn decodes_to(tree: Tree, decoded: Self) -> bool {
        json_of(tree, decoded)
    }

    open spec fn fails_with(tree: Tree, failure: Failure) -> bool {
        failure == Failure::FailedTryFrom
    }

    fn from_automerge(value: &Value) -> (result: Result<Self, FromAutomergeError>) {
        match json_from_automerge(value) {
            Some(json) => Ok(json),
            None => Err(FromAutomergeError::FailedTryFrom),
        }
    }
}

} // verus!
