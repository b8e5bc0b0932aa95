//! Encoding and decoding maps.
//!
//! A `HashMap` or `BTreeMap` whose keys are strings is an ordinary keyed node
//! with one entry per key. The two collections are entered and left through
//! four trusted functions that list a map's entries and build a map from
//! a list of entries; everything between is verified.
//!
//! A map whose keys are of another type that is parsed from a string is
//! decoded by [`keyed_from_automerge`], which takes what each key was parsed
//! to and gives the entries of the map.
use std::collections::BTreeMap;
use std::collections::HashMap;
use vstd::prelude::*;
use crate::decode::{Failure, FromAutomerge, FromAutomergeError, wrong_type, wrong_type_error};
use crate::encode::ToAutomerge;
use crate::value::{
    MapType,
    Tree,
    Value,
    ValueMap,
    distinct_keys,
    key_index,
    lemma_key_found,
    lemma_key_index,
    tree_of,
};

verus! {

/// The contents of a map with string keys, with each key taken as its
/// sequence of characters.
pub open spec fn by_characters<V>(contents: Map<String, V>) -> Map<Seq<char>, V> {
    Map::new(
        |key: Seq<char>| exists|k: String| #[trigger] contents.dom().contains(k) && k@ == key,
        |key: Seq<char>|
            contents[choose|k: String| #[trigger] contents.dom().contains(k) && k@ == key],
    )
}

/// The list holds exactly the entries of `contents`, each key once.
pub open spec fn lists<V>(entries: Seq<(Seq<char>, V)>, contents: Map<Seq<char>, V>) -> bool {
    &&& forall|i: int, j: int|
        0 <= i < j < entries.len() ==> (#[trigger] entries[i]).0 != (#[trigger] entries[j]).0
    &&& forall|i: int|
        0 <= i < entries.len() ==> contents.dom().contains((#[trigger] entries[i]).0)
            && contents[entries[i].0] == entries[i].1
    &&& forall|key: Seq<char>| #[trigger]
        contents.dom().contains(key) ==> listed(entries, entries.len(), key)
}

/// One of the first `n` entries has the key `key`.
pub open spec fn listed<V>(entries: Seq<(Seq<char>, V)>, n: nat, key: Seq<char>) -> bool {
    exists|i: int| 0 <= i < n && i < entries.len() && (#[trigger] entries[i]).0 == key
}

/// The entries that a list of borrowed entries stands for.
pub open spec fn borrowed<V>(entries: Seq<(&String, &V)>) -> Seq<(Seq<char>, V)> {
    Seq::new(entries.len(), |i: int| (entries[i].0@, *entries[i].1))
}

/// The entries that a list of owned entries stands for.
pub open spec fn owned<V>(entries: Seq<(String, V)>) -> Seq<(Seq<char>, V)> {
    Seq::new(entries.len(), |i: int| (entries[i].0@, entries[i].1))
}

/// The entries of a hash map, in the order in which the map yields them.
///
/// Trusted: calls `HashMap::iter` of the standard library, which visits every
/// key-value pair of the map once, in an order that is not specified, and
/// collects the pairs into a vector.
#[verifier::external_body]
pub(crate) fn hash_map_entries<'a, V>(map: &'a HashMap<String, V>) -> (entries: Vec<
    (&'a String, &'a V),
>)
    ensures
        lists(borrowed(entries@), by_characters(map@)),
{
    map.iter().collect()
}

/// The hash map that holds the given entries, whose keys are distinct.
///
/// Trusted: collects the entries into a `HashMap` through the standard
/// library's `FromIterator`, which inserts them one by one.
#[verifier::external_body]
pub(crate) fn hash_map_from_entries<V>(entries: Vec<(String, V)>) -> (map: HashMap<String, V>)
    requires
        forall|i: int, j: int|
            0 <= i < j < entries@.len() ==> (#[trigger] entries@[i]).0@ != (
            #[trigger] entries@[j]).0@,
    ensures
        lists(owned(entries@), by_characters(map@)),
{
    entries.into_iter().collect()
}

/// The entries of a B-tree map, in the order of their keys.
///
/// Trusted: calls `BTreeMap::iter` of the standard library, which visits every
/// key-value pair of the map once, and collects the pairs into a vector. The
/// contract does not speak of their order.
#[verifier::external_body]
pub(crate) fn btree_map_entries<'a, V>(map: &'a BTreeMap<String, V>) -> (entries: Vec<
    (&'a String, &'a V),
>)
    ensures
        lists(borrowed(entries@), by_characters(map@)),
{
    map.iter().collect()
}

/// The B-tree map that holds the given entries, whose keys are distinct.
///
/// Trusted: collects the entries into a `BTreeMap` through the standard
/// library's `FromIterator`, which inserts them one by one.
#[verifier::external_body]
pub(crate) fn btree_map_from_entries<V>(entries: Vec<(String, V)>) -> (map: BTreeMap<String, V>)
    requires
        forall|i: int, j: int|
            0 <= i < j < entries@.len() ==> (#[trigger] entries@[i]).0@ != (
            #[trigger] entries@[j]).0@,
    ensures
        lists(owned(entries@), by_characters(map@)),
{
    entries.into_iter().collect()
}

/// The tree of each value of a map, under the value's key.
pub open spec fn encoded_contents<V: ToAutomerge>(contents: Map<Seq<char>, V>) -> Map<
    Seq<char>,
    Tree,
> {
    Map::new(|key: Seq<char>| contents.dom().contains(key), |key: Seq<char>| contents[key].encoded())
}

/// Encodes the entries of a map as the entries of a keyed node.
fn encode_entries<V: ToAutomerge>(
    entries: &Vec<(&String, &V)>,
    Ghost(contents): Ghost<Map<Seq<char>, V>>,
) -> (node: ValueMap)
    requires
        lists(borrowed(entries@), contents),
    ensures
        node@ == encoded_contents(contents),
{
    let ghost pairs = borrowed(entries@);
    let mut node = ValueMap::new();
    let mut i: usize = 0;
    while i < entries.len()
        invariant
            i <= entries.len(),
            pairs == borrowed(entries@),
            lists(pairs, contents),
            forall|key: Seq<char>| #[trigger] node@.dom().contains(key) <==> listed(pairs, i as nat, key),
            forall|j: int| 0 <= j < i ==> node@[(#[trigger] pairs[j]).0] == pairs[j].1.encoded(),
        decreases entries.len() - i,
    {
        let key = entries[i].0;
        let value = entries[i].1;
        let ghost before = node@;
        let encoded = value.to_automerge();
        node.insert(key.clone(), encoded);
        proof {
            assert(pairs[i as int] == (key@, *value));
            assert forall|k: Seq<char>| #[trigger] node@.dom().contains(k) <==> listed(
                pairs,
                (i + 1) as nat,
                k,
            ) by {
                if listed(pairs, (i + 1) as nat, k) {
                    let j = choose|j: int|
                        0 <= j < i + 1 && j < pairs.len() && (#[trigger] pairs[j]).0 == k;
                    if j < i {
                        assert(listed(pairs, i as nat, k));
                    }
                }
                if listed(pairs, i as nat, k) {
                    let j = choose|j: int|
                        0 <= j < i && j < pairs.len() && (#[trigger] pairs[j]).0 == k;
                    assert(pairs[j].0 == k);
                }
                if k == key@ {
                    assert(pairs[i as int].0 == k);
                }
            }
            assert forall|j: int| 0 <= j < i + 1 implies node@[(#[trigger] pairs[j]).0]
                == pairs[j].1.encoded() by {
                if j < i {
                    assert(pairs[j].0 != pairs[i as int].0);
                    assert(before[pairs[j].0] == pairs[j].1.encoded());
                }
            }
        }
        i += 1;
    }
    proof {
        assert forall|key: Seq<char>| node@.dom().contains(key) == contents.dom().contains(key) by {
            if node@.dom().contains(key) {
                let j = choose|j: int|
                    0 <= j < pairs.len() && j < pairs.len() && (#[trigger] pairs[j]).0 == key;
                assert(contents.dom().contains(pairs[j].0));
            }
        }
        assert forall|key: Seq<char>| node@.dom().contains(key) implies node@[key]
            == encoded_contents(contents)[key] by {
            let j = choose|j: int|
                0 <= j < pairs.len() && j < pairs.len() && (#[trigger] pairs[j]).0 == key;
            assert(node@[pairs[j].0] == pairs[j].1.encoded());
            assert(contents[pairs[j].0] == pairs[j].1);
        }
        assert(node@ =~= encoded_contents(contents));
    }
    node
}

/// Every value of the keyed node can be decoded as a `V`.
pub open spec fn contents_decodable<V: FromAutomerge>(node: Map<Seq<char>, Tree>) -> bool {
    forall|key: Seq<char>| #[trigger] node.dom().contains(key) ==> V::decodable(node[key])
}

/// `contents` has the keys of the keyed node and, under each, what the node's
/// value decodes to.
pub open spec fn contents_decode_to<V: FromAutomerge>(
    node: Map<Seq<char>, Tree>,
    contents: Map<Seq<char>, V>,
) -> bool {
    &&& contents.dom() == node.dom()
    &&& forall|key: Seq<char>| #[trigger]
        node.dom().contains(key) ==> V::decodes_to(node[key], contents[key])
}

/// `failure` is the failure of a value of the keyed node that cannot be
/// decoded as a `V`.
pub open spec fn contents_fail_with<V: FromAutomerge>(
    node: Map<Seq<char>, Tree>,
    failure: Failure,
) -> bool {
    exists|key: Seq<char>| #[trigger]
        node.dom().contains(key) && !V::decodable(node[key]) && V::fails_with(node[key], failure)
}

/// The tree is an ordinary keyed node.
pub open spec fn is_plain_mapping(tree: Tree) -> bool {
    tree is Mapping && tree->Mapping_0 == MapType::Plain
}

/// Decodes the entries of a keyed node, in the order in which the node holds
/// them. The first value that cannot be decoded gives the failure.
fn decode_entries<V: FromAutomerge>(node: &ValueMap) -> (result: Result<
    Vec<(String, V)>,
    FromAutomergeError,
>)
    ensures
        match result {
            Ok(entries) => {
                &&& contents_decodable::<V>(node@)
                &&& forall|i: int, j: int|
                    0 <= i < j < entries@.len() ==> (#[trigger] entries@[i]).0@ != (
                    #[trigger] entries@[j]).0@
                &&& forall|contents: Map<Seq<char>, V>| #[trigger]
                    lists(owned(entries@), contents) ==> contents_decode_to::<V>(node@, contents)
            },
            Err(error) => !contents_decodable::<V>(node@) && contents_fail_with::<V>(
                node@,
                error@,
            ),
        },
{
    let ghost source = node.entries();
    proof {
        use_type_invariant(node);
    }
    let mut entries: Vec<(String, V)> = Vec::new();
    let mut i: usize = 0;
    while i < node.len()
        invariant
            i <= source.len(),
            source == node.entries(),
            distinct_keys(source),
            entries.len() == i,
            forall|j: int| 0 <= j < i ==> (#[trigger] entries@[j]).0@ == source[j].0@,
            forall|j: int|
                0 <= j < i ==> V::decodable(tree_of((#[trigger] source[j]).1)) && V::decodes_to(
                    tree_of(source[j].1),
                    entries@[j].1,
                ),
        decreases source.len() - i,
    {
        let key = node.key_at(i);
        let value = node.value_at(i);
        match V::from_automerge(value) {
            Ok(decoded) => {
                entries.push((key.clone(), decoded));
            },
            Err(error) => {
                proof {
                    lemma_key_index(source, i as int);
                    assert(node@.dom().contains(source[i as int].0@));
                }
                return Err(error);
            },
        }
        i += 1;
    }
    proof {
        assert forall|key: Seq<char>| #[trigger] node@.dom().contains(key) implies V::decodable(
            node@[key],
        ) by {
            lemma_key_found(source, key);
            let at = key_index(source, key);
            assert(V::decodable(tree_of(source[at].1)));
        }
        assert forall|a: int, b: int| 0 <= a < b < entries@.len() implies (
        #[trigger] entries@[a]).0@ != (#[trigger] entries@[b]).0@ by {
            assert(entries@[a].0@ == source[a].0@);
            assert(entries@[b].0@ == source[b].0@);
        }
        assert forall|contents: Map<Seq<char>, V>| #[trigger]
            lists(owned(entries@), contents) implies contents_decode_to::<V>(node@, contents) by {
            let pairs = owned(entries@);
            assert forall|key: Seq<char>| contents.dom().contains(key) == node@.dom().contains(
                key,
            ) by {
                if contents.dom().contains(key) {
                    let j = choose|j: int|
                        0 <= j < pairs.len() && j < pairs.len() && (#[trigger] pairs[j]).0
                            == key;
                    assert(entries@[j].0@ == source[j].0@);
                    lemma_key_index(source, j);
                }
                if node@.dom().contains(key) {
                    lemma_key_found(source, key);
                    let at = key_index(source, key);
                    assert(entries@[at].0@ == source[at].0@);
                    assert(contents.dom().contains(pairs[at].0));
                }
            }
            assert(contents.dom() =~= node@.dom());
            assert forall|key: Seq<char>| #[trigger] node@.dom().contains(key) implies V::decodes_to(
                node@[key],
                contents[key],
            ) by {
                lemma_key_found(source, key);
                let at = key_index(source, key);
                assert(entries@[at].0@ == source[at].0@);
                assert(contents[pairs[at].0] == pairs[at].1);
                assert(V::decodes_to(tree_of(source[at].1), entries@[at].1));
            }
        }
    }
    Ok(entries)
}

/// The first `n` entries of a keyed node are decoded in `decoded`: each with
/// what its key was parsed to and what its value decodes to.
pub open spec fn keyed_decoded<K, V: FromAutomerge>(
    entries: Seq<(String, Value)>,
    keys: Seq<Option<K>>,
    decoded: Seq<(K, V)>,
    n: int,
) -> bool {
    &&& n <= entries.len()
    &&& n <= keys.len()
    &&& n <= decoded.len()
    &&& forall|i: int|
        0 <= i < n ==> keys[i] == Some((#[trigger] decoded[i]).0) && V::decodable(
            tree_of(entries[i].1),
        ) && V::decodes_to(tree_of(entries[i].1), decoded[i].1)
}

/// The entry at `i` is the first of a keyed node that fails, and fails with
/// `failure`: its key was not parsed, which is a failed conversion, or its
/// value cannot be decoded as a `V`.
pub open spec fn keyed_fails_at<K, V: FromAutomerge>(
    entries: Seq<(String, Value)>,
    keys: Seq<Option<K>>,
    i: int,
    failure: Failure,
) -> bool {
    &&& 0 <= i < entries.len()
    &&& forall|j: int|
        0 <= j < i ==> j < keys.len() && (#[trigger] keys[j]) is Some && V::decodable(
            tree_of(entries[j].1),
        )
    &&& if i < keys.len() && keys[i] is Some {
        !V::decodable(tree_of(entries[i].1)) && V::fails_with(tree_of(entries[i].1), failure)
    } else {
        failure == Failure::FailedTryFrom
    }
}

/// The items of a list in the opposite order.
fn reversed<T>(items: Vec<T>) -> (turned: Vec<T>)
    ensures
        turned@ == items@.reverse(),
{
    let ghost given = items@;
    let mut items = items;
    let mut turned: Vec<T> = Vec::new();
    while items.len() > 0
        invariant
            items@.len() + turned@.len() == given.len(),
            items@ == given.subrange(0, items@.len() as int),
            forall|j: int| 0 <= j < turned@.len() ==> turned@[j] == given[given.len() - 1 - j],
        decreases items.len(),
    {
        match items.pop() {
            Some(item) => turned.push(item),
            None => {},
        }
    }
    assert(turned@ =~= given.reverse());
    turned
}

/// Decodes a keyed node into a list of entries whose keys are of a type that
/// is parsed from a string. `keys` holds, for each entry of the node in the
/// node's order, what the entry's key was parsed to, or `None` where it is
/// no such key.
///
/// A value that is no ordinary keyed node is of the wrong type. Otherwise the
/// entries are taken in order: the first whose key was not parsed fails the
/// conversion, the first whose value cannot be decoded gives its failure.
pub fn keyed_from_automerge<K, V: FromAutomerge>(value: &Value, keys: Vec<Option<K>>) -> (result:
    Result<Vec<(K, V)>, FromAutomergeError>)
    ensures
        match result {
            Ok(decoded) => is_plain_mapping(value@) && decoded@.len()
                == value->Mapping_1.entries().len() && keyed_decoded::<K, V>(
                value->Mapping_1.entries(),
                keys@,
                decoded@,
                decoded@.len() as int,
            ),
            Err(error) => if is_plain_mapping(value@) {
                exists|i: int| #[trigger]
                    keyed_fails_at::<K, V>(value->Mapping_1.entries(), keys@, i, error@)
            } else {
                error@ == wrong_type(value@, "a map"@)
            },
        },
{
    match value {
        Value::Mapping(MapType::Plain, node) => {
            let ghost source = node.entries();
            let ghost parsed = keys@;
            let mut rest = reversed(keys);
            let mut decoded: Vec<(K, V)> = Vec::new();
            let mut i: usize = 0;
            while i < node.len()
                invariant
                    i <= source.len(),
                    source == node.entries(),
                    is_plain_mapping(value@),
                    value->Mapping_1 == *node,
                    parsed == keys@,
                    decoded@.len() == i,
                    i <= parsed.len() || rest@.len() == 0,
                    i <= parsed.len() ==> rest@ == parsed.reverse().subrange(
                        0,
                        parsed.len() - i,
                    ),
                    keyed_decoded::<K, V>(source, parsed, decoded@, i as int),
                decreases source.len() - i,
            {
                let element = node.value_at(i);
                let ghost before = decoded@;
                assert forall|j: int| 0 <= j < i implies j < parsed.len() && (
                #[trigger] parsed[j]) is Some && V::decodable(tree_of(source[j].1)) by {
                    assert(parsed[j] == Some(before[j].0));
                }
                match rest.pop() {
                    Some(Some(key)) => match V::from_automerge(element) {
                        Ok(item) => {
                            decoded.push((key, item));
                            assert(parsed[i as int] == Some(key));
                            assert forall|j: int| 0 <= j < i + 1 implies parsed[j] == Some(
                                (#[trigger] decoded@[j]).0,
                            ) && V::decodable(tree_of(source[j].1)) && V::decodes_to(
                                tree_of(source[j].1),
                                decoded@[j].1,
                            ) by {
                                if j < i {
                                    assert(decoded@[j] == before[j]);
                                }
                            }
                        },
                        Err(error) => {
                            assert(parsed[i as int] == Some(key));
                            assert(keyed_fails_at::<K, V>(source, parsed, i as int, error@));
                            return Err(error);
                        },
                    },
                    _ => {
                        let error = FromAutomergeError::FailedTryFrom;
                        assert(keyed_fails_at::<K, V>(source, parsed, i as int, error@));
                        return Err(error);
                    },
                }
                i += 1;
            }
            Ok(decoded)
        },
        _ => Err(wrong_type_error(value, "a map")),
    }
}

impl<V: ToAutomerge> ToAutomerge for HashMap<String, V> {
    open spec fn encoded(&self) -> Tree {
        Tree::Mapping(MapType::Plain, encoded_contents(by_characters(self@)))
    }

    fn to_automerge(&self) -> (value: Value) {
        let entries = hash_map_entries(self);
        Value::Mapping(MapType::Plain, encode_entries(&entries, Ghost(by_characters(self@))))
    }
}

impl<V: ToAutomerge> ToAutomerge for BTreeMap<String, V> {
    open spec fn encoded(&self) -> Tree {
        Tree::Mapping(MapType::Plain, encoded_contents(by_characters(self@)))
    }

    fn to_automerge(&self) -> (value: Value) {
        let entries = btree_map_entries(self);
        Value::Mapping(MapType::Plain, encode_entries(&entries, Ghost(by_characters(self@))))
    }
}

impl<V: FromAutomerge> FromAutomerge for HashMap<String, V> {
    open spec fn decodable(tree: Tree) -> bool {
        is_plain_mapping(tree) && contents_decodable::<V>(tree->Mapping_1)
    }

    open spec fn decodes_to(tree: Tree, decoded: Self) -> bool {
        is_plain_mapping(tree) && contents_decode_to::<V>(
            tree->Mapping_1,
            by_characters(decoded@),
        )
    }

    open spec fn fails_with(tree: Tree, failure: Failure) -> bool {
        if is_plain_mapping(tree) {
            contents_fail_with::<V>(tree->Mapping_1, failure)
        } else {
            failure == wrong_type(tree, "a map"@)
        }
    }

    fn from_automerge(value: &Value) -> (result: Result<Self, FromAutomergeError>) {
        match value {
            Value::Mapping(MapType::Plain, node) => match decode_entries::<V>(node) {
                Ok(entries) => Ok(hash_map_from_entries(entries)),
                Err(error) => Err(error),
            },
            _ => Err(wrong_type_error(value, "a map")),
        }
    }
}

impl<V: FromAutomerge> FromAutomerge for BTreeMap<String, V> {
    open spec fn decodable(tree: Tree) -> bool {
        is_plain_mapping(tree) && contents_decodable::<V>(tree->Mapping_1)
    }

    open spec fn decodes_to(tree: Tree, decoded: Self) -> bool {
        is_plain_mapping(tree) && contents_decode_to::<V>(
            tree->Mapping_1,
            by_characters(decoded@),
        )
    }

    open spec fn fails_with(tree: Tree, failure: Failure) -> bool {
        if is_plain_mapping(tree) {
            contents_fail_with::<V>(tree->Mapping_1, failure)
        } else {
            failure == wrong_type(tree, "a map"@)
        }
    }

    fn from_automerge(value: &Value) -> (result: Result<Self, FromAutomergeError>) {
        match value {
            Value::Mapping(MapType::Plain, node) => match decode_entries::<V>(node) {
                Ok(entries) => Ok(btree_map_from_entries(entries)),
                Err(error) => Err(error),
            },
            _ => Err(wrong_type_error(value, "a map")),
        }
    }
}

} // verus!
