use automergeable::float::{is_finite_f64, is_nan_f32, is_nan_f64, same_f32, same_f64};
use automergeable::inspect::{find_node, Probe};
use automergeable::json::{json_from_automerge, json_to_automerge};
use automergeable::{
    has_cursor, has_empty_text, has_nan, has_table, Cursor, FromAutomerge, FromAutomergeError,
    Json, JsonNumber, LocalChange, LocalOperation, MapType, Path, PathElement, Primitive,
    ToAutomerge, Value, ValueMap,
};

fn plain(entries: Vec<(&str, Value)>) -> Value {
    let mut map = ValueMap::new();
    for (key, value) in entries {
        map.insert(key.to_owned(), value);
    }
    Value::Mapping(MapType::Plain, map)
}

fn string(s: &str) -> Value {
    Value::Primitive(Primitive::Str(s.to_owned()))
}

fn null() -> Value {
    Value::Primitive(Primitive::Null)
}

fn texts(graphemes: &[&str]) -> Value {
    Value::Text(graphemes.iter().map(|g| (*g).to_owned()).collect())
}

fn cursor() -> Value {
    Value::Primitive(Primitive::Cursor(Cursor {
        index: 3,
        object: "1@abc".to_owned(),
        elem_opid: "7@abc".to_owned(),
    }))
}

fn number(f: f64) -> Value {
    Value::Primitive(Primitive::F64(f.to_bits()))
}

fn object(members: Vec<(&str, Json)>) -> Json {
    Json::Object(
        members
            .into_iter()
            .map(|(key, value)| (key.to_owned(), value))
            .collect(),
    )
}

#[test]
fn a_map_holds_each_key_once() {
    let mut map = ValueMap::new();
    assert!(map.is_empty());
    assert_eq!(map.insert("a".to_owned(), string("1")), None);
    assert_eq!(map.insert("b".to_owned(), string("2")), None);
    assert_eq!(map.insert("a".to_owned(), string("3")), Some(string("1")));
    assert_eq!(map.len(), 2);
    assert_eq!(map.key_at(0), "a");
    assert_eq!(map.value_at(0), &string("3"));
    assert_eq!(map.key_at(1), "b");
    assert_eq!(map.position("b"), Some(1));
    assert_eq!(map.position("c"), None);
    assert_eq!(map.get("a"), Some(&string("3")));
    assert_eq!(map.get("c"), None);
    assert!(map.contains_key("b"));
    assert!(!map.contains_key("c"));
    assert_eq!(map.remove("c"), None);
    assert_eq!(map.remove("a"), Some(string("3")));
    assert_eq!(map.len(), 1);
    assert_eq!(map.key_at(0), "b");
    assert!(!map.is_empty());
}

#[test]
fn the_order_of_entries_does_not_count() {
    let a = plain(vec![("x", string("1")), ("y", Value::List(vec![null()]))]);
    let b = plain(vec![("y", Value::List(vec![null()])), ("x", string("1"))]);
    assert_eq!(a, b);
    assert_ne!(a, plain(vec![("x", string("1"))]));
    assert_ne!(plain(vec![("x", string("1"))]), a);
    assert_ne!(a, plain(vec![("x", string("1")), ("y", Value::List(vec![]))]));
    assert_ne!(a, plain(vec![("x", string("1")), ("z", Value::List(vec![null()]))]));
    let mut rows = ValueMap::new();
    rows.insert("x".to_owned(), string("1"));
    assert_ne!(
        Value::Mapping(MapType::Table, rows.clone()),
        Value::Mapping(MapType::Plain, rows.clone())
    );
    assert_ne!(
        Value::Mapping(MapType::Sorted, rows.clone()),
        Value::Mapping(MapType::Plain, rows)
    );
}

#[test]
fn values_of_different_shapes_differ() {
    assert_ne!(texts(&["a"]), Value::List(vec![string("a")]));
    assert_ne!(texts(&["a"]), string("a"));
    assert_ne!(texts(&["a", "b"]), texts(&["a"]));
    assert_ne!(texts(&["a", "b"]), texts(&["a", "c"]));
    assert_eq!(texts(&["a", "b"]), texts(&["a", "b"]));
    assert_ne!(Value::List(vec![null()]), Value::List(vec![null(), null()]));
    assert_ne!(
        Value::Primitive(Primitive::Int(1)),
        Value::Primitive(Primitive::Uint(1))
    );
    assert_ne!(
        Value::Primitive(Primitive::Counter(1)),
        Value::Primitive(Primitive::Int(1))
    );
    assert_ne!(
        Value::Primitive(Primitive::Bytes(vec![1, 2])),
        Value::Primitive(Primitive::Bytes(vec![1, 2, 3]))
    );
    assert_eq!(cursor(), cursor());
    assert_ne!(cursor(), null());
}

#[test]
fn floating_point_numbers_are_compared_as_values() {
    assert_eq!(number(0.0), number(-0.0));
    assert_eq!(number(1.5), number(1.5));
    assert_ne!(number(1.5), number(2.5));
    assert_eq!(number(f64::NAN), number(f64::NAN));
    assert_ne!(number(f64::NAN), number(-f64::NAN));
    assert!(same_f64(0.0f64.to_bits(), (-0.0f64).to_bits()));
    assert!(!same_f64(1.0f64.to_bits(), (-1.0f64).to_bits()));
    assert!(same_f32(0.0f32.to_bits(), (-0.0f32).to_bits()));
    assert!(same_f32(2.5f32.to_bits(), 2.5f32.to_bits()));
    assert!(!same_f32(2.5f32.to_bits(), 3.5f32.to_bits()));
    assert!(is_nan_f64(f64::NAN.to_bits()));
    assert!(!is_nan_f64(f64::INFINITY.to_bits()));
    assert!(!is_nan_f64(1.0f64.to_bits()));
    assert!(is_nan_f32(f32::NAN.to_bits()));
    assert!(!is_nan_f32(f32::NEG_INFINITY.to_bits()));
    assert!(is_finite_f64(f64::MAX.to_bits()));
    assert!(!is_finite_f64(f64::INFINITY.to_bits()));
    assert!(!is_finite_f64(f64::NAN.to_bits()));
}

#[test]
fn copies_are_equal() {
    let tree = plain(vec![
        ("list", Value::List(vec![string("a"), cursor(), number(1.0)])),
        ("text", texts(&["a", "b"])),
        ("bytes", Value::Primitive(Primitive::Bytes(vec![0, 255]))),
    ]);
    assert_eq!(tree.clone(), tree);
    let change = LocalChange::insert(Path::root().key("k").index(2), tree.clone());
    assert_eq!(change.clone(), change);
    assert_eq!(change.path(), &Path::root().key("k").index(2));
    assert_eq!(change.operation(), &LocalOperation::Insert(tree));
}

#[test]
fn paths() {
    let path = Path::root().key("a").index(4);
    assert!(Path::root().is_root());
    assert!(!path.is_root());
    assert_eq!(path.len(), 2);
    assert_eq!(path.element(0), &PathElement::Key("a".to_owned()));
    assert_eq!(path.element(1), &PathElement::Index(4));
    assert_eq!(path.parent(), Path::root().key("a"));
    assert_eq!(Path::root().parent(), Path::root());
    assert_eq!(path.clone(), path);
    assert_eq!(
        LocalChange::increment(Path::root()),
        LocalChange::increment_by(Path::root(), 1)
    );
}

#[test]
fn a_cursor_is_found_at_any_depth() {
    assert!(has_cursor(&cursor()));
    assert!(has_cursor(&plain(vec![("a", Value::List(vec![null(), cursor()]))])));
    assert!(has_cursor(&Value::List(vec![plain(vec![
        ("a", null()),
        ("b", cursor())
    ])])));
    assert!(!has_cursor(&plain(vec![("a", Value::List(vec![null()]))])));
    assert!(!has_cursor(&texts(&["a"])));
    assert!(!has_cursor(&null()));
}

#[test]
fn a_table_is_found_at_any_depth() {
    let table = Value::Mapping(MapType::Table, ValueMap::new());
    assert!(has_table(&table));
    assert!(has_table(&plain(vec![("a", Value::List(vec![
        Value::Mapping(MapType::Table, ValueMap::new())
    ]))])));
    assert!(!has_table(&plain(vec![("a", plain(vec![]))])));
    assert!(!has_table(&Value::Mapping(MapType::Sorted, ValueMap::new())));
    assert!(find_node(&table, Probe::Table));
    assert!(!find_node(&table, Probe::Cursor));
}

#[test]
fn a_text_element_must_be_one_grapheme_cluster() {
    assert!(!has_empty_text(&texts(&["a", "é", "e\u{301}"])));
    assert!(has_empty_text(&texts(&["a", ""])));
    assert!(has_empty_text(&texts(&["ab"])));
    assert!(has_empty_text(&plain(vec![(
        "t",
        Value::List(vec![texts(&["a"]), texts(&[""])])
    )])));
    assert!(!has_empty_text(&plain(vec![("t", texts(&[]))])));
    assert!(!has_empty_text(&string("")));
}

#[test]
fn a_number_that_is_none_is_found_at_any_depth() {
    assert!(has_nan(&number(f64::NAN)));
    assert!(has_nan(&Value::Primitive(Primitive::F32(f32::NAN.to_bits()))));
    assert!(has_nan(&plain(vec![(
        "a",
        Value::List(vec![number(1.0), number(f64::NAN)])
    )])));
    assert!(!has_nan(&number(f64::INFINITY)));
    assert!(!has_nan(&plain(vec![("a", Value::List(vec![number(1.0)]))])));
    assert!(!has_nan(&Value::Primitive(Primitive::F32(1.0f32.to_bits()))));
}

#[test]
fn json_is_encoded_by_shape() {
    let json = object(vec![
        ("null", Json::Null),
        ("flag", Json::Bool(true)),
        ("small", Json::Number(JsonNumber::PosInt(7))),
        ("negative", Json::Number(JsonNumber::NegInt(-7))),
        ("large", Json::Number(JsonNumber::PosInt(u64::MAX))),
        ("limit", Json::Number(JsonNumber::PosInt(i64::MAX as u64))),
        ("beyond", Json::Number(JsonNumber::PosInt(i64::MAX as u64 + 1))),
        ("real", Json::Number(JsonNumber::Float(1.5f64.to_bits()))),
        ("word", Json::String("abc".to_owned())),
        (
            "list",
            Json::Array(vec![Json::Null, object(vec![("k", Json::Bool(false))])]),
        ),
    ]);
    let tree = plain(vec![
        ("null", null()),
        ("flag", Value::Primitive(Primitive::Boolean(true))),
        ("small", Value::Primitive(Primitive::Int(7))),
        ("negative", Value::Primitive(Primitive::Int(-7))),
        ("large", Value::Primitive(Primitive::Uint(u64::MAX))),
        ("limit", Value::Primitive(Primitive::Int(i64::MAX))),
        (
            "beyond",
            Value::Primitive(Primitive::Uint(i64::MAX as u64 + 1)),
        ),
        ("real", number(1.5)),
        ("word", string("abc")),
        (
            "list",
            Value::List(vec![
                null(),
                plain(vec![("k", Value::Primitive(Primitive::Boolean(false)))]),
            ]),
        ),
    ]);
    assert_eq!(json.to_automerge(), tree);
    assert_eq!(json_to_automerge(&json), tree);
}

#[test]
fn a_later_member_counts() {
    let json = object(vec![("k", Json::Null), ("k", Json::Bool(true))]);
    assert_eq!(
        json.to_automerge(),
        plain(vec![("k", Value::Primitive(Primitive::Boolean(true)))])
    );
}

#[test]
fn trees_are_decoded_as_json() {
    let mut rows = ValueMap::new();
    rows.insert("r".to_owned(), null());
    let tree = plain(vec![
        ("table", Value::Mapping(MapType::Table, rows)),
        ("text", texts(&["h", "i"])),
        ("count", Value::Primitive(Primitive::Counter(-2))),
        ("time", Value::Primitive(Primitive::Timestamp(5))),
        ("int", Value::Primitive(Primitive::Int(0))),
        ("uint", Value::Primitive(Primitive::Uint(9))),
        ("real", number(-0.5)),
        ("bytes", Value::Primitive(Primitive::Bytes(vec![1, 255]))),
        ("word", string("w")),
        ("list", Value::List(vec![null()])),
    ]);
    let json = object(vec![
        ("table", object(vec![("r", Json::Null)])),
        ("text", Json::String("hi".to_owned())),
        ("count", Json::Number(JsonNumber::NegInt(-2))),
        ("time", Json::Number(JsonNumber::PosInt(5))),
        ("int", Json::Number(JsonNumber::PosInt(0))),
        ("uint", Json::Number(JsonNumber::PosInt(9))),
        ("real", Json::Number(JsonNumber::Float((-0.5f64).to_bits()))),
        (
            "bytes",
            Json::Array(vec![
                Json::Number(JsonNumber::PosInt(1)),
                Json::Number(JsonNumber::PosInt(255)),
            ]),
        ),
        ("word", Json::String("w".to_owned())),
        ("list", Json::Array(vec![Json::Null])),
    ]);
    assert_eq!(Json::from_automerge(&tree), Ok(json));
}

#[test]
fn some_trees_have_no_json() {
    assert_eq!(json_from_automerge(&cursor()), None);
    assert_eq!(json_from_automerge(&number(f64::NAN)), None);
    assert_eq!(json_from_automerge(&number(f64::INFINITY)), None);
    assert_eq!(
        json_from_automerge(&Value::Primitive(Primitive::F32(1.0f32.to_bits()))),
        None
    );
    assert_eq!(
        Json::from_automerge(&plain(vec![("a", Value::List(vec![null(), cursor()]))])),
        Err(FromAutomergeError::FailedTryFrom)
    );
    assert_eq!(
        Json::from_automerge(&Value::List(vec![plain(vec![("a", number(f64::NAN))])])),
        Err(FromAutomergeError::FailedTryFrom)
    );
}
