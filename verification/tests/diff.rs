use automergeable::{
    diff_values, diff_with_path, InvalidChangeRequest, LocalChange, MapType, Path, Primitive,
    Value, ValueMap,
};

fn string(s: &str) -> Value {
    Value::Primitive(Primitive::Str(s.to_owned()))
}

fn plain(entries: Vec<(&str, Value)>) -> Value {
    let mut map = ValueMap::new();
    for (key, value) in entries {
        map.insert(key.to_owned(), value);
    }
    Value::Mapping(MapType::Plain, map)
}

fn texts(graphemes: &[&str]) -> Value {
    Value::Text(graphemes.iter().map(|g| (*g).to_owned()).collect())
}

fn counter(n: i64) -> Value {
    Value::Primitive(Primitive::Counter(n))
}

fn null() -> Value {
    Value::Primitive(Primitive::Null)
}

#[test]
fn diff_maps() {
    let mut old_map = ValueMap::new();
    let mut new_map = ValueMap::new();

    assert_eq!(
        diff_values(
            &Value::Mapping(MapType::Plain, new_map.clone()),
            &Value::Mapping(MapType::Plain, old_map.clone())
        ),
        Ok(vec![])
    );

    new_map.insert("abc".to_owned(), string("some val"));
    assert_eq!(
        diff_values(
            &Value::Mapping(MapType::Plain, new_map.clone()),
            &Value::Mapping(MapType::Plain, old_map.clone())
        ),
        Ok(vec![LocalChange::set(
            Path::root().key("abc"),
            string("some val")
        )])
    );

    old_map = new_map.clone();
    new_map.insert("abc".to_owned(), string("some newer val"));
    assert_eq!(
        diff_values(
            &Value::Mapping(MapType::Plain, new_map.clone()),
            &Value::Mapping(MapType::Plain, old_map.clone())
        ),
        Ok(vec![LocalChange::set(
            Path::root().key("abc"),
            string("some newer val")
        )])
    );

    old_map = new_map.clone();
    new_map.remove("abc");
    assert_eq!(
        diff_values(
            &Value::Mapping(MapType::Plain, new_map),
            &Value::Mapping(MapType::Plain, old_map)
        ),
        Ok(vec![LocalChange::delete(Path::root().key("abc"))])
    );
}

#[test]
fn diff_vecs() {
    let mut old_vec = Vec::new();
    let mut new_vec = Vec::new();

    assert_eq!(
        diff_values(&Value::List(new_vec.clone()), &Value::List(old_vec.clone())),
        Ok(vec![])
    );

    new_vec.push(string("some val"));
    assert_eq!(
        diff_values(&Value::List(new_vec.clone()), &Value::List(old_vec.clone())),
        Ok(vec![LocalChange::insert(
            Path::root().index(0),
            string("some val")
        )])
    );

    old_vec = new_vec.clone();
    new_vec[0] = string("some newer val");
    assert_eq!(
        diff_values(&Value::List(new_vec.clone()), &Value::List(old_vec.clone())),
        Ok(vec![LocalChange::set(
            Path::root().index(0),
            string("some newer val")
        )])
    );

    old_vec = new_vec.clone();
    new_vec.pop();
    assert_eq!(
        diff_values(&Value::List(new_vec), &Value::List(old_vec)),
        Ok(vec![LocalChange::delete(Path::root().index(0))])
    );
}

#[test]
fn diff_text() {
    let mut old_text: Vec<String> = Vec::new();
    let mut new_text: Vec<String> = Vec::new();

    assert_eq!(
        diff_values(&Value::Text(new_text.clone()), &Value::Text(old_text.clone())),
        Ok(vec![])
    );

    new_text.push("a".to_owned());
    assert_eq!(
        diff_values(&Value::Text(new_text.clone()), &Value::Text(old_text.clone())),
        Ok(vec![LocalChange::insert(Path::root().index(0), string("a"))])
    );

    old_text = new_text.clone();
    new_text[0] = "b".to_owned();
    assert_eq!(
        diff_values(&Value::Text(new_text.clone()), &Value::Text(old_text.clone())),
        Ok(vec![LocalChange::set(Path::root().index(0), string("b"))])
    );

    old_text = new_text.clone();
    new_text.pop();
    assert_eq!(
        diff_values(&Value::Text(new_text), &Value::Text(old_text)),
        Ok(vec![LocalChange::delete(Path::root().index(0))])
    );
}

#[test]
fn new_and_empty() {
    let old = null();
    let new = plain(vec![("a", Value::Primitive(Primitive::Uint(2)))]);

    assert_eq!(
        diff_values(&new, &old),
        Ok(vec![LocalChange::set(
            Path::root(),
            plain(vec![("a", Value::Primitive(Primitive::Uint(2)))])
        )])
    );
}

#[test]
fn empty_and_new() {
    let new = null();
    let old = plain(vec![("a", Value::Primitive(Primitive::Uint(2)))]);

    assert_eq!(
        diff_values(&new, &old),
        Ok(vec![LocalChange::set(Path::root(), null())])
    );
}

#[test]
fn map_entry_added_and_removed() {
    let empty = plain(vec![]);
    let one = plain(vec![("abc", string("x"))]);
    assert_eq!(
        diff_values(&one, &empty),
        Ok(vec![LocalChange::set(Path::root().key("abc"), string("x"))])
    );
    assert_eq!(
        diff_values(&empty, &one),
        Ok(vec![LocalChange::delete(Path::root().key("abc"))])
    );
}

#[test]
fn list_appended_and_truncated() {
    let one = Value::List(vec![Value::Primitive(Primitive::Int(1))]);
    let two = Value::List(vec![
        Value::Primitive(Primitive::Int(1)),
        Value::Primitive(Primitive::Int(2)),
    ]);
    assert_eq!(
        diff_values(&two, &one),
        Ok(vec![LocalChange::insert(
            Path::root().index(1),
            Value::Primitive(Primitive::Int(2))
        )])
    );
    assert_eq!(
        diff_values(&one, &two),
        Ok(vec![LocalChange::delete(Path::root().index(1))])
    );
}

#[test]
fn list_is_truncated_from_the_end() {
    let long = Value::List(vec![string("a"), string("b"), string("c"), string("d")]);
    let short = Value::List(vec![string("a")]);
    assert_eq!(
        diff_values(&short, &long),
        Ok(vec![
            LocalChange::delete(Path::root().index(3)),
            LocalChange::delete(Path::root().index(2)),
            LocalChange::delete(Path::root().index(1)),
        ])
    );
}

#[test]
fn lists_are_compared_by_position() {
    let old = Value::List(vec![string("a"), string("b"), string("c")]);
    let new = Value::List(vec![string("c"), string("a"), string("b")]);
    assert_eq!(
        diff_values(&new, &old),
        Ok(vec![
            LocalChange::set(Path::root().index(0), string("c")),
            LocalChange::set(Path::root().index(1), string("a")),
            LocalChange::set(Path::root().index(2), string("b")),
        ])
    );
}

#[test]
fn text_changes_and_grows() {
    let old = texts(&["a", "b"]);
    let new = texts(&["a", "c", "d"]);
    assert_eq!(
        diff_values(&new, &old),
        Ok(vec![
            LocalChange::set(Path::root().index(1), string("c")),
            LocalChange::insert(Path::root().index(2), string("d")),
        ])
    );
}

#[test]
fn text_and_list_are_different_shapes() {
    let old = texts(&["a"]);
    let new = Value::List(vec![string("a")]);
    assert_eq!(
        diff_values(&new, &old),
        Ok(vec![LocalChange::set(
            Path::root(),
            Value::List(vec![string("a")])
        )])
    );
}

#[test]
fn nested_changes_carry_the_whole_path() {
    let old = plain(vec![(
        "outer",
        Value::List(vec![plain(vec![("inner", string("x"))])]),
    )]);
    let new = plain(vec![(
        "outer",
        Value::List(vec![plain(vec![("inner", string("y"))])]),
    )]);
    assert_eq!(
        diff_values(&new, &old),
        Ok(vec![LocalChange::set(
            Path::root().key("outer").index(0).key("inner"),
            string("y")
        )])
    );
}

#[test]
fn new_entries_come_before_deletions() {
    let old = plain(vec![("gone", string("x")), ("kept", string("y"))]);
    let new = plain(vec![("kept", string("z")), ("fresh", string("w"))]);
    assert_eq!(
        diff_values(&new, &old),
        Ok(vec![
            LocalChange::set(Path::root().key("kept"), string("z")),
            LocalChange::set(Path::root().key("fresh"), string("w")),
            LocalChange::delete(Path::root().key("gone")),
        ])
    );
}

#[test]
fn maps_of_different_kinds_are_replaced() {
    let mut entries = ValueMap::new();
    entries.insert("a".to_owned(), string("x"));
    let old = Value::Mapping(MapType::Plain, entries.clone());
    let new = Value::Mapping(MapType::Table, entries.clone());
    assert_eq!(
        diff_values(&new, &old),
        Ok(vec![LocalChange::set(
            Path::root(),
            Value::Mapping(MapType::Table, entries)
        )])
    );
}

#[test]
fn tables_are_compared_by_key() {
    let mut old_rows = ValueMap::new();
    old_rows.insert("r1".to_owned(), string("x"));
    let mut new_rows = ValueMap::new();
    new_rows.insert("r1".to_owned(), string("y"));
    assert_eq!(
        diff_values(
            &Value::Mapping(MapType::Table, new_rows),
            &Value::Mapping(MapType::Table, old_rows)
        ),
        Ok(vec![LocalChange::set(Path::root().key("r1"), string("y"))])
    );
}

#[test]
fn counter_moves_forward_by_the_difference() {
    assert_eq!(
        diff_values(&counter(7), &counter(3)),
        Ok(vec![LocalChange::increment_by(Path::root(), 4)])
    );
    assert_eq!(diff_values(&counter(3), &counter(3)), Ok(vec![]));
}

#[test]
fn counter_cannot_move_backwards() {
    assert_eq!(
        diff_values(&counter(3), &counter(7)),
        Err(InvalidChangeRequest::CannotOverwriteCounter { path: Path::root() })
    );
}

#[test]
fn counter_difference_must_fit() {
    assert_eq!(
        diff_values(&counter(i64::MAX), &counter(-1)),
        Err(InvalidChangeRequest::CannotOverwriteCounter { path: Path::root() })
    );
    assert_eq!(
        diff_values(&counter(i64::MAX), &counter(0)),
        Ok(vec![LocalChange::increment_by(Path::root(), i64::MAX)])
    );
}

#[test]
fn counter_cannot_be_overwritten() {
    let old = plain(vec![("n", counter(1))]);
    let new = plain(vec![("n", Value::Primitive(Primitive::Int(1)))]);
    assert_eq!(
        diff_values(&new, &old),
        Err(InvalidChangeRequest::CannotOverwriteCounter {
            path: Path::root().key("n")
        })
    );
    let gone = plain(vec![("n", null())]);
    assert_eq!(
        diff_values(&gone, &old),
        Err(InvalidChangeRequest::CannotOverwriteCounter {
            path: Path::root().key("n")
        })
    );
}

#[test]
fn first_failure_wins_and_nothing_else_is_returned() {
    let old = Value::List(vec![string("a"), counter(5), counter(9)]);
    let new = Value::List(vec![string("b"), counter(4), counter(8)]);
    assert_eq!(
        diff_values(&new, &old),
        Err(InvalidChangeRequest::CannotOverwriteCounter {
            path: Path::root().index(1)
        })
    );
}

#[test]
fn scalars_of_one_kind() {
    let pairs = vec![
        (Primitive::Int(1), Primitive::Int(2)),
        (Primitive::Uint(1), Primitive::Uint(2)),
        (Primitive::Timestamp(1), Primitive::Timestamp(2)),
        (Primitive::Boolean(true), Primitive::Boolean(false)),
        (Primitive::Bytes(vec![1, 2]), Primitive::Bytes(vec![1, 3])),
        (
            Primitive::Str("a".to_owned()),
            Primitive::Str("b".to_owned()),
        ),
        (
            Primitive::F64(1.5f64.to_bits()),
            Primitive::F64(2.5f64.to_bits()),
        ),
        (
            Primitive::F32(1.5f32.to_bits()),
            Primitive::F32(2.5f32.to_bits()),
        ),
    ];
    for (new, old) in pairs {
        assert_eq!(
            diff_values(&Value::Primitive(new.clone()), &Value::Primitive(new.clone())),
            Ok(vec![])
        );
        assert_eq!(
            diff_values(&Value::Primitive(new.clone()), &Value::Primitive(old)),
            Ok(vec![LocalChange::set(Path::root(), Value::Primitive(new))])
        );
    }
}

#[test]
fn scalars_of_different_kinds_are_replaced() {
    assert_eq!(
        diff_values(
            &Value::Primitive(Primitive::Int(1)),
            &Value::Primitive(Primitive::Uint(1))
        ),
        Ok(vec![LocalChange::set(
            Path::root(),
            Value::Primitive(Primitive::Int(1))
        )])
    );
    assert_eq!(diff_values(&null(), &null()), Ok(vec![]));
}

#[test]
fn zeros_of_either_sign_are_the_same_value() {
    let plus = Value::Primitive(Primitive::F64(0.0f64.to_bits()));
    let minus = Value::Primitive(Primitive::F64((-0.0f64).to_bits()));
    assert_eq!(diff_values(&minus, &plus), Ok(vec![]));
    let plus = Value::Primitive(Primitive::F32(0.0f32.to_bits()));
    let minus = Value::Primitive(Primitive::F32((-0.0f32).to_bits()));
    assert_eq!(diff_values(&minus, &plus), Ok(vec![]));
}

#[test]
fn a_value_compared_with_itself_needs_no_change() {
    let not_a_number = Value::Primitive(Primitive::F64(f64::NAN.to_bits()));
    let value = plain(vec![
        ("list", Value::List(vec![string("a"), counter(3), not_a_number])),
        ("text", texts(&["a", "b"])),
        ("inner", plain(vec![("k", null())])),
    ]);
    assert_eq!(diff_values(&value, &value), Ok(vec![]));
}

#[test]
fn optional_nodes() {
    let value = string("a");
    assert_eq!(diff_with_path(None, None, Path::root().key("k")), Ok(vec![]));
    assert_eq!(
        diff_with_path(Some(&value), None, Path::root().key("k")),
        Ok(vec![LocalChange::set(Path::root().key("k"), string("a"))])
    );
    assert_eq!(
        diff_with_path(None, Some(&value), Path::root().key("k")),
        Ok(vec![LocalChange::delete(Path::root().key("k"))])
    );
    assert_eq!(
        diff_with_path(Some(&string("b")), Some(&value), Path::root().key("k")),
        Ok(vec![LocalChange::set(Path::root().key("k"), string("b"))])
    );
}

#[test]
fn the_same_value_in_another_order_needs_no_change() {
    let new = plain(vec![
        ("a", string("x")),
        ("b", Value::List(vec![null(), counter(2)])),
        ("c", plain(vec![("d", texts(&["h", "i"])), ("e", null())])),
    ]);
    let old = plain(vec![
        ("c", plain(vec![("e", null()), ("d", texts(&["h", "i"]))])),
        ("b", Value::List(vec![null(), counter(2)])),
        ("a", string("x")),
    ]);
    assert_eq!(new, old);
    assert_eq!(diff_values(&new, &old), Ok(vec![]));
    assert_eq!(diff_values(&old, &new), Ok(vec![]));
}

#[test]
fn values_that_differ_need_a_change() {
    let new = plain(vec![("a", string("x")), ("b", null())]);
    let old = plain(vec![("b", null()), ("a", string("y"))]);
    assert_ne!(new, old);
    assert_ne!(diff_values(&new, &old), Ok(vec![]));
    let shorter = plain(vec![("a", string("x"))]);
    assert_ne!(new, shorter);
    assert_ne!(diff_values(&shorter, &new), Ok(vec![]));
    assert_ne!(diff_values(&new, &shorter), Ok(vec![]));
}
