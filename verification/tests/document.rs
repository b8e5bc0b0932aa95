use std::collections::HashMap;

use automergeable::document::decode_root;
use automergeable::fields::{
    counter_from_automerge, counter_to_automerge, field_from_automerge, text_from_automerge,
    text_to_automerge, timestamp_from_automerge, timestamp_to_automerge,
};
use automergeable::{
    diff_values, ApplyPatchError, Document, DocumentChangeError, FromAutomerge,
    FromAutomergeError, Frontend, InvalidChangeRequest, LocalChange, LocalOperation, MapType, Path,
    PathElement, Primitive, ToAutomerge, Value, ValueMap,
};

fn plain(entries: Vec<(&str, Value)>) -> Value {
    let mut map = ValueMap::new();
    for (key, value) in entries {
        map.insert(key.to_owned(), value);
    }
    Value::Mapping(MapType::Plain, map)
}

fn string(s: &str) -> Value {
    Value::Primitive(Primitive::Str(s.to_owned()))
}

fn null() -> Value {
    Value::Primitive(Primitive::Null)
}

fn counter(n: i64) -> Value {
    Value::Primitive(Primitive::Counter(n))
}

fn no_such_path(path: &Path) -> InvalidChangeRequest {
    InvalidChangeRequest::NoSuchPathError { path: path.clone() }
}

/// What a backend does with one change, on plain trees.
fn apply_at(
    tree: &Value,
    path: &Path,
    depth: usize,
    operation: &LocalOperation,
) -> Result<Value, InvalidChangeRequest> {
    if depth == path.len() {
        return match operation {
            LocalOperation::Put(value) => match tree {
                Value::Primitive(Primitive::Counter(_)) => {
                    Err(InvalidChangeRequest::CannotOverwriteCounter { path: path.clone() })
                }
                _ => Ok(value.clone()),
            },
            LocalOperation::Increment(by) => match tree {
                Value::Primitive(Primitive::Counter(count)) => match count.checked_add(*by) {
                    Some(sum) => Ok(counter(sum)),
                    None => Err(no_such_path(path)),
                },
                _ => Err(InvalidChangeRequest::IncrementForNonCounterObject { path: path.clone() }),
            },
            LocalOperation::Delete => Err(InvalidChangeRequest::CannotDeleteRootObject),
            LocalOperation::Insert(_) => {
                Err(InvalidChangeRequest::InsertWithNonSequencePath { path: path.clone() })
            }
        };
    }
    let last = depth + 1 == path.len();
    match (tree, path.element(depth)) {
        (Value::Mapping(kind, entries), PathElement::Key(key)) => {
            let mut entries = entries.clone();
            match operation {
                LocalOperation::Delete if last => {
                    if entries.remove(key.as_str()).is_none() {
                        return Err(no_such_path(path));
                    }
                }
                LocalOperation::Insert(_) if last => {
                    return Err(InvalidChangeRequest::InsertForNonSequenceObject {
                        path: path.clone(),
                    })
                }
                LocalOperation::Put(value) if last && !entries.contains_key(key.as_str()) => {
                    entries.insert(key.clone(), value.clone());
                }
                _ => {
                    let below = match entries.get(key.as_str()) {
                        Some(below) => below.clone(),
                        None => return Err(no_such_path(path)),
                    };
                    let changed = apply_at(&below, path, depth + 1, operation)?;
                    entries.insert(key.clone(), changed);
                }
            }
            Ok(Value::Mapping(*kind, entries))
        }
        (Value::List(items), PathElement::Index(index)) => {
            let mut items = items.clone();
            match operation {
                LocalOperation::Delete if last => {
                    if *index >= items.len() {
                        return Err(no_such_path(path));
                    }
                    items.remove(*index);
                }
                LocalOperation::Insert(value) if last => {
                    if *index > items.len() {
                        return Err(no_such_path(path));
                    }
                    items.insert(*index, value.clone());
                }
                _ => {
                    if *index >= items.len() {
                        return Err(no_such_path(path));
                    }
                    items[*index] = apply_at(&items[*index], path, depth + 1, operation)?;
                }
            }
            Ok(Value::List(items))
        }
        (Value::Text(graphemes), PathElement::Index(index)) => {
            let mut graphemes = graphemes.clone();
            match operation {
                LocalOperation::Delete if last => {
                    if *index >= graphemes.len() {
                        return Err(no_such_path(path));
                    }
                    graphemes.remove(*index);
                }
                LocalOperation::Insert(Value::Primitive(Primitive::Str(grapheme)))
                    if last && *index <= graphemes.len() =>
                {
                    graphemes.insert(*index, grapheme.clone());
                }
                LocalOperation::Put(Value::Primitive(Primitive::Str(grapheme)))
                    if last && *index < graphemes.len() =>
                {
                    graphemes[*index] = grapheme.clone();
                }
                LocalOperation::Insert(value) | LocalOperation::Put(value) if last => {
                    return Err(InvalidChangeRequest::InsertNonTextInTextObject {
                        path: path.clone(),
                        object: value.clone(),
                    })
                }
                _ => return Err(no_such_path(path)),
            }
            Ok(Value::Text(graphemes))
        }
        _ => Err(no_such_path(path)),
    }
}

fn apply_all(tree: &Value, changes: &[LocalChange]) -> Result<Value, InvalidChangeRequest> {
    let mut tree = tree.clone();
    for change in changes {
        tree = apply_at(&tree, change.path(), 0, change.operation())?;
    }
    Ok(tree)
}

fn lookup(tree: &Value, path: &Path) -> Option<Value> {
    let mut here = tree.clone();
    for depth in 0..path.len() {
        here = match (&here, path.element(depth)) {
            (Value::Mapping(_, entries), PathElement::Key(key)) => entries.get(key.as_str())?.clone(),
            (Value::List(items), PathElement::Index(index)) => items.get(*index)?.clone(),
            (Value::Text(graphemes), PathElement::Index(index)) => {
                Value::Primitive(Primitive::Str(graphemes.get(*index)?.clone()))
            }
            _ => return None,
        };
    }
    Some(here)
}

/// A frontend that keeps its document in memory.
#[derive(Debug, Clone, PartialEq)]
struct Memory {
    root: Option<Value>,
    broken: bool,
    messages: Vec<Option<String>>,
    taken: Vec<Vec<LocalChange>>,
}

impl Memory {
    fn new() -> Self {
        Memory::holding(plain(vec![]))
    }

    fn holding(root: Value) -> Self {
        Memory {
            root: Some(root),
            broken: false,
            messages: Vec::new(),
            taken: Vec::new(),
        }
    }
}

impl Frontend for Memory {
    type Error = String;
    type Change = Vec<LocalChange>;
    type Patch = Value;

    fn get_value(&self, path: &Path) -> Result<Option<Value>, String> {
        if self.broken {
            return Err("broken".to_owned());
        }
        Ok(self.root.as_ref().and_then(|root| lookup(root, path)))
    }

    fn change(
        &mut self,
        message: Option<String>,
        changes: Vec<LocalChange>,
    ) -> Result<Option<Vec<LocalChange>>, InvalidChangeRequest> {
        let root = self.root.clone().unwrap_or_else(null);
        let root = apply_all(&root, &changes)?;
        self.messages.push(message);
        self.taken.push(changes.clone());
        if changes.is_empty() {
            return Ok(None);
        }
        self.root = Some(root);
        Ok(Some(changes))
    }

    fn apply_patch(&mut self, patch: Value) -> Result<(), String> {
        if self.broken {
            return Err("broken".to_owned());
        }
        self.root = Some(patch);
        Ok(())
    }
}

/// The other side: it takes what a frontend made of changes and answers with
/// the state that everyone should now have.
struct Backend {
    root: Value,
}

impl Backend {
    fn new() -> Self {
        Backend {
            root: plain(vec![]),
        }
    }

    fn apply_local_change(&mut self, change: Vec<LocalChange>) -> Result<Value, InvalidChangeRequest> {
        self.root = apply_all(&self.root, &change)?;
        Ok(self.root.clone())
    }
}

#[derive(Debug, Clone, Default, PartialEq)]
struct B {
    inner: u64,
}

impl ToAutomerge for B {
    fn to_automerge(&self) -> Value {
        plain(vec![("inner", self.inner.to_automerge())])
    }
}

impl FromAutomerge for B {
    fn from_automerge(value: &Value) -> Result<Self, FromAutomergeError> {
        match value {
            Value::Mapping(MapType::Plain, fields) => Ok(B {
                inner: field_from_automerge(fields, "inner")?,
            }),
            _ => Err(FromAutomergeError::WrongType {
                found: value.clone(),
                expected: "a map".to_owned(),
            }),
        }
    }
}

#[derive(Debug, Clone, Default, PartialEq)]
struct A {
    list: Vec<String>,
    others: HashMap<String, String>,
    nah: Option<u64>,
    yep: Option<i64>,
    some_text: String,
    a_counter: i64,
    a_timestamp: i64,
    b: B,
}

impl ToAutomerge for A {
    fn to_automerge(&self) -> Value {
        plain(vec![
            ("list", self.list.to_automerge()),
            ("others", self.others.to_automerge()),
            ("nah", self.nah.to_automerge()),
            ("yep", self.yep.to_automerge()),
            ("some_text", text_to_automerge(&self.some_text)),
            ("a_counter", counter_to_automerge(self.a_counter)),
            ("a_timestamp", timestamp_to_automerge(self.a_timestamp)),
            ("b", self.b.to_automerge()),
        ])
    }
}

impl FromAutomerge for A {
    fn from_automerge(value: &Value) -> Result<Self, FromAutomergeError> {
        match value {
            Value::Mapping(MapType::Plain, fields) => Ok(A {
                list: field_from_automerge(fields, "list")?,
                others: field_from_automerge(fields, "others")?,
                nah: field_from_automerge(fields, "nah")?,
                yep: field_from_automerge(fields, "yep")?,
                some_text: text_from_automerge(fields.get("some_text"))?,
                a_counter: counter_from_automerge(fields.get("a_counter"))?,
                a_timestamp: timestamp_from_automerge(fields.get("a_timestamp"))?,
                b: field_from_automerge(fields, "b")?,
            }),
            _ => Err(FromAutomergeError::WrongType {
                found: value.clone(),
                expected: "a map".to_owned(),
            }),
        }
    }
}

#[test]
fn create_from_empty() {
    let mut doc = Document::<A, _>::new(Memory::new());

    let mut back = Backend::new();
    let ((), change) = doc
        .change::<_, _, InvalidChangeRequest>(|_t| Ok(()))
        .unwrap();
    if let Some(change) = change {
        let patch = back.apply_local_change(change).unwrap();
        doc.apply_patch(patch).unwrap();
    }
    assert_eq!(doc.get(), &A::default());
    assert_eq!(doc.original(), &A::default().to_automerge());
}

#[test]
fn create_from_empty_then_add_some_fields() {
    let mut doc = Document::<A, _>::new(Memory::new());

    let mut back = Backend::new();
    let ((), change) = doc
        .change::<_, _, InvalidChangeRequest>(|t| {
            t.list.push("hi".to_owned());
            t.others.insert("hellow there".to_owned(), "abc".to_owned());
            Ok(())
        })
        .unwrap();
    if let Some(change) = change {
        let patch = back.apply_local_change(change).unwrap();
        doc.apply_patch(patch).unwrap();
    }
    assert_eq!(doc.get().list, vec!["hi".to_owned()]);
    assert_eq!(doc.get().others.get("hellow there"), Some(&"abc".to_owned()));
}

#[test]
fn create_from_empty_then_add_some_fields_later() {
    let mut doc = Document::<A, _>::new(Memory::new());

    let mut back = Backend::new();
    let ((), change) = doc
        .change::<_, _, InvalidChangeRequest>(|t| {
            t.list.push("hi".to_owned());
            t.others.insert("hellow there".to_owned(), "abc".to_owned());
            Ok(())
        })
        .unwrap();

    if let Some(change) = change {
        let patch = back.apply_local_change(change).unwrap();
        doc.apply_patch(patch).unwrap();
    }

    let ((), change) = doc
        .change::<_, _, InvalidChangeRequest>(|t| {
            t.b.inner += 1;
            Ok(())
        })
        .unwrap();
    assert_eq!(
        change,
        Some(vec![LocalChange::set(
            Path::root().key("b").key("inner"),
            Value::Primitive(Primitive::Uint(1))
        )])
    );

    if let Some(change) = change {
        let patch = back.apply_local_change(change).unwrap();
        doc.apply_patch(patch).unwrap();
    }
    assert_eq!(doc.get().b.inner, 1);
    assert_eq!(doc.get().list, vec!["hi".to_owned()]);
    assert_eq!(doc.original(), &back.root);
}

#[test]
fn a_failed_change_leaves_the_document_untouched() {
    let mut doc = Document::<A, _>::new(Memory::new());
    doc.change::<_, _, String>(|t| {
        t.list.push("kept".to_owned());
        Ok(())
    })
    .unwrap();
    let value = doc.get().clone();
    let original = doc.original().clone();
    let frontend = doc.frontend().clone();

    let result = doc.change::<_, (), String>(|t| {
        t.list.push("lost".to_owned());
        t.b.inner = 99;
        Err("no".to_owned())
    });
    assert_eq!(result, Err(DocumentChangeError::ChangeError("no".to_owned())));
    assert_eq!(doc.get(), &value);
    assert_eq!(doc.original(), &original);
    assert_eq!(doc.frontend(), &frontend);
}

#[test]
fn a_change_that_overwrites_a_counter_leaves_the_document_untouched() {
    let mut doc = Document::<A, _>::new(Memory::new());
    doc.change::<_, _, String>(|t| {
        t.a_counter = 5;
        Ok(())
    })
    .unwrap();
    let value = doc.get().clone();
    let original = doc.original().clone();
    let frontend = doc.frontend().clone();

    let result = doc.change::<_, (), String>(|t| {
        t.a_counter = 4;
        Ok(())
    });
    assert_eq!(
        result,
        Err(DocumentChangeError::InvalidChangeRequest(
            InvalidChangeRequest::CannotOverwriteCounter {
                path: Path::root().key("a_counter")
            }
        ))
    );
    assert_eq!(doc.get(), &value);
    assert_eq!(doc.original(), &original);
    assert_eq!(doc.frontend(), &frontend);

    let (before, _) = doc
        .change::<_, _, String>(|t| {
            let before = t.a_counter;
            t.a_counter += 3;
            Ok(before)
        })
        .unwrap();
    assert_eq!(before, 5);
    assert_eq!(
        doc.frontend().taken.last(),
        Some(&vec![LocalChange::increment_by(
            Path::root().key("a_counter"),
            3
        )])
    );
    assert_eq!(doc.get().a_counter, 8);
}

#[test]
fn a_change_that_the_frontend_refuses_leaves_the_value_untouched() {
    let mut doc = Document::<Value, _>::new(Memory::holding(plain(vec![("n", counter(1))])));
    let value = doc.get().clone();
    let original = doc.original().clone();

    let staged = doc
        .stage_change::<(), String>(plain(vec![("n", counter(1)), ("m", null())]), Ok(()))
        .unwrap();
    assert_eq!(
        staged.changes,
        vec![LocalChange::set(Path::root().key("m"), null())]
    );
    let refusal = InvalidChangeRequest::NoSuchPathError {
        path: Path::root().key("m"),
    };
    let result = doc.finish_change::<(), String>(
        staged.value,
        staged.original,
        staged.output,
        Err(InvalidChangeRequest::NoSuchPathError {
            path: Path::root().key("m"),
        }),
    );
    assert_eq!(result, Err(DocumentChangeError::InvalidChangeRequest(refusal)));
    assert_eq!(doc.get(), &value);
    assert_eq!(doc.original(), &original);
}

#[test]
fn a_change_without_effect_hands_the_frontend_nothing() {
    let mut doc = Document::<Value, _>::new(Memory::holding(plain(vec![("k", string("v"))])));
    let (output, change) = doc.change::<_, _, String>(|_| Ok(7)).unwrap();
    assert_eq!(output, 7);
    assert_eq!(change, None);
    assert_eq!(doc.frontend().taken, vec![Vec::<LocalChange>::new()]);
}

#[test]
fn a_message_reaches_the_frontend() {
    let mut doc = Document::<Value, _>::new(Memory::new());
    doc.change_with_message::<_, _, String>("first".to_owned(), |tree| {
        *tree = plain(vec![("k", string("v"))]);
        Ok(())
    })
    .unwrap();
    doc.change::<_, _, String>(|tree| {
        *tree = plain(vec![("k", string("w"))]);
        Ok(())
    })
    .unwrap();
    assert_eq!(
        doc.frontend().messages,
        vec![Some("first".to_owned()), None]
    );
    assert_eq!(doc.frontend().root, Some(plain(vec![("k", string("w"))])));
    assert_eq!(doc.get(), &plain(vec![("k", string("w"))]));
}

#[test]
fn a_patch_replaces_value_and_tree() {
    let mut doc = Document::<B, _>::new(Memory::new());
    assert_eq!(doc.get(), &B { inner: 0 });
    let patch = plain(vec![("inner", Value::Primitive(Primitive::Uint(9)))]);
    assert_eq!(doc.apply_patch(patch.clone()), Ok(()));
    assert_eq!(doc.get(), &B { inner: 9 });
    assert_eq!(doc.original(), &patch);
}

#[test]
fn a_patch_that_cannot_be_decoded_leaves_the_document_untouched() {
    let mut doc = Document::<B, _>::new(Memory::new());
    doc.change::<_, _, String>(|b| {
        b.inner = 3;
        Ok(())
    })
    .unwrap();
    let value = doc.get().clone();
    let original = doc.original().clone();

    let patch = plain(vec![("inner", string("nine"))]);
    assert_eq!(
        doc.apply_patch(patch),
        Err(ApplyPatchError::FromError(FromAutomergeError::WrongType {
            found: string("nine"),
            expected: "a primitive uint".to_owned()
        }))
    );
    assert_eq!(doc.get(), &value);
    assert_eq!(doc.original(), &original);
}

#[test]
fn a_frontend_that_fails_is_reported() {
    let mut broken = Memory::new();
    broken.broken = true;
    assert_eq!(
        Document::<B, _>::try_new(broken).err(),
        Some(ApplyPatchError::FrontendError("broken".to_owned()))
    );

    let mut empty = Memory::new();
    empty.root = None;
    assert_eq!(
        Document::<B, _>::try_new(empty).err(),
        Some(ApplyPatchError::NoRootValue)
    );

    assert_eq!(
        Document::<B, _>::try_new(Memory::holding(null())).err(),
        Some(ApplyPatchError::FromError(FromAutomergeError::WrongType {
            found: null(),
            expected: "a map".to_owned()
        }))
    );

    assert_eq!(
        decode_root::<B, String>(Ok(Some(plain(vec![])))),
        Ok((B { inner: 0 }, plain(vec![])))
    );
    assert_eq!(
        decode_root::<B, String>(Ok(None)),
        Err(ApplyPatchError::NoRootValue)
    );
    assert_eq!(
        decode_root::<B, String>(Err("down".to_owned())),
        Err(ApplyPatchError::FrontendError("down".to_owned()))
    );
}

#[test]
fn a_reading_that_failed_leaves_the_document_untouched() {
    let mut doc = Document::<B, _>::new(Memory::new());
    let original = doc.original().clone();
    assert_eq!(
        doc.refresh_value(Err("down".to_owned())),
        Err(ApplyPatchError::FrontendError("down".to_owned()))
    );
    assert_eq!(doc.refresh_value(Ok(None)), Err(ApplyPatchError::NoRootValue));
    assert_eq!(doc.get(), &B { inner: 0 });
    assert_eq!(doc.original(), &original);
    let tree = plain(vec![("inner", Value::Primitive(Primitive::Uint(2)))]);
    assert_eq!(doc.refresh_value(Ok(Some(tree.clone()))), Ok(()));
    assert_eq!(doc.get(), &B { inner: 2 });
    assert_eq!(doc.original(), &tree);
}

/// A small source of numbers that gives the same ones on every run.
struct Numbers(u64);

impl Numbers {
    fn next(&mut self) -> u64 {
        self.0 ^= self.0 << 13;
        self.0 ^= self.0 >> 7;
        self.0 ^= self.0 << 17;
        self.0
    }

    fn below(&mut self, bound: u64) -> u64 {
        self.next() % bound
    }

    fn word(&mut self) -> String {
        let letters = ["", "a", "b", "é", "k", "\u{0}", "long key"];
        letters[self.below(letters.len() as u64) as usize].to_owned()
    }

    fn primitive(&mut self) -> Primitive {
        match self.below(10) {
            0 => Primitive::Str(self.word()),
            1 => Primitive::Int(self.next() as i64 >> self.below(64)),
            2 => Primitive::Uint(self.next() >> self.below(64)),
            3 => Primitive::F64(((self.next() as i32) as f64).to_bits()),
            4 => Primitive::Counter(self.next() as i64 >> self.below(64)),
            5 => Primitive::Timestamp(self.next() as i64 >> self.below(64)),
            6 => Primitive::Boolean(self.below(2) == 0),
            7 => Primitive::Bytes((0..self.below(4)).map(|_| self.next() as u8).collect()),
            8 => Primitive::F32(((self.next() as i16) as f32).to_bits()),
            _ => Primitive::Null,
        }
    }

    fn value(&mut self, depth: usize) -> Value {
        let kinds = if depth == 0 { 2 } else { 4 };
        match self.below(kinds) {
            0 => Value::Primitive(self.primitive()),
            1 => Value::Text((0..self.below(4)).map(|_| ["a", "b", "é"][self.below(3) as usize].to_owned()).collect()),
            2 => Value::List((0..self.below(4)).map(|_| self.value(depth - 1)).collect()),
            _ => self.map(depth - 1),
        }
    }

    fn map(&mut self, depth: usize) -> Value {
        let mut entries = ValueMap::new();
        for _ in 0..self.below(4) {
            let key = self.word();
            let value = self.value(depth);
            entries.insert(key, value);
        }
        Value::Mapping(MapType::Plain, entries)
    }
}

#[test]
fn equal_primitives_give_no_diff() {
    let mut numbers = Numbers(0x2545_f491_4f6c_dd1d);
    for _ in 0..5000 {
        let v1 = Value::Primitive(numbers.primitive());
        assert_eq!(diff_values(&v1, &v1), Ok(vec![]));
    }
}

#[test]
fn equal_values_give_no_diff() {
    let mut numbers = Numbers(0x9e37_79b9_7f4a_7c15);
    for _ in 0..2000 {
        let value = numbers.value(3);
        assert_eq!(diff_values(&value, &value), Ok(vec![]));
    }
}

#[test]
fn applying_primitive_diff_result_to_old_gives_new() {
    let mut numbers = Numbers(0xdead_beef_cafe_f00d);
    let mut compared = 0;
    for _ in 0..5000 {
        let v1 = plain(vec![("k", Value::Primitive(numbers.primitive()))]);
        let v2 = plain(vec![("k", Value::Primitive(numbers.primitive()))]);
        let changes = match diff_values(&v1, &v2) {
            Ok(changes) => changes,
            Err(_) => continue,
        };
        compared += 1;
        assert_eq!(apply_all(&v2, &changes), Ok(v1));
    }
    assert!(compared > 4000);
}

#[test]
fn applying_value_diff_result_to_old_gives_new() {
    let mut numbers = Numbers(0x0123_4567_89ab_cdef);
    let mut compared = 0;
    for _ in 0..3000 {
        let v1 = numbers.map(2);
        let v2 = numbers.map(2);
        let changes = match diff_values(&v1, &v2) {
            Ok(changes) => changes,
            Err(_) => continue,
        };
        compared += 1;
        assert_eq!(apply_all(&v2, &changes), Ok(v1));
    }
    assert!(compared > 1000);
}

#[test]
fn broken_reordering_of_values_2() {
    let v1 = plain(vec![(
        "",
        Value::List(vec![Value::Primitive(Primitive::Uint(0)), null()]),
    )]);
    let v2 = plain(vec![("", Value::List(vec![null()]))]);

    let changes = diff_values(&v1, &v2).unwrap();
    assert_eq!(
        changes,
        vec![
            LocalChange::set(
                Path::root().key("").index(0),
                Value::Primitive(Primitive::Uint(0))
            ),
            LocalChange::insert(Path::root().key("").index(1), null()),
        ]
    );
    let mut frontend = Memory::holding(v2);
    assert_eq!(frontend.change(None, changes.clone()), Ok(Some(changes)));
    let val = frontend.get_value(&Path::root()).unwrap().unwrap();
    assert_eq!(val, v1);
}

#[test]
fn save_then_load() {
    let mut numbers = Numbers(0x1357_9bdf_0246_8ace);
    for _ in 0..200 {
        let mut frontend = Memory::holding(null());
        let mut old = null();
        for _ in 0..numbers.below(5) {
            let val = numbers.map(2);
            let changes = match diff_values(&val, &old) {
                Err(InvalidChangeRequest::CannotOverwriteCounter { .. }) => break,
                Err(e) => panic!("failed: {:?}", e),
                Ok(changes) => changes,
            };
            frontend.change(None, changes).unwrap();
            assert_eq!(frontend.root, Some(val.clone()));
            old = val;
        }
    }
}

fn zeros(kinds: &[u8]) -> Value {
    Value::List(
        kinds
            .iter()
            .map(|kind| {
                Value::Primitive(match kind {
                    b's' => Primitive::Str(String::new()),
                    b'c' => Primitive::Counter(0),
                    b'b' => Primitive::Boolean(false),
                    b't' => Primitive::Timestamp(0),
                    b'i' => Primitive::Int(0),
                    b'f' => Primitive::F64(0.0f64.to_bits()),
                    b'u' => Primitive::Uint(0),
                    _ => Primitive::Null,
                })
            })
            .collect(),
    )
}

#[test]
fn broken_save_load() {
    let mut table = ValueMap::new();
    table.insert(
        "".to_owned(),
        Value::Primitive(Primitive::F64(0.0f64.to_bits())),
    );
    let first = plain(vec![
        ("\u{0}\u{0}", zeros(b"scsbtifnunfbffnff")),
        ("\u{2}", zeros(b"nuscs")),
        ("\u{0}", zeros(b"csutiunnfncununsnttucufs")),
        ("", zeros(b"nuinffuftsbcinfnfcb")),
        ("\u{1}", Value::Mapping(MapType::Table, table)),
    ]);
    let vals = vec![first, plain(vec![])];

    let mut frontend = Memory::holding(null());
    let mut old = null();
    for val in vals {
        let changes = diff_values(&val, &old).unwrap();
        frontend.change(None, changes).unwrap();
        assert_eq!(frontend.root, Some(val.clone()));
        old = val;
    }
}

#[test]
fn broken_save_load_2() {
    let values = vec![
        plain(vec![]),
        plain(vec![("a", null())]),
        plain(vec![("", null())]),
        plain(vec![]),
    ];

    let mut frontend = Memory::new();
    for val_pair in values.windows(2) {
        let changes = diff_values(&val_pair[1], &val_pair[0]).unwrap();
        frontend.change(None, changes).unwrap();
        assert_eq!(frontend.root.as_ref(), Some(&val_pair[1]));
    }
}

#[test]
fn brokenx() {
    let new = plain(vec![("", Value::List(vec![null(), counter(0)]))]);
    let old = plain(vec![("", Value::List(vec![null(), counter(1)]))]);

    assert_eq!(
        diff_values(&new, &old),
        Err(InvalidChangeRequest::CannotOverwriteCounter {
            path: Path::root().key("").index(1)
        })
    );

    let changes = diff_values(&old, &new).unwrap();
    assert_eq!(
        changes,
        vec![LocalChange::increment_by(
            Path::root().key("").index(1),
            1
        )]
    );
    let mut frontend = Memory::holding(new);
    frontend.change(None, changes).unwrap();
    assert_eq!(frontend.root, Some(old));
}
