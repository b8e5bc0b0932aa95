use std::collections::{BTreeMap, HashMap};
use std::rc::Rc;
use std::sync::Arc;

use automergeable::fields::{
    counter_from_automerge, counter_to_automerge, element_from_automerge, field_from_automerge,
    named_fields, representation_named, representation_of, text_from_automerge, text_to_automerge, timestamp_from_automerge,
    timestamp_to_automerge, unit_variant_to_automerge, unnamed_fields, variant_from_automerge,
    variant_to_automerge, Representation,
};
use automergeable::maps::keyed_from_automerge;
use automergeable::nonzero::{
    nonzero_i128_from_automerge, nonzero_i16_from_automerge, nonzero_i32_from_automerge,
    nonzero_i64_from_automerge, nonzero_i8_from_automerge, nonzero_isize_from_automerge,
    nonzero_u128_from_automerge, nonzero_u16_from_automerge, nonzero_u32_from_automerge,
    nonzero_u64_from_automerge, nonzero_u8_from_automerge, nonzero_usize_from_automerge,
};
use automergeable::{
    FromAutomerge, FromAutomergeError, MapType, Primitive, Text, ToAutomerge, Value, ValueMap,
};

fn plain(entries: Vec<(&str, Value)>) -> Value {
    let mut map = ValueMap::new();
    for (key, value) in entries {
        map.insert(key.to_owned(), value);
    }
    Value::Mapping(MapType::Plain, map)
}

fn string(s: &str) -> Value {
    Value::Primitive(Primitive::Str(s.to_owned()))
}

fn unsigned(u: u64) -> Value {
    Value::Primitive(Primitive::Uint(u))
}

fn signed(i: i64) -> Value {
    Value::Primitive(Primitive::Int(i))
}

fn null() -> Value {
    Value::Primitive(Primitive::Null)
}

fn texts(graphemes: &[&str]) -> Value {
    Value::Text(graphemes.iter().map(|g| (*g).to_owned()).collect())
}

fn wrong(found: &Value, expected: &str) -> FromAutomergeError {
    FromAutomergeError::WrongType {
        found: found.clone(),
        expected: expected.to_owned(),
    }
}

fn fields_of(value: &Value) -> Result<&ValueMap, FromAutomergeError> {
    named_fields(value)
}

fn items_of(value: &Value) -> Result<&Vec<Value>, FromAutomergeError> {
    unnamed_fields(value)
}

#[derive(Debug, Default, Clone, PartialEq)]
struct B {
    inner: u64,
}

impl ToAutomerge for B {
    fn to_automerge(&self) -> Value {
        plain(vec![("inner", self.inner.to_automerge())])
    }
}

impl FromAutomerge for B {
    fn from_automerge(value: &Value) -> Result<Self, FromAutomergeError> {
        let fields = fields_of(value)?;
        Ok(B {
            inner: field_from_automerge(fields, "inner")?,
        })
    }
}

#[derive(Debug, Default, Clone, PartialEq)]
struct Plain {
    list: Vec<String>,
    others: HashMap<String, String>,
    nah: Option<u64>,
    yep: Option<i64>,
    b: B,
}

impl ToAutomerge for Plain {
    fn to_automerge(&self) -> Value {
        plain(vec![
            ("list", self.list.to_automerge()),
            ("others", self.others.to_automerge()),
            ("nah", self.nah.to_automerge()),
            ("yep", self.yep.to_automerge()),
            ("b", self.b.to_automerge()),
        ])
    }
}

impl FromAutomerge for Plain {
    fn from_automerge(value: &Value) -> Result<Self, FromAutomergeError> {
        let fields = fields_of(value)?;
        Ok(Plain {
            list: field_from_automerge(fields, "list")?,
            others: field_from_automerge(fields, "others")?,
            nah: field_from_automerge(fields, "nah")?,
            yep: field_from_automerge(fields, "yep")?,
            b: field_from_automerge(fields, "b")?,
        })
    }
}

#[derive(Debug, Default, Clone, PartialEq)]
struct Tuple(String, Vec<char>);

impl ToAutomerge for Tuple {
    fn to_automerge(&self) -> Value {
        Value::List(vec![text_to_automerge(&self.0), self.1.to_automerge()])
    }
}

impl FromAutomerge for Tuple {
    fn from_automerge(value: &Value) -> Result<Self, FromAutomergeError> {
        let items = items_of(value)?;
        Ok(Tuple(
            text_from_automerge(items.get(0))?,
            element_from_automerge(items, 1)?,
        ))
    }
}

#[derive(Debug, Default, Clone, PartialEq)]
struct Unit;

impl ToAutomerge for Unit {
    fn to_automerge(&self) -> Value {
        ().to_automerge()
    }
}

impl FromAutomerge for Unit {
    fn from_automerge(value: &Value) -> Result<Self, FromAutomergeError> {
        <()>::from_automerge(value).map(|()| Unit)
    }
}

#[derive(Debug, Clone, PartialEq)]
enum En {
    Part1(String, i64),
    Part2,
    Part3 { a: String },
}

impl Default for En {
    fn default() -> Self {
        Self::Part2
    }
}

impl ToAutomerge for En {
    fn to_automerge(&self) -> Value {
        match self {
            En::Part1(text, number) => variant_to_automerge(
                "Part1",
                Value::List(vec![text_to_automerge(text), number.to_automerge()]),
            ),
            En::Part2 => unit_variant_to_automerge("Part2"),
            En::Part3 { a } => variant_to_automerge("Part3", plain(vec![("a", a.to_automerge())])),
        }
    }
}

impl FromAutomerge for En {
    fn from_automerge(value: &Value) -> Result<Self, FromAutomergeError> {
        if let Value::Primitive(Primitive::Str(name)) = value {
            return match name.as_str() {
                "Part2" => Ok(En::Part2),
                _ => Err(wrong(value, "a variant")),
            };
        }
        let (name, fields) = variant_from_automerge(value)?;
        match name.as_str() {
            "Part1" => {
                let items = items_of(fields)?;
                Ok(En::Part1(
                    text_from_automerge(items.get(0))?,
                    element_from_automerge(items, 1)?,
                ))
            }
            "Part3" => {
                let fields = fields_of(fields)?;
                Ok(En::Part3 {
                    a: field_from_automerge(fields, "a")?,
                })
            }
            _ => Err(wrong(value, "a variant")),
        }
    }
}

#[derive(Debug, Default, Clone, PartialEq)]
struct Attributed {
    list: Vec<String>,
    others: HashMap<String, String>,
    nah: Option<u64>,
    yep: Option<i64>,
    some_text: String,
    a_counter: i64,
    a_timestamp: i64,
    b: B,
    tup: Tuple,
    en: En,
    u: Unit,
}

impl ToAutomerge for Attributed {
    fn to_automerge(&self) -> Value {
        plain(vec![
            ("list", self.list.to_automerge()),
            ("others", self.others.to_automerge()),
            ("nah", self.nah.to_automerge()),
            ("yep", self.yep.to_automerge()),
            ("some_text", text_to_automerge(&self.some_text)),
            ("a_counter", counter_to_automerge(self.a_counter)),
            ("a_timestamp", timestamp_to_automerge(self.a_timestamp)),
            ("b", self.b.to_automerge()),
            ("tup", self.tup.to_automerge()),
            ("en", self.en.to_automerge()),
            ("u", self.u.to_automerge()),
        ])
    }
}

impl FromAutomerge for Attributed {
    fn from_automerge(value: &Value) -> Result<Self, FromAutomergeError> {
        let fields = fields_of(value)?;
        Ok(Attributed {
            list: field_from_automerge(fields, "list")?,
            others: field_from_automerge(fields, "others")?,
            nah: field_from_automerge(fields, "nah")?,
            yep: field_from_automerge(fields, "yep")?,
            some_text: text_from_automerge(fields.get("some_text"))?,
            a_counter: counter_from_automerge(fields.get("a_counter"))?,
            a_timestamp: timestamp_from_automerge(fields.get("a_timestamp"))?,
            b: field_from_automerge(fields, "b")?,
            tup: field_from_automerge(fields, "tup")?,
            en: field_from_automerge(fields, "en")?,
            u: field_from_automerge(fields, "u")?,
        })
    }
}

fn attributed() -> Attributed {
    Attributed {
        list: Vec::new(),
        others: HashMap::new(),
        nah: None,
        yep: Some(-234),
        some_text: String::new(),
        a_counter: 0,
        a_timestamp: 0,
        b: B { inner: 2 },
        tup: Tuple("a tuple".to_owned(), vec!['h', 'i']),
        en: En::default(),
        u: Unit,
    }
}

fn a_tuple() -> Value {
    Value::List(vec![
        texts(&["a", " ", "t", "u", "p", "l", "e"]),
        Value::List(vec![string("h"), string("i")]),
    ])
}

#[test]
fn to_automerge() {
    let mut a = Plain {
        list: Vec::new(),
        others: HashMap::new(),
        nah: None,
        yep: Some(-234),
        b: B { inner: 2 },
    };

    a.others.insert("a".into(), "b".into());
    assert_eq!(
        a.to_automerge(),
        plain(vec![
            ("b", plain(vec![("inner", unsigned(2))])),
            ("list", Value::List(vec![])),
            ("nah", null()),
            ("others", plain(vec![("a", string("b"))])),
            ("yep", signed(-234)),
        ])
    );

    a.others.insert("c".into(), "c".into());
    a.yep = None;
    a.b.inner += 1;
    assert_eq!(
        a.to_automerge(),
        plain(vec![
            ("b", plain(vec![("inner", unsigned(3))])),
            ("list", Value::List(vec![])),
            ("nah", null()),
            ("others", plain(vec![("a", string("b")), ("c", string("c"))])),
            ("yep", null()),
        ])
    );
}

#[test]
fn to_automerge_attribute() {
    let mut a = attributed();
    assert_eq!(
        a.to_automerge(),
        plain(vec![
            ("a_counter", Value::Primitive(Primitive::Counter(0))),
            ("a_timestamp", Value::Primitive(Primitive::Timestamp(0))),
            ("b", plain(vec![("inner", unsigned(2))])),
            ("en", string("Part2")),
            ("list", Value::List(vec![])),
            ("nah", null()),
            ("others", plain(vec![])),
            ("some_text", texts(&[])),
            ("tup", a_tuple()),
            ("u", null()),
            ("yep", signed(-234)),
        ])
    );

    a.others.insert("a".into(), "b".into());
    a.some_text.push_str("hi");
    a.en = En::Part1(String::new(), 42);
    assert_eq!(
        a.to_automerge(),
        plain(vec![
            ("a_counter", Value::Primitive(Primitive::Counter(0))),
            ("a_timestamp", Value::Primitive(Primitive::Timestamp(0))),
            ("b", plain(vec![("inner", unsigned(2))])),
            (
                "en",
                plain(vec![("Part1", Value::List(vec![texts(&[]), signed(42)]))])
            ),
            ("list", Value::List(vec![])),
            ("nah", null()),
            ("others", plain(vec![("a", string("b"))])),
            ("some_text", texts(&["h", "i"])),
            ("tup", a_tuple()),
            ("u", null()),
            ("yep", signed(-234)),
        ])
    );

    a.others.insert("c".into(), "c".into());
    a.some_text.push_str(" world");
    a.yep = None;
    a.b.inner += 1;
    a.en = En::Part3 { a: String::new() };
    assert_eq!(
        a.to_automerge(),
        plain(vec![
            ("a_counter", Value::Primitive(Primitive::Counter(0))),
            ("a_timestamp", Value::Primitive(Primitive::Timestamp(0))),
            ("b", plain(vec![("inner", unsigned(3))])),
            (
                "en",
                plain(vec![("Part3", plain(vec![("a", string(""))]))])
            ),
            ("list", Value::List(vec![])),
            ("nah", null()),
            ("others", plain(vec![("a", string("b")), ("c", string("c"))])),
            (
                "some_text",
                texts(&["h", "i", " ", "w", "o", "r", "l", "d"])
            ),
            ("tup", a_tuple()),
            ("u", null()),
            ("yep", null()),
        ])
    );
}

#[derive(Debug, PartialEq)]
struct Single(u64);

impl ToAutomerge for Single {
    fn to_automerge(&self) -> Value {
        self.0.to_automerge()
    }
}

impl FromAutomerge for Single {
    fn from_automerge(value: &Value) -> Result<Self, FromAutomergeError> {
        Ok(Single(u64::from_automerge(value)?))
    }
}

#[derive(Debug, PartialEq)]
struct SingleVec(Vec<u8>);

impl ToAutomerge for SingleVec {
    fn to_automerge(&self) -> Value {
        self.0.to_automerge()
    }
}

impl FromAutomerge for SingleVec {
    fn from_automerge(value: &Value) -> Result<Self, FromAutomergeError> {
        Ok(SingleVec(<Vec<u8>>::from_automerge(value)?))
    }
}

#[derive(Debug, PartialEq)]
struct Double(u64, i64);

impl ToAutomerge for Double {
    fn to_automerge(&self) -> Value {
        Value::List(vec![self.0.to_automerge(), self.1.to_automerge()])
    }
}

impl FromAutomerge for Double {
    fn from_automerge(value: &Value) -> Result<Self, FromAutomergeError> {
        let items = items_of(value)?;
        Ok(Double(
            element_from_automerge(items, 0)?,
            element_from_automerge(items, 1)?,
        ))
    }
}

#[derive(Debug, PartialEq)]
struct Triple(u64, i64, String);

impl ToAutomerge for Triple {
    fn to_automerge(&self) -> Value {
        Value::List(vec![
            self.0.to_automerge(),
            self.1.to_automerge(),
            self.2.to_automerge(),
        ])
    }
}

impl FromAutomerge for Triple {
    fn from_automerge(value: &Value) -> Result<Self, FromAutomergeError> {
        let items = items_of(value)?;
        Ok(Triple(
            element_from_automerge(items, 0)?,
            element_from_automerge(items, 1)?,
            element_from_automerge(items, 2)?,
        ))
    }
}

#[derive(Debug, PartialEq)]
struct Named1 {
    a: u64,
}

impl ToAutomerge for Named1 {
    fn to_automerge(&self) -> Value {
        plain(vec![("a", self.a.to_automerge())])
    }
}

impl FromAutomerge for Named1 {
    fn from_automerge(value: &Value) -> Result<Self, FromAutomergeError> {
        let fields = fields_of(value)?;
        Ok(Named1 {
            a: field_from_automerge(fields, "a")?,
        })
    }
}

#[derive(Debug, PartialEq)]
struct Named2 {
    a: u64,
    b: String,
}

impl ToAutomerge for Named2 {
    fn to_automerge(&self) -> Value {
        plain(vec![
            ("a", self.a.to_automerge()),
            ("b", self.b.to_automerge()),
        ])
    }
}

impl FromAutomerge for Named2 {
    fn from_automerge(value: &Value) -> Result<Self, FromAutomergeError> {
        let fields = fields_of(value)?;
        Ok(Named2 {
            a: field_from_automerge(fields, "a")?,
            b: field_from_automerge(fields, "b")?,
        })
    }
}

#[derive(Debug, PartialEq)]
enum E {
    W { a: i32, b: i32 },
    X(i32, i32),
    Y(i32),
    Z,
}

impl ToAutomerge for E {
    fn to_automerge(&self) -> Value {
        match self {
            E::W { a, b } => variant_to_automerge(
                "W",
                plain(vec![("a", a.to_automerge()), ("b", b.to_automerge())]),
            ),
            E::X(f0, f1) => variant_to_automerge(
                "X",
                Value::List(vec![f0.to_automerge(), f1.to_automerge()]),
            ),
            E::Y(f0) => variant_to_automerge("Y", f0.to_automerge()),
            E::Z => unit_variant_to_automerge("Z"),
        }
    }
}

impl FromAutomerge for E {
    fn from_automerge(value: &Value) -> Result<Self, FromAutomergeError> {
        if let Value::Primitive(Primitive::Str(name)) = value {
            return match name.as_str() {
                "Z" => Ok(E::Z),
                _ => Err(wrong(value, "a variant")),
            };
        }
        let (name, fields) = variant_from_automerge(value)?;
        match name.as_str() {
            "W" => {
                let fields = fields_of(fields)?;
                Ok(E::W {
                    a: field_from_automerge(fields, "a")?,
                    b: field_from_automerge(fields, "b")?,
                })
            }
            "X" => {
                let items = items_of(fields)?;
                Ok(E::X(
                    element_from_automerge(items, 0)?,
                    element_from_automerge(items, 1)?,
                ))
            }
            "Y" => Ok(E::Y(i32::from_automerge(fields)?)),
            _ => Err(wrong(value, "a variant")),
        }
    }
}

#[derive(Debug, PartialEq)]
enum Names {
    A,
    B,
    C,
}

impl ToAutomerge for Names {
    fn to_automerge(&self) -> Value {
        match self {
            Names::A => unit_variant_to_automerge("A"),
            Names::B => unit_variant_to_automerge("B"),
            Names::C => unit_variant_to_automerge("C"),
        }
    }
}

impl FromAutomerge for Names {
    fn from_automerge(value: &Value) -> Result<Self, FromAutomergeError> {
        match String::from_automerge(value)?.as_str() {
            "A" => Ok(Names::A),
            "B" => Ok(Names::B),
            "C" => Ok(Names::C),
            _ => Err(wrong(value, "a variant")),
        }
    }
}

#[derive(Debug, PartialEq)]
struct Generic1<T> {
    inner: T,
}

impl<T: ToAutomerge> ToAutomerge for Generic1<T> {
    fn to_automerge(&self) -> Value {
        plain(vec![("inner", self.inner.to_automerge())])
    }
}

impl<T: FromAutomerge + Default> FromAutomerge for Generic1<T> {
    fn from_automerge(value: &Value) -> Result<Self, FromAutomergeError> {
        let fields = fields_of(value)?;
        Ok(Generic1 {
            inner: field_from_automerge(fields, "inner")?,
        })
    }
}

#[derive(Debug, PartialEq)]
enum GenericEnum1<T> {
    C(T),
}

impl<T: ToAutomerge> ToAutomerge for GenericEnum1<T> {
    fn to_automerge(&self) -> Value {
        match self {
            GenericEnum1::C(f0) => variant_to_automerge("C", f0.to_automerge()),
        }
    }
}

impl<T: FromAutomerge> FromAutomerge for GenericEnum1<T> {
    fn from_automerge(value: &Value) -> Result<Self, FromAutomergeError> {
        let (name, fields) = variant_from_automerge(value)?;
        match name.as_str() {
            "C" => Ok(GenericEnum1::C(T::from_automerge(fields)?)),
            _ => Err(wrong(value, "a variant")),
        }
    }
}

#[derive(Debug, PartialEq)]
struct Generic2<T, U> {
    inner: T,
    outer: U,
}

impl<T: ToAutomerge, U: ToAutomerge> ToAutomerge for Generic2<T, U> {
    fn to_automerge(&self) -> Value {
        plain(vec![
            ("inner", self.inner.to_automerge()),
            ("outer", self.outer.to_automerge()),
        ])
    }
}

impl<T: FromAutomerge + Default, U: FromAutomerge + Default> FromAutomerge for Generic2<T, U> {
    fn from_automerge(value: &Value) -> Result<Self, FromAutomergeError> {
        let fields = fields_of(value)?;
        Ok(Generic2 {
            inner: field_from_automerge(fields, "inner")?,
            outer: field_from_automerge(fields, "outer")?,
        })
    }
}

#[derive(Debug, PartialEq)]
enum GenericEnum2<T, U> {
    C(T),
    D(U),
}

impl<T: ToAutomerge, U: ToAutomerge> ToAutomerge for GenericEnum2<T, U> {
    fn to_automerge(&self) -> Value {
        match self {
            GenericEnum2::C(f0) => variant_to_automerge("C", f0.to_automerge()),
            GenericEnum2::D(f0) => variant_to_automerge("D", f0.to_automerge()),
        }
    }
}

impl<T: FromAutomerge, U: FromAutomerge> FromAutomerge for GenericEnum2<T, U> {
    fn from_automerge(value: &Value) -> Result<Self, FromAutomergeError> {
        let (name, fields) = variant_from_automerge(value)?;
        match name.as_str() {
            "C" => Ok(GenericEnum2::C(T::from_automerge(fields)?)),
            "D" => Ok(GenericEnum2::D(U::from_automerge(fields)?)),
            _ => Err(wrong(value, "a variant")),
        }
    }
}

#[test]
fn to_automerge_unit_struct() {
    assert_eq!(null(), Unit.to_automerge());
}

#[test]
fn to_automerge_tuple_struct_1() {
    assert_eq!(unsigned(1), Single(1).to_automerge());
}

#[test]
fn to_automerge_tuple_struct_2() {
    assert_eq!(
        Value::List(vec![unsigned(1), signed(-2)]),
        Double(1, -2).to_automerge()
    );
}

#[test]
fn to_automerge_tuple_struct_3() {
    assert_eq!(
        Value::List(vec![unsigned(1), signed(-2), string("")]),
        Triple(1, -2, String::new()).to_automerge()
    );
}

#[test]
fn to_automerge_struct_1() {
    assert_eq!(plain(vec![("a", unsigned(1))]), Named1 { a: 1 }.to_automerge());
}

#[test]
fn to_automerge_struct_2() {
    assert_eq!(
        plain(vec![("a", unsigned(1)), ("b", string(""))]),
        Named2 {
            a: 1,
            b: String::new()
        }
        .to_automerge()
    );
}

#[test]
fn to_automerge_enum_multi() {
    assert_eq!(
        plain(vec![("W", plain(vec![("a", signed(0)), ("b", signed(1))]))]),
        E::W { a: 0, b: 1 }.to_automerge()
    );
    assert_eq!(
        plain(vec![("X", Value::List(vec![signed(0), signed(1)]))]),
        E::X(0, 1).to_automerge()
    );
    assert_eq!(plain(vec![("Y", signed(0))]), E::Y(0).to_automerge());
    assert_eq!(string("Z"), E::Z.to_automerge());
}

#[test]
fn to_automerge_enum_names() {
    assert_eq!(string("A"), Names::A.to_automerge());
    assert_eq!(string("B"), Names::B.to_automerge());
    assert_eq!(string("C"), Names::C.to_automerge());
}

#[test]
fn to_automerge_single_generics() {
    assert_eq!(
        plain(vec![("inner", unsigned(0))]),
        Generic1 { inner: 0u32 }.to_automerge()
    );
    assert_eq!(
        plain(vec![("C", unsigned(0))]),
        GenericEnum1::C(0u32).to_automerge()
    );
}

#[test]
fn to_automerge_multi_generics() {
    assert_eq!(
        plain(vec![("inner", unsigned(0)), ("outer", string(""))]),
        Generic2 {
            inner: 0u32,
            outer: String::new()
        }
        .to_automerge()
    );
    assert_eq!(
        plain(vec![("C", unsigned(0))]),
        GenericEnum2::<u32, String>::C(0u32).to_automerge()
    );
    assert_eq!(
        plain(vec![("D", string(""))]),
        GenericEnum2::<u32, String>::D(String::new()).to_automerge()
    );
}

#[test]
fn from_automerge() {
    let mut a = Plain {
        list: Vec::new(),
        others: HashMap::new(),
        nah: None,
        yep: Some(-234),
        b: B { inner: 2 },
    };
    assert_eq!(Plain::from_automerge(&a.to_automerge()).ok(), Some(a.clone()));

    a.others.insert("a".to_owned(), "b".to_owned());
    assert_eq!(Plain::from_automerge(&a.to_automerge()).ok(), Some(a.clone()));

    a.others.insert("c".to_owned(), "c".to_owned());
    a.yep = None;
    a.b.inner += 1;
    let decoded = Plain::from_automerge(&a.to_automerge()).ok().unwrap();
    assert_eq!(decoded.list, Vec::<String>::new());
    assert_eq!(decoded.others.len(), 2);
    assert_eq!(decoded.others.get("a"), Some(&"b".to_owned()));
    assert_eq!(decoded.others.get("c"), Some(&"c".to_owned()));
    assert_eq!(decoded.nah, None);
    assert_eq!(decoded.yep, None);
    assert_eq!(decoded.b.inner, 3);
}

#[test]
fn from_automerge_attribute() {
    let mut a = attributed();
    assert_eq!(
        Attributed::from_automerge(&a.to_automerge()).ok(),
        Some(a.clone())
    );

    a.others.insert("a".to_owned(), "b".to_owned());
    a.some_text.push_str("hi");
    a.a_counter += 2;
    a.en = En::Part1(String::new(), 42);
    let decoded = Attributed::from_automerge(&a.to_automerge()).ok().unwrap();
    assert_eq!(decoded.some_text, "hi");
    assert_eq!(decoded.a_counter, 2);
    assert_eq!(decoded.en, En::Part1(String::new(), 42));
    assert_eq!(decoded, a);

    a.others.insert("c".to_owned(), "c".to_owned());
    a.some_text.push_str(" world");
    a.yep = None;
    a.b.inner += 1;
    a.a_timestamp += 60;
    a.en = En::Part3 { a: String::new() };
    let decoded = Attributed::from_automerge(&a.to_automerge()).ok().unwrap();
    assert_eq!(decoded.some_text, "hi world");
    assert_eq!(decoded.a_timestamp, 60);
    assert_eq!(decoded.tup, Tuple("a tuple".to_owned(), vec!['h', 'i']));
    assert_eq!(decoded.en, En::Part3 { a: String::new() });
    assert_eq!(decoded, a);
}

#[test]
fn from_automerge_unit_struct() {
    assert_eq!(Unit, Unit::from_automerge(&Unit.to_automerge()).unwrap());
}

#[test]
fn from_automerge_tuple_struct_1() {
    assert_eq!(
        Single(1),
        Single::from_automerge(&Single(1).to_automerge()).unwrap()
    );
    assert_eq!(
        SingleVec(vec![1]),
        SingleVec::from_automerge(&SingleVec(vec![1]).to_automerge()).unwrap()
    );
}

#[test]
fn from_automerge_tuple_struct_2() {
    assert_eq!(
        Double(1, -2),
        Double::from_automerge(&Double(1, -2).to_automerge()).unwrap()
    );
}

#[test]
fn from_automerge_tuple_struct_3() {
    assert_eq!(
        Triple(1, -2, String::new()),
        Triple::from_automerge(&Triple(1, -2, String::new()).to_automerge()).unwrap()
    );
}

#[test]
fn from_automerge_struct_1() {
    assert_eq!(
        Named1 { a: 1 },
        Named1::from_automerge(&Named1 { a: 1 }.to_automerge()).unwrap()
    );
}

#[test]
fn from_automerge_struct_2() {
    assert_eq!(
        Named2 {
            a: 1,
            b: String::new()
        },
        Named2::from_automerge(
            &Named2 {
                a: 1,
                b: String::new()
            }
            .to_automerge()
        )
        .unwrap()
    );
}

#[test]
fn from_automerge_enum_multi() {
    assert_eq!(
        E::W { a: 0, b: 1 },
        E::from_automerge(&E::W { a: 0, b: 1 }.to_automerge()).unwrap()
    );
    assert_eq!(
        E::X(0, 1),
        E::from_automerge(&E::X(0, 1).to_automerge()).unwrap()
    );
    assert_eq!(E::Y(0), E::from_automerge(&E::Y(0).to_automerge()).unwrap());
    assert_eq!(E::Z, E::from_automerge(&E::Z.to_automerge()).unwrap());
}

#[test]
fn from_automerge_enum_names() {
    assert_eq!(
        Names::A,
        Names::from_automerge(&Names::A.to_automerge()).unwrap()
    );
    assert_eq!(
        Names::B,
        Names::from_automerge(&Names::B.to_automerge()).unwrap()
    );
    assert_eq!(
        Names::C,
        Names::from_automerge(&Names::C.to_automerge()).unwrap()
    );
}

#[test]
fn from_automerge_single_generics() {
    assert_eq!(
        Generic1 { inner: 0u32 },
        Generic1::from_automerge(&Generic1 { inner: 0u32 }.to_automerge()).unwrap()
    );
    assert_eq!(
        GenericEnum1::C(0u32),
        GenericEnum1::from_automerge(&GenericEnum1::C(0u32).to_automerge()).unwrap()
    );
}

#[test]
fn from_automerge_multi_generics() {
    assert_eq!(
        Generic2 {
            inner: 0u32,
            outer: String::new()
        },
        Generic2::from_automerge(
            &Generic2 {
                inner: 0u32,
                outer: String::new()
            }
            .to_automerge()
        )
        .unwrap()
    );
    assert_eq!(
        GenericEnum2::<u32, String>::C(0u32),
        GenericEnum2::from_automerge(&GenericEnum2::<u32, String>::C(0u32).to_automerge())
            .unwrap()
    );
    assert_eq!(
        GenericEnum2::<u32, String>::D(String::new()),
        GenericEnum2::from_automerge(
            &GenericEnum2::<u32, String>::D(String::new()).to_automerge()
        )
        .unwrap()
    );
}

#[test]
fn a_missing_field_decodes_to_its_default() {
    let written_before_the_field_was_added = plain(vec![("a", unsigned(7))]);
    assert_eq!(
        Named2::from_automerge(&written_before_the_field_was_added),
        Ok(Named2 {
            a: 7,
            b: String::new()
        })
    );
    assert_eq!(
        Attributed::from_automerge(&plain(vec![])),
        Ok(Attributed::default())
    );
    assert_eq!(
        Triple::from_automerge(&Value::List(vec![unsigned(4)])),
        Ok(Triple(4, 0, String::new()))
    );
    let fields = ValueMap::new();
    assert_eq!(field_from_automerge::<u64>(&fields, "n"), Ok(0));
    assert_eq!(field_from_automerge::<Option<i64>>(&fields, "n"), Ok(None));
    assert_eq!(counter_from_automerge(fields.get("n")), Ok(0));
    assert_eq!(timestamp_from_automerge(fields.get("n")), Ok(0));
    assert_eq!(text_from_automerge(fields.get("n")), Ok(String::new()));
}

#[test]
fn a_field_of_the_wrong_shape_is_an_error() {
    let tree = plain(vec![("a", string("seven"))]);
    assert_eq!(
        Named1::from_automerge(&tree),
        Err(wrong(&string("seven"), "a primitive uint"))
    );
    assert_eq!(
        counter_from_automerge(Some(&signed(3))),
        Err(wrong(&signed(3), "a primitive counter"))
    );
    assert_eq!(
        timestamp_from_automerge(Some(&signed(3))),
        Err(wrong(&signed(3), "a primitive timestamp"))
    );
    assert_eq!(
        text_from_automerge(Some(&string("abc"))),
        Err(wrong(&string("abc"), "some text"))
    );
    assert_eq!(
        variant_from_automerge(&plain(vec![])),
        Err(wrong(&plain(vec![]), "a map with one entry"))
    );
    assert_eq!(
        variant_from_automerge(&plain(vec![("a", null()), ("b", null())])).is_err(),
        true
    );
}

#[test]
fn counters_and_timestamps() {
    assert_eq!(
        counter_to_automerge(5),
        Value::Primitive(Primitive::Counter(5))
    );
    assert_eq!(
        timestamp_to_automerge(6),
        Value::Primitive(Primitive::Timestamp(6))
    );
    assert_eq!(
        counter_from_automerge(Some(&Value::Primitive(Primitive::Counter(5)))),
        Ok(5)
    );
    assert_eq!(
        timestamp_from_automerge(Some(&Value::Primitive(Primitive::Timestamp(6)))),
        Ok(6)
    );
}

#[test]
fn text_is_split_into_grapheme_clusters() {
    assert_eq!(text_to_automerge("héllo"), texts(&["h", "é", "l", "l", "o"]));
    assert_eq!(
        text_to_automerge("e\u{301}a"),
        texts(&["e\u{301}", "a"])
    );
    assert_eq!(text_to_automerge(""), texts(&[]));
    assert_eq!(
        text_from_automerge(Some(&texts(&["e\u{301}", "a", "bc"]))),
        Ok("e\u{301}abc".to_owned())
    );
}

#[test]
fn scalars_encode_and_decode() {
    assert_eq!(().to_automerge(), null());
    assert_eq!(<()>::from_automerge(&null()), Ok(()));
    assert_eq!(
        <()>::from_automerge(&signed(1)),
        Err(wrong(&signed(1), "a primitive null"))
    );

    assert_eq!("abc".to_owned().to_automerge(), string("abc"));
    assert_eq!(String::from_automerge(&string("abc")), Ok("abc".to_owned()));
    assert_eq!(
        String::from_automerge(&null()),
        Err(wrong(&null(), "a primitive string"))
    );

    assert_eq!('x'.to_automerge(), string("x"));
    assert_eq!('é'.to_automerge(), string("é"));
    assert_eq!(char::from_automerge(&string("x")), Ok('x'));
    assert_eq!(
        char::from_automerge(&string("xy")),
        Err(wrong(&string("xy"), "a primitive string"))
    );
    assert_eq!(
        char::from_automerge(&string("")),
        Err(wrong(&string(""), "a primitive string"))
    );
    assert_eq!(
        char::from_automerge(&signed(1)),
        Err(wrong(&signed(1), "a primitive string"))
    );

    assert_eq!(true.to_automerge(), Value::Primitive(Primitive::Boolean(true)));
    assert_eq!(
        bool::from_automerge(&Value::Primitive(Primitive::Boolean(false))),
        Ok(false)
    );
    assert_eq!(
        bool::from_automerge(&null()),
        Err(wrong(&null(), "a primitive boolean"))
    );
}

#[test]
fn integers_encode_and_decode() {
    assert_eq!((-3i8).to_automerge(), signed(-3));
    assert_eq!((-3i16).to_automerge(), signed(-3));
    assert_eq!((-3i32).to_automerge(), signed(-3));
    assert_eq!((-3i64).to_automerge(), signed(-3));
    assert_eq!((-3isize).to_automerge(), signed(-3));
    assert_eq!(3u8.to_automerge(), unsigned(3));
    assert_eq!(3u16.to_automerge(), unsigned(3));
    assert_eq!(3u32.to_automerge(), unsigned(3));
    assert_eq!(3u64.to_automerge(), unsigned(3));
    assert_eq!(3usize.to_automerge(), unsigned(3));

    assert_eq!(i8::from_automerge(&signed(-3)), Ok(-3));
    assert_eq!(i16::from_automerge(&signed(-3)), Ok(-3));
    assert_eq!(i32::from_automerge(&signed(-3)), Ok(-3));
    assert_eq!(i64::from_automerge(&signed(-3)), Ok(-3));
    assert_eq!(isize::from_automerge(&signed(-3)), Ok(-3));
    assert_eq!(i128::from_automerge(&signed(-3)), Ok(-3));
    assert_eq!(u8::from_automerge(&unsigned(3)), Ok(3));
    assert_eq!(u16::from_automerge(&unsigned(3)), Ok(3));
    assert_eq!(u32::from_automerge(&unsigned(3)), Ok(3));
    assert_eq!(u64::from_automerge(&unsigned(3)), Ok(3));
    assert_eq!(usize::from_automerge(&unsigned(3)), Ok(3));
    assert_eq!(u128::from_automerge(&unsigned(3)), Ok(3));

    assert_eq!(i8::from_automerge(&signed(300)), Ok(300i64 as i8));
    assert_eq!(u8::from_automerge(&unsigned(300)), Ok(44));
    assert_eq!(
        i64::from_automerge(&unsigned(3)),
        Err(wrong(&unsigned(3), "a primitive int"))
    );
    assert_eq!(
        u32::from_automerge(&signed(3)),
        Err(wrong(&signed(3), "a primitive uint"))
    );
}

#[test]
fn options_lists_and_pointers() {
    assert_eq!(Some(3u64).to_automerge(), unsigned(3));
    assert_eq!(None::<u64>.to_automerge(), null());
    assert_eq!(<Option<u64>>::from_automerge(&unsigned(3)), Ok(Some(3)));
    assert_eq!(<Option<u64>>::from_automerge(&null()), Ok(None));
    assert_eq!(
        <Option<u64>>::from_automerge(&signed(3)),
        Err(wrong(&signed(3), "a primitive uint"))
    );

    assert_eq!(
        vec![1u64, 2].to_automerge(),
        Value::List(vec![unsigned(1), unsigned(2)])
    );
    assert_eq!(
        <Vec<u64>>::from_automerge(&Value::List(vec![unsigned(1), unsigned(2)])),
        Ok(vec![1, 2])
    );
    assert_eq!(
        <Vec<u64>>::from_automerge(&Value::List(vec![unsigned(1), signed(2), string("x")])),
        Err(wrong(&signed(2), "a primitive uint"))
    );
    assert_eq!(
        <Vec<u64>>::from_automerge(&unsigned(1)),
        Err(wrong(&unsigned(1), "a list"))
    );

    assert_eq!(Box::new(3u64).to_automerge(), unsigned(3));
    assert_eq!(Rc::new(3u64).to_automerge(), unsigned(3));
    assert_eq!(Arc::new(3u64).to_automerge(), unsigned(3));
    assert_eq!(<Box<u64>>::from_automerge(&unsigned(3)), Ok(Box::new(3)));
    assert_eq!(<Rc<u64>>::from_automerge(&unsigned(3)), Ok(Rc::new(3)));
    assert_eq!(<Arc<u64>>::from_automerge(&unsigned(3)), Ok(Arc::new(3)));

    let tree = plain(vec![("k", texts(&["a"]))]);
    assert_eq!(tree.to_automerge(), tree);
    assert_eq!(Value::from_automerge(&tree), Ok(tree.clone()));

    assert_eq!(
        Text::from_automerge(&texts(&["a", "b"])),
        Ok(Text(vec!["a".to_owned(), "b".to_owned()]))
    );
    assert_eq!(
        Text::from_automerge(&string("ab")),
        Err(wrong(&string("ab"), "some text"))
    );
}

#[test]
fn maps_with_string_keys() {
    let mut hash = HashMap::new();
    hash.insert("one".to_owned(), 1u64);
    hash.insert("two".to_owned(), 2u64);
    hash.insert("three".to_owned(), 3u64);
    let tree = plain(vec![("one", unsigned(1)), ("two", unsigned(2)), ("three", unsigned(3))]);
    assert_eq!(hash.to_automerge(), tree);
    assert_eq!(<HashMap<String, u64>>::from_automerge(&tree), Ok(hash));

    let mut sorted = BTreeMap::new();
    sorted.insert("one".to_owned(), 1u64);
    sorted.insert("two".to_owned(), 2u64);
    assert_eq!(
        sorted.to_automerge(),
        plain(vec![("one", unsigned(1)), ("two", unsigned(2))])
    );
    assert_eq!(
        <BTreeMap<String, u64>>::from_automerge(&plain(vec![
            ("two", unsigned(2)),
            ("one", unsigned(1))
        ])),
        Ok(sorted)
    );

    assert_eq!(
        <HashMap<String, u64>>::from_automerge(&plain(vec![("one", signed(1))])),
        Err(wrong(&signed(1), "a primitive uint"))
    );
    assert_eq!(
        <HashMap<String, u64>>::from_automerge(&unsigned(1)),
        Err(wrong(&unsigned(1), "a map"))
    );
    let mut rows = ValueMap::new();
    rows.insert("one".to_owned(), unsigned(1));
    let table = Value::Mapping(MapType::Table, rows);
    assert_eq!(
        <BTreeMap<String, u64>>::from_automerge(&table),
        Err(wrong(&table, "a map"))
    );
}

#[test]
fn failures_in_words() {
    assert_eq!(
        wrong(&null(), "a list").message(),
        "found the wrong type"
    );
    assert_eq!(
        FromAutomergeError::FailedTryFrom.message(),
        "failed converting from automerge"
    );
    assert_eq!(
        FromAutomergeError::Unknown("disk on fire".to_owned()).message(),
        "unknown error: disk on fire"
    );
}

#[test]
fn the_fields_of_a_struct_are_those_of_an_ordinary_keyed_node() {
    let node = plain(vec![("a", unsigned(1))]);
    assert_eq!(named_fields(&node).unwrap().len(), 1);
    assert_eq!(named_fields(&node).unwrap().get("a"), Some(&unsigned(1)));
    let list = Value::List(vec![unsigned(1)]);
    assert_eq!(named_fields(&list).err(), Some(wrong(&list, "a map")));
    let mut rows = ValueMap::new();
    rows.insert("a".to_owned(), unsigned(1));
    let table = Value::Mapping(MapType::Table, rows);
    assert_eq!(named_fields(&table).err(), Some(wrong(&table, "a map")));
    assert_eq!(named_fields(&null()).err(), Some(wrong(&null(), "a map")));
}

#[test]
fn the_fields_of_a_tuple_struct_are_those_of_a_list() {
    let list = Value::List(vec![unsigned(1), string("b")]);
    assert_eq!(unnamed_fields(&list), Ok(&vec![unsigned(1), string("b")]));
    let node = plain(vec![]);
    assert_eq!(unnamed_fields(&node).err(), Some(wrong(&node, "a list")));
    let text = texts(&["a"]);
    assert_eq!(unnamed_fields(&text).err(), Some(wrong(&text, "a list")));
}

#[test]
fn a_map_with_parsed_keys_is_decoded_entry_by_entry() {
    let node = plain(vec![("1", string("a")), ("2", string("b"))]);
    let decoded = keyed_from_automerge::<u32, String>(&node, vec![Some(1), Some(2)]);
    assert_eq!(decoded, Ok(vec![(1, "a".to_owned()), (2, "b".to_owned())]));
    let empty = keyed_from_automerge::<u32, String>(&plain(vec![]), vec![]);
    assert_eq!(empty, Ok(vec![]));
}

#[test]
fn a_key_that_does_not_parse_fails_the_conversion() {
    let node = plain(vec![("1", string("a")), ("x", string("b"))]);
    let decoded = keyed_from_automerge::<u32, String>(&node, vec![Some(1), None]);
    assert_eq!(decoded, Err(FromAutomergeError::FailedTryFrom));
    let short = keyed_from_automerge::<u32, String>(&node, vec![Some(1)]);
    assert_eq!(short, Err(FromAutomergeError::FailedTryFrom));
    // The key is looked at before the value.
    let both = plain(vec![("x", unsigned(1))]);
    let decoded = keyed_from_automerge::<u32, String>(&both, vec![None]);
    assert_eq!(decoded, Err(FromAutomergeError::FailedTryFrom));
}

#[test]
fn a_value_under_a_parsed_key_that_cannot_be_decoded_gives_its_failure() {
    let node = plain(vec![("1", string("a")), ("2", unsigned(7)), ("x", string("c"))]);
    let decoded = keyed_from_automerge::<u32, String>(&node, vec![Some(1), Some(2), None]);
    assert_eq!(decoded, Err(wrong(&unsigned(7), "a primitive string")));
}

#[test]
fn a_map_with_parsed_keys_is_decoded_from_a_keyed_node_only() {
    let list = Value::List(vec![]);
    let decoded = keyed_from_automerge::<u32, String>(&list, vec![]);
    assert_eq!(decoded, Err(wrong(&list, "a map")));
    let decoded = keyed_from_automerge::<u32, String>(&null(), vec![Some(1)]);
    assert_eq!(decoded, Err(wrong(&null(), "a map")));
}

#[test]
fn an_unsigned_integer_that_is_not_zero_is_decoded() {
    assert_eq!(nonzero_u8_from_automerge(&unsigned(5)), Ok(5));
    assert_eq!(nonzero_u8_from_automerge(&unsigned(257)), Ok(1));
    assert_eq!(nonzero_u16_from_automerge(&unsigned(65537)), Ok(1));
    assert_eq!(nonzero_u32_from_automerge(&unsigned(7)), Ok(7));
    assert_eq!(nonzero_u64_from_automerge(&unsigned(u64::MAX)), Ok(u64::MAX));
    assert_eq!(nonzero_u128_from_automerge(&unsigned(9)), Ok(9));
    assert_eq!(nonzero_usize_from_automerge(&unsigned(3)), Ok(3));
}

#[test]
fn a_signed_integer_that_is_not_zero_is_decoded() {
    assert_eq!(nonzero_i8_from_automerge(&signed(-5)), Ok(-5));
    assert_eq!(nonzero_i8_from_automerge(&signed(257)), Ok(1));
    assert_eq!(nonzero_i16_from_automerge(&signed(-2)), Ok(-2));
    assert_eq!(nonzero_i32_from_automerge(&signed(7)), Ok(7));
    assert_eq!(nonzero_i64_from_automerge(&signed(i64::MIN)), Ok(i64::MIN));
    assert_eq!(nonzero_i128_from_automerge(&signed(-9)), Ok(-9));
    assert_eq!(nonzero_isize_from_automerge(&signed(3)), Ok(3));
}

#[test]
fn zero_is_no_integer_that_is_not_zero() {
    assert_eq!(nonzero_u8_from_automerge(&unsigned(0)), Err(FromAutomergeError::FailedTryFrom));
    assert_eq!(nonzero_u8_from_automerge(&unsigned(256)), Err(FromAutomergeError::FailedTryFrom));
    assert_eq!(nonzero_u16_from_automerge(&unsigned(65536)), Err(FromAutomergeError::FailedTryFrom));
    assert_eq!(nonzero_u32_from_automerge(&unsigned(0)), Err(FromAutomergeError::FailedTryFrom));
    assert_eq!(nonzero_u64_from_automerge(&unsigned(0)), Err(FromAutomergeError::FailedTryFrom));
    assert_eq!(nonzero_u128_from_automerge(&unsigned(0)), Err(FromAutomergeError::FailedTryFrom));
    assert_eq!(nonzero_usize_from_automerge(&unsigned(0)), Err(FromAutomergeError::FailedTryFrom));
    assert_eq!(nonzero_i8_from_automerge(&signed(0)), Err(FromAutomergeError::FailedTryFrom));
    assert_eq!(nonzero_i8_from_automerge(&signed(256)), Err(FromAutomergeError::FailedTryFrom));
    assert_eq!(nonzero_i16_from_automerge(&signed(0)), Err(FromAutomergeError::FailedTryFrom));
    assert_eq!(nonzero_i32_from_automerge(&signed(0)), Err(FromAutomergeError::FailedTryFrom));
    assert_eq!(nonzero_i64_from_automerge(&signed(0)), Err(FromAutomergeError::FailedTryFrom));
    assert_eq!(nonzero_i128_from_automerge(&signed(0)), Err(FromAutomergeError::FailedTryFrom));
    assert_eq!(nonzero_isize_from_automerge(&signed(0)), Err(FromAutomergeError::FailedTryFrom));
}

#[test]
fn an_integer_that_is_not_zero_is_decoded_from_its_own_kind_only() {
    assert_eq!(
        nonzero_u8_from_automerge(&signed(1)),
        Err(wrong(&signed(1), "a primitive uint"))
    );
    assert_eq!(
        nonzero_i64_from_automerge(&unsigned(1)),
        Err(wrong(&unsigned(1), "a primitive int"))
    );
    assert_eq!(
        nonzero_u128_from_automerge(&string("1")),
        Err(wrong(&string("1"), "a primitive uint"))
    );
}

#[test]
fn a_signed_integer_is_cut_to_the_width_of_its_type() {
    let numbers = [
        0i64,
        1,
        -1,
        127,
        128,
        129,
        -128,
        -129,
        255,
        256,
        257,
        -256,
        -257,
        32767,
        32768,
        -32768,
        -32769,
        65535,
        65536,
        65537,
        2147483647,
        2147483648,
        -2147483648,
        -2147483649,
        4294967295,
        4294967296,
        4294967297,
        -4294967297,
        i64::MAX,
        i64::MIN,
        i64::MAX - 1,
        i64::MIN + 1,
    ];
    for i in numbers {
        assert_eq!(i8::from_automerge(&signed(i)), Ok(i as i8));
        assert_eq!(i16::from_automerge(&signed(i)), Ok(i as i16));
        assert_eq!(i32::from_automerge(&signed(i)), Ok(i as i32));
        assert_eq!(i64::from_automerge(&signed(i)), Ok(i));
        assert_eq!(isize::from_automerge(&signed(i)), Ok(i as isize));
        assert_eq!(i128::from_automerge(&signed(i)), Ok(i as i128));
    }
    assert_eq!(i8::from_automerge(&signed(257)), Ok(1));
    assert_eq!(i8::from_automerge(&signed(128)), Ok(-128));
    assert_eq!(i8::from_automerge(&signed(-129)), Ok(127));
    assert_eq!(i16::from_automerge(&signed(32768)), Ok(-32768));
    assert_eq!(i32::from_automerge(&signed(4294967297)), Ok(1));
}

#[test]
fn an_unsigned_integer_is_cut_to_the_width_of_its_type() {
    let numbers = [
        0u64,
        1,
        255,
        256,
        257,
        65535,
        65536,
        65537,
        4294967295,
        4294967296,
        4294967297,
        u64::MAX,
        u64::MAX - 1,
    ];
    for u in numbers {
        assert_eq!(u8::from_automerge(&unsigned(u)), Ok(u as u8));
        assert_eq!(u16::from_automerge(&unsigned(u)), Ok(u as u16));
        assert_eq!(u32::from_automerge(&unsigned(u)), Ok(u as u32));
        assert_eq!(u64::from_automerge(&unsigned(u)), Ok(u));
        assert_eq!(usize::from_automerge(&unsigned(u)), Ok(u as usize));
        assert_eq!(u128::from_automerge(&unsigned(u)), Ok(u as u128));
    }
    assert_eq!(u8::from_automerge(&unsigned(257)), Ok(1));
    assert_eq!(u16::from_automerge(&unsigned(65536)), Ok(0));
    assert_eq!(u32::from_automerge(&unsigned(u64::MAX)), Ok(u32::MAX));
}

#[test]
fn a_field_names_its_representation() {
    assert_eq!(representation_of(Some("text")), Representation::Text);
    assert_eq!(representation_of(Some("counter")), Representation::Counter);
    assert_eq!(representation_of(Some("timestamp")), Representation::Timestamp);
    assert_eq!(representation_of(None), Representation::Plain);
    assert_eq!(representation_of(Some("")), Representation::Plain);
    assert_eq!(representation_of(Some("texts")), Representation::Plain);
    assert_eq!(representation_of(Some("bytes")), Representation::Plain);
}

#[test]
fn a_representation_is_named_in_any_case() {
    assert_eq!(representation_of(Some("Text")), Representation::Text);
    assert_eq!(representation_of(Some("TEXT")), Representation::Text);
    assert_eq!(representation_of(Some("Counter")), Representation::Counter);
    assert_eq!(representation_of(Some("TimeStamp")), Representation::Timestamp);
    assert_eq!(representation_named("text"), Representation::Text);
    assert_eq!(representation_named("counter"), Representation::Counter);
    assert_eq!(representation_named("timestamp"), Representation::Timestamp);
    assert_eq!(representation_named("Text"), Representation::Plain);
    assert_eq!(representation_named(""), Representation::Plain);
}
