//! Decoding typed values from value trees.
use std::rc::Rc;
use std::sync::Arc;
use vstd::prelude::*;
use vstd::string::StrSliceExecFns;
use crate::value::{Primitive, Scalar, Tree, Value, clone_strings, items_tree, string_views};

verus! {

/// A failure to decode a typed value from a value tree.
#[derive(Debug, PartialEq)]
pub enum FromAutomergeError {
    /// The tree is of another shape than the type needs.
    WrongType { found: Value, expected: String },
    /// The tree has the right shape, but holds a value that the type lacks.
    FailedTryFrom,
    /// Any other failure, with its message.
    Unknown(String),
}

/// What a [`FromAutomergeError`] stands for.
pub ghost enum Failure {
    WrongType { found: Tree, expected: Seq<char> },
    FailedTryFrom,
    Unknown(Seq<char>),
}

impl View for FromAutomergeError {
    type V = Failure;

    open spec fn view(&self) -> Failure {
        match *self {
            FromAutomergeError::WrongType { found, expected } => Failure::WrongType {
                found: found@,
                expected: expected@,
            },
            FromAutomergeError::FailedTryFrom => Failure::FailedTryFrom,
            FromAutomergeError::Unknown(message) => Failure::Unknown(message@),
        }
    }
}

impl FromAutomergeError {
    /// The failure in words.
    pub fn message(&self) -> (text: String)
        ensures
            text@ == match self@ {
                Failure::WrongType { .. } => "found the wrong type"@,
                Failure::FailedTryFrom => "failed converting from automerge"@,
                Failure::Unknown(message) => "unknown error: "@ + message,
            },
    {
        match self {
            FromAutomergeError::WrongType { .. } => "found the wrong type".to_owned(),
            FromAutomergeError::FailedTryFrom => "failed converting from automerge".to_owned(),
            FromAutomergeError::Unknown(message) => {
                let mut text = "unknown error: ".to_owned();
                vstd::string::StringExecFns::append(&mut text, message.as_str());
                text
            },
        }
    }
}

/// The failure of a tree that has another shape than `expected` names.
pub open spec fn wrong_type(found: Tree, expected: Seq<char>) -> Failure {
    Failure::WrongType { found, expected }
}

/// Reports that `value` has another shape than `expected` names.
pub fn wrong_type_error(value: &Value, expected: &str) -> (error: FromAutomergeError)
    ensures
        error@ == wrong_type(value@, expected@),
{
    FromAutomergeError::WrongType { found: value.clone(), expected: expected.to_owned() }
}

/// A type whose values can be read from a document.
pub trait FromAutomerge: Sized {
    /// The tree can be decoded.
    open spec fn decodable(tree: Tree) -> bool {
        arbitrary()
    }

    /// `decoded` is what the tree, which can be decoded, decodes to.
    open spec fn decodes_to(tree: Tree, decoded: Self) -> bool {
        arbitrary()
    }

    /// `failure` is a failure that the tree, which cannot be decoded, may
    /// give. Where several parts of a tree cannot be decoded, the failure is
    /// that of one of them.
    open spec fn fails_with(tree: Tree, failure: Failure) -> bool {
        arbitrary()
    }

    /// Decodes a value.
    fn from_automerge(value: &Value) -> (result: Result<Self, FromAutomergeError>)
        ensures
            match result {
                Ok(decoded) => Self::decodable(value@) && Self::decodes_to(value@, decoded),
                Err(error) => !Self::decodable(value@) && Self::fails_with(value@, error@),
            },
    ;
}

impl FromAutomerge for Value {
    open spec fn decodable(tree: Tree) -> bool {
        true
    }

    open spec fn decodes_to(tree: Tree, decoded: Self) -> bool {
        decoded@ == tree
    }

    open spec fn fails_with(tree: Tree, failure: Failure) -> bool {
        false
    }

    fn from_automerge(value: &Value) -> (result: Result<Self, FromAutomergeError>) {
        Ok(value.clone())
    }
}

impl FromAutomerge for () {
    open spec fn decodable(tree: Tree) -> bool {
        tree == Tree::Primitive(Scalar::Null)
    }

    open spec fn decodes_to(tree: Tree, decoded: Self) -> bool {
        true
    }

    open spec fn fails_with(tree: Tree, failure: Failure) -> bool {
        failure == wrong_type(tree, "a primitive null"@)
    }

    fn from_automerge(value: &Value) -> (result: Result<Self, FromAutomergeError>) {
        match value {
            Value::Primitive(Primitive::Null) => Ok(()),
            _ => Err(wrong_type_error(value, "a primitive null")),
        }
    }
}

impl FromAutomerge for String {
    open spec fn decodable(tree: Tree) -> bool {
        tree is Primitive && tree->Primitive_0 is Str
    }

    open spec fn decodes_to(tree: Tree, decoded: Self) -> bool {
        tree == Tree::Primitive(Scalar::Str(decoded@))
    }

    open spec fn fails_with(tree: Tree, failure: Failure) -> bool {
        failure == wrong_type(tree, "a primitive string"@)
    }

    fn from_automerge(value: &Value) -> (result: Result<Self, FromAutomergeError>) {
        match value {
            Value::Primitive(Primitive::Str(s)) => Ok(s.clone()),
            _ => Err(wrong_type_error(value, "a primitive string")),
        }
    }
}

impl FromAutomerge for char {
    open spec fn decodable(tree: Tree) -> bool {
        tree is Primitive && tree->Primitive_0 is Str && tree->Primitive_0->Str_0.len() == 1
    }

    open spec fn decodes_to(tree: Tree, decoded: Self) -> bool {
        tree == Tree::Primitive(Scalar::Str(seq![decoded]))
    }

    open spec fn fails_with(tree: Tree, failure: Failure) -> bool {
        failure == wrong_type(tree, "a primitive string"@)
    }

    fn from_automerge(value: &Value) -> (result: Result<Self, FromAutomergeError>) {
        match value {
            Value::Primitive(Primitive::Str(s)) => {
                if s.as_str().unicode_len() == 1 {
                    let c = s.as_str().get_char(0);
                    assert(s@ =~= seq![c]);
                    Ok(c)
                } else {
                    Err(wrong_type_error(value, "a primitive string"))
                }
            },
            _ => Err(wrong_type_error(value, "a primitive string")),
        }
    }
}

/// The first position from `from` on whose tree `T` cannot decode, or the
/// length where there is none.
pub open spec fn first_undecodable<T: FromAutomerge>(items: Seq<Tree>, from: int) -> int
    decreases items.len() - from,
{
    if from < 0 || from >= items.len() {
        items.len() as int
    } else if !T::decodable(items[from]) {
        from
    } else {
        first_undecodable::<T>(items, from + 1)
    }
}

/// Where every tree before `upto` can be decoded, the first that cannot is not
/// before `upto`.
pub proof fn lemma_first_undecodable<T: FromAutomerge>(items: Seq<Tree>, from: int, upto: int)
    requires
        0 <= from <= upto <= items.len(),
        forall|j: int| from <= j < upto ==> T::decodable(#[trigger] items[j]),
    ensures
        first_undecodable::<T>(items, from) == first_undecodable::<T>(items, upto),
    decreases upto - from,
{
    if from < upto {
        lemma_first_undecodable::<T>(items, from + 1, upto);
    }
}

impl<T: FromAutomerge> FromAutomerge for Vec<T> {
    open spec fn decodable(tree: Tree) -> bool {
        tree is List && forall|i: int|
            0 <= i < tree->List_0.len() ==> T::decodable(#[trigger] tree->List_0[i])
    }

    open spec fn decodes_to(tree: Tree, decoded: Self) -> bool {
        &&& tree is List
        &&& decoded@.len() == tree->List_0.len()
        &&& forall|i: int|
            0 <= i < decoded@.len() ==> T::decodes_to(tree->List_0[i], #[trigger] decoded@[i])
    }

    open spec fn fails_with(tree: Tree, failure: Failure) -> bool {
        if tree is List {
            T::fails_with(tree->List_0[first_undecodable::<T>(tree->List_0, 0)], failure)
        } else {
            failure == wrong_type(tree, "a list"@)
        }
    }

    fn from_automerge(value: &Value) -> (result: Result<Self, FromAutomergeError>) {
        match value {
            Value::List(items) => {
                let ghost trees = items_tree(items@);
                let mut decoded: Vec<T> = Vec::new();
                let mut i: usize = 0;
                while i < items.len()
                    invariant
                        i <= items.len(),
                        decoded.len() == i,
                        trees == items_tree(items@),
                        value@ == Tree::List(trees),
                        forall|j: int| 0 <= j < i ==> T::decodable(#[trigger] trees[j]),
                        forall|j: int|
                            0 <= j < i ==> T::decodes_to(trees[j], #[trigger] decoded@[j]),
                    decreases items.len() - i,
                {
                    match T::from_automerge(&items[i]) {
                        Ok(item) => {
                            decoded.push(item);
                        },
                        Err(error) => {
                            proof {
                                lemma_first_undecodable::<T>(trees, 0, i as int);
                                assert(trees[i as int] == items@[i as int]@);
                                assert(!T::decodable(trees[i as int]));
                                assert(first_undecodable::<T>(trees, i as int) == i);
                                assert(value@->List_0 == trees);
                                assert(!T::decodable(value@->List_0[i as int]));
                            }
                            return Err(error);
                        },
                    }
                    i += 1;
                }
                Ok(decoded)
            },
            _ => Err(wrong_type_error(value, "a list")),
        }
    }
}

/// The graphemes of a text of a document.
#[derive(Debug, PartialEq)]
pub struct Text(pub Vec<String>);

impl FromAutomerge for Text {
    open spec fn decodable(tree: Tree) -> bool {
        tree is Text
    }

    open spec fn decodes_to(tree: Tree, decoded: Self) -> bool {
        tree == Tree::Text(string_views(decoded.0@))
    }

    open spec fn fails_with(tree: Tree, failure: Failure) -> bool {
        failure == wrong_type(tree, "some text"@)
    }

    fn from_automerge(value: &Value) -> (result: Result<Self, FromAutomergeError>) {
        match value {
            Value::Text(graphemes) => Ok(Text(clone_strings(graphemes))),
            _ => Err(wrong_type_error(value, "some text")),
        }
    }
}

impl<T: FromAutomerge> FromAutomerge for Option<T> {
    open spec fn decodable(tree: Tree) -> bool {
        tree == Tree::Primitive(Scalar::Null) || T::decodable(tree)
    }

    open spec fn decodes_to(tree: Tree, decoded: Self) -> bool {
        if tree == Tree::Primitive(Scalar::Null) {
            decoded is None
        } else {
            decoded is Some && T::decodes_to(tree, decoded->0)
        }
    }

    open spec fn fails_with(tree: Tree, failure: Failure) -> bool {
        T::fails_with(tree, failure)
    }

    fn from_automerge(value: &Value) -> (result: Result<Self, FromAutomergeError>) {
        match value {
            Value::Primitive(Primitive::Null) => Ok(None),
            _ => match T::from_automerge(value) {
                Ok(inner) => Ok(Some(inner)),
                Err(error) => Err(error),
            },
        }
    }
}

impl FromAutomerge for bool {
    open spec fn decodable(tree: Tree) -> bool {
        tree is Primitive && tree->Primitive_0 is Boolean
    }

    open spec fn decodes_to(tree: Tree, decoded: Self) -> bool {
        tree == Tree::Primitive(Scalar::Boolean(decoded))
    }

    open spec fn fails_with(tree: Tree, failure: Failure) -> bool {
        failure == wrong_type(tree, "a primitive boolean"@)
    }

    fn from_automerge(value: &Value) -> (result: Result<Self, FromAutomergeError>) {
        match value {
            Value::Primitive(Primitive::Boolean(b)) => Ok(*b),
            _ => Err(wrong_type_error(value, "a primitive boolean")),
        }
    }
}

/// The tree is a signed integer scalar.
pub open spec fn is_int(tree: Tree) -> bool {
    tree is Primitive && tree->Primitive_0 is Int
}

/// The tree is an unsigned integer scalar.
pub open spec fn is_uint(tree: Tree) -> bool {
    tree is Primitive && tree->Primitive_0 is Uint
}

/// The number of a signed integer scalar.
pub open spec fn int_of(tree: Tree) -> i64 {
    tree->Primitive_0->Int_0
}

/// The number of an unsigned integer scalar.
pub open spec fn uint_of(tree: Tree) -> u64 {
    tree->Primitive_0->Uint_0
}

/// The number from zero up to, not including, `modulus` that differs from
/// `number` by a multiple of `modulus`: what is left of an unsigned number
/// that is cut to fewer bits.
pub open spec fn wrapped_unsigned(number: int, modulus: int) -> int {
    number % modulus
}

/// The number from `-modulus / 2` up to, not including, `modulus / 2` that
/// differs from `number` by a multiple of `modulus`: what is left of a signed
/// number that is cut to fewer bits.
pub open spec fn wrapped_signed(number: int, modulus: int) -> int {
    if number % modulus >= modulus / 2 {
        number % modulus - modulus
    } else {
        number % modulus
    }
}

/// The number of values of a `usize`.
pub open spec fn usize_modulus() -> int {
    usize::MAX + 1
}

/// The number of values of an `isize`.
pub open spec fn isize_modulus() -> int {
    2 * (isize::MAX + 1)
}

/// A signed number cut to eight bits.
fn cut_to_i8(i: i64) -> (n: i8)
    ensures
        n == wrapped_signed(i as int, 0x100),
{
    let low: u64 = if i >= 0 {
        (i as u64) % 0x100
    } else {
        0xff - ((-(i + 1)) as u64) % 0x100
    };
    if low >= 0x80 {
        (low as i64 - 0x100) as i8
    } else {
        low as i8
    }
}

/// A signed number cut to sixteen bits.
fn cut_to_i16(i: i64) -> (n: i16)
    ensures
        n == wrapped_signed(i as int, 0x1_0000),
{
    let low: u64 = if i >= 0 {
        (i as u64) % 0x1_0000
    } else {
        0xffff - ((-(i + 1)) as u64) % 0x1_0000
    };
    if low >= 0x8000 {
        (low as i64 - 0x1_0000) as i16
    } else {
        low as i16
    }
}

/// A signed number cut to thirty-two bits.
fn cut_to_i32(i: i64) -> (n: i32)
    ensures
        n == wrapped_signed(i as int, 0x1_0000_0000),
{
    let low: u64 = if i >= 0 {
        (i as u64) % 0x1_0000_0000
    } else {
        0xffff_ffff - ((-(i + 1)) as u64) % 0x1_0000_0000
    };
    if low >= 0x8000_0000 {
        (low as i64 - 0x1_0000_0000) as i32
    } else {
        low as i32
    }
}

/// A signed number cut to the machine's width.
fn cut_to_isize(i: i64) -> (n: isize)
    ensures
        n == wrapped_signed(i as int, isize_modulus()),
{
    if isize::MIN as i64 <= i && i <= isize::MAX as i64 {
        proof {
            if i >= 0 {
                vstd::arithmetic::div_mod::lemma_small_mod(i as nat, isize_modulus() as nat);
            } else {
                vstd::arithmetic::div_mod::lemma_small_mod(
                    (i + isize_modulus()) as nat,
                    isize_modulus() as nat,
                );
                vstd::arithmetic::div_mod::lemma_mod_add_multiples_vanish(
                    i as int,
                    isize_modulus(),
                );
            }
        }
        i as isize
    } else {
        cut_to_i32(i) as isize
    }
}

/// An unsigned number cut to the machine's width.
fn cut_to_usize(u: u64) -> (n: usize)
    ensures
        n == wrapped_unsigned(u as int, usize_modulus()),
{
    if u <= usize::MAX as u64 {
        proof {
            vstd::arithmetic::div_mod::lemma_small_mod(u as nat, usize_modulus() as nat);
        }
        u as usize
    } else {
        (u % 0x1_0000_0000) as usize
    }
}

impl FromAutomerge for i64 {
    open spec fn decodable(tree: Tree) -> bool {
        is_int(tree)
    }

    open spec fn decodes_to(tree: Tree, decoded: Self) -> bool {
        decoded == int_of(tree)
    }

    open spec fn fails_with(tree: Tree, failure: Failure) -> bool {
        failure == wrong_type(tree, "a primitive int"@)
    }

    fn from_automerge(value: &Value) -> (result: Result<Self, FromAutomergeError>) {
        match value {
            Value::Primitive(Primitive::Int(i)) => Ok(*i),
            _ => Err(wrong_type_error(value, "a primitive int")),
        }
    }
}

impl FromAutomerge for i8 {
    open spec fn decodable(tree: Tree) -> bool {
        is_int(tree)
    }

    open spec fn decodes_to(tree: Tree, decoded: Self) -> bool {
        decoded == wrapped_signed(int_of(tree) as int, 0x100)
    }

    open spec fn fails_with(tree: Tree, failure: Failure) -> bool {
        failure == wrong_type(tree, "a primitive int"@)
    }

    fn from_automerge(value: &Value) -> (result: Result<Self, FromAutomergeError>) {
        match i64::from_automerge(value) {
            Ok(i) => Ok(cut_to_i8(i)),
            Err(error) => Err(error),
        }
    }
}

impl FromAutomerge for i16 {
    open spec fn decodable(tree: Tree) -> bool {
        is_int(tree)
    }

    open spec fn decodes_to(tree: Tree, decoded: Self) -> bool {
        decoded == wrapped_signed(int_of(tree) as int, 0x1_0000)
    }

    open spec fn fails_with(tree: Tree, failure: Failure) -> bool {
        failure == wrong_type(tree, "a primitive int"@)
    }

    fn from_automerge(value: &Value) -> (result: Result<Self, FromAutomergeError>) {
        match i64::from_automerge(value) {
            Ok(i) => Ok(cut_to_i16(i)),
            Err(error) => Err(error),
        }
    }
}

impl FromAutomerge for i32 {
    open spec fn decodable(tree: Tree) -> bool {
        is_int(tree)
    }

    open spec fn decodes_to(tree: Tree, decoded: Self) -> bool {
        decoded == wrapped_signed(int_of(tree) as int, 0x1_0000_0000)
    }

    open spec fn fails_with(tree: Tree, failure: Failure) -> bool {
        failure == wrong_type(tree, "a primitive int"@)
    }

    fn from_automerge(value: &Value) -> (result: Result<Self, FromAutomergeError>) {
        match i64::from_automerge(value) {
            Ok(i) => Ok(cut_to_i32(i)),
            Err(error) => Err(error),
        }
    }
}

impl FromAutomerge for isize {
    open spec fn decodable(tree: Tree) -> bool {
        is_int(tree)
    }

    open spec fn decodes_to(tree: Tree, decoded: Self) -> bool {
        decoded == wrapped_signed(int_of(tree) as int, isize_modulus())
    }

    open spec fn fails_with(tree: Tree, failure: Failure) -> bool {
        failure == wrong_type(tree, "a primitive int"@)
    }

    fn from_automerge(value: &Value) -> (result: Result<Self, FromAutomergeError>) {
        match i64::from_automerge(value) {
            Ok(i) => Ok(cut_to_isize(i)),
            Err(error) => Err(error),
        }
    }
}

impl FromAutomerge for i128 {
    open spec fn decodable(tree: Tree) -> bool {
        is_int(tree)
    }

    open spec fn decodes_to(tree: Tree, decoded: Self) -> bool {
        decoded == int_of(tree)
    }

    open spec fn fails_with(tree: Tree, failure: Failure) -> bool {
        failure == wrong_type(tree, "a primitive int"@)
    }

    fn from_automerge(value: &Value) -> (result: Result<Self, FromAutomergeError>) {
        match i64::from_automerge(value) {
            Ok(i) => Ok(i as i128),
            Err(error) => Err(error),
        }
    }
}

impl FromAutomerge for u64 {
    open spec fn decodable(tree: Tree) -> bool {
        is_uint(tree)
    }

    open spec fn decodes_to(tree: Tree, decoded: Self) -> bool {
        decoded == uint_of(tree)
    }

    open spec fn fails_with(tree: Tree, failure: Failure) -> bool {
        failure == wrong_type(tree, "a primitive uint"@)
    }

    fn from_automerge(value: &Value) -> (result: Result<Self, FromAutomergeError>) {
        match value {
            Value::Primitive(Primitive::Uint(u)) => Ok(*u),
            _ => Err(wrong_type_error(value, "a primitive uint")),
        }
    }
}

impl FromAutomerge for u8 {
    open spec fn decodable(tree: Tree) -> bool {
        is_uint(tree)
    }

    open spec fn decodes_to(tree: Tree, decoded: Self) -> bool {
        decoded == wrapped_unsigned(uint_of(tree) as int, 0x100)
    }

    open spec fn fails_with(tree: Tree, failure: Failure) -> bool {
        failure == wrong_type(tree, "a primitive uint"@)
    }

    fn from_automerge(value: &Value) -> (result: Result<Self, FromAutomergeError>) {
        match u64::from_automerge(value) {
            Ok(u) => Ok((u % 0x100) as u8),
            Err(error) => Err(error),
        }
    }
}

impl FromAutomerge for u16 {
    open spec fn decodable(tree: Tree) -> bool {
        is_uint(tree)
    }

    open spec fn decodes_to(tree: Tree, decoded: Self) -> bool {
        decoded == wrapped_unsigned(uint_of(tree) as int, 0x1_0000)
    }

    open spec fn fails_with(tree: Tree, failure: Failure) -> bool {
        failure == wrong_type(tree, "a primitive uint"@)
    }

    fn from_automerge(value: &Value) -> (result: Result<Self, FromAutomergeError>) {
        match u64::from_automerge(value) {
            Ok(u) => Ok((u % 0x1_0000) as u16),
            Err(error) => Err(error),
        }
    }
}

impl FromAutomerge for u32 {
    open spec fn decodable(tree: Tree) -> bool {
        is_uint(tree)
    }

    open spec fn decodes_to(tree: Tree, decoded: Self) -> bool {
        decoded == wrapped_unsigned(uint_of(tree) as int, 0x1_0000_0000)
    }

    open spec fn fails_with(tree: Tree, failure: Failure) -> bool {
        failure == wrong_type(tree, "a primitive uint"@)
    }

    fn from_automerge(value: &Value) -> (result: Result<Self, FromAutomergeError>) {
        match u64::from_automerge(value) {
            Ok(u) => Ok((u % 0x1_0000_0000) as u32),
            Err(error) => Err(error),
        }
    }
}

impl FromAutomerge for usize {
    open spec fn decodable(tree: Tree) -> bool {
        is_uint(tree)
    }

    open spec fn decodes_to(tree: Tree, decoded: Self) -> bool {
        decoded == wrapped_unsigned(uint_of(tree) as int, usize_modulus())
    }

    open spec fn fails_with(tree: Tree, failure: Failure) -> bool {
        failure == wrong_type(tree, "a primitive uint"@)
    }

    fn from_automerge(value: &Value) -> (result: Result<Self, FromAutomergeError>) {
        match u64::from_automerge(value) {
            Ok(u) => Ok(cut_to_usize(u)),
            Err(error) => Err(error),
        }
    }
}

impl FromAutomerge for u128 {
    open spec fn decodable(tree: Tree) -> bool {
        is_uint(tree)
    }

    open spec fn decodes_to(tree: Tree, decoded: Self) -> bool {
        decoded == uint_of(tree)
    }

    open spec fn fails_with(tree: Tree, failure: Failure) -> bool {
        failure == wrong_type(tree, "a primitive uint"@)
    }

    fn from_automerge(value: &Value) -> (result: Result<Self, FromAutomergeError>) {
        match u64::from_automerge(value) {
            Ok(u) => Ok(u as u128),
            Err(error) => Err(error),
        }
    }
}

impl<T: FromAutomerge> FromAutomerge for Box<T> {
    open spec fn decodable(tree: Tree) -> bool {
        T::decodable(tree)
    }

    open spec fn decodes_to(tree: Tree, decoded: Self) -> bool {
        T::decodes_to(tree, *decoded)
    }

    open spec fn fails_with(tree: Tree, failure: Failure) -> bool {
        T::fails_with(tree, failure)
    }

    fn from_automerge(value: &Value) -> (result: Result<Self, FromAutomergeError>) {
        match T::from_automerge(value) {
            Ok(inner) => Ok(Box::new(inner)),
            Err(error) => Err(error),
        }
    }
}

impl<T: FromAutomerge> FromAutomerge for Rc<T> {
    open spec fn decodable(tree: Tree) -> bool {
        T::decodable(tree)
    }

    open spec fn decodes_to(tree: Tree, decoded: Self) -> bool {
        T::decodes_to(tree, *decoded)
    }

    open spec fn fails_with(tree: Tree, failure: Failure) -> bool {
        T::fails_with(tree, failure)
    }

    fn from_automerge(value: &Value) -> (result: Result<Self, FromAutomergeError>) {
        match T::from_automerge(value) {
            Ok(inner) => Ok(Rc::new(inner)),
            Err(error) => Err(error),
        }
    }
}

impl<T: FromAutomerge> FromAutomerge for Arc<T> {
    open spec fn decodable(tree: Tree) -> bool {
        T::decodable(tree)
    }

    open spec fn decodes_to(tree: Tree, decoded: Self) -> bool {
        T::decodes_to(tree, *decoded)
    }

    open spec fn fails_with(tree: Tree, failure: Failure) -> bool {
        T::fails_with(tree, failure)
    }

    fn from_automerge(value: &Value) -> (result: Result<Self, FromAutomergeError>) {
        match T::from_automerge(value) {
            Ok(inner) => Ok(Arc::new(inner)),
            Err(error) => Err(error),
        }
    }
}

} // verus!
