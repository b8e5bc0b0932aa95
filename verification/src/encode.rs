//! Encoding typed values as value trees.
use std::rc::Rc;
use std::sync::Arc;
use vstd::prelude::*;
use crate::value::{Primitive, Scalar, Tree, Value};

verus! {

/// A type whose values can be written into a document.
pub trait ToAutomerge {
    /// The tree that the value is encoded as.
    open spec fn encoded(&self) -> Tree {
        arbitrary()
    }

    /// Encodes the value.
    fn to_automerge(&self) -> (value: Value)
        ensures
            value@ == self.encoded(),
    ;
}

/// The trees that the items of a list are encoded as, in order.
pub open spec fn encoded_items<T: ToAutomerge>(items: Seq<T>) -> Seq<Tree> {
    Seq::new(items.len(), |i: int| items[i].encoded())
}

impl ToAutomerge for Value {
    open spec fn encoded(&self) -> Tree {
        self@
    }

    fn to_automerge(&self) -> (value: Value) {
        self.clone()
    }
}

impl ToAutomerge for () {
    open spec fn encoded(&self) -> Tree {
        Tree::Primitive(Scalar::Null)
    }

    fn to_automerge(&self) -> (value: Value) {
        Value::Primitive(Primitive::Null)
    }
}

impl<T: ToAutomerge> ToAutomerge for Vec<T> {
    open spec fn encoded(&self) -> Tree {
        Tree::List(encoded_items(self@))
    }

    fn to_automerge(&self) -> (value: Value) {
        let mut items: Vec<Value> = Vec::new();
        let mut i: usize = 0;
        while i < self.len()
            invariant
                i <= self.len(),
                items.len() == i,
                forall|j: int| 0 <= j < i ==> (#[trigger] items@[j])@ == self@[j].encoded(),
            decreases self.len() - i,
        {
            items.push(self[i].to_automerge());
            i += 1;
        }
        let value = Value::List(items);
        assert(value@->List_0 =~= encoded_items(self@));
        value
    }
}

impl ToAutomerge for String {
    open spec fn encoded(&self) -> Tree {
        Tree::Primitive(Scalar::Str(self@))
    }

    fn to_automerge(&self) -> (value: Value) {
        Value::Primitive(Primitive::Str(self.clone()))
    }
}

/// The string that holds the one character `c`.
///
/// Trusted: calls `String::from` of the standard library on a `char`, which
/// gives the string made of that character alone.
#[verifier::external_body]
pub(crate) fn char_to_string(c: char) -> (s: String)
    ensures
        s@ == seq![c],
{
    String::from(c)
}

impl ToAutomerge for char {
    open spec fn encoded(&self) -> Tree {
        Tree::Primitive(Scalar::Str(seq![*self]))
    }

    fn to_automerge(&self) -> (value: Value) {
        Value::Primitive(Primitive::Str(char_to_string(*self)))
    }
}

impl ToAutomerge for bool {
    open spec fn encoded(&self) -> Tree {
        Tree::Primitive(Scalar::Boolean(*self))
    }

    fn to_automerge(&self) -> (value: Value) {
        Value::Primitive(Primitive::Boolean(*self))
    }
}

impl<T: ToAutomerge> ToAutomerge for Option<T> {
    open spec fn encoded(&self) -> Tree {
        match *self {
            Some(inner) => inner.encoded(),
            None => Tree::Primitive(Scalar::Null),
        }
    }

    fn to_automerge(&self) -> (value: Value) {
        match self {
            Some(inner) => inner.to_automerge(),
            None => Value::Primitive(Primitive::Null),
        }
    }
}

impl ToAutomerge for i64 {
    open spec fn encoded(&self) -> Tree {
        Tree::Primitive(Scalar::Int(*self))
    }

    fn to_automerge(&self) -> (value: Value) {
        Value::Primitive(Primitive::Int(*self))
    }
}

impl ToAutomerge for i8 {
    open spec fn encoded(&self) -> Tree {
        Tree::Primitive(Scalar::Int(*self as i64))
    }

    fn to_automerge(&self) -> (value: Value) {
        Value::Primitive(Primitive::Int(*self as i64))
    }
}

impl ToAutomerge for i16 {
    open spec fn encoded(&self) -> Tree {
        Tree::Primitive(Scalar::Int(*self as i64))
    }

    fn to_automerge(&self) -> (value: Value) {
        Value::Primitive(Primitive::Int(*self as i64))
    }
}

impl ToAutomerge for i32 {
    open spec fn encoded(&self) -> Tree {
        Tree::Primitive(Scalar::Int(*self as i64))
    }

    fn to_automerge(&self) -> (value: Value) {
        Value::Primitive(Primitive::Int(*self as i64))
    }
}

impl ToAutomerge for isize {
    open spec fn encoded(&self) -> Tree {
        Tree::Primitive(Scalar::Int(*self as i64))
    }

    fn to_automerge(&self) -> (value: Value) {
        Value::Primitive(Primitive::Int(*self as i64))
    }
}

impl ToAutomerge for u64 {
    open spec fn encoded(&self) -> Tree {
        Tree::Primitive(Scalar::Uint(*self))
    }

    fn to_automerge(&self) -> (value: Value) {
        Value::Primitive(Primitive::Uint(*self))
    }
}

impl ToAutomerge for u8 {
    open spec fn encoded(&self) -> Tree {
        Tree::Primitive(Scalar::Uint(*self as u64))
    }

    fn to_automerge(&self) -> (value: Value) {
        Value::Primitive(Primitive::Uint(*self as u64))
    }
}

impl ToAutomerge for u16 {
    open spec fn encoded(&self) -> Tree {
        Tree::Primitive(Scalar::Uint(*self as u64))
    }

    fn to_automerge(&self) -> (value: Value) {
        Value::Primitive(Primitive::Uint(*self as u64))
    }
}

impl ToAutomerge for u32 {
    open spec fn encoded(&self) -> Tree {
        Tree::Primitive(Scalar::Uint(*self as u64))
    }

    fn to_automerge(&self) -> (value: Value) {
        Value::Primitive(Primitive::Uint(*self as u64))
    }
}

impl ToAutomerge for usize {
    open spec fn encoded(&self) -> Tree {
        Tree::Primitive(Scalar::Uint(*self as u64))
    }

    fn to_automerge(&self) -> (value: Value) {
        Value::Primitive(Primitive::Uint(*self as u64))
    }
}

impl<T: ToAutomerge> ToAutomerge for Box<T> {
    open spec fn encoded(&self) -> Tree {
        (**self).encoded()
    }

    fn to_automerge(&self) -> (value: Value) {
        (**self).to_automerge()
    }
}

impl<T: ToAutomerge> ToAutomerge for Rc<T> {
    open spec fn encoded(&self) -> Tree {
        (**self).encoded()
    }

    fn to_automerge(&self) -> (value: Value) {
        (**self).to_automerge()
    }
}

impl<T: ToAutomerge> ToAutomerge for Arc<T> {
    open spec fn encoded(&self) -> Tree {
        (**self).encoded()
    }

    fn to_automerge(&self) -> (value: Value) {
        (**self).to_automerge()
    }
}

} // verus!
