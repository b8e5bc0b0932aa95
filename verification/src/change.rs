//! Change operations and the requests that a backend refuses.
use vstd::prelude::*;
use crate::path::{Path, Step};
use crate::value::{Tree, Value};

verus! {

/// What a change does at its path.
#[derive(Debug, PartialEq)]
pub enum LocalOperation {
    /// Put the value at the path, over what is there or as a new entry.
    Put(Value),
    /// Take out the entry or element at the path.
    Delete,
    /// Move the counter at the path forward by the amount.
    Increment(i64),
    /// Make the value the element at the path's index, before what is there.
    Insert(Value),
}

/// What a [`LocalOperation`] stands for.
pub ghost enum Operation {
    Put(Tree),
    Delete,
    Increment(i64),
    Insert(Tree),
}

impl View for LocalOperation {
    type V = Operation;

    open spec fn view(&self) -> Operation {
        match *self {
            LocalOperation::Put(value) => Operation::Put(value@),
            LocalOperation::Delete => Operation::Delete,
            LocalOperation::Increment(by) => Operation::Increment(by),
            LocalOperation::Insert(value) => Operation::Insert(value@),
        }
    }
}

/// One edit of a document: an operation and the path at which it acts.
#[derive(Debug, PartialEq)]
pub struct LocalChange {
    path: Path,
    operation: LocalOperation,
}

/// What a [`LocalChange`] stands for.
pub ghost struct Change {
    pub path: Seq<Step>,
    pub operation: Operation,
}

impl View for LocalChange {
    type V = Change;

    closed spec fn view(&self) -> Change {
        Change { path: self.path@, operation: self.operation@ }
    }
}

/// The changes that a list of edits stands for.
pub open spec fn changes_of(changes: Seq<LocalChange>) -> Seq<Change> {
    Seq::new(changes.len(), |i: int| changes[i]@)
}

impl LocalChange {
    /// The change that puts `value` at `path`.
    pub fn set(path: Path, value: Value) -> (change: LocalChange)
        ensures
            change@ == (Change { path: path@, operation: Operation::Put(value@) }),
    {
        LocalChange { path, operation: LocalOperation::Put(value) }
    }

    /// The change that takes out what is at `path`.
    pub fn delete(path: Path) -> (change: LocalChange)
        ensures
            change@ == (Change { path: path@, operation: Operation::Delete }),
    {
        LocalChange { path, operation: LocalOperation::Delete }
    }

    /// The change that moves the counter at `path` forward by one.
    pub fn increment(path: Path) -> (change: LocalChange)
        ensures
            change@ == (Change { path: path@, operation: Operation::Increment(1) }),
    {
        LocalChange { path, operation: LocalOperation::Increment(1) }
    }

    /// The change that moves the counter at `path` forward by `by`.
    pub fn increment_by(path: Path, by: i64) -> (change: LocalChange)
        ensures
            change@ == (Change { path: path@, operation: Operation::Increment(by) }),
    {
        LocalChange { path, operation: LocalOperation::Increment(by) }
    }

    /// The change that inserts `value` as the element at `path`.
    pub fn insert(path: Path, value: Value) -> (change: LocalChange)
        ensures
            change@ == (Change { path: path@, operation: Operation::Insert(value@) }),
    {
        LocalChange { path, operation: LocalOperation::Insert(value) }
    }

    /// The path at which the change acts.
    pub fn path(&self) -> (path: &Path)
        ensures
            path@ == self@.path,
    {
        &self.path
    }

    /// What the change does.
    pub fn operation(&self) -> (operation: &LocalOperation)
        ensures
            operation@ == self@.operation,
    {
        &self.operation
    }
}

impl Clone for LocalChange {
    fn clone(&self) -> (copy: Self)
        ensures
            copy@ == self@,
    {
        let operation = match &self.operation {
            LocalOperation::Put(value) => LocalOperation::Put(value.clone()),
            LocalOperation::Delete => LocalOperation::Delete,
            LocalOperation::Increment(by) => LocalOperation::Increment(*by),
            LocalOperation::Insert(value) => LocalOperation::Insert(value.clone()),
        };
        LocalChange { path: self.path.clone(), operation }
    }
}

/// A change that cannot be made.
#[derive(Debug, PartialEq)]
pub enum InvalidChangeRequest {
    /// No node is at the path.
    NoSuchPathError { path: Path },
    /// The node at the path is no counter.
    IncrementForNonCounterObject { path: Path },
    /// Something other than a single grapheme was put into a text.
    InsertNonTextInTextObject { path: Path, object: Value },
    /// The last step of an insert's path is no index.
    InsertWithNonSequencePath { path: Path },
    /// The parent of an insert's path is neither list nor text.
    InsertForNonSequenceObject { path: Path },
    /// The root can only be replaced by a keyed node.
    CannotSetNonMapObjectAsRoot { value: Value },
    /// The root cannot be deleted.
    CannotDeleteRootObject,
    /// A counter can only be moved forward by an increment.
    CannotOverwriteCounter { path: Path },
}

/// What an [`InvalidChangeRequest`] stands for.
pub ghost enum Refusal {
    NoSuchPathError { path: Seq<Step> },
    IncrementForNonCounterObject { path: Seq<Step> },
    InsertNonTextInTextObject { path: Seq<Step>, object: Tree },
    InsertWithNonSequencePath { path: Seq<Step> },
    InsertForNonSequenceObject { path: Seq<Step> },
    CannotSetNonMapObjectAsRoot { value: Tree },
    CannotDeleteRootObject,
    CannotOverwriteCounter { path: Seq<Step> },
}

impl View for InvalidChangeRequest {
    type V = Refusal;

    open spec fn view(&self) -> Refusal {
        match *self {
            InvalidChangeRequest::NoSuchPathError { path } => Refusal::NoSuchPathError {
                path: path@,
            },
            InvalidChangeRequest::IncrementForNonCounterObject {
                path,
            } => Refusal::IncrementForNonCounterObject { path: path@ },
            InvalidChangeRequest::InsertNonTextInTextObject {
                path,
                object,
            } => Refusal::InsertNonTextInTextObject { path: path@, object: object@ },
            InvalidChangeRequest::InsertWithNonSequencePath {
                path,
            } => Refusal::InsertWithNonSequencePath { path: path@ },
            InvalidChangeRequest::InsertForNonSequenceObject {
                path,
            } => Refusal::InsertForNonSequenceObject { path: path@ },
            InvalidChangeRequest::CannotSetNonMapObjectAsRoot {
                value,
            } => Refusal::CannotSetNonMapObjectAsRoot { value: value@ },
            InvalidChangeRequest::CannotDeleteRootObject => Refusal::CannotDeleteRootObject,
            InvalidChangeRequest::CannotOverwriteCounter {
                path,
            } => Refusal::CannotOverwriteCounter { path: path@ },
        }
    }
}

} // verus!
