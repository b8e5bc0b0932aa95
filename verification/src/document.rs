//! A typed document over a frontend.
//!
//! A [`Document`] keeps the typed value that was last read from or written to
//! its frontend, beside the tree that the value stands for there. A change
//! edits a copy of the value, has the copy encoded and compared with the
//! tree, and hands the frontend the changes; only when the frontend has taken
//! them does the document take the copy as its value.
use vstd::prelude::*;
use crate::automergeable::Automergeable;
use crate::change::{Change, InvalidChangeRequest, LocalChange, Refusal, changes_of};
use crate::decode::{FromAutomerge, FromAutomergeError};
use crate::diff::{diff, diff_values};
use crate::encode::ToAutomerge;
use crate::path::{Path, Step};
use crate::value::{Value, confirm_well_formed, well_formed};

verus! {

/// Why a change of a document failed.
#[derive(Debug, PartialEq)]
pub enum DocumentChangeError<E = std::convert::Infallible> {
    /// The change cannot be made: the frontend refused it, or it would have
    /// overwritten a counter.
    InvalidChangeRequest(InvalidChangeRequest),
    /// A tree could not be decoded as the document's type.
    FromError(FromAutomergeError),
    /// The caller's own change failed.
    ChangeError(E),
}

/// Why a document's value could not be read from its frontend.
#[derive(Debug, PartialEq)]
pub enum ApplyPatchError<E> {
    /// The frontend failed.
    FrontendError(E),
    /// The frontend's tree could not be decoded as the document's type.
    FromError(FromAutomergeError),
    /// The frontend has no tree at its root.
    NoRootValue,
}

/// The service that holds a document: it gives the current tree, takes
/// changes, and takes patches that come from elsewhere.
pub trait Frontend {
    /// The failure of the service itself.
    type Error;

    /// What the service makes of a list of changes that it has taken.
    type Change;

    /// An edit that comes from elsewhere.
    type Patch;

    /// The tree at `path`, or `None` where the document has nothing there.
    fn get_value(&self, path: &Path) -> Result<Option<Value>, Self::Error>;

    /// Takes the changes, in order, under an optional message.
    fn change(&mut self, message: Option<String>, changes: Vec<LocalChange>) -> Result<
        Option<Self::Change>,
        InvalidChangeRequest,
    >;

    /// Takes an edit that comes from elsewhere.
    fn apply_patch(&mut self, patch: Self::Patch) -> Result<(), Self::Error>;
}

/// A typed document: a frontend, the typed value, and the tree that the value
/// stands for in the frontend.
#[derive(Debug)]
pub struct Document<T, F> where T: Automergeable, F: Frontend {
    frontend: F,
    value: T,
    original: Value,
}

/// An edited copy of a document's value, encoded and compared with the
/// document's tree, ready to be handed to the frontend.
#[derive(Debug)]
pub struct StagedChange<T, O> {
    /// The edited copy.
    pub value: T,
    /// The tree that the edited copy is encoded as.
    pub original: Value,
    /// What the caller's change returned.
    pub output: O,
    /// The changes from the document's tree to the new one.
    pub changes: Vec<LocalChange>,
}

/// What reading a frontend's root gives: the decoded value and its tree, or
/// the reason why there is none.
pub fn decode_root<T: FromAutomerge, E>(root: Result<Option<Value>, E>) -> (result: Result<
    (T, Value),
    ApplyPatchError<E>,
>)
    ensures
        match root {
            Err(error) => result == Err::<(T, Value), ApplyPatchError<E>>(
                ApplyPatchError::FrontendError(error),
            ),
            Ok(None) => result == Err::<(T, Value), ApplyPatchError<E>>(
                ApplyPatchError::NoRootValue,
            ),
            Ok(Some(tree)) => match result {
                Ok((value, original)) => original == tree && T::decodable(tree@) && T::decodes_to(
                    tree@,
                    value,
                ),
                Err(error) => !T::decodable(tree@) && error is FromError && T::fails_with(
                    tree@,
                    error->FromError_0@,
                ),
            },
        },
{
    match root {
        Err(error) => Err(ApplyPatchError::FrontendError(error)),
        Ok(None) => Err(ApplyPatchError::NoRootValue),
        Ok(Some(tree)) => match T::from_automerge(&tree) {
            Ok(value) => Ok((value, tree)),
            Err(error) => Err(ApplyPatchError::FromError(error)),
        },
    }
}

impl<T, F> Document<T, F> where T: Automergeable + Clone, F: Frontend {
    /// The frontend.
    pub closed spec fn frontend_of(&self) -> F {
        self.frontend
    }

    /// The typed value.
    pub closed spec fn value_of(&self) -> T {
        self.value
    }

    /// The tree that the typed value stands for in the frontend.
    pub closed spec fn original_of(&self) -> Value {
        self.original
    }

    /// The typed value and the tree go together: the tree is what the value
    /// is encoded as, or the value is what the tree decodes to.
    pub open spec fn consistent(&self) -> bool {
        ||| self.original_of()@ == self.value_of().encoded()
        ||| (T::decodable(self.original_of()@) && T::decodes_to(
            self.original_of()@,
            self.value_of(),
        ))
    }

    /// `result` is what a reading `root` of the frontend's root makes of the
    /// frontend: the failure of the reading, the lack of a root, the failure
    /// to decode the root's tree, or the document of the decoded value and
    /// the tree.
    pub open spec fn read_from(
        frontend: F,
        root: Result<Option<Value>, F::Error>,
        result: Result<Self, ApplyPatchError<F::Error>>,
    ) -> bool {
        match root {
            Err(error) => result == Err::<Self, ApplyPatchError<F::Error>>(
                ApplyPatchError::FrontendError(error),
            ),
            Ok(None) => result == Err::<Self, ApplyPatchError<F::Error>>(
                ApplyPatchError::NoRootValue,
            ),
            Ok(Some(tree)) => match result {
                Ok(document) => document.frontend_of() == frontend && document.original_of()
                    == tree && T::decodable(tree@) && T::decodes_to(tree@, document.value_of())
                    && document.consistent(),
                Err(error) => !T::decodable(tree@) && error is FromError && T::fails_with(
                    tree@,
                    error->FromError_0@,
                ),
            },
        }
    }

    /// What holds after every change, whatever the closure and the frontend
    /// did. A failed change keeps the value and the tree, and keeps the
    /// frontend too unless the frontend was the one to refuse; its failure is
    /// the closure's or a refused request, never a failure to decode. After
    /// a change that succeeded, the tree is what the value is encoded as.
    pub open spec fn settled<O, E>(
        before: Self,
        after: Self,
        result: Result<(O, Option<F::Change>), DocumentChangeError<E>>,
    ) -> bool {
        match result {
            Err(error) => {
                &&& after.value_of() == before.value_of()
                &&& after.original_of() == before.original_of()
                &&& !(error is InvalidChangeRequest) ==> after == before
                &&& !(error is FromError)
            },
            Ok(_) => after.original_of()@ == after.value_of().encoded() && after.consistent(),
        }
    }

    /// What a change makes of the document `before`, where `edits` holds of
    /// everything that the closure may make of a value, and `commits` of
    /// everything that the frontend may make of the message and a list of
    /// changes.
    ///
    /// The closure is given a copy of the value. Where it fails, its failure
    /// is the result and the document is as before. Where it succeeds, what
    /// follows is what [`Self::staged`] says of the edited copy, the output
    /// and an encoding of the copy.
    pub open spec fn changed<O, E>(
        before: Self,
        after: Self,
        result: Result<(O, Option<F::Change>), DocumentChangeError<E>>,
        edits: spec_fn(T, T, Result<O, E>) -> bool,
        commits: spec_fn(
            F,
            Vec<LocalChange>,
            F,
            Result<Option<F::Change>, InvalidChangeRequest>,
        ) -> bool,
    ) -> bool {
        exists|given: T, edited: T, outcome: Result<O, E>|
            cloned(before.value_of(), given) && #[trigger] edits(given, edited, outcome)
                && match outcome {
                Err(error) => result == Err::<(O, Option<F::Change>), DocumentChangeError<E>>(
                    DocumentChangeError::ChangeError(error),
                ) && after == before,
                Ok(output) => exists|encoding: Value|
                    encoding@ == edited.encoded() && well_formed(encoding)
                        && #[trigger] Self::staged(
                        before,
                        after,
                        result,
                        edited,
                        output,
                        encoding,
                        commits,
                    ),
            }
    }

    /// What becomes of the document `before` once the closure has left the
    /// copy `edited` and the output `output`, and the copy is encoded as
    /// `encoding`.
    ///
    /// Where the diff of the encoding and the document's tree fails, the
    /// result is the refusal to overwrite a counter, with the diff's path,
    /// and the document is as before, its frontend too. Otherwise the
    /// frontend is handed changes that stand for the diff. Where it takes
    /// them, the result is the output and the frontend's answer, and the copy
    /// and its encoding are the document's value and tree. Where it refuses
    /// them, the result is its refusal, and the value and the tree are as
    /// before. Either way the frontend is as that call left it.
    pub open spec fn staged<O, E>(
        before: Self,
        after: Self,
        result: Result<(O, Option<F::Change>), DocumentChangeError<E>>,
        edited: T,
        output: O,
        encoding: Value,
        commits: spec_fn(
            F,
            Vec<LocalChange>,
            F,
            Result<Option<F::Change>, InvalidChangeRequest>,
        ) -> bool,
    ) -> bool {
        match diff(encoding, before.original_of()) {
            Err(path) => result is Err && result->Err_0 is InvalidChangeRequest
                && result->Err_0->InvalidChangeRequest_0@ == (Refusal::CannotOverwriteCounter {
                path,
            }) && after == before,
            Ok(needed) => exists|
                changes: Vec<LocalChange>,
                front: F,
                answer: Result<Option<F::Change>, InvalidChangeRequest>,
            |
                changes_of(changes@) == needed && #[trigger] commits(
                    before.frontend_of(),
                    changes,
                    front,
                    answer,
                ) && after.frontend_of() == front && match answer {
                    Ok(taken) => result == Ok::<(O, Option<F::Change>), DocumentChangeError<E>>(
                        (output, taken),
                    ) && after.value_of() == edited && after.original_of() == encoding,
                    Err(refusal) => result == Err::<
                        (O, Option<F::Change>),
                        DocumentChangeError<E>,
                    >(DocumentChangeError::InvalidChangeRequest(refusal)) && after.value_of()
                        == before.value_of() && after.original_of() == before.original_of(),
                },
        }
    }

    /// `after` and `result` are what a reading `root` of the frontend's root
    /// makes of the value and the tree of the document `before`: where the
    /// reading failed, there is no root, or the root cannot be decoded, the
    /// two stay and the result says which it was; else the root's tree and
    /// the value decoded from it take their place.
    pub open spec fn refreshed(
        before: Self,
        root: Result<Option<Value>, F::Error>,
        after: Self,
        result: Result<(), ApplyPatchError<F::Error>>,
    ) -> bool {
        match root {
            Err(error) => result == Err::<(), ApplyPatchError<F::Error>>(
                ApplyPatchError::FrontendError(error),
            ) && after.value_of() == before.value_of() && after.original_of()
                == before.original_of(),
            Ok(None) => result == Err::<(), ApplyPatchError<F::Error>>(
                ApplyPatchError::NoRootValue,
            ) && after.value_of() == before.value_of() && after.original_of()
                == before.original_of(),
            Ok(Some(tree)) => match result {
                Ok(()) => after.original_of() == tree && T::decodable(tree@) && T::decodes_to(
                    tree@,
                    after.value_of(),
                ),
                Err(error) => !T::decodable(tree@) && error is FromError && T::fails_with(
                    tree@,
                    error->FromError_0@,
                ) && after.value_of() == before.value_of() && after.original_of()
                    == before.original_of(),
            },
        }
    }

    /// What a patch makes of the document `before`, where `applies` holds of
    /// everything that the frontend may make of the patch, and `reads` of
    /// every reading of a frontend's root.
    ///
    /// The frontend is as the patch left it. Where the patch failed, its
    /// failure is the result, and the value and the tree are as before.
    /// Where it was applied, the root is read from the new frontend, and the
    /// result, the value and the tree are what [`Self::refreshed`] says of
    /// that reading.
    pub open spec fn patched(
        before: Self,
        after: Self,
        result: Result<(), ApplyPatchError<F::Error>>,
        applies: spec_fn(F, F, Result<(), F::Error>) -> bool,
        reads: spec_fn(F, Result<Option<Value>, F::Error>) -> bool,
    ) -> bool {
        exists|front: F, outcome: Result<(), F::Error>| #[trigger]
            applies(before.frontend_of(), front, outcome) && after.frontend_of() == front
                && match outcome {
                Err(error) => result == Err::<(), ApplyPatchError<F::Error>>(
                    ApplyPatchError::FrontendError(error),
                ) && after.value_of() == before.value_of() && after.original_of()
                    == before.original_of(),
                Ok(_) => exists|root: Result<Option<Value>, F::Error>| #[trigger]
                    reads(front, root) && Self::refreshed(before, root, after, result),
            }
    }

    /// The document over `frontend`, from the frontend's root and what the
    /// reading of it gave.
    pub fn with_root(frontend: F, root: Result<Option<Value>, F::Error>) -> (result: Result<
        Self,
        ApplyPatchError<F::Error>,
    >)
        ensures
            Self::read_from(frontend, root, result),
    {
        match decode_root::<T, F::Error>(root) {
            Ok((value, original)) => Ok(Document { frontend, value, original }),
            Err(error) => Err(error),
        }
    }

    /// Constructs a document over `frontend` from the tree at the frontend's
    /// root. The frontend must give a root, and one that decodes.
    pub fn new(frontend: F) -> (document: Self)
        requires
            forall|path: Path, root: Result<Option<Value>, F::Error>|
                path@ == Seq::<Step>::empty() && #[trigger] call_ensures(
                    F::get_value,
                    (&frontend, &path),
                    root,
                ) ==> root is Ok && root->Ok_0 is Some && T::decodable(root->Ok_0->Some_0@),
        ensures
            document.frontend_of() == frontend,
            T::decodable(document.original_of()@),
            T::decodes_to(document.original_of()@, document.value_of()),
            document.consistent(),
            exists|path: Path|
                path@ == Seq::<Step>::empty() && #[trigger] call_ensures(
                    F::get_value,
                    (&frontend, &path),
                    Ok::<Option<Value>, F::Error>(Some(document.original_of())),
                ),
    {
        match Self::try_new(frontend) {
            Ok(document) => document,
            Err(_) => unreached(),
        }
    }

    /// Constructs a document over `frontend` from the tree at the frontend's
    /// root, or says why there is none: the frontend failed, it has no root,
    /// or the root does not decode.
    pub fn try_new(frontend: F) -> (result: Result<Self, ApplyPatchError<F::Error>>)
        ensures
            exists|root: Result<Option<Value>, F::Error>, path: Path|
                path@ == Seq::<Step>::empty() && #[trigger] call_ensures(
                    F::get_value,
                    (&frontend, &path),
                    root,
                ) && Self::read_from(frontend, root, result),
    {
        let root = frontend.get_value(&Path::root());
        Self::with_root(frontend, root)
    }

    /// The typed value.
    pub fn get(&self) -> (value: &T)
        ensures
            *value == self.value_of(),
    {
        &self.value
    }

    /// The tree that the typed value stands for in the frontend.
    pub fn original(&self) -> (tree: &Value)
        ensures
            *tree == self.original_of(),
    {
        &self.original
    }

    /// The frontend.
    pub fn frontend(&self) -> (frontend: &F)
        ensures
            *frontend == self.frontend_of(),
    {
        &self.frontend
    }

    /// Stages an edited copy of the value. Where the caller's change failed,
    /// its failure is passed on. Otherwise the copy is encoded and compared
    /// with the document's tree, which fails where a counter would be
    /// overwritten.
    pub fn stage_change<O, E>(&self, edited: T, outcome: Result<O, E>) -> (result: Result<
        StagedChange<T, O>,
        DocumentChangeError<E>,
    >)
        ensures
            match outcome {
                Err(error) => result == Err::<StagedChange<T, O>, DocumentChangeError<E>>(
                    DocumentChangeError::ChangeError(error),
                ),
                Ok(output) => match result {
                    Ok(staged) => {
                        &&& staged.value == edited
                        &&& staged.output == output
                        &&& staged.original@ == edited.encoded()
                        &&& well_formed(staged.original)
                        &&& diff(staged.original, self.original_of()) == Ok::<
                            Seq<Change>,
                            Seq<Step>,
                        >(changes_of(staged.changes@))
                    },
                    Err(error) => {
                        &&& error is InvalidChangeRequest
                        &&& exists|encoding: Value|
                            encoding@ == edited.encoded() && well_formed(encoding)
                                && #[trigger] diff(encoding, self.original_of()) is Err
                                && error->InvalidChangeRequest_0@
                                == (Refusal::CannotOverwriteCounter {
                                path: diff(encoding, self.original_of())->Err_0,
                            })
                    },
                },
            },
    {
        match outcome {
            Err(error) => Err(DocumentChangeError::ChangeError(error)),
            Ok(output) => {
                let original = edited.to_automerge();
                confirm_well_formed(&original);
                match diff_values(&original, &self.original) {
                    Ok(changes) => Ok(StagedChange { value: edited, original, output, changes }),
                    Err(refusal) => {
                        assert(diff(original, self.original_of()) is Err);
                        Err(DocumentChangeError::InvalidChangeRequest(refusal))
                    },
                }
            },
        }
    }

    /// Finishes a change with what the frontend made of the staged changes.
    /// Where it took them, the edited copy becomes the document's value and
    /// its encoding the document's tree. Where it refused them, the document
    /// keeps its value and tree.
    pub fn finish_change<O, E>(
        &mut self,
        value: T,
        original: Value,
        output: O,
        committed: Result<Option<F::Change>, InvalidChangeRequest>,
    ) -> (result: Result<(O, Option<F::Change>), DocumentChangeError<E>>)
        ensures
            final(self).frontend_of() == old(self).frontend_of(),
            match committed {
                Ok(change) => {
                    &&& result == Ok::<(O, Option<F::Change>), DocumentChangeError<E>>(
                        (output, change),
                    )
                    &&& final(self).value_of() == value
                    &&& final(self).original_of() == original
                },
                Err(refusal) => {
                    &&& result == Err::<(O, Option<F::Change>), DocumentChangeError<E>>(
                        DocumentChangeError::InvalidChangeRequest(refusal),
                    )
                    &&& final(self).value_of() == old(self).value_of()
                    &&& final(self).original_of() == old(self).original_of()
                },
            },
    {
        match committed {
            Ok(change) => {
                self.value = value;
                self.original = original;
                Ok((output, change))
            },
            Err(refusal) => Err(DocumentChangeError::InvalidChangeRequest(refusal)),
        }
    }

    /// Edits a copy of the value with `change` and, where that succeeds and
    /// the frontend takes the changes, makes the copy the document's value.
    ///
    /// The result and the document afterwards are what [`Self::changed`] says
    /// of the document before, for every `edits` that holds of all that the
    /// closure may do and every `commits` that holds of all that the frontend
    /// may do with the message.
    fn change_inner<C, O, E>(&mut self, message: Option<String>, change: C) -> (result: Result<
        (O, Option<F::Change>),
        DocumentChangeError<E>,
    >) where C: FnOnce(&mut T) -> Result<O, E>
        requires
            forall|slot: &mut T| call_requires(change, (slot,)),
        ensures
            Self::settled(*old(self), *final(self), result),
            forall|
                edits: spec_fn(T, T, Result<O, E>) -> bool,
                commits: spec_fn(
                    F,
                    Vec<LocalChange>,
                    F,
                    Result<Option<F::Change>, InvalidChangeRequest>,
                ) -> bool,
            |
                (forall|slot: &mut T, outcome: Result<O, E>| #[trigger]
                    call_ensures(change, (slot,), outcome) ==> edits(
                        *slot,
                        *final(slot),
                        outcome,
                    )) && (forall|
                    front: &mut F,
                    changes: Vec<LocalChange>,
                    answer: Result<Option<F::Change>, InvalidChangeRequest>,
                | #[trigger]
                    call_ensures(F::change, (front, message, changes), answer) ==> commits(
                        *front,
                        changes,
                        *final(front),
                        answer,
                    )) ==> #[trigger] Self::changed(
                    *old(self),
                    *final(self),
                    result,
                    edits,
                    commits,
                ),
    {
        let ghost before = *self;
        let mut edited = self.value.clone();
        let ghost given = edited;
        let outcome = change(&mut edited);
        let ghost left = edited;
        let ghost made = outcome;
        match self.stage_change(edited, outcome) {
            Err(error) => {
                let result = Err(error);
                proof {
                    assert forall|
                        edits: spec_fn(T, T, Result<O, E>) -> bool,
                        commits: spec_fn(
                            F,
                            Vec<LocalChange>,
                            F,
                            Result<Option<F::Change>, InvalidChangeRequest>,
                        ) -> bool,
                    | edits(given, left, made) implies #[trigger] Self::changed(
                        before,
                        *self,
                        result,
                        edits,
                        commits,
                    ) by {
                        if made is Ok {
                            let encoding = choose|encoding: Value|
                                encoding@ == left.encoded() && well_formed(encoding)
                                    && #[trigger] diff(encoding, before.original_of()) is Err
                                    && error->InvalidChangeRequest_0@
                                    == (Refusal::CannotOverwriteCounter {
                                    path: diff(encoding, before.original_of())->Err_0,
                                });
                            assert(Self::staged(
                                before,
                                *self,
                                result,
                                left,
                                made->Ok_0,
                                encoding,
                                commits,
                            ));
                        }
                    }
                }
                result
            },
            Ok(staged) => {
                let ghost handed = staged.changes;
                let ghost encoding = staged.original;
                let committed = self.frontend.change(message, staged.changes);
                let ghost answer = committed;
                let ghost front = self.frontend;
                let result = self.finish_change(
                    staged.value,
                    staged.original,
                    staged.output,
                    committed,
                );
                proof {
                    assert forall|
                        edits: spec_fn(T, T, Result<O, E>) -> bool,
                        commits: spec_fn(
                            F,
                            Vec<LocalChange>,
                            F,
                            Result<Option<F::Change>, InvalidChangeRequest>,
                        ) -> bool,
                    |
                        edits(given, left, made) && commits(
                            before.frontend_of(),
                            handed,
                            front,
                            answer,
                        ) implies #[trigger] Self::changed(
                        before,
                        *self,
                        result,
                        edits,
                        commits,
                    ) by {
                        assert(Self::staged(
                            before,
                            *self,
                            result,
                            left,
                            made->Ok_0,
                            encoding,
                            commits,
                        ));
                    }
                }
                result
            },
        }
    }

    /// Performs a change on the document: edits a copy of the value with
    /// `change` and, where that succeeds and the frontend takes the changes,
    /// makes the copy the document's value. The frontend is given no message.
    pub fn change<C, O, E>(&mut self, change: C) -> (result: Result<
        (O, Option<F::Change>),
        DocumentChangeError<E>,
    >) where C: FnOnce(&mut T) -> Result<O, E>
        requires
            forall|slot: &mut T| call_requires(change, (slot,)),
        ensures
            Self::settled(*old(self), *final(self), result),
            forall|
                edits: spec_fn(T, T, Result<O, E>) -> bool,
                commits: spec_fn(
                    F,
                    Vec<LocalChange>,
                    F,
                    Result<Option<F::Change>, InvalidChangeRequest>,
                ) -> bool,
            |
                (forall|slot: &mut T, outcome: Result<O, E>| #[trigger]
                    call_ensures(change, (slot,), outcome) ==> edits(
                        *slot,
                        *final(slot),
                        outcome,
                    )) && (forall|
                    front: &mut F,
                    changes: Vec<LocalChange>,
                    answer: Result<Option<F::Change>, InvalidChangeRequest>,
                | #[trigger]
                    call_ensures(F::change, (front, None::<String>, changes), answer) ==> commits(
                        *front,
                        changes,
                        *final(front),
                        answer,
                    )) ==> #[trigger] Self::changed(
                    *old(self),
                    *final(self),
                    result,
                    edits,
                    commits,
                ),
    {
        self.change_inner(None, change)
    }

    /// Performs a change on the document, with a message for the frontend.
    pub fn change_with_message<C, O, E>(&mut self, message: String, change: C) -> (result: Result<
        (O, Option<F::Change>),
        DocumentChangeError<E>,
    >) where C: FnOnce(&mut T) -> Result<O, E>
        requires
            forall|slot: &mut T| call_requires(change, (slot,)),
        ensures
            Self::settled(*old(self), *final(self), result),
            forall|
                edits: spec_fn(T, T, Result<O, E>) -> bool,
                commits: spec_fn(
                    F,
                    Vec<LocalChange>,
                    F,
                    Result<Option<F::Change>, InvalidChangeRequest>,
                ) -> bool,
            |
                (forall|slot: &mut T, outcome: Result<O, E>| #[trigger]
                    call_ensures(change, (slot,), outcome) ==> edits(
                        *slot,
                        *final(slot),
                        outcome,
                    )) && (forall|
                    front: &mut F,
                    changes: Vec<LocalChange>,
                    answer: Result<Option<F::Change>, InvalidChangeRequest>,
                | #[trigger]
                    call_ensures(F::change, (front, Some(message), changes), answer) ==> commits(
                        *front,
                        changes,
                        *final(front),
                        answer,
                    )) ==> #[trigger] Self::changed(
                    *old(self),
                    *final(self),
                    result,
                    edits,
                    commits,
                ),
    {
        self.change_inner(Some(message), change)
    }

    /// Takes the value and the tree that a reading of the frontend's root
    /// gave. Where the reading failed, the document keeps its value and tree.
    pub fn refresh_value(&mut self, root: Result<Option<Value>, F::Error>) -> (result: Result<
        (),
        ApplyPatchError<F::Error>,
    >)
        ensures
            final(self).frontend_of() == old(self).frontend_of(),
            match root {
                Err(error) => result == Err::<(), ApplyPatchError<F::Error>>(
                    ApplyPatchError::FrontendError(error),
                ),
                Ok(None) => result == Err::<(), ApplyPatchError<F::Error>>(
                    ApplyPatchError::NoRootValue,
                ),
                Ok(Some(tree)) => match result {
                    Ok(()) => final(self).original_of() == tree && T::decodable(tree@)
                        && T::decodes_to(tree@, final(self).value_of()),
                    Err(error) => !T::decodable(tree@) && error is FromError && T::fails_with(
                        tree@,
                        error->FromError_0@,
                    ),
                },
            },
            result is Err ==> *final(self) == *old(self),
    {
        match decode_root::<T, F::Error>(root) {
            Ok((value, original)) => {
                self.value = value;
                self.original = original;
                Ok(())
            },
            Err(error) => Err(error),
        }
    }

    /// Applies a patch to the frontend and reads the value anew from the
    /// frontend's root. Whatever fails, the document keeps its value and its
    /// tree.
    ///
    /// The result and the document afterwards are what [`Self::patched`] says
    /// of the document before, for every `applies` that holds of all that the
    /// frontend may do with the patch and every `reads` that holds of every
    /// reading of a frontend's root.
    pub fn apply_patch(&mut self, patch: F::Patch) -> (result: Result<
        (),
        ApplyPatchError<F::Error>,
    >)
        ensures
            result is Err ==> final(self).value_of() == old(self).value_of()
                && final(self).original_of() == old(self).original_of(),
            result is Ok ==> T::decodable(final(self).original_of()@) && T::decodes_to(
                final(self).original_of()@,
                final(self).value_of(),
            ) && final(self).consistent(),
            forall|
                applies: spec_fn(F, F, Result<(), F::Error>) -> bool,
                reads: spec_fn(F, Result<Option<Value>, F::Error>) -> bool,
            |
                (forall|front: &mut F, outcome: Result<(), F::Error>| #[trigger]
                    call_ensures(F::apply_patch, (front, patch), outcome) ==> applies(
                        *front,
                        *final(front),
                        outcome,
                    )) && (forall|front: F, path: Path, root: Result<Option<Value>, F::Error>|
                    path@ == Seq::<Step>::empty() && #[trigger] call_ensures(
                        F::get_value,
                        (&front, &path),
                        root,
                    ) ==> reads(front, root)) ==> #[trigger] Self::patched(
                    *old(self),
                    *final(self),
                    result,
                    applies,
                    reads,
                ),
    {
        let ghost before = *self;
        let applied = self.frontend.apply_patch(patch);
        let ghost outcome = applied;
        let ghost front = self.frontend;
        match applied {
            Err(error) => {
                let result = Err(ApplyPatchError::FrontendError(error));
                proof {
                    assert forall|
                        applies: spec_fn(F, F, Result<(), F::Error>) -> bool,
                        reads: spec_fn(F, Result<Option<Value>, F::Error>) -> bool,
                    |
                        applies(before.frontend_of(), front, outcome) implies #[trigger] Self::patched(
                        before,
                        *self,
                        result,
                        applies,
                        reads,
                    ) by {}
                }
                result
            },
            Ok(()) => {
                let root = self.frontend.get_value(&Path::root());
                let ghost read = root;
                let result = self.refresh_value(root);
                proof {
                    assert forall|
                        applies: spec_fn(F, F, Result<(), F::Error>) -> bool,
                        reads: spec_fn(F, Result<Option<Value>, F::Error>) -> bool,
                    |
                        applies(before.frontend_of(), front, outcome) && reads(
                            front,
                            read,
                        ) implies #[trigger] Self::patched(before, *self, result, applies, reads) by {
                        assert(Self::refreshed(before, read, *self, result));
                    }
                }
                result
            },
        }
    }
}

} // verus!
