//! Typed access to documents stored as CRDT value trees.
//!
//! A document is held by its backend as a [`Value`]: keyed nodes, ordered lists,
//! text and scalar leaves. Application code edits an ordinary typed value; the
//! library encodes it, compares the encoding with the last committed snapshot,
//! and hands the backend the list of [`LocalChange`]s that turn one into the
//! other.
//!
//! Beside the typed documents stand views, which lead through an automerge
//! document place by place without copying it.
pub mod apply;
pub mod automergeable;
pub mod change;
pub mod decode;
pub mod diff;
pub mod document;
pub mod encode;
pub mod equality;
pub mod fields;
pub mod float;
pub mod inspect;
pub mod json;
pub mod laws;
pub mod list_view;
pub mod map_view;
pub mod maps;
pub mod nonzero;
pub mod outside;
pub mod path;
pub mod places;
pub mod round_trip;
pub mod text;
pub mod text_view;
pub mod value;
pub mod view;
pub mod view_equality;
pub mod viewable;

pub use automergeable::Automergeable;
pub use change::{Change, InvalidChangeRequest, LocalChange, LocalOperation, Operation, Refusal};
pub use decode::{Failure, FromAutomerge, FromAutomergeError, Text};
pub use diff::{diff_values, diff_with_path};
pub use document::{ApplyPatchError, Document, DocumentChangeError, Frontend, StagedChange};
pub use encode::ToAutomerge;
pub use inspect::{has_cursor, has_empty_text, has_nan, has_table};
pub use json::{Json, JsonNumber};
pub use path::{Path, PathElement, Step};
pub use list_view::{HistoricalListView, ListView, MutableListView};
pub use map_view::{HistoricalMapView, MapView, MutableMapView};
pub use text_view::{HistoricalTextView, MutableTextView, TextView};
pub use value::{Cursor, MapType, Primitive, Scalar, Tree, Value, ValueMap};
pub use view::{HistoricalView, MutableView, View};
pub use viewable::{MutableDoc, Viewable, ViewableDoc};
