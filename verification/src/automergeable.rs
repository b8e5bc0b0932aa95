//! The capability that a document's typed value needs.
use vstd::prelude::*;
use crate::decode::FromAutomerge;
use crate::encode::ToAutomerge;

verus! {

/// A type whose values can be written into a document and read from it.
pub trait Automergeable: ToAutomerge + FromAutomerge {

}

impl<T: ToAutomerge + FromAutomerge> Automergeable for T {

}

} // verus!
