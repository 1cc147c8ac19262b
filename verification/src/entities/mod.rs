//! The records that travel through the pipeline and end up in the store.

pub mod container;
pub mod document;

use vstd::prelude::*;

verus! {

/// An error raised while handling one of the entities.
#[derive(Debug)]
pub enum EntityError {
    DocumentError(document::DocumentError),
}

} // verus!
