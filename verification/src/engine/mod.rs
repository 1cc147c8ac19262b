//! The stages of the pipeline.

pub mod extractor;
pub mod scanner;

use vstd::prelude::*;
use crate::engine::extractor::ExtractorError;
use crate::storage::StorageError;

verus! {

/// `zip::result::ZipError`, which says why an archive could not be read.
/// It is carried along and never looked into.
#[verifier::external_type_specification]
#[verifier::external_body]
pub struct ExZipError(zip::result::ZipError);

/// Why a stage of the pipeline failed.
#[derive(Debug)]
pub enum EngineError {
    IoError(std::io::Error),
    ZipError(zip::result::ZipError),
    RusqliteError(rusqlite::Error),
    StorageError(StorageError),
    ExtractorError(ExtractorError),
}

/// A worker of a pool, which is known by its number.
pub trait EngineTaskWorker {
    /// The number that the worker holds.
    spec fn worker_id(&self) -> usize;

    /// The number of the worker in its pool.
    fn get_id(&self) -> (id: usize)
        ensures
            id == self.worker_id(),
    ;
}

} // verus!
