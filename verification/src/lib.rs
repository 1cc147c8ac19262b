//! A local document indexing pipeline: paths are filtered, documents are
//! summarised into ranked keyword lists, and the results are persisted
//! through a single storage worker.

pub mod engine;
pub mod entities;
pub mod paths;
pub mod storage;
pub mod text;

use vstd::prelude::*;

verus! {

/// Any error of the library.
#[derive(Debug)]
pub enum RSearchError {
    EngineError(engine::EngineError),
    EntityError(entities::EntityError),
}

} // verus!
