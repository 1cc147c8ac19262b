//! Archives, whose entries re-enter the pipeline.

pub mod zip;
