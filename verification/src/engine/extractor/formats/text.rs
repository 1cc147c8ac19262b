//! Plain text.

use vstd::prelude::*;
use crate::engine::extractor::formats::{content_of, FileExtractor};
use crate::engine::extractor::ExtractorConfig;
use crate::text::strings_view;

verus! {

/// The extractor of plain text files.
#[derive(Debug, Clone, Copy, PartialEq, Eq, Hash)]
pub struct TextExtractor;

impl FileExtractor for TextExtractor {

}

impl TextExtractor {
    /// The keyword summary of a text file, given its lines.
    pub fn extract(lines: &Vec<String>, config: &ExtractorConfig) -> (content: String)
        ensures
            content@ == content_of(strings_view(lines@), *config),
    {
        Self::token_distribution(lines, config)
    }
}

} // verus!
