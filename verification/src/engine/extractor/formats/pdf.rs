//! PDF documents.

use vstd::prelude::*;
use crate::engine::extractor::formats::{content_of, FileExtractor};
use crate::engine::extractor::ExtractorConfig;
use crate::text::strings_view;

verus! {

/// The extractor of PDF documents.
#[derive(Debug, Clone, Copy, PartialEq, Eq, Hash)]
pub struct PdfExtractor;

impl FileExtractor for PdfExtractor {

}

impl PdfExtractor {
    /// The keyword summary of a PDF document, given the text of each of its
    /// pages. The pages are read one after the other, and no token spans
    /// two pages.
    pub fn extract(pages: &Vec<String>, config: &ExtractorConfig) -> (content: String)
        ensures
            content@ == content_of(strings_view(pages@), *config),
    {
        Self::token_distribution(pages, config)
    }
}

} // verus!
