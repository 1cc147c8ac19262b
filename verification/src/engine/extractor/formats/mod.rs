//! The document formats the extractor knows, told apart by file extension.

pub mod archive;
pub mod microsoft;
pub mod pdf;
pub mod text;

use vstd::prelude::*;
use crate::engine::extractor::tokens::{record_lines, summary, TextTokensDistribution};
use crate::engine::extractor::ExtractorConfig;
use crate::engine::scanner::ScannedDocument;
use crate::entities::container::Container;
use crate::text::{lowercase_of, str_eq, strings_view};

verus! {

/// The archive formats whose entries re-enter the pipeline.
#[derive(Debug, Clone, Copy, PartialEq, Eq, Hash, Structural)]
pub enum Archive {
    Zip,
}

/// The format of a document, which selects the extractor that decodes it.
#[derive(Debug, Clone, Copy, PartialEq, Eq, Hash, Structural)]
pub enum FormatType {
    Pdf,
    Docx,
    Text,
    Archive(Archive),
    Unknown,
}

/// What an extractor hands back: the keyword summary of a document, or the
/// entries of an archive together with the container that stands for it.
#[derive(Debug, PartialEq, Eq, Hash)]
pub enum DataExtracted {
    Text(String),
    ArchiveDocuments { archive: Container, documents: Vec<ScannedDocument> },
}

/// The format that a lowercase extension stands for.
pub open spec fn format_of(ext: Seq<char>) -> FormatType {
    if ext == "pdf"@ {
        FormatType::Pdf
    } else if ext == "docx"@ {
        FormatType::Docx
    } else if ext == "txt"@ {
        FormatType::Text
    } else if ext == "zip"@ {
        FormatType::Archive(Archive::Zip)
    } else {
        FormatType::Unknown
    }
}

impl FormatType {
    /// The format of an extension that is already lowercase. Every other
    /// text, the empty one included, is `Unknown`.
    pub fn from_lowercase(ext: &str) -> (format: FormatType)
        ensures
            format == format_of(ext@),
    {
        if str_eq(ext, "pdf") {
            FormatType::Pdf
        } else if str_eq(ext, "docx") {
            FormatType::Docx
        } else if str_eq(ext, "txt") {
            FormatType::Text
        } else if str_eq(ext, "zip") {
            FormatType::Archive(Archive::Zip)
        } else {
            FormatType::Unknown
        }
    }

    /// The format of an extension in any letter case. Never fails: what is
    /// not recognised is `Unknown`.
    pub fn from_str(input: &str) -> (format: Result<FormatType, ()>)
        ensures
            format == Ok::<FormatType, ()>(format_of(lowercase_of(input@))),
    {
        let lowered = input.to_lowercase();
        Ok(FormatType::from_lowercase(lowered.as_str()))
    }
}

/// The keyword summary of a text given as lines: its most frequent tokens
/// in rank order, as many as the settings allow, joined by single spaces.
pub open spec fn content_of(lines: Seq<Seq<char>>, config: ExtractorConfig) -> Seq<char> {
    summary(record_lines(Seq::empty(), lines, config.tokens_min_length), config.max_tokens)
}

/// What the extractors of text formats share: the way from the lines of a
/// text to its keyword summary.
pub trait FileExtractor {
    /// The keyword summary of the text with these lines.
    fn token_distribution(lines: &Vec<String>, config: &ExtractorConfig) -> (content: String)
        ensures
            content@ == content_of(strings_view(lines@), *config),
    {
        let dist = TextTokensDistribution::from_buffer(lines, config.tokens_min_length);
        dist.export_string_nth(config.max_tokens)
    }
}

} // verus!
