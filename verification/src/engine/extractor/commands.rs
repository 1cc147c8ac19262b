//! What the extractor stage is asked to do.

use vstd::prelude::*;
use crate::engine::scanner::{documents_view, ScannedDocument, ScannedDocumentView};
use crate::entities::container::{Container, ContainerView};

verus! {

/// A request to the extractor stage.
#[derive(Debug, PartialEq, Eq, Hash)]
pub enum ExtractorCommand {
    /// Decode this document.
    ProcessDocument(ScannedDocument),
    /// Persist the entries of an archive that was expanded elsewhere.
    ProcessCompressedDocuments { container: Container, documents: Vec<ScannedDocument> },
}

/// What a request to the extractor stage holds.
pub enum ExtractorCommandView {
    ProcessDocument(ScannedDocumentView),
    ProcessCompressedDocuments { container: ContainerView, documents: Seq<ScannedDocumentView> },
}

impl View for ExtractorCommand {
    type V = ExtractorCommandView;

    open spec fn view(&self) -> ExtractorCommandView {
        match self {
            ExtractorCommand::ProcessDocument(scanned) => ExtractorCommandView::ProcessDocument(
                scanned@,
            ),
            ExtractorCommand::ProcessCompressedDocuments { container, documents } =>
                ExtractorCommandView::ProcessCompressedDocuments {
                    container: container@,
                    documents: documents_view(documents@),
                },
        }
    }
}

/// What a list of requests holds, in order.
pub open spec fn commands_view(commands: Seq<ExtractorCommand>) -> Seq<ExtractorCommandView> {
    Seq::new(commands.len(), |i: int| commands[i]@)
}

} // verus!
