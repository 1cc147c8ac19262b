//! What the storage worker is asked to do, and what it answers.

use vstd::prelude::*;
use crate::engine::scanner::{documents_view, ScannedDocument, ScannedDocumentView};
use crate::entities::container::{Container, ContainerView};
use crate::entities::document::{Document, DocumentView};
use crate::storage::StorageError;

verus! {

/// A request to the storage worker.
#[derive(Debug)]
pub enum StorageCommand {
    /// Save one document on its own.
    SaveDocument { document: Document },
    /// Save the container of an archive and report the id it got.
    SaveArchive { archive: Container },
    /// Save a batch of documents in one transaction.
    SaveBulkDocuments { documents: Vec<ScannedDocument> },
}

/// What a request to the storage worker holds.
pub enum StorageCommandView {
    SaveDocument { document: DocumentView },
    SaveArchive { archive: ContainerView },
    SaveBulkDocuments { documents: Seq<ScannedDocumentView> },
}

impl View for StorageCommand {
    type V = StorageCommandView;

    open spec fn view(&self) -> StorageCommandView {
        match self {
            StorageCommand::SaveDocument { document } => StorageCommandView::SaveDocument {
                document: document@,
            },
            StorageCommand::SaveArchive { archive } => StorageCommandView::SaveArchive {
                archive: archive@,
            },
            StorageCommand::SaveBulkDocuments { documents } =>
                StorageCommandView::SaveBulkDocuments { documents: documents_view(documents@) },
        }
    }
}

/// The answer to a request. Whoever asked with a reply channel gets exactly
/// this answer; without one it is dropped.
#[derive(Debug)]
pub enum StorageReply {
    /// The answer to `SaveDocument` and `SaveBulkDocuments`.
    Saved(Result<(), StorageError>),
    /// The answer to `SaveArchive`: the archive with its id.
    Archive(Result<Container, StorageError>),
}

} // verus!
