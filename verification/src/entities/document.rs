//! Documents: one record per file or archive entry.

use vstd::prelude::*;
use crate::engine::extractor::formats::{format_of, FormatType};
use crate::engine::scanner::{documents_view, ScannedDocument, ScannedDocumentView};
use crate::entities::container::ContainerView;
use crate::paths::{extension_of, file_extension, file_name_of, parent_of, path_file_name, path_parent};
use crate::storage::cache::ContainerCache;
use crate::storage::db;
use crate::storage::db::{constraint_violated, no_rows};
use crate::text::{lowercase_of, opt_view};

verus! {

/// Inserts a document row.
pub const SQL_INSERT_DOCUMENT: &'static str =
    "INSERT INTO documents (filename, extension, status, container_id) VALUES (?1, ?2, ?3, ?4)";

/// Inserts the full-text row of a document.
pub const SQL_INSERT_INDEX: &'static str =
    "INSERT INTO index_documents (document_id, content, description) VALUES (?1, ?2, ?3)";

/// Reads the id of the document with a given full path.
pub const SQL_SELECT_DOCUMENT_ID: &'static str = "SELECT id FROM documents_view WHERE path = ?1";

/// Where a document stands in the pipeline.
#[derive(Debug, Clone, Copy, PartialEq, Eq, Hash, Structural)]
pub enum DocumentStatus {
    New,
    Scanned,
    Extracted,
    Classified,
    Deleted,
}

/// The text under which a status is stored.
pub open spec fn status_str(status: DocumentStatus) -> Seq<char> {
    match status {
        DocumentStatus::New => "New"@,
        DocumentStatus::Scanned => "Scanned"@,
        DocumentStatus::Extracted => "Extracted"@,
        DocumentStatus::Classified => "Classified"@,
        DocumentStatus::Deleted => "Deleted"@,
    }
}

/// How far along a status is: a document only ever moves to a status that
/// is further along.
pub open spec fn status_rank(status: DocumentStatus) -> nat {
    match status {
        DocumentStatus::New => 0,
        DocumentStatus::Scanned => 1,
        DocumentStatus::Extracted => 2,
        DocumentStatus::Classified => 3,
        DocumentStatus::Deleted => 4,
    }
}

/// Why a document could not be saved or found.
#[derive(Debug)]
pub enum DocumentError {
    NotFound,
    ConstraintViolation,
    DatabaseError(rusqlite::Error),
}

/// A file or archive entry, with the keyword summary of its text.
#[derive(Debug, PartialEq, Eq, Hash)]
pub struct Document {
    id: Option<i64>,
    path: String,
    filename: String,
    extension: Option<String>,
    content: String,
    description: String,
    status: DocumentStatus,
    container_id: Option<i64>,
}

/// What a document holds.
pub struct DocumentView {
    pub id: Option<i64>,
    pub path: Seq<char>,
    pub filename: Seq<char>,
    pub extension: Option<Seq<char>>,
    pub content: Seq<char>,
    pub description: Seq<char>,
    pub status: DocumentStatus,
    pub container_id: Option<i64>,
}

impl View for Document {
    type V = DocumentView;

    closed spec fn view(&self) -> DocumentView {
        DocumentView {
            id: self.id,
            path: self.path@,
            filename: self.filename@,
            extension: opt_view(self.extension),
            content: self.content@,
            description: self.description@,
            status: self.status,
            container_id: self.container_id,
        }
    }
}

/// A document with nothing in it: no id, no container, empty texts, status
/// `New`.
pub open spec fn empty_document() -> DocumentView {
    DocumentView {
        id: None,
        path: Seq::empty(),
        filename: Seq::empty(),
        extension: None,
        content: Seq::empty(),
        description: Seq::empty(),
        status: DocumentStatus::New,
        container_id: None,
    }
}

/// The extension a document gets from its file name: the lowercase form of
/// what follows the final dot, or nothing where that is empty or absent.
pub open spec fn document_extension(file_name: Seq<char>) -> Option<Seq<char>> {
    match extension_of(file_name) {
        Some(ext) => if ext.len() == 0 {
            None
        } else {
            Some(lowercase_of(ext))
        },
        None => None,
    }
}

/// The document made for `path` whose final component is `file_name`.
pub open spec fn document_from_parts(path: Seq<char>, file_name: Option<Seq<char>>) -> DocumentView {
    let name = match file_name {
        Some(n) => n,
        None => Seq::empty(),
    };
    DocumentView {
        path,
        filename: name,
        extension: document_extension(name),
        ..empty_document()
    }
}

impl Clone for Document {
    fn clone(&self) -> (d: Self)
        ensures
            d@ == self@,
    {
        let extension = match &self.extension {
            Some(e) => Some(e.clone()),
            None => None,
        };
        Document {
            id: self.id,
            path: self.path.clone(),
            filename: self.filename.clone(),
            extension,
            content: self.content.clone(),
            description: self.description.clone(),
            status: self.status,
            container_id: self.container_id,
        }
    }
}

impl Default for Document {
    fn default() -> (d: Self)
        ensures
            d@ == empty_document(),
    {
        Document {
            id: None,
            path: String::new(),
            filename: String::new(),
            extension: None,
            content: String::new(),
            description: String::new(),
            status: DocumentStatus::New,
            container_id: None,
        }
    }
}

impl Document {
    /// The document for `path`, given the final component of the path. The
    /// file name is that component (empty where there is none); the
    /// extension comes from the file name; everything else is empty and the
    /// status is `New`.
    pub fn from_parts(path: &str, file_name: Option<&str>) -> (d: Self)
        ensures
            d@ == document_from_parts(
                path@,
                match file_name {
                    Some(n) => Some(n@),
                    None => None,
                },
            ),
    {
        let name: &str = match file_name {
            Some(n) => n,
            None => "",
        };
        proof {
            reveal_strlit("");
        }
        let extension = match file_extension(name) {
            Some(ext) => {
                if ext.as_str().unicode_len() == 0 {
                    None
                } else {
                    Some(ext.as_str().to_lowercase())
                }
            },
            None => None,
        };
        assert(name@ =~= match file_name {
            Some(n) => n@,
            None => Seq::<char>::empty(),
        });
        Document {
            id: None,
            path: path.to_owned(),
            filename: name.to_owned(),
            extension,
            content: String::new(),
            description: String::new(),
            status: DocumentStatus::New,
            container_id: None,
        }
    }

    /// The document for a filesystem path or an archive entry name.
    pub fn from_path(path: &str) -> (d: Self)
        ensures
            d@ == document_from_parts(path@, path_file_name(path@)),
    {
        let name = file_name_of(path);
        match &name {
            Some(n) => Document::from_parts(path, Some(n.as_str())),
            None => Document::from_parts(path, None),
        }
    }

    /// Sets the path.
    pub fn set_path(&mut self, path: String)
        ensures
            final(self)@ == (DocumentView { path: path@, ..old(self)@ }),
    {
        self.path = path;
    }

    /// The path.
    pub fn get_path(&self) -> (path: &str)
        ensures
            path@ == self@.path,
    {
        self.path.as_str()
    }

    /// Sets the file name.
    pub fn set_filename(&mut self, filename: String)
        ensures
            final(self)@ == (DocumentView { filename: filename@, ..old(self)@ }),
    {
        self.filename = filename;
    }

    /// The file name.
    pub fn get_filename(&self) -> (filename: &str)
        ensures
            filename@ == self@.filename,
    {
        self.filename.as_str()
    }

    /// Sets the extension, as it is given.
    pub fn set_extension(&mut self, extension: Option<String>)
        ensures
            final(self)@ == (DocumentView { extension: opt_view(extension), ..old(self)@ }),
    {
        self.extension = extension;
    }

    /// The extension, if there is one.
    pub fn get_extension(&self) -> (extension: Option<&str>)
        ensures
            match extension {
                Some(e) => self@.extension == Some(e@),
                None => self@.extension is None,
            },
    {
        match &self.extension {
            Some(e) => Some(e.as_str()),
            None => None,
        }
    }

    /// Sets the keyword summary.
    pub fn set_content(&mut self, content: String)
        ensures
            final(self)@ == (DocumentView { content: content@, ..old(self)@ }),
    {
        self.content = content;
    }

    /// The keyword summary.
    pub fn get_content(&self) -> (content: &str)
        ensures
            content@ == self@.content,
    {
        self.content.as_str()
    }

    /// Sets the description.
    pub fn set_description(&mut self, description: String)
        ensures
            final(self)@ == (DocumentView { description: description@, ..old(self)@ }),
    {
        self.description = description;
    }

    /// The description.
    pub fn get_description(&self) -> (description: &str)
        ensures
            description@ == self@.description,
    {
        self.description.as_str()
    }

    /// The id, once the store has given one.
    pub fn get_id(&self) -> (id: Option<i64>)
        ensures
            id == self@.id,
    {
        self.id
    }

    /// Sets the id.
    pub fn set_id(&mut self, id: i64)
        ensures
            final(self)@ == (DocumentView { id: Some(id), ..old(self)@ }),
    {
        self.id = Some(id);
    }

    /// Sets the id of the container.
    pub fn set_container_id(&mut self, container_id: i64)
        ensures
            final(self)@ == (DocumentView { container_id: Some(container_id), ..old(self)@ }),
    {
        self.container_id = Some(container_id);
    }

    /// The id of the container, if it is known.
    pub fn get_container_id(&self) -> (container_id: Option<i64>)
        ensures
            container_id == self@.container_id,
    {
        self.container_id
    }

    /// The format of the document, by its extension in any letter case. A
    /// document without an extension is `Unknown`.
    pub fn get_format_type(&self) -> (format: FormatType)
        ensures
            format == format_of(
                lowercase_of(
                    match self@.extension {
                        Some(e) => e,
                        None => Seq::empty(),
                    },
                ),
            ),
    {
        proof {
            reveal_strlit("");
        }
        let ext: &str = match &self.extension {
            Some(e) => e.as_str(),
            None => "",
        };
        assert(ext@ =~= match self@.extension {
            Some(e) => e,
            None => Seq::<char>::empty(),
        });
        match FormatType::from_str(ext) {
            Ok(format) => format,
            Err(_) => FormatType::Unknown,
        }
    }

    /// The status.
    pub fn get_status(&self) -> (status: &DocumentStatus)
        ensures
            *status == self@.status,
    {
        &self.status
    }

    /// The text under which the status is stored.
    pub fn get_status_str(&self) -> (s: &str)
        ensures
            s@ == status_str(self@.status),
    {
        status_text(self.status)
    }

    /// Sets the status, whatever it was.
    pub fn set_status(&mut self, status: DocumentStatus)
        ensures
            final(self)@ == (DocumentView { status, ..old(self)@ }),
    {
        self.status = status;
    }
}

/// What the store is given for a document that is saved on its own.
#[derive(Debug, PartialEq, Eq)]
pub struct DocumentValues {
    pub filename: String,
    pub extension: Option<String>,
    pub status: DocumentStatus,
    /// The container, or nothing where the document carries none, which
    /// the store refuses.
    pub container_id: Option<i64>,
    pub content: String,
    pub description: String,
}

/// What the values of a single save hold.
pub struct DocumentValuesView {
    pub filename: Seq<char>,
    pub extension: Option<Seq<char>>,
    pub status: DocumentStatus,
    pub container_id: Option<i64>,
    pub content: Seq<char>,
    pub description: Seq<char>,
}

impl View for DocumentValues {
    type V = DocumentValuesView;

    open spec fn view(&self) -> DocumentValuesView {
        DocumentValuesView {
            filename: self.filename@,
            extension: opt_view(self.extension),
            status: self.status,
            container_id: self.container_id,
            content: self.content@,
            description: self.description@,
        }
    }
}

/// What the store is given for a document that is saved on its own: what
/// the document holds, field by field. The full-text row is written
/// whatever the content and the description are.
pub open spec fn values_of(document: DocumentView) -> DocumentValuesView {
    DocumentValuesView {
        filename: document.filename,
        extension: document.extension,
        status: document.status,
        container_id: document.container_id,
        content: document.content,
        description: document.description,
    }
}

/// What the store is given for one document of a bulk save.
#[derive(Debug, PartialEq, Eq)]
pub struct DocumentRow {
    pub filename: String,
    pub extension: Option<String>,
    pub status: DocumentStatus,
    pub container_id: i64,
    /// The content and the description for the full-text index, or nothing
    /// where the document gets no full-text row.
    pub index: Option<(String, String)>,
}

/// What a row holds.
pub struct DocumentRowView {
    pub filename: Seq<char>,
    pub extension: Option<Seq<char>>,
    pub status: DocumentStatus,
    pub container_id: i64,
    pub index: Option<(Seq<char>, Seq<char>)>,
}

impl View for DocumentRow {
    type V = DocumentRowView;

    open spec fn view(&self) -> DocumentRowView {
        DocumentRowView {
            filename: self.filename@,
            extension: opt_view(self.extension),
            status: self.status,
            container_id: self.container_id,
            index: match self.index {
                Some(texts) => Some((texts.0@, texts.1@)),
                None => None,
            },
        }
    }
}

/// What a list of rows holds, in order.
pub open spec fn rows_view(rows: Seq<DocumentRow>) -> Seq<DocumentRowView> {
    Seq::new(rows.len(), |i: int| rows[i]@)
}

/// The full-text row of a document: its content and description, unless
/// both are empty.
pub open spec fn index_part(document: DocumentView) -> Option<(Seq<char>, Seq<char>)> {
    if document.content.len() == 0 && document.description.len() == 0 {
        None
    } else {
        Some((document.content, document.description))
    }
}

/// The row of a document whose container has the given id.
pub open spec fn row_in(document: DocumentView, container_id: i64) -> DocumentRowView {
    DocumentRowView {
        filename: document.filename,
        extension: document.extension,
        status: document.status,
        container_id,
        index: index_part(document),
    }
}

/// The path under which the parent of a document is looked up: the parent
/// of its path, or the empty path where it has none.
pub open spec fn parent_key(document: DocumentView) -> Seq<char> {
    match path_parent(document.path) {
        Some(parent) => parent,
        None => Seq::empty(),
    }
}

/// The id of the container of a document: the one it carries, or else the
/// id that the cache has for its parent.
pub open spec fn container_for(
    document: DocumentView,
    cache: Map<Seq<char>, ContainerView>,
) -> Option<i64> {
    match document.container_id {
        Some(id) => Some(id),
        None => if cache.contains_key(parent_key(document)) {
            Some(cache[parent_key(document)].id)
        } else {
            None
        },
    }
}

/// The row of a document, where its container can be told.
pub open spec fn row_of(document: DocumentView, cache: Map<Seq<char>, ContainerView>) -> Option<
    DocumentRowView,
> {
    match container_for(document, cache) {
        Some(id) => Some(row_in(document, id)),
        None => None,
    }
}

/// Every document of the list has a container that can be told.
pub open spec fn all_resolved(
    documents: Seq<ScannedDocumentView>,
    cache: Map<Seq<char>, ContainerView>,
) -> bool {
    forall|i: int|
        0 <= i < documents.len() ==> container_for((#[trigger] documents[i]).document, cache)
            is Some
}

/// No document gets a full-text row whose content and description are
/// both empty.
pub proof fn lemma_index_row_not_empty(document: DocumentView, container_id: i64)
    ensures
        match row_in(document, container_id).index {
            Some(texts) => texts.0.len() > 0 || texts.1.len() > 0,
            None => document.content.len() == 0 && document.description.len() == 0,
        },
{
}

/// A row carries the container id that its document carries.
pub proof fn lemma_row_keeps_container(
    document: DocumentView,
    cache: Map<Seq<char>, ContainerView>,
)
    requires
        document.container_id is Some,
    ensures
        row_of(document, cache) is Some,
        row_of(document, cache)->0.container_id == document.container_id->0,
{
}

impl Document {
    /// The row of this document in the container with the given id.
    pub fn row_with_container(&self, container_id: i64) -> (row: DocumentRow)
        ensures
            row@ == row_in(self@, container_id),
    {
        let extension = match &self.extension {
            Some(e) => Some(e.clone()),
            None => None,
        };
        let index = if self.content.as_str().unicode_len() == 0
            && self.description.as_str().unicode_len() == 0 {
            None
        } else {
            Some((self.content.clone(), self.description.clone()))
        };
        DocumentRow {
            filename: self.filename.clone(),
            extension,
            status: self.status,
            container_id,
            index,
        }
    }

    /// The row of this document, where its container can be told: the
    /// container is the one whose id the document carries, or else the
    /// one that the cache has for the parent of its path.
    pub fn to_row(&self, cache: &ContainerCache) -> (row: Option<DocumentRow>)
        ensures
            match row {
                Some(r) => row_of(self@, cache@) == Some(r@),
                None => row_of(self@, cache@) is None,
            },
    {
        match self.container_id {
            Some(id) => Some(self.row_with_container(id)),
            None => {
                proof {
                    reveal_strlit("");
                }
                let parent = parent_of(self.path.as_str());
                let key: &str = match &parent {
                    Some(p) => p.as_str(),
                    None => "",
                };
                assert(key@ =~= parent_key(self@));
                match cache.get(key) {
                    Some(container) => Some(self.row_with_container(container.get_id())),
                    None => None,
                }
            },
        }
    }

    /// Saves the document on its own: inserts its row and its full-text
    /// row, and takes over the id that the store gave. A collision on file
    /// name and container is reported as `ConstraintViolation`, every other
    /// failure as `DatabaseError`. On failure the document stays as it was.
    pub fn save(&mut self, conn: &rusqlite::Connection) -> (r: Result<(), DocumentError>)
        ensures
            r is Ok ==> final(self)@.id is Some && final(self)@ == (DocumentView {
                id: final(self)@.id,
                ..old(self)@
            }),
            r is Err ==> final(self)@ == old(self)@,
            r is Err ==> r->Err_0 is ConstraintViolation || r->Err_0 is DatabaseError,
    {
        let values = self.values();
        let extension: Option<&str> = match &values.extension {
            Some(e) => Some(e.as_str()),
            None => None,
        };
        let inserted = db::insert_document(
            conn,
            SQL_INSERT_DOCUMENT,
            values.filename.as_str(),
            extension,
            status_text(values.status),
            values.container_id,
        );
        match inserted {
            Ok(_) => {
                let document_id = db::last_insert_rowid(conn);
                let indexed = db::insert_index(
                    conn,
                    SQL_INSERT_INDEX,
                    document_id,
                    values.content.as_str(),
                    values.description.as_str(),
                );
                self.take_saved(document_id, indexed)
            },
            Err(e) => Err(Document::insert_failure(e)),
        }
    }

    /// What the store is given for this document when it is saved on its
    /// own: the file name, the extension, the status and the container for
    /// its row, and the content and the description for its full-text row.
    pub fn values(&self) -> (values: DocumentValues)
        ensures
            values@ == values_of(self@),
    {
        let extension = match &self.extension {
            Some(e) => Some(e.clone()),
            None => None,
        };
        DocumentValues {
            filename: self.filename.clone(),
            extension,
            status: self.status,
            container_id: self.container_id,
            content: self.content.clone(),
            description: self.description.clone(),
        }
    }

    /// Takes the store's answers to a save of this document on its own,
    /// once its row is in: the id of that row, and the answer to the
    /// insert of its full-text row. Where that went in too, the id of the
    /// row becomes the id of the document. Where it failed, the document
    /// stays as it was and the failure is a `DatabaseError` with the error
    /// of the store.
    pub fn take_saved(&mut self, document_id: i64, indexed: Result<(), rusqlite::Error>) -> (r:
        Result<(), DocumentError>)
        ensures
            match indexed {
                Ok(_) => r is Ok && final(self)@ == (DocumentView {
                    id: Some(document_id),
                    ..old(self)@
                }),
                Err(e) => final(self)@ == old(self)@ && r == Err::<(), DocumentError>(
                    DocumentError::DatabaseError(e),
                ),
            },
    {
        match indexed {
            Ok(_) => {
                self.id = Some(document_id);
                Ok(())
            },
            Err(e) => Err(DocumentError::DatabaseError(e)),
        }
    }

    /// What the save of one row of a batch gives, once the row is in: the
    /// id of the row where its full-text row went in too or there was none
    /// to insert; a `DatabaseError` with the error of the store where the
    /// full-text row failed.
    pub fn row_saved(document_id: i64, indexed: Option<Result<(), rusqlite::Error>>) -> (r: Result<
        i64,
        DocumentError,
    >)
        ensures
            r == (match indexed {
                Some(Err(e)) => Err::<i64, DocumentError>(DocumentError::DatabaseError(e)),
                _ => Ok::<i64, DocumentError>(document_id),
            }),
    {
        match indexed {
            Some(Err(e)) => Err(DocumentError::DatabaseError(e)),
            _ => Ok(document_id),
        }
    }

    /// The error for a document row that the store refused:
    /// `ConstraintViolation` where a constraint was violated, which is what
    /// a collision on file name and container is, and `DatabaseError` with
    /// the error of the store otherwise.
    pub fn insert_failure(e: rusqlite::Error) -> (error: DocumentError)
        ensures
            error == (if constraint_violated(e) {
                DocumentError::ConstraintViolation
            } else {
                DocumentError::DatabaseError(e)
            }),
    {
        if db::is_constraint_violation(&e) {
            DocumentError::ConstraintViolation
        } else {
            DocumentError::DatabaseError(e)
        }
    }

    /// The id that the store has for the full path of this document.
    /// `NotFound` where the store has no such document: a query without
    /// rows is never reported as a `DatabaseError`. Every other failure of
    /// the store is a `DatabaseError` with the error of the store.
    pub fn get_id_by_path(&self, conn: &rusqlite::Connection) -> (r: Result<i64, DocumentError>)
        ensures
            r is Err ==> r->Err_0 is NotFound || r->Err_0 is DatabaseError,
            r is Err && r->Err_0 is DatabaseError ==> !no_rows(r->Err_0->DatabaseError_0),
    {
        let params = self.lookup_params();
        Document::lookup_result(db::query_id(conn, SQL_SELECT_DOCUMENT_ID, &params))
    }

    /// What the store is given to look this document up: its path.
    pub fn lookup_params(&self) -> (params: Vec<String>)
        ensures
            crate::text::strings_view(params@) == seq![self@.path],
    {
        let mut params: Vec<String> = Vec::new();
        params.push(self.path.clone());
        assert(crate::text::strings_view(params@) =~= seq![self@.path]);
        params
    }

    /// What a lookup gives for what the store answered: the id that was
    /// found; `NotFound` where the query returned no rows; `DatabaseError`
    /// with the error of the store for every other failure.
    pub fn lookup_result(answer: Result<i64, rusqlite::Error>) -> (r: Result<i64, DocumentError>)
        ensures
            r == (match answer {
                Ok(id) => Ok::<i64, DocumentError>(id),
                Err(e) => if no_rows(e) {
                    Err::<i64, DocumentError>(DocumentError::NotFound)
                } else {
                    Err::<i64, DocumentError>(DocumentError::DatabaseError(e))
                },
            }),
    {
        match answer {
            Ok(id) => Ok(id),
            Err(e) => {
                if db::is_no_rows(&e) {
                    Err(DocumentError::NotFound)
                } else {
                    Err(DocumentError::DatabaseError(e))
                }
            },
        }
    }

    /// The id of the document: the one it carries, or else the one that the
    /// store has for its path.
    pub fn _get_id(&self, conn: &rusqlite::Connection) -> (r: Result<i64, DocumentError>)
        ensures
            self@.id is Some ==> r is Ok && r->Ok_0 == self@.id->0,
            r is Err ==> r->Err_0 is NotFound || r->Err_0 is DatabaseError,
            r is Err && r->Err_0 is DatabaseError ==> !no_rows(r->Err_0->DatabaseError_0),
    {
        match self.id {
            Some(id) => Ok(id),
            None => self.get_id_by_path(conn),
        }
    }

    /// The rows of a list of documents, in order, or nothing where the
    /// container of one of them cannot be told.
    pub fn plan_rows(documents: &Vec<ScannedDocument>, cache: &ContainerCache) -> (rows: Option<
        Vec<DocumentRow>,
    >)
        ensures
            rows is Some == all_resolved(documents_view(documents@), cache@),
            rows is Some ==> rows->0.len() == documents.len(),
            rows is Some ==> forall|i: int|
                0 <= i < documents.len() ==> Some((#[trigger] rows->0[i])@) == row_of(
                    documents[i]@.document,
                    cache@,
                ),
    {
        let mut rows: Vec<DocumentRow> = Vec::new();
        let mut i: usize = 0;
        while i < documents.len()
            invariant
                i <= documents.len(),
                rows.len() == i,
                forall|k: int|
                    0 <= k < i ==> container_for(
                        (#[trigger] documents_view(documents@)[k]).document,
                        cache@,
                    ) is Some,
                forall|k: int|
                    0 <= k < i ==> Some((#[trigger] rows[k])@) == row_of(
                        documents[k]@.document,
                        cache@,
                    ),
            decreases documents.len() - i,
        {
            assert(documents_view(documents@)[i as int] == documents[i as int]@);
            match documents[i].document.to_row(cache) {
                Some(row) => {
                    rows.push(row);
                },
                None => {
                    return None;
                },
            }
            i = i + 1;
        }
        Some(rows)
    }

    /// Saves a batch of documents in one transaction: all of them or none.
    /// An empty batch is saved without a word to the store. A batch with a
    /// document whose container cannot be told is refused as `NotFound`
    /// before the store is asked. A collision on file name and container
    /// is reported as `ConstraintViolation`, every other failure of the
    /// store as `DatabaseError`.
    pub fn save_bulk(
        conn: &mut rusqlite::Connection,
        documents: Vec<ScannedDocument>,
        cache: &ContainerCache,
    ) -> (r: Result<(), DocumentError>)
        ensures
            documents.len() == 0 ==> r is Ok,
            !all_resolved(documents_view(documents@), cache@) ==> r matches Err(
                DocumentError::NotFound,
            ),
            documents.len() > 0 && all_resolved(documents_view(documents@), cache@) && r is Err
                ==> !(r->Err_0 is NotFound),
    {
        if documents.len() == 0 {
            return Ok(());
        }
        let rows = match Document::plan_rows(&documents, cache) {
            Some(rows) => rows,
            None => {
                return Err(DocumentError::NotFound);
            },
        };
        let tx = match db::begin(conn) {
            Ok(tx) => tx,
            Err(e) => {
                return Err(DocumentError::DatabaseError(e));
            },
        };
        let mut i: usize = 0;
        while i < rows.len()
            invariant
                i <= rows.len(),
                documents.len() > 0,
                all_resolved(documents_view(documents@), cache@),
            decreases rows.len() - i,
        {
            match Document::insert_row(db::connection_of(&tx), &rows[i]) {
                Ok(_) => {},
                Err(e) => {
                    return Err(e);
                },
            }
            i = i + 1;
        }
        match db::commit(tx) {
            Ok(_) => Ok(()),
            Err(e) => Err(DocumentError::DatabaseError(e)),
        }
    }

    /// Inserts one row of a batch, with its full-text row where it has one,
    /// and returns the id that the store gave. A document row that the
    /// store refuses for a violated constraint is reported as
    /// `ConstraintViolation`; a `DatabaseError` carries a violated
    /// constraint only where the full-text row was refused.
    fn insert_row(conn: &rusqlite::Connection, row: &DocumentRow) -> (r: Result<i64, DocumentError>)
        ensures
            r is Err ==> r->Err_0 is ConstraintViolation || r->Err_0 is DatabaseError,
            r is Err && r->Err_0 is DatabaseError && row@.index is None ==> !constraint_violated(
                r->Err_0->DatabaseError_0,
            ),
    {
        let extension: Option<&str> = match &row.extension {
            Some(e) => Some(e.as_str()),
            None => None,
        };
        let inserted = db::insert_document(
            conn,
            SQL_INSERT_DOCUMENT,
            row.filename.as_str(),
            extension,
            status_text(row.status),
            Some(row.container_id),
        );
        match inserted {
            Ok(_) => {
                let document_id = db::last_insert_rowid(conn);
                let indexed = match &row.index {
                    Some(texts) => Some(
                        db::insert_index(
                            conn,
                            SQL_INSERT_INDEX,
                            document_id,
                            texts.0.as_str(),
                            texts.1.as_str(),
                        ),
                    ),
                    None => None,
                };
                Document::row_saved(document_id, indexed)
            },
            Err(e) => Err(Document::insert_failure(e)),
        }
    }
}

/// The text under which a status is stored.
pub fn status_text(status: DocumentStatus) -> (s: &'static str)
    ensures
        s@ == status_str(status),
{
    match status {
        DocumentStatus::New => "New",
        DocumentStatus::Scanned => "Scanned",
        DocumentStatus::Extracted => "Extracted",
        DocumentStatus::Classified => "Classified",
        DocumentStatus::Deleted => "Deleted",
    }
}

} // verus!
