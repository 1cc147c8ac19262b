//! The store and the worker that owns it.

pub mod cache;
pub mod commands;
pub mod db;

use vstd::prelude::*;
use vstd::string::StringExecFns;
use crate::engine::scanner::documents_view;
use crate::entities::container::{parents_known, Container, ContainerError, ContainerView};
use crate::entities::document::{all_resolved, Document, DocumentError};
use crate::storage::cache::{extends, ContainerCache};
use crate::storage::commands::{StorageCommand, StorageReply};

verus! {

pub const DEFAULT_STORAGE_WORKER_RECEIVE_TIMEOUT_MS: u64 = 100;

pub const DEFAULT_STORAGE_DB_JOURNAL_MODE: &'static str = "WAL";

pub const DEFAULT_STORAGE_DB_CACHE_SIZE: &'static str = "-2000";

pub const DEFAULT_STORAGE_DB_TEMP_STORE: &'static str = "MEMORY";

pub const DEFAULT_STORAGE_DB_LOCKING_MODE: &'static str = "EXCLUSIVE";

pub const DEFAULT_STORAGE_DB_PATH: &'static str = "storage.db";

/// The text that joins the path of a container and a file name unless the
/// settings say otherwise.
pub const DEFAULT_PATH_SEPARATOR: &'static str = "/";

pub const SQL_CREATE_CONTAINERS: &'static str =
    "CREATE TABLE IF NOT EXISTS containers (
        id INTEGER PRIMARY KEY,
        path TEXT NOT NULL UNIQUE,
        type TEXT NOT NULL
    )";

pub const SQL_CREATE_CONTAINERS_INDEX: &'static str =
    "CREATE UNIQUE INDEX IF NOT EXISTS idx_containers_path ON containers(path)";

pub const SQL_CREATE_DOCUMENTS: &'static str =
    "CREATE TABLE IF NOT EXISTS documents (
        id INTEGER PRIMARY KEY,
        filename TEXT NOT NULL,
        extension TEXT,
        status TEXT NOT NULL DEFAULT 'New',
        container_id INTEGER NOT NULL,
        UNIQUE(filename, container_id),
        FOREIGN KEY(container_id) REFERENCES containers(id)
    )";

pub const SQL_CREATE_INDEX_DOCUMENTS: &'static str =
    "CREATE VIRTUAL TABLE IF NOT EXISTS index_documents USING fts5 (
        document_id UNINDEXED,
        content,
        description
    )";

/// The view of documents with their containers, up to the separator that
/// joins the path of the container and the file name.
pub const SQL_CREATE_VIEW_HEAD: &'static str =
    "CREATE VIEW IF NOT EXISTS documents_view AS
        SELECT
        c.id as container_id,
        d.id as id,
        c.type as container_type,
        d.status as status,
        c.path || '";

/// The view of documents with their containers, from the separator on.
pub const SQL_CREATE_VIEW_TAIL: &'static str =
    "' || d.filename as path,
        c.path as container_path,
        d.filename as filename,
        d.extension as extension
        FROM documents d
        INNER JOIN containers c ON c.id = d.container_id
        ORDER BY container_id, id";

/// Why the store failed.
#[derive(Debug)]
pub enum StorageError {
    /// The database could not be opened or set up.
    InitializationError(rusqlite::Error),
    ExecutionError(rusqlite::Error),
    ContainerError(ContainerError),
    DocumentError(DocumentError),
}

/// The settings of the store.
#[derive(Debug)]
pub struct StorageConfig {
    pub database_path: String,
    pub journal_mode: String,
    pub cache_size: String,
    pub temp_store: String,
    pub locking_mode: String,
    pub worker_receive_timeout_ms: u64,
    /// The text that joins the path of a container and a file name in the
    /// view of documents: the separator of path components of the platform.
    pub path_separator: String,
}

/// A setting that was given, or else its default.
pub fn setting_or(given: Option<String>, default: &str) -> (value: String)
    ensures
        value@ == (match given {
            Some(text) => text@,
            None => default@,
        }),
{
    match given {
        Some(text) => text,
        None => default.to_owned(),
    }
}

impl Default for StorageConfig {
    fn default() -> (config: Self)
        ensures
            config.database_path@ == DEFAULT_STORAGE_DB_PATH@,
            config.journal_mode@ == DEFAULT_STORAGE_DB_JOURNAL_MODE@,
            config.cache_size@ == DEFAULT_STORAGE_DB_CACHE_SIZE@,
            config.temp_store@ == DEFAULT_STORAGE_DB_TEMP_STORE@,
            config.locking_mode@ == DEFAULT_STORAGE_DB_LOCKING_MODE@,
            config.worker_receive_timeout_ms == DEFAULT_STORAGE_WORKER_RECEIVE_TIMEOUT_MS,
            config.path_separator@ == DEFAULT_PATH_SEPARATOR@,
    {
        StorageConfig {
            database_path: DEFAULT_STORAGE_DB_PATH.to_owned(),
            journal_mode: DEFAULT_STORAGE_DB_JOURNAL_MODE.to_owned(),
            cache_size: DEFAULT_STORAGE_DB_CACHE_SIZE.to_owned(),
            temp_store: DEFAULT_STORAGE_DB_TEMP_STORE.to_owned(),
            locking_mode: DEFAULT_STORAGE_DB_LOCKING_MODE.to_owned(),
            worker_receive_timeout_ms: DEFAULT_STORAGE_WORKER_RECEIVE_TIMEOUT_MS,
            path_separator: DEFAULT_PATH_SEPARATOR.to_owned(),
        }
    }
}

/// The statement that creates the view of documents with their containers,
/// for a given path separator.
pub fn view_statement(separator: &str) -> (sql: String)
    ensures
        sql@ == SQL_CREATE_VIEW_HEAD@ + separator@ + SQL_CREATE_VIEW_TAIL@,
{
    let mut sql = String::from_str(SQL_CREATE_VIEW_HEAD);
    sql.append(separator);
    sql.append(SQL_CREATE_VIEW_TAIL);
    sql
}

/// What a list of named values holds, in order.
pub open spec fn pairs_view(pairs: Seq<(String, String)>) -> Seq<(Seq<char>, Seq<char>)> {
    Seq::new(pairs.len(), |i: int| (pairs[i].0@, pairs[i].1@))
}

/// The session options that the settings ask for, each with its name and
/// its value, in the order in which they are applied.
pub open spec fn session_options(config: StorageConfig) -> Seq<(Seq<char>, Seq<char>)> {
    seq![
        ("journal_mode"@, config.journal_mode@),
        ("cache_size"@, config.cache_size@),
        ("temp_store"@, config.temp_store@),
        ("locking_mode"@, config.locking_mode@),
    ]
}

/// The statements that create what the schema lacks, in the order in
/// which they are run: the containers with their index, the documents, the
/// full-text table, and the view of documents with their containers.
pub open spec fn schema_statements(separator: Seq<char>) -> Seq<Seq<char>> {
    seq![
        SQL_CREATE_CONTAINERS@,
        SQL_CREATE_CONTAINERS_INDEX@,
        SQL_CREATE_DOCUMENTS@,
        SQL_CREATE_INDEX_DOCUMENTS@,
        SQL_CREATE_VIEW_HEAD@ + separator + SQL_CREATE_VIEW_TAIL@,
    ]
}

impl StorageConfig {
    /// The session options that the settings ask for, in the order in
    /// which they are applied.
    pub fn options(&self) -> (options: Vec<(String, String)>)
        ensures
            pairs_view(options@) == session_options(*self),
    {
        let mut options: Vec<(String, String)> = Vec::new();
        options.push(("journal_mode".to_owned(), self.journal_mode.clone()));
        options.push(("cache_size".to_owned(), self.cache_size.clone()));
        options.push(("temp_store".to_owned(), self.temp_store.clone()));
        options.push(("locking_mode".to_owned(), self.locking_mode.clone()));
        assert(pairs_view(options@) =~= session_options(*self));
        options
    }

    /// The statements that create what the schema lacks, in the order in
    /// which they are run.
    pub fn statements(&self) -> (statements: Vec<String>)
        ensures
            crate::text::strings_view(statements@) == schema_statements(self.path_separator@),
    {
        let mut statements: Vec<String> = Vec::new();
        statements.push(SQL_CREATE_CONTAINERS.to_owned());
        statements.push(SQL_CREATE_CONTAINERS_INDEX.to_owned());
        statements.push(SQL_CREATE_DOCUMENTS.to_owned());
        statements.push(SQL_CREATE_INDEX_DOCUMENTS.to_owned());
        statements.push(view_statement(self.path_separator.as_str()));
        assert(crate::text::strings_view(statements@) =~= schema_statements(
            self.path_separator@,
        ));
        statements
    }
}

/// The single writer of the store: the connection and the container cache.
pub struct StorageEngine {
    conn: rusqlite::Connection,
    container_cache: ContainerCache,
}

impl StorageEngine {
    /// Opens the database of the store, with an empty container cache.
    /// A database that cannot be opened is an `InitializationError`.
    pub fn open(config: &StorageConfig) -> (r: Result<Self, StorageError>)
        ensures
            r is Ok ==> r->Ok_0.cache_view() == Map::<Seq<char>, ContainerView>::empty(),
            r is Err ==> r->Err_0 is InitializationError,
    {
        match db::open(config.database_path.as_str()) {
            Ok(conn) => Ok(StorageEngine { conn, container_cache: ContainerCache::new() }),
            Err(e) => Err(StorageError::InitializationError(e)),
        }
    }

    /// Opens the database, applies the session options and creates what
    /// the schema lacks. Every failure is an `InitializationError`.
    pub fn initialize(config: &StorageConfig) -> (r: Result<(), StorageError>)
        ensures
            r is Err ==> r->Err_0 is InitializationError,
    {
        match StorageEngine::open(config) {
            Ok(engine) => engine.apply_schema(config),
            Err(e) => Err(e),
        }
    }

    /// Applies the session options of the settings, then runs the
    /// statements that create the tables, the index and the view that the
    /// database lacks, each once and in order. Stops at the first failure,
    /// which is an `InitializationError`.
    pub fn apply_schema(&self, config: &StorageConfig) -> (r: Result<(), StorageError>)
        ensures
            r is Err ==> r->Err_0 is InitializationError,
    {
        let options = config.options();
        let mut i: usize = 0;
        while i < options.len()
            invariant
                i <= options.len(),
            decreases options.len() - i,
        {
            let applied = db::pragma_update(
                &self.conn,
                options[i].0.as_str(),
                options[i].1.as_str(),
            );
            if let Err(e) = applied {
                return Err(StorageError::InitializationError(e));
            }
            i = i + 1;
        }
        let statements = config.statements();
        let mut k: usize = 0;
        while k < statements.len()
            invariant
                k <= statements.len(),
            decreases statements.len() - k,
        {
            if let Err(e) = db::execute(&self.conn, statements[k].as_str()) {
                return Err(StorageError::InitializationError(e));
            }
            k = k + 1;
        }
        Ok(())
    }

    /// The connection of the store, for queries.
    pub fn get_connection(&self) -> (conn: &rusqlite::Connection)
        ensures
            *conn == self.connection(),
    {
        &self.conn
    }

    /// The container cache.
    pub fn get_cache(&self) -> (cache: &ContainerCache)
        ensures
            cache@ == self.cache_view(),
    {
        &self.container_cache
    }

    /// What the container cache holds.
    pub closed spec fn cache_view(&self) -> Map<Seq<char>, ContainerView> {
        self.container_cache@
    }

    /// The connection that the engine owns.
    pub closed spec fn connection(&self) -> rusqlite::Connection {
        self.conn
    }

    /// Saves the container of an archive and answers with the archive as
    /// the store knows it: same path, same type, and the id of its row.
    /// Every failure is a `ContainerError` that carries the error of the
    /// store. The engine itself stays as it was: an archive is not put
    /// into the cache.
    pub fn save_archive(&mut self, archive: Container) -> (r: Result<Container, StorageError>)
        ensures
            r is Ok ==> r->Ok_0@.path == archive@.path && r->Ok_0@.kind == archive@.kind,
            r is Err ==> r->Err_0 is ContainerError && r->Err_0->ContainerError_0
                is DatabaseError,
            final(self).cache_view() == old(self).cache_view(),
            final(self).connection() == old(self).connection(),
    {
        let mut archive = archive;
        match archive.save(&self.conn) {
            Ok(_) => Ok(archive),
            Err(e) => Err(StorageError::ContainerError(e)),
        }
    }

    /// Saves a batch: resolves the parents that the documents lack, then
    /// saves the documents in one transaction. An empty batch succeeds
    /// without a word to the store. A parent that cannot be resolved is a
    /// `ContainerError`; a failure while saving is a `DocumentError`.
    ///
    /// Unless a parent could not be resolved, the cache knows afterwards
    /// the parent of every document that needs one, and the batch is
    /// refused as `NotFound` exactly where the container of one of its
    /// documents cannot be told even then. So a batch that was saved is one
    /// in which every document had a container.
    pub fn save_bulk(&mut self, documents: Vec<crate::engine::scanner::ScannedDocument>) -> (r:
        Result<(), StorageError>)
        ensures
            documents.len() == 0 ==> r is Ok,
            documents.len() == 0 || parents_known(documents@, old(self).cache_view())
                ==> final(self).cache_view() == old(self).cache_view(),
            r is Err ==> r->Err_0 is ContainerError || r->Err_0 is DocumentError,
            r is Err && parents_known(documents@, old(self).cache_view()) ==> r->Err_0
                is DocumentError,
            extends(final(self).cache_view(), old(self).cache_view()),
            !(r is Err && r->Err_0 is ContainerError) ==> parents_known(
                documents@,
                final(self).cache_view(),
            ),
            !(r is Err && r->Err_0 is ContainerError) ==> (all_resolved(
                documents_view(documents@),
                final(self).cache_view(),
            ) <==> !(r matches Err(StorageError::DocumentError(DocumentError::NotFound)))),
    {
        if documents.len() == 0 {
            return Ok(());
        }
        match Container::update_cache_from_documents(
            &self.conn,
            &documents,
            &mut self.container_cache,
        ) {
            Ok(_) => {},
            Err(e) => {
                return Err(StorageError::ContainerError(e));
            },
        }
        match Document::save_bulk(&mut self.conn, documents, &self.container_cache) {
            Ok(_) => Ok(()),
            Err(e) => Err(StorageError::DocumentError(e)),
        }
    }

    /// Carries out one request and gives the answer to it. A request to
    /// save documents is answered with `Saved`, one to save an archive
    /// with `Archive`. A failure is part of the answer: the worker goes on
    /// with the next request.
    pub fn handle(&mut self, command: StorageCommand) -> (reply: StorageReply)
        ensures
            match command {
                StorageCommand::SaveDocument { document } => {
                    &&& reply is Saved
                    &&& reply->Saved_0 is Err ==> reply->Saved_0->Err_0 is DocumentError
                    &&& final(self).cache_view() == old(self).cache_view()
                },
                StorageCommand::SaveBulkDocuments { documents } => {
                    &&& reply is Saved
                    &&& documents.len() == 0 ==> reply->Saved_0 is Ok
                    &&& documents.len() == 0 ==> final(self).cache_view()
                        == old(self).cache_view()
                    &&& reply->Saved_0 is Err ==> reply->Saved_0->Err_0 is ContainerError
                        || reply->Saved_0->Err_0 is DocumentError
                    &&& reply->Saved_0 is Ok ==> parents_known(
                        documents@,
                        final(self).cache_view(),
                    ) && all_resolved(documents_view(documents@), final(self).cache_view())
                },
                StorageCommand::SaveArchive { archive } => {
                    &&& reply is Archive
                    &&& reply->Archive_0 is Ok ==> reply->Archive_0->Ok_0@.path == archive@.path
                        && reply->Archive_0->Ok_0@.kind == archive@.kind
                    &&& reply->Archive_0 is Err ==> reply->Archive_0->Err_0 is ContainerError
                    &&& final(self).cache_view() == old(self).cache_view()
                },
            },
            extends(final(self).cache_view(), old(self).cache_view()),
    {
        match command {
            StorageCommand::SaveDocument { document } => {
                let mut document = document;
                match document.save(&self.conn) {
                    Ok(_) => StorageReply::Saved(Ok(())),
                    Err(e) => StorageReply::Saved(Err(StorageError::DocumentError(e))),
                }
            },
            StorageCommand::SaveBulkDocuments { documents } => StorageReply::Saved(
                self.save_bulk(documents),
            ),
            StorageCommand::SaveArchive { archive } => StorageReply::Archive(
                self.save_archive(archive),
            ),
        }
    }
}

} // verus!
