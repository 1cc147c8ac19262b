//! Containers: the directory or archive that holds a document.

use vstd::prelude::*;
use crate::engine::scanner::ScannedDocument;
use crate::entities::document::Document;
use crate::paths::{parent_of, path_parent};
use crate::storage::cache::{extends, ContainerCache};
use crate::storage::db;
use crate::storage::db::no_rows;
use crate::text::{str_eq, strings_view};

verus! {

/// Why a container could not be saved or resolved.
#[derive(Debug)]
pub enum ContainerError {
    /// The store refused or failed the statement.
    DatabaseError(rusqlite::Error),
    /// The store holds a container whose type is neither `Folder` nor
    /// `Archive`.
    InvalidType,
}

/// Inserts a container unless its path is taken, and returns the new row.
pub const SQL_INSERT_CONTAINER: &'static str =
    "INSERT INTO containers (path, type) VALUES (?1, ?2) ON CONFLICT(path) DO NOTHING RETURNING id, path, type";

/// Reads the container with a given path.
pub const SQL_SELECT_CONTAINER: &'static str = "SELECT id, path, type FROM containers WHERE path = ?1";

/// Inserts a container unless its path is taken, and returns the new id.
pub const SQL_INSERT_CONTAINER_ID: &'static str =
    "INSERT INTO containers (path, type) VALUES (?1, ?2) ON CONFLICT(path) DO NOTHING RETURNING id";

/// Reads the id of the container with a given path.
pub const SQL_SELECT_CONTAINER_ID: &'static str = "SELECT id FROM containers WHERE path = ?1";

/// The kind of parent a document has.
#[derive(Debug, Clone, Copy, PartialEq, Eq, Hash, Structural)]
pub enum ContainerType {
    Folder,
    Archive,
}

/// The text under which a container type is stored.
pub open spec fn container_type_str(t: ContainerType) -> Seq<char> {
    match t {
        ContainerType::Folder => "Folder"@,
        ContainerType::Archive => "Archive"@,
    }
}

/// The container type that a stored text stands for, if any.
pub open spec fn container_type_of(s: Seq<char>) -> Option<ContainerType> {
    if s == "Folder"@ {
        Some(ContainerType::Folder)
    } else if s == "Archive"@ {
        Some(ContainerType::Archive)
    } else {
        None
    }
}

impl ContainerType {
    /// The text under which this type is stored.
    pub fn to_str(&self) -> (s: &str)
        ensures
            s@ == container_type_str(*self),
    {
        match self {
            ContainerType::Folder => "Folder",
            ContainerType::Archive => "Archive",
        }
    }

    /// Reads a stored text back: `Folder` and `Archive` are recognised,
    /// every other text is an error.
    pub fn from_str(s: &str) -> (r: Result<ContainerType, ()>)
        ensures
            match container_type_of(s@) {
                Some(t) => r == Ok::<ContainerType, ()>(t),
                None => r.is_err(),
            },
    {
        if str_eq(s, "Folder") {
            Ok(ContainerType::Folder)
        } else if str_eq(s, "Archive") {
            Ok(ContainerType::Archive)
        } else {
            Err(())
        }
    }
}

/// Reading back the text of a container type gives the type again.
pub proof fn lemma_container_type_round_trip(t: ContainerType)
    ensures
        container_type_of(container_type_str(t)) == Some(t),
{
    reveal_strlit("Folder");
    reveal_strlit("Archive");
    if t == ContainerType::Archive {
        assert("Archive"@.len() != "Folder"@.len());
    }
}

/// The persisted parent of a document.
#[derive(Debug, PartialEq, Eq, Hash)]
pub struct Container {
    id: i64,
    path: String,
    kind: ContainerType,
}

/// What a container holds.
pub struct ContainerView {
    pub id: i64,
    pub path: Seq<char>,
    pub kind: ContainerType,
}

impl View for Container {
    type V = ContainerView;

    closed spec fn view(&self) -> ContainerView {
        ContainerView { id: self.id, path: self.path@, kind: self.kind }
    }
}

impl Clone for Container {
    fn clone(&self) -> (c: Self)
        ensures
            c@ == self@,
    {
        Container { id: self.id, path: self.path.clone(), kind: self.kind }
    }
}

impl Container {
    /// A container with the given id, path and type.
    pub fn new(id: i64, path: String, container_type: ContainerType) -> (c: Self)
        ensures
            c@ == (ContainerView { id, path: path@, kind: container_type }),
    {
        Container { id, path, kind: container_type }
    }

    /// The container that a document stands for when the document is itself
    /// a parent (an archive file): it has the document's path, and no id
    /// yet, which is written as `0`.
    pub fn from_document(document: &Document, container_type: ContainerType) -> (c: Self)
        ensures
            c@ == (ContainerView { id: 0, path: document@.path, kind: container_type }),
    {
        let path = document.get_path();
        Container { id: 0, path: path.to_owned(), kind: container_type }
    }

    /// The id, or `0` where the store has given none yet.
    pub fn get_id(&self) -> (id: i64)
        ensures
            id == self@.id,
    {
        self.id
    }

    /// Sets the id.
    pub fn set_id(&mut self, id: i64)
        ensures
            final(self)@ == (ContainerView { id, ..old(self)@ }),
    {
        self.id = id;
    }

    /// The path.
    pub fn get_path(&self) -> (path: &str)
        ensures
            path@ == self@.path,
    {
        self.path.as_str()
    }

    /// The kind of the container.
    pub fn get_type(&self) -> (t: ContainerType)
        ensures
            t == self@.kind,
    {
        self.kind
    }
}

/// What a cache holds after a container was asked for under `path`, and
/// the container that the asker gets. A path that the cache knows is
/// answered from the cache. One that it does not know is answered with
/// what the store gave, if it gave anything, and the cache keeps that
/// answer under the path.
pub open spec fn resolved(
    cache: Map<Seq<char>, ContainerView>,
    path: Seq<char>,
    fetched: Option<ContainerView>,
) -> (Option<ContainerView>, Map<Seq<char>, ContainerView>) {
    if cache.contains_key(path) {
        (Some(cache[path]), cache)
    } else {
        match fetched {
            Some(container) => (Some(container), cache.insert(path, container)),
            None => (None, cache),
        }
    }
}

/// Asking twice for the same path gives the same container twice: once a
/// container was resolved, the second answer is the first one, whatever the
/// store would say then, and the cache stays as the first call left it.
pub proof fn lemma_resolve_twice(
    cache: Map<Seq<char>, ContainerView>,
    path: Seq<char>,
    first_fetch: Option<ContainerView>,
    second_fetch: Option<ContainerView>,
)
    requires
        resolved(cache, path, first_fetch).0 is Some,
    ensures
        resolved(resolved(cache, path, first_fetch).1, path, second_fetch) == resolved(
            cache,
            path,
            first_fetch,
        ),
{
}

/// Resolving a path leaves every other path of the cache as it was, and
/// never drops a path.
pub proof fn lemma_resolve_keeps_others(
    cache: Map<Seq<char>, ContainerView>,
    path: Seq<char>,
    fetched: Option<ContainerView>,
    other: Seq<char>,
)
    requires
        cache.contains_key(other),
    ensures
        resolved(cache, path, fetched).1.contains_key(other),
        resolved(cache, path, fetched).1[other] == cache[other],
{
}

/// The view of the container that a result carries, if it carries one.
pub open spec fn ok_view(r: Result<Container, ContainerError>) -> Option<ContainerView> {
    match r {
        Ok(container) => Some(container@),
        Err(_) => None,
    }
}

/// Whether the store has to resolve a parent for this document: it carries
/// no container id yet, and its path has a parent.
pub open spec fn needs_parent(document: crate::entities::document::DocumentView) -> bool {
    document.container_id is None && path_parent(document.path) is Some
}

/// The cache knows the parent of every document that needs one.
pub open spec fn parents_known(
    documents: Seq<ScannedDocument>,
    cache: Map<Seq<char>, ContainerView>,
) -> bool {
    forall|i: int|
        0 <= i < documents.len() && needs_parent(documents[i]@.document) ==> cache.contains_key(
            #[trigger] path_parent(documents[i]@.document.path)->0,
        )
}

/// What becomes of the store's answer to the insert of a container.
#[derive(Debug)]
pub enum Inserted {
    /// The store made the row, and this is the container it stands for.
    Read(Container),
    /// The path was taken: the container is to be looked up.
    LookUp,
    /// The insert failed for good.
    Failed(ContainerError),
}

impl Container {
    /// The container that a row of the store stands for. The type is read
    /// from its text; a text that names no type is refused.
    pub fn from_row(id: i64, path: String, type_text: &str) -> (r: Result<Self, ContainerError>)
        ensures
            match container_type_of(type_text@) {
                Some(kind) => r is Ok && r->Ok_0@ == (ContainerView { id, path: path@, kind }),
                None => r matches Err(ContainerError::InvalidType),
            },
    {
        match ContainerType::from_str(type_text) {
            Ok(kind) => Ok(Container { id, path, kind }),
            Err(_) => Err(ContainerError::InvalidType),
        }
    }

    /// Asks the store for the container with this path, creating it with
    /// the given type where the store has none.
    fn fetch(conn: &rusqlite::Connection, path: &str, container_type: ContainerType) -> (r:
        Result<Self, ContainerError>) {
        let params = Container::fetch_params(path, container_type);
        match Container::read_inserted(db::query_container(conn, SQL_INSERT_CONTAINER, &params)) {
            Inserted::Read(container) => Ok(container),
            Inserted::Failed(e) => Err(e),
            Inserted::LookUp => {
                let key = Container::lookup_params(path);
                Container::read_looked_up(db::query_container(conn, SQL_SELECT_CONTAINER, &key))
            },
        }
    }

    /// What the store is given to insert a container: its path and the
    /// text of its type.
    pub fn fetch_params(path: &str, container_type: ContainerType) -> (params: Vec<String>)
        ensures
            strings_view(params@) == seq![path@, container_type_str(container_type)],
    {
        let mut params: Vec<String> = Vec::new();
        params.push(path.to_owned());
        params.push(container_type.to_str().to_owned());
        assert(strings_view(params@) =~= seq![path@, container_type_str(container_type)]);
        params
    }

    /// What the store is given to look a container up: its path.
    pub fn lookup_params(path: &str) -> (params: Vec<String>)
        ensures
            strings_view(params@) == seq![path@],
    {
        let mut params: Vec<String> = Vec::new();
        params.push(path.to_owned());
        assert(strings_view(params@) =~= seq![path@]);
        params
    }

    /// What becomes of the store's answer to the insert of a container. A
    /// row that came back is the container, if its type can be read. No
    /// row means that the path was taken, so the container is to be looked
    /// up. Every other failure is final.
    pub fn read_inserted(answer: Result<(i64, String, String), rusqlite::Error>) -> (r: Inserted)
        ensures
            match answer {
                Ok(row) => match container_type_of(row.2@) {
                    Some(kind) => r is Read && r->Read_0@ == (ContainerView {
                        id: row.0,
                        path: row.1@,
                        kind,
                    }),
                    None => r == Inserted::Failed(ContainerError::InvalidType),
                },
                Err(e) => r == (if no_rows(e) {
                    Inserted::LookUp
                } else {
                    Inserted::Failed(ContainerError::DatabaseError(e))
                }),
            },
    {
        match answer {
            Ok(row) => match Container::from_row(row.0, row.1, row.2.as_str()) {
                Ok(container) => Inserted::Read(container),
                Err(e) => Inserted::Failed(ContainerError::InvalidType),
            },
            Err(e) => {
                if db::is_no_rows(&e) {
                    Inserted::LookUp
                } else {
                    Inserted::Failed(ContainerError::DatabaseError(e))
                }
            },
        }
    }

    /// What becomes of the store's answer to the lookup of a container: the
    /// row that came back is the container, if its type can be read; every
    /// failure is final.
    pub fn read_looked_up(answer: Result<(i64, String, String), rusqlite::Error>) -> (r: Result<
        Self,
        ContainerError,
    >)
        ensures
            match answer {
                Ok(row) => match container_type_of(row.2@) {
                    Some(kind) => r is Ok && r->Ok_0@ == (ContainerView {
                        id: row.0,
                        path: row.1@,
                        kind,
                    }),
                    None => r matches Err(ContainerError::InvalidType),
                },
                Err(e) => r is Err && r->Err_0 == ContainerError::DatabaseError(e),
            },
    {
        match answer {
            Ok(row) => Container::from_row(row.0, row.1, row.2.as_str()),
            Err(e) => Err(ContainerError::DatabaseError(e)),
        }
    }

    /// Keeps what the store gave for `path` in the cache, and hands it on.
    /// A failure is handed on as it is and leaves the cache alone.
    pub fn remember(
        cache: &mut ContainerCache,
        path: &str,
        fetched: Result<Self, ContainerError>,
    ) -> (r: Result<Self, ContainerError>)
        ensures
            ok_view(r) == ok_view(fetched),
            fetched is Ok ==> final(cache)@ == old(cache)@.insert(path@, fetched->Ok_0@),
            fetched is Err ==> final(cache)@ == old(cache)@,
    {
        match fetched {
            Ok(container) => {
                cache.insert(path.to_owned(), container.clone());
                Ok(container)
            },
            Err(e) => Err(e),
        }
    }

    /// The container with this path: from the cache where the cache knows
    /// the path, from the store otherwise, which creates the container
    /// where it has none. What the store gave is kept in the cache.
    pub fn get_or_create(
        conn: &rusqlite::Connection,
        path: &str,
        container_type: ContainerType,
        cache: &mut ContainerCache,
    ) -> (r: Result<Self, ContainerError>)
        ensures
            (ok_view(r), final(cache)@) == resolved(old(cache)@, path@, ok_view(r)),
            old(cache)@.contains_key(path@) ==> r is Ok,
    {
        match cache.get(path) {
            Some(container) => {
                return Ok(container.clone());
            },
            None => {},
        }
        let fetched = Container::fetch(conn, path, container_type);
        Container::remember(cache, path, fetched)
    }

    /// Resolves the parent of every document that carries no container id
    /// and whose path has a parent, so that the cache knows it afterwards.
    /// Stops at the first parent that cannot be resolved. Where the cache
    /// knows every parent already, the store is not asked and nothing
    /// changes.
    pub fn update_cache_from_documents(
        conn: &rusqlite::Connection,
        documents: &Vec<ScannedDocument>,
        cache: &mut ContainerCache,
    ) -> (r: Result<(), ContainerError>)
        ensures
            extends(final(cache)@, old(cache)@),
            r is Ok ==> parents_known(documents@, final(cache)@),
            parents_known(documents@, old(cache)@) ==> r is Ok && final(cache)@ == old(cache)@,
    {
        let mut i: usize = 0;
        while i < documents.len()
            invariant
                i <= documents.len(),
                parents_known(documents@, old(cache)@) ==> cache@ == old(cache)@,
                extends(cache@, old(cache)@),
                forall|k: int|
                    0 <= k < i && needs_parent(documents[k]@.document) ==> cache@.contains_key(
                        #[trigger] path_parent(documents[k]@.document.path)->0,
                    ),
            decreases documents.len() - i,
        {
            let scanned = &documents[i];
            if scanned.document.get_container_id().is_none() {
                match parent_of(scanned.document.get_path()) {
                    Some(parent) => {
                        let ghost before = cache@;
                        assert(needs_parent(documents[i as int]@.document));
                        assert(parent@ == path_parent(documents[i as int]@.document.path)->0);
                        match Container::get_or_create(
                            conn,
                            parent.as_str(),
                            scanned.container_type,
                            cache,
                        ) {
                            Ok(_) => {},
                            Err(e) => {
                                return Err(e);
                            },
                        }
                        assert(cache@.contains_key(parent@));
                        assert(extends(cache@, before));
                    },
                    None => {},
                }
            }
            i = i + 1;
        }
        Ok(())
    }

    /// Saves the container: inserts its row unless the path is taken, and
    /// takes over the id that the store has for the path. On failure, which
    /// is always a `DatabaseError`, the container stays as it was.
    pub fn save(&mut self, conn: &rusqlite::Connection) -> (r: Result<(), ContainerError>)
        ensures
            final(self)@.path == old(self)@.path,
            final(self)@.kind == old(self)@.kind,
            r is Err ==> final(self)@ == old(self)@,
            r is Err ==> r->Err_0 is DatabaseError,
    {
        let params = self.save_params();
        match self.take_inserted(db::query_id(conn, SQL_INSERT_CONTAINER_ID, &params)) {
            Ok(inserted) => {
                if inserted {
                    Ok(())
                } else {
                    let key = Container::lookup_params(self.path.as_str());
                    self.take_looked_up(db::query_id(conn, SQL_SELECT_CONTAINER_ID, &key))
                }
            },
            Err(e) => Err(e),
        }
    }

    /// What the store is given to insert this container: its path and the
    /// text of its type.
    pub fn save_params(&self) -> (params: Vec<String>)
        ensures
            strings_view(params@) == seq![self@.path, container_type_str(self@.kind)],
    {
        Container::fetch_params(self.path.as_str(), self.kind)
    }

    /// Takes the store's answer to the insert of this container. An id
    /// that came back is the id of the new row and becomes the id of the
    /// container. No row means that the path was taken: the container stays
    /// as it is and is to be looked up, which the result says with `false`.
    /// Every other failure is final and leaves the container as it was.
    pub fn take_inserted(&mut self, answer: Result<i64, rusqlite::Error>) -> (r: Result<
        bool,
        ContainerError,
    >)
        ensures
            match answer {
                Ok(id) => r == Ok::<bool, ContainerError>(true) && final(self)@ == (ContainerView {
                    id,
                    ..old(self)@
                }),
                Err(e) => final(self)@ == old(self)@ && r == (if no_rows(e) {
                    Ok::<bool, ContainerError>(false)
                } else {
                    Err::<bool, ContainerError>(ContainerError::DatabaseError(e))
                }),
            },
    {
        match answer {
            Ok(id) => {
                self.id = id;
                Ok(true)
            },
            Err(e) => {
                if db::is_no_rows(&e) {
                    Ok(false)
                } else {
                    Err(ContainerError::DatabaseError(e))
                }
            },
        }
    }

    /// Takes the store's answer to the lookup of this container: the id
    /// that came back becomes the id of the container; a failure leaves the
    /// container as it was.
    pub fn take_looked_up(&mut self, answer: Result<i64, rusqlite::Error>) -> (r: Result<
        (),
        ContainerError,
    >)
        ensures
            match answer {
                Ok(id) => r is Ok && final(self)@ == (ContainerView { id, ..old(self)@ }),
                Err(e) => final(self)@ == old(self)@ && r == Err::<(), ContainerError>(
                    ContainerError::DatabaseError(e),
                ),
            },
    {
        match answer {
            Ok(id) => {
                self.id = id;
                Ok(())
            },
            Err(e) => Err(ContainerError::DatabaseError(e)),
        }
    }
}

} // verus!
