use rsearch::engine::scanner::ScannedDocument;
use rsearch::entities::container::{Container, ContainerError, ContainerType, Inserted};
use rsearch::entities::document::{Document, DocumentError, DocumentStatus};
use rsearch::storage::cache::ContainerCache;
use rsearch::storage::commands::{StorageCommand, StorageReply};
use rsearch::storage::{setting_or, view_statement, StorageConfig, StorageEngine, StorageError};

fn memory_config() -> StorageConfig {
    let mut config = StorageConfig::default();
    config.database_path = ":memory:".to_string();
    config
}

fn engine() -> StorageEngine {
    let config = memory_config();
    let engine = StorageEngine::open(&config).unwrap();
    engine.apply_schema(&config).unwrap();
    engine
}

fn count(engine: &StorageEngine, sql: &str) -> i64 {
    engine.get_connection().query_row(sql, [], |row| row.get(0)).unwrap()
}

fn extracted(path: &str, content: &str) -> ScannedDocument {
    let mut document = Document::from_path(path);
    document.set_content(content.to_string());
    document.set_status(DocumentStatus::Extracted);
    ScannedDocument { container_type: ContainerType::Folder, document }
}

fn archive_entry(name: &str, container_id: i64) -> ScannedDocument {
    let mut document = Document::from_path(name);
    document.set_filename(name.to_string());
    document.set_status(DocumentStatus::Extracted);
    document.set_container_id(container_id);
    ScannedDocument { container_type: ContainerType::Archive, document }
}

#[test]
fn default_storage_settings() {
    let c = StorageConfig::default();
    assert_eq!(c.database_path, "storage.db");
    assert_eq!(c.journal_mode, "WAL");
    assert_eq!(c.cache_size, "-2000");
    assert_eq!(c.temp_store, "MEMORY");
    assert_eq!(c.locking_mode, "EXCLUSIVE");
    assert_eq!(c.worker_receive_timeout_ms, 100);
    assert_eq!(c.path_separator, "/");
    assert_eq!(setting_or(None, "WAL"), "WAL");
    assert_eq!(setting_or(Some("DELETE".to_string()), "WAL"), "DELETE");
}

#[test]
fn view_statement_holds_the_separator() {
    let sql = view_statement("/");
    assert!(sql.starts_with("CREATE VIEW IF NOT EXISTS documents_view"));
    assert!(sql.contains("c.path || '/' || d.filename as path"));
}

#[test]
fn schema_can_be_applied_twice() {
    let config = memory_config();
    let engine = StorageEngine::open(&config).unwrap();
    engine.apply_schema(&config).unwrap();
    engine.apply_schema(&config).unwrap();
    assert_eq!(count(&engine, "SELECT COUNT(*) FROM containers"), 0);
    assert_eq!(count(&engine, "SELECT COUNT(*) FROM documents"), 0);
    assert_eq!(count(&engine, "SELECT COUNT(*) FROM index_documents"), 0);
    assert_eq!(count(&engine, "SELECT COUNT(*) FROM documents_view"), 0);
    assert!(StorageEngine::initialize(&config).is_ok());
}

#[test]
fn database_that_cannot_be_opened_is_an_initialization_error() {
    let mut config = memory_config();
    config.database_path = "/no/such/directory/at/all/storage.db".to_string();
    assert!(matches!(StorageEngine::open(&config), Err(StorageError::InitializationError(_))));
    assert!(matches!(
        StorageEngine::initialize(&config),
        Err(StorageError::InitializationError(_))
    ));
}

#[test]
fn cache_keeps_the_latest_container_of_a_path() {
    let mut cache = ContainerCache::new();
    assert!(cache.get("/r").is_none());
    cache.insert("/r".to_string(), Container::new(1, "/r".to_string(), ContainerType::Folder));
    cache.insert("/s".to_string(), Container::new(2, "/s".to_string(), ContainerType::Folder));
    assert_eq!(cache.get("/r").unwrap().get_id(), 1);
    assert_eq!(cache.get("/s").unwrap().get_id(), 2);
    cache.insert("/r".to_string(), Container::new(3, "/r".to_string(), ContainerType::Folder));
    assert_eq!(cache.get("/r").unwrap().get_id(), 3);
    assert_eq!(cache.get("/s").unwrap().get_id(), 2);
    assert!(cache.get("/t").is_none());
}

#[test]
fn get_or_create_gives_the_same_container_twice() {
    let engine = engine();
    let conn = engine.get_connection();
    let mut cache = ContainerCache::new();
    let first = Container::get_or_create(conn, "/r", ContainerType::Folder, &mut cache).unwrap();
    let second = Container::get_or_create(conn, "/r", ContainerType::Folder, &mut cache).unwrap();
    assert_eq!(first, second);
    assert_eq!(first.get_path(), "/r");
    assert_eq!(first.get_type(), ContainerType::Folder);
    assert_eq!(cache.get("/r").unwrap().get_id(), first.get_id());
    // A cache that has forgotten the path gets the row that is there.
    let mut fresh = ContainerCache::new();
    let third = Container::get_or_create(conn, "/r", ContainerType::Archive, &mut fresh).unwrap();
    assert_eq!(third, first);
    let other = Container::get_or_create(conn, "/s", ContainerType::Folder, &mut cache).unwrap();
    assert_ne!(other.get_id(), first.get_id());
    assert_eq!(count(&engine, "SELECT COUNT(*) FROM containers"), 2);
}

#[test]
fn remember_keeps_only_what_was_fetched() {
    let mut cache = ContainerCache::new();
    let fetched = Container::new(4, "/r".to_string(), ContainerType::Folder);
    let kept = Container::remember(&mut cache, "/r", Ok(fetched)).unwrap();
    assert_eq!(kept.get_id(), 4);
    assert_eq!(cache.get("/r").unwrap().get_id(), 4);
    let failed = Container::remember(
        &mut cache,
        "/s",
        Err(rsearch::entities::container::ContainerError::InvalidType),
    );
    assert!(failed.is_err());
    assert!(cache.get("/s").is_none());
}

#[test]
fn container_save_takes_the_id_of_the_store() {
    let engine = engine();
    let conn = engine.get_connection();
    let mut archive = Container::new(0, "/r/pack.zip".to_string(), ContainerType::Archive);
    archive.save(conn).unwrap();
    assert!(archive.get_id() > 0);
    let mut again = Container::new(0, "/r/pack.zip".to_string(), ContainerType::Archive);
    again.save(conn).unwrap();
    assert_eq!(again.get_id(), archive.get_id());
    assert_eq!(count(&engine, "SELECT COUNT(*) FROM containers"), 1);
}

#[test]
fn single_text_file_is_persisted() {
    let mut engine = engine();
    let reply = engine.handle(StorageCommand::SaveBulkDocuments {
        documents: vec![extracted("/r/a.txt", "alpha beta gamma")],
    });
    assert!(matches!(reply, StorageReply::Saved(Ok(()))));
    let conn = engine.get_connection();
    let (container_id, path, kind): (i64, String, String) = conn
        .query_row("SELECT id, path, type FROM containers", [], |r| {
            Ok((r.get(0)?, r.get(1)?, r.get(2)?))
        })
        .unwrap();
    assert_eq!(path, "/r");
    assert_eq!(kind, "Folder");
    let (id, filename, extension, status, parent): (i64, String, String, String, i64) = conn
        .query_row(
            "SELECT id, filename, extension, status, container_id FROM documents",
            [],
            |r| Ok((r.get(0)?, r.get(1)?, r.get(2)?, r.get(3)?, r.get(4)?)),
        )
        .unwrap();
    assert_eq!(filename, "a.txt");
    assert_eq!(extension, "txt");
    assert_eq!(status, "Extracted");
    assert_eq!(parent, container_id);
    let (document_id, content): (i64, String) = conn
        .query_row("SELECT document_id, content FROM index_documents", [], |r| {
            Ok((r.get(0)?, r.get(1)?))
        })
        .unwrap();
    assert_eq!(document_id, id);
    assert_eq!(content, "alpha beta gamma");
    let full: String =
        conn.query_row("SELECT path FROM documents_view", [], |r| r.get(0)).unwrap();
    assert_eq!(full, "/r/a.txt");
    assert_eq!(engine.get_cache().get("/r").unwrap().get_id(), container_id);
}

#[test]
fn empty_bulk_save_is_a_no_op() {
    let mut engine = engine();
    let reply = engine.handle(StorageCommand::SaveBulkDocuments { documents: Vec::new() });
    assert!(matches!(reply, StorageReply::Saved(Ok(()))));
    assert!(engine.save_bulk(Vec::new()).is_ok());
    assert_eq!(count(&engine, "SELECT COUNT(*) FROM containers"), 0);
    assert_eq!(count(&engine, "SELECT COUNT(*) FROM documents"), 0);
    // Even a store without tables is not asked.
    let bare = StorageEngine::open(&memory_config());
    let mut bare = bare.unwrap();
    assert!(bare.save_bulk(Vec::new()).is_ok());
    assert!(bare.save_bulk(vec![extracted("/r/a.txt", "x")]).is_err());
}

#[test]
fn documents_without_text_get_no_index_row() {
    let mut engine = engine();
    let mut described = extracted("/r/c.txt", "");
    described.document.set_description("a note".to_string());
    let reply = engine.handle(StorageCommand::SaveBulkDocuments {
        documents: vec![extracted("/r/a.txt", ""), extracted("/r/b.txt", "beta"), described],
    });
    assert!(matches!(reply, StorageReply::Saved(Ok(()))));
    assert_eq!(count(&engine, "SELECT COUNT(*) FROM documents"), 3);
    assert_eq!(count(&engine, "SELECT COUNT(*) FROM index_documents"), 2);
    assert_eq!(
        count(
            &engine,
            "SELECT COUNT(*) FROM index_documents WHERE content = '' AND description = ''"
        ),
        0
    );
}

#[test]
fn rows_say_what_is_saved() {
    let mut cache = ContainerCache::new();
    cache.insert("/r".to_string(), Container::new(8, "/r".to_string(), ContainerType::Folder));
    let plain = extracted("/r/a.txt", "");
    let row = plain.document.to_row(&cache).unwrap();
    assert_eq!(row.filename, "a.txt");
    assert_eq!(row.extension, Some("txt".to_string()));
    assert_eq!(row.status, DocumentStatus::Extracted);
    assert_eq!(row.container_id, 8);
    assert_eq!(row.index, None);
    let with_text = extracted("/r/b.txt", "beta");
    assert_eq!(
        with_text.document.to_row(&cache).unwrap().index,
        Some(("beta".to_string(), "".to_string()))
    );
    // The id that a document carries goes before the cache.
    let entry = archive_entry("b.txt", 3);
    assert_eq!(entry.document.to_row(&cache).unwrap().container_id, 3);
    // A parent that the cache does not know cannot be told.
    assert!(extracted("/s/a.txt", "x").document.to_row(&cache).is_none());
    assert_eq!(plain.document.row_with_container(5).container_id, 5);
    let all = vec![extracted("/r/a.txt", ""), extracted("/r/b.txt", "beta")];
    assert_eq!(Document::plan_rows(&all, &cache).unwrap().len(), 2);
    let some = vec![extracted("/r/a.txt", ""), extracted("/s/b.txt", "beta")];
    assert!(Document::plan_rows(&some, &cache).is_none());
}

#[test]
fn five_files_each_give_one_row() {
    let mut engine = engine();
    let names = ["a", "b", "c", "d", "e"];
    for batch in names.chunks(2) {
        let documents =
            batch.iter().map(|n| extracted(&format!("/r/{}.txt", n), "text")).collect();
        assert!(engine.save_bulk(documents).is_ok());
    }
    assert_eq!(count(&engine, "SELECT COUNT(*) FROM documents"), 5);
    assert_eq!(count(&engine, "SELECT COUNT(DISTINCT filename) FROM documents"), 5);
    assert_eq!(count(&engine, "SELECT COUNT(*) FROM containers"), 1);
}

#[test]
fn zip_archive_and_its_entries_are_persisted() {
    let mut engine = engine();
    assert!(engine.save_bulk(vec![extracted("/r/pack.zip", "")]).is_ok());
    let archive =
        Container::from_document(&Document::from_path("/r/pack.zip"), ContainerType::Archive);
    let saved = match engine.handle(StorageCommand::SaveArchive { archive }) {
        StorageReply::Archive(Ok(saved)) => saved,
        other => panic!("unexpected {:?}", other),
    };
    assert_eq!(saved.get_path(), "/r/pack.zip");
    assert_eq!(saved.get_type(), ContainerType::Archive);
    assert!(saved.get_id() > 0);
    let entries = vec![archive_entry("a.pdf", saved.get_id()), archive_entry("b.txt", saved.get_id())];
    assert!(engine.save_bulk(entries).is_ok());
    assert_eq!(count(&engine, "SELECT COUNT(*) FROM containers"), 2);
    assert_eq!(count(&engine, "SELECT COUNT(*) FROM containers WHERE path = '/r' AND type = 'Folder'"), 1);
    assert_eq!(
        count(&engine, "SELECT COUNT(*) FROM containers WHERE path = '/r/pack.zip' AND type = 'Archive'"),
        1
    );
    assert_eq!(count(&engine, "SELECT COUNT(*) FROM documents"), 3);
    assert_eq!(
        count(
            &engine,
            "SELECT COUNT(*) FROM documents d JOIN containers c ON c.id = d.container_id \
             WHERE c.type = 'Archive' AND d.filename IN ('a.pdf', 'b.txt')"
        ),
        2
    );
    // Every document has a container that is there.
    assert_eq!(
        count(
            &engine,
            "SELECT COUNT(*) FROM documents WHERE container_id NOT IN (SELECT id FROM containers)"
        ),
        0
    );
}

#[test]
fn archive_without_entries_gets_a_container_and_no_rows() {
    let mut engine = engine();
    let archive =
        Container::from_document(&Document::from_path("/r/empty.zip"), ContainerType::Archive);
    assert!(engine.save_archive(archive).is_ok());
    assert!(engine.save_bulk(Vec::new()).is_ok());
    assert_eq!(count(&engine, "SELECT COUNT(*) FROM containers"), 1);
    assert_eq!(count(&engine, "SELECT COUNT(*) FROM documents"), 0);
}

#[test]
fn second_scan_of_the_same_root_fails_and_leaves_the_first() {
    let mut engine = engine();
    let batch = || vec![extracted("/r/a.txt", "alpha"), extracted("/r/b.txt", "beta")];
    assert!(engine.save_bulk(batch()).is_ok());
    let again = engine.save_bulk(vec![extracted("/r/c.txt", "gamma"), extracted("/r/a.txt", "alpha")]);
    assert!(matches!(again, Err(StorageError::DocumentError(DocumentError::ConstraintViolation))));
    // Nothing of the second batch is there, not even the document before
    // the collision.
    assert_eq!(count(&engine, "SELECT COUNT(*) FROM documents"), 2);
    assert_eq!(count(&engine, "SELECT COUNT(*) FROM documents WHERE filename = 'c.txt'"), 0);
    assert_eq!(count(&engine, "SELECT COUNT(*) FROM index_documents"), 2);
    // The worker goes on.
    assert!(engine.save_bulk(vec![extracted("/r/d.txt", "delta")]).is_ok());
    assert_eq!(count(&engine, "SELECT COUNT(*) FROM documents"), 3);
}

#[test]
fn bulk_save_with_unknown_container_is_not_found() {
    let config = memory_config();
    let mut engine = StorageEngine::open(&config).unwrap();
    engine.apply_schema(&config).unwrap();
    let cache = ContainerCache::new();
    let mut conn = rusqlite::Connection::open_in_memory().unwrap();
    let r = Document::save_bulk(&mut conn, vec![extracted("/r/a.txt", "x")], &cache);
    assert!(matches!(r, Err(DocumentError::NotFound)));
    assert!(Document::save_bulk(&mut conn, Vec::new(), &cache).is_ok());
    assert!(engine.save_bulk(Vec::new()).is_ok());
}

#[test]
fn single_save_sets_the_id_and_reports_collisions() {
    let mut engine = engine();
    let folder = {
        let mut cache = ContainerCache::new();
        Container::get_or_create(engine.get_connection(), "/r", ContainerType::Folder, &mut cache)
            .unwrap()
    };
    let mut document = Document::from_path("/r/a.txt");
    document.set_container_id(folder.get_id());
    document.set_content("alpha".to_string());
    let mut twin = document.clone();
    assert!(document.save(engine.get_connection()).is_ok());
    let id = document.get_id().unwrap();
    assert_eq!(document._get_id(engine.get_connection()).unwrap(), id);
    assert_eq!(twin.get_id_by_path(engine.get_connection()).unwrap(), id);
    assert_eq!(twin._get_id(engine.get_connection()).unwrap(), id);
    assert!(matches!(twin.save(engine.get_connection()), Err(DocumentError::ConstraintViolation)));
    assert_eq!(twin.get_id(), None);
    let missing = Document::from_path("/r/none.txt");
    assert!(matches!(
        missing.get_id_by_path(engine.get_connection()),
        Err(DocumentError::NotFound)
    ));
    let reply = engine.handle(StorageCommand::SaveDocument { document: twin });
    assert!(matches!(
        reply,
        StorageReply::Saved(Err(StorageError::DocumentError(DocumentError::ConstraintViolation)))
    ));
    let mut other = Document::from_path("/r/b.txt");
    other.set_container_id(folder.get_id());
    assert!(matches!(
        engine.handle(StorageCommand::SaveDocument { document: other }),
        StorageReply::Saved(Ok(()))
    ));
    // A single save always writes the full-text row.
    assert_eq!(count(&engine, "SELECT COUNT(*) FROM index_documents"), 2);
}

#[test]
fn update_cache_resolves_the_parents() {
    let engine = engine();
    let mut cache = ContainerCache::new();
    let documents = vec![
        extracted("/r/a.txt", "x"),
        extracted("/r/sub/b.txt", "y"),
        extracted("/r/c.txt", "z"),
        archive_entry("inner/d.txt", 99),
    ];
    Container::update_cache_from_documents(engine.get_connection(), &documents, &mut cache).unwrap();
    assert!(cache.get("/r").is_some());
    assert!(cache.get("/r/sub").is_some());
    // A document that carries its container needs no parent.
    assert!(cache.get("inner").is_none());
    assert_eq!(count(&engine, "SELECT COUNT(*) FROM containers"), 2);
}

#[test]
fn store_without_tables_gives_database_errors() {
    let mut bare = StorageEngine::open(&memory_config()).unwrap();
    let mut document = Document::from_path("/r/a.txt");
    document.set_container_id(1);
    assert!(matches!(
        document.save(bare.get_connection()),
        Err(DocumentError::DatabaseError(_))
    ));
    assert_eq!(document.get_id(), None);
    assert!(matches!(
        document.get_id_by_path(bare.get_connection()),
        Err(DocumentError::DatabaseError(_))
    ));
    let mut cache = ContainerCache::new();
    assert!(matches!(
        Container::get_or_create(bare.get_connection(), "/r", ContainerType::Folder, &mut cache),
        Err(rsearch::entities::container::ContainerError::DatabaseError(_))
    ));
    assert!(cache.get("/r").is_none());
    let mut archive = Container::new(0, "/r/p.zip".to_string(), ContainerType::Archive);
    assert!(archive.save(bare.get_connection()).is_err());
    assert_eq!(archive.get_id(), 0);
    assert!(matches!(
        bare.save_bulk(vec![extracted("/r/a.txt", "x")]),
        Err(StorageError::ContainerError(_))
    ));
    assert!(matches!(
        bare.save_bulk(vec![archive_entry("a.txt", 1)]),
        Err(StorageError::DocumentError(DocumentError::DatabaseError(_)))
    ));
    assert!(matches!(
        bare.handle(StorageCommand::SaveArchive {
            archive: Container::new(0, "/r/p.zip".to_string(), ContainerType::Archive)
        }),
        StorageReply::Archive(Err(StorageError::ContainerError(_)))
    ));
}

#[test]
fn container_with_an_unknown_type_in_the_store_is_refused() {
    let engine = engine();
    engine
        .get_connection()
        .execute("INSERT INTO containers (path, type) VALUES ('/odd', 'Shelf')", [])
        .unwrap();
    let mut cache = ContainerCache::new();
    let r = Container::get_or_create(
        engine.get_connection(),
        "/odd",
        ContainerType::Folder,
        &mut cache,
    );
    assert!(matches!(r, Err(rsearch::entities::container::ContainerError::InvalidType)));
    assert!(cache.get("/odd").is_none());
}

#[test]
fn errors_of_the_store_are_told_apart() {
    let collision = || {
        rusqlite::Error::SqliteFailure(
            rusqlite::ffi::Error::new(rusqlite::ffi::SQLITE_CONSTRAINT_UNIQUE),
            None,
        )
    };
    let busy = || rusqlite::Error::SqliteFailure(rusqlite::ffi::Error::new(5), None);
    assert!(matches!(Document::insert_failure(collision()), DocumentError::ConstraintViolation));
    assert!(matches!(Document::insert_failure(busy()), DocumentError::DatabaseError(_)));
    assert!(matches!(
        Document::insert_failure(rusqlite::Error::QueryReturnedNoRows),
        DocumentError::DatabaseError(rusqlite::Error::QueryReturnedNoRows)
    ));
    assert!(matches!(Document::lookup_result(Ok(7)), Ok(7)));
    assert!(matches!(
        Document::lookup_result(Err(rusqlite::Error::QueryReturnedNoRows)),
        Err(DocumentError::NotFound)
    ));
    assert!(matches!(
        Document::lookup_result(Err(collision())),
        Err(DocumentError::DatabaseError(_))
    ));
}

#[test]
fn opened_engine_has_an_empty_cache_and_its_own_connection() {
    let engine = engine();
    assert!(engine.get_cache().get("/r").is_none());
    assert!(engine.get_cache().get("").is_none());
    engine
        .get_connection()
        .execute("INSERT INTO containers (path, type) VALUES ('/seen', 'Folder')", [])
        .unwrap();
    assert_eq!(count(&engine, "SELECT COUNT(*) FROM containers"), 1);
}

#[test]
fn saved_batch_leaves_the_parents_in_the_cache() {
    let mut engine = engine();
    assert!(engine
        .save_bulk(vec![extracted("/r/a.txt", "x"), extracted("/s/b.txt", "y")])
        .is_ok());
    assert!(engine.get_cache().get("/r").is_some());
    assert!(engine.get_cache().get("/s").is_some());
    // A document without a container id whose path has no parent cannot be
    // filed: the batch is refused before the store is asked.
    let r = engine.save_bulk(vec![extracted("/r/c.txt", "z"), extracted("", "w")]);
    assert!(matches!(r, Err(StorageError::DocumentError(DocumentError::NotFound))));
    assert_eq!(count(&engine, "SELECT COUNT(*) FROM documents"), 2);
}

#[test]
fn settings_say_what_the_store_is_given() {
    let mut config = StorageConfig::default();
    config.journal_mode = "DELETE".to_string();
    config.path_separator = "\\".to_string();
    let options = config.options();
    assert_eq!(
        options,
        vec![
            ("journal_mode".to_string(), "DELETE".to_string()),
            ("cache_size".to_string(), "-2000".to_string()),
            ("temp_store".to_string(), "MEMORY".to_string()),
            ("locking_mode".to_string(), "EXCLUSIVE".to_string()),
        ]
    );
    let statements = config.statements();
    assert_eq!(statements.len(), 5);
    assert!(statements[0].starts_with("CREATE TABLE IF NOT EXISTS containers"));
    assert!(statements[1].starts_with("CREATE UNIQUE INDEX IF NOT EXISTS idx_containers_path"));
    assert!(statements[2].starts_with("CREATE TABLE IF NOT EXISTS documents"));
    assert!(statements[2].contains("UNIQUE(filename, container_id)"));
    assert!(statements[2].contains("FOREIGN KEY(container_id) REFERENCES containers(id)"));
    assert!(statements[3].starts_with("CREATE VIRTUAL TABLE IF NOT EXISTS index_documents USING fts5"));
    assert_eq!(statements[4], view_statement("\\"));
}

#[test]
fn session_options_are_in_force_after_the_schema_is_applied() {
    let engine = engine();
    let temp_store: i64 =
        engine.get_connection().query_row("PRAGMA temp_store", [], |r| r.get(0)).unwrap();
    assert_eq!(temp_store, 2);
    let cache_size: i64 =
        engine.get_connection().query_row("PRAGMA cache_size", [], |r| r.get(0)).unwrap();
    assert_eq!(cache_size, -2000);
    let locking: String =
        engine.get_connection().query_row("PRAGMA locking_mode", [], |r| r.get(0)).unwrap();
    assert_eq!(locking.to_lowercase(), "exclusive");
}

fn busy() -> rusqlite::Error {
    rusqlite::Error::SqliteFailure(rusqlite::ffi::Error::new(5), None)
}

#[test]
fn container_is_given_to_the_store_by_path_and_type() {
    let archive = Container::new(0, "/r/pack.zip".to_string(), ContainerType::Archive);
    assert_eq!(archive.save_params(), vec!["/r/pack.zip", "Archive"]);
    assert_eq!(Container::fetch_params("/r", ContainerType::Folder), vec!["/r", "Folder"]);
    assert_eq!(Container::lookup_params("/r"), vec!["/r"]);
}

#[test]
fn container_takes_the_id_that_the_store_gave() {
    let mut archive = Container::new(0, "/r/pack.zip".to_string(), ContainerType::Archive);
    assert!(matches!(archive.take_inserted(Ok(41)), Ok(true)));
    assert_eq!(archive, Container::new(41, "/r/pack.zip".to_string(), ContainerType::Archive));
    // No row: the path was taken, and the container is to be looked up.
    assert!(matches!(archive.take_inserted(Err(rusqlite::Error::QueryReturnedNoRows)), Ok(false)));
    assert_eq!(archive.get_id(), 41);
    assert!(matches!(
        archive.take_inserted(Err(busy())),
        Err(ContainerError::DatabaseError(_))
    ));
    assert_eq!(archive.get_id(), 41);
    assert!(archive.take_looked_up(Ok(7)).is_ok());
    assert_eq!(archive, Container::new(7, "/r/pack.zip".to_string(), ContainerType::Archive));
    assert!(matches!(
        archive.take_looked_up(Err(rusqlite::Error::QueryReturnedNoRows)),
        Err(ContainerError::DatabaseError(rusqlite::Error::QueryReturnedNoRows))
    ));
    assert_eq!(archive.get_id(), 7);
}

#[test]
fn rows_of_the_store_become_containers() {
    let row = |kind: &str| Ok((3, "/r".to_string(), kind.to_string()));
    match Container::read_inserted(row("Folder")) {
        Inserted::Read(c) => {
            assert_eq!(c, Container::new(3, "/r".to_string(), ContainerType::Folder))
        }
        other => panic!("unexpected {:?}", other),
    }
    assert!(matches!(
        Container::read_inserted(row("Shelf")),
        Inserted::Failed(ContainerError::InvalidType)
    ));
    assert!(matches!(
        Container::read_inserted(Err(rusqlite::Error::QueryReturnedNoRows)),
        Inserted::LookUp
    ));
    assert!(matches!(
        Container::read_inserted(Err(busy())),
        Inserted::Failed(ContainerError::DatabaseError(_))
    ));
    assert_eq!(
        Container::read_looked_up(row("Archive")).unwrap(),
        Container::new(3, "/r".to_string(), ContainerType::Archive)
    );
    assert!(matches!(
        Container::read_looked_up(row("")),
        Err(ContainerError::InvalidType)
    ));
    assert!(matches!(
        Container::read_looked_up(Err(rusqlite::Error::QueryReturnedNoRows)),
        Err(ContainerError::DatabaseError(rusqlite::Error::QueryReturnedNoRows))
    ));
}

#[test]
fn saved_archive_carries_the_id_of_its_row() {
    let mut engine = engine();
    let archive = Container::new(0, "/r/pack.zip".to_string(), ContainerType::Archive);
    let saved = engine.save_archive(archive).unwrap();
    let id: i64 = engine
        .get_connection()
        .query_row("SELECT id FROM containers WHERE path = '/r/pack.zip'", [], |r| r.get(0))
        .unwrap();
    assert_eq!(saved.get_id(), id);
    // A second save of the same path finds the row that is there.
    let again = engine
        .save_archive(Container::new(0, "/r/pack.zip".to_string(), ContainerType::Archive))
        .unwrap();
    assert_eq!(again.get_id(), id);
    assert_eq!(count(&engine, "SELECT COUNT(*) FROM containers"), 1);
}

#[test]
fn single_save_gives_the_store_what_the_document_holds() {
    let mut document = Document::from_path("/r/a.TXT");
    document.set_container_id(4);
    document.set_content("alpha".to_string());
    document.set_description("a note".to_string());
    document.set_status(DocumentStatus::Extracted);
    let values = document.values();
    assert_eq!(values.filename, "a.TXT");
    assert_eq!(values.extension, Some("txt".to_string()));
    assert_eq!(values.status, DocumentStatus::Extracted);
    assert_eq!(values.container_id, Some(4));
    assert_eq!(values.content, "alpha");
    assert_eq!(values.description, "a note");
    assert_eq!(document.lookup_params(), vec!["/r/a.TXT"]);
    assert_eq!(Document::default().values().container_id, None);
}

#[test]
fn document_takes_the_id_of_its_row() {
    let mut document = Document::from_path("/r/a.txt");
    let before = document.clone();
    assert!(matches!(
        document.take_saved(12, Err(busy())),
        Err(DocumentError::DatabaseError(_))
    ));
    assert_eq!(document, before);
    assert!(document.take_saved(12, Ok(())).is_ok());
    assert_eq!(document.get_id(), Some(12));
    assert_eq!(document.get_path(), "/r/a.txt");
    assert!(matches!(Document::row_saved(5, None), Ok(5)));
    assert!(matches!(Document::row_saved(5, Some(Ok(()))), Ok(5)));
    assert!(matches!(
        Document::row_saved(5, Some(Err(busy()))),
        Err(DocumentError::DatabaseError(_))
    ));
}

#[test]
fn single_save_sets_the_id_of_the_new_row() {
    let engine = engine();
    let mut cache = ContainerCache::new();
    let folder =
        Container::get_or_create(engine.get_connection(), "/r", ContainerType::Folder, &mut cache)
            .unwrap();
    let mut document = Document::from_path("/r/a.txt");
    document.set_container_id(folder.get_id());
    document.save(engine.get_connection()).unwrap();
    let id: i64 = engine
        .get_connection()
        .query_row("SELECT id FROM documents WHERE filename = 'a.txt'", [], |r| r.get(0))
        .unwrap();
    assert_eq!(document.get_id(), Some(id));
}

#[test]
fn two_documents_of_one_batch_with_the_same_name_collide() {
    let mut engine = engine();
    let r = engine.save_bulk(vec![extracted("/r/a.txt", "one"), extracted("/r/a.txt", "two")]);
    assert!(matches!(r, Err(StorageError::DocumentError(DocumentError::ConstraintViolation))));
    assert_eq!(count(&engine, "SELECT COUNT(*) FROM documents"), 0);
    assert_eq!(count(&engine, "SELECT COUNT(*) FROM index_documents"), 0);
    assert_eq!(
        count(
            &engine,
            "SELECT COUNT(*) FROM (SELECT filename, container_id FROM documents \
             GROUP BY filename, container_id HAVING COUNT(*) > 1)"
        ),
        0
    );
}
