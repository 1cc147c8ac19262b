use rsearch::engine::extractor::commands::ExtractorCommand;
use rsearch::engine::extractor::formats::archive::zip::ArchiveEntry;
use rsearch::engine::extractor::formats::FormatType;
use rsearch::engine::extractor::workers::{ExtractorWorker, WorkerAction, WorkerEvent};
use rsearch::engine::extractor::{Extractor, ExtractorConfig};
use rsearch::engine::scanner::filters::Filter;
use rsearch::engine::scanner::{FiltersMode, ScannedDocument, Scanner};
use rsearch::engine::EngineTaskWorker;
use rsearch::entities::container::{Container, ContainerType};
use rsearch::entities::document::{Document, DocumentStatus};
use rsearch::storage::commands::StorageCommand;

fn folder_document(path: &str) -> ScannedDocument {
    let mut document = Document::from_path(path);
    document.set_status(DocumentStatus::Scanned);
    ScannedDocument { container_type: ContainerType::Folder, document }
}

fn worker(batch: usize, interval: u64) -> ExtractorWorker {
    let config = ExtractorConfig::with_overrides(Some(batch), Some(interval), None, None);
    ExtractorWorker::new(0, Scanner::new(), config, 0)
}

fn bulk_sizes(actions: &[WorkerAction]) -> Vec<usize> {
    actions
        .iter()
        .filter_map(|a| match a {
            WorkerAction::Store(StorageCommand::SaveBulkDocuments { documents }) => {
                Some(documents.len())
            }
            _ => None,
        })
        .collect()
}

#[test]
fn text_document_is_sent_to_its_extractor() {
    let mut w = worker(100, 5000);
    let actions =
        w.step(WorkerEvent::Received(ExtractorCommand::ProcessDocument(folder_document("/r/a.txt"))), 10);
    assert_eq!(actions.len(), 1);
    match &actions[0] {
        WorkerAction::Extract { format, scanned } => {
            assert_eq!(*format, FormatType::Text);
            assert_eq!(scanned.document.get_path(), "/r/a.txt");
        }
        other => panic!("unexpected {:?}", other),
    }
    assert_eq!(w.buffered(), 0);
}

#[test]
fn formats_are_routed() {
    let mut w = worker(100, 5000);
    let pdf = w.accept(ExtractorCommand::ProcessDocument(folder_document("/r/a.PDF")));
    assert!(matches!(pdf, Some(WorkerAction::Extract { format: FormatType::Pdf, .. })));
    let docx = w.accept(ExtractorCommand::ProcessDocument(folder_document("/r/a.docx")));
    assert!(matches!(docx, Some(WorkerAction::Extract { format: FormatType::Docx, .. })));
    let zip = w.accept(ExtractorCommand::ProcessDocument(folder_document("/r/a.zip")));
    assert!(matches!(zip, Some(WorkerAction::ListArchive { .. })));
    let unknown = w.accept(ExtractorCommand::ProcessDocument(folder_document("/r/a.bin")));
    assert!(unknown.is_none());
    let batch = w.accept(ExtractorCommand::ProcessCompressedDocuments {
        container: Container::new(1, "/r/a.zip".to_string(), ContainerType::Archive),
        documents: vec![folder_document("/r/a.txt")],
    });
    assert!(batch.is_none());
    assert_eq!(w.buffered(), 0);
}

#[test]
fn archive_entry_is_buffered_as_extracted() {
    let mut w = worker(100, 5000);
    let mut document = Document::from_path("a.pdf");
    document.set_container_id(4);
    let entry = ScannedDocument { container_type: ContainerType::Archive, document };
    let actions = w.step(WorkerEvent::Received(ExtractorCommand::ProcessDocument(entry)), 10);
    assert!(actions.is_empty());
    assert_eq!(w.buffered(), 1);
    let drained = w.step(WorkerEvent::Disconnected, 20);
    assert_eq!(drained.len(), 2);
    match &drained[0] {
        WorkerAction::Store(StorageCommand::SaveBulkDocuments { documents }) => {
            assert_eq!(documents.len(), 1);
            assert_eq!(*documents[0].document.get_status(), DocumentStatus::Extracted);
            assert_eq!(documents[0].document.get_container_id(), Some(4));
            assert_eq!(documents[0].document.get_content(), "");
        }
        other => panic!("unexpected {:?}", other),
    }
    assert!(matches!(drained[1], WorkerAction::Stop));
}

#[test]
fn extracted_document_is_buffered_with_its_content() {
    let mut w = worker(1, 5000);
    let actions = w.step(
        WorkerEvent::Extracted {
            scanned: folder_document("/r/a.txt"),
            content: Some("alpha beta".to_string()),
        },
        10,
    );
    // The batch size is one, so the document is flushed at once.
    assert_eq!(actions.len(), 1);
    match &actions[0] {
        WorkerAction::Store(StorageCommand::SaveBulkDocuments { documents }) => {
            assert_eq!(documents.len(), 1);
            assert_eq!(documents[0].document.get_content(), "alpha beta");
            assert_eq!(*documents[0].document.get_status(), DocumentStatus::Extracted);
            assert_eq!(documents[0].container_type, ContainerType::Folder);
        }
        other => panic!("unexpected {:?}", other),
    }
    assert_eq!(w.buffered(), 0);
}

#[test]
fn failed_extraction_drops_the_document() {
    let mut w = worker(1, 5000);
    let actions =
        w.step(WorkerEvent::Extracted { scanned: folder_document("/r/a.txt"), content: None }, 10);
    assert!(actions.is_empty());
    assert_eq!(w.buffered(), 0);
}

#[test]
fn five_files_with_batch_size_two_give_three_bulk_saves() {
    let mut w = worker(2, 5000);
    let mut sizes = Vec::new();
    for (i, name) in ["a", "b", "c", "d", "e"].iter().enumerate() {
        let path = format!("/r/{}.txt", name);
        let now = i as u64;
        let first = w.step(
            WorkerEvent::Received(ExtractorCommand::ProcessDocument(folder_document(&path))),
            now,
        );
        assert_eq!(first.len(), 1);
        let scanned = match first.into_iter().next().unwrap() {
            WorkerAction::Extract { scanned, .. } => scanned,
            other => panic!("unexpected {:?}", other),
        };
        let second =
            w.step(WorkerEvent::Extracted { scanned, content: Some("text".to_string()) }, now);
        sizes.extend(bulk_sizes(&second));
    }
    let last = w.step(WorkerEvent::Disconnected, 10);
    sizes.extend(bulk_sizes(&last));
    assert!(matches!(last.last(), Some(WorkerAction::Stop)));
    assert_eq!(sizes, vec![2, 2, 1]);
}

#[test]
fn buffer_is_flushed_once_the_interval_has_passed() {
    let mut w = worker(100, 5000);
    let arrived = w.step(
        WorkerEvent::Extracted { scanned: folder_document("/r/a.txt"), content: Some("x".to_string()) },
        0,
    );
    assert!(arrived.is_empty());
    assert!(!w.flush_is_due(200));
    assert!(w.step(WorkerEvent::Timeout, 200).is_empty());
    assert!(w.step(WorkerEvent::Timeout, 4800).is_empty());
    assert!(w.step(WorkerEvent::Timeout, 5000).is_empty());
    assert!(w.flush_is_due(5001));
    let flushed = w.step(WorkerEvent::Timeout, 5200);
    assert_eq!(bulk_sizes(&flushed), vec![1]);
    assert_eq!(w.buffered(), 0);
    // The clock starts again at the flush.
    let next = w.step(
        WorkerEvent::Extracted { scanned: folder_document("/r/b.txt"), content: Some("y".to_string()) },
        5300,
    );
    assert!(next.is_empty());
    assert!(w.step(WorkerEvent::Timeout, 10200).is_empty());
    assert_eq!(bulk_sizes(&w.step(WorkerEvent::Timeout, 10201)), vec![1]);
}

#[test]
fn empty_buffer_is_not_flushed_by_time() {
    let mut w = worker(100, 5000);
    assert!(w.step(WorkerEvent::Timeout, 60_000).is_empty());
    let closed = w.step(WorkerEvent::Disconnected, 60_001);
    assert_eq!(closed.len(), 1);
    assert!(matches!(closed[0], WorkerAction::Stop));
}

#[test]
fn clock_that_runs_backwards_counts_as_no_time() {
    let config = ExtractorConfig::with_overrides(Some(100), Some(10), None, None);
    let mut w = ExtractorWorker::new(3, Scanner::new(), config, 1000);
    assert_eq!(w.get_id(), 3);
    w.complete_extraction(folder_document("/r/a.txt"), Some("x".to_string()));
    assert!(!w.flush_is_due(5));
    assert!(!w.flush_is_due(1010));
    assert!(w.flush_is_due(1011));
}

#[test]
fn zip_archive_is_listed_saved_and_its_entries_reinjected() {
    let mut scanner = Scanner::new();
    scanner.set_filters_mode(FiltersMode::Or);
    for e in ["pdf", "txt", "zip"] {
        let mut f = Filter::new();
        f.set_extension_is(e);
        scanner.add_filter(f);
    }
    let mut w = ExtractorWorker::new(0, scanner, ExtractorConfig::default(), 0);
    let first = w.step(
        WorkerEvent::Received(ExtractorCommand::ProcessDocument(folder_document("/r/pack.zip"))),
        1,
    );
    let scanned = match first.into_iter().next().unwrap() {
        WorkerAction::ListArchive { scanned } => scanned,
        other => panic!("unexpected {:?}", other),
    };
    let entries = vec![
        ArchiveEntry { name: "a.pdf".to_string(), enclosed_name: Some("a.pdf".to_string()) },
        ArchiveEntry { name: "b.txt".to_string(), enclosed_name: Some("b.txt".to_string()) },
        ArchiveEntry { name: "evil/../x.txt".to_string(), enclosed_name: Some("x.txt".to_string()) },
    ];
    let second = w.step(WorkerEvent::ArchiveListed { scanned, entries: Some(entries) }, 2);
    assert_eq!(second.len(), 1);
    let (archive, documents) = match second.into_iter().next().unwrap() {
        WorkerAction::SaveArchive { archive, documents } => (archive, documents),
        other => panic!("unexpected {:?}", other),
    };
    assert_eq!(archive.get_path(), "/r/pack.zip");
    assert_eq!(archive.get_type(), ContainerType::Archive);
    assert_eq!(documents.len(), 2);
    let mut saved = archive;
    saved.set_id(17);
    let third = w.step(WorkerEvent::ArchiveSaved { saved: Some(saved), documents }, 3);
    let names: Vec<(String, Option<i64>)> = third
        .iter()
        .map(|a| match a {
            WorkerAction::Inject(ExtractorCommand::ProcessDocument(s)) => {
                assert_eq!(s.container_type, ContainerType::Archive);
                (s.document.get_filename().to_string(), s.document.get_container_id())
            }
            other => panic!("unexpected {:?}", other),
        })
        .collect();
    assert_eq!(names, vec![("a.pdf".to_string(), Some(17)), ("b.txt".to_string(), Some(17))]);
    // The entries come back as commands and are buffered as they are.
    for action in third {
        if let WorkerAction::Inject(command) = action {
            assert!(w.step(WorkerEvent::Received(command), 4).is_empty());
        }
    }
    assert_eq!(w.buffered(), 2);
}

#[test]
fn archive_that_could_not_be_read_or_saved_gives_nothing() {
    let mut w = worker(100, 5000);
    let unread = w.step(
        WorkerEvent::ArchiveListed { scanned: folder_document("/r/pack.zip"), entries: None },
        1,
    );
    assert!(unread.is_empty());
    let unsaved = w.step(
        WorkerEvent::ArchiveSaved { saved: None, documents: vec![folder_document("a.txt")] },
        2,
    );
    assert!(unsaved.is_empty());
}

#[test]
fn archive_without_entries_is_saved_and_nothing_is_reinjected() {
    let w = worker(100, 5000);
    let action = w.expand_archive(&folder_document("/r/empty.zip"), &Vec::new());
    let (archive, documents) = match action {
        WorkerAction::SaveArchive { archive, documents } => (archive, documents),
        other => panic!("unexpected {:?}", other),
    };
    assert_eq!(archive.get_path(), "/r/empty.zip");
    assert!(documents.is_empty());
    assert!(ExtractorWorker::reinject(&archive, documents).is_empty());
}

#[test]
fn flush_buffer_keeps_the_order_of_arrival() {
    let mut w = worker(100, 5000);
    for name in ["one", "two", "three"] {
        w.complete_extraction(folder_document(&format!("/r/{}.txt", name)), Some(name.to_string()));
    }
    match w.flush_buffer(9) {
        StorageCommand::SaveBulkDocuments { documents } => {
            let contents: Vec<&str> = documents.iter().map(|d| d.document.get_content()).collect();
            assert_eq!(contents, vec!["one", "two", "three"]);
        }
        other => panic!("unexpected {:?}", other),
    }
    assert_eq!(w.buffered(), 0);
}

#[test]
fn pool_numbers_its_workers() {
    let mut pool = Extractor::new(Scanner::new(), ExtractorConfig::default());
    let first = pool.add_worker(0).unwrap();
    let second = pool.add_worker(0).unwrap();
    assert_eq!(first.get_id(), 0);
    assert_eq!(second.get_id(), 1);
    assert_eq!(second.buffered(), 0);
}

#[test]
fn only_bulk_saves_go_to_storage() {
    let mut w = worker(1, 0);
    let mut all = Vec::new();
    all.extend(w.step(WorkerEvent::Timeout, 5));
    all.extend(w.step(
        WorkerEvent::Extracted { scanned: folder_document("/r/a.txt"), content: Some("x".to_string()) },
        6,
    ));
    all.extend(w.step(WorkerEvent::Disconnected, 7));
    for action in &all {
        if let WorkerAction::Store(command) = action {
            assert!(matches!(command, StorageCommand::SaveBulkDocuments { .. }));
        }
    }
    assert_eq!(bulk_sizes(&all), vec![1]);
}
