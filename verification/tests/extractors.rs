use rsearch::engine::extractor::formats::archive::zip::{ArchiveEntry, ZipExtractor};
use rsearch::engine::extractor::formats::microsoft::docx::DocxExtractor;
use rsearch::engine::extractor::formats::pdf::PdfExtractor;
use rsearch::engine::extractor::formats::text::TextExtractor;
use rsearch::engine::extractor::formats::DataExtracted;
use rsearch::engine::extractor::{ExtractorConfig, ExtractorError};
use rsearch::engine::scanner::filters::Filter;
use rsearch::engine::scanner::{FiltersMode, Scanner};
use rsearch::entities::container::ContainerType;
use rsearch::entities::document::{Document, DocumentStatus};

fn lines(text: &[&str]) -> Vec<String> {
    text.iter().map(|l| l.to_string()).collect()
}

fn entry(name: &str, enclosed: Option<&str>) -> ArchiveEntry {
    ArchiveEntry { name: name.to_string(), enclosed_name: enclosed.map(|n| n.to_string()) }
}

fn scanner_for(extensions: &[&str]) -> Scanner {
    let mut s = Scanner::new();
    s.set_filters_mode(FiltersMode::Or);
    for e in extensions {
        let mut f = Filter::new();
        f.set_extension_is(e);
        s.add_filter(f);
    }
    s
}

#[test]
fn default_settings() {
    let c = ExtractorConfig::default();
    assert_eq!(c.insert_batch_size, 100);
    assert_eq!(c.flush_interval_ms, 5000);
    assert_eq!(c.tokens_min_length, 3);
    assert_eq!(c.max_tokens, 500);
    let d = ExtractorConfig::with_overrides(Some(2), None, Some(1), None);
    assert_eq!(d.insert_batch_size, 2);
    assert_eq!(d.flush_interval_ms, 5000);
    assert_eq!(d.tokens_min_length, 1);
    assert_eq!(d.max_tokens, 500);
}

#[test]
fn text_summary_with_default_settings() {
    let content = TextExtractor::extract(
        &lines(&["alpha beta alpha gamma"]),
        &ExtractorConfig::default(),
    );
    assert_eq!(content, "alpha beta gamma");
}

#[test]
fn summary_is_cut_at_max_tokens() {
    let config = ExtractorConfig::with_overrides(None, None, None, Some(2));
    let content = TextExtractor::extract(&lines(&["ccc bbb ccc aaa bbb ccc"]), &config);
    assert_eq!(content, "ccc bbb");
}

#[test]
fn pdf_pages_are_summarised_together() {
    let content = PdfExtractor::extract(
        &lines(&["first page words", "second page\nwords words"]),
        &ExtractorConfig::default(),
    );
    assert_eq!(content, "words page first second");
}

#[test]
fn docx_text_runs_are_joined_with_spaces() {
    let xml = "<w:document><w:body><w:p><w:r><w:t>Hello</w:t></w:r><w:r><w:t>World hello</w:t></w:r></w:p></w:body></w:document>";
    let runs = DocxExtractor::text_runs(xml).unwrap();
    assert_eq!(runs, vec!["Hello", "World hello"]);
    assert_eq!(DocxExtractor::join_runs(&runs), "Hello World hello ");
    let content = DocxExtractor::extract(xml, &ExtractorConfig::default()).unwrap();
    assert_eq!(content, "hello world");
    assert_eq!(DocxExtractor::summarize(&runs, &ExtractorConfig::default()), "hello world");
}

#[test]
fn docx_without_text_gives_an_empty_summary() {
    let content = DocxExtractor::extract("<a><b/></a>", &ExtractorConfig::default()).unwrap();
    assert_eq!(content, "");
    assert_eq!(DocxExtractor::extract("", &ExtractorConfig::default()).unwrap(), "");
}

#[test]
fn broken_docx_fails() {
    let r = DocxExtractor::extract("<a><b></a>", &ExtractorConfig::default());
    assert!(matches!(r, Err(ExtractorError::ExtractionFailed)));
}

#[test]
fn zip_entries_become_documents() {
    let extractor = ZipExtractor::new(scanner_for(&["pdf", "txt", "zip"]));
    let archive_file = Document::from_path("/r/pack.zip");
    // The archive reader finds the third name unsafe; the fourth steps up
    // to a parent directory.
    let entries = vec![
        entry("a.pdf", Some("a.pdf")),
        entry("b.txt", Some("b.txt")),
        entry("/etc/passwd.txt", None),
        entry("evil/../x.txt", Some("x.txt")),
        entry("dir/c.docx", Some("dir/c.docx")),
        entry("dir/d.txt", Some("dir/d.txt")),
    ];
    match extractor.extract(&archive_file, &entries) {
        DataExtracted::ArchiveDocuments { archive, documents } => {
            assert_eq!(archive.get_path(), "/r/pack.zip");
            assert_eq!(archive.get_type(), ContainerType::Archive);
            assert_eq!(archive.get_id(), 0);
            let names: Vec<&str> = documents.iter().map(|d| d.document.get_filename()).collect();
            assert_eq!(names, vec!["a.pdf", "b.txt", "dir/d.txt"]);
            for d in &documents {
                assert_eq!(d.container_type, ContainerType::Archive);
                assert_eq!(*d.document.get_status(), DocumentStatus::Extracted);
                assert_eq!(d.document.get_container_id(), None);
            }
            assert_eq!(documents[2].document.get_path(), "dir/d.txt");
            assert_eq!(documents[2].document.get_extension(), Some("txt"));
        }
        other => panic!("unexpected {:?}", other),
    }
}

#[test]
fn archive_without_entries_gives_container_and_no_documents() {
    let extractor = ZipExtractor::new(Scanner::new());
    let archive_file = Document::from_path("/r/empty.zip");
    match extractor.extract(&archive_file, &Vec::new()) {
        DataExtracted::ArchiveDocuments { archive, documents } => {
            assert_eq!(archive.get_path(), "/r/empty.zip");
            assert!(documents.is_empty());
        }
        other => panic!("unexpected {:?}", other),
    }
}

#[test]
fn zip_entry_alone() {
    let extractor = ZipExtractor::new(scanner_for(&["txt"]));
    assert!(extractor.entry(None).is_none());
    assert!(extractor.entry(Some("a.pdf")).is_none());
    let scanned = extractor.entry(Some("x/a.txt")).unwrap();
    assert_eq!(scanned.document.get_filename(), "x/a.txt");
}

#[test]
fn names_that_step_up_are_not_safe() {
    for name in ["evil/../x.txt", "../x.txt", "a/..", "..", "a\\..\\b", "a/b/../../../c"] {
        let e = entry(name, Some("x.txt"));
        assert!(e.climbs(), "{:?}", name);
        assert_eq!(e.safe_name(), None);
    }
    for name in ["a.txt", "dir/a.txt", "a..b/c", "...", "a/.../b", ".hidden", "a/./b", ""] {
        let e = entry(name, Some("resolved"));
        assert!(!e.climbs(), "{:?}", name);
        assert_eq!(e.safe_name(), Some("resolved"));
        assert_eq!(entry(name, None).safe_name(), None);
    }
}
