use rsearch::engine::extractor::formats::{Archive, FormatType};
use rsearch::entities::container::{Container, ContainerType};
use rsearch::entities::document::{Document, DocumentStatus};

#[test]
fn document_from_path_takes_name_and_extension() {
    let d = Document::from_path("/r/a.txt");
    assert_eq!(d.get_path(), "/r/a.txt");
    assert_eq!(d.get_filename(), "a.txt");
    assert_eq!(d.get_extension(), Some("txt"));
    assert_eq!(d.get_content(), "");
    assert_eq!(d.get_description(), "");
    assert_eq!(d.get_id(), None);
    assert_eq!(d.get_container_id(), None);
    assert_eq!(*d.get_status(), DocumentStatus::New);
}

#[test]
fn document_extension_is_lowercased() {
    let d = Document::from_path("/R/Report_42.TXT");
    assert_eq!(d.get_filename(), "Report_42.TXT");
    assert_eq!(d.get_extension(), Some("txt"));
    assert_eq!(d.get_format_type(), FormatType::Text);
}

#[test]
fn document_without_extension() {
    assert_eq!(Document::from_path("/r/Makefile").get_extension(), None);
    assert_eq!(Document::from_path("/r/.hidden").get_extension(), None);
    assert_eq!(Document::from_path("/r/trailing.").get_extension(), None);
    assert_eq!(Document::from_path("/r/archive.tar.gz").get_extension(), Some("gz"));
    assert_eq!(Document::from_path("/r/Makefile").get_format_type(), FormatType::Unknown);
}

#[test]
fn document_from_path_without_file_name() {
    let d = Document::from_path("/");
    assert_eq!(d.get_filename(), "");
    assert_eq!(d.get_extension(), None);
    let e = Document::from_path("");
    assert_eq!(e.get_filename(), "");
    assert_eq!(e.get_path(), "");
}

#[test]
fn document_from_parts_is_exact() {
    let d = Document::from_parts("dir/x/notes.DOCX", Some("notes.DOCX"));
    assert_eq!(d.get_filename(), "notes.DOCX");
    assert_eq!(d.get_extension(), Some("docx"));
    let e = Document::from_parts("..", None);
    assert_eq!(e.get_filename(), "");
    assert_eq!(e.get_extension(), None);
}

#[test]
fn default_document_is_empty() {
    let d = Document::default();
    assert_eq!(d.get_path(), "");
    assert_eq!(d.get_filename(), "");
    assert_eq!(d.get_extension(), None);
    assert_eq!(*d.get_status(), DocumentStatus::New);
    assert_eq!(d.get_status_str(), "New");
}

#[test]
fn setters_change_one_field() {
    let mut d = Document::from_path("/r/a.txt");
    d.set_path("/s/b.pdf".to_string());
    d.set_filename("b.pdf".to_string());
    d.set_extension(Some("pdf".to_string()));
    d.set_content("alpha beta".to_string());
    d.set_description("a note".to_string());
    d.set_id(7);
    d.set_container_id(3);
    d.set_status(DocumentStatus::Extracted);
    assert_eq!(d.get_path(), "/s/b.pdf");
    assert_eq!(d.get_filename(), "b.pdf");
    assert_eq!(d.get_extension(), Some("pdf"));
    assert_eq!(d.get_content(), "alpha beta");
    assert_eq!(d.get_description(), "a note");
    assert_eq!(d.get_id(), Some(7));
    assert_eq!(d.get_container_id(), Some(3));
    assert_eq!(*d.get_status(), DocumentStatus::Extracted);
    assert_eq!(d.get_format_type(), FormatType::Pdf);
    let copy = d.clone();
    assert_eq!(copy, d);
}

#[test]
fn status_texts() {
    let mut d = Document::default();
    for (status, text) in [
        (DocumentStatus::New, "New"),
        (DocumentStatus::Scanned, "Scanned"),
        (DocumentStatus::Extracted, "Extracted"),
        (DocumentStatus::Classified, "Classified"),
        (DocumentStatus::Deleted, "Deleted"),
    ] {
        d.set_status(status);
        assert_eq!(d.get_status_str(), text);
    }
}

#[test]
fn formats_by_extension() {
    assert_eq!(FormatType::from_str("pdf"), Ok(FormatType::Pdf));
    assert_eq!(FormatType::from_str("DOCX"), Ok(FormatType::Docx));
    assert_eq!(FormatType::from_str("Txt"), Ok(FormatType::Text));
    assert_eq!(FormatType::from_str("zip"), Ok(FormatType::Archive(Archive::Zip)));
    assert_eq!(FormatType::from_str("tar"), Ok(FormatType::Unknown));
    assert_eq!(FormatType::from_str(""), Ok(FormatType::Unknown));
    assert_eq!(FormatType::from_lowercase("pdf"), FormatType::Pdf);
    assert_eq!(FormatType::from_lowercase("PDF"), FormatType::Unknown);
}

#[test]
fn container_types_round_trip() {
    assert_eq!(ContainerType::Folder.to_str(), "Folder");
    assert_eq!(ContainerType::Archive.to_str(), "Archive");
    assert_eq!(ContainerType::from_str("Folder"), Ok(ContainerType::Folder));
    assert_eq!(ContainerType::from_str("Archive"), Ok(ContainerType::Archive));
    assert_eq!(ContainerType::from_str("folder"), Err(()));
    assert_eq!(ContainerType::from_str(""), Err(()));
}

#[test]
fn container_from_document_has_its_path_and_no_id() {
    let d = Document::from_path("/r/pack.zip");
    let c = Container::from_document(&d, ContainerType::Archive);
    assert_eq!(c.get_id(), 0);
    assert_eq!(c.get_path(), "/r/pack.zip");
    assert_eq!(c.get_type(), ContainerType::Archive);
    let n = Container::new(5, "/r".to_string(), ContainerType::Folder);
    assert_eq!(n.get_id(), 5);
    assert_eq!(n.get_path(), "/r");
    assert_eq!(n.get_type(), ContainerType::Folder);
}

#[test]
fn container_from_row_reads_the_type() {
    let c = Container::from_row(9, "/r".to_string(), "Folder").unwrap();
    assert_eq!(c, Container::new(9, "/r".to_string(), ContainerType::Folder));
    assert!(Container::from_row(9, "/r".to_string(), "Shelf").is_err());
}
