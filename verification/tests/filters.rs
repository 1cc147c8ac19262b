use rsearch::engine::extractor::commands::ExtractorCommand;
use rsearch::engine::scanner::filters::{Filter, StringCondition};
use rsearch::engine::scanner::{FiltersMode, Scanner};
use rsearch::entities::container::ContainerType;
use rsearch::entities::document::DocumentStatus;

fn extension_filter(ext: &str) -> Filter {
    let mut f = Filter::new();
    f.set_extension_is(ext);
    f
}

#[test]
fn string_condition_with_and_without_case() {
    let exact = StringCondition::new("Report", true);
    assert!(exact.matches("My Report.txt"));
    assert!(!exact.matches("my report.txt"));
    let folded = StringCondition::new("Report", false);
    assert!(folded.matches("My Report.txt"));
    assert!(folded.matches("my REPORT.txt"));
    assert!(!folded.matches("my repor.txt"));
}

#[test]
fn empty_filter_passes_everything() {
    let f = Filter::new();
    assert!(f.check("/r/a.txt"));
    assert!(f.check(""));
    assert!(f.check("/"));
    assert!(Filter::default().check("anything at all"));
}

#[test]
fn filter_conditions_must_all_hold() {
    let mut f = Filter::new();
    f.set_filename_contains("report");
    f.set_filename_not_contains("draft");
    f.set_dir_contains("docs");
    f.set_dir_not_contains("old");
    f.set_extension_is("txt");
    assert!(f.check("/home/docs/report_1.txt"));
    assert!(!f.check("/home/docs/summary_1.txt"));
    assert!(!f.check("/home/docs/report_draft.txt"));
    assert!(!f.check("/home/files/report_1.txt"));
    assert!(!f.check("/home/docs/old/report_1.txt"));
    assert!(!f.check("/home/docs/report_1.pdf"));
    assert!(!f.check("/home/docs/report_1"));
}

#[test]
fn extension_conditions_regard_case_and_need_an_extension() {
    let f = extension_filter("txt");
    assert!(f.check("/r/a.txt"));
    assert!(!f.check("/r/a.TXT"));
    assert!(!f.check("/r/a"));
    let mut g = Filter::new();
    g.set_extension_is_not("tmp");
    assert!(g.check("/r/a.txt"));
    assert!(!g.check("/r/a.tmp"));
    assert!(!g.check("/r/a"));
}

#[test]
fn check_parts_is_exact() {
    let mut f = Filter::new();
    f.set_filename_contains("a");
    f.set_dir_not_contains("x");
    f.set_extension_is("txt");
    assert!(f.check_parts("a.txt", "/r", Some("txt")));
    assert!(!f.check_parts("b.txt", "/r", Some("txt")));
    assert!(!f.check_parts("a.txt", "/x", Some("txt")));
    assert!(!f.check_parts("a.txt", "/r", Some("pdf")));
    assert!(!f.check_parts("a.txt", "/r", None));
}

#[test]
fn conditions_keep_the_case_flag_they_were_set_with() {
    let mut f = Filter::new();
    f.set_case_sensitive(false);
    f.set_filename_contains("REPORT");
    f.set_case_sensitive(true);
    f.set_dir_contains("Docs");
    assert!(f.check("/Docs/report.txt"));
    assert!(!f.check("/docs/report.txt"));
}

#[test]
fn invalid_regex_is_refused() {
    let mut f = Filter::new();
    assert!(f.set_filename_regex("(unclosed").is_err());
    // The filter is as it was: it still passes everything.
    assert!(f.check("/r/a.txt"));
    assert!(f.set_filename_regex("^a+$").is_ok());
    assert!(f.check("/r/aaa"));
    assert!(!f.check("/r/aab"));
}

#[test]
fn case_insensitive_regex_on_the_full_file_name() {
    let mut f = Filter::new();
    f.set_case_sensitive(false);
    assert!(f.set_filename_regex(r"^report_\d+$").is_ok());
    assert!(!f.check("/R/Report_42.TXT"));
    assert!(!f.check("/R/notes.txt"));
    assert!(f.check("/R/Report_42"));
    assert!(f.check("/R/report_7"));
    let mut exact = Filter::new();
    assert!(exact.set_filename_regex(r"^report_\d+$").is_ok());
    assert!(!exact.check("/R/Report_42"));
    assert!(exact.check("/R/report_42"));
}

#[test]
fn no_filters_pass_every_path() {
    let mut s = Scanner::new();
    assert!(s.check_filters("/r/a.txt"));
    assert!(s.check_filters(""));
    s.set_filters_mode(FiltersMode::Or);
    assert!(s.check_filters("/r/a.txt"));
    assert!(s.check_filters(""));
}

#[test]
fn and_mode_needs_every_filter() {
    let mut s = Scanner::new();
    s.add_filter(extension_filter("txt"));
    let mut name = Filter::new();
    name.set_filename_contains("a");
    s.add_filter(name);
    assert!(s.check_filters("/r/a.txt"));
    assert!(!s.check_filters("/r/b.txt"));
    assert!(!s.check_filters("/r/a.pdf"));
}

#[test]
fn or_mode_needs_one_filter_and_rejects_when_all_fail() {
    let mut s = Scanner::new();
    s.set_filters_mode(FiltersMode::Or);
    s.add_filter(extension_filter("zip"));
    s.add_filter(extension_filter("pdf"));
    s.add_filter(extension_filter("txt"));
    assert!(s.check_filters("/r/a.txt"));
    assert!(s.check_filters("/r/a.pdf"));
    assert!(s.check_filters("/r/a.zip"));
    assert!(!s.check_filters("/r/a.docx"));
    assert!(!s.check_filters("/r/a"));
}

#[test]
fn verdict_does_not_depend_on_filters_before_the_deciding_one() {
    for padding in 0..4 {
        let mut and = Scanner::new();
        let mut or = Scanner::new();
        or.set_filters_mode(FiltersMode::Or);
        for _ in 0..padding {
            and.add_filter(Filter::new());
            or.add_filter(extension_filter("none"));
        }
        and.add_filter(extension_filter("pdf"));
        or.add_filter(extension_filter("txt"));
        and.add_filter(Filter::new());
        or.add_filter(extension_filter("other"));
        assert!(!and.check_filters("/r/a.txt"));
        assert!(or.check_filters("/r/a.txt"));
    }
}

#[test]
fn scan_file_makes_a_scanned_folder_document() {
    let mut s = Scanner::new();
    s.add_filter(extension_filter("txt"));
    assert!(s.scan_file("/r/a.pdf").is_none());
    match s.scan_file("/r/a.txt") {
        Some(ExtractorCommand::ProcessDocument(scanned)) => {
            assert_eq!(scanned.container_type, ContainerType::Folder);
            assert_eq!(scanned.document.get_path(), "/r/a.txt");
            assert_eq!(scanned.document.get_filename(), "a.txt");
            assert_eq!(scanned.document.get_extension(), Some("txt"));
            assert_eq!(*scanned.document.get_status(), DocumentStatus::Scanned);
        }
        other => panic!("unexpected {:?}", other),
    }
}

#[test]
fn scan_folder_keeps_the_order_of_the_walk() {
    let mut s = Scanner::new();
    s.add_filter(extension_filter("txt"));
    let paths: Vec<String> =
        ["/r/b.txt", "/r/a.pdf", "/r/a.txt", "/r/c"].iter().map(|p| p.to_string()).collect();
    let requests = s.scan_folder(&paths);
    let names: Vec<String> = requests
        .iter()
        .map(|r| match r {
            ExtractorCommand::ProcessDocument(scanned) => scanned.document.get_path().to_string(),
            other => panic!("unexpected {:?}", other),
        })
        .collect();
    assert_eq!(names, vec!["/r/b.txt", "/r/a.txt"]);
    assert!(s.clone().scan_folder(&Vec::new()).is_empty());
}
