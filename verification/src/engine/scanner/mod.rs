//! The scanner stage: decides which paths enter the pipeline.

pub mod filters;

use vstd::prelude::*;
use crate::engine::extractor::commands::{commands_view, ExtractorCommand, ExtractorCommandView};
use crate::engine::scanner::filters::{filter_accepts, Filter, FilterView};
use crate::entities::container::ContainerType;
use crate::entities::document::{document_from_parts, Document, DocumentStatus, DocumentView};
use crate::paths::path_file_name;

verus! {

/// How the verdicts of several filters are combined.
#[derive(Debug, Clone, Copy, PartialEq, Eq, Hash, Structural)]
pub enum FiltersMode {
    And,
    Or,
}

/// A document in flight, with the kind of container it came from.
#[derive(Debug, PartialEq, Eq, Hash)]
pub struct ScannedDocument {
    pub container_type: ContainerType,
    pub document: Document,
}

/// What a document in flight holds.
pub struct ScannedDocumentView {
    pub container_type: ContainerType,
    pub document: DocumentView,
}

impl View for ScannedDocument {
    type V = ScannedDocumentView;

    open spec fn view(&self) -> ScannedDocumentView {
        ScannedDocumentView { container_type: self.container_type, document: self.document@ }
    }
}

impl Clone for ScannedDocument {
    fn clone(&self) -> (s: Self)
        ensures
            s@ == self@,
    {
        ScannedDocument { container_type: self.container_type, document: self.document.clone() }
    }
}

/// What a list of documents in flight holds, in order.
pub open spec fn documents_view(documents: Seq<ScannedDocument>) -> Seq<ScannedDocumentView> {
    Seq::new(documents.len(), |i: int| documents[i]@)
}

/// What a list of filters holds, in order.
pub open spec fn filters_view(filters: Seq<Filter>) -> Seq<FilterView> {
    Seq::new(filters.len(), |i: int| filters[i]@)
}

/// The verdict of a set of filters on a path. Without filters every path
/// passes. In mode `And` the path must pass every filter, in mode `Or` at
/// least one.
pub open spec fn verdict(filters: Seq<FilterView>, mode: FiltersMode, path: Seq<char>) -> bool {
    if filters.len() == 0 {
        true
    } else {
        match mode {
            FiltersMode::And => forall|i: int|
                0 <= i < filters.len() ==> filter_accepts(#[trigger] filters[i], path),
            FiltersMode::Or => exists|i: int|
                0 <= i < filters.len() && filter_accepts(#[trigger] filters[i], path),
        }
    }
}

/// The document that the scanner makes for a path it found while walking:
/// the document of the path, with status `Scanned`, out of a folder.
pub open spec fn scanned_document(path: Seq<char>) -> ScannedDocumentView {
    ScannedDocumentView {
        container_type: ContainerType::Folder,
        document: DocumentView {
            status: DocumentStatus::Scanned,
            ..document_from_parts(path, path_file_name(path))
        },
    }
}

/// The requests that a walk over `paths` gives rise to: one per path that
/// passes the filters, in the order of the walk.
pub open spec fn scan_requests(
    filters: Seq<FilterView>,
    mode: FiltersMode,
    paths: Seq<Seq<char>>,
) -> Seq<ExtractorCommandView>
    decreases paths.len(),
{
    if paths.len() == 0 {
        Seq::empty()
    } else {
        let before = scan_requests(filters, mode, paths.drop_last());
        if verdict(filters, mode, paths.last()) {
            before.push(ExtractorCommandView::ProcessDocument(scanned_document(paths.last())))
        } else {
            before
        }
    }
}

/// With a filter in the set that decides the verdict by itself (one that
/// the path fails in mode `And`, one that it passes in mode `Or`), the
/// verdict is the same whatever filters stand before or behind it.
pub proof fn lemma_deciding_filter(
    before: Seq<FilterView>,
    deciding: FilterView,
    behind: Seq<FilterView>,
    mode: FiltersMode,
    path: Seq<char>,
)
    requires
        filter_accepts(deciding, path) == (mode == FiltersMode::Or),
    ensures
        verdict(before + seq![deciding] + behind, mode, path) == (mode == FiltersMode::Or),
        verdict(before + seq![deciding] + behind, mode, path) == verdict(
            seq![deciding],
            mode,
            path,
        ),
{
    let all = before + seq![deciding] + behind;
    assert(all[before.len() as int] == deciding);
    assert(seq![deciding][0] == deciding);
}

/// The verdict does not depend on where a filter stands in the set: putting
/// one more filter in front gives the same verdict as putting it behind.
pub proof fn lemma_verdict_ignores_order(
    filters: Seq<FilterView>,
    extra: FilterView,
    mode: FiltersMode,
    path: Seq<char>,
)
    ensures
        verdict(seq![extra] + filters, mode, path) == verdict(filters.push(extra), mode, path),
{
    let front = seq![extra] + filters;
    let back = filters.push(extra);
    assert(front[0] == extra);
    assert(back[filters.len() as int] == extra);
    assert forall|i: int| 0 <= i < filters.len() implies front[i + 1] == filters[i] && back[i]
        == filters[i] by {}
    match mode {
        FiltersMode::And => {
            if verdict(front, mode, path) {
                assert forall|i: int| 0 <= i < back.len() implies filter_accepts(
                    #[trigger] back[i],
                    path,
                ) by {
                    if i < filters.len() {
                        assert(filter_accepts(front[i + 1], path));
                    } else {
                        assert(filter_accepts(front[0], path));
                    }
                }
            }
            if verdict(back, mode, path) {
                assert forall|i: int| 0 <= i < front.len() implies filter_accepts(
                    #[trigger] front[i],
                    path,
                ) by {
                    if i > 0 {
                        assert(filter_accepts(back[i - 1], path));
                    } else {
                        assert(filter_accepts(back[filters.len() as int], path));
                    }
                }
            }
        },
        FiltersMode::Or => {
            if verdict(front, mode, path) {
                let i = choose|i: int|
                    0 <= i < front.len() && filter_accepts(#[trigger] front[i], path);
                if i > 0 {
                    assert(filter_accepts(back[i - 1], path));
                } else {
                    assert(filter_accepts(back[filters.len() as int], path));
                }
            }
            if verdict(back, mode, path) {
                let i = choose|i: int|
                    0 <= i < back.len() && filter_accepts(#[trigger] back[i], path);
                if i < filters.len() {
                    assert(filter_accepts(front[i + 1], path));
                } else {
                    assert(filter_accepts(front[0], path));
                }
            }
        },
    }
}

/// Without filters every path passes, in either mode.
pub proof fn lemma_no_filters_pass_all(mode: FiltersMode, path: Seq<char>)
    ensures
        verdict(Seq::empty(), mode, path),
{
}

/// In mode `Or`, a path that fails every filter of a set that is not empty
/// is rejected.
pub proof fn lemma_or_rejects_when_all_fail(filters: Seq<FilterView>, path: Seq<char>)
    requires
        filters.len() > 0,
        forall|i: int| 0 <= i < filters.len() ==> !filter_accepts(#[trigger] filters[i], path),
    ensures
        !verdict(filters, FiltersMode::Or, path),
{
}

/// The filters of the pipeline and the way their verdicts are combined.
#[derive(Debug)]
pub struct Scanner {
    filters: Vec<Filter>,
    filters_mode: FiltersMode,
}

/// What a scanner holds.
pub struct ScannerView {
    pub filters: Seq<FilterView>,
    pub filters_mode: FiltersMode,
}

impl View for Scanner {
    type V = ScannerView;

    closed spec fn view(&self) -> ScannerView {
        ScannerView { filters: filters_view(self.filters@), filters_mode: self.filters_mode }
    }
}

impl Clone for Scanner {
    fn clone(&self) -> (s: Self)
        ensures
            s@ == self@,
    {
        let mut filters: Vec<Filter> = Vec::new();
        let mut i: usize = 0;
        while i < self.filters.len()
            invariant
                i <= self.filters.len(),
                filters_view(filters@) == filters_view(self.filters@).take(i as int),
            decreases self.filters.len() - i,
        {
            let ghost before = filters_view(filters@);
            filters.push(self.filters[i].clone());
            assert(filters_view(filters@) =~= before.push(self.filters@[i as int]@));
            assert(filters_view(self.filters@).take(i + 1) =~= before.push(
                self.filters@[i as int]@,
            ));
            i = i + 1;
        }
        assert(filters_view(self.filters@).take(self.filters.len() as int) =~= filters_view(
            self.filters@,
        ));
        Scanner { filters, filters_mode: self.filters_mode }
    }
}

impl Scanner {
    /// A scanner without filters, in mode `And`.
    pub fn new() -> (s: Self)
        ensures
            s@ == (ScannerView { filters: Seq::empty(), filters_mode: FiltersMode::And }),
    {
        let s = Scanner { filters: Vec::new(), filters_mode: FiltersMode::And };
        assert(s@.filters =~= Seq::<FilterView>::empty());
        s
    }

    /// The verdict of the filter set on `path`.
    pub fn check_filters(&self, path: &str) -> (b: bool)
        ensures
            b == verdict(self@.filters, self@.filters_mode, path@),
    {
        if self.filters.len() == 0 {
            return true;
        }
        let mut i: usize = 0;
        while i < self.filters.len()
            invariant
                i <= self.filters.len(),
                self.filters.len() > 0,
                self.filters_mode == FiltersMode::And ==> forall|k: int|
                    0 <= k < i ==> filter_accepts(#[trigger] self@.filters[k], path@),
                self.filters_mode == FiltersMode::Or ==> forall|k: int|
                    0 <= k < i ==> !filter_accepts(#[trigger] self@.filters[k], path@),
            decreases self.filters.len() - i,
        {
            let passed = self.filters[i].check(path);
            assert(self@.filters[i as int] == self.filters@[i as int]@);
            match self.filters_mode {
                FiltersMode::And => {
                    if !passed {
                        return false;
                    }
                },
                FiltersMode::Or => {
                    if passed {
                        return true;
                    }
                },
            }
            i = i + 1;
        }
        match self.filters_mode {
            FiltersMode::And => true,
            FiltersMode::Or => false,
        }
    }

    /// Sets the way the verdicts of the filters are combined.
    pub fn set_filters_mode(&mut self, mode: FiltersMode)
        ensures
            final(self)@ == (ScannerView { filters_mode: mode, ..old(self)@ }),
    {
        self.filters_mode = mode;
    }

    /// Adds a filter behind those that are there.
    pub fn add_filter(&mut self, filter: Filter)
        ensures
            final(self)@ == (ScannerView {
                filters: old(self)@.filters.push(filter@),
                ..old(self)@
            }),
    {
        let ghost before = self@.filters;
        self.filters.push(filter);
        assert(self@.filters =~= before.push(filter@));
    }

    /// The request for one path that a walk came upon: none where the path
    /// does not pass the filters; otherwise the request to process the
    /// document of that path, marked as scanned and as found in a folder.
    pub fn scan_file(&self, path: &str) -> (request: Option<ExtractorCommand>)
        ensures
            request is Some == verdict(self@.filters, self@.filters_mode, path@),
            request is Some ==> request->0@ == ExtractorCommandView::ProcessDocument(
                scanned_document(path@),
            ),
    {
        if self.check_filters(path) {
            let mut document = Document::from_path(path);
            document.set_status(DocumentStatus::Scanned);
            Some(
                ExtractorCommand::ProcessDocument(
                    ScannedDocument { container_type: ContainerType::Folder, document },
                ),
            )
        } else {
            None
        }
    }

    /// The requests for the paths that a walk over a folder came upon, in
    /// the order of the walk.
    pub fn scan_folder(&self, paths: &Vec<String>) -> (requests: Vec<ExtractorCommand>)
        ensures
            commands_view(requests@) == scan_requests(
                self@.filters,
                self@.filters_mode,
                crate::text::strings_view(paths@),
            ),
    {
        let mut requests: Vec<ExtractorCommand> = Vec::new();
        let mut i: usize = 0;
        let ghost all = crate::text::strings_view(paths@);
        assert(commands_view(requests@) =~= scan_requests(
            self@.filters,
            self@.filters_mode,
            all.take(0),
        ));
        while i < paths.len()
            invariant
                i <= paths.len(),
                all == crate::text::strings_view(paths@),
                commands_view(requests@) == scan_requests(
                    self@.filters,
                    self@.filters_mode,
                    all.take(i as int),
                ),
            decreases paths.len() - i,
        {
            assert(all.take(i + 1).drop_last() =~= all.take(i as int));
            assert(all.take(i + 1).last() == paths@[i as int]@);
            match self.scan_file(paths[i].as_str()) {
                Some(request) => {
                    let ghost before = commands_view(requests@);
                    requests.push(request);
                    assert(commands_view(requests@) =~= before.push(request@));
                },
                None => {},
            }
            i = i + 1;
        }
        assert(all.take(paths.len() as int) =~= all);
        requests
    }
}

} // verus!
