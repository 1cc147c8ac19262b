//! ZIP archives: every entry with a safe name that passes the filters
//! becomes a document of its own.

use vstd::prelude::*;
use crate::engine::extractor::formats::DataExtracted;
use crate::engine::extractor::tokens::{cut, cut_runs};
use crate::engine::scanner::filters::FilterView;
use crate::engine::scanner::{
    documents_view, verdict, FiltersMode, ScannedDocument, ScannedDocumentView, Scanner,
    ScannerView,
};
use crate::entities::container::{Container, ContainerType, ContainerView};
use crate::entities::document::{
    document_from_parts, Document, DocumentStatus, DocumentView,
};
use crate::paths::path_file_name;
use crate::text::{opt_view, str_eq, to_chars};

verus! {

/// One entry of an archive, as the archive reader reports it.
#[derive(Debug, PartialEq, Eq)]
pub struct ArchiveEntry {
    /// The name of the entry as it stands in the archive.
    pub name: String,
    /// The relative path that the archive reader resolves the name to, or
    /// nothing where it finds the name unsafe.
    pub enclosed_name: Option<String>,
}

/// What an entry holds.
pub struct ArchiveEntryView {
    pub name: Seq<char>,
    pub enclosed_name: Option<Seq<char>>,
}

impl View for ArchiveEntry {
    type V = ArchiveEntryView;

    open spec fn view(&self) -> ArchiveEntryView {
        ArchiveEntryView { name: self.name@, enclosed_name: opt_view(self.enclosed_name) }
    }
}

/// Of each character of a name, whether it belongs to a component: every
/// character does but `/` and `\`, which separate components.
pub open spec fn component_marks(name: Seq<char>) -> Seq<bool> {
    Seq::new(name.len(), |i: int| name[i] != '/' && name[i] != '\\')
}

/// The components of a name, in order, empty ones included.
pub open spec fn components(name: Seq<char>) -> Seq<Seq<char>> {
    cut_runs(name, component_marks(name), 0)
}

/// Whether a name steps up to a parent directory: one of its components
/// is `..`.
pub open spec fn climbs(name: Seq<char>) -> bool {
    components(name).contains(seq!['.', '.'])
}

/// The safe name of an entry: the path that the archive reader resolves
/// its name to, unless the name steps up to a parent directory.
pub open spec fn safe_name(entry: ArchiveEntryView) -> Option<Seq<char>> {
    if climbs(entry.name) {
        None
    } else {
        entry.enclosed_name
    }
}

/// The safe names of the entries of an archive, in order. An entry whose
/// name cannot be resolved to a safe relative path has none.
pub open spec fn names_view(entries: Seq<ArchiveEntry>) -> Seq<Option<Seq<char>>> {
    Seq::new(entries.len(), |i: int| safe_name(entries[i]@))
}

impl ArchiveEntry {
    /// Whether the name of the entry steps up to a parent directory.
    pub fn climbs(&self) -> (b: bool)
        ensures
            b == climbs(self@.name),
    {
        let chars = to_chars(self.name.as_str());
        let mut marks: Vec<bool> = Vec::new();
        let mut i: usize = 0;
        while i < chars.len()
            invariant
                i <= chars.len(),
                marks.len() == i,
                forall|k: int| 0 <= k < i ==> marks[k] == (chars[k] != '/' && chars[k] != '\\'),
            decreases chars.len() - i,
        {
            marks.push(chars[i] != '/' && chars[i] != '\\');
            i = i + 1;
        }
        assert(marks@ =~= component_marks(chars@));
        let parts = cut(&chars, &marks, 0);
        proof {
            reveal_strlit("..");
            assert(".."@ =~= seq!['.', '.']);
        }
        let ghost all = components(self@.name);
        let mut k: usize = 0;
        while k < parts.len()
            invariant
                k <= parts.len(),
                all == crate::text::strings_view(parts@),
                all == components(self@.name),
                ".."@ == seq!['.', '.'],
                forall|m: int| 0 <= m < k ==> all[m] != seq!['.', '.'],
            decreases parts.len() - k,
        {
            if str_eq(parts[k].as_str(), "..") {
                assert(all[k as int] == seq!['.', '.']);
                assert(all.contains(all[k as int]));
                return true;
            }
            k = k + 1;
        }
        false
    }

    /// The safe name of the entry, if it has one.
    pub fn safe_name(&self) -> (name: Option<&str>)
        ensures
            match name {
                Some(n) => safe_name(self@) == Some(n@),
                None => safe_name(self@) is None,
            },
    {
        if self.climbs() {
            None
        } else {
            match &self.enclosed_name {
                Some(n) => Some(n.as_str()),
                None => None,
            }
        }
    }
}

/// The document of the archive entry with the given name: the document of
/// that path, filed under the whole name, with status `Extracted`, out of
/// an archive.
pub open spec fn entry_document(name: Seq<char>) -> ScannedDocumentView {
    ScannedDocumentView {
        container_type: ContainerType::Archive,
        document: DocumentView {
            status: DocumentStatus::Extracted,
            filename: name,
            ..document_from_parts(name, path_file_name(name))
        },
    }
}

/// The documents of an archive with these entries: one per entry that has
/// a safe name which passes the filters, in the order of the entries.
pub open spec fn archive_documents(
    filters: Seq<FilterView>,
    mode: FiltersMode,
    entries: Seq<Option<Seq<char>>>,
) -> Seq<ScannedDocumentView>
    decreases entries.len(),
{
    if entries.len() == 0 {
        Seq::empty()
    } else {
        let before = archive_documents(filters, mode, entries.drop_last());
        match entries.last() {
            Some(name) => if verdict(filters, mode, name) {
                before.push(entry_document(name))
            } else {
                before
            },
            None => before,
        }
    }
}

/// The container that stands for the archive file `document`.
pub open spec fn archive_container(document: DocumentView) -> ContainerView {
    ContainerView { id: 0, path: document.path, kind: ContainerType::Archive }
}

/// An archive has at most as many documents as entries; one without
/// entries has none.
pub proof fn lemma_archive_documents_len(
    filters: Seq<FilterView>,
    mode: FiltersMode,
    entries: Seq<Option<Seq<char>>>,
)
    ensures
        archive_documents(filters, mode, entries).len() <= entries.len(),
    decreases entries.len(),
{
    if entries.len() > 0 {
        lemma_archive_documents_len(filters, mode, entries.drop_last());
    }
}

/// Every document of an archive comes out of an archive and is marked as
/// extracted.
pub proof fn lemma_archive_documents_marked(
    filters: Seq<FilterView>,
    mode: FiltersMode,
    entries: Seq<Option<Seq<char>>>,
)
    ensures
        forall|i: int|
            0 <= i < archive_documents(filters, mode, entries).len() ==> {
                let scanned = #[trigger] archive_documents(filters, mode, entries)[i];
                scanned.container_type == ContainerType::Archive && scanned.document.status
                    == DocumentStatus::Extracted
            },
    decreases entries.len(),
{
    if entries.len() > 0 {
        lemma_archive_documents_marked(filters, mode, entries.drop_last());
    }
}

/// An entry whose name steps up to a parent directory has no safe name,
/// whatever the archive reader resolves it to, and gives no document.
pub proof fn lemma_climbing_entry_is_dropped(
    filters: Seq<FilterView>,
    mode: FiltersMode,
    names: Seq<Option<Seq<char>>>,
    entry: ArchiveEntryView,
)
    requires
        climbs(entry.name),
    ensures
        safe_name(entry) is None,
        archive_documents(filters, mode, names.push(safe_name(entry))) == archive_documents(
            filters,
            mode,
            names,
        ),
{
    assert(names.push(safe_name(entry)).drop_last() =~= names);
}

/// An entry with a safe name gives its document, behind the documents of
/// the entries before it, where the name passes the filters, and no
/// document where it does not.
pub proof fn lemma_safe_entry_is_added(
    filters: Seq<FilterView>,
    mode: FiltersMode,
    names: Seq<Option<Seq<char>>>,
    name: Seq<char>,
)
    ensures
        archive_documents(filters, mode, names.push(Some(name))) == (if verdict(
            filters,
            mode,
            name,
        ) {
            archive_documents(filters, mode, names).push(entry_document(name))
        } else {
            archive_documents(filters, mode, names)
        }),
{
    assert(names.push(Some(name)).drop_last() =~= names);
}

/// The extractor of ZIP archives, with the filters that its entries must
/// pass.
#[derive(Debug)]
pub struct ZipExtractor {
    scanner: Scanner,
}

impl View for ZipExtractor {
    type V = ScannerView;

    closed spec fn view(&self) -> ScannerView {
        self.scanner@
    }
}

impl ZipExtractor {
    /// An extractor whose entries must pass the filters of `scanner`.
    pub fn new(scanner: Scanner) -> (extractor: Self)
        ensures
            extractor@ == scanner@,
    {
        ZipExtractor { scanner }
    }

    /// The document of one entry, or nothing where the entry has no safe
    /// name or its name does not pass the filters.
    pub fn entry(&self, name: Option<&str>) -> (scanned: Option<ScannedDocument>)
        ensures
            scanned is Some == (name is Some && verdict(
                self@.filters,
                self@.filters_mode,
                name->0@,
            )),
            scanned is Some ==> scanned->0@ == entry_document(name->0@),
    {
        match name {
            Some(name) => {
                if self.scanner.check_filters(name) {
                    let mut document = Document::from_path(name);
                    document.set_status(DocumentStatus::Extracted);
                    document.set_filename(name.to_owned());
                    Some(ScannedDocument { container_type: ContainerType::Archive, document })
                } else {
                    None
                }
            },
            None => None,
        }
    }

    /// The container of the archive file `document` and the documents of
    /// its entries. Always succeeds: an archive without entries gives the
    /// container and no documents.
    pub fn extract(&self, document: &Document, entries: &Vec<ArchiveEntry>) -> (data:
        DataExtracted)
        ensures
            data matches DataExtracted::ArchiveDocuments { archive, documents } && archive@
                == archive_container(document@) && documents_view(documents@)
                == archive_documents(self@.filters, self@.filters_mode, names_view(entries@)),
    {
        let mut documents: Vec<ScannedDocument> = Vec::new();
        let mut i: usize = 0;
        let ghost names = names_view(entries@);
        assert(documents_view(documents@) =~= archive_documents(
            self@.filters,
            self@.filters_mode,
            names.take(0),
        ));
        while i < entries.len()
            invariant
                i <= entries.len(),
                names == names_view(entries@),
                documents_view(documents@) == archive_documents(
                    self@.filters,
                    self@.filters_mode,
                    names.take(i as int),
                ),
            decreases entries.len() - i,
        {
            assert(names.take(i + 1).drop_last() =~= names.take(i as int));
            assert(names.take(i + 1).last() == names[i as int]);
            match self.entry(entries[i].safe_name()) {
                Some(scanned) => {
                    let ghost before = documents_view(documents@);
                    documents.push(scanned);
                    assert(documents_view(documents@) =~= before.push(scanned@));
                },
                None => {},
            }
            i = i + 1;
        }
        assert(names.take(entries.len() as int) =~= names);
        let archive = Container::from_document(document, ContainerType::Archive);
        DataExtracted::ArchiveDocuments { archive, documents }
    }
}

} // verus!
