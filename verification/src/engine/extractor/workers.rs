//! One worker of the extractor pool, as a machine that is fed events and
//! answers with what is to be done next. The worker reads no file and
//! owns no channel: whoever runs it does what it says and feeds it the
//! outcome.

use vstd::prelude::*;
use crate::engine::extractor::commands::{ExtractorCommand, ExtractorCommandView};
use crate::engine::extractor::formats::archive::zip::{
    archive_container, archive_documents, names_view, ArchiveEntry, ZipExtractor,
};
use crate::engine::extractor::formats::{format_of, Archive, DataExtracted, FormatType};
use crate::engine::extractor::ExtractorConfig;
use crate::engine::scanner::{documents_view, ScannedDocument, ScannedDocumentView, Scanner, ScannerView};
use crate::entities::container::{Container, ContainerType, ContainerView};
use crate::engine::scanner::scanned_document;
use crate::entities::document::{row_of, status_rank, DocumentStatus, DocumentView};
use crate::storage::commands::{StorageCommand, StorageCommandView};
use crate::text::lowercase_of;

verus! {

/// What happened, as the worker is told.
#[derive(Debug)]
pub enum WorkerEvent {
    /// A command came in.
    Received(ExtractorCommand),
    /// The extractor that was asked for ran: with the keyword summary of
    /// the document, or without one where it failed.
    Extracted { scanned: ScannedDocument, content: Option<String> },
    /// The archive that was to be listed was read: with its entries, or
    /// without them where the archive could not be read.
    ArchiveListed { scanned: ScannedDocument, entries: Option<Vec<ArchiveEntry>> },
    /// The storage worker answered a request to save an archive: with the
    /// archive and its id, or without one where it failed.
    ArchiveSaved { saved: Option<Container>, documents: Vec<ScannedDocument> },
    /// No command came in within the time the worker waits.
    Timeout,
    /// The queue of commands is closed.
    Disconnected,
}

/// What is to be done next, as the worker says.
#[derive(Debug)]
pub enum WorkerAction {
    /// Run the extractor of this format on the document and come back
    /// with `Extracted`.
    Extract { format: FormatType, scanned: ScannedDocument },
    /// Read the names of the entries of this archive and come back with
    /// `ArchiveListed`.
    ListArchive { scanned: ScannedDocument },
    /// Ask the storage worker to save this archive, wait for the answer
    /// and come back with `ArchiveSaved` and these documents.
    SaveArchive { archive: Container, documents: Vec<ScannedDocument> },
    /// Put this command on the queue of the extractor.
    Inject(ExtractorCommand),
    /// Send this request to the storage worker without waiting for an
    /// answer.
    Store(StorageCommand),
    /// Leave the loop.
    Stop,
}

/// What an event holds.
pub enum WorkerEventView {
    Received(ExtractorCommandView),
    Extracted { scanned: ScannedDocumentView, content: Option<Seq<char>> },
    ArchiveListed { scanned: ScannedDocumentView, entries: Option<Seq<Option<Seq<char>>>> },
    ArchiveSaved { saved: Option<ContainerView>, documents: Seq<ScannedDocumentView> },
    Timeout,
    Disconnected,
}

/// What an action holds.
pub enum WorkerActionView {
    Extract { format: FormatType, scanned: ScannedDocumentView },
    ListArchive { scanned: ScannedDocumentView },
    SaveArchive { archive: ContainerView, documents: Seq<ScannedDocumentView> },
    Inject(ExtractorCommandView),
    Store(StorageCommandView),
    Stop,
}

impl View for WorkerEvent {
    type V = WorkerEventView;

    open spec fn view(&self) -> WorkerEventView {
        match self {
            WorkerEvent::Received(command) => WorkerEventView::Received(command@),
            WorkerEvent::Extracted { scanned, content } => WorkerEventView::Extracted {
                scanned: scanned@,
                content: crate::text::opt_view(*content),
            },
            WorkerEvent::ArchiveListed { scanned, entries } => WorkerEventView::ArchiveListed {
                scanned: scanned@,
                entries: match entries {
                    Some(names) => Some(names_view(names@)),
                    None => None,
                },
            },
            WorkerEvent::ArchiveSaved { saved, documents } => WorkerEventView::ArchiveSaved {
                saved: match saved {
                    Some(archive) => Some(archive@),
                    None => None,
                },
                documents: documents_view(documents@),
            },
            WorkerEvent::Timeout => WorkerEventView::Timeout,
            WorkerEvent::Disconnected => WorkerEventView::Disconnected,
        }
    }
}

/// What an action holds.
pub open spec fn action_view(action: WorkerAction) -> WorkerActionView {
    match action {
        WorkerAction::Extract { format, scanned } => WorkerActionView::Extract {
            format,
            scanned: scanned@,
        },
        WorkerAction::ListArchive { scanned } => WorkerActionView::ListArchive {
            scanned: scanned@,
        },
        WorkerAction::SaveArchive { archive, documents } => WorkerActionView::SaveArchive {
            archive: archive@,
            documents: documents_view(documents@),
        },
        WorkerAction::Inject(command) => WorkerActionView::Inject(command@),
        WorkerAction::Store(command) => WorkerActionView::Store(command@),
        WorkerAction::Stop => WorkerActionView::Stop,
    }
}

/// What a list of actions holds, in order.
pub open spec fn actions_view(actions: Seq<WorkerAction>) -> Seq<WorkerActionView> {
    Seq::new(actions.len(), |i: int| action_view(actions[i]))
}

/// What a worker holds.
pub struct ExtractorWorkerView {
    pub id: usize,
    pub scanner: ScannerView,
    pub config: ExtractorConfig,
    /// The documents that wait for the next bulk save, oldest first.
    pub buffer: Seq<ScannedDocumentView>,
    /// When the buffer was last flushed, in milliseconds.
    pub last_flush_ms: u64,
}

/// A worker that has done nothing yet.
pub open spec fn fresh_worker(
    id: usize,
    scanner: ScannerView,
    config: ExtractorConfig,
    now_ms: u64,
) -> ExtractorWorkerView {
    ExtractorWorkerView { id, scanner, config, buffer: Seq::empty(), last_flush_ms: now_ms }
}

/// The document as it is buffered: marked as extracted, and with the
/// keyword summary where there is one.
pub open spec fn finished(scanned: ScannedDocumentView, content: Option<Seq<char>>) -> ScannedDocumentView {
    ScannedDocumentView {
        document: DocumentView {
            status: DocumentStatus::Extracted,
            content: match content {
                Some(text) => text,
                None => scanned.document.content,
            },
            ..scanned.document
        },
        ..scanned
    }
}

/// The format of a document, by its extension in any letter case.
pub open spec fn format_of_document(document: DocumentView) -> FormatType {
    format_of(
        lowercase_of(
            match document.extension {
                Some(e) => e,
                None => Seq::empty(),
            },
        ),
    )
}

/// The document with the id of its container set.
pub open spec fn filed(scanned: ScannedDocumentView, container_id: i64) -> ScannedDocumentView {
    ScannedDocumentView {
        document: DocumentView { container_id: Some(container_id), ..scanned.document },
        ..scanned
    }
}

/// The commands that put the entries of a saved archive back on the queue:
/// one per entry, in order, each with the id of the archive as its
/// container.
pub open spec fn reinjected(container_id: i64, documents: Seq<ScannedDocumentView>) -> Seq<
    WorkerActionView,
> {
    Seq::new(
        documents.len(),
        |i: int|
            WorkerActionView::Inject(
                ExtractorCommandView::ProcessDocument(filed(documents[i], container_id)),
            ),
    )
}

/// The action that sends these documents to the storage worker as one
/// bulk save.
pub open spec fn bulk_save(documents: Seq<ScannedDocumentView>) -> WorkerActionView {
    WorkerActionView::Store(StorageCommandView::SaveBulkDocuments { documents })
}

/// How much time has passed since the last flush. A clock that runs
/// backwards counts as no time passed.
pub open spec fn elapsed_ms(worker: ExtractorWorkerView, now_ms: u64) -> int {
    if now_ms >= worker.last_flush_ms {
        now_ms - worker.last_flush_ms
    } else {
        0
    }
}

/// Whether the buffer is to be flushed: it is full, or it holds something
/// and more time than the flush interval has passed since the last flush.
pub open spec fn flush_due(worker: ExtractorWorkerView, now_ms: u64) -> bool {
    ||| worker.buffer.len() >= worker.config.insert_batch_size
    ||| worker.buffer.len() > 0 && elapsed_ms(worker, now_ms) > worker.config.flush_interval_ms
}

/// What the worker does about an event, before it looks at its buffer:
/// the worker afterwards, and the actions it asks for.
pub open spec fn reaction(worker: ExtractorWorkerView, event: WorkerEventView) -> (
    ExtractorWorkerView,
    Seq<WorkerActionView>,
) {
    match event {
        WorkerEventView::Received(ExtractorCommandView::ProcessDocument(scanned)) => {
            if scanned.container_type == ContainerType::Archive {
                (
                    ExtractorWorkerView {
                        buffer: worker.buffer.push(finished(scanned, None)),
                        ..worker
                    },
                    Seq::empty(),
                )
            } else {
                match format_of_document(scanned.document) {
                    FormatType::Unknown => (worker, Seq::empty()),
                    FormatType::Archive(Archive::Zip) => (
                        worker,
                        seq![WorkerActionView::ListArchive { scanned }],
                    ),
                    format => (worker, seq![WorkerActionView::Extract { format, scanned }]),
                }
            }
        },
        WorkerEventView::Received(_) => (worker, Seq::empty()),
        WorkerEventView::Extracted { scanned, content } => match content {
            Some(text) => (
                ExtractorWorkerView {
                    buffer: worker.buffer.push(finished(scanned, Some(text))),
                    ..worker
                },
                Seq::empty(),
            ),
            None => (worker, Seq::empty()),
        },
        WorkerEventView::ArchiveListed { scanned, entries } => match entries {
            Some(names) => (
                worker,
                seq![
                    WorkerActionView::SaveArchive {
                        archive: archive_container(scanned.document),
                        documents: archive_documents(
                            worker.scanner.filters,
                            worker.scanner.filters_mode,
                            names,
                        ),
                    },
                ],
            ),
            None => (worker, Seq::empty()),
        },
        WorkerEventView::ArchiveSaved { saved, documents } => match saved {
            Some(archive) => (worker, reinjected(archive.id, documents)),
            None => (worker, Seq::empty()),
        },
        WorkerEventView::Timeout => (worker, Seq::empty()),
        WorkerEventView::Disconnected => (worker, Seq::empty()),
    }
}

/// One step of the worker: what it does about the event, and then about
/// its buffer. When the queue is closed the worker drains what the buffer
/// holds and stops. Otherwise it flushes the buffer where a flush is due,
/// and notes the time.
pub open spec fn step_of(worker: ExtractorWorkerView, event: WorkerEventView, now_ms: u64) -> (
    ExtractorWorkerView,
    Seq<WorkerActionView>,
) {
    let (reacted, actions) = reaction(worker, event);
    if event is Disconnected {
        if reacted.buffer.len() > 0 {
            (
                ExtractorWorkerView { buffer: Seq::empty(), ..reacted },
                actions.push(bulk_save(reacted.buffer)).push(
                    WorkerActionView::Stop,
                ),
            )
        } else {
            (reacted, actions.push(WorkerActionView::Stop))
        }
    } else if flush_due(reacted, now_ms) {
        (
            ExtractorWorkerView { buffer: Seq::empty(), last_flush_ms: now_ms, ..reacted },
            actions.push(bulk_save(reacted.buffer)),
        )
    } else {
        (reacted, actions)
    }
}

/// Every entry of a saved archive goes back on the queue as an entry of
/// an archive that carries the id of that archive; the worker that gets
/// it buffers it as it is; and the row that is saved for it names that
/// archive as its container, whatever the cache holds.
pub proof fn lemma_archive_entries_are_filed(
    worker: ExtractorWorkerView,
    names: Seq<Option<Seq<char>>>,
    archive_id: i64,
    cache: Map<Seq<char>, ContainerView>,
)
    ensures
        ({
            let documents = archive_documents(
                worker.scanner.filters,
                worker.scanner.filters_mode,
                names,
            );
            let actions = reinjected(archive_id, documents);
            &&& actions.len() == documents.len()
            &&& forall|i: int|
                0 <= i < actions.len() ==> {
                    let entry = filed(documents[i], archive_id);
                    &&& #[trigger] actions[i] == WorkerActionView::Inject(
                        ExtractorCommandView::ProcessDocument(entry),
                    )
                    &&& entry.container_type == ContainerType::Archive
                    &&& reaction(
                        worker,
                        WorkerEventView::Received(ExtractorCommandView::ProcessDocument(entry)),
                    ) == (
                        ExtractorWorkerView {
                            buffer: worker.buffer.push(finished(entry, None)),
                            ..worker
                        },
                        Seq::<WorkerActionView>::empty(),
                    )
                    &&& row_of(finished(entry, None).document, cache) is Some
                    &&& row_of(finished(entry, None).document, cache)->0.container_id
                        == archive_id
                }
        }),
{
    crate::engine::extractor::formats::archive::zip::lemma_archive_documents_marked(
        worker.scanner.filters,
        worker.scanner.filters_mode,
        names,
    );
}

/// An archive without entries is saved, and nothing goes back on the
/// queue for it.
pub proof fn lemma_empty_archive(worker: ExtractorWorkerView, scanned: ScannedDocumentView, archive_id: i64)
    ensures
        reaction(
            worker,
            WorkerEventView::ArchiveListed { scanned, entries: Some(Seq::empty()) },
        ) == (
            worker,
            seq![
                WorkerActionView::SaveArchive {
                    archive: archive_container(scanned.document),
                    documents: Seq::empty(),
                },
            ],
        ),
        reinjected(archive_id, Seq::empty()) == Seq::<WorkerActionView>::empty(),
{
    assert(reinjected(archive_id, Seq::empty()) =~= Seq::<WorkerActionView>::empty());
}

/// The pipeline only moves a document forward: a document that the
/// scanner made is past `New`, and a document that the worker buffers is
/// marked `Extracted`, which no document short of classification is
/// beyond.
pub proof fn lemma_status_moves_forward(
    path: Seq<char>,
    scanned: ScannedDocumentView,
    content: Option<Seq<char>>,
)
    ensures
        status_rank(DocumentStatus::New) < status_rank(scanned_document(path).document.status),
        status_rank(scanned_document(path).document.status) < status_rank(
            finished(scanned_document(path), content).document.status,
        ),
        status_rank(scanned.document.status) <= status_rank(DocumentStatus::Extracted)
            ==> status_rank(scanned.document.status) <= status_rank(
            finished(scanned, content).document.status,
        ),
{
}

/// The only requests that a step sends to the storage worker are bulk
/// saves.
pub proof fn lemma_step_stores_bulk_saves(
    worker: ExtractorWorkerView,
    event: WorkerEventView,
    now_ms: u64,
)
    ensures
        forall|i: int|
            0 <= i < step_of(worker, event, now_ms).1.len() && (#[trigger] step_of(
                worker,
                event,
                now_ms,
            ).1[i]) is Store ==> step_of(worker, event, now_ms).1[i]->Store_0
                is SaveBulkDocuments,
{
    let (reacted, actions) = reaction(worker, event);
    assert forall|i: int| 0 <= i < actions.len() implies !((#[trigger] actions[i]) is Store) by {}
}

/// The worker after a run of events, each with the time at which it came,
/// and what the steps of the run asked for, in order.
pub open spec fn run_of(worker: ExtractorWorkerView, events: Seq<(WorkerEventView, u64)>) -> (
    ExtractorWorkerView,
    Seq<WorkerActionView>,
)
    decreases events.len(),
{
    if events.len() == 0 {
        (worker, Seq::empty())
    } else {
        let (before, actions) = run_of(worker, events.drop_last());
        let (after, more) = step_of(before, events.last().0, events.last().1);
        (after, actions + more)
    }
}

/// The documents that an action sends to the storage worker.
pub open spec fn sent_by(action: WorkerActionView) -> Seq<ScannedDocumentView> {
    match action {
        WorkerActionView::Store(StorageCommandView::SaveBulkDocuments { documents }) => documents,
        _ => Seq::empty(),
    }
}

/// The documents that a list of actions sends to the storage worker, in
/// the order in which they are sent.
pub open spec fn sent(actions: Seq<WorkerActionView>) -> Seq<ScannedDocumentView>
    decreases actions.len(),
{
    if actions.len() == 0 {
        Seq::empty()
    } else {
        sent(actions.drop_last()) + sent_by(actions.last())
    }
}

/// How many bulk saves a list of actions holds.
pub open spec fn bulk_saves(actions: Seq<WorkerActionView>) -> nat
    decreases actions.len(),
{
    if actions.len() == 0 {
        0
    } else if actions.last() is Store {
        bulk_saves(actions.drop_last()) + 1
    } else {
        bulk_saves(actions.drop_last())
    }
}

/// The documents that an event puts into the buffer: an entry of an
/// archive that comes in, or a document whose text was extracted.
pub open spec fn kept(event: WorkerEventView) -> Seq<ScannedDocumentView> {
    match event {
        WorkerEventView::Received(ExtractorCommandView::ProcessDocument(scanned)) => {
            if scanned.container_type == ContainerType::Archive {
                seq![finished(scanned, None)]
            } else {
                Seq::empty()
            }
        },
        WorkerEventView::Extracted { scanned, content } => match content {
            Some(text) => seq![finished(scanned, Some(text))],
            None => Seq::empty(),
        },
        _ => Seq::empty(),
    }
}

/// The documents that the events of a run put into the buffer, in order.
pub open spec fn kept_in(events: Seq<(WorkerEventView, u64)>) -> Seq<ScannedDocumentView>
    decreases events.len(),
{
    if events.len() == 0 {
        Seq::empty()
    } else {
        kept_in(events.drop_last()) + kept(events.last().0)
    }
}

/// Every bulk save among the actions holds at least one document and at
/// most `limit`.
pub open spec fn bulk_saves_within(actions: Seq<WorkerActionView>, limit: usize) -> bool {
    forall|i: int|
        0 <= i < actions.len() && (#[trigger] actions[i]) is Store ==> 1 <= sent_by(
            actions[i],
        ).len() <= limit
}

/// Actions that hold no request to the storage worker send nothing.
pub proof fn lemma_nothing_sent(actions: Seq<WorkerActionView>)
    requires
        forall|i: int| 0 <= i < actions.len() ==> !((#[trigger] actions[i]) is Store),
    ensures
        sent(actions) == Seq::<ScannedDocumentView>::empty(),
        bulk_saves(actions) == 0,
    decreases actions.len(),
{
    if actions.len() > 0 {
        let front = actions.drop_last();
        assert forall|i: int| 0 <= i < front.len() implies !((#[trigger] front[i]) is Store) by {
            assert(front[i] == actions[i]);
        }
        lemma_nothing_sent(front);
        assert(!(actions[actions.len() - 1] is Store));
        assert(sent(actions) =~= Seq::<ScannedDocumentView>::empty());
    }
}

/// What two lists of actions send one after the other is what the first
/// sends followed by what the second sends.
pub proof fn lemma_sent_in_turn(first: Seq<WorkerActionView>, second: Seq<WorkerActionView>)
    ensures
        sent(first + second) == sent(first) + sent(second),
        bulk_saves(first + second) == bulk_saves(first) + bulk_saves(second),
    decreases second.len(),
{
    if second.len() == 0 {
        assert(first + second =~= first);
        assert(sent(first) + sent(second) =~= sent(first));
    } else {
        lemma_sent_in_turn(first, second.drop_last());
        assert((first + second).drop_last() =~= first + second.drop_last());
        assert((first + second).last() == second.last());
        assert(sent(first + second) =~= sent(first) + sent(second));
    }
}

/// What a worker does about an event puts the documents of that event
/// behind those in the buffer, changes nothing else, and sends nothing.
pub proof fn lemma_reaction_keeps(worker: ExtractorWorkerView, event: WorkerEventView)
    ensures
        reaction(worker, event).0 == (ExtractorWorkerView {
            buffer: worker.buffer + kept(event),
            ..worker
        }),
        sent(reaction(worker, event).1) == Seq::<ScannedDocumentView>::empty(),
        bulk_saves(reaction(worker, event).1) == 0,
{
    let (reacted, actions) = reaction(worker, event);
    assert forall|i: int| 0 <= i < actions.len() implies !((#[trigger] actions[i]) is Store) by {}
    lemma_nothing_sent(actions);
    assert(reacted.buffer =~= worker.buffer + kept(event));
}

/// One step loses no document and sends none twice: what it sends,
/// followed by what is left in the buffer, is what was in the buffer
/// followed by what the event brought. The settings and the filters stay.
pub proof fn lemma_step_conserves(worker: ExtractorWorkerView, event: WorkerEventView, now_ms: u64)
    ensures
        sent(step_of(worker, event, now_ms).1) + step_of(worker, event, now_ms).0.buffer
            == worker.buffer + kept(event),
        step_of(worker, event, now_ms).0.config == worker.config,
        step_of(worker, event, now_ms).0.scanner == worker.scanner,
        step_of(worker, event, now_ms).0.id == worker.id,
        event is Disconnected ==> step_of(worker, event, now_ms).0.buffer.len() == 0,
{
    let (reacted, actions) = reaction(worker, event);
    let (after, all) = step_of(worker, event, now_ms);
    lemma_reaction_keeps(worker, event);
    let flush = seq![bulk_save(reacted.buffer)];
    assert(sent(flush.drop_last()) =~= Seq::<ScannedDocumentView>::empty());
    assert(sent(flush) =~= reacted.buffer);
    let stop = seq![WorkerActionView::Stop];
    assert(sent(stop.drop_last()) =~= Seq::<ScannedDocumentView>::empty());
    assert(sent(stop) =~= Seq::<ScannedDocumentView>::empty());
    if event is Disconnected {
        if reacted.buffer.len() > 0 {
            assert(all =~= actions + flush + stop);
            lemma_sent_in_turn(actions, flush);
            lemma_sent_in_turn(actions + flush, stop);
            assert(sent(all) =~= reacted.buffer);
            assert(sent(all) + after.buffer =~= worker.buffer + kept(event));
        } else {
            assert(all =~= actions + stop);
            lemma_sent_in_turn(actions, stop);
            assert(sent(all) + after.buffer =~= worker.buffer + kept(event));
        }
    } else if flush_due(reacted, now_ms) {
        assert(all =~= actions + flush);
        lemma_sent_in_turn(actions, flush);
        assert(sent(all) + after.buffer =~= worker.buffer + kept(event));
    } else {
        assert(sent(all) + after.buffer =~= worker.buffer + kept(event));
    }
}

/// A run loses no document and sends none twice: what it sends, followed
/// by what is left in the buffer, is what was in the buffer at the start
/// followed by what the events brought, in the order in which they came.
/// Once the queue is closed, nothing is left in the buffer, so that every
/// document has been sent, and sent once.
pub proof fn lemma_run_conserves(worker: ExtractorWorkerView, events: Seq<(WorkerEventView, u64)>)
    ensures
        sent(run_of(worker, events).1) + run_of(worker, events).0.buffer == worker.buffer
            + kept_in(events),
        run_of(worker, events).0.config == worker.config,
        events.len() > 0 && events.last().0 is Disconnected ==> sent(run_of(worker, events).1)
            == worker.buffer + kept_in(events),
    decreases events.len(),
{
    if events.len() == 0 {
        assert(sent(run_of(worker, events).1) + run_of(worker, events).0.buffer
            =~= worker.buffer + kept_in(events));
    } else {
        let (before, actions) = run_of(worker, events.drop_last());
        let (after, more) = step_of(before, events.last().0, events.last().1);
        lemma_run_conserves(worker, events.drop_last());
        lemma_step_conserves(before, events.last().0, events.last().1);
        lemma_sent_in_turn(actions, more);
        let earlier = kept_in(events.drop_last());
        let brought = kept(events.last().0);
        assert(sent(actions + more) + after.buffer =~= sent(actions) + (sent(more)
            + after.buffer));
        assert(sent(actions) + (before.buffer + brought) =~= (sent(actions) + before.buffer)
            + brought);
        assert((worker.buffer + earlier) + brought =~= worker.buffer + (earlier + brought));
        if events.last().0 is Disconnected {
            assert(sent(actions + more) + after.buffer =~= sent(actions + more));
        }
    }
}

/// With a batch size of at least one and a buffer below it, a step sends
/// only bulk saves of one document up to the batch size, and leaves the
/// buffer below the batch size.
pub proof fn lemma_step_within_batch(worker: ExtractorWorkerView, event: WorkerEventView, now_ms: u64)
    requires
        worker.buffer.len() < worker.config.insert_batch_size,
    ensures
        step_of(worker, event, now_ms).0.buffer.len() < worker.config.insert_batch_size,
        bulk_saves_within(step_of(worker, event, now_ms).1, worker.config.insert_batch_size),
        sent(step_of(worker, event, now_ms).1).len() <= worker.config.insert_batch_size
            * bulk_saves(step_of(worker, event, now_ms).1),
{
    let limit = worker.config.insert_batch_size;
    let (reacted, actions) = reaction(worker, event);
    let (after, all) = step_of(worker, event, now_ms);
    lemma_reaction_keeps(worker, event);
    assert(kept(event).len() <= 1);
    assert(reacted.buffer.len() <= limit);
    assert forall|i: int| 0 <= i < actions.len() implies !((#[trigger] actions[i]) is Store) by {}
    let flush = seq![bulk_save(reacted.buffer)];
    assert(sent(flush.drop_last()) =~= Seq::<ScannedDocumentView>::empty());
    assert(sent(flush) =~= reacted.buffer);
    assert(bulk_saves(flush.drop_last()) == 0);
    assert(bulk_saves(flush) == 1);
    let stop = seq![WorkerActionView::Stop];
    assert(sent(stop.drop_last()) =~= Seq::<ScannedDocumentView>::empty());
    assert(sent(stop) =~= Seq::<ScannedDocumentView>::empty());
    assert(bulk_saves(stop.drop_last()) == 0);
    assert(bulk_saves(stop) == 0);
    if event is Disconnected {
        if reacted.buffer.len() > 0 {
            assert(all =~= actions + flush + stop);
            lemma_sent_in_turn(actions, flush);
            lemma_sent_in_turn(actions + flush, stop);
            assert(sent(all) =~= reacted.buffer);
            assert(bulk_saves(all) == 1);
            assert(limit * 1 == limit) by (nonlinear_arith);
        } else {
            assert(all =~= actions + stop);
            lemma_sent_in_turn(actions, stop);
            assert(limit * 0 == 0) by (nonlinear_arith);
        }
    } else if flush_due(reacted, now_ms) {
        assert(all =~= actions + flush);
        lemma_sent_in_turn(actions, flush);
        assert(sent(all) =~= reacted.buffer);
        assert(bulk_saves(all) == 1);
        assert(limit * 1 == limit) by (nonlinear_arith);
    } else {
        assert(limit * 0 == 0) by (nonlinear_arith);
    }
    assert forall|i: int| 0 <= i < all.len() && (#[trigger] all[i]) is Store implies 1
        <= sent_by(all[i]).len() <= limit by {
        if i < actions.len() {
            assert(all[i] == actions[i]);
        }
    }
}

/// With a batch size of at least one and a buffer below it at the start,
/// every bulk save of a run holds at least one document and at most the
/// batch size, and the buffer stays below the batch size. So a run sends
/// at most the batch size times the number of its bulk saves: `k`
/// documents take at least `k` divided by the batch size, rounded up, bulk
/// saves to reach the storage worker.
pub proof fn lemma_run_within_batch(worker: ExtractorWorkerView, events: Seq<(WorkerEventView, u64)>)
    requires
        worker.buffer.len() < worker.config.insert_batch_size,
    ensures
        run_of(worker, events).0.buffer.len() < worker.config.insert_batch_size,
        bulk_saves_within(run_of(worker, events).1, worker.config.insert_batch_size),
        sent(run_of(worker, events).1).len() <= worker.config.insert_batch_size * bulk_saves(
            run_of(worker, events).1,
        ),
    decreases events.len(),
{
    let limit = worker.config.insert_batch_size;
    if events.len() == 0 {
        assert(limit * 0 == 0) by (nonlinear_arith);
    } else {
        let (before, actions) = run_of(worker, events.drop_last());
        let (after, more) = step_of(before, events.last().0, events.last().1);
        lemma_run_within_batch(worker, events.drop_last());
        lemma_run_conserves(worker, events.drop_last());
        lemma_step_within_batch(before, events.last().0, events.last().1);
        lemma_sent_in_turn(actions, more);
        let all = actions + more;
        assert forall|i: int| 0 <= i < all.len() && (#[trigger] all[i]) is Store implies 1
            <= sent_by(all[i]).len() <= limit by {
            if i < actions.len() {
                assert(all[i] == actions[i]);
            } else {
                assert(all[i] == more[i - actions.len()]);
            }
        }
        let a = bulk_saves(actions);
        let b = bulk_saves(more);
        assert(limit * (a + b) == limit * a + limit * b) by (nonlinear_arith);
    }
}

/// One worker of the extractor pool.
#[derive(Debug)]
pub struct ExtractorWorker {
    id: usize,
    scanner: Scanner,
    config: ExtractorConfig,
    buffer: Vec<ScannedDocument>,
    last_flush_ms: u64,
}

impl View for ExtractorWorker {
    type V = ExtractorWorkerView;

    closed spec fn view(&self) -> ExtractorWorkerView {
        ExtractorWorkerView {
            id: self.id,
            scanner: self.scanner@,
            config: self.config,
            buffer: documents_view(self.buffer@),
            last_flush_ms: self.last_flush_ms,
        }
    }
}

impl crate::engine::EngineTaskWorker for ExtractorWorker {
    open spec fn worker_id(&self) -> usize {
        self@.id
    }

    fn get_id(&self) -> (id: usize) {
        self.id
    }
}

impl ExtractorWorker {
    /// A worker with an empty buffer, whose last flush counts as `now_ms`.
    pub fn new(id: usize, scanner: Scanner, config: ExtractorConfig, now_ms: u64) -> (worker: Self)
        ensures
            worker@ == fresh_worker(id, scanner@, config, now_ms),
    {
        let worker = ExtractorWorker {
            id,
            scanner,
            config,
            buffer: Vec::new(),
            last_flush_ms: now_ms,
        };
        assert(worker@.buffer =~= Seq::<ScannedDocumentView>::empty());
        worker
    }

    /// How many documents wait in the buffer.
    pub fn buffered(&self) -> (n: usize)
        ensures
            n == self@.buffer.len(),
    {
        self.buffer.len()
    }

    /// Puts a document into the buffer, marked as extracted, and with the
    /// keyword summary where there is one.
    fn keep(&mut self, scanned: ScannedDocument, content: Option<String>)
        ensures
            final(self)@ == (ExtractorWorkerView {
                buffer: old(self)@.buffer.push(finished(scanned@, crate::text::opt_view(content))),
                ..old(self)@
            }),
    {
        let mut scanned = scanned;
        match content {
            Some(text) => {
                scanned.document.set_content(text);
            },
            None => {},
        }
        scanned.document.set_status(DocumentStatus::Extracted);
        let ghost before = self@.buffer;
        self.buffer.push(scanned);
        assert(self@.buffer =~= before.push(scanned@));
    }

    /// What the worker does about a command that came in. An entry of an
    /// archive is buffered as it is. Any other document is sent to the
    /// extractor of its format; one of an unknown format is dropped. A
    /// command of another kind is ignored.
    pub fn accept(&mut self, command: ExtractorCommand) -> (action: Option<WorkerAction>)
        ensures
            final(self)@ == reaction(old(self)@, WorkerEventView::Received(command@)).0,
            match action {
                Some(a) => seq![action_view(a)] == reaction(
                    old(self)@,
                    WorkerEventView::Received(command@),
                ).1,
                None => reaction(old(self)@, WorkerEventView::Received(command@)).1.len() == 0,
            },
    {
        match command {
            ExtractorCommand::ProcessDocument(scanned) => {
                match scanned.container_type {
                    ContainerType::Archive => {
                        self.keep(scanned, None);
                        None
                    },
                    ContainerType::Folder => {
                        match scanned.document.get_format_type() {
                            FormatType::Unknown => None,
                            FormatType::Archive(Archive::Zip) => Some(
                                WorkerAction::ListArchive { scanned },
                            ),
                            FormatType::Pdf => Some(
                                WorkerAction::Extract { format: FormatType::Pdf, scanned },
                            ),
                            FormatType::Docx => Some(
                                WorkerAction::Extract { format: FormatType::Docx, scanned },
                            ),
                            FormatType::Text => Some(
                                WorkerAction::Extract { format: FormatType::Text, scanned },
                            ),
                        }
                    },
                }
            },
            ExtractorCommand::ProcessCompressedDocuments { container, documents } => None,
        }
    }

    /// Takes what an extractor made of a document: with a keyword summary
    /// the document is buffered, without one it is dropped.
    pub fn complete_extraction(&mut self, scanned: ScannedDocument, content: Option<String>)
        ensures
            final(self)@ == reaction(
                old(self)@,
                WorkerEventView::Extracted {
                    scanned: scanned@,
                    content: crate::text::opt_view(content),
                },
            ).0,
    {
        match content {
            Some(text) => {
                self.keep(scanned, Some(text));
            },
            None => {},
        }
    }

    /// The request to save an archive whose entries were listed, together
    /// with the documents of the entries that pass the filters.
    pub fn expand_archive(&self, scanned: &ScannedDocument, entries: &Vec<ArchiveEntry>) -> (action:
        WorkerAction)
        ensures
            action_view(action) == (WorkerActionView::SaveArchive {
                archive: archive_container(scanned@.document),
                documents: archive_documents(
                    self@.scanner.filters,
                    self@.scanner.filters_mode,
                    names_view(entries@),
                ),
            }),
    {
        let extractor = ZipExtractor::new(self.scanner.clone());
        match extractor.extract(&scanned.document, entries) {
            DataExtracted::ArchiveDocuments { archive, documents } => WorkerAction::SaveArchive {
                archive,
                documents,
            },
            DataExtracted::Text(_) => {
                proof {
                    assert(false);
                }
                WorkerAction::Stop
            },
        }
    }

    /// The commands that put the entries of a saved archive back on the
    /// queue, each entry with the id of the archive as its container.
    pub fn reinject(archive: &Container, documents: Vec<ScannedDocument>) -> (actions: Vec<
        WorkerAction,
    >)
        ensures
            actions_view(actions@) == reinjected(archive@.id, documents_view(documents@)),
    {
        let mut actions: Vec<WorkerAction> = Vec::new();
        let mut documents = documents;
        let ghost all = documents_view(documents@);
        let total = documents.len();
        let mut done: usize = 0;
        // The entries are taken from the back, so the actions are built
        // back to front and turned round at the end.
        let mut reversed: Vec<WorkerAction> = Vec::new();
        while documents.len() > 0
            invariant
                documents.len() + done == total,
                total == all.len(),
                reversed.len() == done,
                documents_view(documents@) == all.take(documents.len() as int),
                forall|k: int|
                    0 <= k < done ==> action_view(#[trigger] reversed[k]) == reinjected(
                        archive@.id,
                        all,
                    )[total - 1 - k],
            decreases documents.len(),
        {
            let ghost remaining = documents_view(documents@);
            let scanned = documents.pop().unwrap();
            assert(scanned@ == remaining[remaining.len() - 1]);
            assert(documents_view(documents@) =~= all.take(documents.len() as int));
            let mut scanned = scanned;
            scanned.document.set_container_id(archive.get_id());
            reversed.push(WorkerAction::Inject(ExtractorCommand::ProcessDocument(scanned)));
            done = done + 1;
        }
        while reversed.len() > 0
            invariant
                reversed.len() <= total,
                total == all.len(),
                actions.len() + reversed.len() == total,
                forall|k: int|
                    0 <= k < reversed.len() ==> action_view(#[trigger] reversed[k])
                        == reinjected(archive@.id, all)[total - 1 - k],
                forall|k: int|
                    0 <= k < actions.len() ==> action_view(#[trigger] actions[k]) == reinjected(
                        archive@.id,
                        all,
                    )[k],
            decreases reversed.len(),
        {
            let action = reversed.pop().unwrap();
            actions.push(action);
        }
        assert(actions_view(actions@) =~= reinjected(archive@.id, all));
        actions
    }

    /// Whether the buffer is to be flushed at the time `now_ms`.
    pub fn flush_is_due(&self, now_ms: u64) -> (due: bool)
        ensures
            due == flush_due(self@, now_ms),
    {
        if self.buffer.len() >= self.config.insert_batch_size {
            return true;
        }
        if self.buffer.len() == 0 {
            return false;
        }
        now_ms >= self.last_flush_ms && now_ms - self.last_flush_ms > self.config.flush_interval_ms
    }

    /// Empties the buffer into one bulk save, in the order in which the
    /// documents came in, and notes `now_ms` as the time of the flush.
    pub fn flush_buffer(&mut self, now_ms: u64) -> (command: StorageCommand)
        ensures
            command matches StorageCommand::SaveBulkDocuments { documents } && documents_view(
                documents@,
            ) == old(self)@.buffer,
            final(self)@ == (ExtractorWorkerView {
                buffer: Seq::empty(),
                last_flush_ms: now_ms,
                ..old(self)@
            }),
    {
        let mut documents: Vec<ScannedDocument> = Vec::new();
        std::mem::swap(&mut self.buffer, &mut documents);
        self.last_flush_ms = now_ms;
        assert(self@.buffer =~= Seq::<ScannedDocumentView>::empty());
        StorageCommand::SaveBulkDocuments { documents }
    }

    /// One step of the worker: takes an event and the time, and says what
    /// is to be done, in order. The only requests it sends to the storage
    /// worker are bulk saves.
    pub fn step(&mut self, event: WorkerEvent, now_ms: u64) -> (actions: Vec<WorkerAction>)
        ensures
            (final(self)@, actions_view(actions@)) == step_of(old(self)@, event@, now_ms),
            forall|i: int|
                0 <= i < actions.len() && (#[trigger] actions[i]) is Store
                    ==> actions[i]->Store_0 is SaveBulkDocuments,
    {
        let mut actions: Vec<WorkerAction> = Vec::new();
        let ghost start = self@;
        let ghost event_view = event@;
        let mut closed = false;
        assert(actions_view(actions@) =~= Seq::<WorkerActionView>::empty());
        match event {
            WorkerEvent::Received(command) => {
                match self.accept(command) {
                    Some(action) => {
                        actions.push(action);
                        assert(actions_view(actions@) =~= seq![action_view(action)]);
                    },
                    None => {},
                }
            },
            WorkerEvent::Extracted { scanned, content } => {
                self.complete_extraction(scanned, content);
            },
            WorkerEvent::ArchiveListed { scanned, entries } => {
                match entries {
                    Some(names) => {
                        let action = self.expand_archive(&scanned, &names);
                        actions.push(action);
                        assert(actions_view(actions@) =~= seq![action_view(action)]);
                    },
                    None => {},
                }
            },
            WorkerEvent::ArchiveSaved { saved, documents } => {
                match saved {
                    Some(archive) => {
                        actions = ExtractorWorker::reinject(&archive, documents);
                    },
                    None => {},
                }
            },
            WorkerEvent::Timeout => {},
            WorkerEvent::Disconnected => {
                closed = true;
            },
        }
        assert(actions_view(actions@) =~= reaction(start, event_view).1);
        assert(self@ == reaction(start, event_view).0);
        let ghost reacted = self@;
        let ghost before = actions_view(actions@);
        if closed {
            if self.buffer.len() > 0 {
                let last = self.last_flush_ms;
                let command = self.flush_buffer(last);
                let store = WorkerAction::Store(command);
                actions.push(store);
                assert(action_view(store) == bulk_save(reacted.buffer));
            }
            actions.push(WorkerAction::Stop);
            assert(actions_view(actions@) =~= step_of(start, event_view, now_ms).1);
        } else if self.flush_is_due(now_ms) {
            let command = self.flush_buffer(now_ms);
            let store = WorkerAction::Store(command);
            actions.push(store);
            assert(action_view(store) == bulk_save(reacted.buffer));
            assert(actions_view(actions@) =~= before.push(
                bulk_save(reacted.buffer),
            ));
        }
        proof {
            lemma_step_stores_bulk_saves(start, event_view, now_ms);
            assert forall|i: int| 0 <= i < actions.len() && (#[trigger] actions[i])
                is Store implies actions[i]->Store_0 is SaveBulkDocuments by {
                assert(actions_view(actions@)[i] == action_view(actions[i]));
            }
        }
        actions
    }
}

} // verus!
