use crate::chunker::chunks_of_text;
use crate::ids::fresh_id;
use crate::pdf::{token_estimate, ExtractionError, PdfService, CHUNK_OVERLAP, CHUNK_WORDS};
use crate::status::ProcessingStatus;
use crate::text::string_views;
use vstd::prelude::*;

verus! {

/// Seconds after which a call to a collaborator is given up. A call that
/// runs out of time is reported to the run as failed, like any other failure.
pub const CALL_TIMEOUT_SECONDS: u64 = 30;

/// Why a run was given up.
#[derive(Clone, Copy, Debug, PartialEq, Eq, Structural)]
pub enum IngestError {
    /// The document row is not in the record store.
    DocumentNotFound,
    /// The stored status allows no transition to the status that the run
    /// was about to save.
    TransitionRefused,
    /// The record store failed.
    Store,
    /// The embedding service failed, or did not answer with one vector per
    /// chunk; no vector of the batch is used.
    Embedding,
    /// The vector index refused the points.
    IndexWrite,
    /// An outcome was reported that the run was not waiting for.
    Unexpected,
}

/// What a run is waiting for.
#[derive(Clone, Copy, Debug, PartialEq, Eq, Structural)]
pub enum IngestStage {
    /// The document row is being fetched, to take the extracted text.
    LoadingDocument,
    /// Text, page count and the status `processing` are being saved.
    SavingExtraction,
    /// The chunks are with the embedding service.
    Embedding,
    /// The row of the next chunk is being inserted.
    StoringChunk,
    /// The points are being written to the vector index.
    Indexing,
    /// The document row is being fetched, to mark it completed.
    LoadingForCompletion,
    /// The status `completed` is being saved.
    SavingCompletion,
    /// The run is over: every chunk is stored and indexed.
    Completed,
    /// The run was given up.
    Aborted(IngestError),
}

/// What the outside world reports back to a run.
#[derive(Clone, Copy, Debug, PartialEq, Eq, Structural)]
pub enum IngestEvent {
    /// The document row was fetched; it holds this status.
    DocumentFound { status: ProcessingStatus },
    /// The record store holds no such document.
    DocumentMissing,
    /// The document row was updated.
    Saved,
    /// The embedding service answered with this many vectors, in the order
    /// of the chunks.
    Embedded { vectors: usize },
    /// The pending chunk row was inserted.
    ChunkStored,
    /// The vector index took the points.
    Indexed,
    /// The collaborator that the run was waiting for failed.
    Failed,
}

/// What a run asks the outside world to do next.
#[derive(Clone, Copy, Debug, PartialEq, Eq, Structural)]
pub enum IngestAction {
    /// Fetch the document row by its identifier.
    LoadDocument,
    /// Save text and page count of the job, with the status `processing`.
    SaveExtraction,
    /// Embed the chunks of the job, all in one batch.
    Embed,
    /// Insert the pending chunk row.
    StoreChunk,
    /// Write the points of the job to the vector index, in one call.
    Upsert,
    /// Save the status `completed`.
    SaveCompleted,
    /// Nothing is left to do.
    Finish,
    /// Report the error; the status stays where it stands.
    Abort(IngestError),
}

/// A chunk on its way to the vector index. Its vector is the one that the
/// embedding service returned at position `chunk_index`.
#[derive(Debug)]
pub struct IndexPoint {
    pub chunk_id: u128,
    pub chunk_index: usize,
    pub content: String,
}

/// A chunk row as the record store takes it.
#[derive(Debug)]
pub struct ChunkRow {
    pub id: u128,
    pub document_id: u128,
    pub chunk_index: usize,
    pub content: String,
    pub token_count: i32,
}

/// The error that a failing collaborator means at each stage.
pub open spec fn failure_at(stage: IngestStage) -> IngestError {
    match stage {
        IngestStage::Embedding => IngestError::Embedding,
        IngestStage::Indexing => IngestError::IndexWrite,
        _ => IngestError::Store,
    }
}

/// The stage that follows `stage` on `event`, for a job with `chunks`
/// chunks of which `stored` have their row.
///
/// A document is taken up only while its stored status allows the move to
/// `processing`, and marked completed only while it allows the move to
/// `completed`. The chunks go on only with one vector each.
pub open spec fn next_stage(
    stage: IngestStage,
    event: IngestEvent,
    chunks: int,
    stored: int,
) -> IngestStage {
    match stage {
        IngestStage::Completed => stage,
        IngestStage::Aborted(_) => stage,
        _ => match (stage, event) {
            (_, IngestEvent::Failed) => IngestStage::Aborted(failure_at(stage)),
            (IngestStage::LoadingDocument, IngestEvent::DocumentFound { status }) => if status.allows(
                ProcessingStatus::Processing,
            ) {
                IngestStage::SavingExtraction
            } else {
                IngestStage::Aborted(IngestError::TransitionRefused)
            },
            (IngestStage::LoadingDocument, IngestEvent::DocumentMissing) => IngestStage::Aborted(
                IngestError::DocumentNotFound,
            ),
            (IngestStage::SavingExtraction, IngestEvent::Saved) => IngestStage::Embedding,
            (IngestStage::Embedding, IngestEvent::Embedded { vectors }) => if vectors != chunks {
                IngestStage::Aborted(IngestError::Embedding)
            } else if chunks == 0 {
                IngestStage::Indexing
            } else {
                IngestStage::StoringChunk
            },
            (IngestStage::StoringChunk, IngestEvent::ChunkStored) => if stored + 1 < chunks {
                IngestStage::StoringChunk
            } else {
                IngestStage::Indexing
            },
            (IngestStage::Indexing, IngestEvent::Indexed) => IngestStage::LoadingForCompletion,
            (
                IngestStage::LoadingForCompletion,
                IngestEvent::DocumentFound { status },
            ) => if status.allows(ProcessingStatus::Completed) {
                IngestStage::SavingCompletion
            } else {
                IngestStage::Aborted(IngestError::TransitionRefused)
            },
            (
                IngestStage::LoadingForCompletion,
                IngestEvent::DocumentMissing,
            ) => IngestStage::Aborted(IngestError::DocumentNotFound),
            (IngestStage::SavingCompletion, IngestEvent::Saved) => IngestStage::Completed,
            _ => IngestStage::Aborted(IngestError::Unexpected),
        },
    }
}

/// What a run that has reached `stage` asks for.
pub open spec fn action_for(stage: IngestStage) -> IngestAction {
    match stage {
        IngestStage::LoadingDocument => IngestAction::LoadDocument,
        IngestStage::SavingExtraction => IngestAction::SaveExtraction,
        IngestStage::Embedding => IngestAction::Embed,
        IngestStage::StoringChunk => IngestAction::StoreChunk,
        IngestStage::Indexing => IngestAction::Upsert,
        IngestStage::LoadingForCompletion => IngestAction::LoadDocument,
        IngestStage::SavingCompletion => IngestAction::SaveCompleted,
        IngestStage::Completed => IngestAction::Finish,
        IngestStage::Aborted(e) => IngestAction::Abort(e),
    }
}

/// The status of the document as the run knows it once it has moved from
/// `from` to `to` on `event`: what the first fetch of the row shows, and
/// after that what the two saves write. Nothing else changes it.
pub open spec fn status_after(
    before: Option<ProcessingStatus>,
    from: IngestStage,
    event: IngestEvent,
    to: IngestStage,
) -> Option<ProcessingStatus> {
    if from == IngestStage::LoadingDocument && event is DocumentFound {
        Some(event->status)
    } else if from == IngestStage::SavingExtraction && to == IngestStage::Embedding {
        Some(ProcessingStatus::Processing)
    } else if from == IngestStage::SavingCompletion && to == IngestStage::Completed {
        Some(ProcessingStatus::Completed)
    } else {
        before
    }
}

/// A stored chunk as a mathematical value.
pub struct PointState {
    pub chunk_id: u128,
    pub chunk_index: nat,
    pub content: Seq<char>,
}

/// A job as a mathematical value.
pub struct JobState {
    pub document_id: u128,
    pub stage: IngestStage,
    /// Status of the document in the record store as the run knows it:
    /// nothing before the row is fetched, then what the row held, then what
    /// the run has saved.
    pub status: Option<ProcessingStatus>,
    pub text: Seq<char>,
    pub page_count: i32,
    pub chunks: Seq<Seq<char>>,
    /// Identifier of the chunk row that is being inserted.
    pub pending_id: u128,
    /// The chunks whose rows are stored, in the order of their index.
    pub points: Seq<PointState>,
}

/// The stored chunks that a sequence of points stands for.
pub open spec fn point_states(points: Seq<IndexPoint>) -> Seq<PointState> {
    Seq::new(
        points.len(),
        |i: int|
            PointState {
                chunk_id: points[i].chunk_id,
                chunk_index: points[i].chunk_index as nat,
                content: points[i].content@,
            },
    )
}

/// Whether the chunks have been cut at this stage.
pub open spec fn has_chunks(stage: IngestStage) -> bool {
    match stage {
        IngestStage::LoadingDocument => false,
        IngestStage::SavingExtraction => false,
        IngestStage::Aborted(_) => false,
        _ => true,
    }
}

/// Whether every chunk has its row at this stage.
pub open spec fn all_stored(stage: IngestStage) -> bool {
    match stage {
        IngestStage::Indexing => true,
        IngestStage::LoadingForCompletion => true,
        IngestStage::SavingCompletion => true,
        IngestStage::Completed => true,
        _ => false,
    }
}

/// Whether no row can have been stored yet at this stage.
pub open spec fn before_rows(stage: IngestStage) -> bool {
    match stage {
        IngestStage::LoadingDocument => true,
        IngestStage::SavingExtraction => true,
        IngestStage::Embedding => true,
        _ => false,
    }
}

/// The status that the run knows at each stage of a run under way: none
/// before the row is fetched, `pending` while the extraction is saved,
/// `processing` from then on, `completed` at the end.
pub open spec fn status_at(stage: IngestStage) -> Option<ProcessingStatus> {
    match stage {
        IngestStage::LoadingDocument => None,
        IngestStage::SavingExtraction => Some(ProcessingStatus::Pending),
        IngestStage::Completed => Some(ProcessingStatus::Completed),
        _ => Some(ProcessingStatus::Processing),
    }
}

/// The state of a job for a document whose text has been extracted: nothing
/// is known of the stored status, nothing is cut or stored, and the document
/// row is about to be fetched.
pub open spec fn initial_state(document_id: u128, text: Seq<char>, page_count: i32) -> JobState {
    JobState {
        document_id,
        stage: IngestStage::LoadingDocument,
        status: None,
        text,
        page_count,
        chunks: Seq::empty(),
        pending_id: 0,
        points: Seq::empty(),
    }
}

/// What every job satisfies: once cut, the chunks are those of the text; the
/// stored chunks are the first ones, with indices that count up from zero
/// without gap or repetition; a chunk is stored only for a document that
/// this run has moved to `processing`; from the index on every chunk has its
/// row; and the status fits the stage.
pub open spec fn well_formed(s: JobState) -> bool {
    &&& has_chunks(s.stage) ==> s.chunks == chunks_of_text(
        s.text,
        CHUNK_WORDS as int,
        CHUNK_OVERLAP as int,
    )
    &&& s.points.len() <= s.chunks.len()
    &&& before_rows(s.stage) ==> s.points.len() == 0
    &&& forall|i: int|
        0 <= i < s.points.len() ==> (#[trigger] s.points[i]).chunk_index == i
            && s.points[i].content == s.chunks[i]
    &&& s.points.len() > 0 ==> s.status == Some(ProcessingStatus::Processing) || s.stage
        == IngestStage::Completed
    &&& s.stage == IngestStage::StoringChunk ==> s.points.len() < s.chunks.len()
    &&& all_stored(s.stage) ==> s.points.len() == s.chunks.len()
    &&& !(s.stage is Aborted) ==> s.status == status_at(s.stage)
}

/// The state that follows `s` on `event`. `fresh` becomes the identifier of
/// the chunk row that is inserted next, where there is one.
///
/// Saving the extraction cuts the chunks, and a stored row adds its chunk to
/// the points. A run that is given up leaves the stored status where it
/// stands: no step marks a document failed.
pub open spec fn after(s: JobState, event: IngestEvent, fresh: u128) -> JobState {
    let stage = next_stage(s.stage, event, s.chunks.len() as int, s.points.len() as int);
    JobState {
        document_id: s.document_id,
        stage,
        status: status_after(s.status, s.stage, event, stage),
        text: s.text,
        page_count: s.page_count,
        chunks: if s.stage == IngestStage::SavingExtraction && event == IngestEvent::Saved {
            chunks_of_text(s.text, CHUNK_WORDS as int, CHUNK_OVERLAP as int)
        } else {
            s.chunks
        },
        pending_id: if stage == IngestStage::StoringChunk {
            fresh
        } else {
            s.pending_id
        },
        points: if s.stage == IngestStage::StoringChunk && event == IngestEvent::ChunkStored {
            s.points.push(
                PointState {
                    chunk_id: s.pending_id,
                    chunk_index: s.points.len(),
                    content: s.chunks[s.points.len() as int],
                },
            )
        } else {
            s.points
        },
    }
}

/// A job starts well-formed and every step keeps it so.
pub proof fn lemma_steps_keep_jobs_well_formed(s: JobState, event: IngestEvent, fresh: u128)
    requires
        well_formed(s),
    ensures
        well_formed(initial_state(s.document_id, s.text, s.page_count)),
        well_formed(after(s, event, fresh)),
{
    let t = after(s, event, fresh);
    assert forall|i: int| 0 <= i < t.points.len() implies (#[trigger] t.points[i]).chunk_index == i
        && t.points[i].content == t.chunks[i] by {
        if i < s.points.len() {
            assert(t.points[i] == s.points[i]);
        }
    }
}

/// A run changes the status of its document only by its two saves, and each
/// of them moves along a transition: from `pending` to `processing`, and
/// from `processing` to `completed`. No step marks a document failed. What
/// the first fetch of the row shows is learned, not changed, so the step
/// that takes it in is left out here.
pub proof fn lemma_status_moves_forward(s: JobState, event: IngestEvent, fresh: u128)
    requires
        well_formed(s),
        s.stage != IngestStage::LoadingDocument,
    ensures
        after(s, event, fresh).status == s.status || (s.status is Some && after(
            s,
            event,
            fresh,
        ).status is Some && s.status->0.allows(after(s, event, fresh).status->0)),
        after(s, event, fresh).status != s.status ==> after(s, event, fresh).status != Some(
            ProcessingStatus::Failed,
        ),
{
}

/// A document whose stored status allows no move to `processing`, as one
/// that is completed or failed, is left as it is: the run is given up before
/// anything is saved, cut or stored.
pub proof fn lemma_finished_documents_are_left_alone(
    s: JobState,
    status: ProcessingStatus,
    fresh: u128,
)
    requires
        well_formed(s),
        s.stage == IngestStage::LoadingDocument,
        !status.allows(ProcessingStatus::Processing),
    ensures
        status.is_terminal() ==> !status.allows(ProcessingStatus::Processing),
        after(s, IngestEvent::DocumentFound { status }, fresh).stage == IngestStage::Aborted(
            IngestError::TransitionRefused,
        ),
        action_for(after(s, IngestEvent::DocumentFound { status }, fresh).stage)
            == IngestAction::Abort(IngestError::TransitionRefused),
        after(s, IngestEvent::DocumentFound { status }, fresh).status == Some(status),
        after(s, IngestEvent::DocumentFound { status }, fresh).chunks == s.chunks,
        after(s, IngestEvent::DocumentFound { status }, fresh).points.len() == 0,
{
}

/// A run that is over stays as it is, whatever is reported to it.
pub proof fn lemma_finished_jobs_stay(s: JobState, event: IngestEvent, fresh: u128)
    requires
        s.stage == IngestStage::Completed || s.stage is Aborted,
    ensures
        after(s, event, fresh) == s,
{
}

/// A completed run has stored one row for every chunk of the text, in the
/// order of the chunks, and has saved the status `completed`.
pub proof fn lemma_completed_jobs_hold_every_chunk(s: JobState)
    requires
        well_formed(s),
        s.stage == IngestStage::Completed,
    ensures
        s.status == Some(ProcessingStatus::Completed),
        s.chunks == chunks_of_text(s.text, CHUNK_WORDS as int, CHUNK_OVERLAP as int),
        s.points.len() == s.chunks.len(),
        forall|i: int|
            0 <= i < s.chunks.len() ==> (#[trigger] s.points[i]).chunk_index == i
                && s.points[i].content == s.chunks[i],
{
}

/// An answer of the embedding service that does not hold one vector per
/// chunk ends the run: no row is stored and nothing is indexed.
pub proof fn lemma_vectors_must_match_chunks(s: JobState, vectors: usize, fresh: u128)
    requires
        well_formed(s),
        s.stage == IngestStage::Embedding,
        vectors != s.chunks.len(),
    ensures
        after(s, IngestEvent::Embedded { vectors }, fresh).stage == IngestStage::Aborted(
            IngestError::Embedding,
        ),
        after(s, IngestEvent::Embedded { vectors }, fresh).points.len() == 0,
{
}

/// The rows of a run are inserted in the order of their index: the row that
/// is stored next carries the number of rows stored so far.
pub proof fn lemma_rows_count_up(s: JobState, fresh: u128)
    requires
        well_formed(s),
        s.stage == IngestStage::StoringChunk,
    ensures
        after(s, IngestEvent::ChunkStored, fresh).points.len() == s.points.len() + 1,
        after(s, IngestEvent::ChunkStored, fresh).points.last().chunk_index == s.points.len(),
        after(s, IngestEvent::ChunkStored, fresh).points.last().chunk_id == s.pending_id,
        after(s, IngestEvent::ChunkStored, fresh).points.last().content == s.chunks[s.points.len() as int],
{
}

/// The state after one row has been stored under each of `ids`, in turn.
pub open spec fn after_rows(s: JobState, ids: Seq<u128>) -> JobState
    decreases ids.len(),
{
    if ids.len() == 0 {
        s
    } else {
        after_rows(after(s, IngestEvent::ChunkStored, ids[0]), ids.drop_first())
    }
}

/// Every chunk gets its row before the index is written: a job that is
/// storing chunks reaches the index exactly when the last chunk is stored,
/// and then holds one point per chunk.
pub proof fn lemma_rows_come_before_the_index(s: JobState, ids: Seq<u128>)
    requires
        well_formed(s),
        s.stage == IngestStage::StoringChunk,
        1 <= ids.len() <= s.chunks.len() - s.points.len(),
    ensures
        well_formed(after_rows(s, ids)),
        after_rows(s, ids).points.len() == s.points.len() + ids.len(),
        after_rows(s, ids).chunks == s.chunks,
        after_rows(s, ids).status == Some(ProcessingStatus::Processing),
        after_rows(s, ids).stage == if s.points.len() + ids.len() == s.chunks.len() {
            IngestStage::Indexing
        } else {
            IngestStage::StoringChunk
        },
    decreases ids.len(),
{
    let t = after(s, IngestEvent::ChunkStored, ids[0]);
    lemma_steps_keep_jobs_well_formed(s, IngestEvent::ChunkStored, ids[0]);
    if ids.len() > 1 {
        lemma_rows_come_before_the_index(t, ids.drop_first());
    } else {
        assert(after_rows(t, ids.drop_first()) == t);
    }
}

/// One document on its way from uploaded bytes to indexed chunks.
#[derive(Debug)]
pub struct IngestJob {
    document_id: u128,
    stage: IngestStage,
    status: Option<ProcessingStatus>,
    text: String,
    page_count: i32,
    chunks: Vec<String>,
    pending_id: u128,
    points: Vec<IndexPoint>,
}

impl View for IngestJob {
    type V = JobState;

    closed spec fn view(&self) -> JobState {
        JobState {
            document_id: self.document_id,
            stage: self.stage,
            status: self.status,
            text: self.text@,
            page_count: self.page_count,
            chunks: string_views(self.chunks@),
            pending_id: self.pending_id,
            points: point_states(self.points@),
        }
    }
}

impl IngestJob {
    #[verifier::type_invariant]
    spec fn inv(&self) -> bool {
        well_formed(self@)
    }

    /// A job for a document whose text has been extracted. The first thing
    /// to do is to fetch the row of the document.
    pub fn begin(document_id: u128, text: String, page_count: i32) -> (job: IngestJob)
        ensures
            job@ == initial_state(document_id, text@, page_count),
            well_formed(job@),
    {
        let job = IngestJob {
            document_id,
            stage: IngestStage::LoadingDocument,
            status: None,
            text,
            page_count,
            chunks: Vec::new(),
            pending_id: 0,
            points: Vec::new(),
        };
        assert(job@.chunks =~= Seq::<Seq<char>>::empty());
        assert(job@.points =~= Seq::<PointState>::empty());
        job
    }

    /// Extracts text and page count from the uploaded bytes and sets up the
    /// job. Where the loader refuses the bytes there is no job, and nothing
    /// is asked of the record store.
    pub fn start(document_id: u128, pdf_bytes: &[u8]) -> (started: Result<
        IngestJob,
        ExtractionError,
    >)
        ensures
            match started {
                Ok(job) => exists|text: Seq<char>, page_count: i32|
                    job@ == #[trigger] initial_state(document_id, text, page_count),
                Err(_) => true,
            },
    {
        match PdfService::extract_text(pdf_bytes) {
            Ok(text) => match PdfService::get_page_count(pdf_bytes) {
                Ok(page_count) => Ok(Self::begin(document_id, text, page_count)),
                Err(e) => Err(e),
            },
            Err(e) => Err(e),
        }
    }

    /// The document that the job works on.
    pub fn document_id(&self) -> (id: u128)
        ensures
            id == self@.document_id,
    {
        self.document_id
    }

    /// What the job is waiting for.
    pub fn stage(&self) -> (stage: IngestStage)
        ensures
            stage == self@.stage,
    {
        self.stage
    }

    /// The status of the document as the run knows it.
    pub fn status(&self) -> (status: Option<ProcessingStatus>)
        ensures
            status == self@.status,
    {
        self.status
    }

    /// The extracted text.
    pub fn text(&self) -> (text: &String)
        ensures
            text@ == self@.text,
    {
        &self.text
    }

    /// The page count of the document.
    pub fn page_count(&self) -> (count: i32)
        ensures
            count == self@.page_count,
    {
        self.page_count
    }

    /// The chunks of the text: none before the extraction is saved.
    pub fn chunks(&self) -> (chunks: &Vec<String>)
        ensures
            string_views(chunks@) == self@.chunks,
    {
        &self.chunks
    }

    /// The chunks whose rows are stored, in the order of their index.
    pub fn points(&self) -> (points: &Vec<IndexPoint>)
        ensures
            point_states(points@) == self@.points,
    {
        &self.points
    }

    /// The action that the job is waiting on.
    pub fn action(&self) -> (action: IngestAction)
        ensures
            action == action_for(self@.stage),
    {
        match self.stage {
            IngestStage::LoadingDocument => IngestAction::LoadDocument,
            IngestStage::SavingExtraction => IngestAction::SaveExtraction,
            IngestStage::Embedding => IngestAction::Embed,
            IngestStage::StoringChunk => IngestAction::StoreChunk,
            IngestStage::Indexing => IngestAction::Upsert,
            IngestStage::LoadingForCompletion => IngestAction::LoadDocument,
            IngestStage::SavingCompletion => IngestAction::SaveCompleted,
            IngestStage::Completed => IngestAction::Finish,
            IngestStage::Aborted(e) => IngestAction::Abort(e),
        }
    }

    /// Tells whether the run is over.
    pub fn finished(&self) -> (over: bool)
        ensures
            over == (self@.stage == IngestStage::Completed || self@.stage is Aborted),
    {
        match self.stage {
            IngestStage::Completed => true,
            IngestStage::Aborted(_) => true,
            _ => false,
        }
    }

    /// The stage that follows on `event`.
    fn decide(&self, event: IngestEvent) -> (next: IngestStage)
        ensures
            next == next_stage(
                self@.stage,
                event,
                self@.chunks.len() as int,
                self@.points.len() as int,
            ),
    {
        match self.stage {
            IngestStage::Completed => self.stage,
            IngestStage::Aborted(_) => self.stage,
            _ => match event {
                IngestEvent::Failed => match self.stage {
                    IngestStage::Embedding => IngestStage::Aborted(IngestError::Embedding),
                    IngestStage::Indexing => IngestStage::Aborted(IngestError::IndexWrite),
                    _ => IngestStage::Aborted(IngestError::Store),
                },
                IngestEvent::DocumentFound { status } => match self.stage {
                    IngestStage::LoadingDocument => match status.advance(
                        ProcessingStatus::Processing,
                    ) {
                        Some(_) => IngestStage::SavingExtraction,
                        None => IngestStage::Aborted(IngestError::TransitionRefused),
                    },
                    IngestStage::LoadingForCompletion => match status.advance(
                        ProcessingStatus::Completed,
                    ) {
                        Some(_) => IngestStage::SavingCompletion,
                        None => IngestStage::Aborted(IngestError::TransitionRefused),
                    },
                    _ => IngestStage::Aborted(IngestError::Unexpected),
                },
                IngestEvent::DocumentMissing => match self.stage {
                    IngestStage::LoadingDocument => IngestStage::Aborted(
                        IngestError::DocumentNotFound,
                    ),
                    IngestStage::LoadingForCompletion => IngestStage::Aborted(
                        IngestError::DocumentNotFound,
                    ),
                    _ => IngestStage::Aborted(IngestError::Unexpected),
                },
                IngestEvent::Saved => match self.stage {
                    IngestStage::SavingExtraction => IngestStage::Embedding,
                    IngestStage::SavingCompletion => IngestStage::Completed,
                    _ => IngestStage::Aborted(IngestError::Unexpected),
                },
                IngestEvent::Embedded { vectors } => match self.stage {
                    IngestStage::Embedding => if vectors != self.chunks.len() {
                        IngestStage::Aborted(IngestError::Embedding)
                    } else if vectors == 0 {
                        IngestStage::Indexing
                    } else {
                        IngestStage::StoringChunk
                    },
                    _ => IngestStage::Aborted(IngestError::Unexpected),
                },
                IngestEvent::ChunkStored => match self.stage {
                    IngestStage::StoringChunk => {
                        proof {
                            use_type_invariant(self);
                            assert(self@.stage == IngestStage::StoringChunk);
                            assert(self@.points.len() == self.points@.len());
                            assert(self@.chunks.len() == self.chunks@.len());
                        }
                        let total: usize = self.chunks.len();
                        if self.points.len() + 1 < total {
                            IngestStage::StoringChunk
                        } else {
                            IngestStage::Indexing
                        }
                    },
                    _ => IngestStage::Aborted(IngestError::Unexpected),
                },
                IngestEvent::Indexed => match self.stage {
                    IngestStage::Indexing => IngestStage::LoadingForCompletion,
                    _ => IngestStage::Aborted(IngestError::Unexpected),
                },
            },
        }
    }

    /// Takes the outcome of the last action and hands back the job as it
    /// stands afterwards, with what to do next. `fresh` becomes the
    /// identifier of the chunk row that is inserted next, where there is
    /// one.
    pub fn step_with(self, event: IngestEvent, fresh: u128) -> (out: (IngestJob, IngestAction))
        ensures
            out.0@ == after(self@, event, fresh),
            out.1 == action_for(out.0@.stage),
            well_formed(out.0@),
    {
        proof {
            use_type_invariant(&self);
            lemma_steps_keep_jobs_well_formed(self@, event, fresh);
        }
        let next = self.decide(event);
        let ghost before = self@;
        let IngestJob { document_id, stage, status, text, page_count, chunks, pending_id, points } =
            self;
        let mut status = status;
        let mut chunks = chunks;
        let mut points = points;
        match (stage, event) {
            (IngestStage::LoadingDocument, IngestEvent::DocumentFound { status: seen }) => {
                status = Some(seen);
            },
            (IngestStage::SavingExtraction, IngestEvent::Saved) => {
                chunks = PdfService::chunk_text(text.as_str(), CHUNK_WORDS, CHUNK_OVERLAP);
                status = Some(ProcessingStatus::Processing);
            },
            (IngestStage::StoringChunk, IngestEvent::ChunkStored) => {
                let k: usize = points.len();
                let ghost stored = points@;
                assert(point_states(stored).len() == k);
                assert(string_views(chunks@).len() == chunks@.len());
                points.push(
                    IndexPoint { chunk_id: pending_id, chunk_index: k, content: chunks[k].clone() },
                );
                assert(point_states(points@) =~= before.points.push(
                    PointState {
                        chunk_id: pending_id,
                        chunk_index: k as nat,
                        content: before.chunks[k as int],
                    },
                ));
            },
            (IngestStage::SavingCompletion, IngestEvent::Saved) => {
                status = Some(ProcessingStatus::Completed);
            },
            _ => {},
        }
        let pending_id = if next == IngestStage::StoringChunk {
            fresh
        } else {
            pending_id
        };
        proof {
            let model = JobState {
                document_id,
                stage: next,
                status,
                text: text@,
                page_count,
                chunks: string_views(chunks@),
                pending_id,
                points: point_states(points@),
            };
            assert(string_views(chunks@).len() == chunks@.len());
            assert(model.chunks =~= after(before, event, fresh).chunks);
            assert(model.points =~= after(before, event, fresh).points);
            assert(model == after(before, event, fresh));
        }
        let job = IngestJob {
            document_id,
            stage: next,
            status,
            text,
            page_count,
            chunks,
            pending_id,
            points,
        };
        let action = job.action();
        (job, action)
    }

    /// Takes the outcome of the last action and hands back the job as it
    /// stands afterwards, with what to do next. The chunk row that is
    /// inserted next, where there is one, gets a random identifier.
    pub fn step(self, event: IngestEvent) -> (out: (IngestJob, IngestAction))
        ensures
            exists|fresh: u128| out.0@ == #[trigger] after(self@, event, fresh),
            out.1 == action_for(out.0@.stage),
            well_formed(out.0@),
    {
        let fresh = fresh_id();
        self.step_with(event, fresh)
    }

    /// The chunk row that is to be inserted: the first chunk that has no row
    /// yet, under the pending identifier, with its index and its token
    /// estimate. There is one exactly while the job is storing chunks.
    pub fn pending_row(&self) -> (row: Option<ChunkRow>)
        ensures
            row is Some <==> self@.stage == IngestStage::StoringChunk,
            match row {
                Some(r) => {
                    &&& r.id == self@.pending_id
                    &&& r.document_id == self@.document_id
                    &&& r.chunk_index == self@.points.len()
                    &&& r.content@ == self@.chunks[self@.points.len() as int]
                    &&& r.token_count == token_estimate(r.content@)
                },
                None => true,
            },
    {
        proof {
            use_type_invariant(self);
        }
        match self.stage {
            IngestStage::StoringChunk => {
                let k: usize = self.points.len();
                assert(point_states(self.points@).len() == k);
                assert(string_views(self.chunks@).len() == self.chunks@.len());
                let content = self.chunks[k].clone();
                let token_count = PdfService::estimate_tokens(content.as_str());
                Some(
                    ChunkRow {
                        id: self.pending_id,
                        document_id: self.document_id,
                        chunk_index: k,
                        content,
                        token_count,
                    },
                )
            },
            _ => None,
        }
    }
}

} // verus!
