use crate::ids::{fresh_id, is_random_id};
use crate::ingest::{initial_state, IngestJob};
use crate::lease::{acquire_outcome, release_outcome, LeaseTable};
use crate::pdf::ExtractionError;
use crate::status::ProcessingStatus;
use crate::vector_db::{selects_document, DeletePlan, VectorDbService};
use vstd::prelude::*;

verus! {

/// A document as the record store holds it. Timestamps are carried as the
/// store writes them.
#[derive(Debug)]
pub struct DocumentRecord {
    pub id: u128,
    pub user_id: u128,
    pub title: String,
    pub file_name: String,
    pub file_url: String,
    pub file_size: i32,
    pub page_count: Option<i32>,
    pub processing_status: ProcessingStatus,
    pub extracted_text: Option<String>,
    pub created_at: String,
    pub updated_at: String,
}

/// Why a document operation was refused.
#[derive(Clone, Copy, Debug, PartialEq, Eq, Structural)]
pub enum DocumentError {
    /// The document does not exist, or belongs to someone else.
    NotFoundOrAccessDenied,
    /// The status of the document allows no transition to the status that
    /// was to be saved.
    TransitionRefused,
    /// The stored name of the status is none of the four names.
    UnknownStatus,
}

/// Why a run did not start.
#[derive(Debug)]
pub enum RunRefusal {
    /// A run for the same document is in flight.
    InFlight,
    /// No text could be taken from the bytes.
    Extraction(ExtractionError),
}

/// Whether `record` is the record of a document that was just uploaded.
pub open spec fn is_new_record(
    record: DocumentRecord,
    id: u128,
    user_id: u128,
    title: String,
    file_name: String,
    file_url: String,
    file_size: i32,
    now: String,
) -> bool {
    &&& record.id == id
    &&& record.user_id == user_id
    &&& record.title == title
    &&& record.file_name == file_name
    &&& record.file_url == file_url
    &&& record.file_size == file_size
    &&& record.page_count is None
    &&& record.processing_status == ProcessingStatus::Pending
    &&& record.extracted_text is None
    &&& record.created_at@ == now@
    &&& record.updated_at@ == now@
}

/// Whether `after` is `before` with the outcome of the extraction saved:
/// text and page count are set, the status has moved along a transition to
/// `processing`, and nothing else but the time of the update has changed.
pub open spec fn is_extraction_saved(
    after: DocumentRecord,
    before: DocumentRecord,
    text: String,
    page_count: i32,
    now: String,
) -> bool {
    &&& after.id == before.id
    &&& after.user_id == before.user_id
    &&& after.title == before.title
    &&& after.file_name == before.file_name
    &&& after.file_url == before.file_url
    &&& after.file_size == before.file_size
    &&& after.page_count == Some(page_count)
    &&& before.processing_status.allows(after.processing_status)
    &&& after.processing_status == ProcessingStatus::Processing
    &&& after.extracted_text == Some(text)
    &&& after.created_at == before.created_at
    &&& after.updated_at == now
}

/// Whether `after` is `before` marked completed: the status has moved along
/// a transition to `completed`, and nothing else but the time of the update
/// has changed.
pub open spec fn is_completion_saved(
    after: DocumentRecord,
    before: DocumentRecord,
    now: String,
) -> bool {
    &&& after.id == before.id
    &&& after.user_id == before.user_id
    &&& after.title == before.title
    &&& after.file_name == before.file_name
    &&& after.file_url == before.file_url
    &&& after.file_size == before.file_size
    &&& after.page_count == before.page_count
    &&& before.processing_status.allows(after.processing_status)
    &&& after.processing_status == ProcessingStatus::Completed
    &&& after.extracted_text == before.extracted_text
    &&& after.created_at == before.created_at
    &&& after.updated_at == now
}

/// The operations on documents.
pub struct DocumentService;

impl DocumentService {
    /// The status that a stored name stands for. A name that is none of the
    /// four is refused: such a row is not a document of this store.
    pub fn read_status(name: &str) -> (read: Result<ProcessingStatus, DocumentError>)
        ensures
            match read {
                Ok(status) => name@ == status.name(),
                Err(e) => e == DocumentError::UnknownStatus && forall|status: ProcessingStatus|
                    name@ != status.name(),
            },
    {
        match ProcessingStatus::parse(name) {
            Some(status) => Ok(status),
            None => Err(DocumentError::UnknownStatus),
        }
    }

    /// The record of an upload under the identifier `id`: pending, with no
    /// page count and no text, created and updated at `now`.
    pub fn new_document(
        id: u128,
        user_id: u128,
        title: String,
        file_name: String,
        file_url: String,
        file_size: i32,
        now: String,
    ) -> (record: DocumentRecord)
        ensures
            is_new_record(record, id, user_id, title, file_name, file_url, file_size, now),
    {
        let updated_at = now.clone();
        DocumentRecord {
            id,
            user_id,
            title,
            file_name,
            file_url,
            file_size,
            page_count: None,
            processing_status: ProcessingStatus::Pending,
            extracted_text: None,
            created_at: now,
            updated_at,
        }
    }

    /// The record of an upload under a random identifier.
    pub fn create_document(
        user_id: u128,
        title: String,
        file_name: String,
        file_url: String,
        file_size: i32,
        now: String,
    ) -> (record: DocumentRecord)
        ensures
            is_new_record(
                record,
                record.id,
                user_id,
                title,
                file_name,
                file_url,
                file_size,
                now,
            ),
            is_random_id(record.id),
    {
        let id = fresh_id();
        Self::new_document(id, user_id, title, file_name, file_url, file_size, now)
    }

    /// The record as it is saved once the text is extracted. It is saved
    /// only where the status of the record allows the move to `processing`,
    /// that is for a pending document; any other record is refused, and
    /// nothing is to be written.
    pub fn save_extraction(
        record: DocumentRecord,
        text: String,
        page_count: i32,
        now: String,
    ) -> (saved: Result<DocumentRecord, DocumentError>)
        ensures
            saved is Ok <==> record.processing_status.allows(ProcessingStatus::Processing),
            match saved {
                Ok(after) => is_extraction_saved(after, record, text, page_count, now),
                Err(e) => e == DocumentError::TransitionRefused,
            },
    {
        match record.processing_status.advance(ProcessingStatus::Processing) {
            Some(status) => Ok(
                DocumentRecord {
                    id: record.id,
                    user_id: record.user_id,
                    title: record.title,
                    file_name: record.file_name,
                    file_url: record.file_url,
                    file_size: record.file_size,
                    page_count: Some(page_count),
                    processing_status: status,
                    extracted_text: Some(text),
                    created_at: record.created_at,
                    updated_at: now,
                },
            ),
            None => Err(DocumentError::TransitionRefused),
        }
    }

    /// The record as it is saved once every chunk is stored and indexed. It
    /// is saved only where the status of the record allows the move to
    /// `completed`, that is for a document in processing; any other record
    /// is refused, and nothing is to be written.
    pub fn save_completion(record: DocumentRecord, now: String) -> (saved: Result<
        DocumentRecord,
        DocumentError,
    >)
        ensures
            saved is Ok <==> record.processing_status.allows(ProcessingStatus::Completed),
            match saved {
                Ok(after) => is_completion_saved(after, record, now),
                Err(e) => e == DocumentError::TransitionRefused,
            },
    {
        match record.processing_status.advance(ProcessingStatus::Completed) {
            Some(status) => Ok(
                DocumentRecord {
                    id: record.id,
                    user_id: record.user_id,
                    title: record.title,
                    file_name: record.file_name,
                    file_url: record.file_url,
                    file_size: record.file_size,
                    page_count: record.page_count,
                    processing_status: status,
                    extracted_text: record.extracted_text,
                    created_at: record.created_at,
                    updated_at: now,
                },
            ),
            None => Err(DocumentError::TransitionRefused),
        }
    }

    /// Starts the processing of an uploaded file: extracts its text and
    /// page count and hands back the job that drives the rest.
    pub fn process_pdf(document_id: u128, pdf_bytes: &[u8]) -> (started: Result<
        IngestJob,
        ExtractionError,
    >)
        ensures
            match started {
                Ok(job) => exists|text: Seq<char>, page_count: i32|
                    job@ == #[trigger] initial_state(document_id, text, page_count),
                Err(_) => true,
            },
    {
        IngestJob::start(document_id, pdf_bytes)
    }

    /// Decides on a deletion from the outcome of the ownership-checked
    /// fetch. Where the document was found, its points are deleted from the
    /// vector index first, as the plan handed back says, and its row after;
    /// where it was not, nothing is deleted.
    pub fn delete_document(
        vector_db: &VectorDbService,
        document_id: u128,
        owned: Option<&DocumentRecord>,
    ) -> (decision: Result<DeletePlan, DocumentError>)
        ensures
            decision is Ok <==> owned is Some,
            match decision {
                Ok(plan) => plan.collection@ == vector_db.collection_name@ && selects_document(
                    plan.filter,
                    document_id,
                ),
                Err(e) => e == DocumentError::NotFoundOrAccessDenied,
            },
    {
        match owned {
            Some(_) => Ok(vector_db.delete_document_chunks(document_id)),
            None => Err(DocumentError::NotFoundOrAccessDenied),
        }
    }
}

/// Admits runs one per document: a document whose run is in flight is not
/// admitted again before that run is retired.
pub struct Orchestrator {
    pub leases: LeaseTable,
}

impl Orchestrator {
    /// An orchestrator with no run in flight.
    pub fn new() -> (orchestrator: Orchestrator)
        ensures
            orchestrator.leases@ == Set::<u128>::empty(),
    {
        Orchestrator { leases: LeaseTable::new() }
    }

    /// Starts a run for a document. It is refused while a run for the same
    /// document is in flight. Where no text can be taken from the bytes the
    /// document is not in flight after the call, unless it was before.
    pub fn run(&mut self, document_id: u128, pdf_bytes: &[u8]) -> (started: Result<
        IngestJob,
        RunRefusal,
    >)
        ensures
            old(self).leases@.contains(document_id) <==> started == Err::<IngestJob, RunRefusal>(
                RunRefusal::InFlight,
            ),
            match started {
                Ok(job) => {
                    &&& exists|text: Seq<char>, page_count: i32|
                        job@ == #[trigger] initial_state(document_id, text, page_count)
                    &&& final(self).leases@ == acquire_outcome(old(self).leases@, document_id).1
                },
                Err(_) => final(self).leases@ == old(self).leases@,
            },
    {
        if !self.leases.try_acquire(document_id) {
            assert(self.leases@ =~= old(self).leases@);
            return Err(RunRefusal::InFlight);
        }
        match DocumentService::process_pdf(document_id, pdf_bytes) {
            Ok(job) => Ok(job),
            Err(e) => {
                self.leases.release(document_id);
                assert(self.leases@ =~= old(self).leases@);
                Err(RunRefusal::Extraction(e))
            },
        }
    }

    /// Retires a run: its document can be admitted again.
    pub fn retire(&mut self, job: IngestJob)
        ensures
            final(self).leases@ == release_outcome(old(self).leases@, job@.document_id),
    {
        self.leases.release(job.document_id());
    }
}

} // verus!
