use crate::document::DocumentRecord;
use crate::dto::{
    DocumentListResponse, DocumentResponse, ErrorResponse, SearchRequest, SearchResponse,
    SearchResultItem,
};
use crate::ids::{id_text, parse_document_id, parse_outcome, uuid_parsed, uuid_text, ValidationError};
use crate::text::chars_of;
use crate::vector_db::{selects_document, SearchPlan, SearchResult, VectorDbService};
use vstd::prelude::*;
use vstd::string::StringExecFns;

verus! {

/// Status of an answer that carries what was asked for.
pub const STATUS_OK: u16 = 200;

/// Status of the answer to an upload that was recorded.
pub const STATUS_CREATED: u16 = 201;

/// Status of the answer to a request that cannot be understood.
pub const STATUS_BAD_REQUEST: u16 = 400;

/// Status of the answer to a request that failed on the way.
pub const STATUS_INTERNAL_SERVER_ERROR: u16 = 500;

/// A reply that carries what was asked for, with its status.
#[derive(Debug)]
pub struct Answer<T> {
    pub status: u16,
    pub body: T,
}

/// A refusal: the status and the message that go back to the caller.
#[derive(Debug)]
pub struct ErrorReply {
    pub status: u16,
    pub body: ErrorResponse,
}

/// Whether `reply` refuses with `status` and a message made of `prefix`
/// and `cause`.
pub open spec fn refuses_with(
    reply: ErrorReply,
    status: u16,
    prefix: Seq<char>,
    cause: Seq<char>,
) -> bool {
    reply.status == status && reply.body.error@ == prefix + cause
}

/// Whether `response` shows `record`.
pub open spec fn shows_record(response: DocumentResponse, record: DocumentRecord) -> bool {
    &&& response.id@ == uuid_text(record.id)
    &&& response.title@ == record.title@
    &&& response.file_name@ == record.file_name@
    &&& response.file_url@ == record.file_url@
    &&& response.file_size == record.file_size
    &&& response.page_count == record.page_count
    &&& response.processing_status@ == record.processing_status.name()
    &&& response.created_at@ == record.created_at@
}

/// Whether `item` is the hit `result`, unchanged.
pub open spec fn shows_hit(item: SearchResultItem, result: SearchResult) -> bool {
    &&& item.document_id@ == result.document_id@
    &&& item.chunk_id@ == result.chunk_id@
    &&& item.content@ == result.content@
    &&& item.score_bits == result.score_bits
}

/// The document that a search is confined to: none where the request names
/// none, the identifier that it names, or the refusal of a reference that
/// is no identifier.
pub open spec fn scope_outcome(reference: Option<Seq<char>>) -> Result<
    Option<u128>,
    ValidationError,
> {
    match reference {
        None => Ok(None),
        Some(text) => match parse_outcome(uuid_parsed(text)) {
            Ok(id) => Ok(Some(id)),
            Err(e) => Err(e),
        },
    }
}

/// The reference of a request as a sequence of characters.
pub open spec fn reference_of(request: SearchRequest) -> Option<Seq<char>> {
    match request.document_id {
        Some(text) => Some(text@),
        None => None,
    }
}

/// What stands before the token in an authorization header.
pub open spec fn bearer_prefix() -> Seq<char> {
    seq!['B', 'e', 'a', 'r', 'e', 'r', ' ']
}

/// The token of an authorization header: what follows the prefix, where the
/// header starts with it.
pub open spec fn token_of(header: Seq<char>) -> Option<Seq<char>> {
    if header.len() >= 7 && header.take(7) == bearer_prefix() {
        Some(header.skip(7))
    } else {
        None
    }
}

/// Takes the token out of an authorization header. There is one exactly
/// where the header starts with `Bearer` and a space.
pub fn bearer_token(header: &str) -> (token: Option<String>)
    ensures
        match token {
            Some(t) => token_of(header@) == Some(t@),
            None => token_of(header@) is None,
        },
{
    let cs = chars_of(header);
    if cs.len() < 7 {
        return None;
    }
    if !(cs[0] == 'B' && cs[1] == 'e' && cs[2] == 'a' && cs[3] == 'r' && cs[4] == 'e' && cs[5]
        == 'r' && cs[6] == ' ') {
        assert(header@.take(7)[0] == cs@[0]);
        assert(header@.take(7)[1] == cs@[1]);
        assert(header@.take(7)[2] == cs@[2]);
        assert(header@.take(7)[3] == cs@[3]);
        assert(header@.take(7)[4] == cs@[4]);
        assert(header@.take(7)[5] == cs@[5]);
        assert(header@.take(7)[6] == cs@[6]);
        return None;
    }
    assert(header@.take(7) =~= bearer_prefix());
    let mut token = String::new();
    let mut i: usize = 7;
    assert(header@.subrange(7, 7) =~= Seq::<char>::empty());
    while i < cs.len()
        invariant
            7 <= i <= cs.len(),
            cs@ == header@,
            token@ == header@.subrange(7, i as int),
        decreases cs.len() - i,
    {
        token.push(cs[i]);
        assert(token@ =~= header@.subrange(7, i + 1));
        i = i + 1;
    }
    assert(header@.subrange(7, header@.len() as int) =~= header@.skip(7));
    Some(token)
}

/// A refusal with a message made of `prefix` and `cause`.
pub fn refuse(status: u16, prefix: &str, cause: &str) -> (reply: ErrorReply)
    ensures
        refuses_with(reply, status, prefix@, cause@),
{
    let mut error = prefix.to_owned();
    error.append(cause);
    ErrorReply { status, body: ErrorResponse { error } }
}

/// Reads the document that a search is confined to.
pub fn search_scope(request: &SearchRequest) -> (scope: Result<Option<u128>, ValidationError>)
    ensures
        scope == scope_outcome(reference_of(*request)),
{
    match &request.document_id {
        None => Ok(None),
        Some(text) => match parse_document_id(text.as_str()) {
            Ok(id) => Ok(Some(id)),
            Err(e) => Err(e),
        },
    }
}

/// Decides what follows the embedding of a query, from the outcome of the
/// embedding and the scope that was read from the request.
///
/// A failed embedding is answered first, with its cause. After it a
/// reference that is no identifier is refused as a bad request. Otherwise
/// the index is asked for the `limit` nearest passages, within the document
/// where one is named.
pub fn plan_search(
    vector_db: &VectorDbService,
    limit: u64,
    embedding: Result<(), String>,
    scope: Result<Option<u128>, ValidationError>,
) -> (next: Result<SearchPlan, ErrorReply>)
    ensures
        match embedding {
            Err(cause) => next is Err && refuses_with(
                next->Err_0,
                STATUS_INTERNAL_SERVER_ERROR,
                "Failed to generate query embedding: "@,
                cause@,
            ),
            Ok(_) => match scope {
                Err(_) => next is Err && refuses_with(
                    next->Err_0,
                    STATUS_BAD_REQUEST,
                    "Invalid document_id format"@,
                    Seq::empty(),
                ),
                Ok(document) => {
                    &&& next is Ok
                    &&& next->Ok_0.collection@ == vector_db.collection_name@
                    &&& next->Ok_0.limit == limit
                    &&& next->Ok_0.with_payload
                    &&& match document {
                        Some(id) => next->Ok_0.filter is Some && selects_document(
                            next->Ok_0.filter->0,
                            id,
                        ),
                        None => next->Ok_0.filter is None,
                    }
                },
            },
        },
{
    match embedding {
        Err(cause) => Err(
            refuse(
                STATUS_INTERNAL_SERVER_ERROR,
                "Failed to generate query embedding: ",
                cause.as_str(),
            ),
        ),
        Ok(_) => match scope {
            Err(_) => {
                let reply = refuse(STATUS_BAD_REQUEST, "Invalid document_id format", "");
                proof {
                    reveal_strlit("");
                    assert(""@ =~= Seq::<char>::empty());
                }
                Err(reply)
            },
            Ok(document) => Ok(vector_db.search(limit, document)),
        },
    }
}

/// Decides what follows the embedding of the query of `request`: the
/// refusal of a failed embedding, the refusal of a reference that is no
/// identifier, or the query for the index, in this order.
pub fn search_documents(
    vector_db: &VectorDbService,
    request: &SearchRequest,
    embedding: Result<(), String>,
) -> (next: Result<SearchPlan, ErrorReply>)
    ensures
        match embedding {
            Err(cause) => next is Err && refuses_with(
                next->Err_0,
                STATUS_INTERNAL_SERVER_ERROR,
                "Failed to generate query embedding: "@,
                cause@,
            ),
            Ok(_) => match scope_outcome(reference_of(*request)) {
                Err(_) => next is Err && refuses_with(
                    next->Err_0,
                    STATUS_BAD_REQUEST,
                    "Invalid document_id format"@,
                    Seq::empty(),
                ),
                Ok(document) => {
                    &&& next is Ok
                    &&& next->Ok_0.collection@ == vector_db.collection_name@
                    &&& next->Ok_0.limit == request.limit
                    &&& next->Ok_0.with_payload
                    &&& match document {
                        Some(id) => next->Ok_0.filter is Some && selects_document(
                            next->Ok_0.filter->0,
                            id,
                        ),
                        None => next->Ok_0.filter is None,
                    }
                },
            },
        },
{
    let scope = search_scope(request);
    plan_search(vector_db, request.limit, embedding, scope)
}

/// The answer to a search: with the status of success the hits as they
/// came, in their order, or the failure of the index with its cause.
pub fn search_response(outcome: Result<Vec<SearchResult>, String>) -> (answer: Result<
    Answer<SearchResponse>,
    ErrorReply,
>)
    ensures
        match outcome {
            Ok(hits) => {
                &&& answer is Ok
                &&& answer->Ok_0.status == STATUS_OK
                &&& answer->Ok_0.body.results.len() == hits.len()
                &&& forall|i: int|
                    0 <= i < hits.len() ==> shows_hit(
                        #[trigger] answer->Ok_0.body.results@[i],
                        hits@[i],
                    )
            },
            Err(cause) => answer is Err && refuses_with(
                answer->Err_0,
                STATUS_INTERNAL_SERVER_ERROR,
                "Search failed: "@,
                cause@,
            ),
        },
{
    match outcome {
        Ok(hits) => {
            let mut results: Vec<SearchResultItem> = Vec::new();
            let mut i: usize = 0;
            while i < hits.len()
                invariant
                    i <= hits.len(),
                    results.len() == i,
                    forall|j: int| 0 <= j < i ==> shows_hit(#[trigger] results@[j], hits@[j]),
                decreases hits.len() - i,
            {
                let hit = &hits[i];
                let ghost before = results@;
                results.push(
                    SearchResultItem {
                        document_id: hit.document_id.clone(),
                        chunk_id: hit.chunk_id.clone(),
                        content: hit.content.clone(),
                        score_bits: hit.score_bits,
                    },
                );
                assert forall|j: int| 0 <= j < i + 1 implies shows_hit(
                    #[trigger] results@[j],
                    hits@[j],
                ) by {
                    if j < i {
                        assert(results@[j] == before[j]);
                    }
                }
                i = i + 1;
            }
            Ok(Answer { status: STATUS_OK, body: SearchResponse { results } })
        },
        Err(cause) => Err(
            refuse(STATUS_INTERNAL_SERVER_ERROR, "Search failed: ", cause.as_str()),
        ),
    }
}

/// A document as it is shown.
pub fn document_response(record: &DocumentRecord) -> (response: DocumentResponse)
    ensures
        shows_record(response, *record),
{
    DocumentResponse {
        id: id_text(record.id),
        title: record.title.clone(),
        file_name: record.file_name.clone(),
        file_url: record.file_url.clone(),
        file_size: record.file_size,
        page_count: record.page_count,
        processing_status: record.processing_status.as_str().to_owned(),
        created_at: record.created_at.clone(),
    }
}

/// The answer to an upload: the new document, as created, or the failure
/// of the record store with its cause.
pub fn upload_document(outcome: Result<DocumentRecord, String>) -> (answer: Result<
    Answer<DocumentResponse>,
    ErrorReply,
>)
    ensures
        match outcome {
            Ok(record) => answer is Ok && answer->Ok_0.status == STATUS_CREATED && shows_record(
                answer->Ok_0.body,
                record,
            ),
            Err(cause) => answer is Err && refuses_with(
                answer->Err_0,
                STATUS_INTERNAL_SERVER_ERROR,
                "Failed to create document: "@,
                cause@,
            ),
        },
{
    match outcome {
        Ok(record) => Ok(Answer { status: STATUS_CREATED, body: document_response(&record) }),
        Err(cause) => Err(
            refuse(STATUS_INTERNAL_SERVER_ERROR, "Failed to create document: ", cause.as_str()),
        ),
    }
}

/// The answer to a listing: with the status of success the documents as
/// they came, in their order, or the failure of the record store with its
/// cause.
pub fn get_documents(outcome: Result<Vec<DocumentRecord>, String>) -> (answer: Result<
    Answer<DocumentListResponse>,
    ErrorReply,
>)
    ensures
        match outcome {
            Ok(records) => {
                &&& answer is Ok
                &&& answer->Ok_0.status == STATUS_OK
                &&& answer->Ok_0.body.documents.len() == records.len()
                &&& forall|i: int|
                    0 <= i < records.len() ==> shows_record(
                        #[trigger] answer->Ok_0.body.documents@[i],
                        records@[i],
                    )
            },
            Err(cause) => answer is Err && refuses_with(
                answer->Err_0,
                STATUS_INTERNAL_SERVER_ERROR,
                "Failed to fetch documents: "@,
                cause@,
            ),
        },
{
    match outcome {
        Ok(records) => {
            let mut documents: Vec<DocumentResponse> = Vec::new();
            let mut i: usize = 0;
            while i < records.len()
                invariant
                    i <= records.len(),
                    documents.len() == i,
                    forall|j: int|
                        0 <= j < i ==> shows_record(#[trigger] documents@[j], records@[j]),
                decreases records.len() - i,
            {
                let ghost before = documents@;
                documents.push(document_response(&records[i]));
                assert forall|j: int| 0 <= j < i + 1 implies shows_record(
                    #[trigger] documents@[j],
                    records@[j],
                ) by {
                    if j < i {
                        assert(documents@[j] == before[j]);
                    }
                }
                i = i + 1;
            }
            Ok(Answer { status: STATUS_OK, body: DocumentListResponse { documents } })
        },
        Err(cause) => Err(
            refuse(STATUS_INTERNAL_SERVER_ERROR, "Failed to fetch documents: ", cause.as_str()),
        ),
    }
}

} // verus!
