use vstd::prelude::*;

verus! {

/// What an upload announces: where the file lies and what to call it.
#[derive(Debug)]
pub struct UploadDocumentRequest {
    pub title: String,
    pub file_url: String,
    pub file_name: String,
    pub file_size: i32,
}

/// A document as it is shown to its owner.
#[derive(Debug)]
pub struct DocumentResponse {
    pub id: String,
    pub title: String,
    pub file_name: String,
    pub file_url: String,
    pub file_size: i32,
    pub page_count: Option<i32>,
    pub processing_status: String,
    pub created_at: String,
}

/// The documents of one owner.
#[derive(Debug)]
pub struct DocumentListResponse {
    pub documents: Vec<DocumentResponse>,
}

/// A question, the document to look in where there is one, and the number
/// of passages wanted.
#[derive(Debug)]
pub struct SearchRequest {
    pub query: String,
    pub document_id: Option<String>,
    pub limit: u64,
}

/// One passage of an answer. The score is carried as the bits of its 32-bit
/// floating-point value.
#[derive(Debug)]
pub struct SearchResultItem {
    pub document_id: String,
    pub chunk_id: String,
    pub content: String,
    pub score_bits: u32,
}

/// The passages found, best first.
#[derive(Debug)]
pub struct SearchResponse {
    pub results: Vec<SearchResultItem>,
}

/// The message of a failed request.
#[derive(Debug)]
pub struct ErrorResponse {
    pub error: String,
}

/// The number of hits a search returns when the request names no limit.
pub open spec fn spec_default_limit() -> u64 {
    5
}

/// Limit applied to a search request that does not carry one.
pub fn default_limit() -> (limit: u64)
    ensures
        limit == spec_default_limit(),
{
    5
}

impl SearchRequest {
    /// A request with the limit it names, or the default where it names
    /// none.
    pub fn new(query: String, document_id: Option<String>, limit: Option<u64>) -> (request:
        SearchRequest)
        ensures
            request.query == query,
            request.document_id == document_id,
            request.limit == match limit {
                Some(n) => n,
                None => spec_default_limit(),
            },
    {
        let limit = match limit {
            Some(n) => n,
            None => default_limit(),
        };
        SearchRequest { query, document_id, limit }
    }
}

} // verus!
