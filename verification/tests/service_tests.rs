use selfstudyai_api::document::DocumentService;
use selfstudyai_api::dto::SearchRequest;
use selfstudyai_api::embeddings::{EmbeddingError, EmbeddingService};
use selfstudyai_api::ids::{
    document_id_from, fresh_id, id_text, parse_document_id, ValidationError,
};
use selfstudyai_api::ingest::IndexPoint;
use selfstudyai_api::routes::{
    bearer_token, document_response, get_documents, plan_search, refuse, search_documents, search_response,
    search_scope, upload_document,
};
use selfstudyai_api::status::ProcessingStatus;
use selfstudyai_api::vector_db::{
    field_text, find_field, Distance, PayloadField, PayloadValue, ScoredHit, SearchResult,
    VectorDbService,
};

const DOC: u128 = 0x550e8400_e29b_41d4_a716_446655440000;
const DOC_TEXT: &str = "550e8400-e29b-41d4-a716-446655440000";

fn field(key: &str, value: PayloadValue) -> PayloadField {
    PayloadField { key: key.to_string(), value }
}

#[test]
fn identifiers_are_written_in_hyphenated_lower_case() {
    assert_eq!(id_text(DOC), DOC_TEXT);
    assert_eq!(id_text(0), "00000000-0000-0000-0000-000000000000");
    assert_eq!(id_text(u128::MAX), "ffffffff-ffff-ffff-ffff-ffffffffffff");
    assert_eq!(
        id_text(0x0123456789abcdef_fedcba9876543210),
        "01234567-89ab-cdef-fedc-ba9876543210"
    );
}

#[test]
fn identifiers_are_read_back() {
    assert_eq!(parse_document_id(DOC_TEXT), Ok(DOC));
    assert_eq!(parse_document_id("550E8400E29B41D4A716446655440000"), Ok(DOC));
    assert_eq!(parse_document_id(&id_text(12345)), Ok(12345));
    assert_eq!(parse_document_id(""), Err(ValidationError::InvalidDocumentId));
    assert_eq!(parse_document_id("not-an-id"), Err(ValidationError::InvalidDocumentId));
    assert_eq!(
        parse_document_id("550e8400-e29b-41d4-a716-44665544000"),
        Err(ValidationError::InvalidDocumentId)
    );
}

#[test]
fn what_parsing_found_decides() {
    assert_eq!(document_id_from(Some(7)), Ok(7));
    assert_eq!(document_id_from(None), Err(ValidationError::InvalidDocumentId));
}

#[test]
fn fresh_identifiers_differ() {
    assert_ne!(fresh_id(), fresh_id());
}

#[test]
fn fresh_identifiers_are_marked_as_random() {
    for _ in 0..64 {
        let id = fresh_id();
        assert_eq!((id >> 76) & 0xf, 4);
        assert_eq!((id >> 62) & 0x3, 2);
        let text = id_text(id);
        let digits: Vec<char> = text.chars().collect();
        assert_eq!(digits[14], '4');
        assert!(matches!(digits[19], '8' | '9' | 'a' | 'b'));
    }
    let record = DocumentService::create_document(
        7,
        "T".to_string(),
        "f".to_string(),
        "u".to_string(),
        1,
        "now".to_string(),
    );
    assert_eq!((record.id >> 76) & 0xf, 4);
    assert_eq!((record.id >> 62) & 0x3, 2);
}

#[test]
fn status_names_round_trip() {
    let all = vec![
        (ProcessingStatus::Pending, "pending"),
        (ProcessingStatus::Processing, "processing"),
        (ProcessingStatus::Completed, "completed"),
        (ProcessingStatus::Failed, "failed"),
    ];
    for (status, name) in all {
        assert_eq!(status.as_str(), name);
        assert_eq!(ProcessingStatus::parse(name), Some(status));
    }
    assert_eq!(ProcessingStatus::parse("Pending"), None);
    assert_eq!(ProcessingStatus::parse(""), None);
    assert_eq!(ProcessingStatus::parse("done"), None);
}

#[test]
fn status_moves_forward_only() {
    let pending = ProcessingStatus::Pending;
    let processing = ProcessingStatus::Processing;
    let completed = ProcessingStatus::Completed;
    let failed = ProcessingStatus::Failed;
    assert_eq!(pending.advance(processing), Some(processing));
    assert_eq!(processing.advance(completed), Some(completed));
    assert_eq!(processing.advance(failed), Some(failed));
    assert_eq!(pending.advance(completed), None);
    assert_eq!(pending.advance(failed), None);
    assert_eq!(pending.advance(pending), None);
    assert_eq!(processing.advance(pending), None);
    for next in vec![pending, processing, completed, failed] {
        assert_eq!(completed.advance(next), None);
        assert_eq!(failed.advance(next), None);
    }
    assert!(completed.terminal());
    assert!(failed.terminal());
    assert!(!pending.terminal());
    assert!(!processing.terminal());
}

#[test]
fn the_collection_is_created_only_where_it_is_missing() {
    let service = VectorDbService::new();
    assert_eq!(service.collection_name, "documents");
    let plan = service.initialize_collection(&vec![]).expect("nothing exists yet");
    assert_eq!(plan.name, "documents");
    assert_eq!(plan.size, 384);
    assert_eq!(plan.distance, Distance::Cosine);
    assert!(service
        .initialize_collection(&vec!["other".to_string(), "Documents".to_string()])
        .is_some());
    assert!(service
        .initialize_collection(&vec!["other".to_string(), "documents".to_string()])
        .is_none());
    assert!(service.initialize_collection(&vec!["documents".to_string()]).is_none());
}

#[test]
fn points_carry_document_chunk_and_text() {
    let service = VectorDbService::new();
    let chunks = vec![
        IndexPoint { chunk_id: 1, chunk_index: 0, content: "first".to_string() },
        IndexPoint { chunk_id: 2, chunk_index: 1, content: "second".to_string() },
    ];
    let plan = service.store_chunks(DOC, &chunks);
    assert_eq!(plan.collection, "documents");
    let points = plan.points;
    assert_eq!(points.len(), 2);
    assert_eq!(points[0].id, "00000000-0000-0000-0000-000000000001");
    assert_eq!(points[0].vector, 0);
    assert_eq!(points[0].payload.document_id, DOC_TEXT);
    assert_eq!(points[0].payload.chunk_id, "00000000-0000-0000-0000-000000000001");
    assert_eq!(points[0].payload.content, "first");
    assert_eq!(points[1].id, "00000000-0000-0000-0000-000000000002");
    assert_eq!(points[1].vector, 1);
    assert_eq!(points[1].payload.content, "second");
    let nothing = service.store_chunks(DOC, &vec![]);
    assert!(nothing.points.is_empty());
    assert_eq!(nothing.collection, "documents");

    let fields = VectorDbService::payload_fields(&points[0].payload);
    assert_eq!(fields.len(), 3);
    assert_eq!(fields[0].key, "document_id");
    assert_eq!(fields[1].key, "chunk_id");
    assert_eq!(fields[2].key, "content");
    assert_eq!(field_text(&fields, "document_id"), DOC_TEXT);
    assert_eq!(field_text(&fields, "content"), "first");
}

#[test]
fn a_search_is_confined_to_the_document_that_is_named() {
    let service = VectorDbService::new();
    let plan = service.search(3, Some(DOC));
    assert_eq!(plan.collection, "documents");
    assert_eq!(plan.limit, 3);
    assert!(plan.with_payload);
    let filter = plan.filter.expect("a filter for the document");
    assert_eq!(filter.key, "document_id");
    assert_eq!(filter.keyword, DOC_TEXT);
    let plan = service.search(1, None);
    assert!(plan.filter.is_none());
    assert_eq!(plan.limit, 1);
    let deletion = service.delete_document_chunks(DOC);
    assert_eq!(deletion.collection, "documents");
    assert_eq!(deletion.filter.key, "document_id");
    assert_eq!(deletion.filter.keyword, DOC_TEXT);
}

#[test]
fn a_filter_names_what_the_points_of_the_document_carry() {
    let service = VectorDbService::new();
    let a = service.store_chunks(
        DOC,
        &vec![IndexPoint { chunk_id: 1, chunk_index: 0, content: "a".to_string() }],
    );
    let b = service.store_chunks(
        DOC + 1,
        &vec![IndexPoint { chunk_id: 2, chunk_index: 0, content: "b".to_string() }],
    );
    let filter = VectorDbService::document_filter(DOC);
    assert_eq!(a.points[0].payload.document_id, filter.keyword);
    assert_ne!(b.points[0].payload.document_id, filter.keyword);
}

#[test]
fn hits_are_read_from_their_payload() {
    let hits = vec![
        ScoredHit {
            payload: vec![
                field("content", PayloadValue::Text("some text".to_string())),
                field("chunk_id", PayloadValue::Integer(-42)),
                field("document_id", PayloadValue::Bool(true)),
            ],
            score_bits: 0.5f32.to_bits(),
        },
        ScoredHit {
            payload: vec![
                field("chunk_id", PayloadValue::Double { bits: 1.5f64.to_bits(), shown: "1.5".to_string() }),
                field("document_id", PayloadValue::Other),
                field("chunk_id", PayloadValue::Text("second entry".to_string())),
            ],
            score_bits: 0.25f32.to_bits(),
        },
        ScoredHit { payload: vec![], score_bits: 0 },
    ];
    let results = VectorDbService::read_hits(&hits);
    assert_eq!(results.len(), 3);
    assert_eq!(results[0].content, "some text");
    assert_eq!(results[0].chunk_id, "-42");
    assert_eq!(results[0].document_id, "true");
    assert_eq!(f32::from_bits(results[0].score_bits), 0.5);
    assert_eq!(results[1].chunk_id, "1.5");
    assert_eq!(results[1].document_id, "");
    assert_eq!(results[1].content, "");
    assert_eq!(f32::from_bits(results[1].score_bits), 0.25);
    assert_eq!(results[2].chunk_id, "");
    assert_eq!(results[2].document_id, "");
    assert_eq!(results[2].content, "");
    let one = VectorDbService::read_hit(&hits[0]);
    assert_eq!(one.chunk_id, "-42");
    assert_eq!(
        field_text(&vec![field("flag", PayloadValue::Bool(false))], "flag"),
        "false"
    );
    assert_eq!(
        field_text(&vec![field("n", PayloadValue::Integer(i64::MIN))], "n"),
        "-9223372036854775808"
    );
}

#[test]
fn the_first_field_with_a_key_is_found() {
    let fields = vec![
        field("a", PayloadValue::Other),
        field("b", PayloadValue::Other),
        field("a", PayloadValue::Bool(true)),
    ];
    assert_eq!(find_field(&fields, "a"), 0);
    assert_eq!(find_field(&fields, "b"), 1);
    assert_eq!(find_field(&fields, "c"), 3);
    assert_eq!(find_field(&vec![], "a"), 0);
}

#[test]
fn a_request_without_limit_asks_for_five() {
    let request = SearchRequest::new("q".to_string(), None, None);
    assert_eq!(request.limit, 5);
    assert_eq!(request.query, "q");
    assert_eq!(request.document_id, None);
    let request = SearchRequest::new("q".to_string(), Some("x".to_string()), Some(9));
    assert_eq!(request.limit, 9);
    assert_eq!(request.document_id, Some("x".to_string()));
}

#[test]
fn a_search_is_planned_from_the_request() {
    let service = VectorDbService::new();
    let request = SearchRequest::new("what is it".to_string(), Some(DOC_TEXT.to_string()), None);
    assert_eq!(search_scope(&request), Ok(Some(DOC)));
    let plan = search_documents(&service, &request, Ok(())).expect("a plan");
    assert_eq!(plan.limit, 5);
    assert_eq!(plan.collection, "documents");
    assert_eq!(plan.filter.expect("a filter").keyword, DOC_TEXT);

    let request = SearchRequest::new("what is it".to_string(), None, Some(2));
    assert_eq!(search_scope(&request), Ok(None));
    let plan = search_documents(&service, &request, Ok(())).expect("a plan");
    assert_eq!(plan.limit, 2);
    assert!(plan.filter.is_none());
}

#[test]
fn a_reference_that_is_no_identifier_is_a_bad_request() {
    let service = VectorDbService::new();
    let request = SearchRequest::new("q".to_string(), Some("nonsense".to_string()), None);
    assert_eq!(search_scope(&request), Err(ValidationError::InvalidDocumentId));
    let reply = search_documents(&service, &request, Ok(())).expect_err("a refusal");
    assert_eq!(reply.status, 400);
    assert_eq!(reply.body.error, "Invalid document_id format");
}

#[test]
fn a_failed_embedding_is_answered_before_the_reference_is_read() {
    let service = VectorDbService::new();
    let request = SearchRequest::new("q".to_string(), Some("nonsense".to_string()), None);
    let reply = search_documents(&service, &request, Err("timeout".to_string()))
        .expect_err("a refusal");
    assert_eq!(reply.status, 500);
    assert_eq!(reply.body.error, "Failed to generate query embedding: timeout");
    let reply = plan_search(&service, 5, Err("x".to_string()), Ok(None)).expect_err("a refusal");
    assert_eq!(reply.status, 500);
    let reply = refuse(418, "short and ", "stout");
    assert_eq!(reply.status, 418);
    assert_eq!(reply.body.error, "short and stout");
}

#[test]
fn hits_are_answered_unchanged_and_in_order() {
    let hits = vec![
        SearchResult {
            chunk_id: "c1".to_string(),
            document_id: "d1".to_string(),
            content: "one".to_string(),
            score_bits: 0.9f32.to_bits(),
        },
        SearchResult {
            chunk_id: "c2".to_string(),
            document_id: "d2".to_string(),
            content: "two".to_string(),
            score_bits: 0.1f32.to_bits(),
        },
    ];
    let answer = search_response(Ok(hits)).expect("an answer");
    assert_eq!(answer.status, 200);
    let response = answer.body;
    assert_eq!(response.results.len(), 2);
    assert_eq!(response.results[0].chunk_id, "c1");
    assert_eq!(response.results[0].document_id, "d1");
    assert_eq!(response.results[0].content, "one");
    assert_eq!(f32::from_bits(response.results[0].score_bits), 0.9);
    assert_eq!(response.results[1].chunk_id, "c2");
    assert_eq!(f32::from_bits(response.results[1].score_bits), 0.1);
    let reply = search_response(Err("index down".to_string())).expect_err("a refusal");
    assert_eq!(reply.status, 500);
    assert_eq!(reply.body.error, "Search failed: index down");
    let empty = search_response(Ok(vec![])).expect("an answer");
    assert_eq!(empty.status, 200);
    assert!(empty.body.results.is_empty());
}

#[test]
fn documents_are_shown_with_their_status_name() {
    let mut record = DocumentService::new_document(
        DOC,
        7,
        "Title".to_string(),
        "file.pdf".to_string(),
        "https://example.org/file.pdf".to_string(),
        1234,
        "2024-01-02 03:04:05".to_string(),
    );
    let shown = document_response(&record);
    assert_eq!(shown.id, DOC_TEXT);
    assert_eq!(shown.title, "Title");
    assert_eq!(shown.file_name, "file.pdf");
    assert_eq!(shown.file_url, "https://example.org/file.pdf");
    assert_eq!(shown.file_size, 1234);
    assert_eq!(shown.page_count, None);
    assert_eq!(shown.processing_status, "pending");
    assert_eq!(shown.created_at, "2024-01-02 03:04:05");
    record.processing_status = ProcessingStatus::Completed;
    record.page_count = Some(12);
    let answer = get_documents(Ok(vec![record])).expect("a listing");
    assert_eq!(answer.status, 200);
    let listed = answer.body;
    assert_eq!(listed.documents.len(), 1);
    assert_eq!(listed.documents[0].processing_status, "completed");
    assert_eq!(listed.documents[0].page_count, Some(12));
    let reply = get_documents(Err("db down".to_string())).expect_err("a refusal");
    assert_eq!(reply.status, 500);
    assert_eq!(reply.body.error, "Failed to fetch documents: db down");
}

#[test]
fn an_upload_is_answered_with_the_new_document() {
    let record = DocumentService::new_document(
        DOC,
        7,
        "T".to_string(),
        "f".to_string(),
        "u".to_string(),
        1,
        "now".to_string(),
    );
    let answer = upload_document(Ok(record)).expect("an answer");
    assert_eq!(answer.status, 201);
    let shown = answer.body;
    assert_eq!(shown.id, DOC_TEXT);
    assert_eq!(shown.processing_status, "pending");
    let reply = upload_document(Err("db down".to_string())).expect_err("a refusal");
    assert_eq!(reply.status, 500);
    assert_eq!(reply.body.error, "Failed to create document: db down");
}

#[test]
fn the_embedding_call_is_signed_with_the_key() {
    let service = EmbeddingService::new("SECRET-KEY".to_string());
    assert_eq!(
        service.api_url,
        "https://api-inference.huggingface.co/models/sentence-transformers/all-MiniLM-L6-v2"
    );
    let call = service.get_embedding("hello");
    assert_eq!(call.url, service.api_url);
    assert_eq!(call.authorization, "Bearer SECRET-KEY");
    assert_eq!(call.body.inputs, "hello");
}

#[test]
fn an_embedding_answer_is_used_only_where_it_holds_a_vector() {
    assert!(matches!(EmbeddingService::read_response(200, Some(1), String::new()), Ok(0)));
    assert!(matches!(EmbeddingService::read_response(200, Some(3), String::new()), Ok(0)));
    assert!(matches!(
        EmbeddingService::read_response(200, Some(0), String::new()),
        Err(EmbeddingError::NoVector)
    ));
    assert!(matches!(
        EmbeddingService::read_response(200, None, String::new()),
        Err(EmbeddingError::Malformed)
    ));
    match EmbeddingService::read_response(503, Some(1), "loading".to_string()) {
        Err(EmbeddingError::Status { code, body }) => {
            assert_eq!(code, 503);
            assert_eq!(body, "loading");
        }
        other => panic!("unexpected outcome: {:?}", other),
    }
}

#[test]
fn a_batch_is_used_only_with_one_vector_per_text() {
    assert!(matches!(
        EmbeddingService::read_batch_response(200, 3, Some(3), String::new()),
        Ok(3)
    ));
    assert!(matches!(
        EmbeddingService::read_batch_response(200, 1, Some(1), String::new()),
        Ok(1)
    ));
    for received in vec![1usize, 2, 4, 100] {
        match EmbeddingService::read_batch_response(200, 3, Some(received), String::new()) {
            Err(EmbeddingError::CountMismatch { sent, received: got }) => {
                assert_eq!(sent, 3);
                assert_eq!(got, received);
            }
            other => panic!("unexpected outcome: {:?}", other),
        }
    }
    assert!(matches!(
        EmbeddingService::read_batch_response(200, 3, Some(0), String::new()),
        Err(EmbeddingError::NoVector)
    ));
    assert!(matches!(
        EmbeddingService::read_batch_response(200, 0, Some(0), String::new()),
        Err(EmbeddingError::NoVector)
    ));
    assert!(matches!(
        EmbeddingService::read_batch_response(200, 3, None, String::new()),
        Err(EmbeddingError::Malformed)
    ));
    assert!(matches!(
        EmbeddingService::read_batch_response(404, 3, Some(3), String::new()),
        Err(EmbeddingError::Status { .. })
    ));
}

#[test]
fn a_batch_call_holds_every_text_in_order() {
    let service = EmbeddingService::new("K".to_string());
    let texts = vec!["a".to_string(), "b".to_string(), "c".to_string()];
    let call = service.get_embeddings(&texts);
    assert_eq!(call.inputs, texts);
    assert_eq!(call.url, service.api_url);
    assert_eq!(call.authorization, "Bearer K");
    let reordered = vec!["c".to_string(), "a".to_string(), "b".to_string()];
    assert_eq!(service.get_embeddings(&reordered).inputs, reordered);
    assert!(service.get_embeddings(&vec![]).inputs.is_empty());
}

#[test]
fn the_token_follows_the_bearer_prefix() {
    assert_eq!(bearer_token("Bearer abc.def.ghi"), Some("abc.def.ghi".to_string()));
    assert_eq!(bearer_token("Bearer "), Some(String::new()));
    assert_eq!(bearer_token("Bearer  x"), Some(" x".to_string()));
    assert_eq!(bearer_token("bearer abc"), None);
    assert_eq!(bearer_token("Bearer"), None);
    assert_eq!(bearer_token("Basic abc"), None);
    assert_eq!(bearer_token(""), None);
    assert_eq!(bearer_token("Bearer t\u{e9}"), Some("t\u{e9}".to_string()));
}
