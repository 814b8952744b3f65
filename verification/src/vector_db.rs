use crate::ids::{id_text, lemma_identifier_texts_differ, uuid_text};
use crate::ingest::IndexPoint;
use crate::text::{integer_text, render_integer};
use vstd::prelude::*;

verus! {

broadcast use vstd::string::group_string_axioms;

/// Dimension of the vectors of the embedding model.
pub const VECTOR_SIZE: u64 = 384;

/// How the index measures the likeness of two vectors.
#[derive(Clone, Copy, Debug, PartialEq, Eq, Structural)]
pub enum Distance {
    Cosine,
}

/// A collection that has to be created.
#[derive(Debug)]
pub struct CollectionPlan {
    pub name: String,
    pub size: u64,
    pub distance: Distance,
}

/// What a point carries beside its vector: enough to filter by document and
/// to answer a search without a second lookup.
#[derive(Debug)]
pub struct ChunkPayload {
    pub document_id: String,
    pub chunk_id: String,
    pub content: String,
}

/// A value of a payload as the index hands it back.
#[derive(Debug)]
pub enum PayloadValue {
    Text(String),
    Integer(i64),
    /// A floating-point number: the bits of its 64-bit value, and its
    /// decimal notation.
    Double { bits: u64, shown: String },
    Bool(bool),
    /// Null, a list, a structure, or no value at all.
    Other,
}

/// One entry of a payload.
#[derive(Debug)]
pub struct PayloadField {
    pub key: String,
    pub value: PayloadValue,
}

/// A point to be written: identified by its chunk, with the vector that the
/// embedding service returned at position `vector`.
#[derive(Debug)]
pub struct PointPlan {
    pub id: String,
    pub vector: usize,
    pub payload: ChunkPayload,
}

/// The condition that a payload field equals a keyword.
#[derive(Debug)]
pub struct DocumentFilter {
    pub key: String,
    pub keyword: String,
}

/// The points of one document, to be written to a collection in one call.
#[derive(Debug)]
pub struct UpsertPlan {
    pub collection: String,
    pub points: Vec<PointPlan>,
}

/// The points that meet a condition, to be deleted from a collection.
#[derive(Debug)]
pub struct DeletePlan {
    pub collection: String,
    pub filter: DocumentFilter,
}

/// A nearest-neighbour query, but for its vector.
#[derive(Debug)]
pub struct SearchPlan {
    pub collection: String,
    pub limit: u64,
    pub with_payload: bool,
    pub filter: Option<DocumentFilter>,
}

/// A hit as the index returns it. The score is carried as the bits of its
/// 32-bit floating-point value.
#[derive(Debug)]
pub struct ScoredHit {
    pub payload: Vec<PayloadField>,
    pub score_bits: u32,
}

/// A hit as a search answers it.
#[derive(Debug, Clone)]
pub struct SearchResult {
    pub chunk_id: String,
    pub document_id: String,
    pub content: String,
    pub score_bits: u32,
}

/// Name of the collection that holds the chunks of all documents.
pub open spec fn collection_name() -> Seq<char> {
    "documents"@
}

/// Key of the payload field that names the document of a point.
pub open spec fn document_key() -> Seq<char> {
    "document_id"@
}

/// Key of the payload field that names the chunk of a point.
pub open spec fn chunk_key() -> Seq<char> {
    "chunk_id"@
}

/// Key of the payload field that holds the text of a point.
pub open spec fn content_key() -> Seq<char> {
    "content"@
}

/// Position of the first field with the given key, or the number of fields
/// where none has it.
pub open spec fn position_of(fields: Seq<PayloadField>, key: Seq<char>) -> int
    decreases fields.len(),
{
    if fields.len() == 0 {
        0
    } else if fields[0].key@ == key {
        0
    } else {
        1 + position_of(fields.drop_first(), key)
    }
}

/// Whether `text` is how a search shows the field at `at`: a text as it
/// is, a number in decimal notation, a truth value as `true` or `false`, and
/// anything else, or no field, as the empty text.
pub open spec fn shows(fields: Seq<PayloadField>, at: int, text: String) -> bool {
    if 0 <= at < fields.len() {
        match fields[at].value {
            PayloadValue::Text(s) => text@ == s@,
            PayloadValue::Integer(i) => text@ == integer_text(i as int),
            PayloadValue::Double { bits, shown } => text@ == shown@,
            PayloadValue::Bool(b) => text@ == if b {
                "true"@
            } else {
                "false"@
            },
            PayloadValue::Other => text@.len() == 0,
        }
    } else {
        text@.len() == 0
    }
}

/// Whether `result` is the answer made from `hit`: the three texts read
/// from the payload, and the score as it came.
pub open spec fn answers(hit: ScoredHit, result: SearchResult) -> bool {
    &&& shows(hit.payload@, position_of(hit.payload@, chunk_key()), result.chunk_id)
    &&& shows(hit.payload@, position_of(hit.payload@, document_key()), result.document_id)
    &&& shows(hit.payload@, position_of(hit.payload@, content_key()), result.content)
    &&& result.score_bits == hit.score_bits
}

/// Whether `plan` is the point for the stored chunk `point` of `document`.
pub open spec fn is_point_for(plan: PointPlan, document: u128, point: IndexPoint) -> bool {
    &&& plan.id@ == uuid_text(point.chunk_id)
    &&& plan.vector == point.chunk_index
    &&& plan.payload.document_id@ == uuid_text(document)
    &&& plan.payload.chunk_id@ == uuid_text(point.chunk_id)
    &&& plan.payload.content@ == point.content@
}

/// Whether `filter` selects the points of `document` and no others.
pub open spec fn selects_document(filter: DocumentFilter, document: u128) -> bool {
    filter.key@ == document_key() && filter.keyword@ == uuid_text(document)
}

/// Whether `fields` are the payload `payload`, field by field.
pub open spec fn is_payload_of(fields: Seq<PayloadField>, payload: ChunkPayload) -> bool {
    &&& fields.len() == 3
    &&& fields[0].key@ == document_key()
    &&& fields[0].value == PayloadValue::Text(payload.document_id)
    &&& fields[1].key@ == chunk_key()
    &&& fields[1].value == PayloadValue::Text(payload.chunk_id)
    &&& fields[2].key@ == content_key()
    &&& fields[2].value == PayloadValue::Text(payload.content)
}

/// The three keys differ from one another.
pub proof fn lemma_keys_differ()
    ensures
        document_key() != chunk_key(),
        document_key() != content_key(),
        chunk_key() != content_key(),
{
    reveal_strlit("document_id");
    reveal_strlit("chunk_id");
    reveal_strlit("content");
    assert("document_id"@.len() == 11);
    assert("chunk_id"@.len() == 8);
    assert("content"@.len() == 7);
}

/// What goes into the index comes out again: an answer made from the
/// payload fields of a point names the chunk, the document and the text of
/// that point.
pub proof fn lemma_payload_round_trip(hit: ScoredHit, payload: ChunkPayload, result: SearchResult)
    requires
        is_payload_of(hit.payload@, payload),
        answers(hit, result),
    ensures
        result.chunk_id@ == payload.chunk_id@,
        result.document_id@ == payload.document_id@,
        result.content@ == payload.content@,
{
    lemma_keys_differ();
    let f = hit.payload@;
    assert(position_of(f, document_key()) == 0);
    let f1 = f.drop_first();
    let f2 = f1.drop_first();
    assert(f1[0] == f[1]);
    assert(f2[0] == f[2]);
    assert(position_of(f1, chunk_key()) == 0);
    assert(position_of(f, chunk_key()) == 1);
    assert(position_of(f2, content_key()) == 0);
    assert(position_of(f1, content_key()) == 1);
    assert(position_of(f, content_key()) == 2);
}

/// Whether a point with the payload `fields` meets the condition: its field
/// under the key of the condition is a text, and that text is the keyword.
pub open spec fn meets(fields: Seq<PayloadField>, filter: DocumentFilter) -> bool {
    let at = position_of(fields, filter.key@);
    0 <= at < fields.len() && match fields[at].value {
        PayloadValue::Text(s) => s@ == filter.keyword@,
        _ => false,
    }
}

/// The condition made for a document is met by every point written for that
/// document and by no point written for another: a search confined to a
/// document, and the deletion of a document, reach its points only.
pub proof fn lemma_filter_isolates_documents(
    filter: DocumentFilter,
    wanted: u128,
    plan: PointPlan,
    written_for: u128,
    point: IndexPoint,
    fields: Seq<PayloadField>,
)
    requires
        selects_document(filter, wanted),
        is_point_for(plan, written_for, point),
        is_payload_of(fields, plan.payload),
    ensures
        meets(fields, filter) <==> wanted == written_for,
{
    assert(position_of(fields, document_key()) == 0);
    if wanted != written_for {
        lemma_identifier_texts_differ(wanted, written_for);
    }
}

/// Finds the first field with the given key.
pub fn find_field(fields: &Vec<PayloadField>, key: &str) -> (at: usize)
    ensures
        at == position_of(fields@, key@),
        at <= fields.len(),
{
    let wanted = key.to_owned();
    let mut i: usize = 0;
    assert(fields@.skip(0) =~= fields@);
    while i < fields.len()
        invariant
            i <= fields.len(),
            wanted@ == key@,
            position_of(fields@, key@) == i + position_of(fields@.skip(i as int), key@),
        decreases fields.len() - i,
    {
        let ghost rest = fields@.skip(i as int);
        assert(rest[0] == fields@[i as int]);
        assert(rest.drop_first() =~= fields@.skip(i + 1));
        if fields[i].key == wanted {
            return i;
        }
        i = i + 1;
    }
    i
}

/// Shows a payload field as text.
pub fn field_text(fields: &Vec<PayloadField>, key: &str) -> (text: String)
    ensures
        shows(fields@, position_of(fields@, key@), text),
{
    let at = find_field(fields, key);
    if at < fields.len() {
        match &fields[at].value {
            PayloadValue::Text(s) => s.clone(),
            PayloadValue::Integer(i) => render_integer(*i),
            PayloadValue::Double { bits, shown } => shown.clone(),
            PayloadValue::Bool(b) => if *b {
                "true".to_owned()
            } else {
                "false".to_owned()
            },
            PayloadValue::Other => String::new(),
        }
    } else {
        String::new()
    }
}

/// The one collection of the vector index and what is written to and read
/// from it.
#[derive(Debug)]
pub struct VectorDbService {
    pub collection_name: String,
}

impl VectorDbService {
    /// The service for the collection `documents`.
    pub fn new() -> (service: VectorDbService)
        ensures
            service.collection_name@ == collection_name(),
    {
        VectorDbService { collection_name: "documents".to_owned() }
    }

    /// Decides from the names of the collections that exist whether the
    /// collection has to be created: exactly when none of them is its name.
    /// Where it exists nothing is to be done.
    pub fn initialize_collection(&self, existing: &Vec<String>) -> (plan: Option<CollectionPlan>)
        ensures
            plan is None <==> exists|i: int|
                0 <= i < existing.len() && (#[trigger] existing@[i])@ == self.collection_name@,
            match plan {
                Some(p) => p.name@ == self.collection_name@ && p.size == VECTOR_SIZE && p.distance
                    == Distance::Cosine,
                None => true,
            },
    {
        let mut i: usize = 0;
        while i < existing.len()
            invariant
                i <= existing.len(),
                forall|j: int| 0 <= j < i ==> (#[trigger] existing@[j])@ != self.collection_name@,
            decreases existing.len() - i,
        {
            if existing[i] == self.collection_name {
                return None;
            }
            i = i + 1;
        }
        Some(
            CollectionPlan {
                name: self.collection_name.clone(),
                size: VECTOR_SIZE,
                distance: Distance::Cosine,
            },
        )
    }

    /// The payload of a point as the fields that the index stores.
    pub fn payload_fields(payload: &ChunkPayload) -> (fields: Vec<PayloadField>)
        ensures
            is_payload_of(fields@, *payload),
    {
        let mut fields: Vec<PayloadField> = Vec::new();
        fields.push(
            PayloadField {
                key: "document_id".to_owned(),
                value: PayloadValue::Text(payload.document_id.clone()),
            },
        );
        fields.push(
            PayloadField {
                key: "chunk_id".to_owned(),
                value: PayloadValue::Text(payload.chunk_id.clone()),
            },
        );
        fields.push(
            PayloadField {
                key: "content".to_owned(),
                value: PayloadValue::Text(payload.content.clone()),
            },
        );
        fields
    }

    /// What is written for the stored chunks of a document: into the
    /// collection of the service, one point per chunk and in the same order,
    /// each under the identifier of its chunk, with a payload that names
    /// document and chunk and holds the text.
    pub fn store_chunks(&self, document_id: u128, chunks: &Vec<IndexPoint>) -> (plan: UpsertPlan)
        ensures
            plan.collection@ == self.collection_name@,
            plan.points.len() == chunks.len(),
            forall|i: int|
                0 <= i < chunks.len() ==> is_point_for(
                    #[trigger] plan.points@[i],
                    document_id,
                    chunks@[i],
                ),
    {
        let mut points: Vec<PointPlan> = Vec::new();
        let mut i: usize = 0;
        while i < chunks.len()
            invariant
                i <= chunks.len(),
                points.len() == i,
                forall|j: int|
                    0 <= j < i ==> is_point_for(#[trigger] points@[j], document_id, chunks@[j]),
            decreases chunks.len() - i,
        {
            let chunk = &chunks[i];
            let ghost before = points@;
            points.push(
                PointPlan {
                    id: id_text(chunk.chunk_id),
                    vector: chunk.chunk_index,
                    payload: ChunkPayload {
                        document_id: id_text(document_id),
                        chunk_id: id_text(chunk.chunk_id),
                        content: chunk.content.clone(),
                    },
                },
            );
            assert forall|j: int| 0 <= j < i + 1 implies is_point_for(
                #[trigger] points@[j],
                document_id,
                chunks@[j],
            ) by {
                if j < i {
                    assert(points@[j] == before[j]);
                }
            }
            i = i + 1;
        }
        UpsertPlan { collection: self.collection_name.clone(), points }
    }

    /// The condition that selects the points of one document.
    pub fn document_filter(document_id: u128) -> (filter: DocumentFilter)
        ensures
            selects_document(filter, document_id),
    {
        DocumentFilter { key: "document_id".to_owned(), keyword: id_text(document_id) }
    }

    /// The query for the `limit` nearest points, with their payloads; among
    /// the points of one document where one is given, among all otherwise.
    pub fn search(&self, limit: u64, document_id: Option<u128>) -> (plan: SearchPlan)
        ensures
            plan.collection@ == self.collection_name@,
            plan.limit == limit,
            plan.with_payload,
            match document_id {
                Some(id) => plan.filter is Some && selects_document(plan.filter->0, id),
                None => plan.filter is None,
            },
    {
        let filter = match document_id {
            Some(id) => Some(Self::document_filter(id)),
            None => None,
        };
        SearchPlan {
            collection: self.collection_name.clone(),
            limit,
            with_payload: true,
            filter,
        }
    }

    /// The answer made from one hit.
    pub fn read_hit(hit: &ScoredHit) -> (result: SearchResult)
        ensures
            answers(*hit, result),
    {
        SearchResult {
            chunk_id: field_text(&hit.payload, "chunk_id"),
            document_id: field_text(&hit.payload, "document_id"),
            content: field_text(&hit.payload, "content"),
            score_bits: hit.score_bits,
        }
    }

    /// The answers made from the hits of a search, one per hit and in the
    /// order in which the index returned them.
    pub fn read_hits(hits: &Vec<ScoredHit>) -> (results: Vec<SearchResult>)
        ensures
            results.len() == hits.len(),
            forall|i: int| 0 <= i < hits.len() ==> answers(hits@[i], #[trigger] results@[i]),
    {
        let mut results: Vec<SearchResult> = Vec::new();
        let mut i: usize = 0;
        while i < hits.len()
            invariant
                i <= hits.len(),
                results.len() == i,
                forall|j: int| 0 <= j < i ==> answers(hits@[j], #[trigger] results@[j]),
            decreases hits.len() - i,
        {
            let ghost before = results@;
            results.push(Self::read_hit(&hits[i]));
            assert forall|j: int| 0 <= j < i + 1 implies answers(
                hits@[j],
                #[trigger] results@[j],
            ) by {
                if j < i {
                    assert(results@[j] == before[j]);
                }
            }
            i = i + 1;
        }
        results
    }

    /// What is deleted when a document goes: from the collection of the
    /// service, every point of that document, and no other.
    pub fn delete_document_chunks(&self, document_id: u128) -> (plan: DeletePlan)
        ensures
            plan.collection@ == self.collection_name@,
            selects_document(plan.filter, document_id),
    {
        DeletePlan {
            collection: self.collection_name.clone(),
            filter: Self::document_filter(document_id),
        }
    }
}

} // verus!
