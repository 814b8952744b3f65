use vstd::prelude::*;
use vstd::string::StringExecFns;

verus! {

/// The body of a call to the embedding model: the text to embed.
#[derive(Debug)]
pub struct EmbeddingRequest {
    pub inputs: String,
}

/// A call to the embedding model, ready to be sent.
#[derive(Debug)]
pub struct EmbeddingCall {
    pub url: String,
    pub authorization: String,
    pub body: EmbeddingRequest,
}

/// A call to the embedding model for several texts at once, ready to be
/// sent. The model answers with one vector per text, in the order of the
/// texts.
#[derive(Debug)]
pub struct EmbeddingBatchCall {
    pub url: String,
    pub authorization: String,
    pub inputs: Vec<String>,
}

/// Why a text has no vector.
#[derive(Debug)]
pub enum EmbeddingError {
    /// The model service answered with another status than success.
    Status { code: u16, body: String },
    /// The answer could not be read as a list of vectors.
    Malformed,
    /// The answer holds no vector.
    NoVector,
    /// The answer to a batch does not hold one vector per text.
    CountMismatch { sent: usize, received: usize },
}

/// Address of the model service, up to the name of the model.
pub open spec fn models_url() -> Seq<char> {
    "https://api-inference.huggingface.co/models/"@
}

/// Name of the embedding model.
pub open spec fn model_id() -> Seq<char> {
    "sentence-transformers/all-MiniLM-L6-v2"@
}

/// What comes before the key in the authorization header.
pub open spec fn bearer() -> Seq<char> {
    "Bearer "@
}

/// The status with which the model service reports success.
pub const STATUS_OK: u16 = 200;

/// What an answer of the model service means: the position of the vector to
/// use, or the failure. `vectors` is the number of vectors in the body, and
/// `None` where the body cannot be read.
pub open spec fn response_outcome(status: u16, vectors: Option<usize>, body: String) -> Result<
    usize,
    EmbeddingError,
> {
    if status != STATUS_OK {
        Err(EmbeddingError::Status { code: status, body })
    } else {
        match vectors {
            None => Err(EmbeddingError::Malformed),
            Some(n) => if n == 0 {
                Err(EmbeddingError::NoVector)
            } else {
                Ok(0usize)
            },
        }
    }
}

/// What an answer to a batch of `sent` texts means: the number of vectors,
/// which stand in the order of the texts, or the failure of the whole batch.
/// The batch succeeds only with one vector per text and at least one; an
/// empty answer, like any other that does not match, fails all of it.
pub open spec fn batch_outcome(
    status: u16,
    sent: usize,
    vectors: Option<usize>,
    body: String,
) -> Result<usize, EmbeddingError> {
    if status != STATUS_OK {
        Err(EmbeddingError::Status { code: status, body })
    } else {
        match vectors {
            None => Err(EmbeddingError::Malformed),
            Some(n) => if n == 0 {
                Err(EmbeddingError::NoVector)
            } else if n != sent {
                Err(EmbeddingError::CountMismatch { sent, received: n })
            } else {
                Ok(n)
            },
        }
    }
}

/// A batch succeeds exactly when the service reports success and answers
/// with as many vectors as texts were sent, and then the count is that
/// number: vector `i` belongs to text `i`.
pub proof fn lemma_batch_pairs_every_text(
    status: u16,
    sent: usize,
    vectors: Option<usize>,
    body: String,
)
    ensures
        batch_outcome(status, sent, vectors, body) is Ok <==> status == STATUS_OK && sent > 0
            && vectors == Some(sent),
        batch_outcome(status, sent, vectors, body) is Ok ==> batch_outcome(
            status,
            sent,
            vectors,
            body,
        )->Ok_0 == sent,
{
}

/// The client of the embedding model.
#[derive(Debug)]
pub struct EmbeddingService {
    pub api_url: String,
    pub api_key: String,
}

impl EmbeddingService {
    /// A client that signs its calls with `api_key`.
    pub fn new(api_key: String) -> (service: EmbeddingService)
        ensures
            service.api_url@ == models_url() + model_id(),
            service.api_key == api_key,
    {
        let mut api_url = "https://api-inference.huggingface.co/models/".to_owned();
        api_url.append("sentence-transformers/all-MiniLM-L6-v2");
        EmbeddingService { api_url, api_key }
    }

    /// The call that asks for the vector of `text`.
    pub fn get_embedding(&self, text: &str) -> (call: EmbeddingCall)
        ensures
            call.url@ == self.api_url@,
            call.authorization@ == bearer() + self.api_key@,
            call.body.inputs@ == text@,
    {
        let mut authorization = "Bearer ".to_owned();
        authorization.append(self.api_key.as_str());
        EmbeddingCall {
            url: self.api_url.clone(),
            authorization,
            body: EmbeddingRequest { inputs: text.to_owned() },
        }
    }

    /// The call that asks for the vectors of `texts`: every text, once, in
    /// the order given.
    pub fn get_embeddings(&self, texts: &Vec<String>) -> (call: EmbeddingBatchCall)
        ensures
            call.url@ == self.api_url@,
            call.authorization@ == bearer() + self.api_key@,
            call.inputs@ == texts@,
    {
        let mut authorization = "Bearer ".to_owned();
        authorization.append(self.api_key.as_str());
        let mut inputs: Vec<String> = Vec::new();
        let mut i: usize = 0;
        while i < texts.len()
            invariant
                i <= texts.len(),
                inputs@ == texts@.take(i as int),
            decreases texts.len() - i,
        {
            inputs.push(texts[i].clone());
            assert(inputs@ =~= texts@.take(i + 1));
            i = i + 1;
        }
        assert(texts@.take(texts.len() as int) =~= texts@);
        EmbeddingBatchCall { url: self.api_url.clone(), authorization, inputs }
    }

    /// Reads the answer to a call for one text: on success the first vector
    /// of the body is the one to use.
    pub fn read_response(status: u16, vectors: Option<usize>, body: String) -> (outcome: Result<
        usize,
        EmbeddingError,
    >)
        ensures
            outcome == response_outcome(status, vectors, body),
    {
        if status != STATUS_OK {
            Err(EmbeddingError::Status { code: status, body })
        } else {
            match vectors {
                None => Err(EmbeddingError::Malformed),
                Some(n) => if n == 0 {
                    Err(EmbeddingError::NoVector)
                } else {
                    Ok(0)
                },
            }
        }
    }

    /// Reads the answer to a call for a batch of `sent` texts: any failure,
    /// and any answer that does not hold one vector per text, fails the
    /// whole batch.
    pub fn read_batch_response(
        status: u16,
        sent: usize,
        vectors: Option<usize>,
        body: String,
    ) -> (outcome: Result<usize, EmbeddingError>)
        ensures
            outcome == batch_outcome(status, sent, vectors, body),
    {
        if status != STATUS_OK {
            Err(EmbeddingError::Status { code: status, body })
        } else {
            match vectors {
                None => Err(EmbeddingError::Malformed),
                Some(n) => if n == 0 {
                    Err(EmbeddingError::NoVector)
                } else if n != sent {
                    Err(EmbeddingError::CountMismatch { sent, received: n })
                } else {
                    Ok(n)
                },
            }
        }
    }
}

} // verus!
