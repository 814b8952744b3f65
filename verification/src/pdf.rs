use crate::chunker::{chunk_count, chunk_text, chunks_of_text};
use crate::text::{string_views, trim, trimmed, words};
use vstd::prelude::*;
use vstd::utf8::encode_utf8;

verus! {

/// A parsed PDF file, as `lopdf` holds it.
#[verifier::external_type_specification]
#[verifier::external_body]
pub struct ExPdfDocument(lopdf::Document);

/// The error with which `lopdf` refuses a file or a page.
#[verifier::external_type_specification]
#[verifier::external_body]
pub struct ExPdfError(lopdf::Error);

/// Why no text could be taken from an upload.
#[derive(Debug)]
pub enum ExtractionError {
    /// The bytes are not a PDF document that can be loaded.
    LoadFailed { cause: String },
}

/// `lopdf::Document::load_from` on an in-memory reader: parses `bytes` as a
/// PDF file. That the call returns for every input rests on the parser,
/// which reports what it cannot read as an error; it has not been shown
/// that it never panics. Nothing is claimed about which bytes are accepted,
/// nor that the same bytes always give the same document: larger files are
/// parsed on several threads, and where two object streams hold the same
/// object, which of the two stays depends on the order in which the threads
/// finish.
#[verifier::external_body]
fn load_document(bytes: &[u8]) -> (loaded: Result<lopdf::Document, lopdf::Error>) {
    lopdf::Document::load_from(std::io::Cursor::new(bytes))
}

/// The keys of `lopdf::Document::get_pages`: the page numbers of the
/// document, ascending. Nothing is claimed about how many there are.
#[verifier::external_body]
fn page_numbers(doc: &lopdf::Document) -> (pages: Vec<u32>) {
    doc.get_pages().keys().copied().collect()
}

/// `lopdf::Document::extract_text` on a single page: the text of that page,
/// or nothing where the page cannot be decoded. That the call returns for
/// every document and page rests on the decoder, which reports what it
/// cannot read as an error; it has not been shown that it never panics.
/// Nothing is claimed about the text.
#[verifier::external_body]
fn page_text(doc: &lopdf::Document, page: u32) -> (text: Option<String>) {
    doc.extract_text(&[page]).ok()
}

/// The message of a `lopdf::Error`, through its `Display`.
#[verifier::external_body]
fn error_text(err: &lopdf::Error) -> (text: String) {
    err.to_string()
}

/// The texts of the pages that could be read, each followed by a line feed.
pub open spec fn pages_text(pages: Seq<Option<String>>) -> Seq<char>
    decreases pages.len(),
{
    if pages.len() == 0 {
        Seq::empty()
    } else {
        let before = pages_text(pages.drop_last());
        match pages.last() {
            Some(t) => before + t@ + seq!['\n'],
            None => before,
        }
    }
}

/// Length in bytes of the UTF-8 encoding of `text`.
pub open spec fn byte_len(text: Seq<char>) -> usize {
    encode_utf8(text).len() as usize
}

/// A quarter of the length of `text` in bytes, rounded down and cut to 32
/// bits: a cheap stand-in for a tokenizer.
pub open spec fn token_estimate(text: Seq<char>) -> i32 {
    (byte_len(text) / 4) as i32
}

/// Window, in words, of the chunks of an uploaded document.
pub const CHUNK_WORDS: usize = 500;

/// Words that a chunk repeats from the chunk before it.
pub const CHUNK_OVERLAP: usize = 50;

/// Text handling for uploaded PDF files.
pub struct PdfService;

impl PdfService {
    /// Puts the page texts of a document together: every readable page
    /// followed by a line feed, the whole without surrounding whitespace.
    pub fn assemble_text(pages: &Vec<Option<String>>) -> (text: String)
        ensures
            text@ == trimmed(pages_text(pages@)),
    {
        let mut all = String::new();
        let mut i: usize = 0;
        assert(pages@.take(0) =~= Seq::<Option<String>>::empty());
        while i < pages.len()
            invariant
                i <= pages.len(),
                all@ == pages_text(pages@.take(i as int)),
            decreases pages.len() - i,
        {
            proof {
                assert(pages@.take(i + 1).drop_last() =~= pages@.take(i as int));
                assert(pages@.take(i + 1).last() == pages@[i as int]);
            }
            match &pages[i] {
                Some(t) => {
                    all.append(t.as_str());
                    all.push('\n');
                },
                None => {},
            }
            i = i + 1;
        }
        assert(pages@.take(pages.len() as int) =~= pages@);
        trim(all.as_str())
    }

    /// Extracts the text of a PDF file page by page, skipping pages that
    /// cannot be decoded. Whether the file loads is for the loader to say:
    /// where it does, the text is the page texts put together as
    /// `assemble_text` does; where it does not, the loader's message comes
    /// back as the cause.
    pub fn extract_text(pdf_bytes: &[u8]) -> (extracted: Result<String, ExtractionError>)
        ensures
            match extracted {
                Ok(text) => exists|pages: Seq<Option<String>>|
                    text@ == trimmed(#[trigger] pages_text(pages)),
                Err(_) => true,
            },
    {
        match load_document(pdf_bytes) {
            Ok(doc) => {
                let numbers = page_numbers(&doc);
                let mut texts: Vec<Option<String>> = Vec::new();
                let mut i: usize = 0;
                while i < numbers.len()
                    invariant
                        i <= numbers.len(),
                        texts.len() == i,
                    decreases numbers.len() - i,
                {
                    texts.push(page_text(&doc, numbers[i]));
                    i = i + 1;
                }
                Ok(Self::assemble_text(&texts))
            },
            Err(e) => Err(ExtractionError::LoadFailed { cause: error_text(&e) }),
        }
    }

    /// The page count that a document with `pages` pages reports: the number
    /// cut to 32 bits.
    pub fn page_count_of(pages: usize) -> (count: i32)
        ensures
            count == pages as i32,
            pages <= i32::MAX ==> count == pages,
    {
        #[verifier::truncate]
        (pages as i32)
    }

    /// Counts the pages of a PDF file. Whether the file loads is for the
    /// loader to say: where it does, the count is the number of pages as
    /// `page_count_of` gives it; where it does not, the loader's message
    /// comes back as the cause.
    pub fn get_page_count(pdf_bytes: &[u8]) -> (counted: Result<i32, ExtractionError>) {
        match load_document(pdf_bytes) {
            Ok(doc) => {
                let numbers = page_numbers(&doc);
                Ok(Self::page_count_of(numbers.len()))
            },
            Err(e) => Err(ExtractionError::LoadFailed { cause: error_text(&e) }),
        }
    }

    /// Cuts `text` into chunks of `chunk_size` whitespace-separated words,
    /// each chunk repeating the last `overlap` words of the one before.
    pub fn chunk_text(text: &str, chunk_size: usize, overlap: usize) -> (chunks: Vec<String>)
        requires
            overlap < chunk_size,
        ensures
            string_views(chunks@) == chunks_of_text(text@, chunk_size as int, overlap as int),
            chunks@.len() == chunk_count(
                words(text@).len() as int,
                chunk_size as int,
                overlap as int,
            ),
    {
        chunk_text(text, chunk_size, overlap)
    }

    /// Estimates the number of tokens of `text` as a quarter of its length in
    /// bytes.
    pub fn estimate_tokens(text: &str) -> (tokens: i32)
        ensures
            tokens == token_estimate(text@),
            byte_len(text@) / 4 <= i32::MAX ==> tokens == byte_len(text@) / 4,
    {
        let quarter: usize = text.len() / 4;
        #[verifier::truncate]
        (quarter as i32)
    }
}

} // verus!
