use crate::text::{
    is_word, join_range, join_words, lemma_words_are_words, lemma_words_of_joined, split_words,
    string_views, words,
};
use vstd::prelude::*;

verus! {

/// Index of the first word of window `k`: windows advance by `window - overlap`.
pub open spec fn window_start(k: int, window: int, overlap: int) -> int {
    k * (window - overlap)
}

/// One past the index of the last word of window `k` over `n` words: a window
/// holds `window` words unless the text ends first.
pub open spec fn window_end(k: int, n: int, window: int, overlap: int) -> int {
    if window_start(k, window, overlap) + window < n {
        window_start(k, window, overlap) + window
    } else {
        n
    }
}

/// Number of windows over `n` words: none for no words, one where the words do
/// not outnumber the overlap, else `(n - overlap) / (window - overlap)` rounded
/// up.
pub open spec fn chunk_count(n: int, window: int, overlap: int) -> int {
    if n <= 0 {
        0
    } else if n <= overlap {
        1
    } else {
        ((n - overlap) + (window - overlap) - 1) / (window - overlap)
    }
}

/// Text of window `k` over the words `ws`.
pub open spec fn chunk_at(ws: Seq<Seq<char>>, k: int, window: int, overlap: int) -> Seq<char> {
    join_words(
        ws.subrange(
            window_start(k, window, overlap),
            window_end(k, ws.len() as int, window, overlap),
        ),
    )
}

/// The windows over the words `ws`, in order.
pub open spec fn chunks_of(ws: Seq<Seq<char>>, window: int, overlap: int) -> Seq<Seq<char>> {
    Seq::new(
        chunk_count(ws.len() as int, window, overlap) as nat,
        |k: int| chunk_at(ws, k, window, overlap),
    )
}

/// The chunks of a text: the windows over its whitespace-separated words.
pub open spec fn chunks_of_text(text: Seq<char>, window: int, overlap: int) -> Seq<Seq<char>> {
    chunks_of(words(text), window, overlap)
}

/// The window that is the first to hold word `j`.
pub open spec fn first_window_of(j: int, window: int, overlap: int) -> int {
    if j < window {
        0
    } else {
        (j - window) / (window - overlap) + 1
    }
}

/// `chunk_count` is the least `k` whose window reaches the end of the words.
pub proof fn lemma_chunk_count_bounds(n: int, window: int, overlap: int)
    requires
        0 <= overlap < window,
        n > 0,
    ensures
        chunk_count(n, window, overlap) >= 1,
        window_start(chunk_count(n, window, overlap) - 1, window, overlap) + window >= n,
        forall|k: int|
            0 <= k < chunk_count(n, window, overlap) - 1 ==> #[trigger] window_start(
                k,
                window,
                overlap,
            ) + window < n,
{
    let s = window - overlap;
    let c = chunk_count(n, window, overlap);
    if n <= overlap {
        assert(0 * s == 0);
    } else {
        let a = n - overlap;
        assert(c == (a + s - 1) / s);
        assert(c >= 1 && (c - 1) * s < a && a <= c * s) by (nonlinear_arith)
            requires
                s > 0,
                a > 0,
                c == (a + s - 1) / s,
        ;
        assert((c - 1) * s + window >= n) by (nonlinear_arith)
            requires
                a <= c * s,
                a == n - overlap,
                s == window - overlap,
        ;
        assert forall|k: int| 0 <= k < c - 1 implies #[trigger] window_start(k, window, overlap)
            + window < n by {
            assert(k * s + window < n) by (nonlinear_arith)
                requires
                    0 <= k < c - 1,
                    (c - 1) * s < a,
                    a == n - overlap,
                    s == window - overlap,
                    s > 0,
            ;
        }
    }
}

/// A `k` whose window reaches the end, while no earlier one does, is the last
/// window.
pub proof fn lemma_chunk_count_is(n: int, window: int, overlap: int, k: int)
    requires
        0 <= overlap < window,
        n > 0,
        k >= 0,
        window_start(k, window, overlap) + window >= n,
        k > 0 ==> window_start(k - 1, window, overlap) + window < n,
    ensures
        chunk_count(n, window, overlap) == k + 1,
{
    lemma_chunk_count_bounds(n, window, overlap);
    let s = window - overlap;
    let c = chunk_count(n, window, overlap);
    if c - 1 < k {
        assert(window_start(c - 1, window, overlap) + window >= n);
        assert((c - 1) * s <= (k - 1) * s) by (nonlinear_arith)
            requires
                c - 1 <= k - 1,
                s > 0,
        ;
    } else if c - 1 > k {
        assert(window_start(k, window, overlap) + window < n);
    }
}

/// Every word lies in a window, so the chunks together hold every word of the
/// text.
pub proof fn lemma_every_word_is_covered(n: int, window: int, overlap: int, j: int)
    requires
        0 <= overlap < window,
        0 <= j < n,
    ensures
        0 <= first_window_of(j, window, overlap) < chunk_count(n, window, overlap),
        window_start(first_window_of(j, window, overlap), window, overlap) <= j,
        j < window_end(first_window_of(j, window, overlap), n, window, overlap),
{
    let s = window - overlap;
    let k = first_window_of(j, window, overlap);
    lemma_chunk_count_bounds(n, window, overlap);
    let c = chunk_count(n, window, overlap);
    if j < window {
        assert(0 * s == 0);
    } else {
        let q = (j - window) / s;
        assert(q >= 0 && q * s <= j - window && j - window < (q + 1) * s) by (nonlinear_arith)
            requires
                s > 0,
                j - window >= 0,
                q == (j - window) / s,
        ;
        assert((q + 1) * s == q * s + s) by (nonlinear_arith);
        assert(k == q + 1);
        assert(k * s <= j - overlap);
        assert(k * s + window > j);
        if k >= c {
            assert((c - 1) * s <= q * s) by (nonlinear_arith)
                requires
                    c - 1 <= q,
                    s > 0,
            ;
            assert(window_start(c - 1, window, overlap) + window >= n);
        }
    }
}

/// Windows come in the order of the text, none is empty or longer than
/// `window` words, each but the last is full and shares exactly `overlap`
/// words with its successor, which reaches further, and the first and last
/// windows touch the two ends of the text.
pub proof fn lemma_consecutive_windows(n: int, window: int, overlap: int, k: int)
    requires
        0 <= overlap < window,
        n > 0,
        0 <= k < chunk_count(n, window, overlap),
    ensures
        window_start(0, window, overlap) == 0,
        window_end(chunk_count(n, window, overlap) - 1, n, window, overlap) == n,
        window_start(k, window, overlap) < window_end(k, n, window, overlap) <= n,
        window_end(k, n, window, overlap) - window_start(k, window, overlap) <= window,
        k + 1 < chunk_count(n, window, overlap) ==> {
            &&& window_end(k, n, window, overlap) == window_start(k, window, overlap) + window
            &&& window_start(k, window, overlap) < window_start(k + 1, window, overlap)
            &&& window_end(k, n, window, overlap) - window_start(k + 1, window, overlap)
                == overlap
            &&& window_end(k, n, window, overlap) < window_end(k + 1, n, window, overlap)
        },
{
    let s = window - overlap;
    let c = chunk_count(n, window, overlap);
    lemma_chunk_count_bounds(n, window, overlap);
    assert(0 * s == 0);
    assert((k + 1) * s == k * s + s) by (nonlinear_arith);
    assert(k * s >= 0) by (nonlinear_arith)
        requires
            k >= 0,
            s > 0,
    ;
    if k + 1 < c {
        assert(window_start(k, window, overlap) + window < n);
    } else {
        assert(k == c - 1);
    }
    if k > 0 {
        assert(window_start(k - 1, window, overlap) + window < n);
        assert((k - 1) * s + s == k * s) by (nonlinear_arith);
    }
}

/// Each chunk holds the words of its window and nothing else: splitting
/// chunk `k` of a text gives back the words of the text from the start of
/// window `k` to its end.
pub proof fn lemma_chunk_holds_its_window(text: Seq<char>, window: int, overlap: int, k: int)
    requires
        0 <= overlap < window,
        0 <= k < chunk_count(words(text).len() as int, window, overlap),
    ensures
        0 <= k < chunks_of_text(text, window, overlap).len(),
        words(chunks_of_text(text, window, overlap)[k]) == words(text).subrange(
            window_start(k, window, overlap),
            window_end(k, words(text).len() as int, window, overlap),
        ),
{
    let ws = words(text);
    let n = ws.len() as int;
    lemma_consecutive_windows(n, window, overlap, k);
    lemma_words_are_words(text);
    let part = ws.subrange(window_start(k, window, overlap), window_end(k, n, window, overlap));
    assert forall|i: int| 0 <= i < part.len() implies is_word(#[trigger] part[i]) by {
        assert(part[i] == ws[window_start(k, window, overlap) + i]);
    }
    lemma_words_of_joined(part);
}

/// The same text, window and overlap have the same chunks: whatever two runs
/// return, they agree in length and text by text.
pub proof fn lemma_chunking_is_deterministic(
    first: Seq<String>,
    second: Seq<String>,
    text: Seq<char>,
    window: int,
    overlap: int,
)
    requires
        string_views(first) == chunks_of_text(text, window, overlap),
        string_views(second) == chunks_of_text(text, window, overlap),
    ensures
        first.len() == second.len(),
        forall|i: int| 0 <= i < first.len() ==> first[i]@ == second[i]@,
{
    assert(string_views(first).len() == first.len());
    assert(string_views(second).len() == second.len());
    assert forall|i: int| 0 <= i < first.len() implies first[i]@ == second[i]@ by {
        assert(string_views(first)[i] == first[i]@);
        assert(string_views(second)[i] == second[i]@);
    }
}

/// Cuts the words `ws` into windows of `window` words, each starting
/// `window - overlap` words after the one before, and joins every window with
/// single spaces.
pub fn chunk_words(ws: &Vec<String>, window: usize, overlap: usize) -> (chunks: Vec<String>)
    requires
        overlap < window,
    ensures
        string_views(chunks@) == chunks_of(string_views(ws@), window as int, overlap as int),
{
    let mut chunks: Vec<String> = Vec::new();
    let n: usize = ws.len();
    let ghost all = string_views(ws@);
    let ghost w = window as int;
    let ghost o = overlap as int;
    if n == 0 {
        assert(string_views(chunks@) =~= chunks_of(all, w, o));
        return chunks;
    }
    let step: usize = window - overlap;
    let mut i: usize = 0;
    let mut k: Ghost<int> = Ghost(0);
    assert(0 * (w - o) == 0);
    loop
        invariant
            n == ws.len(),
            n > 0,
            all == string_views(ws@),
            w == window as int,
            o == overlap as int,
            0 <= o < w,
            step == w - o,
            k@ >= 0,
            i == window_start(k@, w, o),
            i < n,
            k@ > 0 ==> window_start(k@ - 1, w, o) + w < n,
            chunks@.len() == k@,
            forall|j: int| 0 <= j < k@ ==> (#[trigger] chunks@[j])@ == chunk_at(all, j, w, o),
        decreases n - i,
    {
        let end: usize = if window >= n - i {
            n
        } else {
            i + window
        };
        assert(end == window_end(k@, n as int, w, o));
        let piece = join_range(ws, i, end);
        let ghost before = chunks@;
        chunks.push(piece);
        assert forall|j: int| 0 <= j < k@ + 1 implies (#[trigger] chunks@[j])@ == chunk_at(
            all,
            j,
            w,
            o,
        ) by {
            if j < k@ {
                assert(chunks@[j] == before[j]);
            }
        }
        if end >= n {
            proof {
                lemma_chunk_count_is(n as int, w, o, k@);
                assert(string_views(chunks@) =~= chunks_of(all, w, o));
            }
            return chunks;
        }
        proof {
            assert((k@ + 1) * (w - o) == k@ * (w - o) + (w - o)) by (nonlinear_arith);
            assert(window_start(k@ + 1 - 1, w, o) + w < n);
            k@ = k@ + 1;
        }
        i = i + step;
    }
}

/// Cuts `text` into chunks of `chunk_size` whitespace-separated words, each
/// chunk repeating the last `overlap` words of the one before.
pub fn chunk_text(text: &str, chunk_size: usize, overlap: usize) -> (chunks: Vec<String>)
    requires
        overlap < chunk_size,
    ensures
        string_views(chunks@) == chunks_of_text(text@, chunk_size as int, overlap as int),
        chunks@.len() == chunk_count(words(text@).len() as int, chunk_size as int, overlap as int),
{
    let ws = split_words(text);
    let chunks = chunk_words(&ws, chunk_size, overlap);
    assert(string_views(chunks@).len() == chunks@.len());
    chunks
}

} // verus!
