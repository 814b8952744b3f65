use selfstudyai_api::chunker::{chunk_text, chunk_words};
use selfstudyai_api::pdf::PdfService;
use selfstudyai_api::text::{
    chars_of, is_whitespace, join_range, render_integer, split_words, trim,
};

fn numbered_words(n: usize) -> String {
    let mut words: Vec<String> = Vec::new();
    for i in 0..n {
        words.push(format!("w{}", i));
    }
    words.join(" ")
}

fn expected_count(n: usize, w: usize, o: usize) -> usize {
    if n == 0 {
        0
    } else if n <= o {
        1
    } else {
        (n - o + (w - o) - 1) / (w - o)
    }
}

#[test]
fn whitespace_agrees_with_the_standard_library_on_every_character() {
    let mut code: u32 = 0;
    while code <= 0x10FFFF {
        if let Some(c) = char::from_u32(code) {
            assert_eq!(is_whitespace(c), c.is_whitespace(), "U+{:04X}", code);
        }
        code += 1;
    }
}

#[test]
fn split_words_agrees_with_split_whitespace() {
    let samples = vec![
        "",
        " ",
        "one",
        "  one  ",
        "one two",
        "one\ttwo\nthree\r\nfour",
        "a\u{3000}b\u{a0}c\u{2003}d\u{85}e",
        "zero\u{200b}width stays",
        "\u{1680}x\u{2028}y\u{2029}z\u{202f}\u{205f}",
        "caf\u{e9} na\u{ef}ve \u{1f600} end ",
    ];
    for s in samples {
        let expected: Vec<String> = s.split_whitespace().map(|w| w.to_string()).collect();
        assert_eq!(split_words(s), expected, "{:?}", s);
    }
}

#[test]
fn trim_agrees_with_the_standard_library() {
    let samples = vec![
        "",
        "   ",
        "x",
        "  x",
        "x  ",
        " \t x y \n ",
        "\u{3000}a b\u{a0}",
        "\n\nline one\nline two\n\n",
    ];
    for s in samples {
        assert_eq!(trim(s), s.trim().to_string(), "{:?}", s);
    }
}

#[test]
fn join_range_puts_single_spaces_between_words() {
    let words = vec!["a".to_string(), "bb".to_string(), "ccc".to_string()];
    assert_eq!(join_range(&words, 0, 3), "a bb ccc");
    assert_eq!(join_range(&words, 1, 2), "bb");
    assert_eq!(join_range(&words, 1, 3), "bb ccc");
    assert_eq!(join_range(&words, 2, 2), "");
}

#[test]
fn empty_text_has_no_chunks() {
    assert!(chunk_text("", 500, 50).is_empty());
    assert!(chunk_text(" \n\t  ", 500, 50).is_empty());
    assert!(PdfService::chunk_text("", 3, 1).is_empty());
}

#[test]
fn short_text_is_one_chunk_with_normalised_spaces() {
    assert_eq!(chunk_text("  hello   world \n", 500, 50), vec!["hello world".to_string()]);
    assert_eq!(chunk_text("a b c", 3, 0), vec!["a b c".to_string()]);
    assert_eq!(chunk_text("a b", 3, 2), vec!["a b".to_string()]);
}

#[test]
fn windows_overlap_by_the_given_number_of_words() {
    assert_eq!(
        chunk_text("a b c d e", 3, 1),
        vec!["a b c".to_string(), "c d e".to_string()]
    );
    assert_eq!(
        chunk_text("a b c d e f", 3, 1),
        vec!["a b c".to_string(), "c d e".to_string(), "e f".to_string()]
    );
    assert_eq!(
        chunk_text("a b c", 2, 1),
        vec!["a b".to_string(), "b c".to_string()]
    );
    assert_eq!(
        chunk_text("a b c d", 2, 0),
        vec!["a b".to_string(), "c d".to_string()]
    );
    assert_eq!(
        chunk_text("a b c", 1, 0),
        vec!["a".to_string(), "b".to_string(), "c".to_string()]
    );
}

#[test]
fn five_hundred_twenty_words_make_two_chunks() {
    let text = numbered_words(520);
    let chunks = PdfService::chunk_text(&text, 500, 50);
    assert_eq!(chunks.len(), 2);
    let first: Vec<&str> = chunks[0].split(' ').collect();
    let second: Vec<&str> = chunks[1].split(' ').collect();
    assert_eq!(first.len(), 500);
    assert_eq!(first[0], "w0");
    assert_eq!(first[499], "w499");
    assert_eq!(second.len(), 70);
    assert_eq!(second[0], "w450");
    assert_eq!(second[69], "w519");
}

#[test]
fn chunk_count_follows_the_formula() {
    for w in 1..8usize {
        for o in 0..w {
            for n in 0..40usize {
                let text = numbered_words(n);
                let chunks = chunk_text(&text, w, o);
                assert_eq!(chunks.len(), expected_count(n, w, o), "n={} w={} o={}", n, w, o);
            }
        }
    }
    assert_eq!(chunk_text(&numbered_words(501), 500, 50).len(), 2);
    assert_eq!(chunk_text(&numbered_words(500), 500, 50).len(), 1);
    assert_eq!(chunk_text(&numbered_words(950), 500, 50).len(), 2);
    assert_eq!(chunk_text(&numbered_words(951), 500, 50).len(), 3);
}

#[test]
fn chunks_cover_every_word_in_order_with_exact_overlap() {
    for w in 1..7usize {
        for o in 0..w {
            for n in 1..30usize {
                let text = numbered_words(n);
                let chunks = chunk_text(&text, w, o);
                let mut next_uncovered = 0usize;
                let mut previous_end = 0usize;
                for (k, chunk) in chunks.iter().enumerate() {
                    let words: Vec<&str> = chunk.split(' ').collect();
                    let start = k * (w - o);
                    for (j, word) in words.iter().enumerate() {
                        assert_eq!(*word, format!("w{}", start + j));
                    }
                    let end = start + words.len();
                    assert!(start <= next_uncovered);
                    if k > 0 {
                        assert_eq!(previous_end - start, o);
                        assert!(end > previous_end);
                    }
                    if k + 1 < chunks.len() {
                        assert_eq!(words.len(), w);
                    }
                    next_uncovered = end;
                    previous_end = end;
                }
                assert_eq!(next_uncovered, n);
            }
        }
    }
}

#[test]
fn chunking_twice_gives_the_same_chunks() {
    let text = "the quick  brown fox\njumps over\tthe lazy dog again and again";
    assert_eq!(chunk_text(text, 4, 2), chunk_text(text, 4, 2));
    assert_eq!(PdfService::chunk_text(text, 4, 2), chunk_text(text, 4, 2));
}

#[test]
fn a_window_as_large_as_the_machine_allows_does_not_overflow() {
    let chunks = chunk_text("a b c", usize::MAX, usize::MAX - 1);
    assert_eq!(chunks, vec!["a b c".to_string()]);
    let chunks = chunk_text("a b c", usize::MAX, 0);
    assert_eq!(chunks, vec!["a b c".to_string()]);
}

#[test]
fn chunk_words_works_on_words_given_directly() {
    let words = vec!["x".to_string(), "y".to_string(), "z".to_string()];
    assert_eq!(chunk_words(&words, 2, 1), vec!["x y".to_string(), "y z".to_string()]);
    let none: Vec<String> = Vec::new();
    assert!(chunk_words(&none, 2, 1).is_empty());
}

#[test]
fn token_estimate_is_a_quarter_of_the_bytes() {
    assert_eq!(PdfService::estimate_tokens(""), 0);
    assert_eq!(PdfService::estimate_tokens("abc"), 0);
    assert_eq!(PdfService::estimate_tokens("abcd"), 1);
    assert_eq!(PdfService::estimate_tokens("abcdefg"), 1);
    assert_eq!(PdfService::estimate_tokens("abcdefgh"), 2);
    assert_eq!(PdfService::estimate_tokens("\u{e9}\u{e9}"), 1);
    assert_eq!(PdfService::estimate_tokens(&"x".repeat(4001)), 1000);
}

#[test]
fn page_texts_are_joined_by_line_feeds_and_trimmed() {
    let pages = vec![
        Some("  first page".to_string()),
        None,
        Some("second page  ".to_string()),
    ];
    assert_eq!(PdfService::assemble_text(&pages), "first page\nsecond page");
    let none: Vec<Option<String>> = vec![None, None];
    assert_eq!(PdfService::assemble_text(&none), "");
    let empty: Vec<Option<String>> = Vec::new();
    assert_eq!(PdfService::assemble_text(&empty), "");
    let one = vec![Some("only".to_string())];
    assert_eq!(PdfService::assemble_text(&one), "only");
}

#[test]
fn page_count_is_the_number_of_pages() {
    assert_eq!(PdfService::page_count_of(0), 0);
    assert_eq!(PdfService::page_count_of(12), 12);
}

#[test]
fn bytes_that_are_no_pdf_are_refused() {
    assert!(PdfService::extract_text(b"this is not a pdf").is_err());
    assert!(PdfService::get_page_count(b"").is_err());
}

#[test]
fn integers_are_written_in_decimal() {
    let samples: Vec<i64> = vec![
        0,
        1,
        9,
        10,
        11,
        99,
        100,
        101,
        12345,
        -1,
        -9,
        -10,
        -123456789,
        1_000_000_007,
        i64::MAX,
        i64::MIN,
        i64::MIN + 1,
    ];
    for i in samples {
        assert_eq!(render_integer(i), i.to_string());
    }
    assert_eq!(render_integer(-42), "-42");
    assert_eq!(render_integer(i64::MIN), "-9223372036854775808");
}

#[test]
fn the_characters_of_a_text_come_one_by_one() {
    assert_eq!(chars_of("a\u{e9}\u{1f600}b"), vec!['a', '\u{e9}', '\u{1f600}', 'b']);
    assert!(chars_of("").is_empty());
}
