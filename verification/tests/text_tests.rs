use pdf_audio::pdf_parser::{extract_pdf_text, PdfSource};
use pdf_audio::text::{
    byte_len, chars_of, copy_range, is_space, join_words, split_blocks, split_paragraphs,
    split_words, string_of,
};

fn std_paragraphs(text: &str) -> Vec<String> {
    text.split("\n\n")
        .map(|p| p.trim())
        .filter(|p| !p.is_empty())
        .map(|p| p.split_whitespace().collect::<Vec<&str>>().join(" "))
        .collect()
}

fn std_word_count(text: &str) -> usize {
    std_paragraphs(text).iter().map(|p| p.split_whitespace().count()).sum()
}

const SAMPLES: [&str; 14] = [
    "",
    " ",
    "one",
    "one two",
    "  leading and trailing  ",
    "first paragraph\n\nsecond paragraph",
    "a\n\n\nb",
    "a\n\n\n\nb",
    "a\n \nb",
    "\n\n\n\n",
    "  \n\n \t x  y \n z\n\n\n\n tail",
    "line one\nline two\n\n\tindented\u{a0}text\u{2003}here\r\n\r\nstill the same",
    "caf\u{e9} na\u{ef}ve \u{4f60}\u{597d} \u{1f600}",
    "x\n\n",
];

#[test]
fn test_nonexistent_file() {
    let result = extract_pdf_text("nonexistent.pdf", PdfSource::Missing);
    assert!(result.is_err());
}

#[test]
fn missing_file_names_the_path() {
    let e = extract_pdf_text("nonexistent.pdf", PdfSource::Missing).unwrap_err();
    assert_eq!(e.message, "File not found: nonexistent.pdf");
}

#[test]
fn unreadable_file_names_the_cause() {
    let source = PdfSource::Unreadable("PdfError(Invalid)".to_string());
    let e = extract_pdf_text("broken.pdf", source).unwrap_err();
    assert_eq!(e.message, "PDF extraction error: PdfError(Invalid)");
}

#[test]
fn text_is_cut_into_tidy_paragraphs() {
    let text = "Title  of\nthe book\n\n  First   paragraph.\n\n\n\nSecond\tone. \n\n   \n\n";
    let content = extract_pdf_text("book.pdf", PdfSource::Text(text.to_string())).unwrap();
    assert_eq!(content.paragraphs, vec!["Title of the book", "First paragraph.", "Second one."]);
    assert_eq!(content.word_count, 8);
    assert_eq!(content.page_count, 1);
}

#[test]
fn empty_text_has_no_paragraphs() {
    let content = extract_pdf_text("empty.pdf", PdfSource::Text(String::new())).unwrap();
    assert!(content.paragraphs.is_empty());
    assert_eq!(content.word_count, 0);
    assert_eq!(content.page_count, 1);
}

#[test]
fn paragraphs_agree_with_the_standard_library() {
    for text in SAMPLES {
        let (paragraphs, count) = split_paragraphs(text);
        assert_eq!(paragraphs, std_paragraphs(text), "text {:?}", text);
        assert_eq!(count, std_word_count(text), "text {:?}", text);
        assert_eq!(count, text.split_whitespace().count(), "text {:?}", text);
    }
}

#[test]
fn words_agree_with_the_standard_library() {
    for text in SAMPLES {
        let found: Vec<String> =
            split_words(&chars_of(text)).iter().map(|w| string_of(w)).collect();
        let expected: Vec<String> = text.split_whitespace().map(|w| w.to_string()).collect();
        assert_eq!(found, expected, "text {:?}", text);
    }
}

#[test]
fn blocks_agree_with_the_standard_library() {
    for text in SAMPLES {
        let found: Vec<String> =
            split_blocks(&chars_of(text)).iter().map(|b| string_of(b)).collect();
        let expected: Vec<String> = text.split("\n\n").map(|b| b.to_string()).collect();
        assert_eq!(found, expected, "text {:?}", text);
    }
}

#[test]
fn white_space_agrees_with_the_standard_library() {
    for code in 0..=0x10FFFFu32 {
        if let Some(c) = char::from_u32(code) {
            assert_eq!(is_space(c), c.is_whitespace(), "code point {:x}", code);
        }
    }
}

#[test]
fn characters_round_trip_through_strings() {
    for text in SAMPLES {
        let chars = chars_of(text);
        assert_eq!(chars, text.chars().collect::<Vec<char>>());
        assert_eq!(string_of(&chars), text);
        assert_eq!(byte_len(&chars), text.len());
    }
    assert_eq!(string_of(&vec!['a', 'b']), "ab");
    assert_eq!(string_of(&Vec::new()), "");
}

#[test]
fn byte_length_counts_utf8_bytes() {
    assert_eq!(byte_len(&chars_of("")), 0);
    assert_eq!(byte_len(&chars_of("abc")), 3);
    assert_eq!(byte_len(&chars_of("\u{7f}")), 1);
    assert_eq!(byte_len(&chars_of("\u{80}")), 2);
    assert_eq!(byte_len(&chars_of("\u{7ff}")), 2);
    assert_eq!(byte_len(&chars_of("\u{800}")), 3);
    assert_eq!(byte_len(&chars_of("\u{ffff}")), 3);
    assert_eq!(byte_len(&chars_of("\u{10000}")), 4);
    assert_eq!(byte_len(&chars_of("\u{10ffff}")), 4);
}

#[test]
fn ranges_are_copied_exactly() {
    let v = chars_of("hello world");
    assert_eq!(string_of(&copy_range(&v, 0, 5)), "hello");
    assert_eq!(string_of(&copy_range(&v, 6, 11)), "world");
    assert_eq!(string_of(&copy_range(&v, 3, 3)), "");
}

#[test]
fn words_are_joined_with_single_spaces() {
    let none: Vec<Vec<char>> = Vec::new();
    assert_eq!(string_of(&join_words(&none)), "");
    assert_eq!(string_of(&join_words(&vec![chars_of("solo")])), "solo");
    let three = vec![chars_of("a"), chars_of("bc"), chars_of("d")];
    assert_eq!(string_of(&join_words(&three)), "a bc d");
}
