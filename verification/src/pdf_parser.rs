//! The text of a document, cut into paragraphs.

use crate::text::{paragraphs, split_paragraphs, string_views, words};
use vstd::prelude::*;
use vstd::string::*;

verus! {

/// The readable content of a document.
#[derive(Debug, Clone)]
pub struct TextContent {
    pub paragraphs: Vec<String>,
    pub word_count: usize,
    pub page_count: usize,
}

/// Why a document could not be read.
#[derive(Debug, Clone)]
pub struct PdfError {
    pub message: String,
}

/// What came of reading a document from disk.
#[derive(Debug, Clone)]
pub enum PdfSource {
    /// There is no file at the path.
    Missing,
    /// The file could not be read as a document; this is the reader's
    /// description of what went wrong.
    Unreadable(String),
    /// The text found in the document.
    Text(String),
}

/// The content of the document at `path`, given what came of reading it.
///
/// A missing file and an unreadable one are errors that name the path and
/// the cause. Text is cut at blank lines into paragraphs; white space inside
/// a paragraph is reduced to single spaces and paragraphs without a word are
/// dropped. The word count is the number of words in the text, and the page
/// count is always one.
pub fn extract_pdf_text(path: &str, source: PdfSource) -> (r: Result<TextContent, PdfError>)
    ensures
        match source {
            PdfSource::Missing => r matches Err(e) && e.message@ == "File not found: "@ + path@,
            PdfSource::Unreadable(detail) => r matches Err(e) && e.message@
                == "PDF extraction error: "@ + detail@,
            PdfSource::Text(text) => r matches Ok(content) && {
                &&& string_views(content.paragraphs@) == paragraphs(text@)
                &&& content.word_count == words(text@).len()
                &&& content.page_count == 1
            },
        },
{
    match source {
        PdfSource::Missing => {
            let mut message = String::from_str("File not found: ");
            message.append(path);
            Err(PdfError { message })
        },
        PdfSource::Unreadable(detail) => {
            let mut message = String::from_str("PDF extraction error: ");
            message.append(detail.as_str());
            Err(PdfError { message })
        },
        PdfSource::Text(text) => {
            let (paragraphs, word_count) = split_paragraphs(text.as_str());
            Ok(TextContent { paragraphs, word_count, page_count: 1 })
        },
    }
}

} // verus!
