//! The built-in extraction worker: it takes the text out of documents of the
//! formats it knows and says a few things about it.

use crate::chars::{
    char_views, chars_of, contains, contains_chars, replace_chars, replaced, same_chars,
    split_words, string_of, strip_chars, stripped, trim_chars, trimmed, words,
};
use crate::clock::now_millis;
use crate::document::{Document, DocumentContent, DocumentContentView, DocumentView};
use crate::ident::fresh_id;
use crate::message::byte_len;
use crate::text::{decimal, lowercase, to_decimal, to_lowercase};
use crate::textmap::TextMap;
use crate::types::{DocumentId, DocumentType, Timestamp, WorkerId};
use vstd::prelude::*;

verus! {

/// What the extraction worker found in a document.
#[derive(Debug, PartialEq, Eq)]
pub struct DocumentProcessingResult {
    pub document_id: DocumentId,
    pub processing_time_ms: u64,
    pub extracted_text: String,
    pub word_count: usize,
    pub page_count: Option<usize>,
    pub language: Option<String>,
    pub keywords: Vec<String>,
    /// The metadata of the document.
    pub metadata: TextMap,
    pub processed_at: Timestamp,
}

/// What the extraction worker finds in a text.
pub struct TextFindings {
    pub extracted_text: Seq<char>,
    pub word_count: nat,
    pub page_count: Option<nat>,
    pub language: Option<Seq<char>>,
    pub keywords: Seq<Seq<char>>,
}

/// A text with its HTML markup broken up: angle brackets give way to
/// spaces, the entities for the space, the ampersand and the angle brackets
/// to what they stand for, and the white space around the whole is cut off.
pub open spec fn html_text(content: Seq<char>) -> Seq<char> {
    trimmed(
        replaced(
            replaced(
                replaced(
                    replaced(replaced(replaced(content, "<"@, " "@), ">"@, " "@), "&nbsp;"@, " "@),
                    "&amp;"@,
                    "&"@,
                ),
                "&lt;"@,
                "<"@,
            ),
            "&gt;"@,
            ">"@,
        ),
    )
}

/// A text without its Markdown marks: number signs, asterisks, underscores
/// and backticks are taken out, and the white space around the whole is cut
/// off.
pub open spec fn markdown_text(content: Seq<char>) -> Seq<char> {
    trimmed(
        replaced(
            replaced(
                replaced(replaced(replaced(content, "#"@, ""@), "*"@, ""@), "_"@, ""@),
                "`"@,
                ""@,
            ),
            "```"@,
            ""@,
        ),
    )
}

/// A number of pages for a text of the given size at so many bytes a page:
/// at least one.
pub open spec fn pages(bytes: nat, bytes_per_page: nat) -> nat {
    if bytes / bytes_per_page < 1 {
        1
    } else {
        bytes / bytes_per_page
    }
}

/// The language of a text, judged by a few common words: English where
/// `the` and `and` occur, German where `der` and `und` occur, French where
/// `le` and `et` occur, looked for in this order in the text in lower case.
pub open spec fn language_of(text: Seq<char>) -> Option<Seq<char>> {
    let lower = lowercase(text);
    if contains(lower, "the"@) && contains(lower, "and"@) {
        Some("en"@)
    } else if contains(lower, "der"@) && contains(lower, "und"@) {
        Some("de"@)
    } else if contains(lower, "le"@) && contains(lower, "et"@) {
        Some("fr"@)
    } else {
        None
    }
}

/// The candidates for keywords among the first `n` words of a text: each
/// word without what surrounds its letters and digits, if more than two bytes
/// remain of it.
pub open spec fn candidates(all: Seq<Seq<char>>, n: int) -> Seq<Seq<char>>
    decreases n,
{
    if n <= 0 {
        Seq::empty()
    } else if byte_len(stripped(all[n - 1])) > 2 {
        candidates(all, n - 1).push(stripped(all[n - 1]))
    } else {
        candidates(all, n - 1)
    }
}

/// How often a word occurs among the first `n` words of a list.
pub open spec fn count_of(list: Seq<Seq<char>>, word: Seq<char>, n: int) -> nat
    decreases n,
{
    if n <= 0 {
        0
    } else {
        count_of(list, word, n - 1) + if list[n - 1] == word {
            1nat
        } else {
            0nat
        }
    }
}

/// The keywords among the first `n` candidates: those that occur more than
/// once in the whole list, each once, in the order of their first
/// occurrence, in lower case, and ten of them at most.
pub open spec fn keywords_among(list: Seq<Seq<char>>, n: int) -> Seq<Seq<char>>
    decreases n,
{
    if n <= 0 {
        Seq::empty()
    } else {
        let earlier = keywords_among(list, n - 1);
        if earlier.len() < 10 && count_of(list, list[n - 1], n - 1) == 0 && count_of(
            list,
            list[n - 1],
            list.len() as int,
        ) > 1 {
            earlier.push(lowercase(list[n - 1]))
        } else {
            earlier
        }
    }
}

/// The keywords of a text.
pub open spec fn keywords_of(text: Seq<char>) -> Seq<Seq<char>> {
    let list = candidates(words(text), words(text).len() as int);
    keywords_among(list, list.len() as int)
}

/// What the extraction worker finds in a text that it has extracted.
pub open spec fn findings(extracted: Seq<char>, page_count: Option<nat>) -> TextFindings {
    TextFindings {
        extracted_text: extracted,
        word_count: words(extracted).len(),
        page_count,
        language: language_of(extracted),
        keywords: keywords_of(extracted),
    }
}

/// What the extraction worker makes of a document, or why it fails. A
/// document in PDF fails if its text says `corrupted`, one in Word format if
/// it says `password`; the text of either is marked as extracted and its
/// pages are counted by its size. Plain text is taken as it is, HTML and
/// Markdown without their markup. Other formats, and documents that hold no
/// text, cannot be processed.
pub open spec fn extraction(document: DocumentView) -> Result<TextFindings, Seq<char>> {
    match document.content {
        DocumentContentView::Text(content) => match document.document_type {
            DocumentType::Pdf => if contains(content, "corrupted"@) {
                Err("PDF file appears to be corrupted"@)
            } else {
                Ok(findings("[PDF EXTRACTED] "@ + content, Some(pages(byte_len(content), 2000))))
            },
            DocumentType::Word => if contains(content, "password"@) {
                Err("Word document is password protected"@)
            } else {
                Ok(findings("[WORD EXTRACTED] "@ + content, Some(pages(byte_len(content), 1500))))
            },
            DocumentType::Text => Ok(findings(content, None)),
            DocumentType::Html => Ok(findings(html_text(content), None)),
            DocumentType::Markdown => Ok(findings(markdown_text(content), None)),
            _ => Err("Cannot process unknown document type: "@ + document.filename),
        },
        _ => Err("Cannot process document without text: "@ + document.filename),
    }
}

/// The characters of each text of a list.
pub open spec fn keyword_views(keywords: Seq<String>) -> Seq<Seq<char>> {
    keywords.map_values(|k: String| k@)
}

impl DocumentProcessingResult {
    /// What the result says of the text.
    pub open spec fn findings(&self) -> TextFindings {
        TextFindings {
            extracted_text: self.extracted_text@,
            word_count: self.word_count as nat,
            page_count: match self.page_count {
                Some(n) => Some(n as nat),
                None => None,
            },
            language: crate::document::optional_text(self.language),
            keywords: keyword_views(self.keywords@),
        }
    }
}

/// The language of a text, judged by a few common words.
pub fn detect_language(text: &str) -> (language: Option<String>)
    ensures
        crate::document::optional_text(language) == language_of(text@),
{
    let lower = to_lowercase(text);
    let lower_chars = chars_of(lower.as_str());
    if contains_chars(&lower_chars, &chars_of("the")) && contains_chars(
        &lower_chars,
        &chars_of("and"),
    ) {
        Some(String::from_str("en"))
    } else if contains_chars(&lower_chars, &chars_of("der")) && contains_chars(
        &lower_chars,
        &chars_of("und"),
    ) {
        Some(String::from_str("de"))
    } else if contains_chars(&lower_chars, &chars_of("le")) && contains_chars(
        &lower_chars,
        &chars_of("et"),
    ) {
        Some(String::from_str("fr"))
    } else {
        None
    }
}

/// Number of words of a text.
pub fn count_words(text: &str) -> (count: usize)
    ensures
        count == words(text@).len(),
{
    let all = split_words(&chars_of(text));
    assert(char_views(all@).len() == all@.len());
    all.len()
}

/// How often a word occurs in a list.
fn count_in(list: &Vec<Vec<char>>, word: &Vec<char>, n: usize) -> (count: usize)
    requires
        n <= list@.len(),
    ensures
        count == count_of(char_views(list@), word@, n as int),
        count <= n,
{
    let mut count: usize = 0;
    let mut i: usize = 0;
    while i < n
        invariant
            i <= n <= list@.len(),
            count <= i,
            count == count_of(char_views(list@), word@, i as int),
        decreases n - i,
    {
        assert(char_views(list@)[i as int] == list@[i as int]@);
        if same_chars(&list[i], word) {
            count = count + 1;
        }
        i = i + 1;
    }
    count
}

/// The keywords of a text: the words that occur more than once, each once,
/// in the order of their first occurrence, in lower case, and ten of them at
/// most. A word counts without what surrounds its letters and digits, and
/// only if more than two bytes remain of it.
pub fn extract_keywords(text: &str) -> (keywords: Vec<String>)
    ensures
        keyword_views(keywords@) == keywords_of(text@),
{
    let all = split_words(&chars_of(text));
    let ghost all_views = char_views(all@);
    let mut list: Vec<Vec<char>> = Vec::new();
    let mut i: usize = 0;
    assert(char_views(list@) =~= Seq::<Seq<char>>::empty());
    while i < all.len()
        invariant
            i <= all@.len(),
            all_views == char_views(all@),
            all_views == words(text@),
            char_views(list@) == candidates(all_views, i as int),
        decreases all@.len() - i,
    {
        assert(all_views[i as int] == all@[i as int]@);
        let ghost before = char_views(list@);
        let bare = strip_chars(&all[i]);
        let as_text = string_of(&bare);
        if as_text.as_str().as_bytes().len() > 2 {
            list.push(bare);
            assert(char_views(list@) =~= before.push(bare@));
        }
        i = i + 1;
    }
    assert(char_views(all@).len() == all@.len());
    let ghost list_views = char_views(list@);
    assert(list_views.len() == list@.len());
    let mut keywords: Vec<String> = Vec::new();
    let mut n: usize = 0;
    assert(keyword_views(keywords@) =~= Seq::<Seq<char>>::empty());
    while n < list.len()
        invariant
            n <= list@.len(),
            list_views == char_views(list@),
            list_views.len() == list@.len(),
            keyword_views(keywords@) == keywords_among(list_views, n as int),
        decreases list@.len() - n,
    {
        assert(list_views[n as int] == list@[n as int]@);
        let ghost before = keyword_views(keywords@);
        if keywords.len() < 10 && count_in(&list, &list[n], n) == 0 && count_in(
            &list,
            &list[n],
            list.len(),
        ) > 1 {
            let word = string_of(&list[n]);
            let lower = to_lowercase(word.as_str());
            keywords.push(lower);
            assert(keyword_views(keywords@) =~= before.push(lowercase(list@[n as int]@)));
        }
        assert(keyword_views(keywords@).len() == keywords@.len());
        n = n + 1;
    }
    keywords
}

/// A text with its HTML markup broken up.
pub fn extract_html(content: &str) -> (text: String)
    ensures
        text@ == html_text(content@),
{
    let step0 = chars_of(content);
    let step1 = replace_chars(&step0, &chars_of("<"), &chars_of(" "));
    let step2 = replace_chars(&step1, &chars_of(">"), &chars_of(" "));
    let step3 = replace_chars(&step2, &chars_of("&nbsp;"), &chars_of(" "));
    let step4 = replace_chars(&step3, &chars_of("&amp;"), &chars_of("&"));
    let step5 = replace_chars(&step4, &chars_of("&lt;"), &chars_of("<"));
    let step6 = replace_chars(&step5, &chars_of("&gt;"), &chars_of(">"));
    string_of(&trim_chars(&step6))
}

/// A text without its Markdown marks.
pub fn extract_markdown(content: &str) -> (text: String)
    ensures
        text@ == markdown_text(content@),
{
    let step0 = chars_of(content);
    let step1 = replace_chars(&step0, &chars_of("#"), &chars_of(""));
    let step2 = replace_chars(&step1, &chars_of("*"), &chars_of(""));
    let step3 = replace_chars(&step2, &chars_of("_"), &chars_of(""));
    let step4 = replace_chars(&step3, &chars_of("`"), &chars_of(""));
    let step5 = replace_chars(&step4, &chars_of("```"), &chars_of(""));
    string_of(&trim_chars(&step5))
}

/// A worker that takes the text out of documents.
#[derive(Debug, PartialEq, Eq)]
pub struct DocumentWorker {
    pub id: WorkerId,
    pub worker_type: String,
    pub supported_types: Vec<DocumentType>,
    pub max_concurrent_documents: usize,
    pub current_load: usize,
}

/// Why a document was not processed, in words.
pub open spec fn unsupported_text(worker_type: Seq<char>, document_type: DocumentType) -> Seq<char> {
    "Worker "@ + worker_type + " cannot process document type: "@ + document_type.name()
}

/// Why a document was not processed, in words.
pub open spec fn at_capacity_text(worker_type: Seq<char>, load: nat) -> Seq<char> {
    "Worker "@ + worker_type + " is at capacity ("@ + decimal(load) + " documents)"@
}

impl DocumentWorker {
    /// Why the worker refuses a document of the given format, if it does: it
    /// does not take the format, or it has no room.
    pub open spec fn refusal(&self, document_type: DocumentType) -> Option<Seq<char>> {
        if !self.supported_types@.contains(document_type) {
            Some(unsupported_text(self.worker_type@, document_type))
        } else if self.current_load >= self.max_concurrent_documents {
            Some(at_capacity_text(self.worker_type@, self.current_load as nat))
        } else {
            None
        }
    }

    /// A worker of the given make for the given formats, with a fresh
    /// identifier and room for ten documents.
    pub fn new(worker_type: String, supported_types: Vec<DocumentType>) -> (worker: Self)
        ensures
            worker.id != 0,
            worker.worker_type == worker_type,
            worker.supported_types == supported_types,
            worker.max_concurrent_documents == 10,
            worker.current_load == 0,
    {
        DocumentWorker {
            id: fresh_id(),
            worker_type,
            supported_types,
            max_concurrent_documents: 10,
            current_load: 0,
        }
    }

    /// Whether the worker takes documents of the given format.
    pub fn can_process(&self, document_type: &DocumentType) -> (yes: bool)
        ensures
            yes == self.supported_types@.contains(*document_type),
    {
        crate::documents::contains_type(&self.supported_types, *document_type)
    }

    /// Whether the worker has room for one more document.
    pub fn has_capacity(&self) -> (yes: bool)
        ensures
            yes == (self.current_load < self.max_concurrent_documents),
    {
        self.current_load < self.max_concurrent_documents
    }

    /// Takes the text out of a document and says what it found.
    pub fn extract_content(document: &Document, started: Timestamp, finished: Timestamp) -> (outcome:
        Result<DocumentProcessingResult, String>)
        ensures
            match outcome {
                Ok(result) => extraction(document@) == Ok::<TextFindings, Seq<char>>(
                    result.findings(),
                ) && result.document_id == document.id && result.metadata@ == document.metadata@
                    && result.processed_at == finished && result.processing_time_ms == if finished
                    > started {
                    (finished - started) as u64
                } else {
                    0
                },
                Err(reason) => extraction(document@) == Err::<TextFindings, Seq<char>>(reason@),
            },
    {
        let content = match &document.content {
            DocumentContent::Text(content) => content,
            _ => {
                let mut reason = String::from_str("Cannot process document without text: ");
                reason.append(document.filename.as_str());
                return Err(reason);
            },
        };
        let (extracted_text, page_count): (String, Option<usize>) = match document.document_type {
            DocumentType::Pdf => {
                if contains_chars(&chars_of(content.as_str()), &chars_of("corrupted")) {
                    return Err(String::from_str("PDF file appears to be corrupted"));
                }
                let mut text = String::from_str("[PDF EXTRACTED] ");
                text.append(content.as_str());
                let by_size = content.as_str().as_bytes().len() / 2000;
                (text, Some(if by_size < 1 { 1 } else { by_size }))
            },
            DocumentType::Word => {
                if contains_chars(&chars_of(content.as_str()), &chars_of("password")) {
                    return Err(String::from_str("Word document is password protected"));
                }
                let mut text = String::from_str("[WORD EXTRACTED] ");
                text.append(content.as_str());
                let by_size = content.as_str().as_bytes().len() / 1500;
                (text, Some(if by_size < 1 { 1 } else { by_size }))
            },
            DocumentType::Text => (content.clone(), None),
            DocumentType::Html => (extract_html(content.as_str()), None),
            DocumentType::Markdown => (extract_markdown(content.as_str()), None),
            _ => {
                let mut reason = String::from_str("Cannot process unknown document type: ");
                reason.append(document.filename.as_str());
                return Err(reason);
            },
        };
        let word_count = count_words(extracted_text.as_str());
        let keywords = extract_keywords(extracted_text.as_str());
        let language = detect_language(extracted_text.as_str());
        let elapsed: u64 = if finished > started {
            (finished as i128 - started as i128) as u64
        } else {
            0
        };
        Ok(
            DocumentProcessingResult {
                document_id: document.id,
                processing_time_ms: elapsed,
                extracted_text,
                word_count,
                page_count,
                language,
                keywords,
                metadata: document.metadata.clone(),
                processed_at: finished,
            },
        )
    }

    /// Processes a document. The worker refuses a document whose format it
    /// does not take, and any document while it has no room. While it works
    /// on a document its load is one higher; when the work has ended, be it
    /// with a result or with a failure, the load is as it was.
    pub fn process_document(&mut self, document: Document) -> (outcome: Result<
        DocumentProcessingResult,
        String,
    >)
        ensures
            final(self).id == old(self).id,
            final(self).worker_type == old(self).worker_type,
            final(self).supported_types == old(self).supported_types,
            final(self).max_concurrent_documents == old(self).max_concurrent_documents,
            match old(self).refusal(document.document_type) {
                Some(text) => final(self).current_load == old(self).current_load && match outcome {
                    Err(reason) => reason@ == text,
                    Ok(_) => false,
                },
                None => match outcome {
                    Ok(result) => extraction(document@) == Ok::<TextFindings, Seq<char>>(
                        result.findings(),
                    ) && result.document_id == document.id && result.metadata@
                        == document.metadata@ && final(self).current_load == old(
                        self,
                    ).current_load,
                    Err(reason) => extraction(document@) == Err::<TextFindings, Seq<char>>(reason@)
                        && final(self).current_load == old(self).current_load,
                },
            },
    {
        if !self.can_process(&document.document_type) {
            let mut reason = String::from_str("Worker ");
            reason.append(self.worker_type.as_str());
            reason.append(" cannot process document type: ");
            reason.append(document.document_type.as_str());
            return Err(reason);
        }
        if !self.has_capacity() {
            let load_text = to_decimal(self.current_load as u64);
            let mut reason = String::from_str("Worker ");
            reason.append(self.worker_type.as_str());
            reason.append(" is at capacity (");
            reason.append(load_text.as_str());
            reason.append(" documents)");
            return Err(reason);
        }
        self.current_load = self.current_load + 1;
        let started = now_millis();
        let outcome = DocumentWorker::extract_content(&document, started, now_millis());
        self.current_load = self.current_load - 1;
        outcome
    }
}

} // verus!
