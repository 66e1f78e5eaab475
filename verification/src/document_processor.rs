//! The document processor: it takes the text out of a document of one of the
//! formats it knows, and says what language the text is in, which words
//! stand out in it, and what mood it is in.

use crate::chars::{
    char_views, chars_of, count_occurrences, occurrences, replace_chars, replaced, split_words,
    string_of, strip_chars, stripped, trim_chars, trimmed, words,
};
use crate::clock::now_millis;
use crate::document::{
    optional_text, Document, DocumentContent, DocumentContentView, DocumentProcessingOptions,
    DocumentView,
};
use crate::documents::{
    contains_type, document_refusal, validate_document, DocumentError, DocumentErrorView,
    DocumentProcessingConfig,
};
use crate::ident::fresh_id;
use crate::json::{json_string, quote};
use crate::message::byte_len;
use crate::tally::{with_all, Tally, TallyEntry};
use crate::task::text_views;
use crate::text::{lowercase, to_lowercase};
use crate::textmap::{lemma_absent, TextMap};
use crate::types::{DocumentId, DocumentType, Timestamp};
use vstd::prelude::*;

verus! {

/// The words by which English is told.
pub open spec fn english_words() -> Seq<Seq<char>> {
    seq![
        "the"@,
        "and"@,
        "or"@,
        "but"@,
        "in"@,
        "on"@,
        "at"@,
        "to"@,
        "for"@,
        "of"@,
        "with"@,
        "by"@,
    ]
}

/// The words by which Swedish is told.
pub open spec fn swedish_words() -> Seq<Seq<char>> {
    seq![
        "och"@,
        "att"@,
        "det"@,
        "som"@,
        "en"@,
        "på"@,
        "är"@,
        "av"@,
        "för"@,
        "med"@,
        "till"@,
        "den"@,
    ]
}

/// The words of praise.
pub open spec fn positive_words() -> Seq<Seq<char>> {
    seq![
        "good"@,
        "great"@,
        "excellent"@,
        "amazing"@,
        "wonderful"@,
        "fantastic"@,
        "love"@,
        "like"@,
    ]
}

/// The words of blame.
pub open spec fn negative_words() -> Seq<Seq<char>> {
    seq![
        "bad"@,
        "terrible"@,
        "awful"@,
        "hate"@,
        "dislike"@,
        "horrible"@,
        "worst"@,
        "disappointed"@,
    ]
}

/// How often the first `n` words of a list occur in a text, all together.
/// Each word is counted by itself, as often as it occurs without overlap.
pub open spec fn occurrences_of_all(text: Seq<char>, list: Seq<Seq<char>>, n: int) -> nat
    decreases n,
{
    if n <= 0 {
        0
    } else {
        occurrences_of_all(text, list, n - 1) + occurrences(text, list[n - 1])
    }
}

/// How often the words of a list occur in a text, all together.
pub open spec fn hits_of(text: Seq<char>, list: Seq<Seq<char>>) -> nat {
    occurrences_of_all(text, list, list.len() as int)
}

/// How often the words of a list occur in a text, all together.
pub fn count_all(text: &Vec<char>, list: &Vec<Vec<char>>) -> (count: u128)
    ensures
        count == hits_of(text@, char_views(list@)),
{
    let mut count: u128 = 0;
    let mut i: usize = 0;
    let size = text.len();
    while i < list.len()
        invariant
            i <= list@.len(),
            size == text@.len(),
            char_views(list@).len() == list@.len(),
            count == occurrences_of_all(text@, char_views(list@), i as int),
            count <= i * 0x1_0000_0000_0000_0000,
        decreases list@.len() - i,
    {
        assert(char_views(list@)[i as int] == list@[i as int]@);
        let here = count_occurrences(text, &list[i]);
        count = count + here;
        i = i + 1;
    }
    count
}

/// A list of words as characters.
fn word_list(items: &[&str]) -> (list: Vec<Vec<char>>)
    ensures
        list@.len() == items@.len(),
        forall|i: int| 0 <= i < items@.len() ==> (#[trigger] list@[i])@ == items@[i]@,
{
    let mut list: Vec<Vec<char>> = Vec::new();
    let mut i: usize = 0;
    while i < items.len()
        invariant
            i <= items@.len(),
            list@.len() == i,
            forall|j: int| 0 <= j < i ==> (#[trigger] list@[j])@ == items@[j]@,
        decreases items@.len() - i,
    {
        list.push(chars_of(items[i]));
        i = i + 1;
    }
    list
}

/// The language of a text, judged by how often a few common words occur in
/// the text in lower case: English if its words occur more often than those
/// of Swedish, Swedish if any of its words occur, and unknown otherwise.
pub open spec fn language_by_count(text: Seq<char>) -> Seq<char> {
    let lower = lowercase(text);
    let english = hits_of(lower, english_words());
    let swedish = hits_of(lower, swedish_words());
    if english > swedish && english > 0 {
        "en"@
    } else if swedish > 0 {
        "sv"@
    } else {
        "unknown"@
    }
}

/// The language of a text, judged by how often a few common words occur in
/// it.
pub fn detect_language(text: &str) -> (language: String)
    ensures
        language@ == language_by_count(text@),
{
    let lower = chars_of(to_lowercase(text).as_str());
    let english_list = word_list(
        &["the", "and", "or", "but", "in", "on", "at", "to", "for", "of", "with", "by"],
    );
    let swedish_list = word_list(
        &["och", "att", "det", "som", "en", "på", "är", "av", "för", "med", "till", "den"],
    );
    assert(char_views(english_list@) =~= english_words());
    assert(char_views(swedish_list@) =~= swedish_words());
    let english = count_all(&lower, &english_list);
    let swedish = count_all(&lower, &swedish_list);
    if english > swedish && english > 0 {
        String::from_str("en")
    } else if swedish > 0 {
        String::from_str("sv")
    } else {
        String::from_str("unknown")
    }
}

/// What was counted in a text to judge its mood: how often words of praise
/// and words of blame occur in it, and how many words it has. The mood is
/// the difference of the first two over the third, and nought for a text
/// without words.
#[derive(Debug, Clone, Copy, PartialEq, Eq, Structural)]
pub struct Sentiment {
    pub positive: u128,
    pub negative: u128,
    pub words: usize,
}

/// The counts by which the mood of a text is judged. Praise and blame are
/// looked for in the text in lower case.
pub open spec fn sentiment_of(text: Seq<char>) -> Sentiment {
    Sentiment {
        positive: hits_of(lowercase(text), positive_words()) as u128,
        negative: hits_of(lowercase(text), negative_words()) as u128,
        words: words(text).len() as usize,
    }
}

impl Sentiment {
    /// Which way the mood leans: `1` where praise outweighs blame, `-1`
    /// where blame outweighs praise, `0` where they are level or the text
    /// has no words.
    pub open spec fn leaning_of(self) -> int {
        if self.words == 0 || self.positive == self.negative {
            0
        } else if self.positive > self.negative {
            1
        } else {
            -1
        }
    }

    /// Which way the mood leans.
    pub fn leaning(&self) -> (sign: i8)
        ensures
            sign == self.leaning_of(),
    {
        if self.words == 0 || self.positive == self.negative {
            0
        } else if self.positive > self.negative {
            1
        } else {
            -1
        }
    }
}

/// The counts by which the mood of a text is judged.
pub fn analyze_sentiment(text: &str) -> (sentiment: Sentiment)
    ensures
        sentiment == sentiment_of(text@),
{
    let lower = chars_of(to_lowercase(text).as_str());
    let positive_list = word_list(
        &["good", "great", "excellent", "amazing", "wonderful", "fantastic", "love", "like"],
    );
    let negative_list = word_list(
        &["bad", "terrible", "awful", "hate", "dislike", "horrible", "worst", "disappointed"],
    );
    assert(char_views(positive_list@) =~= positive_words());
    assert(char_views(negative_list@) =~= negative_words());
    let positive = count_all(&lower, &positive_list);
    let negative = count_all(&lower, &negative_list);
    let all = split_words(&chars_of(text));
    assert(char_views(all@).len() == all@.len());
    Sentiment { positive, negative, words: all.len() }
}

/// The candidates for keywords among the first `n` words of a text: each
/// word without what surrounds its letters and digits, if more than three
/// bytes remain of it, in lower case.
pub open spec fn long_words(all: Seq<Seq<char>>, n: int) -> Seq<Seq<char>>
    decreases n,
{
    if n <= 0 {
        Seq::empty()
    } else if byte_len(stripped(all[n - 1])) > 3 {
        long_words(all, n - 1).push(lowercase(stripped(all[n - 1])))
    } else {
        long_words(all, n - 1)
    }
}

/// Where a line with the given count goes in a ranking: before the first
/// line with a smaller count, or at the end where there is none.
pub open spec fn rank_of(ranking: Seq<(Seq<char>, u64)>, count: u64) -> int
    decreases ranking.len(),
{
    if ranking.len() == 0 {
        0
    } else if ranking[0].1 < count {
        0
    } else {
        1 + rank_of(ranking.drop_first(), count)
    }
}

/// The first `n` lines of a tally, ranked by their counts, the highest
/// first. Lines with the same count stay in their order.
pub open spec fn ranked(lines: Seq<(Seq<char>, u64)>, n: int) -> Seq<(Seq<char>, u64)>
    decreases n,
{
    if n <= 0 {
        Seq::empty()
    } else {
        let earlier = ranked(lines, n - 1);
        earlier.insert(rank_of(earlier, lines[n - 1].1), lines[n - 1])
    }
}

/// The names of the first `n` lines.
pub open spec fn names_of(lines: Seq<(Seq<char>, u64)>, n: int) -> Seq<Seq<char>>
    decreases n,
{
    if n <= 0 {
        Seq::empty()
    } else {
        names_of(lines, n - 1).push(lines[n - 1].0)
    }
}

/// How often each candidate for a keyword occurs in a text, in the order in
/// which the candidates first occur.
pub open spec fn word_tally(text: Seq<char>) -> Seq<(Seq<char>, u64)> {
    with_all(Seq::empty(), long_words(words(text), words(text).len() as int))
}

/// The keywords of a text: the ten candidates that occur most often, the
/// most frequent first. Of two candidates that occur equally often, the one
/// that occurs first in the text comes first.
pub open spec fn top_keywords(text: Seq<char>) -> Seq<Seq<char>> {
    let ranking = ranked(word_tally(text), word_tally(text).len() as int);
    names_of(
        ranking,
        if ranking.len() < 10 {
            ranking.len() as int
        } else {
            10
        },
    )
}

/// `rank_of` finds the place before the first line with a smaller count.
pub proof fn lemma_rank_of(ranking: Seq<(Seq<char>, u64)>, count: u64)
    ensures
        0 <= rank_of(ranking, count) <= ranking.len(),
        forall|i: int| 0 <= i < rank_of(ranking, count) ==> (#[trigger] ranking[i]).1 >= count,
        rank_of(ranking, count) < ranking.len() ==> ranking[rank_of(ranking, count)].1 < count,
    decreases ranking.len(),
{
    if ranking.len() > 0 && ranking[0].1 >= count {
        let rest = ranking.drop_first();
        lemma_rank_of(rest, count);
        assert forall|i: int| 0 <= i < rank_of(ranking, count) implies (#[trigger] ranking[i]).1
            >= count by {
            if i > 0 {
                assert(ranking[i] == rest[i - 1]);
            }
        }
        if rank_of(ranking, count) < ranking.len() {
            assert(ranking[rank_of(ranking, count)] == rest[rank_of(rest, count)]);
        }
    }
}

/// A ranking holds the lines it was made of, each once, and no line in it
/// has a higher count than a line before it.
pub proof fn lemma_ranked(lines: Seq<(Seq<char>, u64)>, n: int)
    requires
        0 <= n <= lines.len(),
    ensures
        ranked(lines, n).len() == n,
        ranked(lines, n).to_multiset() == lines.take(n).to_multiset(),
        forall|i: int, j: int|
            0 <= i < j < n ==> (#[trigger] ranked(lines, n)[i]).1 >= (#[trigger] ranked(
                lines,
                n,
            )[j]).1,
    decreases n,
{
    if n == 0 {
        assert(lines.take(0) =~= Seq::<(Seq<char>, u64)>::empty());
    } else {
        lemma_ranked(lines, n - 1);
        let earlier = ranked(lines, n - 1);
        let line = lines[n - 1];
        let at = rank_of(earlier, line.1);
        lemma_rank_of(earlier, line.1);
        let now = ranked(lines, n);
        assert(now == earlier.insert(at, line));
        let before = lines.take(n - 1);
        vstd::seq_lib::to_multiset_insert(earlier, at, line);
        vstd::seq_lib::to_multiset_insert(before, n - 1, line);
        assert(before.insert(n - 1, line) =~= lines.take(n));
        assert(now.to_multiset() == earlier.to_multiset().insert(line));
        assert(lines.take(n).to_multiset() == before.to_multiset().insert(line));
        assert forall|i: int, j: int| 0 <= i < j < n implies (#[trigger] now[i]).1 >= (
        #[trigger] now[j]).1 by {
            if j < at {
                assert(now[i] == earlier[i] && now[j] == earlier[j]);
            } else if j == at {
                assert(now[i] == earlier[i]);
            } else if i < at {
                assert(now[i] == earlier[i] && now[j] == earlier[j - 1]);
            } else if i == at {
                assert(now[j] == earlier[j - 1]);
                if at < j - 1 {
                    assert(earlier[at].1 >= earlier[j - 1].1);
                }
            } else {
                assert(now[i] == earlier[i - 1] && now[j] == earlier[j - 1]);
            }
        }
    }
}

/// The mathematical value of a list of lines.
pub open spec fn line_views(lines: Seq<TallyEntry>) -> Seq<(Seq<char>, u64)> {
    lines.map_values(|l: TallyEntry| l@)
}

/// How often each candidate for a keyword occurs in a text.
pub fn tally_words(text: &str) -> (tally: Tally)
    ensures
        tally@ == word_tally(text@),
{
    let all = split_words(&chars_of(text));
    let ghost all_views = char_views(all@);
    let ghost empty = Seq::<(Seq<char>, u64)>::empty();
    let mut tally = Tally::new();
    let mut i: usize = 0;
    assert(char_views(all@).len() == all@.len());
    while i < all.len()
        invariant
            i <= all@.len(),
            all_views == char_views(all@),
            all_views.len() == all@.len(),
            empty == Seq::<(Seq<char>, u64)>::empty(),
            tally@ == with_all(empty, long_words(all_views, i as int)),
        decreases all@.len() - i,
    {
        assert(all_views[i as int] == all@[i as int]@);
        let ghost before = long_words(all_views, i as int);
        let bare = strip_chars(&all[i]);
        let as_text = string_of(&bare);
        if as_text.as_str().as_bytes().len() > 3 {
            let lower = to_lowercase(as_text.as_str());
            tally.add(lower.as_str());
            assert(before.push(lower@).drop_last() =~= before);
        }
        i = i + 1;
    }
    tally
}

/// The lines of a tally ranked by their counts, the highest first.
pub fn rank(tally: &Tally) -> (ranking: Vec<TallyEntry>)
    ensures
        line_views(ranking@) == ranked(tally@, tally@.len() as int),
{
    let mut ranking: Vec<TallyEntry> = Vec::new();
    let mut n: usize = 0;
    assert(line_views(ranking@) =~= Seq::<(Seq<char>, u64)>::empty());
    while n < tally.len()
        invariant
            n <= tally@.len(),
            line_views(ranking@) == ranked(tally@, n as int),
        decreases tally@.len() - n,
    {
        let count = tally.count_at(n);
        let ghost views = line_views(ranking@);
        let mut at: usize = 0;
        assert(views.skip(0) =~= views);
        while at < ranking.len() && ranking[at].count >= count
            invariant
                at <= ranking@.len(),
                views == line_views(ranking@),
                rank_of(views, count) == at + rank_of(views.skip(at as int), count),
            decreases ranking@.len() - at,
        {
            proof {
                let rest = views.skip(at as int);
                assert(rest[0] == views[at as int]);
                assert(rest.drop_first() =~= views.skip(at + 1));
            }
            at = at + 1;
        }
        proof {
            let rest = views.skip(at as int);
            if at < ranking@.len() {
                assert(rest[0] == views[at as int]);
            }
        }
        let line = TallyEntry { name: String::from_str(tally.name_at(n)), count };
        ranking.insert(at, line);
        assert(line_views(ranking@) =~= views.insert(at as int, tally@[n as int]));
        n = n + 1;
    }
    ranking
}

/// The keywords of a text: the ten words that occur most often, the most
/// frequent first. A word counts in lower case and without what surrounds
/// its letters and digits, and only if more than three bytes remain of it.
pub fn extract_keywords(text: &str) -> (keywords: Vec<String>)
    ensures
        text_views(keywords@) == top_keywords(text@),
{
    let tally = tally_words(text);
    let ranking = rank(&tally);
    let ghost lines = line_views(ranking@);
    assert(lines.len() == ranking@.len());
    let limit: usize = if ranking.len() < 10 {
        ranking.len()
    } else {
        10
    };
    let mut keywords: Vec<String> = Vec::new();
    let mut n: usize = 0;
    assert(text_views(keywords@) =~= Seq::<Seq<char>>::empty());
    while n < limit
        invariant
            n <= limit <= ranking@.len(),
            lines == line_views(ranking@),
            text_views(keywords@) == names_of(lines, n as int),
        decreases limit - n,
    {
        assert(lines[n as int] == ranking@[n as int]@);
        let ghost before = text_views(keywords@);
        let name = ranking[n].name.clone();
        keywords.push(name);
        assert(text_views(keywords@) =~= before.push(lines[n as int].0));
        n = n + 1;
    }
    keywords
}

/// Position of the first `>` of a text at or after `from`, or the length of
/// the text where there is none.
pub open spec fn closing_at(text: Seq<char>, from: int) -> int
    decreases text.len() - from,
{
    if from < 0 || from >= text.len() {
        text.len() as int
    } else if text[from] == '>' {
        from
    } else {
        closing_at(text, from + 1)
    }
}

/// A text without its tags: every stretch from a `<` to the next `>` is
/// taken out, from the left to the right. A `<` that no `>` follows stays.
pub open spec fn without_tags(text: Seq<char>) -> Seq<char>
    decreases text.len(),
{
    if text.len() == 0 {
        text
    } else if text[0] == '<' && 1 <= closing_at(text, 1) < text.len() {
        without_tags(text.skip(closing_at(text, 1) + 1))
    } else {
        seq![text[0]] + without_tags(text.skip(1))
    }
}

/// `closing_at` gives a position from `from` on at which a `>` stands, or
/// the length of the text.
pub proof fn lemma_closing_at(text: Seq<char>, from: int)
    requires
        0 <= from <= text.len(),
    ensures
        from <= closing_at(text, from) <= text.len(),
        closing_at(text, from) < text.len() ==> text[closing_at(text, from)] == '>',
    decreases text.len() - from,
{
    if from < text.len() && text[from] != '>' {
        lemma_closing_at(text, from + 1);
    }
}

/// Where the next `>` stands in the rest of a text is where it stands in
/// the text.
proof fn lemma_closing_in_rest(text: Seq<char>, start: int, from: int)
    requires
        0 <= start <= text.len(),
        0 <= from <= text.len() - start,
    ensures
        closing_at(text.skip(start), from) + start == closing_at(text, from + start),
    decreases text.len() - start - from,
{
    if from < text.len() - start && text[from + start] != '>' {
        lemma_closing_in_rest(text, start, from + 1);
    }
}

/// The text of a document in HTML without its markup: the tags are taken
/// out, the entities for the space, the ampersand, the angle brackets and the
/// quotation marks give way to what they stand for, and the white space
/// around the whole is cut off.
pub open spec fn html_plain(content: Seq<char>) -> Seq<char> {
    trimmed(
        replaced(
            replaced(
                replaced(
                    replaced(
                        replaced(
                            replaced(without_tags(content), "&nbsp;"@, " "@),
                            "&amp;"@,
                            "&"@,
                        ),
                        "&lt;"@,
                        "<"@,
                    ),
                    "&gt;"@,
                    ">"@,
                ),
                "&quot;"@,
                "\""@,
            ),
            "&#39;"@,
            "'"@,
        ),
    )
}

/// The text of a document in Markdown without its marks: number signs,
/// asterisks, underscores, backticks, square brackets and round brackets
/// are taken out, and the white space around the whole is cut off.
pub open spec fn markdown_plain(content: Seq<char>) -> Seq<char> {
    trimmed(
        replaced(
            replaced(
                replaced(
                    replaced(
                        replaced(
                            replaced(replaced(replaced(content, "#"@, ""@), "*"@, ""@), "_"@, ""@),
                            "`"@,
                            ""@,
                        ),
                        "["@,
                        ""@,
                    ),
                    "]"@,
                    ""@,
                ),
                "("@,
                ""@,
            ),
            ")"@,
            ""@,
        ),
    )
}

/// The text that is taken out of a document in PDF.
pub open spec fn pdf_extract(content: DocumentContentView) -> Seq<char> {
    match content {
        DocumentContentView::Text(text) => "[PDF EXTRACTED] "@ + text,
        DocumentContentView::Binary(_) => "[PDF EXTRACTED] Binary PDF content processed"@,
        DocumentContentView::Reference { .. } =>
            "[PDF EXTRACTED] Referenced PDF content processed"@,
    }
}

/// The text that is taken out of a document in Word format.
pub open spec fn word_extract(content: DocumentContentView) -> Seq<char> {
    match content {
        DocumentContentView::Text(text) => "[WORD EXTRACTED] "@ + text,
        DocumentContentView::Binary(_) => "[WORD EXTRACTED] Binary Word document processed"@,
        DocumentContentView::Reference { .. } =>
            "[WORD EXTRACTED] Referenced Word document processed"@,
    }
}

/// The text that is taken out of a document in HTML.
pub open spec fn html_extract(content: DocumentContentView) -> Seq<char> {
    match content {
        DocumentContentView::Text(text) => "[HTML EXTRACTED] "@ + html_plain(text),
        DocumentContentView::Binary(_) => "[HTML EXTRACTED] Binary HTML content processed"@,
        DocumentContentView::Reference { .. } =>
            "[HTML EXTRACTED] Referenced HTML content processed"@,
    }
}

/// The text that is taken out of a document in Markdown.
pub open spec fn markdown_extract(content: DocumentContentView) -> Seq<char> {
    match content {
        DocumentContentView::Text(text) => "[MARKDOWN EXTRACTED] "@ + markdown_plain(text),
        DocumentContentView::Binary(_) =>
            "[MARKDOWN EXTRACTED] Binary Markdown content processed"@,
        DocumentContentView::Reference { .. } =>
            "[MARKDOWN EXTRACTED] Referenced Markdown content processed"@,
    }
}

/// What is noted of every document in PDF: one page, and the version of
/// the format.
pub open spec fn pdf_metadata() -> Seq<(Seq<char>, Seq<char>)> {
    seq![("page_count"@, "1"@), ("pdf_version"@, json_string("1.4"@))]
}

/// What is noted of every document in Word format: a hundred words, and
/// the format.
pub open spec fn word_metadata() -> Seq<(Seq<char>, Seq<char>)> {
    seq![("word_count"@, "100"@), ("document_format"@, json_string("docx"@))]
}

/// What is noted of every document in HTML or Markdown: its media type.
pub open spec fn content_type_metadata(media_type: Seq<char>) -> Seq<(Seq<char>, Seq<char>)> {
    seq![("content_type"@, json_string(media_type))]
}

/// What the processor found in a document.
pub struct Analysis {
    pub extracted_text: Option<Seq<char>>,
    /// What is noted of the document; each value is a JSON text.
    pub metadata: Seq<(Seq<char>, Seq<char>)>,
    pub language: Option<Seq<char>>,
    pub keywords: Seq<Seq<char>>,
    pub sentiment: Option<Sentiment>,
    pub classification: Option<Seq<char>>,
}

/// What the processor finds in plain text. The text is handed on and its
/// mood judged if text is to be extracted; its language is told and its
/// keywords are picked if the options ask for it.
pub open spec fn text_analysis(content: Seq<char>, options: DocumentProcessingOptions) -> Analysis {
    Analysis {
        extracted_text: if options.extract_text {
            Some(content)
        } else {
            None
        },
        metadata: Seq::empty(),
        language: if options.detect_language {
            Some(language_by_count(content))
        } else {
            None
        },
        keywords: if options.extract_keywords {
            top_keywords(content)
        } else {
            Seq::empty()
        },
        sentiment: if options.extract_text {
            Some(sentiment_of(content))
        } else {
            None
        },
        classification: None,
    }
}

/// What the processor finds in a document of a format of its own, given
/// the text that is taken out of it, what is noted of every document of the
/// format, and what the format is called. Where no text is to be
/// extracted, nothing is said of the text.
pub open spec fn format_analysis(
    extracted: Seq<char>,
    metadata: Seq<(Seq<char>, Seq<char>)>,
    classification: Seq<char>,
    options: DocumentProcessingOptions,
) -> Analysis {
    if options.extract_text {
        Analysis {
            extracted_text: Some(extracted),
            metadata,
            language: if options.detect_language {
                Some(language_by_count(extracted))
            } else {
                None
            },
            keywords: if options.extract_keywords {
                top_keywords(extracted)
            } else {
                Seq::empty()
            },
            sentiment: Some(sentiment_of(extracted)),
            classification: Some(classification),
        }
    } else {
        Analysis {
            extracted_text: None,
            metadata,
            language: None,
            keywords: Seq::empty(),
            sentiment: None,
            classification: Some(classification),
        }
    }
}

/// What the processor makes of a document, or why it fails. A document
/// that is too large, or whose format is not among the supported ones, is
/// refused. Plain text must be held as text. Formats other than PDF, Word,
/// plain text, HTML and Markdown are not processed.
pub open spec fn processing(
    document: DocumentView,
    max_file_size: usize,
    supported_types: Seq<DocumentType>,
    options: DocumentProcessingOptions,
) -> Result<Analysis, DocumentErrorView> {
    match document_refusal(document, max_file_size, supported_types) {
        Some(error) => Err(error),
        None => match document.document_type {
            DocumentType::Pdf => Ok(
                format_analysis(
                    pdf_extract(document.content),
                    pdf_metadata(),
                    "PDF Document"@,
                    options,
                ),
            ),
            DocumentType::Word => Ok(
                format_analysis(
                    word_extract(document.content),
                    word_metadata(),
                    "Word Document"@,
                    options,
                ),
            ),
            DocumentType::Text => match document.content {
                DocumentContentView::Text(text) => Ok(text_analysis(text, options)),
                _ => Err(
                    DocumentErrorView::ProcessingFailed {
                        reason: "Text document must have text content"@,
                    },
                ),
            },
            DocumentType::Html => Ok(
                format_analysis(
                    html_extract(document.content),
                    content_type_metadata("text/html"@),
                    "HTML Document"@,
                    options,
                ),
            ),
            DocumentType::Markdown => Ok(
                format_analysis(
                    markdown_extract(document.content),
                    content_type_metadata("text/markdown"@),
                    "Markdown Document"@,
                    options,
                ),
            ),
            _ => Err(
                DocumentErrorView::UnsupportedDocumentType {
                    document_type: document.document_type.name(),
                },
            ),
        },
    }
}

/// What the processor found in a document, before it is stamped with an
/// identifier and the time.
#[derive(Debug, PartialEq, Eq)]
pub struct Findings {
    pub extracted_text: Option<String>,
    /// What is noted of the document; each value is a JSON text.
    pub metadata: TextMap,
    pub language: Option<String>,
    pub keywords: Vec<String>,
    pub sentiment: Option<Sentiment>,
    pub classification: Option<String>,
}

impl View for Findings {
    type V = Analysis;

    open spec fn view(&self) -> Analysis {
        Analysis {
            extracted_text: optional_text(self.extracted_text),
            metadata: self.metadata@,
            language: optional_text(self.language),
            keywords: text_views(self.keywords@),
            sentiment: self.sentiment,
            classification: optional_text(self.classification),
        }
    }
}

/// Position of the first `>` of a text at or after `from`, or the length of
/// the text where there is none.
pub fn find_closing(text: &Vec<char>, from: usize) -> (at: usize)
    requires
        from <= text@.len(),
    ensures
        at == closing_at(text@, from as int),
        from <= at <= text@.len(),
{
    let mut at: usize = from;
    while at < text.len() && text[at] != '>'
        invariant
            from <= at <= text@.len(),
            closing_at(text@, from as int) == closing_at(text@, at as int),
        decreases text@.len() - at,
    {
        at = at + 1;
    }
    at
}

/// A text without its tags.
pub fn strip_tags(text: &Vec<char>) -> (out: Vec<char>)
    ensures
        out@ == without_tags(text@),
{
    let mut out: Vec<char> = Vec::new();
    let mut i: usize = 0;
    assert(text@.skip(0) =~= text@);
    while i < text.len()
        invariant
            i <= text@.len(),
            out@ + without_tags(text@.skip(i as int)) == without_tags(text@),
        decreases text@.len() - i,
    {
        let ghost rest = text@.skip(i as int);
        let ghost before = out@;
        assert(rest[0] == text@[i as int]);
        let close = if text[i] == '<' {
            find_closing(text, i + 1)
        } else {
            text.len()
        };
        proof {
            lemma_closing_in_rest(text@, i as int, 1);
            lemma_closing_at(rest, 1);
        }
        if close < text.len() {
            assert(rest.skip(closing_at(rest, 1) + 1) =~= text@.skip(close + 1));
            i = close + 1;
        } else {
            out.push(text[i]);
            assert(rest.skip(1) =~= text@.skip(i + 1));
            assert(out@ + without_tags(text@.skip(i + 1)) =~= before + (seq![rest[0]]
                + without_tags(rest.skip(1))));
            i = i + 1;
        }
    }
    assert(text@.skip(i as int) =~= Seq::<char>::empty());
    assert(out@ + Seq::<char>::empty() =~= out@);
    out
}

/// The text of a document in HTML without its markup.
pub fn clean_html(text: &str) -> (clean: String)
    ensures
        clean@ == html_plain(text@),
{
    let a = strip_tags(&chars_of(text));
    let b = replace_chars(&a, &chars_of("&nbsp;"), &chars_of(" "));
    let c = replace_chars(&b, &chars_of("&amp;"), &chars_of("&"));
    let d = replace_chars(&c, &chars_of("&lt;"), &chars_of("<"));
    let e = replace_chars(&d, &chars_of("&gt;"), &chars_of(">"));
    let f = replace_chars(&e, &chars_of("&quot;"), &chars_of("\""));
    let g = replace_chars(&f, &chars_of("&#39;"), &chars_of("'"));
    string_of(&trim_chars(&g))
}

/// The text of a document in Markdown without its marks.
pub fn clean_markdown(text: &str) -> (clean: String)
    ensures
        clean@ == markdown_plain(text@),
{
    let none = chars_of("");
    let a = replace_chars(&chars_of(text), &chars_of("#"), &none);
    let b = replace_chars(&a, &chars_of("*"), &none);
    let c = replace_chars(&b, &chars_of("_"), &none);
    let d = replace_chars(&c, &chars_of("`"), &none);
    let e = replace_chars(&d, &chars_of("["), &none);
    let f = replace_chars(&e, &chars_of("]"), &none);
    let g = replace_chars(&f, &chars_of("("), &none);
    let h = replace_chars(&g, &chars_of(")"), &none);
    string_of(&trim_chars(&h))
}

/// A mark followed by a text.
fn marked(mark: &str, text: &str) -> (out: String)
    ensures
        out@ == mark@ + text@,
{
    let mut out = String::from_str(mark);
    out.append(text);
    out
}

/// What is found in plain text.
pub fn process_text_content(content: &str, options: &DocumentProcessingOptions) -> (found: Findings)
    ensures
        found@ == text_analysis(content@, *options),
{
    Findings {
        extracted_text: if options.extract_text {
            Some(String::from_str(content))
        } else {
            None
        },
        metadata: TextMap::new(),
        language: if options.detect_language {
            Some(detect_language(content))
        } else {
            None
        },
        keywords: if options.extract_keywords {
            extract_keywords(content)
        } else {
            let none: Vec<String> = Vec::new();
            assert(text_views(none@) =~= Seq::<Seq<char>>::empty());
            none
        },
        sentiment: if options.extract_text {
            Some(analyze_sentiment(content))
        } else {
            None
        },
        classification: None,
    }
}

/// What is found in a document of a format of its own, given the text that
/// was taken out of it.
fn process_extracted(
    extracted: String,
    metadata: TextMap,
    classification: &str,
    options: &DocumentProcessingOptions,
) -> (found: Findings)
    ensures
        found@ == format_analysis(extracted@, metadata@, classification@, *options),
{
    let none: Vec<String> = Vec::new();
    assert(text_views(none@) =~= Seq::<Seq<char>>::empty());
    if options.extract_text {
        let language = if options.detect_language {
            Some(detect_language(extracted.as_str()))
        } else {
            None
        };
        let keywords = if options.extract_keywords {
            extract_keywords(extracted.as_str())
        } else {
            none
        };
        let sentiment = Some(analyze_sentiment(extracted.as_str()));
        Findings {
            extracted_text: Some(extracted),
            metadata,
            language,
            keywords,
            sentiment,
            classification: Some(String::from_str(classification)),
        }
    } else {
        Findings {
            extracted_text: None,
            metadata,
            language: None,
            keywords: none,
            sentiment: None,
            classification: Some(String::from_str(classification)),
        }
    }
}

/// What is found in a document in PDF.
pub fn process_pdf(content: &DocumentContent, options: &DocumentProcessingOptions) -> (found: Findings)
    ensures
        found@ == format_analysis(pdf_extract(content@), pdf_metadata(), "PDF Document"@, *options),
{
    let extracted = match content {
        DocumentContent::Text(text) => marked("[PDF EXTRACTED] ", text.as_str()),
        DocumentContent::Binary(_) => String::from_str(
            "[PDF EXTRACTED] Binary PDF content processed",
        ),
        DocumentContent::Reference { .. } => String::from_str(
            "[PDF EXTRACTED] Referenced PDF content processed",
        ),
    };
    let mut metadata = TextMap::new();
    metadata.push("page_count", String::from_str("1"));
    proof {
        reveal_strlit("page_count");
        reveal_strlit("pdf_version");
        assert("page_count"@.len() != "pdf_version"@.len());
        lemma_absent(metadata@, "pdf_version"@);
    }
    metadata.push("pdf_version", quote("1.4"));
    assert(metadata@ =~= pdf_metadata());
    process_extracted(extracted, metadata, "PDF Document", options)
}

/// What is found in a document in Word format.
pub fn process_word(content: &DocumentContent, options: &DocumentProcessingOptions) -> (found: Findings)
    ensures
        found@ == format_analysis(
            word_extract(content@),
            word_metadata(),
            "Word Document"@,
            *options,
        ),
{
    let extracted = match content {
        DocumentContent::Text(text) => marked("[WORD EXTRACTED] ", text.as_str()),
        DocumentContent::Binary(_) => String::from_str(
            "[WORD EXTRACTED] Binary Word document processed",
        ),
        DocumentContent::Reference { .. } => String::from_str(
            "[WORD EXTRACTED] Referenced Word document processed",
        ),
    };
    let mut metadata = TextMap::new();
    metadata.push("word_count", String::from_str("100"));
    proof {
        reveal_strlit("word_count");
        reveal_strlit("document_format");
        assert("word_count"@.len() != "document_format"@.len());
        lemma_absent(metadata@, "document_format"@);
    }
    metadata.push("document_format", quote("docx"));
    assert(metadata@ =~= word_metadata());
    process_extracted(extracted, metadata, "Word Document", options)
}

/// What is found in a document in HTML.
pub fn process_html(content: &DocumentContent, options: &DocumentProcessingOptions) -> (found: Findings)
    ensures
        found@ == format_analysis(
            html_extract(content@),
            content_type_metadata("text/html"@),
            "HTML Document"@,
            *options,
        ),
{
    let extracted = match content {
        DocumentContent::Text(text) => marked(
            "[HTML EXTRACTED] ",
            clean_html(text.as_str()).as_str(),
        ),
        DocumentContent::Binary(_) => String::from_str(
            "[HTML EXTRACTED] Binary HTML content processed",
        ),
        DocumentContent::Reference { .. } => String::from_str(
            "[HTML EXTRACTED] Referenced HTML content processed",
        ),
    };
    let mut metadata = TextMap::new();
    metadata.push("content_type", quote("text/html"));
    assert(metadata@ =~= content_type_metadata("text/html"@));
    process_extracted(extracted, metadata, "HTML Document", options)
}

/// What is found in a document in Markdown.
pub fn process_markdown(content: &DocumentContent, options: &DocumentProcessingOptions) -> (found:
    Findings)
    ensures
        found@ == format_analysis(
            markdown_extract(content@),
            content_type_metadata("text/markdown"@),
            "Markdown Document"@,
            *options,
        ),
{
    let extracted = match content {
        DocumentContent::Text(text) => marked(
            "[MARKDOWN EXTRACTED] ",
            clean_markdown(text.as_str()).as_str(),
        ),
        DocumentContent::Binary(_) => String::from_str(
            "[MARKDOWN EXTRACTED] Binary Markdown content processed",
        ),
        DocumentContent::Reference { .. } => String::from_str(
            "[MARKDOWN EXTRACTED] Referenced Markdown content processed",
        ),
    };
    let mut metadata = TextMap::new();
    metadata.push("content_type", quote("text/markdown"));
    assert(metadata@ =~= content_type_metadata("text/markdown"@));
    process_extracted(extracted, metadata, "Markdown Document", options)
}

/// What the processor found in a document, with the time it took.
#[derive(Debug, PartialEq, Eq)]
pub struct DocumentProcessingResult {
    /// The identifier of the result.
    pub document_id: DocumentId,
    pub extracted_text: Option<String>,
    /// What is noted of the document; each value is a JSON text.
    pub metadata: TextMap,
    pub language: Option<String>,
    pub keywords: Vec<String>,
    pub sentiment: Option<Sentiment>,
    pub classification: Option<String>,
    /// The embedding of the text, each number as its bits.
    pub embeddings: Option<Vec<u32>>,
    pub processing_time_ms: u64,
    pub processed_at: Timestamp,
}

impl DocumentProcessingResult {
    /// What the result says of the document.
    pub open spec fn analysis(&self) -> Analysis {
        Analysis {
            extracted_text: optional_text(self.extracted_text),
            metadata: self.metadata@,
            language: optional_text(self.language),
            keywords: text_views(self.keywords@),
            sentiment: self.sentiment,
            classification: optional_text(self.classification),
        }
    }
}

/// The time between two moments in milliseconds, nought where the second
/// is not after the first.
pub open spec fn elapsed_ms(started: Timestamp, finished: Timestamp) -> u64 {
    if finished > started {
        (finished - started) as u64
    } else {
        0
    }
}

/// Stamps what was found with an identifier and with the time: when the
/// work was begun, and how long it took.
pub fn stamp(found: Findings, id: DocumentId, started: Timestamp, finished: Timestamp) -> (result:
    DocumentProcessingResult)
    ensures
        result.analysis() == found@,
        result.document_id == id,
        result.embeddings.is_none(),
        result.processed_at == started,
        result.processing_time_ms == elapsed_ms(started, finished),
{
    DocumentProcessingResult {
        document_id: id,
        extracted_text: found.extracted_text,
        metadata: found.metadata,
        language: found.language,
        keywords: found.keywords,
        sentiment: found.sentiment,
        classification: found.classification,
        embeddings: None,
        processing_time_ms: if finished > started {
            (finished as i128 - started as i128) as u64
        } else {
            0
        },
        processed_at: started,
    }
}

/// The figures of a document processor. The rates are held as the bits of
/// the numbers.
#[derive(Debug, PartialEq, Eq)]
pub struct DocumentProcessingStats {
    pub total_processed: u64,
    pub throughput_per_second_bits: u32,
    pub average_processing_time_ms_bits: u32,
    pub error_count: u64,
    /// The share of documents that were processed without error, between
    /// nought and one.
    pub success_rate_bits: u32,
    /// How many documents of each format were processed.
    pub documents_by_type: Vec<(DocumentType, u64)>,
    pub last_processed_at: Option<Timestamp>,
}

/// The bits of the number one.
pub const ONE_BITS: u32 = 0x3F80_0000;

impl DocumentProcessingStats {
    /// Nothing has been processed: every count and rate is nought, and the
    /// share of successes is one.
    pub open spec fn is_fresh(&self) -> bool {
        &&& self.total_processed == 0
        &&& self.throughput_per_second_bits == 0
        &&& self.average_processing_time_ms_bits == 0
        &&& self.error_count == 0
        &&& self.success_rate_bits == ONE_BITS
        &&& self.documents_by_type@.len() == 0
        &&& self.last_processed_at.is_none()
    }
}

impl Default for DocumentProcessingStats {
    /// The figures of a processor that has processed nothing.
    fn default() -> (stats: Self)
        ensures
            stats.is_fresh(),
    {
        DocumentProcessingStats {
            total_processed: 0,
            throughput_per_second_bits: 0,
            average_processing_time_ms_bits: 0,
            error_count: 0,
            success_rate_bits: ONE_BITS,
            documents_by_type: Vec::new(),
            last_processed_at: None,
        }
    }
}

/// The processor of documents.
pub struct SwarmDocumentProcessor {
    config: DocumentProcessingConfig,
    stats: DocumentProcessingStats,
    supported_types: Vec<DocumentType>,
}

impl SwarmDocumentProcessor {
    /// The configuration of the processor.
    pub closed spec fn configuration(&self) -> DocumentProcessingConfig {
        self.config
    }

    /// The figures of the processor.
    pub closed spec fn figures(&self) -> DocumentProcessingStats {
        self.stats
    }

    /// The formats that the processor takes.
    pub closed spec fn formats(&self) -> Seq<DocumentType> {
        self.supported_types@
    }

    /// What the processor makes of a document, or why it fails.
    pub open spec fn outcome_for(&self, document: DocumentView) -> Result<
        Analysis,
        DocumentErrorView,
    > {
        processing(
            document,
            self.configuration().max_file_size,
            self.configuration().supported_types@,
            self.configuration().processing_options,
        )
    }

    /// A processor with the given configuration that has processed nothing.
    /// It takes the formats that the configuration supports.
    pub fn new(config: DocumentProcessingConfig) -> (processor: Self)
        ensures
            processor.configuration() == config,
            processor.formats() == config.supported_types@,
            processor.figures().is_fresh(),
    {
        let supported_types = config.supported_types.clone();
        assert(supported_types@ =~= config.supported_types@);
        SwarmDocumentProcessor { config, stats: DocumentProcessingStats::default(), supported_types }
    }

    /// The figures of the processor.
    pub fn get_stats(&self) -> (stats: &DocumentProcessingStats)
        ensures
            *stats == self.figures(),
    {
        &self.stats
    }

    /// Sets the figures back to those of a processor that has processed
    /// nothing.
    pub fn reset_stats(&mut self)
        ensures
            final(self).figures().is_fresh(),
            final(self).configuration() == old(self).configuration(),
            final(self).formats() == old(self).formats(),
    {
        self.stats = DocumentProcessingStats::default();
    }

    /// What the processor makes of a document, or why it fails.
    pub fn analyze(&self, document: &Document) -> (outcome: Result<Findings, DocumentError>)
        ensures
            match outcome {
                Ok(found) => self.outcome_for(document@) == Ok::<Analysis, DocumentErrorView>(
                    found@,
                ),
                Err(error) => self.outcome_for(document@) == Err::<Analysis, DocumentErrorView>(
                    error@,
                ),
            },
    {
        match validate_document(document, &self.config) {
            Err(error) => {
                return Err(error);
            },
            Ok(()) => {},
        }
        let options = &self.config.processing_options;
        match document.document_type {
            DocumentType::Pdf => Ok(process_pdf(&document.content, options)),
            DocumentType::Word => Ok(process_word(&document.content, options)),
            DocumentType::Text => match &document.content {
                DocumentContent::Text(text) => Ok(process_text_content(text.as_str(), options)),
                _ => Err(
                    DocumentError::ProcessingFailed {
                        reason: String::from_str("Text document must have text content"),
                    },
                ),
            },
            DocumentType::Html => Ok(process_html(&document.content, options)),
            DocumentType::Markdown => Ok(process_markdown(&document.content, options)),
            _ => Err(
                DocumentError::UnsupportedDocumentType {
                    document_type: String::from_str(document.document_type.as_str()),
                },
            ),
        }
    }
}

impl crate::traits::DocumentProcessor for SwarmDocumentProcessor {
    /// Processes a document. The result gets a fresh identifier and the
    /// time at which the work was begun. A failure is given in words.
    fn process_document(&self, document: &Document) -> (outcome: Result<
        DocumentProcessingResult,
        String,
    >)
        ensures
            match outcome {
                Ok(result) => self.outcome_for(document@) == Ok::<Analysis, DocumentErrorView>(
                    result.analysis(),
                ) && result.document_id != 0 && result.embeddings.is_none() && result.processed_at
                    >= 0,
                Err(reason) => match self.outcome_for(document@) {
                    Err(error) => reason@ == error.text(),
                    Ok(_) => false,
                },
            },
    {
        let started = now_millis();
        match self.analyze(document) {
            Ok(found) => Ok(stamp(found, fresh_id(), started, now_millis())),
            Err(error) => Err(error.to_string()),
        }
    }

    /// The formats that the processor takes.
    fn supported_document_types(&self) -> (types: &[DocumentType])
        ensures
            types@ == self.formats(),
    {
        self.supported_types.as_slice()
    }

    /// Whether the processor takes documents of the given format.
    fn can_process(&self, document_type: &DocumentType) -> (yes: bool)
        ensures
            yes == self.formats().contains(*document_type),
    {
        contains_type(&self.supported_types, *document_type)
    }
}

} // verus!
