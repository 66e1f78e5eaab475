//! Texts as lists of characters: searching, replacing, trimming and
//! splitting, as the standard library does them on strings.

use vstd::prelude::*;
use vstd::std_specs::iter::IteratorSpec;

verus! {

broadcast use vstd::string::group_string_axioms;

/// The characters of a text.
pub fn chars_of(text: &str) -> (chars: Vec<char>)
    ensures
        chars@ == text@,
{
    let mut chars: Vec<char> = Vec::new();
    let mut rest = text.chars();
    loop
        invariant
            chars@ + rest.remaining() == text@,
            rest.obeys_prophetic_iter_laws(),
            rest.decrease() is Some,
        ensures
            chars@ == text@,
        decreases rest.decrease()->0,
    {
        let ghost before = rest;
        match rest.next() {
            Some(c) => {
                proof {
                    assert(chars@.push(c) + before.remaining().drop_first() =~= chars@
                        + before.remaining());
                }
                chars.push(c);
            },
            None => {
                assert(chars@ + before.remaining() =~= chars@);
                break;
            },
        }
    }
    chars
}

/// `String::push` appends the character to the end of the text.
pub assume_specification[ String::push ](text: &mut String, c: char)
    ensures
        final(text)@ == old(text)@.push(c),
;

/// The text that holds the given characters in their order.
pub fn string_of(chars: &Vec<char>) -> (text: String)
    ensures
        text@ == chars@,
{
    let mut text = String::new();
    let mut i: usize = 0;
    while i < chars.len()
        invariant
            i <= chars@.len(),
            text@ == chars@.subrange(0, i as int),
        decreases chars@.len() - i,
    {
        text.push(chars[i]);
        assert(text@ =~= chars@.subrange(0, i + 1));
        i = i + 1;
    }
    assert(chars@.subrange(0, i as int) =~= chars@);
    text
}

/// Whether a character is white space: one of the characters that Unicode
/// marks as such.
pub open spec fn is_whitespace(c: char) -> bool {
    let code = c as u32;
    (0x09 <= code <= 0x0D) || code == 0x20 || code == 0x85 || code == 0xA0 || code == 0x1680 || (
    0x2000 <= code <= 0x200A) || code == 0x2028 || code == 0x2029 || code == 0x202F || code
        == 0x205F || code == 0x3000
}

/// Whether a character is white space.
pub fn char_is_whitespace(c: char) -> (white: bool)
    ensures
        white == is_whitespace(c),
{
    let code: u32 = c as u32;
    (0x09 <= code && code <= 0x0D) || code == 0x20 || code == 0x85 || code == 0xA0 || code
        == 0x1680 || (0x2000 <= code && code <= 0x200A) || code == 0x2028 || code == 0x2029
        || code == 0x202F || code == 0x205F || code == 0x3000
}

/// Whether a character is a letter or a digit in the sense of Unicode.
pub uninterp spec fn alphanumeric(c: char) -> bool;

/// Calls `char::is_alphanumeric`. The result is taken to be the property
/// named [`alphanumeric`], which is a function of the character alone.
#[verifier::external_body]
pub(crate) fn char_is_alphanumeric(c: char) -> (yes: bool)
    ensures
        yes == alphanumeric(c),
{
    c.is_alphanumeric()
}

/// The pattern stands in the text at the given position.
pub open spec fn found_at(text: Seq<char>, pattern: Seq<char>, at: int) -> bool {
    0 <= at && at + pattern.len() <= text.len() && text.subrange(at, at + pattern.len())
        == pattern
}

/// The pattern stands somewhere in the text.
pub open spec fn contains(text: Seq<char>, pattern: Seq<char>) -> bool {
    exists|at: int| found_at(text, pattern, at)
}

/// The text with every occurrence of `from` replaced by `to`. Occurrences
/// are looked for from left to right and do not overlap. An empty `from`
/// occurs before every character and at the end.
pub open spec fn replaced(text: Seq<char>, from: Seq<char>, to: Seq<char>) -> Seq<char>
    decreases text.len(),
{
    if from.len() == 0 {
        if text.len() == 0 {
            to
        } else {
            to + (seq![text[0]] + replaced(text.skip(1), from, to))
        }
    } else if text.len() < from.len() {
        text
    } else if found_at(text, from, 0) {
        to + replaced(text.skip(from.len() as int), from, to)
    } else {
        seq![text[0]] + replaced(text.skip(1), from, to)
    }
}

/// How often the pattern occurs in the text. Occurrences are looked for from
/// left to right and do not overlap. An empty pattern occurs before every
/// character and at the end.
pub open spec fn occurrences(text: Seq<char>, pattern: Seq<char>) -> nat
    decreases text.len(),
{
    if pattern.len() == 0 {
        text.len() + 1
    } else if text.len() < pattern.len() {
        0
    } else if found_at(text, pattern, 0) {
        1 + occurrences(text.skip(pattern.len() as int), pattern)
    } else {
        occurrences(text.skip(1), pattern)
    }
}

/// The text without the white space at its start.
pub open spec fn trimmed_start(text: Seq<char>) -> Seq<char>
    decreases text.len(),
{
    if text.len() > 0 && is_whitespace(text[0]) {
        trimmed_start(text.skip(1))
    } else {
        text
    }
}

/// The text without the white space at its end.
pub open spec fn trimmed_end(text: Seq<char>) -> Seq<char>
    decreases text.len(),
{
    if text.len() > 0 && is_whitespace(text.last()) {
        trimmed_end(text.drop_last())
    } else {
        text
    }
}

/// The text without the white space at its start and at its end.
pub open spec fn trimmed(text: Seq<char>) -> Seq<char> {
    trimmed_end(trimmed_start(text))
}

/// The length of the first word of a text that does not begin with white
/// space: the number of characters before the first white space.
pub open spec fn word_length(text: Seq<char>) -> int
    decreases text.len(),
{
    if text.len() == 0 || is_whitespace(text[0]) {
        0
    } else {
        1 + word_length(text.skip(1))
    }
}

/// The words of a text: the longest runs of characters that are not white
/// space, in their order.
pub open spec fn words(text: Seq<char>) -> Seq<Seq<char>>
    decreases text.len(),
{
    if text.len() == 0 {
        Seq::empty()
    } else if is_whitespace(text[0]) {
        words(text.skip(1))
    } else {
        let length = word_length(text);
        if 0 < length <= text.len() {
            seq![text.subrange(0, length)] + words(text.skip(length))
        } else {
            Seq::empty()
        }
    }
}

/// The first word ends within the text, and where the text does not begin
/// with white space, it is not empty.
pub proof fn lemma_word_length(text: Seq<char>)
    ensures
        0 <= word_length(text) <= text.len(),
        text.len() > 0 && !is_whitespace(text[0]) ==> word_length(text) > 0,
        forall|i: int| 0 <= i < word_length(text) ==> !is_whitespace(#[trigger] text[i]),
        word_length(text) < text.len() ==> is_whitespace(text[word_length(text)]),
    decreases text.len(),
{
    if text.len() > 0 && !is_whitespace(text[0]) {
        lemma_word_length(text.skip(1));
        assert forall|i: int| 0 <= i < word_length(text) implies !is_whitespace(
            #[trigger] text[i],
        ) by {
            if i > 0 {
                assert(text[i] == text.skip(1)[i - 1]);
            }
        }
        if word_length(text) < text.len() {
            assert(text[word_length(text)] == text.skip(1)[word_length(text.skip(1))]);
        }
    }
}

/// The mathematical value of a list of lists of characters.
pub open spec fn char_views(lists: Seq<Vec<char>>) -> Seq<Seq<char>> {
    lists.map_values(|l: Vec<char>| l@)
}

/// Whether the pattern stands in the text at the given position.
pub fn matches_at(text: &Vec<char>, pattern: &Vec<char>, at: usize) -> (found: bool)
    ensures
        found == found_at(text@, pattern@, at as int),
{
    if pattern.len() > text.len() || at > text.len() - pattern.len() {
        return false;
    }
    let mut i: usize = 0;
    while i < pattern.len()
        invariant
            i <= pattern@.len(),
            at + pattern@.len() <= text@.len() <= usize::MAX,
            forall|j: int| 0 <= j < i ==> text@[at + j] == pattern@[j],
        decreases pattern@.len() - i,
    {
        if text[at + i] != pattern[i] {
            assert(text@.subrange(at as int, at + pattern@.len())[i as int] != pattern@[i as int]);
            return false;
        }
        i = i + 1;
    }
    assert(text@.subrange(at as int, at + pattern@.len()) =~= pattern@);
    true
}

/// Whether the pattern stands somewhere in the text.
pub fn contains_chars(text: &Vec<char>, pattern: &Vec<char>) -> (found: bool)
    ensures
        found == contains(text@, pattern@),
{
    if pattern.len() > text.len() {
        assert forall|at: int| !found_at(text@, pattern@, at) by {}
        return false;
    }
    if pattern.len() == 0 {
        assert(text@.subrange(0, 0) =~= pattern@);
        assert(found_at(text@, pattern@, 0));
        return true;
    }
    let last: usize = text.len() - pattern.len();
    let mut at: usize = 0;
    while at <= last
        invariant
            at <= last + 1,
            last == text@.len() - pattern@.len(),
            last < text@.len() <= usize::MAX,
            forall|j: int| 0 <= j < at ==> !found_at(text@, pattern@, j),
        decreases last + 1 - at,
    {
        if matches_at(text, pattern, at) {
            return true;
        }
        at = at + 1;
    }
    assert forall|j: int| !found_at(text@, pattern@, j) by {}
    false
}

/// Puts the characters of `more` behind those of `out`.
fn push_all(out: &mut Vec<char>, more: &Vec<char>)
    ensures
        final(out)@ == old(out)@ + more@,
{
    let mut i: usize = 0;
    assert(out@ =~= old(out)@ + more@.subrange(0, 0));
    while i < more.len()
        invariant
            i <= more@.len(),
            out@ == old(out)@ + more@.subrange(0, i as int),
        decreases more@.len() - i,
    {
        out.push(more[i]);
        assert(out@ =~= old(out)@ + more@.subrange(0, i + 1));
        i = i + 1;
    }
    assert(more@.subrange(0, i as int) =~= more@);
}

/// The text with `to` before every character and at the end.
fn interleave_chars(text: &Vec<char>, to: &Vec<char>) -> (out: Vec<char>)
    ensures
        out@ == replaced(text@, Seq::<char>::empty(), to@),
{
    let ghost none = Seq::<char>::empty();
    let mut out: Vec<char> = Vec::new();
    let mut at: usize = 0;
    assert(text@.skip(0) =~= text@);
    while at < text.len()
        invariant
            at <= text@.len(),
            none == Seq::<char>::empty(),
            out@ + replaced(text@.skip(at as int), none, to@) == replaced(text@, none, to@),
        decreases text@.len() - at,
    {
        let ghost rest = text@.skip(at as int);
        let ghost before = out@;
        push_all(&mut out, to);
        out.push(text[at]);
        proof {
            assert(rest[0] == text@[at as int]);
            assert(rest.skip(1) =~= text@.skip(at + 1));
            assert(out@ + replaced(text@.skip(at + 1), none, to@) =~= before + (to@ + (seq![
                rest[0],
            ] + replaced(rest.skip(1), none, to@))));
        }
        at = at + 1;
    }
    assert(text@.skip(at as int) =~= Seq::<char>::empty());
    push_all(&mut out, to);
    out
}

/// The text with every occurrence of `from` replaced by `to`.
pub fn replace_chars(text: &Vec<char>, from: &Vec<char>, to: &Vec<char>) -> (out: Vec<char>)
    ensures
        out@ == replaced(text@, from@, to@),
{
    if from.len() == 0 {
        assert(from@ =~= Seq::<char>::empty());
        return interleave_chars(text, to);
    }
    let mut out: Vec<char> = Vec::new();
    let mut at: usize = 0;
    assert(text@.skip(0) =~= text@);
    while at < text.len()
        invariant
            at <= text@.len(),
            from@.len() > 0,
            out@ + replaced(text@.skip(at as int), from@, to@) == replaced(text@, from@, to@),
        decreases text@.len() - at,
    {
        let ghost rest = text@.skip(at as int);
        let ghost before = out@;
        if matches_at(text, from, at) {
            proof {
                assert(rest.subrange(0, from@.len() as int) =~= text@.subrange(
                    at as int,
                    at + from@.len(),
                ));
                assert(rest.skip(from@.len() as int) =~= text@.skip(at + from@.len()));
            }
            push_all(&mut out, to);
            assert(out@ + replaced(text@.skip(at + from@.len()), from@, to@) =~= before + (to@
                + replaced(rest.skip(from@.len() as int), from@, to@)));
            at = at + from.len();
        } else {
            proof {
                if rest.len() >= from@.len() {
                    assert(rest.subrange(0, from@.len() as int) =~= text@.subrange(
                        at as int,
                        at + from@.len(),
                    ));
                }
                assert(rest.skip(1) =~= text@.skip(at + 1));
                assert(rest[0] == text@[at as int]);
            }
            out.push(text[at]);
            proof {
                if rest.len() < from@.len() {
                    lemma_replaced_short(rest, from@, to@);
                    lemma_replaced_short(rest.skip(1), from@, to@);
                    assert(rest =~= seq![rest[0]] + rest.skip(1));
                }
                assert(out@ + replaced(text@.skip(at + 1), from@, to@) =~= before + (seq![rest[0]]
                    + replaced(rest.skip(1), from@, to@)));
            }
            at = at + 1;
        }
    }
    assert(out@ + Seq::<char>::empty() =~= out@);
    out
}

/// A text that is shorter than the pattern stays as it is.
proof fn lemma_replaced_short(text: Seq<char>, from: Seq<char>, to: Seq<char>)
    requires
        from.len() > 0,
        text.len() < from.len(),
    ensures
        replaced(text, from, to) == text,
{
}

/// How often the pattern occurs in the text.
pub fn count_occurrences(text: &Vec<char>, pattern: &Vec<char>) -> (count: u128)
    ensures
        count == occurrences(text@, pattern@),
        count <= text@.len() + 1,
{
    let mut count: u128 = 0;
    let mut at: usize = 0;
    assert(text@.skip(0) =~= text@);
    if pattern.len() == 0 {
        return text.len() as u128 + 1;
    }
    while at < text.len()
        invariant
            at <= text@.len(),
            pattern@.len() > 0,
            count <= at,
            count + occurrences(text@.skip(at as int), pattern@) == occurrences(text@, pattern@),
        decreases text@.len() - at,
    {
        let ghost rest = text@.skip(at as int);
        if matches_at(text, pattern, at) {
            proof {
                assert(rest.subrange(0, pattern@.len() as int) =~= text@.subrange(
                    at as int,
                    at + pattern@.len(),
                ));
                assert(rest.skip(pattern@.len() as int) =~= text@.skip(at + pattern@.len()));
            }
            count = count + 1;
            at = at + pattern.len();
        } else {
            proof {
                if rest.len() >= pattern@.len() {
                    assert(rest.subrange(0, pattern@.len() as int) =~= text@.subrange(
                        at as int,
                        at + pattern@.len(),
                    ));
                }
                assert(rest.skip(1) =~= text@.skip(at + 1));
            }
            at = at + 1;
        }
    }
    count
}

/// The first position of the text that holds no white space, or the length
/// of the text.
fn skip_whitespace(text: &Vec<char>, from: usize) -> (at: usize)
    requires
        from <= text@.len(),
    ensures
        from <= at <= text@.len(),
        forall|j: int| from <= j < at ==> is_whitespace(#[trigger] text@[j]),
        at < text@.len() ==> !is_whitespace(text@[at as int]),
        trimmed_start(text@.skip(from as int)) == text@.skip(at as int),
{
    let mut at: usize = from;
    while at < text.len() && char_is_whitespace(text[at])
        invariant
            from <= at <= text@.len(),
            forall|j: int| from <= j < at ==> is_whitespace(#[trigger] text@[j]),
            trimmed_start(text@.skip(from as int)) == trimmed_start(text@.skip(at as int)),
        decreases text@.len() - at,
    {
        proof {
            assert(text@.skip(at as int)[0] == text@[at as int]);
            assert(text@.skip(at as int).skip(1) =~= text@.skip(at + 1));
        }
        at = at + 1;
    }
    proof {
        if at < text@.len() {
            assert(text@.skip(at as int)[0] == text@[at as int]);
        }
    }
    at
}

/// The text without the white space at its start and at its end.
pub fn trim_chars(text: &Vec<char>) -> (out: Vec<char>)
    ensures
        out@ == trimmed(text@),
{
    let start = skip_whitespace(text, 0);
    assert(text@.skip(0) =~= text@);
    let mut end: usize = text.len();
    let ghost body = text@.skip(start as int);
    assert(body =~= text@.subrange(start as int, end as int));
    while end > start && char_is_whitespace(text[end - 1])
        invariant
            start <= end <= text@.len(),
            body == text@.skip(start as int),
            trimmed_end(body) == trimmed_end(text@.subrange(start as int, end as int)),
        decreases end,
    {
        proof {
            let part = text@.subrange(start as int, end as int);
            assert(part.last() == text@[end - 1]);
            assert(part.drop_last() =~= text@.subrange(start as int, end - 1));
        }
        end = end - 1;
    }
    proof {
        let part = text@.subrange(start as int, end as int);
        if end > start {
            assert(part.last() == text@[end - 1]);
        }
    }
    let mut out: Vec<char> = Vec::new();
    let mut i: usize = start;
    while i < end
        invariant
            start <= i <= end <= text@.len(),
            out@ == text@.subrange(start as int, i as int),
        decreases end - i,
    {
        out.push(text[i]);
        assert(out@ =~= text@.subrange(start as int, i + 1));
        i = i + 1;
    }
    out
}

/// The words of a text.
pub fn split_words(text: &Vec<char>) -> (out: Vec<Vec<char>>)
    ensures
        char_views(out@) == words(text@),
{
    let mut out: Vec<Vec<char>> = Vec::new();
    let mut at: usize = 0;
    assert(text@.skip(0) =~= text@);
    assert(char_views(out@) =~= Seq::<Seq<char>>::empty());
    while at < text.len()
        invariant
            at <= text@.len(),
            char_views(out@) + words(text@.skip(at as int)) == words(text@),
        decreases text@.len() - at,
    {
        let ghost rest = text@.skip(at as int);
        let ghost before = char_views(out@);
        proof {
            assert(rest[0] == text@[at as int]);
            assert(rest.skip(1) =~= text@.skip(at + 1));
        }
        if char_is_whitespace(text[at]) {
            at = at + 1;
        } else {
            let mut word: Vec<char> = Vec::new();
            let start = at;
            proof {
                lemma_word_length(rest);
            }
            while at < text.len() && !char_is_whitespace(text[at])
                invariant
                    start <= at <= text@.len(),
                    rest == text@.skip(start as int),
                    word@ == text@.subrange(start as int, at as int),
                    at - start <= word_length(rest),
                    word_length(rest) <= rest.len(),
                    forall|i: int| 0 <= i < word_length(rest) ==> !is_whitespace(#[trigger] rest[i]),
                    word_length(rest) < rest.len() ==> is_whitespace(rest[word_length(rest)]),
                decreases text@.len() - at,
            {
                proof {
                    assert(rest[at - start] == text@[at as int]);
                }
                word.push(text[at]);
                assert(word@ =~= text@.subrange(start as int, at + 1));
                at = at + 1;
            }
            proof {
                let length = word_length(rest);
                if at < text@.len() {
                    assert(rest[at - start] == text@[at as int]);
                }
                assert(at - start == length);
                assert(word@ =~= rest.subrange(0, length));
                assert(rest.skip(length) =~= text@.skip(at as int));
            }
            out.push(word);
            proof {
                assert(char_views(out@) =~= before.push(word@));
                assert(char_views(out@) + words(text@.skip(at as int)) =~= before + (seq![word@]
                    + words(rest.skip(word_length(rest)))));
            }
        }
    }
    assert(char_views(out@) + Seq::<Seq<char>>::empty() =~= char_views(out@));
    out
}

} // verus!

verus! {

/// The text without the characters at its start that are neither letters
/// nor digits.
pub open spec fn stripped_start(text: Seq<char>) -> Seq<char>
    decreases text.len(),
{
    if text.len() > 0 && !alphanumeric(text[0]) {
        stripped_start(text.skip(1))
    } else {
        text
    }
}

/// The text without the characters at its end that are neither letters nor
/// digits.
pub open spec fn stripped_end(text: Seq<char>) -> Seq<char>
    decreases text.len(),
{
    if text.len() > 0 && !alphanumeric(text.last()) {
        stripped_end(text.drop_last())
    } else {
        text
    }
}

/// The text without the characters at its start and at its end that are
/// neither letters nor digits.
pub open spec fn stripped(text: Seq<char>) -> Seq<char> {
    stripped_end(stripped_start(text))
}

/// The text without the characters at its start and at its end that are
/// neither letters nor digits.
pub fn strip_chars(text: &Vec<char>) -> (out: Vec<char>)
    ensures
        out@ == stripped(text@),
{
    let mut start: usize = 0;
    assert(text@.skip(0) =~= text@);
    while start < text.len() && !char_is_alphanumeric(text[start])
        invariant
            start <= text@.len(),
            stripped_start(text@) == stripped_start(text@.skip(start as int)),
        decreases text@.len() - start,
    {
        proof {
            assert(text@.skip(start as int)[0] == text@[start as int]);
            assert(text@.skip(start as int).skip(1) =~= text@.skip(start + 1));
        }
        start = start + 1;
    }
    proof {
        if start < text@.len() {
            assert(text@.skip(start as int)[0] == text@[start as int]);
        }
    }
    let mut end: usize = text.len();
    let ghost body = text@.skip(start as int);
    assert(body =~= text@.subrange(start as int, end as int));
    while end > start && !char_is_alphanumeric(text[end - 1])
        invariant
            start <= end <= text@.len(),
            body == text@.skip(start as int),
            stripped_end(body) == stripped_end(text@.subrange(start as int, end as int)),
        decreases end,
    {
        proof {
            let part = text@.subrange(start as int, end as int);
            assert(part.last() == text@[end - 1]);
            assert(part.drop_last() =~= text@.subrange(start as int, end - 1));
        }
        end = end - 1;
    }
    proof {
        let part = text@.subrange(start as int, end as int);
        if end > start {
            assert(part.last() == text@[end - 1]);
        }
    }
    let mut out: Vec<char> = Vec::new();
    let mut i: usize = start;
    while i < end
        invariant
            start <= i <= end <= text@.len(),
            out@ == text@.subrange(start as int, i as int),
        decreases end - i,
    {
        out.push(text[i]);
        assert(out@ =~= text@.subrange(start as int, i + 1));
        i = i + 1;
    }
    out
}

/// Whether two lists hold the same characters.
pub fn same_chars(a: &Vec<char>, b: &Vec<char>) -> (same: bool)
    ensures
        same == (a@ == b@),
{
    if a.len() != b.len() {
        return false;
    }
    let mut i: usize = 0;
    while i < a.len()
        invariant
            i <= a@.len(),
            a@.len() == b@.len(),
            forall|j: int| 0 <= j < i ==> a@[j] == b@[j],
        decreases a@.len() - i,
    {
        if a[i] != b[i] {
            return false;
        }
        i = i + 1;
    }
    assert(a@ =~= b@);
    true
}

} // verus!
