//! Small text utilities used throughout the crate.

use vstd::prelude::*;

verus! {

/// The lower-case form of a text under the Unicode case mapping.
pub uninterp spec fn lowercase(text: Seq<char>) -> Seq<char>;

/// Calls `str::to_lowercase`. The result is taken to be the mapping named
/// [`lowercase`], which is a function of the characters of `text` alone.
#[verifier::external_body]
pub(crate) fn to_lowercase(text: &str) -> (lower: String)
    ensures
        lower@ == lowercase(text@),
{
    text.to_lowercase()
}

/// A text as Rust's debug formatting writes it: between double quotes, with
/// the characters that need it escaped.
pub uninterp spec fn debug_quoted(text: Seq<char>) -> Seq<char>;

/// Formats `text` with `{:?}`. The result is taken to be the text named
/// [`debug_quoted`], which is a function of the characters of `text` alone.
#[verifier::external_body]
pub(crate) fn quoted(text: &str) -> (out: String)
    ensures
        out@ == debug_quoted(text@),
{
    format!("{:?}", text)
}

/// Whether two texts hold the same characters.
pub fn str_eq(a: &str, b: &str) -> (same: bool)
    ensures
        same == (a@ == b@),
{
    let left = String::from_str(a);
    let right = String::from_str(b);
    left == right
}

/// The part of `text` that follows the last occurrence of `separator`; all of
/// `text` where `separator` does not occur.
pub open spec fn after_last(text: Seq<char>, separator: char) -> Seq<char>
    decreases text.len(),
{
    if text.len() == 0 {
        text
    } else if text.last() == separator {
        Seq::empty()
    } else {
        after_last(text.drop_last(), separator).push(text.last())
    }
}

/// A suffix free of `separator` that is preceded by `separator`, or by
/// nothing, is the part after the last occurrence.
pub proof fn lemma_after_last_is_suffix(text: Seq<char>, separator: char, start: int)
    requires
        0 <= start <= text.len(),
        start == 0 || text[start - 1] == separator,
        forall|j: int| start <= j < text.len() ==> text[j] != separator,
    ensures
        after_last(text, separator) == text.subrange(start, text.len() as int),
    decreases text.len(),
{
    if text.len() == 0 {
        assert(text.subrange(start, text.len() as int) =~= text);
    } else if start == text.len() {
        assert(text.subrange(start, text.len() as int) =~= Seq::<char>::empty());
    } else {
        let shorter = text.drop_last();
        lemma_after_last_is_suffix(shorter, separator, start);
        assert(shorter.subrange(start, shorter.len() as int).push(text.last())
            =~= text.subrange(start, text.len() as int));
    }
}

/// The part of `text` after the last `separator`.
pub fn last_segment(text: &str, separator: char) -> (segment: &str)
    ensures
        segment@ == after_last(text@, separator),
{
    let length: usize = text.unicode_len();
    let mut start: usize = length;
    while start > 0 && text.get_char(start - 1) != separator
        invariant
            start <= length,
            length == text@.len(),
            forall|j: int| start <= j < length ==> text@[j] != separator,
        decreases start,
    {
        start = start - 1;
    }
    proof {
        lemma_after_last_is_suffix(text@, separator, start as int);
    }
    text.substring_char(start, length)
}

/// The items of a list written one after the other, with `separator` between
/// each two neighbours.
pub open spec fn joined(items: Seq<Seq<char>>, separator: Seq<char>) -> Seq<char>
    decreases items.len(),
{
    if items.len() == 0 {
        Seq::empty()
    } else if items.len() == 1 {
        items[0]
    } else {
        joined(items.drop_last(), separator) + separator + items.last()
    }
}

/// A list as it is written in diagnostics: `[a, b, c]`.
pub open spec fn bracketed(items: Seq<Seq<char>>) -> Seq<char> {
    "["@ + joined(items, ", "@) + "]"@
}

/// The decimal digit for a number below ten.
pub open spec fn digit(n: nat) -> Seq<char> {
    if n == 0 {
        "0"@
    } else if n == 1 {
        "1"@
    } else if n == 2 {
        "2"@
    } else if n == 3 {
        "3"@
    } else if n == 4 {
        "4"@
    } else if n == 5 {
        "5"@
    } else if n == 6 {
        "6"@
    } else if n == 7 {
        "7"@
    } else if n == 8 {
        "8"@
    } else {
        "9"@
    }
}

/// A number written in decimal, without leading zeros.
pub open spec fn decimal(n: nat) -> Seq<char>
    decreases n,
{
    if n < 10 {
        digit(n)
    } else {
        decimal(n / 10) + digit(n % 10)
    }
}

/// Writes a number in decimal.
pub fn to_decimal(n: u64) -> (text: String)
    ensures
        text@ == decimal(n as nat),
    decreases n,
{
    let last: &'static str = match n % 10 {
        0 => "0",
        1 => "1",
        2 => "2",
        3 => "3",
        4 => "4",
        5 => "5",
        6 => "6",
        7 => "7",
        8 => "8",
        _ => "9",
    };
    if n < 10 {
        String::from_str(last)
    } else {
        let mut text = to_decimal(n / 10);
        text.append(last);
        text
    }
}

/// The characters of each text of a list.
pub open spec fn str_views(items: Seq<&'static str>) -> Seq<Seq<char>> {
    items.map_values(|s: &'static str| s@)
}

/// Writes a list of names as `[a, b, c]`.
pub fn bracket_list(items: &Vec<&'static str>) -> (out: String)
    ensures
        out@ == bracketed(str_views(items@)),
{
    let mut out = String::from_str("[");
    let mut i: usize = 0;
    assert(str_views(items@).subrange(0, 0) =~= Seq::<Seq<char>>::empty());
    while i < items.len()
        invariant
            i <= items@.len(),
            out@ == "["@ + joined(str_views(items@).subrange(0, i as int), ", "@),
        decreases items@.len() - i,
    {
        let ghost before = str_views(items@).subrange(0, i as int);
        let ghost after = str_views(items@).subrange(0, i + 1);
        proof {
            assert(after.drop_last() =~= before);
            assert(after.last() == items@[i as int]@);
        }
        if i > 0 {
            out.append(", ");
            out.append(items[i]);
            assert(out@ =~= "["@ + joined(after, ", "@));
        } else {
            out.append(items[i]);
            assert(joined(before, ", "@) =~= Seq::<char>::empty());
            assert(out@ =~= "["@ + joined(after, ", "@));
        }
        i = i + 1;
    }
    assert(str_views(items@).subrange(0, i as int) =~= str_views(items@));
    out.append("]");
    out
}

} // verus!
