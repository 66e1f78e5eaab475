//! The patterns by which files are let in and kept out.
//!
//! A pattern is a piece of text that may begin and end with stars. A path
//! matches it if the text between the stars occurs in the path. Two patterns
//! are special: `*` lets every path in, and `.*` keeps hidden files out.

use crate::chars::{chars_of, contains, contains_chars};
use crate::task::text_views;
use crate::text::str_eq;
use vstd::prelude::*;

verus! {

/// The text without the stars at its start.
pub open spec fn without_leading_stars(text: Seq<char>) -> Seq<char>
    decreases text.len(),
{
    if text.len() > 0 && text[0] == '*' {
        without_leading_stars(text.skip(1))
    } else {
        text
    }
}

/// The text without the stars at its end.
pub open spec fn without_trailing_stars(text: Seq<char>) -> Seq<char>
    decreases text.len(),
{
    if text.len() > 0 && text.last() == '*' {
        without_trailing_stars(text.drop_last())
    } else {
        text
    }
}

/// The text of a pattern between its stars.
pub open spec fn starless(pattern: Seq<char>) -> Seq<char> {
    without_trailing_stars(without_leading_stars(pattern))
}

/// The path matches the pattern: what stands between the stars of the
/// pattern occurs in the path.
pub open spec fn hits(path: Seq<char>, pattern: Seq<char>) -> bool {
    contains(path, starless(pattern))
}

/// The name is that of a hidden file: it begins with a dot.
pub open spec fn hidden(file_name: Option<Seq<char>>) -> bool {
    match file_name {
        Some(name) => name.len() > 0 && name[0] == '.',
        None => false,
    }
}

/// One of the patterns lets the path in: it is `*`, or the path matches it.
pub open spec fn included(patterns: Seq<Seq<char>>, path: Seq<char>) -> bool {
    exists|i: int|
        0 <= i < patterns.len() && (#[trigger] patterns[i] == "*"@ || hits(path, patterns[i]))
}

/// Whether the pattern keeps the file out: the pattern `.*` keeps a hidden
/// file out, any other pattern a file whose path matches it.
pub open spec fn keeps_out(pattern: Seq<char>, path: Seq<char>, file_name: Option<Seq<char>>) -> bool {
    if pattern == ".*"@ {
        hidden(file_name)
    } else {
        hits(path, pattern)
    }
}

/// One of the patterns keeps the file out.
pub open spec fn excluded(
    patterns: Seq<Seq<char>>,
    path: Seq<char>,
    file_name: Option<Seq<char>>,
) -> bool {
    exists|i: int| 0 <= i < patterns.len() && keeps_out(#[trigger] patterns[i], path, file_name)
}

/// The characters of an optional name.
pub open spec fn optional_name(name: Option<&str>) -> Option<Seq<char>> {
    match name {
        Some(n) => Some(n@),
        None => None,
    }
}

/// The text of a pattern between its stars.
pub fn strip_stars(pattern: &Vec<char>) -> (out: Vec<char>)
    ensures
        out@ == starless(pattern@),
{
    let mut start: usize = 0;
    assert(pattern@.skip(0) =~= pattern@);
    while start < pattern.len() && pattern[start] == '*'
        invariant
            start <= pattern@.len(),
            without_leading_stars(pattern@) == without_leading_stars(pattern@.skip(start as int)),
        decreases pattern@.len() - start,
    {
        proof {
            assert(pattern@.skip(start as int)[0] == pattern@[start as int]);
            assert(pattern@.skip(start as int).skip(1) =~= pattern@.skip(start + 1));
        }
        start = start + 1;
    }
    proof {
        if start < pattern@.len() {
            assert(pattern@.skip(start as int)[0] == pattern@[start as int]);
        }
    }
    let mut end: usize = pattern.len();
    let ghost body = pattern@.skip(start as int);
    assert(body =~= pattern@.subrange(start as int, end as int));
    while end > start && pattern[end - 1] == '*'
        invariant
            start <= end <= pattern@.len(),
            body == pattern@.skip(start as int),
            without_trailing_stars(body) == without_trailing_stars(
                pattern@.subrange(start as int, end as int),
            ),
        decreases end,
    {
        proof {
            let part = pattern@.subrange(start as int, end as int);
            assert(part.last() == pattern@[end - 1]);
            assert(part.drop_last() =~= pattern@.subrange(start as int, end - 1));
        }
        end = end - 1;
    }
    proof {
        let part = pattern@.subrange(start as int, end as int);
        if end > start {
            assert(part.last() == pattern@[end - 1]);
        }
    }
    let mut out: Vec<char> = Vec::new();
    let mut i: usize = start;
    while i < end
        invariant
            start <= i <= end <= pattern@.len(),
            out@ == pattern@.subrange(start as int, i as int),
        decreases end - i,
    {
        out.push(pattern[i]);
        assert(out@ =~= pattern@.subrange(start as int, i + 1));
        i = i + 1;
    }
    out
}

/// Whether the path matches the pattern.
pub fn pattern_hits(path: &Vec<char>, pattern: &str) -> (hit: bool)
    ensures
        hit == hits(path@, pattern@),
{
    let bare = strip_stars(&chars_of(pattern));
    contains_chars(path, &bare)
}

/// Whether the name is that of a hidden file.
pub fn is_hidden(file_name: Option<&str>) -> (yes: bool)
    ensures
        yes == hidden(optional_name(file_name)),
{
    match file_name {
        Some(name) => {
            let chars = chars_of(name);
            chars.len() > 0 && chars[0] == '.'
        },
        None => false,
    }
}

/// Whether one of the patterns lets the path in.
pub fn matches_include_patterns(patterns: &Vec<String>, path: &str) -> (yes: bool)
    ensures
        yes == included(text_views(patterns@), path@),
{
    let path_chars = chars_of(path);
    let ghost views = text_views(patterns@);
    let mut i: usize = 0;
    while i < patterns.len()
        invariant
            i <= patterns@.len(),
            views == text_views(patterns@),
            path_chars@ == path@,
            forall|j: int| 0 <= j < i ==> !(#[trigger] views[j] == "*"@ || hits(path@, views[j])),
        decreases patterns@.len() - i,
    {
        assert(views[i as int] == patterns@[i as int]@);
        if str_eq(patterns[i].as_str(), "*") || pattern_hits(&path_chars, patterns[i].as_str()) {
            return true;
        }
        i = i + 1;
    }
    false
}

/// Whether one of the patterns keeps the file out.
pub fn matches_exclude_patterns(patterns: &Vec<String>, path: &str, file_name: Option<&str>) -> (yes:
    bool)
    ensures
        yes == excluded(text_views(patterns@), path@, optional_name(file_name)),
{
    let path_chars = chars_of(path);
    let ghost views = text_views(patterns@);
    let ghost name = optional_name(file_name);
    let dotted = is_hidden(file_name);
    let mut i: usize = 0;
    while i < patterns.len()
        invariant
            i <= patterns@.len(),
            views == text_views(patterns@),
            path_chars@ == path@,
            name == optional_name(file_name),
            dotted == hidden(name),
            forall|j: int| 0 <= j < i ==> !keeps_out(#[trigger] views[j], path@, name),
        decreases patterns@.len() - i,
    {
        assert(views[i as int] == patterns@[i as int]@);
        let out = if str_eq(patterns[i].as_str(), ".*") {
            dotted
        } else {
            pattern_hits(&path_chars, patterns[i].as_str())
        };
        if out {
            assert(keeps_out(views[i as int], path@, name));
            return true;
        }
        i = i + 1;
    }
    false
}

} // verus!
