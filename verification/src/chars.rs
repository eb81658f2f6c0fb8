//! Classes of characters.

use vstd::prelude::*;

verus! {

/// Whether `c` has the Unicode property `Alphabetic`. The library asks it
/// of characters outside ASCII only.
pub uninterp spec fn alphabetic(c: char) -> bool;

/// Whether `c` has the Unicode property `White_Space`. The library asks it
/// of characters outside ASCII only.
pub uninterp spec fn whitespace(c: char) -> bool;

/// `char::is_alphabetic` of the standard library: whether the character has
/// the Unicode property `Alphabetic`. The property is named, not spelled out.
pub assume_specification[ char::is_alphabetic ](c: char) -> (b: bool)
    ensures
        b == alphabetic(c),
;

/// `char::is_whitespace` of the standard library: whether the character has
/// the Unicode property `White_Space`. The property is named, not spelled out.
pub assume_specification[ char::is_whitespace ](c: char) -> (b: bool)
    ensures
        b == whitespace(c),
;

/// A character of ASCII.
pub open spec fn ascii(c: char) -> bool {
    c <= '\u{7f}'
}

/// An alphabetic character: within ASCII a letter, outside it a character
/// that Unicode counts as alphabetic.
pub open spec fn spec_is_alpha(c: char) -> bool {
    if ascii(c) {
        ('a' <= c && c <= 'z') || ('A' <= c && c <= 'Z')
    } else {
        alphabetic(c)
    }
}

/// Whether `c` is alphabetic.
pub fn is_alpha(c: char) -> (b: bool)
    ensures
        b == spec_is_alpha(c),
{
    if c <= '\u{7f}' {
        ('a' <= c && c <= 'z') || ('A' <= c && c <= 'Z')
    } else {
        c.is_alphabetic()
    }
}

/// White space: within ASCII a space, a tabulator, a line feed, a vertical
/// tabulator, a form feed or a carriage return, outside it a character that
/// Unicode counts as white space.
pub open spec fn spec_is_space(c: char) -> bool {
    if ascii(c) {
        c == ' ' || ('\t' <= c && c <= '\r')
    } else {
        whitespace(c)
    }
}

/// Whether `c` is white space.
pub fn is_space(c: char) -> (b: bool)
    ensures
        b == spec_is_space(c),
{
    if c <= '\u{7f}' {
        c == ' ' || ('\t' <= c && c <= '\r')
    } else {
        c.is_whitespace()
    }
}

/// Every character of `text` is white space.
pub open spec fn spec_is_blank(text: Seq<char>) -> bool {
    forall|i: int| 0 <= i < text.len() ==> spec_is_space(#[trigger] text[i])
}

/// Whether every character of `text` is white space.
pub fn is_blank(text: &[char]) -> (b: bool)
    ensures
        b == spec_is_blank(text@),
{
    let mut i: usize = 0;
    while i < text.len()
        invariant
            i <= text.len(),
            forall|j: int| 0 <= j < i ==> spec_is_space(#[trigger] text@[j]),
        decreases text.len() - i,
    {
        if !is_space(text[i]) {
            return false;
        }
        i += 1;
    }
    true
}

/// The number of white-space characters that `text` starts with.
pub open spec fn leading_blank(text: Seq<char>) -> int
    decreases text.len(),
{
    if text.len() > 0 && spec_is_space(text[0]) {
        1 + leading_blank(text.subrange(1, text.len() as int))
    } else {
        0
    }
}

/// The white space at the start of a text is no longer than the text.
pub proof fn lemma_leading_blank_bound(text: Seq<char>)
    ensures
        0 <= leading_blank(text) <= text.len(),
    decreases text.len(),
{
    if text.len() > 0 && spec_is_space(text[0]) {
        lemma_leading_blank_bound(text.subrange(1, text.len() as int));
    }
}

/// `text` without the white space that it starts with.
pub open spec fn spec_trim_start(text: Seq<char>) -> Seq<char> {
    text.subrange(leading_blank(text), text.len() as int)
}

/// `text` without the white space that it starts with.
pub fn trim_start(text: &[char]) -> (r: &[char])
    ensures
        r@ == spec_trim_start(text@),
{
    let mut i: usize = 0;
    assert(text@.subrange(0, text@.len() as int) =~= text@);
    while i < text.len() && is_space(text[i])
        invariant
            i <= text.len(),
            leading_blank(text@) == i + leading_blank(text@.subrange(i as int, text@.len() as int)),
        decreases text.len() - i,
    {
        proof {
            let rest = text@.subrange(i as int, text@.len() as int);
            assert(rest[0] == text@[i as int]);
            assert(rest.subrange(1, rest.len() as int) =~= text@.subrange(i + 1, text@.len() as int));
        }
        i += 1;
    }
    proof {
        let rest = text@.subrange(i as int, text@.len() as int);
        if i < text.len() {
            assert(rest[0] == text@[i as int]);
        }
    }
    vstd::slice::slice_subrange(text, i, text.len())
}

} // verus!
