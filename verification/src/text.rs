//! Character sequences: conversion from and to strings, searching, replacing.
//!
//! All text is handled as a sequence of characters. A position is a number of
//! characters from the start of the sequence it refers to.

use vstd::prelude::*;

verus! {

/// `String::push` of the standard library: the character is appended.
pub assume_specification[ String::push ](s: &mut String, c: char)
    ensures
        final(s)@ == old(s)@.push(c),
;

/// The characters of a string, in order.
pub fn to_chars(s: &str) -> (v: Vec<char>)
    ensures
        v@ == s@,
{
    let mut v: Vec<char> = Vec::new();
    for c in it: s.chars()
        invariant
            v@ == it.seq().take(it.index()),
            it.seq() == s@,
    {
        v.push(c);
    }
    v
}

/// The string made of the given characters.
pub fn to_string(v: &[char]) -> (s: String)
    ensures
        s@ == v@,
{
    let mut s = String::new();
    let mut i: usize = 0;
    while i < v.len()
        invariant
            i <= v.len(),
            s@ == v@.take(i as int),
        decreases v.len() - i,
    {
        s.push(v[i]);
        i += 1;
    }
    s
}

/// The first `n` characters of `text`.
pub open spec fn before(text: Seq<char>, n: int) -> Seq<char> {
    text.subrange(0, n)
}

/// What is left of `text` after its first `n` characters.
pub open spec fn after(text: Seq<char>, n: int) -> Seq<char> {
    text.subrange(n, text.len() as int)
}

/// The first `n` characters of `text`.
pub fn head(text: &[char], n: usize) -> (r: &[char])
    requires
        n <= text@.len(),
    ensures
        r@ == before(text@, n as int),
{
    vstd::slice::slice_subrange(text, 0, n)
}

/// What is left of `text` after its first `n` characters.
pub fn tail(text: &[char], n: usize) -> (r: &[char])
    requires
        n <= text@.len(),
    ensures
        r@ == after(text@, n as int),
        text@.len() <= usize::MAX,
{
    vstd::slice::slice_subrange(text, n, text.len())
}

/// A copy of `text`.
pub fn copy(text: &[char]) -> (r: Vec<char>)
    ensures
        r@ == text@,
{
    let mut r: Vec<char> = Vec::new();
    emit_chars(&mut r, text);
    assert(r@ =~= text@);
    r
}

/// It is the same to append to the first of three texts the second and then
/// the third, or the second with the third behind it.
pub proof fn lemma_append(a: Seq<char>, b: Seq<char>, c: Seq<char>)
    ensures
        (a + b) + c == a + (b + c),
{
    assert((a + b) + c =~= a + (b + c));
}

/// Appends the characters of `s` to `out`.
pub fn emit(out: &mut Vec<char>, s: &str)
    ensures
        final(out)@ == old(out)@ + s@,
{
    for c in it: s.chars()
        invariant
            out@ == old(out)@ + it.seq().take(it.index()),
            it.seq() == s@,
    {
        out.push(c);
    }
}

/// Appends `s` to `out`.
pub fn emit_chars(out: &mut Vec<char>, s: &[char])
    ensures
        final(out)@ == old(out)@ + s@,
{
    let mut i: usize = 0;
    while i < s.len()
        invariant
            i <= s.len(),
            out@ == old(out)@ + s@.take(i as int),
        decreases s.len() - i,
    {
        out.push(s[i]);
        i += 1;
    }
}

/// `pat` stands in `text` at position `i`.
pub open spec fn occurs_at(text: Seq<char>, pat: Seq<char>, i: int) -> bool {
    0 <= i && i + pat.len() <= text.len() && text.subrange(i, i + pat.len()) == pat
}

/// `pat` stands in `text` at position `i` and at no earlier position.
pub open spec fn first_occurrence(text: Seq<char>, pat: Seq<char>, i: int) -> bool {
    occurs_at(text, pat, i) && forall|j: int| 0 <= j < i ==> !occurs_at(text, pat, j)
}

/// The position of the first occurrence of `pat` in `text`.
pub open spec fn find(text: Seq<char>, pat: Seq<char>) -> Option<int> {
    if exists|i: int| first_occurrence(text, pat, i) {
        Some(choose|i: int| first_occurrence(text, pat, i))
    } else {
        None
    }
}

/// `find` gives the first occurrence, and `None` only where there is none.
pub proof fn lemma_find(text: Seq<char>, pat: Seq<char>)
    ensures
        match find(text, pat) {
            Some(i) => first_occurrence(text, pat, i),
            None => forall|j: int| !occurs_at(text, pat, j),
        },
{
    if find(text, pat) is None {
        assert forall|j: int| !occurs_at(text, pat, j) by {
            if occurs_at(text, pat, j) {
                lemma_least_occurrence(text, pat, j);
            }
        }
    }
}

/// Where a pattern stands in a text, it stands somewhere first.
proof fn lemma_least_occurrence(text: Seq<char>, pat: Seq<char>, j: int)
    requires
        occurs_at(text, pat, j),
    ensures
        exists|i: int| first_occurrence(text, pat, i),
    decreases j,
{
    if exists|k: int| 0 <= k < j && occurs_at(text, pat, k) {
        let k = choose|k: int| 0 <= k < j && occurs_at(text, pat, k);
        lemma_least_occurrence(text, pat, k);
    } else {
        assert(first_occurrence(text, pat, j));
    }
}

/// The first occurrence is the one that `find` gives.
pub proof fn lemma_find_is(text: Seq<char>, pat: Seq<char>, i: int)
    requires
        first_occurrence(text, pat, i),
    ensures
        find(text, pat) == Some(i),
{
    lemma_find(text, pat);
    let k = find(text, pat)->0;
    assert(!(k < i));
    assert(!(i < k));
}

/// Without an occurrence `find` gives `None`.
pub proof fn lemma_find_none(text: Seq<char>, pat: Seq<char>)
    requires
        forall|j: int| !occurs_at(text, pat, j),
    ensures
        find(text, pat) is None,
{
    lemma_find(text, pat);
}

/// A machine position as a mathematical one.
pub open spec fn position(r: Option<usize>) -> Option<int> {
    match r {
        Some(i) => Some(i as int),
        None => None,
    }
}

/// Whether `pat` stands in `text` at position `i`.
pub fn matches_at(text: &[char], pat: &[char], i: usize) -> (b: bool)
    ensures
        b == occurs_at(text@, pat@, i as int),
{
    if pat.len() > text.len() || i > text.len() - pat.len() {
        return false;
    }
    let mut k: usize = 0;
    while k < pat.len()
        invariant
            k <= pat.len(),
            i + pat.len() <= text.len(),
            forall|j: int| 0 <= j < k ==> text@[i + j] == pat@[j],
        decreases pat.len() - k,
    {
        if text[i + k] != pat[k] {
            assert(text@.subrange(i as int, i + pat@.len())[k as int] != pat@[k as int]);
            return false;
        }
        k += 1;
    }
    assert(text@.subrange(i as int, i + pat@.len()) =~= pat@);
    true
}

/// The position of the first occurrence of `pat` in `text`.
pub fn find_sub(text: &[char], pat: &[char]) -> (r: Option<usize>)
    ensures
        position(r) == find(text@, pat@),
        r matches Some(i) ==> i + pat@.len() <= text@.len() <= usize::MAX,
{
    if pat.len() > text.len() {
        proof {
            lemma_find_none(text@, pat@);
        }
        return None;
    }
    let last = text.len() - pat.len();
    let mut i: usize = 0;
    loop
        invariant
            i <= last,
            last + pat@.len() == text@.len() <= usize::MAX,
            forall|j: int| 0 <= j < i ==> !occurs_at(text@, pat@, j),
        decreases last - i,
    {
        if matches_at(text, pat, i) {
            proof {
                lemma_find_is(text@, pat@, i as int);
            }
            return Some(i);
        }
        if i == last {
            proof {
                lemma_find_none(text@, pat@);
            }
            return None;
        }
        i += 1;
    }
}

/// The position of the first occurrence in `text` of the characters of `pat`.
pub fn find_str(text: &[char], pat: &str) -> (r: Option<usize>)
    ensures
        position(r) == find(text@, pat@),
        r matches Some(i) ==> i + pat@.len() <= text@.len() <= usize::MAX,
{
    let p = to_chars(pat);
    find_sub(text, p.as_slice())
}

/// Whether `text` starts with the characters of `pat`.
pub fn starts_with(text: &[char], pat: &str) -> (b: bool)
    ensures
        b == occurs_at(text@, pat@, 0),
{
    let p = to_chars(pat);
    matches_at(text, p.as_slice(), 0)
}

/// Whether `text` is made of the characters of `lit`.
pub fn equals(text: &[char], lit: &str) -> (b: bool)
    ensures
        b == (text@ == lit@),
{
    let p = to_chars(lit);
    if p.len() != text.len() {
        return false;
    }
    let b = matches_at(text, p.as_slice(), 0);
    assert(text@.subrange(0, text@.len() as int) =~= text@);
    b
}

/// Whether the two texts are made of the same characters.
pub fn same(a: &[char], b: &[char]) -> (r: bool)
    ensures
        r == (a@ == b@),
{
    if a.len() != b.len() {
        return false;
    }
    let r = matches_at(a, b, 0);
    assert(a@.subrange(0, a@.len() as int) =~= a@);
    r
}

/// The number of characters of `lit`.
pub fn length(lit: &str) -> (n: usize)
    ensures
        n == lit@.len(),
{
    lit.unicode_len()
}

/// `text` with each occurrence of `pat`, taken from the left and without
/// overlap, replaced by `rep`.
pub open spec fn replace(text: Seq<char>, pat: Seq<char>, rep: Seq<char>) -> Seq<char>
    decreases text.len(),
{
    match find(text, pat) {
        Some(i) => if pat.len() > 0 {
            proof {
                lemma_find(text, pat);
            }
            before(text, i) + rep + replace(after(text, i + pat.len()), pat, rep)
        } else {
            text
        },
        None => text,
    }
}

/// `text` with each occurrence of `pat` replaced by `rep`.
pub fn replace_all(text: &[char], pat: &str, rep: &str) -> (r: Vec<char>)
    ensures
        r@ == replace(text@, pat@, rep@),
{
    let p = to_chars(pat);
    let mut out: Vec<char> = Vec::new();
    let mut rest = text;
    if p.len() == 0 {
        emit_chars(&mut out, text);
        return out;
    }
    loop
        invariant
            p@ == pat@,
            p@.len() > 0,
            out@ + replace(rest@, pat@, rep@) =~= replace(text@, pat@, rep@),
        decreases rest@.len(),
    {
        let found = find_sub(rest, p.as_slice());
        match found {
            Some(i) => {
                emit_chars(&mut out, head(rest, i));
                emit(&mut out, rep);
                rest = tail(rest, i + p.len());
            },
            None => {
                emit_chars(&mut out, rest);
                return out;
            },
        }
    }
}

} // verus!
