//! The escaping engine: text made safe for HTML.

use vstd::prelude::*;
use crate::text::{
    after, before, emit, emit_chars, equals, head, occurs_at, replace, replace_all, starts_with,
    tail,
};

verus! {

/// How quote pairs are treated.
#[derive(Clone, Copy, PartialEq, Eq, Structural, Debug)]
pub enum Mode {
    /// Running text: a pair of backticks or of single quotes becomes a
    /// typographic quote.
    Text,
    /// Mathematics: such pairs stay as they are.
    Math,
}

/// One of the characters that HTML reserves: `<`, `>`, `&`, `"`, `'`, `/`.
pub open spec fn reserved(c: char) -> bool {
    c == '<' || c == '>' || c == '&' || c == '"' || c == '\'' || c == '/'
}

/// The length of what must be escaped at the start of `text`: 2 for a pair
/// of backticks or of single quotes, 1 for a reserved character.
pub open spec fn spec_needs_quoting_at_start(text: Seq<char>) -> Option<int> {
    if text.len() == 0 {
        None
    } else if occurs_at(text, "``"@, 0) || occurs_at(text, "''"@, 0) {
        Some(2)
    } else if reserved(text[0]) {
        Some(1)
    } else {
        None
    }
}

/// The length of what must be escaped at the start of `text`, if anything.
pub fn needs_quoting_at_start(text: &[char]) -> (r: Option<usize>)
    ensures
        crate::text::position(r) == spec_needs_quoting_at_start(text@),
        r matches Some(n) ==> 1 <= n <= 2 && n <= text@.len(),
{
    if text.len() == 0 {
        return None;
    }
    proof {
        reveal_strlit("``");
        reveal_strlit("''");
    }
    let c = text[0];
    if starts_with(text, "``") || starts_with(text, "''") {
        Some(2)
    } else if c == '<' || c == '>' || c == '&' || c == '"' || c == '\'' || c == '/' {
        Some(1)
    } else {
        None
    }
}

/// Position `i` is the first of `text` at which something must be escaped.
pub open spec fn first_quoting(text: Seq<char>, i: int) -> bool {
    &&& 0 <= i < text.len()
    &&& spec_needs_quoting_at_start(after(text, i)) is Some
    &&& forall|j: int| 0 <= j < i ==> spec_needs_quoting_at_start(#[trigger] after(text, j)) is None
}

/// The first stretch of `text` that must be escaped: where it starts and
/// where it ends.
pub open spec fn spec_find_next_quoting(text: Seq<char>) -> Option<(int, int)> {
    if exists|i: int| first_quoting(text, i) {
        let i = choose|i: int| first_quoting(text, i);
        Some((i, i + spec_needs_quoting_at_start(after(text, i))->0))
    } else {
        None
    }
}

/// The stretch that `spec_find_next_quoting` gives is not empty and lies
/// within the text.
pub proof fn lemma_find_next_quoting(text: Seq<char>)
    ensures
        spec_find_next_quoting(text) matches Some(m) ==> 0 <= m.0 < m.1 <= text.len(),
{
    if exists|i: int| first_quoting(text, i) {
        let i = choose|i: int| first_quoting(text, i);
        let rest = after(text, i);
        reveal_strlit("``");
        reveal_strlit("''");
        assert(rest.len() == text.len() - i);
    }
}

/// The first stretch of `text` that must be escaped.
pub fn find_next_quoting(text: &[char]) -> (r: Option<(usize, usize)>)
    ensures
        crate::pattern::span(r) == spec_find_next_quoting(text@),
        r matches Some(m) ==> m.0 < m.1 <= text@.len(),
{
    let mut i: usize = 0;
    while i < text.len()
        invariant
            i <= text.len(),
            forall|j: int| 0 <= j < i ==> spec_needs_quoting_at_start(#[trigger] after(text@, j)) is None,
        decreases text.len() - i,
    {
        if let Some(n) = needs_quoting_at_start(tail(text, i)) {
            proof {
                assert(first_quoting(text@, i as int));
                let k = choose|k: int| first_quoting(text@, k);
                assert(!(k < i));
                assert(!(i < k));
            }
            return Some((i, i + n));
        }
        i += 1;
    }
    None
}

/// What stands in the output for a stretch that must be escaped.
pub open spec fn spec_entity(token: Seq<char>, mode: Mode) -> Seq<char> {
    if token == "<"@ {
        "&lt;"@
    } else if token == ">"@ {
        "&gt;"@
    } else if token == "&"@ {
        "&amp;"@
    } else if token == "\""@ {
        "&quot;"@
    } else if token == "'"@ {
        "&#x27;"@
    } else if token == "/"@ {
        "&#x2f;"@
    } else if token == "``"@ && mode == Mode::Text {
        "\u{201c}"@
    } else if token == "''"@ && mode == Mode::Text {
        "\u{201d}"@
    } else {
        token
    }
}

/// Appends to `out` what stands for the stretch `token` that must be escaped.
pub fn entity(out: &mut Vec<char>, token: &[char], mode: Mode)
    ensures
        final(out)@ == old(out)@ + spec_entity(token@, mode),
{
    if equals(token, "<") {
        emit(out, "&lt;");
    } else if equals(token, ">") {
        emit(out, "&gt;");
    } else if equals(token, "&") {
        emit(out, "&amp;");
    } else if equals(token, "\"") {
        emit(out, "&quot;");
    } else if equals(token, "'") {
        emit(out, "&#x27;");
    } else if equals(token, "/") {
        emit(out, "&#x2f;");
    } else if equals(token, "``") && mode == Mode::Text {
        emit(out, "\u{201c}");
    } else if equals(token, "''") && mode == Mode::Text {
        emit(out, "\u{201d}");
    } else {
        emit_chars(out, token);
    }
}

/// `text` with each stretch that must be escaped replaced by its entity,
/// from the left.
pub open spec fn spec_escape(text: Seq<char>, mode: Mode) -> Seq<char>
    decreases text.len(),
{
    match spec_find_next_quoting(text) {
        Some(m) => {
            proof {
                lemma_find_next_quoting(text);
            }
            before(text, m.0) + spec_entity(text.subrange(m.0, m.1), mode) + spec_escape(
                after(text, m.1),
                mode,
            )
        },
        None => text,
    }
}

/// Appends `text` to `out`, with what must be escaped replaced.
pub fn escape(out: &mut Vec<char>, text: &[char], mode: Mode)
    ensures
        final(out)@ == old(out)@ + spec_escape(text@, mode),
{
    let mut rest = text;
    loop
        invariant
            out@ + spec_escape(rest@, mode) =~= old(out)@ + spec_escape(text@, mode),
        decreases rest@.len(),
    {
        let found = find_next_quoting(rest);
        match found {
            Some(m) => {
                emit_chars(out, head(rest, m.0));
                entity(out, vstd::slice::slice_subrange(rest, m.0, m.1), mode);
                rest = tail(rest, m.1);
            },
            None => {
                emit_chars(out, rest);
                return ;
            },
        }
    }
}

/// `text` with the placeholders for escaped braces turned back into `\{`
/// and `\}`.
pub open spec fn show_braces(text: Seq<char>) -> Seq<char> {
    replace(replace(text, "amp#x7b;"@, "\\{"@), "amp#x7d;"@, "\\}"@)
}

/// `text` with `\{` and `\}` turned into placeholders, so that they are not
/// taken for grouping braces.
pub open spec fn hide_braces(text: Seq<char>) -> Seq<char> {
    replace(replace(text, "\\{"@, "amp#x7b;"@), "\\}"@, "amp#x7d;"@)
}

/// `text` with `\{` and `\}` turned into placeholders.
pub fn with_braces_hidden(text: &[char]) -> (r: Vec<char>)
    ensures
        r@ == hide_braces(text@),
{
    let first = replace_all(text, "\\{", "amp#x7b;");
    replace_all(first.as_slice(), "\\}", "amp#x7d;")
}

/// Running text as HTML: placeholders for escaped braces turned back, then
/// reserved characters and quote pairs escaped.
pub open spec fn spec_fmt_as_html(text: Seq<char>) -> Seq<char> {
    spec_escape(show_braces(text), Mode::Text)
}

/// Appends running text to `out` as HTML.
pub fn fmt_as_html(out: &mut Vec<char>, text: &[char])
    ensures
        final(out)@ == old(out)@ + spec_fmt_as_html(text@),
{
    let first = replace_all(text, "amp#x7b;", "\\{");
    let shown = replace_all(first.as_slice(), "amp#x7d;", "\\}");
    escape(out, shown.as_slice(), Mode::Text);
}

/// Mathematics as HTML: placeholders for escaped braces turned back, then
/// reserved characters escaped; quote pairs stay.
pub open spec fn spec_fmt_math_as_html(text: Seq<char>) -> Seq<char> {
    spec_escape(show_braces(text), Mode::Math)
}

/// Appends mathematics to `out` as HTML.
pub fn fmt_math_as_html(out: &mut Vec<char>, text: &[char])
    ensures
        final(out)@ == old(out)@ + spec_fmt_math_as_html(text@),
{
    let first = replace_all(text, "amp#x7b;", "\\{");
    let shown = replace_all(first.as_slice(), "amp#x7d;", "\\}");
    escape(out, shown.as_slice(), Mode::Math);
}

/// An error marker around `text`.
pub open spec fn spec_fmt_error(text: Seq<char>) -> Seq<char> {
    "<span class=\"error\">"@ + spec_fmt_as_html(text) + "</span>"@
}

/// Appends an error marker around `text` to `out`.
pub fn fmt_error(out: &mut Vec<char>, text: &[char])
    ensures
        final(out)@ == old(out)@ + spec_fmt_error(text@),
{
    emit(out, "<span class=\"error\">");
    fmt_as_html(out, text);
    emit(out, "</span>");
    assert(out@ =~= old(out)@ + spec_fmt_error(text@));
}

/// The parts, each as HTML, one after the other.
pub open spec fn spec_fmt_each(parts: Seq<Seq<char>>) -> Seq<char>
    decreases parts.len(),
{
    if parts.len() == 0 {
        Seq::empty()
    } else {
        spec_fmt_each(parts.drop_last()) + spec_fmt_as_html(parts.last())
    }
}

/// An error marker around the parts.
pub open spec fn spec_fmt_errors(parts: Seq<Seq<char>>) -> Seq<char> {
    "<span class=\"error\">"@ + spec_fmt_each(parts) + "</span>"@
}

/// Appends to `out` one error marker around all the parts.
pub fn fmt_errors(out: &mut Vec<char>, parts: &[&[char]])
    ensures
        final(out)@ == old(out)@ + spec_fmt_errors(parts@.map_values(|p: &[char]| p@)),
{
    let ghost views = parts@.map_values(|p: &[char]| p@);
    emit(out, "<span class=\"error\">");
    let mut i: usize = 0;
    while i < parts.len()
        invariant
            i <= parts.len(),
            views == parts@.map_values(|p: &[char]| p@),
            out@ =~= old(out)@ + "<span class=\"error\">"@ + spec_fmt_each(views.take(i as int)),
        decreases parts.len() - i,
    {
        fmt_as_html(out, parts[i]);
        proof {
            assert(views.take(i + 1).drop_last() =~= views.take(i as int));
            assert(views.take(i + 1).last() == parts@[i as int]@);
        }
        i += 1;
    }
    assert(views.take(i as int) =~= views);
    emit(out, "</span>");
    assert(out@ =~= old(out)@ + spec_fmt_errors(views));
}

} // verus!
