//! The tables of the renderer: which macro stands for what.

use vstd::prelude::*;
use crate::text::{equals, replace, replace_all};

verus! {

/// A level of the renderer at which the rendering of a part starts.
#[derive(Clone, Copy, PartialEq, Eq, Structural, Debug)]
pub enum Entry {
    /// A whole document: comments are stripped and sections are split.
    Document,
    /// A run of paragraphs.
    Paragraphs,
    /// A single paragraph.
    Paragraph,
}

/// The markup that goes around a rendered part.
#[derive(Clone, Copy, Debug)]
pub struct Wrapper {
    pub open: &'static str,
    pub close: &'static str,
    pub entry: Entry,
}

/// What a macro without arguments stands for.
pub open spec fn spec_fixed(name: Seq<char>) -> Option<&'static str> {
    if name == "\\\\"@ {
        Some("<br/>")
    } else if name == "\\newpage"@ {
        Some("<br/>")
    } else if name == "\\textbackslash"@ {
        Some("\\")
    } else if name == "\\ "@ {
        Some(" ")
    } else if name == "\\noindent"@ {
        Some("")
    } else if name == "\\%"@ {
        Some("%")
    } else if name == "\\#"@ {
        Some("#")
    } else if name == "\\$"@ {
        Some("<span>$</span>")
    } else if name == "\\&"@ {
        Some("&amp;")
    } else if name == "\\_"@ {
        Some("_")
    } else if name == "\\ldots"@ {
        Some("...")
    } else if name == "\\AA"@ {
        Some("&#8491;")
    } else if name == "\\hline"@ {
        Some(
            "</td></tr><tr style=\"border-bottom:1px solid black\"><td colspan=\"100%\"></td></tr>\n<tr><td>",
        )
    } else {
        None
    }
}

/// What the macro `name` stands for, if it is one without arguments.
pub fn fixed(name: &[char]) -> (r: Option<&'static str>)
    ensures
        r == spec_fixed(name@),
{
    if equals(name, "\\\\") {
        Some("<br/>")
    } else if equals(name, "\\newpage") {
        Some("<br/>")
    } else if equals(name, "\\textbackslash") {
        Some("\\")
    } else if equals(name, "\\ ") {
        Some(" ")
    } else if equals(name, "\\noindent") {
        Some("")
    } else if equals(name, "\\%") {
        Some("%")
    } else if equals(name, "\\#") {
        Some("#")
    } else if equals(name, "\\$") {
        Some("<span>$</span>")
    } else if equals(name, "\\&") {
        Some("&amp;")
    } else if equals(name, "\\_") {
        Some("_")
    } else if equals(name, "\\ldots") {
        Some("...")
    } else if equals(name, "\\AA") {
        Some("&#8491;")
    } else if equals(name, "\\hline") {
        Some(
            "</td></tr><tr style=\"border-bottom:1px solid black\"><td colspan=\"100%\"></td></tr>\n<tr><td>",
        )
    } else {
        None
    }
}

/// The name that HTML gives to the accent that the macro `name` puts on the
/// letter after it.
pub open spec fn spec_accent(name: Seq<char>) -> Option<&'static str> {
    if name == "\\'"@ {
        Some("acute")
    } else if name == "\\`"@ {
        Some("grave")
    } else if name == "\\\""@ {
        Some("uml")
    } else if name == "\\^"@ {
        Some("circ")
    } else {
        None
    }
}

/// The name that HTML gives to the accent of the macro `name`, if it is one.
pub fn accent(name: &[char]) -> (r: Option<&'static str>)
    ensures
        r == spec_accent(name@),
{
    if equals(name, "\\'") {
        Some("acute")
    } else if equals(name, "\\`") {
        Some("grave")
    } else if equals(name, "\\\"") {
        Some("uml")
    } else if equals(name, "\\^") {
        Some("circ")
    } else {
        None
    }
}

/// A letter of the Latin alphabet without accent.
pub open spec fn spec_is_letter(c: char) -> bool {
    ('a' <= c && c <= 'z') || ('A' <= c && c <= 'Z')
}

/// Whether `c` is a letter of the Latin alphabet without accent.
pub fn is_letter(c: char) -> (b: bool)
    ensures
        b == spec_is_letter(c),
{
    ('a' <= c && c <= 'z') || ('A' <= c && c <= 'Z')
}

/// What goes around the argument of a macro that formats its one argument.
pub open spec fn spec_formatting(name: Seq<char>) -> Option<Wrapper> {
    if name == "\\emph"@ {
        Some(Wrapper { open: "<em>", close: "</em>", entry: Entry::Paragraphs })
    } else if name == "\\underline"@ {
        Some(Wrapper { open: "<u>", close: "</u>", entry: Entry::Paragraphs })
    } else if name == "\\textit"@ {
        Some(Wrapper { open: "<i>", close: "</i>", entry: Entry::Paragraphs })
    } else if name == "\\textbf"@ {
        Some(Wrapper { open: "<b>", close: "</b>", entry: Entry::Paragraphs })
    } else if name == "\\footnote"@ {
        Some(
            Wrapper {
                open: "<sup>*</sup><aside><sup>*</sup>",
                close: "</aside>",
                entry: Entry::Paragraphs,
            },
        )
    } else if name == "\\caption"@ {
        Some(Wrapper { open: "<figcaption>", close: "</figcaption>", entry: Entry::Paragraphs })
    } else if name == "\\warning"@ {
        Some(Wrapper { open: "<span class=\"warning\">", close: "</span>", entry: Entry::Document })
    } else if name == "\\error"@ {
        Some(Wrapper { open: "<span class=\"error\">", close: "</span>", entry: Entry::Document })
    } else {
        None
    }
}

/// The markup around the argument of the macro `name`, if it formats one
/// argument.
pub fn formatting(name: &[char]) -> (r: Option<Wrapper>)
    ensures
        r == spec_formatting(name@),
{
    if equals(name, "\\emph") {
        Some(Wrapper { open: "<em>", close: "</em>", entry: Entry::Paragraphs })
    } else if equals(name, "\\underline") {
        Some(Wrapper { open: "<u>", close: "</u>", entry: Entry::Paragraphs })
    } else if equals(name, "\\textit") {
        Some(Wrapper { open: "<i>", close: "</i>", entry: Entry::Paragraphs })
    } else if equals(name, "\\textbf") {
        Some(Wrapper { open: "<b>", close: "</b>", entry: Entry::Paragraphs })
    } else if equals(name, "\\footnote") {
        Some(
            Wrapper {
                open: "<sup>*</sup><aside><sup>*</sup>",
                close: "</aside>",
                entry: Entry::Paragraphs,
            },
        )
    } else if equals(name, "\\caption") {
        Some(Wrapper { open: "<figcaption>", close: "</figcaption>", entry: Entry::Paragraphs })
    } else if equals(name, "\\warning") {
        Some(Wrapper { open: "<span class=\"warning\">", close: "</span>", entry: Entry::Document })
    } else if equals(name, "\\error") {
        Some(Wrapper { open: "<span class=\"error\">", close: "</span>", entry: Entry::Document })
    } else {
        None
    }
}

/// What goes around the rest of the text after a macro that switches the
/// style from there on.
pub open spec fn spec_switch(name: Seq<char>) -> Option<Wrapper> {
    if name == "\\it"@ {
        Some(Wrapper { open: "<i>", close: "</i>", entry: Entry::Paragraphs })
    } else if name == "\\centering"@ {
        Some(Wrapper { open: "<div class=\"center\">", close: "</div>", entry: Entry::Paragraphs })
    } else if name == "\\bf"@ {
        Some(Wrapper { open: "<b>", close: "</b>", entry: Entry::Document })
    } else if name == "\\sc"@ {
        Some(
            Wrapper {
                open: "<font style=\"font-variant: small-caps\">",
                close: "</font>",
                entry: Entry::Document,
            },
        )
    } else {
        None
    }
}

/// The markup around the rest of the text after the macro `name`, if it
/// switches the style.
pub fn switch(name: &[char]) -> (r: Option<Wrapper>)
    ensures
        r == spec_switch(name@),
{
    if equals(name, "\\it") {
        Some(Wrapper { open: "<i>", close: "</i>", entry: Entry::Paragraphs })
    } else if equals(name, "\\centering") {
        Some(Wrapper { open: "<div class=\"center\">", close: "</div>", entry: Entry::Paragraphs })
    } else if equals(name, "\\bf") {
        Some(Wrapper { open: "<b>", close: "</b>", entry: Entry::Document })
    } else if equals(name, "\\sc") {
        Some(
            Wrapper {
                open: "<font style=\"font-variant: small-caps\">",
                close: "</font>",
                entry: Entry::Document,
            },
        )
    } else {
        None
    }
}

/// What goes around the body of an environment that is rendered as one
/// paragraph.
pub open spec fn spec_block(name: Seq<char>) -> Option<Wrapper> {
    if name == "{center}"@ {
        Some(Wrapper { open: "<div class=\"center\">", close: "</div>", entry: Entry::Paragraph })
    } else if name == "{quote}"@ {
        Some(Wrapper { open: "<blockquote>", close: "</blockquote>", entry: Entry::Paragraph })
    } else if name == "{quotation}"@ {
        Some(Wrapper { open: "<blockquote>", close: "</blockquote>", entry: Entry::Paragraph })
    } else {
        None
    }
}

/// The markup around the body of the environment `name`, if it is rendered as
/// one paragraph.
pub fn block(name: &[char]) -> (r: Option<Wrapper>)
    ensures
        r == spec_block(name@),
{
    if equals(name, "{center}") {
        Some(Wrapper { open: "<div class=\"center\">", close: "</div>", entry: Entry::Paragraph })
    } else if equals(name, "{quote}") {
        Some(Wrapper { open: "<blockquote>", close: "</blockquote>", entry: Entry::Paragraph })
    } else if equals(name, "{quotation}") {
        Some(Wrapper { open: "<blockquote>", close: "</blockquote>", entry: Entry::Paragraph })
    } else {
        None
    }
}

/// The name, in braces, of an environment of mathematics, which is passed
/// on as it is.
pub open spec fn spec_is_math(name: Seq<char>) -> bool {
    name == "{equation}"@ || name == "{equation*}"@ || name == "{align}"@ || name == "{align*}"@
        || name == "{eqnarray}"@ || name == "{eqnarray*}"@ || name == "{multline}"@ || name
        == "{multline*}"@
}

/// Whether `name` is an environment of mathematics.
pub fn is_math(name: &[char]) -> (b: bool)
    ensures
        b == spec_is_math(name@),
{
    equals(name, "{equation}") || equals(name, "{equation*}") || equals(name, "{align}") || equals(
        name,
        "{align*}",
    ) || equals(name, "{eqnarray}") || equals(name, "{eqnarray*}") || equals(name, "{multline}")
        || equals(name, "{multline*}")
}

/// The name, in braces, of an environment that is set apart as a block of
/// its own class: a solution, a guide or a handout.
pub open spec fn spec_is_aside(name: Seq<char>) -> bool {
    name == "{solution}"@ || name == "{guide}"@ || name == "{handout}"@
}

/// Whether `name` is a solution, a guide or a handout.
pub fn is_aside(name: &[char]) -> (b: bool)
    ensures
        b == spec_is_aside(name@),
{
    equals(name, "{solution}") || equals(name, "{guide}") || equals(name, "{handout}")
}

/// One of the colours that text may be given.
pub open spec fn spec_is_color(color: Seq<char>) -> bool {
    color == "red"@ || color == "blue"@ || color == "forestgreen"@ || color == "purple"@ || color
        == "brown"@ || color == "gray"@ || color == "orange"@
}

/// Whether `color` is one of the colours that text may be given.
pub fn is_color(color: &[char]) -> (b: bool)
    ensures
        b == spec_is_color(color@),
{
    equals(color, "red") || equals(color, "blue") || equals(color, "forestgreen") || equals(
        color,
        "purple",
    ) || equals(color, "brown") || equals(color, "gray") || equals(color, "orange")
}

/// `text` without braces.
pub open spec fn without_braces(text: Seq<char>) -> Seq<char> {
    replace(replace(text, "{"@, ""@), "}"@, ""@)
}

/// The address that stands in the argument `url`: the argument without
/// braces, with `%` for `\%` and `%20` for each space.
pub open spec fn spec_process_url_argument(url: Seq<char>) -> Seq<char> {
    replace(replace(without_braces(url), "\\%"@, "%"@), " "@, "%20"@)
}

/// `text` without braces.
pub fn strip_braces(text: &[char]) -> (r: Vec<char>)
    ensures
        r@ == without_braces(text@),
{
    let first = replace_all(text, "{", "");
    replace_all(first.as_slice(), "}", "")
}

/// The address that stands in the argument `url`.
pub fn process_url_argument(url: &[char]) -> (r: Vec<char>)
    ensures
        r@ == spec_process_url_argument(url@),
{
    let bare = strip_braces(url);
    let unescaped = replace_all(bare.as_slice(), "\\%", "%");
    replace_all(unescaped.as_slice(), " ", "%20")
}

/// The start of a link to `url`; one to a secure address opens in the
/// enclosing page.
pub open spec fn link_open(url: Seq<char>) -> Seq<char> {
    if crate::text::occurs_at(url, "https://"@, 0) {
        "<a target=\"_parent\" href=\""@ + url + "\">"@
    } else {
        "<a href=\""@ + url + "\">"@
    }
}

/// Appends the start of a link to `url` to `out`.
pub fn emit_link_open(out: &mut Vec<char>, url: &[char])
    ensures
        final(out)@ == old(out)@ + link_open(url@),
{
    if crate::text::starts_with(url, "https://") {
        crate::text::emit(out, "<a target=\"_parent\" href=\"");
    } else {
        crate::text::emit(out, "<a href=\"");
    }
    crate::text::emit_chars(out, url);
    crate::text::emit(out, "\">");
    assert(out@ =~= old(out)@ + link_open(url@));
}

/// The levels of sectioning.
#[derive(Clone, Copy, PartialEq, Eq, Structural, Debug)]
pub enum Level {
    Section,
    Subsection,
    Subsubsection,
}

/// The kinds of list.
#[derive(Clone, Copy, PartialEq, Eq, Structural, Debug)]
pub enum List {
    Itemize,
    Enumerate,
    Description,
}

/// The macro that starts a section of the level.
pub open spec fn spec_heading_macro(level: Level) -> &'static str {
    match level {
        Level::Section => "\\section",
        Level::Subsection => "\\subsection",
        Level::Subsubsection => "\\subsubsection",
    }
}

/// What opens a section of the level and its heading.
pub open spec fn spec_heading_open(level: Level) -> &'static str {
    match level {
        Level::Section => "<section><h2>",
        Level::Subsection => "<section><h3>",
        Level::Subsubsection => "<section><h4>",
    }
}

/// What closes the heading of a section of the level.
pub open spec fn spec_heading_close(level: Level) -> &'static str {
    match level {
        Level::Section => "</h2>",
        Level::Subsection => "</h3>",
        Level::Subsubsection => "</h4>",
    }
}

/// How many levels of sectioning lie at or below the level.
pub open spec fn rank(level: Level) -> nat {
    match level {
        Level::Section => 3,
        Level::Subsection => 2,
        Level::Subsubsection => 1,
    }
}

/// What opens a list of the kind.
pub open spec fn spec_list_open(kind: List) -> &'static str {
    match kind {
        List::Itemize => "<ul>",
        List::Enumerate => "<ol>",
        List::Description => "<dl>",
    }
}

/// The tag that closes a list of the kind.
pub open spec fn spec_list_tag(kind: List) -> &'static str {
    match kind {
        List::Itemize => "</ul>",
        List::Enumerate => "</ol>",
        List::Description => "</dl>",
    }
}

/// What ends a list of kind `kind` where the closing of a list of kind
/// `closing` is met: the tag that closes the list that was opened and, where
/// the closing is that of another kind, the error marker for the closing
/// that is missing.
pub open spec fn spec_list_close(kind: List, closing: List) -> &'static str {
    if kind == closing {
        spec_list_tag(kind)
    } else {
        spec_list_missing(kind)
    }
}

/// What ends a list of the kind where its closing is missing: the tag that
/// closes the list, and an error marker that names the closing.
pub open spec fn spec_list_missing(kind: List) -> &'static str {
    match kind {
        List::Itemize => "</ul><span class=\"error\">MISSING \\end{itemize}</span>",
        List::Enumerate => "</ol><span class=\"error\">MISSING \\end{enumerate}</span>",
        List::Description => "</dl><span class=\"error\">MISSING \\end{description}</span>",
    }
}

/// The macro that starts a section of the level.
pub fn heading_macro(level: Level) -> (r: &'static str)
    ensures
        r == spec_heading_macro(level),
        r@.len() > 0,
{
    proof {
        reveal_strlit("\\section");
        reveal_strlit("\\subsection");
        reveal_strlit("\\subsubsection");
    }
    match level {
        Level::Section => "\\section",
        Level::Subsection => "\\subsection",
        Level::Subsubsection => "\\subsubsection",
    }
}

/// What opens a section of the level and its heading.
pub fn heading_open(level: Level) -> (r: &'static str)
    ensures
        r == spec_heading_open(level),
{
    match level {
        Level::Section => "<section><h2>",
        Level::Subsection => "<section><h3>",
        Level::Subsubsection => "<section><h4>",
    }
}

/// What closes the heading of a section of the level.
pub fn heading_close(level: Level) -> (r: &'static str)
    ensures
        r == spec_heading_close(level),
{
    match level {
        Level::Section => "</h2>",
        Level::Subsection => "</h3>",
        Level::Subsubsection => "</h4>",
    }
}

/// The tag that closes a list of the kind.
pub fn list_tag(kind: List) -> (r: &'static str)
    ensures
        r == spec_list_tag(kind),
{
    match kind {
        List::Itemize => "</ul>",
        List::Enumerate => "</ol>",
        List::Description => "</dl>",
    }
}

/// What opens a list of the kind.
pub fn list_open(kind: List) -> (r: &'static str)
    ensures
        r == spec_list_open(kind),
{
    match kind {
        List::Itemize => "<ul>",
        List::Enumerate => "<ol>",
        List::Description => "<dl>",
    }
}

/// What ends a list of kind `kind` where the closing of a list of kind
/// `closing` is met.
pub fn list_close(kind: List, closing: List) -> (r: &'static str)
    ensures
        r == spec_list_close(kind, closing),
{
    if kind == closing {
        list_tag(kind)
    } else {
        list_missing(kind)
    }
}

/// What ends a list of the kind where its closing is missing.
pub fn list_missing(kind: List) -> (r: &'static str)
    ensures
        r == spec_list_missing(kind),
{
    match kind {
        List::Itemize => "</ul><span class=\"error\">MISSING \\end{itemize}</span>",
        List::Enumerate => "</ol><span class=\"error\">MISSING \\end{enumerate}</span>",
        List::Description => "</dl><span class=\"error\">MISSING \\end{description}</span>",
    }
}

/// Whether the renderer knows the macro `name`.
pub open spec fn dispatched(name: Seq<char>) -> bool {
    spec_fixed(name) is Some || spec_formatting(name) is Some || spec_switch(name) is Some
        || spec_accent(name) is Some || name
        == "\\vspace"@ || name == "\\vfill"@ || name == "\\label"@ || name == "\\eqref"@ || name
        == "\\ref"@ || name == "\\textcolor"@ || name == "\\url"@ || name == "\\href"@ || name
        == "\\includegraphics"@ || name == "\\paragraph"@ || name == "\\paragraph*"@ || name
        == "\\("@ || name == "\\["@ || name == "\\begin"@ || name == "\\end"@
}

/// Whether the renderer knows the macro `name`.
pub fn is_dispatched(name: &[char]) -> (b: bool)
    ensures
        b == dispatched(name@),
{
    fixed(name).is_some() || formatting(name).is_some() || switch(name).is_some() || accent(
        name,
    ).is_some() || equals(name, "\\vspace") || equals(name, "\\vfill") || equals(name, "\\label")
        || equals(name, "\\eqref") || equals(name, "\\ref") || equals(name, "\\textcolor") || equals(
        name,
        "\\url",
    ) || equals(name, "\\href") || equals(name, "\\includegraphics") || equals(name, "\\paragraph")
        || equals(name, "\\paragraph*") || equals(name, "\\(") || equals(name, "\\[") || equals(
        name,
        "\\begin",
    ) || equals(name, "\\end")
}

/// Whether `name` is a macro that starts a section of some level, with the
/// star that may follow it or without.
pub open spec fn spec_is_heading(name: Seq<char>) -> bool {
    name == "\\section"@ || name == "\\section*"@ || name == "\\subsection"@ || name
        == "\\subsection*"@ || name == "\\subsubsection"@ || name == "\\subsubsection*"@
}

/// Whether `name` is a macro that starts a section of some level.
pub fn is_heading(name: &[char]) -> (b: bool)
    ensures
        b == spec_is_heading(name@),
{
    equals(name, "\\section") || equals(name, "\\section*") || equals(name, "\\subsection")
        || equals(name, "\\subsection*") || equals(name, "\\subsubsection") || equals(
        name,
        "\\subsubsection*",
    )
}

/// Whether the renderer knows the environment `name` (its braces included).
pub open spec fn known_environment(name: Seq<char>) -> bool {
    name == "{figure}"@ || name == "{wrapfigure}"@ || spec_is_aside(name) || name == "{tabular}"@
        || spec_block(name) is Some || spec_is_math(name) || name == "{itemize}"@ || name
        == "{enumerate}"@ || name == "{description}"@
}

/// Whether the renderer knows the environment `name` (its braces included).
pub fn is_known_environment(name: &[char]) -> (b: bool)
    ensures
        b == known_environment(name@),
{
    equals(name, "{figure}") || equals(name, "{wrapfigure}") || is_aside(name) || equals(
        name,
        "{tabular}",
    ) || block(name).is_some() || is_math(name) || equals(name, "{itemize}") || equals(
        name,
        "{enumerate}",
    ) || equals(name, "{description}")
}

} // verus!
