//! Transforms from text to text that prepare a document for rendering.

use vstd::prelude::*;
use crate::pattern::{find_match, spec_find_match};
use crate::text::{
    after, before, emit, emit_chars, find, find_str, head, lemma_append, lemma_find, length,
    position, replace, replace_all, tail,
};

verus! {

/// What stands for `\%` while comments are cut out.
pub const PERCENT_HOLDER: &'static str = "\\percent_holder";

/// What takes the place of the end of a line: nothing at the end of the
/// text, where no line break ends the line; otherwise a space after a
/// comment, and the line break after a line without one.
pub open spec fn line_end(ended: bool, commented: bool) -> Seq<char> {
    if !ended {
        Seq::empty()
    } else if commented {
        " "@
    } else {
        "\n"@
    }
}

/// What a line without its line break contributes, `ended` telling whether
/// a line break ends it: nothing where it starts with `%`; the part before
/// the first `%` and a space in place of the line break where it holds one;
/// otherwise the line and its line break.
pub open spec fn strip_line(line: Seq<char>, ended: bool) -> Seq<char> {
    if line.len() > 0 && line[0] == '%' {
        Seq::empty()
    } else {
        match find(line, "%"@) {
            Some(i) => before(line, i) + line_end(ended, true),
            None => line + line_end(ended, false),
        }
    }
}

/// Appends to `out` what takes the place of the end of a line.
fn emit_line_end(out: &mut Vec<char>, ended: bool, commented: bool)
    ensures
        final(out)@ == old(out)@ + line_end(ended, commented),
{
    if !ended {
        assert(out@ + line_end(ended, commented) =~= out@);
    } else if commented {
        emit(out, " ");
    } else {
        emit(out, "\n");
    }
}

/// Appends to `out` what a line without its line break contributes.
fn emit_stripped_line(out: &mut Vec<char>, line: &[char], ended: bool)
    ensures
        final(out)@ == old(out)@ + strip_line(line@, ended),
{
    let ghost start = out@;
    if line.len() > 0 && line[0] == '%' {
        assert(out@ =~= old(out)@ + Seq::<char>::empty());
        return ;
    }
    let found = find_str(line, "%");
    match found {
        Some(i) => {
            emit_chars(out, head(line, i));
            emit_line_end(out, ended, true);
            proof {
                lemma_append(start, before(line@, i as int), line_end(ended, true));
            }
        },
        None => {
            emit_chars(out, line);
            emit_line_end(out, ended, false);
            proof {
                lemma_append(start, line@, line_end(ended, false));
            }
        },
    }
}

/// The lines of `text`, each stripped of its comment.
pub open spec fn strip_lines(text: Seq<char>) -> Seq<char>
    decreases text.len(),
{
    match find(text, "\n"@) {
        Some(i) => {
            proof {
                reveal_strlit("\n");
                lemma_find(text, "\n"@);
            }
            strip_line(before(text, i), true) + strip_lines(after(text, i + "\n"@.len()))
        },
        None => strip_line(text, false),
    }
}

/// `text` without its comments: `\%` is set aside, each line is stripped,
/// and `\%` is put back. A line that starts with `%` is dropped with its
/// line break; another line loses what follows its first `%`, and a space
/// takes the place of its line break.
pub open spec fn spec_strip_comments(text: Seq<char>) -> Seq<char> {
    replace(strip_lines(replace(text, "\\%"@, PERCENT_HOLDER@)), PERCENT_HOLDER@, "\\%"@)
}

/// `text` without its comments.
pub fn strip_comments(text: &[char]) -> (r: Vec<char>)
    ensures
        r@ == spec_strip_comments(text@),
{
    let temp = replace_all(text, "\\%", PERCENT_HOLDER);
    let mut out: Vec<char> = Vec::new();
    let mut rest = temp.as_slice();
    let step = length("\n");
    loop
        invariant_except_break
            step == "\n"@.len(),
            out@ + strip_lines(rest@) == strip_lines(temp@),
        ensures
            out@ == strip_lines(temp@),
        decreases rest@.len(),
    {
        proof {
            reveal_strlit("\n");
        }
        let ghost so_far = out@;
        let found = find_str(rest, "\n");
        match found {
            Some(i) => {
                let ghost line = strip_line(before(rest@, i as int), true);
                let ghost more = strip_lines(after(rest@, i + step));
                emit_stripped_line(&mut out, head(rest, i), true);
                rest = tail(rest, i + step);
                proof {
                    lemma_append(so_far, line, more);
                }
            },
            None => {
                emit_stripped_line(&mut out, rest, false);
                break ;
            },
        }
    }
    replace_all(out.as_slice(), PERCENT_HOLDER, "\\%")
}

/// `text` without the blocks that `begin` opens and `end` closes, the two
/// included. A block that nothing closes runs to the end of `text`.
pub open spec fn spec_omit(text: Seq<char>, begin: Seq<char>, end: Seq<char>) -> Seq<char>
    decreases text.len(),
{
    match find(text, begin) {
        Some(i) => {
            let rest = after(text, i + begin.len());
            match find(rest, end) {
                Some(j) => {
                    proof {
                        lemma_find(text, begin);
                        lemma_find(rest, end);
                    }
                    if begin.len() + end.len() > 0 {
                        before(text, i) + spec_omit(after(rest, j + end.len()), begin, end)
                    } else {
                        before(text, i)
                    }
                },
                None => before(text, i),
            }
        },
        None => text,
    }
}

/// `text` without the blocks that `begin` opens and `end` closes.
fn omit(text: &[char], begin: &str, end: &str) -> (r: Vec<char>)
    requires
        begin@.len() + end@.len() > 0,
    ensures
        r@ == spec_omit(text@, begin@, end@),
{
    let mut out: Vec<char> = Vec::new();
    let mut rest = text;
    let begin_len = length(begin);
    let end_len = length(end);
    loop
        invariant
            begin_len == begin@.len(),
            end_len == end@.len(),
            begin@.len() + end@.len() > 0,
            out@ + spec_omit(rest@, begin@, end@) =~= spec_omit(text@, begin@, end@),
        decreases rest@.len(),
    {
        let found = find_str(rest, begin);
        match found {
            Some(i) => {
                emit_chars(&mut out, head(rest, i));
                let inner = tail(rest, i + begin_len);
                let closed = find_str(inner, end);
                match closed {
                    Some(j) => {
                        rest = tail(inner, j + end_len);
                    },
                    None => {
                        return out;
                    },
                }
            },
            None => {
                emit_chars(&mut out, rest);
                return out;
            },
        }
    }
}

/// `text` without its solutions.
pub open spec fn spec_omit_solutions(text: Seq<char>) -> Seq<char> {
    spec_omit(text, "\\begin{solution}"@, "\\end{solution}"@)
}

/// `text` without its solutions.
pub fn omit_solutions(text: &[char]) -> (r: Vec<char>)
    ensures
        r@ == spec_omit_solutions(text@),
{
    proof {
        reveal_strlit("\\begin{solution}");
    }
    omit(text, "\\begin{solution}", "\\end{solution}")
}

/// `text` without its guides.
pub open spec fn spec_omit_guide(text: Seq<char>) -> Seq<char> {
    spec_omit(text, "\\begin{guide}"@, "\\end{guide}"@)
}

/// `text` without its guides.
pub fn omit_guide(text: &[char]) -> (r: Vec<char>)
    ensures
        r@ == spec_omit_guide(text@),
{
    proof {
        reveal_strlit("\\begin{guide}");
    }
    omit(text, "\\begin{guide}", "\\end{guide}")
}

/// `text` without its handouts.
pub open spec fn spec_omit_handout(text: Seq<char>) -> Seq<char> {
    spec_omit(text, "\\begin{handout}"@, "\\end{handout}"@)
}

/// `text` without its handouts.
pub fn omit_handout(text: &[char]) -> (r: Vec<char>)
    ensures
        r@ == spec_omit_handout(text@),
{
    proof {
        reveal_strlit("\\begin{handout}");
    }
    omit(text, "\\begin{handout}", "\\end{handout}")
}

/// What stands inside the handouts of `text`, one after the other. A handout
/// that nothing closes runs to the end of `text`.
pub open spec fn spec_only_handout(text: Seq<char>) -> Seq<char>
    decreases text.len(),
{
    match find(text, "\\begin{handout}"@) {
        Some(i) => {
            let rest = after(text, i + "\\begin{handout}"@.len());
            match find(rest, "\\end{handout}"@) {
                Some(j) => {
                    proof {
                        reveal_strlit("\\begin{handout}");
                        lemma_find(text, "\\begin{handout}"@);
                        lemma_find(rest, "\\end{handout}"@);
                    }
                    before(rest, j) + spec_only_handout(after(rest, j + "\\end{handout}"@.len()))
                },
                None => rest,
            }
        },
        None => Seq::empty(),
    }
}

/// What stands inside the handouts of `text`.
pub fn only_handout(text: &[char]) -> (r: Vec<char>)
    ensures
        r@ == spec_only_handout(text@),
{
    let mut out: Vec<char> = Vec::new();
    let mut rest = text;
    let begin_len = length("\\begin{handout}");
    let end_len = length("\\end{handout}");
    loop
        invariant
            begin_len == "\\begin{handout}"@.len(),
            end_len == "\\end{handout}"@.len(),
            out@ + spec_only_handout(rest@) =~= spec_only_handout(text@),
        decreases rest@.len(),
    {
        proof {
            reveal_strlit("\\begin{handout}");
        }
        let found = find_str(rest, "\\begin{handout}");
        match found {
            Some(i) => {
                let inner = tail(rest, i + begin_len);
                let closed = find_str(inner, "\\end{handout}");
                match closed {
                    Some(j) => {
                        emit_chars(&mut out, head(inner, j));
                        rest = tail(inner, j + end_len);
                    },
                    None => {
                        emit_chars(&mut out, inner);
                        return out;
                    },
                }
            },
            None => {
                return out;
            },
        }
    }
}

/// `text` with each solution turned into a quotation under the heading
/// "Solution". A solution that nothing closes runs to the end of `text`.
pub open spec fn spec_include_solutions(text: Seq<char>) -> Seq<char>
    decreases text.len(),
{
    match find(text, "\\begin{solution}"@) {
        Some(i) => {
            let rest = after(text, i + "\\begin{solution}"@.len());
            let opened = before(text, i) + "\\begin{quotation}\\paragraph*{Solution}"@;
            match find(rest, "\\end{solution}"@) {
                Some(j) => {
                    proof {
                        reveal_strlit("\\begin{solution}");
                        lemma_find(text, "\\begin{solution}"@);
                        lemma_find(rest, "\\end{solution}"@);
                    }
                    opened + before(rest, j) + "\\end{quotation}"@ + spec_include_solutions(
                        after(rest, j + "\\end{solution}"@.len()),
                    )
                },
                None => opened + rest + "\\end{quotation}"@,
            }
        },
        None => text,
    }
}

/// `text` with each solution turned into a quotation under a heading.
pub fn include_solutions(text: &[char]) -> (r: Vec<char>)
    ensures
        r@ == spec_include_solutions(text@),
{
    let mut out: Vec<char> = Vec::new();
    let mut rest = text;
    let begin_len = length("\\begin{solution}");
    let end_len = length("\\end{solution}");
    loop
        invariant
            begin_len == "\\begin{solution}"@.len(),
            end_len == "\\end{solution}"@.len(),
            out@ + spec_include_solutions(rest@) =~= spec_include_solutions(text@),
        decreases rest@.len(),
    {
        proof {
            reveal_strlit("\\begin{solution}");
        }
        let found = find_str(rest, "\\begin{solution}");
        match found {
            Some(i) => {
                emit_chars(&mut out, head(rest, i));
                emit(&mut out, "\\begin{quotation}\\paragraph*{Solution}");
                let inner = tail(rest, i + begin_len);
                let closed = find_str(inner, "\\end{solution}");
                match closed {
                    Some(j) => {
                        emit_chars(&mut out, head(inner, j));
                        emit(&mut out, "\\end{quotation}");
                        rest = tail(inner, j + end_len);
                    },
                    None => {
                        emit_chars(&mut out, inner);
                        emit(&mut out, "\\end{quotation}");
                        return out;
                    },
                }
            },
            None => {
                emit_chars(&mut out, rest);
                return out;
            },
        }
    }
}

/// The image element for the file `name` in the directory `dir`.
pub open spec fn image(dir: Seq<char>, name: Seq<char>) -> Seq<char> {
    "<img src=\""@ + dir + name + "\"/>"@
}

/// Appends the image element for the file `name` in the directory `dir`.
fn emit_image(out: &mut Vec<char>, dir: &[char], name: &[char])
    ensures
        final(out)@ == old(out)@ + image(dir@, name@),
{
    let ghost start = out@;
    emit(out, "<img src=\"");
    emit_chars(out, dir);
    emit_chars(out, name);
    emit(out, "\"/>");
    proof {
        lemma_append(start, "<img src=\""@, dir@);
        lemma_append(start, "<img src=\""@ + dir@, name@);
        lemma_append(start, "<img src=\""@ + dir@ + name@, "\"/>"@);
    }
}

/// What one `\includegraphics` becomes, and the text that is left after it.
pub struct Rewritten {
    pub out: Seq<char>,
    pub rest: Seq<char>,
}

/// The image for the file whose name `text` starts with, up to the closing
/// brace; `error` where no brace closes it.
pub open spec fn image_of_file(text: Seq<char>, dir: Seq<char>, error: Seq<char>) -> Rewritten {
    match find(text, "}"@) {
        Some(e) => Rewritten {
            out: image(dir, before(text, e)),
            rest: after(text, e + "}"@.len()),
        },
        None => Rewritten { out: error, rest: text },
    }
}

/// What an `\includegraphics` becomes; `text` is what follows its opening
/// bracket, where it has options, or its opening brace. One that is cut
/// short becomes an error marker.
pub open spec fn graphic(text: Seq<char>, with_options: bool, dir: Seq<char>) -> Rewritten {
    if with_options {
        match find(text, "]{"@) {
            Some(n) => image_of_file(
                after(text, n + "]{"@.len()),
                dir,
                "<span class=\"error\">\\includegraphics[..]{</span>"@,
            ),
            None => Rewritten {
                out: "<span class=\"error\">\\includegraphics[</span>"@,
                rest: text,
            },
        }
    } else {
        image_of_file(text, dir, "<span class=\"error\">\\includegraphics{</span>"@)
    }
}

/// What is left after an `\includegraphics` is no longer than what followed
/// its opening.
pub proof fn lemma_graphic_rest(text: Seq<char>, with_options: bool, dir: Seq<char>)
    ensures
        graphic(text, with_options, dir).rest.len() <= text.len(),
{
    lemma_find(text, "]{"@);
    lemma_find(text, "}"@);
    if with_options {
        match find(text, "]{"@) {
            Some(n) => {
                lemma_find(after(text, n + "]{"@.len()), "}"@);
            },
            None => {},
        }
    }
}

/// Appends the image for the file whose name `text` starts with, and gives
/// the text after it.
fn rewrite_file<'a>(out: &mut Vec<char>, text: &'a [char], dir: &[char], error: &str) -> (rest:
    &'a [char])
    ensures
        final(out)@ == old(out)@ + image_of_file(text@, dir@, error@).out,
        rest@ == image_of_file(text@, dir@, error@).rest,
{
    let ended = find_str(text, "}");
    match ended {
        Some(e) => {
            emit_image(out, dir, head(text, e));
            tail(text, e + length("}"))
        },
        None => {
            emit(out, error);
            text
        },
    }
}

/// Appends what an `\includegraphics` becomes, and gives the text after it.
fn rewrite_graphic<'a>(out: &mut Vec<char>, text: &'a [char], with_options: bool, dir: &[char]) -> (rest:
    &'a [char])
    ensures
        final(out)@ == old(out)@ + graphic(text@, with_options, dir@).out,
        rest@ == graphic(text@, with_options, dir@).rest,
{
    if with_options {
        let closed = find_str(text, "]{");
        match closed {
            Some(n) => rewrite_file(
                out,
                tail(text, n + length("]{")),
                dir,
                "<span class=\"error\">\\includegraphics[..]{</span>",
            ),
            None => {
                emit(out, "<span class=\"error\">\\includegraphics[</span>");
                text
            },
        }
    } else {
        rewrite_file(out, text, dir, "<span class=\"error\">\\includegraphics{</span>")
    }
}

/// Whether, of an `\includegraphics` with options and one without, each
/// given by its position where there is one, the one with options stands
/// first.
pub open spec fn spec_options_first(bracket: Option<int>, brace: Option<int>) -> bool {
    match bracket {
        Some(i) => match brace {
            Some(j) => i < j,
            None => true,
        },
        None => false,
    }
}

/// Whether the `\includegraphics` with options stands first.
pub fn options_first(bracket: Option<usize>, brace: Option<usize>) -> (b: bool)
    ensures
        b == spec_options_first(position(bracket), position(brace)),
{
    match bracket {
        Some(i) => match brace {
            Some(j) => i < j,
            None => true,
        },
        None => false,
    }
}

/// `text` with each `\includegraphics`, with or without options, turned
/// into an image element whose source is `dir` followed by the file name,
/// from the first to the last. One that is cut short becomes an error
/// marker.
pub open spec fn spec_with_image_directory(text: Seq<char>, dir: Seq<char>) -> Seq<char>
    decreases text.len(),
{
    let bracket = find(text, "\\includegraphics["@);
    let brace = find(text, "\\includegraphics{"@);
    if spec_options_first(bracket, brace) {
        let at = after(text, bracket->0 + "\\includegraphics["@.len());
        proof {
            reveal_strlit("\\includegraphics[");
            lemma_find(text, "\\includegraphics["@);
            lemma_graphic_rest(at, true, dir);
        }
        before(text, bracket->0) + graphic(at, true, dir).out + spec_with_image_directory(
            graphic(at, true, dir).rest,
            dir,
        )
    } else if brace is Some {
        let at = after(text, brace->0 + "\\includegraphics{"@.len());
        proof {
            reveal_strlit("\\includegraphics{");
            lemma_find(text, "\\includegraphics{"@);
            lemma_graphic_rest(at, false, dir);
        }
        before(text, brace->0) + graphic(at, false, dir).out + spec_with_image_directory(
            graphic(at, false, dir).rest,
            dir,
        )
    } else {
        text
    }
}

/// `text` with each `\includegraphics` turned into an image element in the
/// directory `dir`.
pub fn with_image_directory(text: &[char], dir: &[char]) -> (r: Vec<char>)
    ensures
        r@ == spec_with_image_directory(text@, dir@),
{
    let mut out: Vec<char> = Vec::new();
    let mut rest = text;
    let bracket_len = length("\\includegraphics[");
    let brace_len = length("\\includegraphics{");
    loop
        invariant
            bracket_len == "\\includegraphics["@.len(),
            brace_len == "\\includegraphics{"@.len(),
            out@ + spec_with_image_directory(rest@, dir@) == spec_with_image_directory(
                text@,
                dir@,
            ),
        decreases rest@.len(),
    {
        proof {
            reveal_strlit("\\includegraphics[");
            reveal_strlit("\\includegraphics{");
        }
        let ghost so_far = out@;
        let ghost whole = spec_with_image_directory(rest@, dir@);
        let bracket = find_str(rest, "\\includegraphics[");
        let brace = find_str(rest, "\\includegraphics{");
        let with_options = options_first(bracket, brace);
        let found = if with_options {
            bracket
        } else {
            brace
        };
        match found {
            Some(i) => {
                let skip = if with_options {
                    bracket_len
                } else {
                    brace_len
                };
                let at = tail(rest, i + skip);
                let ghost lead = before(rest@, i as int);
                let ghost shown = graphic(at@, with_options, dir@);
                proof {
                    lemma_graphic_rest(at@, with_options, dir@);
                    assert(whole == lead + shown.out + spec_with_image_directory(shown.rest, dir@));
                }
                emit_chars(&mut out, head(rest, i));
                rest = rewrite_graphic(&mut out, at, with_options, dir);
                proof {
                    lemma_append(so_far, lead, shown.out);
                    lemma_append(
                        so_far,
                        lead + shown.out,
                        spec_with_image_directory(shown.rest, dir@),
                    );
                }
            },
            None => {
                assert(whole == rest@);
                emit_chars(&mut out, rest);
                return out;
            },
        }
    }
}

/// A regular expression for a sectioning macro with its title.
pub const SECTION_HEADING: &'static str = "\\\\[sub]*section\\{[^\\}]+\\}";

/// What the headings inside a block become, and what is left of the block
/// after the last of them.
pub struct Lifted {
    pub out: Seq<char>,
    pub rest: Seq<char>,
}

/// The headings that end within the first `limit` characters of `text`, each
/// lifted out of the block: the block is closed before the heading and
/// opened again after it. A match that is empty ends the search.
pub open spec fn lift_sections(text: Seq<char>, limit: int, begin: Seq<char>, end: Seq<char>) -> Lifted
    decreases text.len(),
{
    match spec_find_match(SECTION_HEADING@, text) {
        Some(m) => if m.1 >= limit || m.1 == 0 {
            Lifted { out: Seq::empty(), rest: text }
        } else {
            let more = lift_sections(after(text, m.1), limit - m.1, begin, end);
            Lifted {
                out: before(text, m.0) + end + text.subrange(m.0, m.1) + begin + more.out,
                rest: more.rest,
            }
        },
        None => Lifted { out: Seq::empty(), rest: text },
    }
}

/// Lifting headings leaves no more text than there was.
pub proof fn lemma_lift_sections_rest(text: Seq<char>, limit: int, begin: Seq<char>, end: Seq<char>)
    ensures
        lift_sections(text, limit, begin, end).rest.len() <= text.len(),
    decreases text.len(),
{
    match spec_find_match(SECTION_HEADING@, text) {
        Some(m) => if m.1 >= limit || m.1 == 0 {
        } else {
            lemma_lift_sections_rest(after(text, m.1), limit - m.1, begin, end);
        },
        None => {},
    }
}

/// `text` with the headings lifted out of each block that `begin` opens and
/// `end` closes.
pub open spec fn pull_out(text: Seq<char>, begin: Seq<char>, end: Seq<char>) -> Seq<char>
    decreases text.len(),
{
    match find(text, begin) {
        Some(i) => if begin.len() > 0 {
            proof {
                lemma_find(text, begin);
            }
            let rest = after(text, i + begin.len());
            match find(rest, end) {
                Some(j) => {
                    proof {
                        lemma_lift_sections_rest(rest, j, begin, end);
                    }
                    let lifted = lift_sections(rest, j, begin, end);
                    before(text, i + begin.len()) + lifted.out + pull_out(lifted.rest, begin, end)
                },
                None => before(text, i + begin.len()) + pull_out(rest, begin, end),
            }
        } else {
            text
        },
        None => text,
    }
}

/// The opening of the environment `environ`.
pub open spec fn opening_of(environ: Seq<char>) -> Seq<char> {
    "\\begin{"@ + environ + "}"@
}

/// The closing of the environment `environ`.
pub open spec fn closing_of(environ: Seq<char>) -> Seq<char> {
    "\\end{"@ + environ + "}"@
}

/// `text` with the headings lifted out of each environment `environ`.
pub open spec fn spec_pull_sections_out_of_environ(text: Seq<char>, environ: Seq<char>) -> Seq<char> {
    pull_out(text, opening_of(environ), closing_of(environ))
}

/// `text` with the headings lifted out of each environment `environ`.
pub fn pull_sections_out_of_environ(text: &[char], environ: &str) -> (r: Vec<char>)
    ensures
        r@ == spec_pull_sections_out_of_environ(text@, environ@),
{
    let mut begin: Vec<char> = Vec::new();
    emit(&mut begin, "\\begin{");
    emit(&mut begin, environ);
    emit(&mut begin, "}");
    let mut end: Vec<char> = Vec::new();
    emit(&mut end, "\\end{");
    emit(&mut end, environ);
    emit(&mut end, "}");
    proof {
        reveal_strlit("\\begin{");
        assert(begin@ =~= opening_of(environ@));
        assert(end@ =~= closing_of(environ@));
    }
    let mut out: Vec<char> = Vec::new();
    let mut rest = text;
    loop
        invariant
            begin@.len() > 0,
            begin@ == opening_of(environ@),
            end@ == closing_of(environ@),
            out@ + pull_out(rest@, begin@, end@) =~= pull_out(text@, begin@, end@),
        decreases rest@.len(),
    {
        let found = crate::text::find_sub(rest, begin.as_slice());
        match found {
            Some(i) => {
                emit_chars(&mut out, head(rest, i + begin.len()));
                rest = tail(rest, i + begin.len());
                let closed = crate::text::find_sub(rest, end.as_slice());
                if let Some(j) = closed {
                    let ghost block = rest@;
                    let ghost start = out@;
                    let mut limit = j;
                    loop
                        invariant
                            limit <= rest@.len(),
                            rest@.len() <= block.len(),
                            out@ + lift_sections(rest@, limit as int, begin@, end@).out =~= start
                                + lift_sections(block, j as int, begin@, end@).out,
                            lift_sections(rest@, limit as int, begin@, end@).rest == lift_sections(
                                block,
                                j as int,
                                begin@,
                                end@,
                            ).rest,
                        ensures
                            out@ =~= start + lift_sections(block, j as int, begin@, end@).out,
                            rest@ == lift_sections(block, j as int, begin@, end@).rest,
                        decreases rest@.len(),
                    {
                        let heading = find_match(SECTION_HEADING, rest);
                        match heading {
                            Some(m) => {
                                if m.1 >= limit || m.1 == 0 {
                                    break ;
                                }
                                emit_chars(&mut out, head(rest, m.0));
                                emit_chars(&mut out, end.as_slice());
                                emit_chars(&mut out, vstd::slice::slice_subrange(rest, m.0, m.1));
                                emit_chars(&mut out, begin.as_slice());
                                rest = tail(rest, m.1);
                                limit = limit - m.1;
                            },
                            None => {
                                break ;
                            },
                        }
                    }
                }
            },
            None => {
                emit_chars(&mut out, rest);
                return out;
            },
        }
    }
}

/// `text` with the headings lifted out of its solutions, guides and
/// handouts, in that order.
pub open spec fn spec_pull_sections_out(text: Seq<char>) -> Seq<char> {
    spec_pull_sections_out_of_environ(
        spec_pull_sections_out_of_environ(
            spec_pull_sections_out_of_environ(text, "solution"@),
            "guide"@,
        ),
        "handout"@,
    )
}

/// `text` with the headings lifted out of its solutions, guides and handouts.
pub fn pull_sections_out(text: &[char]) -> (r: Vec<char>)
    ensures
        r@ == spec_pull_sections_out(text@),
{
    let solution = pull_sections_out_of_environ(text, "solution");
    let guide = pull_sections_out_of_environ(solution.as_slice(), "guide");
    pull_sections_out_of_environ(guide.as_slice(), "handout")
}

} // verus!
