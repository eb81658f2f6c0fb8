//! The renderer: sections, paragraphs, macros and environments as HTML.
//!
//! Each function appends to its output what the model says of the text it
//! is given, and those that render the start of a text give back the rest.

use vstd::prelude::*;
use crate::chars::{is_blank, spec_is_blank, trim_start};
use crate::escape::{
    fmt_as_html, fmt_error, fmt_errors, fmt_math_as_html, spec_fmt_error, spec_fmt_errors,
    with_braces_hidden,
};
use crate::markup::{
    accent, block, emit_link_open, fixed, formatting, heading_close, heading_macro, heading_open,
    is_aside, is_color, is_letter, is_math, list_close, list_missing, list_open,
    process_url_argument, rank, spec_heading_close, spec_heading_macro, spec_heading_open,
    spec_list_open, strip_braces, switch, Entry, Level, List, Wrapper,
};
use crate::model::{
    accented, after_placement, aside, below, delimited_math, dollar_math, enclosed, environment,
    figure, framed, further_sections, graphics, group, heading, heading_opens, href, label, list,
    list_closing, list_item, list_items, macro_step, math_environment, one_argument, paragraph_body,
    paragraph_piece, paragraphs, reference, run_in_heading, section_close, sections, spacing,
    spec_html, spec_html_paragraph, spec_html_section, spec_html_subsection,
    spec_html_subsubsection, spec_inside, spec_is_centered, spec_nested, table_cell, table_cells,
    table_row, table_rows, tabular, textcolor, token, unbalanced_error, unclosed_error,
    unknown_environment, url, wrapfigure, wrapped,
};
use crate::scan::{
    argument, closing, end_env, env_name, find_class, finish_item, finish_paragraph,
    finish_standalone_macro, is_closed, is_unbalanced, macro_name, optional_argument, parse_title,
    spec_finish_paragraph, Class,
};
use crate::text::{
    after, before, emit, emit_chars, equals, find_str, head, lemma_append, lemma_find, length,
    occurs_at, replace_all, starts_with, tail,
};
use crate::transform::{pull_sections_out, strip_comments};
use crate::width::parse_width;

verus! {

/// How many levels deep a document is rendered.
pub const MAX_DEPTH: usize = 64;

/// What stands between the first and the last character of `group`.
pub fn inside(group: &[char]) -> (r: &[char])
    ensures
        r@ == spec_inside(group@),
{
    if group.len() >= 2 {
        vstd::slice::slice_subrange(group, 1, group.len() - 1)
    } else {
        let r = vstd::slice::slice_subrange(group, 0, 0);
        assert(r@ =~= Seq::<char>::empty());
        r
    }
}

/// Whether `text` starts with `\centering` and a space or a line break.
pub fn is_centered(text: &[char]) -> (b: bool)
    ensures
        b == spec_is_centered(text@),
{
    starts_with(text, "\\centering ") || starts_with(text, "\\centering\n")
}

/// Appends the error marker for an argument of `name` that its braces do not
/// close.
fn emit_unbalanced_error(out: &mut Vec<char>, name: &[char])
    ensures
        final(out)@ == old(out)@ + unbalanced_error(name@),
{
    emit(out, "<span class=\"error\">");
    emit_chars(out, name);
    emit(out, "{</span>");
    assert(out@ =~= old(out)@ + unbalanced_error(name@));
}

/// Appends the error marker for an environment `name` that nothing closes.
fn emit_unclosed_error(out: &mut Vec<char>, name: &[char])
    ensures
        final(out)@ == old(out)@ + unclosed_error(name@),
{
    emit(out, "<span class=\"error\">\\begin");
    emit_chars(out, name);
    emit(out, "</span>");
    assert(out@ =~= old(out)@ + unclosed_error(name@));
}

/// Appends one error marker around two parts.
fn error_pair(out: &mut Vec<char>, first: &str, second: &[char])
    ensures
        final(out)@ == old(out)@ + spec_fmt_errors(seq![first@, second@]),
{
    let a = crate::text::to_chars(first);
    let parts: Vec<&[char]> = vec![a.as_slice(), second];
    assert(parts@.map_values(|p: &[char]| p@) =~= seq![first@, second@]);
    fmt_errors(out, parts.as_slice());
}

/// Appends one error marker around three parts.
fn error_triple(out: &mut Vec<char>, first: &str, second: &[char], third: &[char])
    ensures
        final(out)@ == old(out)@ + spec_fmt_errors(seq![first@, second@, third@]),
{
    let a = crate::text::to_chars(first);
    let parts: Vec<&[char]> = vec![a.as_slice(), second, third];
    assert(parts@.map_values(|p: &[char]| p@) =~= seq![first@, second@, third@]);
    fmt_errors(out, parts.as_slice());
}

/// Renders `text` one level further down, starting at the level `entry`.
pub fn nested(out: &mut Vec<char>, entry: Entry, text: &[char], depth: usize)
    ensures
        final(out)@ == old(out)@ + spec_nested(entry, text@, depth as nat),
    decreases depth, 0nat, 0nat,
{
    if depth == 0 {
        fmt_error(out, text);
    } else {
        match entry {
            Entry::Document => html(out, text, depth - 1),
            Entry::Paragraphs => html_subsubsection(out, text, depth - 1),
            Entry::Paragraph => html_paragraph(out, text, depth - 1),
        }
    }
}

/// Renders `text` inside the markup of `wrapper`.
fn render_wrapped(out: &mut Vec<char>, wrapper: Wrapper, text: &[char], depth: usize)
    ensures
        final(out)@ == old(out)@ + wrapped(wrapper, text@, depth as nat),
    decreases depth, 1nat, 0nat,
{
    emit(out, wrapper.open);
    nested(out, wrapper.entry, text, depth);
    emit(out, wrapper.close);
    assert(out@ =~= old(out)@ + wrapped(wrapper, text@, depth as nat));
}

/// Renders one item of a list.
fn render_list_item(out: &mut Vec<char>, kind: List, item: &[char], depth: usize)
    ensures
        final(out)@ == old(out)@ + list_item(kind, item@, depth as nat),
    decreases depth, 1nat, 0nat,
{
    let ghost start = out@;
    match kind {
        List::Description => {
            let term = optional_argument(item);
            let ghost title = spec_nested(Entry::Document, spec_inside(term@), depth as nat);
            let ghost body = spec_nested(
                Entry::Document,
                after(item@, term@.len() as int),
                depth as nat,
            );
            let ghost heading = if term@.len() > 2 {
                "<dt>"@ + title + "</dt>"@
            } else {
                Seq::<char>::empty()
            };
            if term.len() > 2 {
                emit(out, "<dt>");
                nested(out, Entry::Document, inside(term), depth);
                emit(out, "</dt>");
                proof {
                    lemma_append(start, "<dt>"@, title);
                    lemma_append(start, "<dt>"@ + title, "</dt>"@);
                }
            } else {
                assert(start + heading =~= start);
            }
            emit(out, "<dd>");
            nested(out, Entry::Document, tail(item, term.len()), depth);
            emit(out, "</dd>");
            proof {
                lemma_append(start, heading, "<dd>"@);
                lemma_append(start, heading + "<dd>"@, body);
                lemma_append(start, heading + "<dd>"@ + body, "</dd>"@);
            }
        },
        _ => {
            let ghost body = spec_nested(Entry::Document, item@, depth as nat);
            emit(out, "<li>");
            nested(out, Entry::Document, item, depth);
            emit(out, "</li>");
            proof {
                lemma_append(start, "<li>"@, body);
                lemma_append(start, "<li>"@ + body, "</li>"@);
            }
        },
    }
}

/// Ends a list where `text` starts with the closing of a list, and gives the
/// text after it.
fn close_list<'a>(out: &mut Vec<char>, kind: List, text: &'a [char]) -> (r: Option<&'a [char]>)
    ensures
        match list_closing(kind, text@) {
            Some(step) => r matches Some(rest) && rest@ == step.rest && rest@.len() <= text@.len()
                && final(out)@ == old(out)@ + step.out,
            None => r is None && final(out)@ == old(out)@,
        },
{
    if starts_with(text, "\\end{itemize}") {
        emit(out, list_close(kind, List::Itemize));
        Some(tail(text, length("\\end{itemize}")))
    } else if starts_with(text, "\\end{enumerate}") {
        emit(out, list_close(kind, List::Enumerate));
        Some(tail(text, length("\\end{enumerate}")))
    } else if starts_with(text, "\\end{description}") {
        emit(out, list_close(kind, List::Description));
        Some(tail(text, length("\\end{description}")))
    } else {
        None
    }
}

/// Renders the items of a list up to its end, and gives the text after it.
fn render_list_items<'a>(out: &mut Vec<char>, kind: List, text: &'a [char], depth: usize) -> (rest:
    &'a [char])
    ensures
        final(out)@ == old(out)@ + list_items(kind, text@, depth as nat).out,
        rest@ == list_items(kind, text@, depth as nat).rest,
        rest@.len() <= text@.len(),
    decreases depth, 2nat, text@.len(),
{
    let mut latex = text;
    loop
        invariant
            latex@.len() <= text@.len(),
            out@ + list_items(kind, latex@, depth as nat).out =~= old(out)@ + list_items(
                kind,
                text@,
                depth as nat,
            ).out,
            list_items(kind, latex@, depth as nat).rest == list_items(kind, text@, depth as nat).rest,
        decreases latex@.len(),
    {
        let item = finish_item(latex);
        let rest = tail(latex, item.len());
        if item.len() == 0 {
            if let Some(left) = close_list(out, kind, rest) {
                assert(out@ =~= old(out)@ + list_items(kind, text@, depth as nat).out);
                return left;
            }
            if starts_with(rest, "\\item") {
                proof {
                    reveal_strlit("\\item");
                }
                latex = finish_standalone_macro(tail(rest, length("\\item")));
            } else {
                emit(out, list_missing(kind));
                assert(out@ =~= old(out)@ + list_items(kind, text@, depth as nat).out);
                return rest;
            }
        } else {
            render_list_item(out, kind, item, depth);
            latex = rest;
        }
    }
}

/// Renders a list whose opening `text` follows, and gives the text after it.
fn render_list<'a>(out: &mut Vec<char>, kind: List, text: &'a [char], depth: usize) -> (rest:
    &'a [char])
    ensures
        final(out)@ == old(out)@ + list(kind, text@, depth as nat).out,
        rest@ == list(kind, text@, depth as nat).rest,
        rest@.len() <= text@.len(),
    decreases depth, 3nat, 0nat,
{
    emit(out, list_open(kind));
    let lead = finish_item(text);
    let ghost shown = if spec_is_blank(lead@) {
        Seq::<char>::empty()
    } else {
        spec_fmt_error(lead@)
    };
    if !is_blank(lead) {
        fmt_error(out, lead);
    }
    let ghost start = old(out)@;
    let ghost opening = spec_list_open(kind)@;
    proof {
        if spec_is_blank(lead@) {
            assert(start + opening + shown =~= start + opening);
        }
        lemma_append(start, opening, shown);
    }
    let ghost items = list_items(kind, after(text@, lead@.len() as int), depth as nat);
    let rest = render_list_items(out, kind, tail(text, lead.len()), depth);
    proof {
        lemma_append(start, opening + shown, items.out);
    }
    rest
}

/// Renders one cell of a table.
fn render_table_cell(out: &mut Vec<char>, cell: &[char], depth: usize)
    ensures
        final(out)@ == old(out)@ + table_cell(cell@, depth as nat),
    decreases depth, 1nat, 0nat,
{
    emit(out, "<td>");
    let shown = replace_all(cell, "myampersand", "\\&");
    nested(out, Entry::Paragraph, shown.as_slice(), depth);
    emit(out, "</td>");
    assert(out@ =~= old(out)@ + table_cell(cell@, depth as nat));
}

/// Renders the cells of a row.
fn render_table_cells(out: &mut Vec<char>, row: &[char], depth: usize)
    ensures
        final(out)@ == old(out)@ + table_cells(row@, depth as nat),
    decreases depth, 2nat, row@.len(),
{
    let mut rest = row;
    let step = length("&");
    loop
        invariant
            step == "&"@.len(),
            rest@.len() <= row@.len(),
            out@ + table_cells(rest@, depth as nat) =~= old(out)@ + table_cells(row@, depth as nat),
        decreases rest@.len(),
    {
        proof {
            reveal_strlit("&");
        }
        let found = find_str(rest, "&");
        match found {
            Some(i) => {
                render_table_cell(out, head(rest, i), depth);
                rest = tail(rest, i + step);
            },
            None => {
                render_table_cell(out, rest, depth);
                assert(out@ =~= old(out)@ + table_cells(row@, depth as nat));
                return ;
            },
        }
    }
}

/// Renders one row of a table.
fn render_table_row(out: &mut Vec<char>, row: &[char], depth: usize)
    ensures
        final(out)@ == old(out)@ + table_row(row@, depth as nat),
    decreases depth, 3nat, 0nat,
{
    emit(out, "<tr>");
    let hidden = replace_all(row, "\\&", "myampersand");
    render_table_cells(out, hidden.as_slice(), depth);
    emit(out, "</tr>");
    assert(out@ =~= old(out)@ + table_row(row@, depth as nat));
}

/// Renders the rows of a table.
fn render_table_rows(out: &mut Vec<char>, body: &[char], depth: usize)
    ensures
        final(out)@ == old(out)@ + table_rows(body@, depth as nat),
    decreases depth, 4nat, body@.len(),
{
    let mut rest = body;
    let step = length("\\\\");
    loop
        invariant
            step == "\\\\"@.len(),
            rest@.len() <= body@.len(),
            out@ + table_rows(rest@, depth as nat) =~= old(out)@ + table_rows(body@, depth as nat),
        decreases rest@.len(),
    {
        proof {
            reveal_strlit("\\\\");
        }
        let found = find_str(rest, "\\\\");
        match found {
            Some(i) => {
                render_table_row(out, head(rest, i), depth);
                rest = tail(rest, i + step);
            },
            None => {
                render_table_row(out, rest, depth);
                assert(out@ =~= old(out)@ + table_rows(body@, depth as nat));
                return ;
            },
        }
    }
}

/// Renders a table whose opening `text` follows, and gives the text after it.
fn render_tabular<'a>(out: &mut Vec<char>, text: &'a [char], depth: usize) -> (rest: &'a [char])
    ensures
        final(out)@ == old(out)@ + tabular(text@, depth as nat).out,
        rest@ == tabular(text@, depth as nat).rest,
        rest@.len() <= text@.len(),
    decreases depth, 5nat, 0nat,
{
    let found = find_str(text, "\\end{tabular}");
    match found {
        Some(i) => {
            let columns = argument(text);
            let start = if columns.len() <= i {
                columns.len()
            } else {
                i
            };
            emit(out, "<table>");
            render_table_rows(out, vstd::slice::slice_subrange(text, start, i), depth);
            emit(out, "</table>");
            assert(out@ =~= old(out)@ + tabular(text@, depth as nat).out);
            tail(text, i + length("\\end{tabular}"))
        },
        None => {
            let name = crate::text::to_chars("{tabular}");
            emit_unclosed_error(out, name.as_slice());
            text
        },
    }
}

/// The body of a centred figure starts within the figure: its closing
/// cannot stand inside the `\centering` that the body starts with.
proof fn lemma_centered_body(text: Seq<char>, end: Seq<char>, i: int)
    requires
        spec_is_centered(text),
        occurs_at(text, end, i),
        end.len() >= 2,
        end[0] == '\\',
        end[1] == 'e',
    ensures
        "\\centering "@.len() <= i,
{
    reveal_strlit("\\centering ");
    reveal_strlit("\\centering\n");
    let found = text.subrange(i, i + end.len());
    assert(found[0] == text[i]);
    assert(found[1] == text[i + 1]);
    if i < 11 {
        let lead = text.subrange(0, 11);
        assert(lead[i] == text[i]);
        if i + 1 < 11 {
            assert(lead[i + 1] == text[i + 1]);
        }
    }
}

/// Renders a figure that `end` closes, and gives the text after it.
fn render_framed<'a>(
    out: &mut Vec<char>,
    text: &'a [char],
    end: &str,
    centered: &[char],
    plain: &[char],
    name: &str,
    depth: usize,
) -> (rest: &'a [char])
    requires
        end@.len() >= 2,
        end@[0] == '\\',
        end@[1] == 'e',
    ensures
        final(out)@ == old(out)@ + framed(
            text@,
            end@,
            centered@,
            plain@,
            name@,
            depth as nat,
        ).out,
        rest@ == framed(text@, end@, centered@, plain@, name@, depth as nat).rest,
        rest@.len() <= text@.len(),
    decreases depth, 1nat, 0nat,
{
    let found = find_str(text, end);
    match found {
        Some(i) => {
            if is_centered(text) {
                proof {
                    lemma_find(text@, end@);
                    lemma_centered_body(text@, end@, i as int);
                }
                emit_chars(out, centered);
                nested(
                    out,
                    Entry::Paragraph,
                    vstd::slice::slice_subrange(text, length("\\centering "), i),
                    depth,
                );
            } else {
                emit_chars(out, plain);
                nested(out, Entry::Paragraph, head(text, i), depth);
            }
            emit(out, "</figure>");
            assert(out@ =~= old(out)@ + framed(
                text@,
                end@,
                centered@,
                plain@,
                name@,
                depth as nat,
            ).out);
            tail(text, i + length(end))
        },
        None => {
            let shown = crate::text::to_chars(name);
            emit_unclosed_error(out, shown.as_slice());
            text
        },
    }
}

/// What is left of `text` after the placement of a figure.
fn skip_placement(text: &[char]) -> (r: &[char])
    ensures
        r@ == after_placement(text@),
        r@.len() <= text@.len(),
{
    if text.len() > 0 && text[0] == '[' {
        let found = find_str(text, "]");
        match found {
            Some(i) => tail(text, i + length("]")),
            None => text,
        }
    } else {
        text
    }
}

/// Renders a figure whose opening `text` follows, and gives the text after it.
fn render_figure<'a>(out: &mut Vec<char>, text: &'a [char], depth: usize) -> (rest: &'a [char])
    ensures
        final(out)@ == old(out)@ + figure(text@, depth as nat).out,
        rest@ == figure(text@, depth as nat).rest,
        rest@.len() <= text@.len(),
    decreases depth, 2nat, 0nat,
{
    proof {
        reveal_strlit("\\end{figure}");
    }
    let centered = crate::text::to_chars("<figure class=\"center\">");
    let plain = crate::text::to_chars("<figure>");
    render_framed(
        out,
        skip_placement(text),
        "\\end{figure}",
        centered.as_slice(),
        plain.as_slice(),
        "{figure}",
        depth,
    )
}

/// Renders a figure that text flows around, and gives the text after it.
fn render_wrapfigure<'a>(out: &mut Vec<char>, text: &'a [char], depth: usize) -> (rest: &'a [char])
    ensures
        final(out)@ == old(out)@ + wrapfigure(text@, depth as nat).out,
        rest@ == wrapfigure(text@, depth as nat).rest,
        rest@.len() <= text@.len(),
    decreases depth, 2nat, 0nat,
{
    proof {
        reveal_strlit("\\end{wrapfigure}");
    }
    let side = argument(text);
    let at_width = tail(text, side.len());
    let width = argument(at_width);
    let style = parse_width(width);
    let mut centered: Vec<char> = Vec::new();
    emit(&mut centered, "<figure class=\"wrapfigure center\"");
    emit_chars(&mut centered, style.as_slice());
    emit(&mut centered, ">");
    let mut plain: Vec<char> = Vec::new();
    emit(&mut plain, "<figure class=\"wrapfigure\"");
    emit_chars(&mut plain, style.as_slice());
    emit(&mut plain, ">");
    assert(centered@ =~= "<figure class=\"wrapfigure center\""@ + style@ + ">"@);
    assert(plain@ =~= "<figure class=\"wrapfigure\""@ + style@ + ">"@);
    render_framed(
        out,
        tail(at_width, width.len()),
        "\\end{wrapfigure}",
        centered.as_slice(),
        plain.as_slice(),
        "{wrapfigure}",
        depth,
    )
}

/// Renders a solution, guide or handout, and gives the text after it.
fn render_aside<'a>(out: &mut Vec<char>, name: &[char], text: &'a [char], depth: usize) -> (rest:
    &'a [char])
    ensures
        final(out)@ == old(out)@ + aside(name@, text@, depth as nat).out,
        rest@ == aside(name@, text@, depth as nat).rest,
        rest@.len() <= text@.len(),
    decreases depth, 1nat, 0nat,
{
    let mut end: Vec<char> = Vec::new();
    emit(&mut end, "\\end");
    emit_chars(&mut end, name);
    assert(end@ =~= closing(name@));
    let found = crate::text::find_sub(text, end.as_slice());
    match found {
        Some(i) => {
            let body = head(text, i);
            if !is_blank(body) {
                emit(out, "<blockquote class=\"");
                emit_chars(out, inside(name));
                emit(out, "\">");
                nested(out, Entry::Paragraphs, body, depth);
                emit(out, "</blockquote>");
            }
            assert(out@ =~= old(out)@ + aside(name@, text@, depth as nat).out);
            tail(text, i + end.len())
        },
        None => {
            emit_unclosed_error(out, name);
            text
        },
    }
}

/// Renders an environment whose body is one paragraph, and gives the text after
/// it.
fn render_enclosed<'a>(
    out: &mut Vec<char>,
    name: &[char],
    wrapper: Wrapper,
    text: &'a [char],
    depth: usize,
) -> (rest: &'a [char])
    ensures
        final(out)@ == old(out)@ + enclosed(name@, wrapper, text@, depth as nat).out,
        rest@ == enclosed(name@, wrapper, text@, depth as nat).rest,
        rest@.len() <= text@.len(),
    decreases depth, 2nat, 0nat,
{
    let mut end: Vec<char> = Vec::new();
    emit(&mut end, "\\end");
    emit_chars(&mut end, name);
    assert(end@ =~= closing(name@));
    let found = crate::text::find_sub(text, end.as_slice());
    match found {
        Some(i) => {
            render_wrapped(out, wrapper, head(text, i), depth);
            tail(text, i + end.len())
        },
        None => {
            emit_unclosed_error(out, name);
            text
        },
    }
}

/// Passes on an environment of mathematics, and gives the text after it.
fn render_math_environment<'a>(out: &mut Vec<char>, name: &[char], text: &'a [char]) -> (rest:
    &'a [char])
    ensures
        final(out)@ == old(out)@ + math_environment(name@, text@).out,
        rest@ == math_environment(name@, text@).rest,
        rest@.len() <= text@.len(),
{
    let body = end_env(name, text);
    if body.len() == 0 {
        error_pair(out, "\\begin", name);
    } else {
        emit(out, "\\begin");
        fmt_as_html(out, name);
        fmt_math_as_html(out, body);
        assert(out@ =~= old(out)@ + math_environment(name@, text@).out);
    }
    tail(text, body.len())
}

/// Marks an unsupported environment as an error, and gives the text after it.
fn render_unknown_environment<'a>(out: &mut Vec<char>, name: &[char], text: &'a [char]) -> (rest:
    &'a [char])
    ensures
        final(out)@ == old(out)@ + unknown_environment(name@, text@).out,
        rest@ == unknown_environment(name@, text@).rest,
        rest@.len() <= text@.len(),
{
    let body = end_env(name, text);
    error_triple(out, "\\begin", name, body);
    tail(text, body.len())
}

/// Renders the environment whose name `text` starts with, and gives the text
/// after it.
fn render_environment<'a>(out: &mut Vec<char>, text: &'a [char], depth: usize) -> (rest: &'a [char])
    ensures
        final(out)@ == old(out)@ + environment(text@, depth as nat).out,
        rest@ == environment(text@, depth as nat).rest,
        rest@.len() <= text@.len(),
    decreases depth, 6nat, 0nat,
{
    let name = env_name(text);
    let rest = tail(text, name.len());
    if !is_closed(name) {
        error_pair(out, "\\begin", name);
        rest
    } else if equals(name, "{figure}") {
        render_figure(out, rest, depth)
    } else if equals(name, "{wrapfigure}") {
        render_wrapfigure(out, rest, depth)
    } else if is_aside(name) {
        render_aside(out, name, rest, depth)
    } else if equals(name, "{tabular}") {
        render_tabular(out, rest, depth)
    } else if let Some(wrapper) = block(name) {
        render_enclosed(out, name, wrapper, rest, depth)
    } else if is_math(name) {
        render_math_environment(out, name, rest)
    } else if equals(name, "{itemize}") {
        render_list(out, List::Itemize, rest, depth)
    } else if equals(name, "{enumerate}") {
        render_list(out, List::Enumerate, rest, depth)
    } else if equals(name, "{description}") {
        render_list(out, List::Description, rest, depth)
    } else {
        render_unknown_environment(out, name, rest)
    }
}

/// Renders a macro that formats its one argument, and gives the text after it.
fn render_one_argument<'a>(
    out: &mut Vec<char>,
    name: &[char],
    wrapper: Wrapper,
    text: &'a [char],
    depth: usize,
) -> (rest: &'a [char])
    ensures
        final(out)@ == old(out)@ + one_argument(name@, wrapper, text@, depth as nat).out,
        rest@ == one_argument(name@, wrapper, text@, depth as nat).rest,
        rest@.len() <= text@.len(),
    decreases depth, 2nat, 0nat,
{
    let arg = argument(text);
    if is_unbalanced(arg) {
        emit_unbalanced_error(out, name);
    } else {
        render_wrapped(out, wrapper, arg, depth);
    }
    tail(text, arg.len())
}

/// Renders vertical space, and gives the text after it.
fn render_spacing<'a>(out: &mut Vec<char>, name: &[char], text: &'a [char]) -> (rest: &'a [char])
    ensures
        final(out)@ == old(out)@ + spacing(name@, text@).out,
        rest@ == spacing(name@, text@).rest,
        rest@.len() <= text@.len(),
{
    let arg = argument(text);
    if is_unbalanced(arg) {
        emit_unbalanced_error(out, name);
    } else {
        emit(out, "<br/>");
    }
    tail(text, arg.len())
}

/// Marks a label as an error, and gives the text after it.
fn render_label<'a>(out: &mut Vec<char>, name: &[char], text: &'a [char]) -> (rest: &'a [char])
    ensures
        final(out)@ == old(out)@ + label(name@, text@).out,
        rest@ == label(name@, text@).rest,
        rest@.len() <= text@.len(),
{
    let arg = argument(text);
    if is_unbalanced(arg) {
        emit_unbalanced_error(out, name);
    } else {
        emit(out, "<span class=\"error\">");
        emit_chars(out, name);
        emit_chars(out, arg);
        emit(out, "</span>");
        assert(out@ =~= old(out)@ + label(name@, text@).out);
    }
    tail(text, arg.len())
}

/// Passes on a cross-reference, and gives the text after it.
fn render_reference<'a>(out: &mut Vec<char>, name: &[char], text: &'a [char]) -> (rest: &'a [char])
    ensures
        final(out)@ == old(out)@ + reference(name@, text@).out,
        rest@ == reference(name@, text@).rest,
        rest@.len() <= text@.len(),
{
    let arg = argument(text);
    if is_unbalanced(arg) {
        emit_unbalanced_error(out, name);
    } else {
        emit_chars(out, name);
        emit_chars(out, arg);
        assert(out@ =~= old(out)@ + reference(name@, text@).out);
    }
    tail(text, arg.len())
}

/// Renders text in a colour, and gives the text after it.
fn render_textcolor<'a>(out: &mut Vec<char>, name: &[char], text: &'a [char], depth: usize) -> (rest:
    &'a [char])
    ensures
        final(out)@ == old(out)@ + textcolor(name@, text@, depth as nat).out,
        rest@ == textcolor(name@, text@, depth as nat).rest,
        rest@.len() <= text@.len(),
    decreases depth, 1nat, 0nat,
{
    let first = argument(text);
    let at_body = tail(text, first.len());
    if is_unbalanced(first) {
        emit_unbalanced_error(out, name);
        return at_body;
    }
    let color = strip_braces(first);
    let body = argument(at_body);
    let ghost start = out@;
    let ghost inner = spec_nested(Entry::Paragraphs, body@, depth as nat);
    if is_unbalanced(body) {
        emit(out, "<span class=\"error\">");
        emit_chars(out, name);
        emit(out, "{");
        emit_chars(out, color.as_slice());
        emit(out, "}{</span>");
        proof {
            let one = "<span class=\"error\">"@;
            lemma_append(start, one, name@);
            lemma_append(start, one + name@, "{"@);
            lemma_append(start, one + name@ + "{"@, color@);
            lemma_append(start, one + name@ + "{"@ + color@, "}{</span>"@);
        }
    } else if is_color(color.as_slice()) {
        emit(out, "<span style=\"color:");
        emit_chars(out, color.as_slice());
        emit(out, ";\">");
        nested(out, Entry::Paragraphs, body, depth);
        emit(out, "</span>");
        proof {
            let one = "<span style=\"color:"@;
            lemma_append(start, one, color@);
            lemma_append(start, one + color@, ";\">"@);
            lemma_append(start, one + color@ + ";\">"@, inner);
            lemma_append(start, one + color@ + ";\">"@ + inner, "</span>"@);
        }
    } else {
        emit(out, "<span class=\"error\">\\textcolor{Invalid color ");
        emit_chars(out, color.as_slice());
        emit(out, " Allowed colors: red, blue, forestgreen, purple, brown, gray, orange}</span>");
        nested(out, Entry::Paragraphs, body, depth);
        proof {
            let one = "<span class=\"error\">\\textcolor{Invalid color "@;
            let two = " Allowed colors: red, blue, forestgreen, purple, brown, gray, orange}</span>"@;
            lemma_append(start, one, color@);
            lemma_append(start, one + color@, two);
            lemma_append(start, one + color@ + two, inner);
        }
    }
    tail(at_body, body.len())
}

/// Renders an address as a link to itself, and gives the text after it.
fn render_url<'a>(out: &mut Vec<char>, text: &'a [char]) -> (rest: &'a [char])
    ensures
        final(out)@ == old(out)@ + url(text@).out,
        rest@ == url(text@).rest,
        rest@.len() <= text@.len(),
{
    let arg = argument(text);
    let address = process_url_argument(arg);
    if is_unbalanced(arg) {
        emit(out, "<span class=\"error\" data-error=\"bad-argument\">\\url{</span>");
    } else {
        emit_link_open(out, address.as_slice());
        emit_chars(out, address.as_slice());
        emit(out, "</a>");
        assert(out@ =~= old(out)@ + url(text@).out);
    }
    tail(text, arg.len())
}

/// Renders a link, and gives the text after it.
fn render_href<'a>(out: &mut Vec<char>, name: &[char], text: &'a [char], depth: usize) -> (rest:
    &'a [char])
    ensures
        final(out)@ == old(out)@ + href(name@, text@, depth as nat).out,
        rest@ == href(name@, text@, depth as nat).rest,
        rest@.len() <= text@.len(),
    decreases depth, 1nat, 0nat,
{
    let first = argument(text);
    let at_body = tail(text, first.len());
    if is_unbalanced(first) {
        emit_unbalanced_error(out, name);
        return at_body;
    }
    let address = process_url_argument(first);
    let body = argument(at_body);
    if is_unbalanced(body) {
        emit(out, "<span class=\"error\">");
        emit_chars(out, name);
        emit(out, "{");
        emit_chars(out, address.as_slice());
        emit(out, "}{</span>");
    } else {
        emit_link_open(out, address.as_slice());
        nested(out, Entry::Paragraphs, body, depth);
        emit(out, "</a>");
    }
    assert(out@ =~= old(out)@ + href(name@, text@, depth as nat).out);
    tail(at_body, body.len())
}

/// Renders an image, and gives the text after it.
fn render_graphics<'a>(out: &mut Vec<char>, name: &[char], text: &'a [char]) -> (rest: &'a [char])
    ensures
        final(out)@ == old(out)@ + graphics(name@, text@).out,
        rest@ == graphics(name@, text@).rest,
        rest@.len() <= text@.len(),
{
    let options = optional_argument(text);
    let width = parse_width(options);
    let at_file = tail(text, options.len());
    let file = argument(at_file);
    if is_unbalanced(file) {
        emit_unbalanced_error(out, name);
    } else {
        emit(out, "<img");
        emit_chars(out, width.as_slice());
        emit(out, " src=\"");
        fmt_as_html(out, inside(file));
        emit(out, "\"/>");
        assert(out@ =~= old(out)@ + graphics(name@, text@).out);
    }
    tail(at_file, file.len())
}

/// Renders a heading that runs into its paragraph, and gives the text after it.
fn render_run_in_heading<'a>(out: &mut Vec<char>, name: &[char], text: &'a [char], depth: usize) -> (rest:
    &'a [char])
    ensures
        final(out)@ == old(out)@ + run_in_heading(name@, text@, depth as nat).out,
        rest@ == run_in_heading(name@, text@, depth as nat).rest,
        rest@.len() <= text@.len(),
    decreases depth, 1nat, 0nat,
{
    let title = parse_title(text);
    if is_unbalanced(title) {
        emit_unbalanced_error(out, name);
    } else {
        emit(out, "<h5>");
        nested(out, Entry::Document, title, depth);
        emit(out, "</h5>");
        assert(out@ =~= old(out)@ + run_in_heading(name@, text@, depth as nat).out);
    }
    let left = tail(text, title.len());
    proof {
        crate::chars::lemma_leading_blank_bound(left@);
    }
    trim_start(left)
}

/// Passes on mathematics between `name` and `close`, and gives the text after
/// it.
fn render_delimited_math<'a>(out: &mut Vec<char>, name: &[char], close: &str, text: &'a [char]) -> (rest:
    &'a [char])
    ensures
        final(out)@ == old(out)@ + delimited_math(name@, close@, text@).out,
        rest@ == delimited_math(name@, close@, text@).rest,
        rest@.len() <= text@.len(),
{
    let found = find_str(text, close);
    match found {
        Some(i) => {
            let end = i + length(close);
            emit_chars(out, name);
            fmt_math_as_html(out, head(text, end));
            assert(out@ =~= old(out)@ + delimited_math(name@, close@, text@).out);
            tail(text, end)
        },
        None => {
            fmt_error(out, name);
            text
        },
    }
}

/// Renders a letter with an accent, and gives the text after it.
fn render_accented<'a>(out: &mut Vec<char>, name: &[char], suffix: &str, text: &'a [char]) -> (rest:
    &'a [char])
    ensures
        final(out)@ == old(out)@ + accented(name@, suffix@, text@).out,
        rest@ == accented(name@, suffix@, text@).rest,
        rest@.len() <= text@.len(),
{
    if text.len() > 0 && is_letter(text[0]) {
        emit(out, "&");
        emit_chars(out, head(text, 1));
        emit(out, suffix);
        emit(out, ";");
        assert(out@ =~= old(out)@ + accented(name@, suffix@, text@).out);
        tail(text, 1)
    } else {
        fmt_error(out, name);
        text
    }
}

/// Renders the macro that `text` starts with, and gives the text after it.
fn render_macro<'a>(out: &mut Vec<char>, text: &'a [char], depth: usize) -> (rest: &'a [char])
    requires
        text@.len() > 0,
    ensures
        final(out)@ == old(out)@ + macro_step(text@, depth as nat).out,
        rest@ == macro_step(text@, depth as nat).rest,
        rest@.len() < text@.len(),
    decreases depth, 7nat, 0nat,
{
    let name = macro_name(text);
    let rest = tail(text, name.len());
    if let Some(output) = fixed(name) {
        emit(out, output);
        rest
    } else if let Some(wrapper) = formatting(name) {
        render_one_argument(out, name, wrapper, rest, depth)
    } else if let Some(wrapper) = switch(name) {
        render_wrapped(out, wrapper, finish_standalone_macro(rest), depth);
        tail(rest, rest.len())
    } else if let Some(suffix) = accent(name) {
        render_accented(out, name, suffix, rest)
    } else if equals(name, "\\vspace") || equals(name, "\\vfill") {
        render_spacing(out, name, rest)
    } else if equals(name, "\\label") {
        render_label(out, name, rest)
    } else if equals(name, "\\eqref") || equals(name, "\\ref") {
        render_reference(out, name, rest)
    } else if equals(name, "\\textcolor") {
        render_textcolor(out, name, rest, depth)
    } else if equals(name, "\\url") {
        render_url(out, rest)
    } else if equals(name, "\\href") {
        render_href(out, name, rest, depth)
    } else if equals(name, "\\includegraphics") {
        render_graphics(out, name, rest)
    } else if equals(name, "\\paragraph") || equals(name, "\\paragraph*") {
        render_run_in_heading(out, name, rest, depth)
    } else if equals(name, "\\(") {
        render_delimited_math(out, name, "\\)", rest)
    } else if equals(name, "\\[") {
        render_delimited_math(out, name, "\\]", rest)
    } else if equals(name, "\\begin") {
        render_environment(out, rest, depth)
    } else if equals(name, "\\end") {
        let environ = env_name(rest);
        error_pair(out, "\\end", environ);
        tail(rest, environ.len())
    } else {
        fmt_error(out, name);
        rest
    }
}

/// Passes on mathematics between dollar signs, and gives the text after it.
fn render_dollar_math<'a>(out: &mut Vec<char>, text: &'a [char]) -> (rest: &'a [char])
    requires
        text@.len() > 0,
    ensures
        final(out)@ == old(out)@ + dollar_math(text@).out,
        rest@ == dollar_math(text@).rest,
        rest@.len() < text@.len(),
{
    proof {
        reveal_strlit("$");
        reveal_strlit("$$");
    }
    let found = find_str(tail(text, 1), "$");
    match found {
        Some(i) => if i == 0 {
            let closed = find_str(tail(text, 2), "$$");
            match closed {
                Some(j) => {
                    emit(out, "\\[");
                    fmt_math_as_html(out, vstd::slice::slice_subrange(text, 2, j + 2));
                    emit(out, "\\]");
                    assert(out@ =~= old(out)@ + dollar_math(text@).out);
                    tail(text, j + 4)
                },
                None => {
                    emit(out, "<span class=\"error\">$$</span>");
                    tail(text, 2)
                },
            }
        } else {
            emit(out, "\\(");
            fmt_math_as_html(out, vstd::slice::slice_subrange(text, 1, i + 1));
            emit(out, "\\)");
            assert(out@ =~= old(out)@ + dollar_math(text@).out);
            tail(text, i + 2)
        },
        None => {
            emit(out, "<span class=\"error\">$</span>");
            tail(text, 1)
        },
    }
}

/// Renders the group in braces that `text` starts with, and gives the text
/// after it.
fn render_group<'a>(out: &mut Vec<char>, text: &'a [char], depth: usize) -> (rest: &'a [char])
    requires
        text@.len() > 0,
    ensures
        final(out)@ == old(out)@ + group(text@, depth as nat).out,
        rest@ == group(text@, depth as nat).rest,
        rest@.len() < text@.len(),
    decreases depth, 1nat, 0nat,
{
    let arg = argument(text);
    if is_unbalanced(arg) {
        emit(out, "<span class=\"error\">{</span>");
    } else {
        nested(out, Entry::Document, inside(arg), depth);
    }
    tail(text, arg.len())
}

/// Renders the markup that `text` starts with, and gives the text after it.
fn render_token<'a>(out: &mut Vec<char>, text: &'a [char], depth: usize) -> (rest: &'a [char])
    requires
        text@.len() > 0,
    ensures
        final(out)@ == old(out)@ + token(text@, depth as nat).out,
        rest@ == token(text@, depth as nat).rest,
        rest@.len() < text@.len(),
    decreases depth, 8nat, 0nat,
{
    let c = text[0];
    if c == '~' {
        emit(out, "&nbsp;");
        tail(text, 1)
    } else if c == '\\' {
        render_macro(out, text, depth)
    } else if c == '$' {
        render_dollar_math(out, text)
    } else {
        render_group(out, text, depth)
    }
}

/// Renders a paragraph in which escaped braces are hidden.
fn render_paragraph_body(out: &mut Vec<char>, text: &[char], depth: usize)
    ensures
        final(out)@ == old(out)@ + paragraph_body(text@, depth as nat),
    decreases depth, 9nat, text@.len(),
{
    let mut latex = text;
    loop
        invariant
            latex@.len() <= text@.len(),
            out@ + paragraph_body(latex@, depth as nat) =~= old(out)@ + paragraph_body(
                text@,
                depth as nat,
            ),
        decreases latex@.len(),
    {
        if latex.len() == 0 {
            assert(out@ =~= old(out)@ + paragraph_body(text@, depth as nat));
            return ;
        }
        let found = find_class(latex, Class::Markup);
        match found {
            Some(i) => {
                fmt_as_html(out, head(latex, i));
                latex = render_token(out, tail(latex, i), depth);
            },
            None => {
                fmt_as_html(out, latex);
                assert(out@ =~= old(out)@ + paragraph_body(text@, depth as nat));
                return ;
            },
        }
    }
}

/// Renders a paragraph, `depth` levels deep.
pub fn html_paragraph(out: &mut Vec<char>, text: &[char], depth: usize)
    ensures
        final(out)@ == old(out)@ + spec_html_paragraph(text@, depth as nat),
    decreases depth, 10nat, 0nat,
{
    let hidden = with_braces_hidden(text);
    render_paragraph_body(out, hidden.as_slice(), depth);
}

/// Renders one paragraph of several, or a paragraph that stands alone.
fn render_paragraph_piece(out: &mut Vec<char>, text: &[char], alone: bool, depth: usize)
    ensures
        final(out)@ == old(out)@ + paragraph_piece(text@, alone, depth as nat),
    decreases depth, 11nat, 0nat,
{
    if alone {
        html_paragraph(out, text, depth);
    } else {
        emit(out, "<p>");
        html_paragraph(out, text, depth);
        emit(out, "</p>");
        assert(out@ =~= old(out)@ + paragraph_piece(text@, alone, depth as nat));
    }
}

/// Renders a text without headings, `depth` levels deep.
pub fn html_subsubsection(out: &mut Vec<char>, text: &[char], depth: usize)
    ensures
        final(out)@ == old(out)@ + spec_html_subsubsection(text@, depth as nat),
    decreases depth, 13nat, 0nat,
{
    let alone = finish_paragraph(text).len() == text.len();
    let mut latex = text;
    loop
        invariant
            out@ + paragraphs(latex@, alone, depth as nat) =~= old(out)@ + paragraphs(
                text@,
                alone,
                depth as nat,
            ),
            alone == (spec_finish_paragraph(text@).len() == text@.len()),
        decreases latex@.len(),
    {
        if latex.len() == 0 {
            assert(out@ =~= old(out)@ + spec_html_subsubsection(text@, depth as nat));
            return ;
        }
        let first = finish_paragraph(latex);
        if first.len() == 0 {
            render_paragraph_piece(out, latex, alone, depth);
            assert(out@ =~= old(out)@ + spec_html_subsubsection(text@, depth as nat));
            return ;
        }
        if !is_blank(first) {
            render_paragraph_piece(out, first, alone, depth);
        }
        latex = tail(latex, first.len());
    }
}

/// Renders the heading of a section, and gives the text after it and
/// whether the heading has opened a section.
fn render_heading<'a>(out: &mut Vec<char>, level: Level, text: &'a [char], depth: usize) -> (r: (
    &'a [char],
    bool,
))
    ensures
        final(out)@ == old(out)@ + heading(level, text@, depth as nat).out,
        r.0@ == heading(level, text@, depth as nat).rest,
        r.0@.len() <= text@.len(),
        r.1 == heading_opens(text@),
    decreases depth, 11nat, 0nat,
{
    let at_title = if text.len() > 0 && text[0] == '*' {
        tail(text, 1)
    } else {
        text
    };
    let title = parse_title(at_title);
    let opens = !is_unbalanced(title);
    if opens {
        let ghost start = out@;
        let ghost shown = spec_html_paragraph(title@, depth as nat);
        emit(out, heading_open(level));
        html_paragraph(out, title, depth);
        emit(out, heading_close(level));
        proof {
            lemma_append(start, spec_heading_open(level)@, shown);
            lemma_append(start, spec_heading_open(level)@ + shown, spec_heading_close(level)@);
        }
    } else {
        let name = crate::text::to_chars(heading_macro(level));
        emit_unbalanced_error(out, name.as_slice());
    }
    (tail(at_title, title.len()), opens)
}

/// Closes a section, where one is open.
fn close_section(out: &mut Vec<char>, open: bool)
    ensures
        final(out)@ == old(out)@ + section_close(open),
{
    if open {
        emit(out, "</section>");
    } else {
        assert(out@ + section_close(open) =~= out@);
    }
}

/// Renders what lies between the headings of a level.
fn render_below(out: &mut Vec<char>, level: Level, text: &[char], depth: usize)
    ensures
        final(out)@ == old(out)@ + below(level, text@, depth as nat),
    decreases depth, 11 + 3 * rank(level), 0nat,
{
    match level {
        Level::Section => render_sections(out, Level::Subsection, text, depth),
        Level::Subsection => render_sections(out, Level::Subsubsection, text, depth),
        Level::Subsubsection => html_subsubsection(out, text, depth),
    }
}

/// Renders a text split at the headings of a level.
fn render_sections(out: &mut Vec<char>, level: Level, text: &[char], depth: usize)
    ensures
        final(out)@ == old(out)@ + sections(level, text@, depth as nat),
    decreases depth, 13 + 3 * rank(level), 0nat,
{
    let name = heading_macro(level);
    let skip = length(name);
    let ghost start = out@;
    let ghost whole = sections(level, text@, depth as nat);
    let found = find_str(text, name);
    let first = match found {
        Some(i) => {
            let ghost lead = below(level, before(text@, i as int), depth as nat);
            let ghost title = heading(level, after(text@, i + skip), depth as nat);
            render_below(out, level, head(text, i), depth);
            let r = render_heading(out, level, tail(text, i + skip), depth);
            proof {
                let more = further_sections(level, r.0@, r.1, depth as nat);
                assert(whole == lead + title.out + more);
                lemma_append(start, lead, title.out);
                lemma_append(start, lead + title.out, more);
            }
            r
        },
        None => {
            render_below(out, level, text, depth);
            return ;
        },
    };
    let mut latex = first.0;
    let mut open = first.1;
    loop
        invariant
            name == spec_heading_macro(level),
            skip == name@.len(),
            skip > 0,
            start == old(out)@,
            whole == sections(level, text@, depth as nat),
            out@ + further_sections(level, latex@, open, depth as nat) == start + whole,
        decreases latex@.len(),
    {
        let ghost so_far = out@;
        let ghost left = further_sections(level, latex@, open, depth as nat);
        if latex.len() == 0 {
            close_section(out, open);
            return ;
        }
        let next = find_str(latex, name);
        match next {
            Some(i) => {
                let ghost lead = below(level, before(latex@, i as int), depth as nat);
                let ghost title = heading(level, after(latex@, i + skip), depth as nat);
                render_below(out, level, head(latex, i), depth);
                close_section(out, open);
                let r = render_heading(out, level, tail(latex, i + skip), depth);
                proof {
                    let more = further_sections(level, r.0@, r.1, depth as nat);
                    assert(left == lead + section_close(open) + title.out + more);
                    lemma_append(so_far, lead, section_close(open));
                    lemma_append(so_far, lead + section_close(open), title.out);
                    lemma_append(so_far, lead + section_close(open) + title.out, more);
                }
                latex = r.0;
                open = r.1;
            },
            None => {
                let ghost lead = below(level, latex@, depth as nat);
                render_below(out, level, latex, depth);
                close_section(out, open);
                proof {
                    lemma_append(so_far, lead, section_close(open));
                }
                return ;
            },
        }
    }
}

/// Renders a document, `depth` levels deep.
pub fn html(out: &mut Vec<char>, text: &[char], depth: usize)
    ensures
        final(out)@ == old(out)@ + spec_html(text@, depth as nat),
    decreases depth, 23nat, 0nat,
{
    let stripped = strip_comments(text);
    let pulled = pull_sections_out(stripped.as_slice());
    render_sections(out, Level::Section, pulled.as_slice(), depth);
}

/// Renders a text below the level of sections, `depth` levels deep.
pub fn html_section(out: &mut Vec<char>, text: &[char], depth: usize)
    ensures
        final(out)@ == old(out)@ + spec_html_section(text@, depth as nat),
{
    render_sections(out, Level::Subsection, text, depth);
}

/// Renders a text below the level of subsections, `depth` levels deep.
pub fn html_subsection(out: &mut Vec<char>, text: &[char], depth: usize)
    ensures
        final(out)@ == old(out)@ + spec_html_subsection(text@, depth as nat),
{
    render_sections(out, Level::Subsubsection, text, depth);
}

} // verus!
