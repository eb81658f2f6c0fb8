//! What rendering gives: for each part of a document, the HTML that stands
//! for it, as a sequence of characters.
//!
//! Rendering follows the text from left to right and descends into the
//! arguments of macros and the bodies of environments. The descent is
//! bounded: each function takes the number of levels that may still be gone
//! down, and a part that lies deeper is shown as an error and not rendered.
//!
//! Where a text is followed step by step, the model goes on only while a
//! step leaves less text than it was given. The renderer shows that every
//! step does.

use vstd::prelude::*;
use crate::chars::{spec_is_blank, spec_trim_start};
use crate::escape::{
    hide_braces, spec_fmt_as_html, spec_fmt_error, spec_fmt_errors, spec_fmt_math_as_html,
};
use crate::markup::{
    link_open, rank, spec_accent, spec_block, spec_fixed, spec_formatting, spec_heading_close,
    spec_heading_macro, spec_heading_open, spec_is_aside, spec_is_color, spec_is_letter,
    spec_is_math, spec_list_close, spec_list_missing, spec_list_open, spec_process_url_argument,
    spec_switch, without_braces, Entry, Level, List, Wrapper,
};
use crate::scan::{
    closing, spec_argument, spec_end_env, spec_env_name, spec_find_class, spec_finish_item,
    spec_finish_paragraph, spec_finish_standalone_macro, spec_is_closed, spec_is_unbalanced,
    spec_macro_name, spec_optional_argument, spec_parse_title, Class,
};
use crate::text::{after, before, find, lemma_find, occurs_at, replace};
use crate::transform::{spec_pull_sections_out, spec_strip_comments};
use crate::width::spec_parse_width;

verus! {

/// What rendering the start of a text gives: the HTML for it, and the text
/// that is left.
pub struct Step {
    pub out: Seq<char>,
    pub rest: Seq<char>,
}

/// The error marker for the macro `name` with an argument that its braces
/// do not close.
pub open spec fn unbalanced_error(name: Seq<char>) -> Seq<char> {
    "<span class=\"error\">"@ + name + "{</span>"@
}

/// The error marker for the environment `name` (its braces included) that
/// nothing closes.
pub open spec fn unclosed_error(name: Seq<char>) -> Seq<char> {
    "<span class=\"error\">\\begin"@ + name + "</span>"@
}

/// What stands between the first and the last character of `group`.
pub open spec fn spec_inside(group: Seq<char>) -> Seq<char> {
    if group.len() >= 2 {
        group.subrange(1, group.len() - 1)
    } else {
        Seq::empty()
    }
}

/// `text` starts with `\centering` and a space or a line break.
pub open spec fn spec_is_centered(text: Seq<char>) -> bool {
    occurs_at(text, "\\centering "@, 0) || occurs_at(text, "\\centering\n"@, 0)
}

/// `text` rendered one level further down, starting at the level `entry`;
/// an error marker around `text` where no level is left.
pub open spec fn spec_nested(entry: Entry, text: Seq<char>, depth: nat) -> Seq<char>
    decreases depth, 0nat, 0nat,
{
    if depth == 0 {
        spec_fmt_error(text)
    } else {
        match entry {
            Entry::Document => spec_html(text, (depth - 1) as nat),
            Entry::Paragraphs => spec_html_subsubsection(text, (depth - 1) as nat),
            Entry::Paragraph => spec_html_paragraph(text, (depth - 1) as nat),
        }
    }
}

/// `text` rendered one level further down, inside the markup of `wrapper`.
pub open spec fn wrapped(wrapper: Wrapper, text: Seq<char>, depth: nat) -> Seq<char>
    decreases depth, 1nat, 0nat,
{
    wrapper.open@ + spec_nested(wrapper.entry, text, depth) + wrapper.close@
}

/// One item of a list. In a description the optional argument, where it
/// holds anything, is the term, and what follows it is the definition.
pub open spec fn list_item(kind: List, item: Seq<char>, depth: nat) -> Seq<char>
    decreases depth, 1nat, 0nat,
{
    match kind {
        List::Description => {
            let term = spec_optional_argument(item);
            (if term.len() > 2 {
                "<dt>"@ + spec_nested(Entry::Document, spec_inside(term), depth)
                    + "</dt>"@
            } else {
                Seq::empty()
            }) + "<dd>"@ + spec_nested(Entry::Document, after(item, term.len() as int), depth)
                + "</dd>"@
        },
        _ => "<li>"@ + spec_nested(Entry::Document, item, depth) + "</li>"@,
    }
}

/// Where a list of the kind stands at the closing of a list: what that
/// gives, and the text after the closing.
pub open spec fn list_closing(kind: List, text: Seq<char>) -> Option<Step> {
    if occurs_at(text, "\\end{itemize}"@, 0) {
        Some(
            Step {
                out: spec_list_close(kind, List::Itemize)@,
                rest: after(text, "\\end{itemize}"@.len() as int),
            },
        )
    } else if occurs_at(text, "\\end{enumerate}"@, 0) {
        Some(
            Step {
                out: spec_list_close(kind, List::Enumerate)@,
                rest: after(text, "\\end{enumerate}"@.len() as int),
            },
        )
    } else if occurs_at(text, "\\end{description}"@, 0) {
        Some(
            Step {
                out: spec_list_close(kind, List::Description)@,
                rest: after(text, "\\end{description}"@.len() as int),
            },
        )
    } else {
        None
    }
}

/// The items of a list, up to and including its closing. Where neither an
/// item nor a closing follows, the list ends with an error marker.
pub open spec fn list_items(kind: List, text: Seq<char>, depth: nat) -> Step
    decreases depth, 2nat, text.len(),
{
    let item = spec_finish_item(text);
    let rest = after(text, item.len() as int);
    if item.len() == 0 {
        match list_closing(kind, rest) {
            Some(step) => step,
            None => if occurs_at(rest, "\\item"@, 0) {
                let next = spec_finish_standalone_macro(after(rest, "\\item"@.len() as int));
                if next.len() < text.len() {
                    list_items(kind, next, depth)
                } else {
                    Step { out: Seq::empty(), rest: next }
                }
            } else {
                Step { out: spec_list_missing(kind)@, rest }
            },
        }
    } else {
        let more = if rest.len() < text.len() {
            list_items(kind, rest, depth)
        } else {
            Step { out: Seq::empty(), rest }
        };
        Step { out: list_item(kind, item, depth) + more.out, rest: more.rest }
    }
}

/// A list of the kind; `text` is what follows its opening. Anything but
/// white space before the first item is an error.
pub open spec fn list(kind: List, text: Seq<char>, depth: nat) -> Step
    decreases depth, 3nat, 0nat,
{
    let lead = spec_finish_item(text);
    let items = list_items(kind, after(text, lead.len() as int), depth);
    Step {
        out: spec_list_open(kind)@ + (if spec_is_blank(lead) {
            Seq::empty()
        } else {
            spec_fmt_error(lead)
        }) + items.out,
        rest: items.rest,
    }
}

/// One cell of a table.
pub open spec fn table_cell(cell: Seq<char>, depth: nat) -> Seq<char>
    decreases depth, 1nat, 0nat,
{
    "<td>"@ + spec_nested(Entry::Paragraph, replace(cell, "myampersand"@, "\\&"@), depth) + "</td>"@
}

/// The cells of a row, which `&` parts.
pub open spec fn table_cells(row: Seq<char>, depth: nat) -> Seq<char>
    decreases depth, 2nat, row.len(),
{
    match find(row, "&"@) {
        Some(i) => {
            proof {
                reveal_strlit("&");
                lemma_find(row, "&"@);
            }
            table_cell(before(row, i), depth) + table_cells(after(row, i + "&"@.len()), depth)
        },
        None => table_cell(row, depth),
    }
}

/// One row of a table; an escaped `\&` parts no cells.
pub open spec fn table_row(row: Seq<char>, depth: nat) -> Seq<char>
    decreases depth, 3nat, 0nat,
{
    "<tr>"@ + table_cells(replace(row, "\\&"@, "myampersand"@), depth) + "</tr>"@
}

/// The rows of a table, which `\\` parts.
pub open spec fn table_rows(body: Seq<char>, depth: nat) -> Seq<char>
    decreases depth, 4nat, body.len(),
{
    match find(body, "\\\\"@) {
        Some(i) => {
            proof {
                reveal_strlit("\\\\");
                lemma_find(body, "\\\\"@);
            }
            table_row(before(body, i), depth) + table_rows(after(body, i + "\\\\"@.len()), depth)
        },
        None => table_row(body, depth),
    }
}

/// A table; `text` is what follows its opening. The argument with the
/// column alignment is passed over.
pub open spec fn tabular(text: Seq<char>, depth: nat) -> Step
    decreases depth, 5nat, 0nat,
{
    match find(text, "\\end{tabular}"@) {
        Some(i) => {
            let columns = spec_argument(text);
            let start = if columns.len() <= i {
                columns.len() as int
            } else {
                i
            };
            Step {
                out: "<table>"@ + table_rows(text.subrange(start, i), depth) + "</table>"@,
                rest: after(text, i + "\\end{tabular}"@.len()),
            }
        },
        None => Step { out: unclosed_error("{tabular}"@), rest: text },
    }
}

/// A figure that `end` closes; `text` is what follows its opening and its
/// options. Where the body starts with `\centering` the figure is opened
/// with `centered` and the body rendered without it; otherwise it is opened
/// with `plain`.
pub open spec fn framed(
    text: Seq<char>,
    end: Seq<char>,
    centered: Seq<char>,
    plain: Seq<char>,
    name: Seq<char>,
    depth: nat,
) -> Step
    decreases depth, 1nat, 0nat,
{
    match find(text, end) {
        Some(i) => Step {
            out: (if spec_is_centered(text) {
                centered + spec_nested(
                    Entry::Paragraph,
                    text.subrange("\\centering "@.len() as int, i),
                    depth,
                )
            } else {
                plain + spec_nested(Entry::Paragraph, before(text, i), depth)
            }) + "</figure>"@,
            rest: after(text, i + end.len()),
        },
        None => Step { out: unclosed_error(name), rest: text },
    }
}

/// What is left of `text` after the placement of a figure in brackets,
/// where it starts with one.
pub open spec fn after_placement(text: Seq<char>) -> Seq<char> {
    if text.len() > 0 && text[0] == '[' {
        match find(text, "]"@) {
            Some(i) => after(text, i + "]"@.len()),
            None => text,
        }
    } else {
        text
    }
}

/// A figure; `text` is what follows its opening.
pub open spec fn figure(text: Seq<char>, depth: nat) -> Step
    decreases depth, 2nat, 0nat,
{
    framed(
        after_placement(text),
        "\\end{figure}"@,
        "<figure class=\"center\">"@,
        "<figure>"@,
        "{figure}"@,
        depth,
    )
}

/// A figure that text flows around; `text` is what follows its opening: the
/// side it stands on, its width and its body.
pub open spec fn wrapfigure(text: Seq<char>, depth: nat) -> Step
    decreases depth, 2nat, 0nat,
{
    let side = spec_argument(text);
    let at_width = after(text, side.len() as int);
    let width = spec_argument(at_width);
    let style = spec_parse_width(width);
    framed(
        after(at_width, width.len() as int),
        "\\end{wrapfigure}"@,
        "<figure class=\"wrapfigure center\""@ + style + ">"@,
        "<figure class=\"wrapfigure\""@ + style + ">"@,
        "{wrapfigure}"@,
        depth,
    )
}

/// A solution, guide or handout, set apart under its name as class; `text`
/// is what follows its opening. A body of white space gives nothing.
pub open spec fn aside(name: Seq<char>, text: Seq<char>, depth: nat) -> Step
    decreases depth, 1nat, 0nat,
{
    match find(text, closing(name)) {
        Some(i) => Step {
            out: if spec_is_blank(before(text, i)) {
                Seq::empty()
            } else {
                "<blockquote class=\""@ + spec_inside(name) + "\">"@ + spec_nested(
                    Entry::Paragraphs,
                    before(text, i),
                    depth,
                ) + "</blockquote>"@
            },
            rest: after(text, i + closing(name).len()),
        },
        None => Step { out: unclosed_error(name), rest: text },
    }
}

/// An environment whose body is rendered as one paragraph inside the markup
/// of `wrapper`; `text` is what follows its opening.
pub open spec fn enclosed(name: Seq<char>, wrapper: Wrapper, text: Seq<char>, depth: nat) -> Step
    decreases depth, 2nat, 0nat,
{
    match find(text, closing(name)) {
        Some(i) => Step {
            out: wrapped(wrapper, before(text, i), depth),
            rest: after(text, i + closing(name).len()),
        },
        None => Step { out: unclosed_error(name), rest: text },
    }
}

/// An environment of mathematics, passed on with its opening and closing;
/// `text` is what follows its opening.
pub open spec fn math_environment(name: Seq<char>, text: Seq<char>) -> Step {
    let body = spec_end_env(name, text);
    Step {
        out: if body.len() == 0 {
            spec_fmt_errors(seq!["\\begin"@, name])
        } else {
            "\\begin"@ + spec_fmt_as_html(name) + spec_fmt_math_as_html(body)
        },
        rest: after(text, body.len() as int),
    }
}

/// An environment that is not supported: an error marker around its
/// opening and, where it is closed, its body and closing.
pub open spec fn unknown_environment(name: Seq<char>, text: Seq<char>) -> Step {
    let body = spec_end_env(name, text);
    Step {
        out: spec_fmt_errors(seq!["\\begin"@, name, body]),
        rest: after(text, body.len() as int),
    }
}

/// An environment; `text` is what follows `\begin`.
pub open spec fn environment(text: Seq<char>, depth: nat) -> Step
    decreases depth, 6nat, 0nat,
{
    let name = spec_env_name(text);
    let rest = after(text, name.len() as int);
    if !spec_is_closed(name) {
        Step { out: spec_fmt_errors(seq!["\\begin"@, name]), rest }
    } else if name == "{figure}"@ {
        figure(rest, depth)
    } else if name == "{wrapfigure}"@ {
        wrapfigure(rest, depth)
    } else if spec_is_aside(name) {
        aside(name, rest, depth)
    } else if name == "{tabular}"@ {
        tabular(rest, depth)
    } else if spec_block(name) is Some {
        enclosed(name, spec_block(name)->0, rest, depth)
    } else if spec_is_math(name) {
        math_environment(name, rest)
    } else if name == "{itemize}"@ {
        list(List::Itemize, rest, depth)
    } else if name == "{enumerate}"@ {
        list(List::Enumerate, rest, depth)
    } else if name == "{description}"@ {
        list(List::Description, rest, depth)
    } else {
        unknown_environment(name, rest)
    }
}

/// A macro that formats its one argument; `text` is what follows its name.
pub open spec fn one_argument(name: Seq<char>, wrapper: Wrapper, text: Seq<char>, depth: nat) -> Step
    decreases depth, 2nat, 0nat,
{
    let arg = spec_argument(text);
    Step {
        out: if spec_is_unbalanced(arg) {
            unbalanced_error(name)
        } else {
            wrapped(wrapper, arg, depth)
        },
        rest: after(text, arg.len() as int),
    }
}

/// Vertical space, shown as a line break; `text` is what follows the name.
pub open spec fn spacing(name: Seq<char>, text: Seq<char>) -> Step {
    let arg = spec_argument(text);
    Step {
        out: if spec_is_unbalanced(arg) {
            unbalanced_error(name)
        } else {
            "<br/>"@
        },
        rest: after(text, arg.len() as int),
    }
}

/// A label, which is not supported and shown as an error; `text` is what
/// follows the name.
pub open spec fn label(name: Seq<char>, text: Seq<char>) -> Step {
    let arg = spec_argument(text);
    Step {
        out: if spec_is_unbalanced(arg) {
            unbalanced_error(name)
        } else {
            "<span class=\"error\">"@ + name + arg + "</span>"@
        },
        rest: after(text, arg.len() as int),
    }
}

/// A cross-reference, passed on as it is; `text` is what follows the name.
pub open spec fn reference(name: Seq<char>, text: Seq<char>) -> Step {
    let arg = spec_argument(text);
    Step {
        out: if spec_is_unbalanced(arg) {
            unbalanced_error(name)
        } else {
            name + arg
        },
        rest: after(text, arg.len() as int),
    }
}

/// Text in a colour; `text` is what follows the name: the colour and the
/// text. A colour that is not allowed gives an error before the text.
pub open spec fn textcolor(name: Seq<char>, text: Seq<char>, depth: nat) -> Step
    decreases depth, 1nat, 0nat,
{
    let first = spec_argument(text);
    let at_body = after(text, first.len() as int);
    if spec_is_unbalanced(first) {
        Step { out: unbalanced_error(name), rest: at_body }
    } else {
        let color = without_braces(first);
        let body = spec_argument(at_body);
        Step {
            out: if spec_is_unbalanced(body) {
                "<span class=\"error\">"@ + name + "{"@ + color + "}{</span>"@
            } else if spec_is_color(color) {
                "<span style=\"color:"@ + color + ";\">"@ + spec_nested(
                    Entry::Paragraphs,
                    body,
                    depth,
                ) + "</span>"@
            } else {
                "<span class=\"error\">\\textcolor{Invalid color "@ + color
                    + " Allowed colors: red, blue, forestgreen, purple, brown, gray, orange}</span>"@
                    + spec_nested(Entry::Paragraphs, body, depth)
            },
            rest: after(at_body, body.len() as int),
        }
    }
}

/// An address shown as a link to itself; `text` is what follows the name.
pub open spec fn url(text: Seq<char>) -> Step {
    let arg = spec_argument(text);
    let address = spec_process_url_argument(arg);
    Step {
        out: if spec_is_unbalanced(arg) {
            "<span class=\"error\" data-error=\"bad-argument\">\\url{</span>"@
        } else {
            link_open(address) + address + "</a>"@
        },
        rest: after(text, arg.len() as int),
    }
}

/// A link; `text` is what follows the name: the address and the text shown.
pub open spec fn href(name: Seq<char>, text: Seq<char>, depth: nat) -> Step
    decreases depth, 1nat, 0nat,
{
    let first = spec_argument(text);
    let at_body = after(text, first.len() as int);
    if spec_is_unbalanced(first) {
        Step { out: unbalanced_error(name), rest: at_body }
    } else {
        let address = spec_process_url_argument(first);
        let body = spec_argument(at_body);
        Step {
            out: if spec_is_unbalanced(body) {
                "<span class=\"error\">"@ + name + "{"@ + address + "}{</span>"@
            } else {
                link_open(address) + spec_nested(Entry::Paragraphs, body, depth) + "</a>"@
            },
            rest: after(at_body, body.len() as int),
        }
    }
}

/// An image; `text` is what follows the name: options, which may give a
/// width, and the file.
pub open spec fn graphics(name: Seq<char>, text: Seq<char>) -> Step {
    let options = spec_optional_argument(text);
    let at_file = after(text, options.len() as int);
    let file = spec_argument(at_file);
    Step {
        out: if spec_is_unbalanced(file) {
            unbalanced_error(name)
        } else {
            "<img"@ + spec_parse_width(options) + " src=\""@ + spec_fmt_as_html(spec_inside(file)) + "\"/>"@
        },
        rest: after(at_file, file.len() as int),
    }
}

/// A heading that runs into its paragraph; `text` is what follows the name.
/// White space after the title is passed over.
pub open spec fn run_in_heading(name: Seq<char>, text: Seq<char>, depth: nat) -> Step
    decreases depth, 1nat, 0nat,
{
    let title = spec_parse_title(text);
    Step {
        out: if spec_is_unbalanced(title) {
            unbalanced_error(name)
        } else {
            "<h5>"@ + spec_nested(Entry::Document, title, depth) + "</h5>"@
        },
        rest: spec_trim_start(after(text, title.len() as int)),
    }
}

/// Mathematics between `name` and `close`, passed on with both; `text` is
/// what follows `name`.
pub open spec fn delimited_math(name: Seq<char>, close: Seq<char>, text: Seq<char>) -> Step {
    match find(text, close) {
        Some(i) => Step {
            out: name + spec_fmt_math_as_html(before(text, i + close.len())),
            rest: after(text, i + close.len()),
        },
        None => Step { out: spec_fmt_error(name), rest: text },
    }
}

/// A letter with an accent, as the entity that HTML has for it; `text` is
/// what follows the macro `name` of the accent. Where no letter follows, the
/// macro is shown as an error.
pub open spec fn accented(name: Seq<char>, accent: Seq<char>, text: Seq<char>) -> Step {
    if text.len() > 0 && spec_is_letter(text[0]) {
        Step { out: "&"@ + before(text, 1) + accent + ";"@, rest: after(text, 1) }
    } else {
        Step { out: spec_fmt_error(name), rest: text }
    }
}

/// The macro at the start of `text`, with what belongs to it.
pub open spec fn macro_step(text: Seq<char>, depth: nat) -> Step
    decreases depth, 7nat, 0nat,
{
    let name = spec_macro_name(text);
    let rest = after(text, name.len() as int);
    if spec_fixed(name) is Some {
        Step { out: spec_fixed(name)->0@, rest }
    } else if spec_formatting(name) is Some {
        one_argument(name, spec_formatting(name)->0, rest, depth)
    } else if spec_switch(name) is Some {
        Step {
            out: wrapped(spec_switch(name)->0, spec_finish_standalone_macro(rest), depth),
            rest: after(rest, rest.len() as int),
        }
    } else if spec_accent(name) is Some {
        accented(name, spec_accent(name)->0@, rest)
    } else if name == "\\vspace"@ || name == "\\vfill"@ {
        spacing(name, rest)
    } else if name == "\\label"@ {
        label(name, rest)
    } else if name == "\\eqref"@ || name == "\\ref"@ {
        reference(name, rest)
    } else if name == "\\textcolor"@ {
        textcolor(name, rest, depth)
    } else if name == "\\url"@ {
        url(rest)
    } else if name == "\\href"@ {
        href(name, rest, depth)
    } else if name == "\\includegraphics"@ {
        graphics(name, rest)
    } else if name == "\\paragraph"@ || name == "\\paragraph*"@ {
        run_in_heading(name, rest, depth)
    } else if name == "\\("@ {
        delimited_math(name, "\\)"@, rest)
    } else if name == "\\["@ {
        delimited_math(name, "\\]"@, rest)
    } else if name == "\\begin"@ {
        environment(rest, depth)
    } else if name == "\\end"@ {
        let environ = spec_env_name(rest);
        Step {
            out: spec_fmt_errors(seq!["\\end"@, environ]),
            rest: after(rest, environ.len() as int),
        }
    } else {
        Step { out: spec_fmt_error(name), rest }
    }
}

/// Mathematics between dollar signs: one on each side for a formula in the
/// line, two for one on a line of its own. `text` starts with a dollar sign.
pub open spec fn dollar_math(text: Seq<char>) -> Step {
    match find(after(text, 1), "$"@) {
        Some(i) => if i == 0 {
            match find(after(text, 2), "$$"@) {
                Some(j) => Step {
                    out: "\\["@ + spec_fmt_math_as_html(text.subrange(2, j + 2)) + "\\]"@,
                    rest: after(text, j + 4),
                },
                None => Step { out: "<span class=\"error\">$$</span>"@, rest: after(text, 2) },
            }
        } else {
            Step {
                out: "\\("@ + spec_fmt_math_as_html(text.subrange(1, i + 1)) + "\\)"@,
                rest: after(text, i + 2),
            }
        },
        None => Step { out: "<span class=\"error\">$</span>"@, rest: after(text, 1) },
    }
}

/// A group in braces, rendered as its content; `text` starts with `{`.
pub open spec fn group(text: Seq<char>, depth: nat) -> Step
    decreases depth, 1nat, 0nat,
{
    let arg = spec_argument(text);
    Step {
        out: if spec_is_unbalanced(arg) {
            "<span class=\"error\">{</span>"@
        } else {
            spec_nested(Entry::Document, spec_inside(arg), depth)
        },
        rest: after(text, arg.len() as int),
    }
}

/// The markup at the start of `text`, which starts with `~`, `\`, `$` or `{`.
pub open spec fn token(text: Seq<char>, depth: nat) -> Step
    decreases depth, 8nat, 0nat,
{
    if text.len() > 0 && text[0] == '~' {
        Step { out: "&nbsp;"@, rest: after(text, 1) }
    } else if text.len() > 0 && text[0] == '\\' {
        macro_step(text, depth)
    } else if text.len() > 0 && text[0] == '$' {
        dollar_math(text)
    } else {
        group(text, depth)
    }
}

/// A paragraph in which escaped braces are hidden: running text is
/// escaped, and each piece of markup is rendered in its turn.
pub open spec fn paragraph_body(text: Seq<char>, depth: nat) -> Seq<char>
    decreases depth, 9nat, text.len(),
{
    if text.len() == 0 {
        Seq::empty()
    } else {
        match spec_find_class(text, Class::Markup) {
            Some(i) => {
                let step = token(after(text, i), depth);
                spec_fmt_as_html(before(text, i)) + step.out + if step.rest.len() < text.len() {
                    paragraph_body(step.rest, depth)
                } else {
                    Seq::empty()
                }
            },
            None => spec_fmt_as_html(text),
        }
    }
}

/// A paragraph as HTML.
pub open spec fn spec_html_paragraph(text: Seq<char>, depth: nat) -> Seq<char>
    decreases depth, 10nat, 0nat,
{
    paragraph_body(hide_braces(text), depth)
}

/// One paragraph of several, in its element; alone, as it is.
pub open spec fn paragraph_piece(text: Seq<char>, alone: bool, depth: nat) -> Seq<char>
    decreases depth, 11nat, 0nat,
{
    if alone {
        spec_html_paragraph(text, depth)
    } else {
        "<p>"@ + spec_html_paragraph(text, depth) + "</p>"@
    }
}

/// The paragraphs of `text`, one after the other; those of white space give
/// nothing. Text that starts with a stray `\end{` is one paragraph to its
/// end.
pub open spec fn paragraphs(text: Seq<char>, alone: bool, depth: nat) -> Seq<char>
    decreases depth, 12nat, text.len(),
{
    let first = spec_finish_paragraph(text);
    let rest = after(text, first.len() as int);
    if text.len() == 0 {
        Seq::empty()
    } else if first.len() == 0 {
        paragraph_piece(text, alone, depth)
    } else {
        (if spec_is_blank(first) {
            Seq::empty()
        } else {
            paragraph_piece(first, alone, depth)
        }) + if rest.len() < text.len() {
            paragraphs(rest, alone, depth)
        } else {
            Seq::empty()
        }
    }
}

/// A text without headings as HTML: its paragraphs, each in its element
/// unless the text is a single paragraph.
pub open spec fn spec_html_subsubsection(text: Seq<char>, depth: nat) -> Seq<char>
    decreases depth, 13nat, 0nat,
{
    paragraphs(text, spec_finish_paragraph(text).len() == text.len(), depth)
}

/// What is left of `text`, which follows a sectioning macro, after the star
/// that it may start with.
pub open spec fn after_star(text: Seq<char>) -> Seq<char> {
    if text.len() > 0 && text[0] == '*' {
        after(text, 1)
    } else {
        text
    }
}

/// Whether the heading that `text` holds after its macro opens a section:
/// it does unless the braces of its title do not balance.
pub open spec fn heading_opens(text: Seq<char>) -> bool {
    !spec_is_unbalanced(spec_parse_title(after_star(text)))
}

/// What closes a section, where one is open.
pub open spec fn section_close(open: bool) -> Seq<char> {
    if open {
        "</section>"@
    } else {
        Seq::empty()
    }
}

/// The heading of a section; `text` is what follows the macro: an optional
/// `*` and the title. A title whose braces do not balance is shown as an
/// error and opens no section.
pub open spec fn heading(level: Level, text: Seq<char>, depth: nat) -> Step
    decreases depth, 11nat, 0nat,
{
    let at_title = after_star(text);
    let title = spec_parse_title(at_title);
    Step {
        out: if spec_is_unbalanced(title) {
            unbalanced_error(spec_heading_macro(level)@)
        } else {
            spec_heading_open(level)@ + spec_html_paragraph(title, depth) + spec_heading_close(
                level,
            )@
        },
        rest: after(at_title, title.len() as int),
    }
}

/// What lies between the headings of a level: the text split at the level
/// below, or its paragraphs.
pub open spec fn below(level: Level, text: Seq<char>, depth: nat) -> Seq<char>
    decreases depth, 11 + 3 * rank(level), 0nat,
{
    match level {
        Level::Section => sections(Level::Subsection, text, depth),
        Level::Subsection => sections(Level::Subsubsection, text, depth),
        Level::Subsubsection => spec_html_subsubsection(text, depth),
    }
}

/// The text after a heading of a level, with a section open or not: each
/// further heading closes the section that is open before it, and the end of
/// the text closes the last one, also where nothing follows its heading.
pub open spec fn further_sections(level: Level, text: Seq<char>, open: bool, depth: nat) -> Seq<
    char,
>
    decreases depth, 12 + 3 * rank(level), text.len(),
{
    if text.len() == 0 {
        section_close(open)
    } else {
        match find(text, spec_heading_macro(level)@) {
            Some(i) => {
                let at = after(text, i + spec_heading_macro(level)@.len());
                let title = heading(level, at, depth);
                below(level, before(text, i), depth) + section_close(open) + title.out
                    + if title.rest.len() < text.len() {
                    further_sections(level, title.rest, heading_opens(at), depth)
                } else {
                    Seq::empty()
                }
            },
            None => below(level, text, depth) + section_close(open),
        }
    }
}

/// A text split at the headings of a level: what stands before the first
/// heading, then each section under its heading.
pub open spec fn sections(level: Level, text: Seq<char>, depth: nat) -> Seq<char>
    decreases depth, 13 + 3 * rank(level), 0nat,
{
    match find(text, spec_heading_macro(level)@) {
        Some(i) => {
            let at = after(text, i + spec_heading_macro(level)@.len());
            let title = heading(level, at, depth);
            below(level, before(text, i), depth) + title.out + further_sections(
                level,
                title.rest,
                heading_opens(at),
                depth,
            )
        },
        None => below(level, text, depth),
    }
}

/// A document as HTML: comments stripped, headings lifted out of solutions,
/// guides and handouts, and the text split into sections.
pub open spec fn spec_html(text: Seq<char>, depth: nat) -> Seq<char>
    decreases depth, 23nat, 0nat,
{
    sections(Level::Section, spec_pull_sections_out(spec_strip_comments(text)), depth)
}

/// A text below the level of sections as HTML, split into subsections.
pub open spec fn spec_html_section(text: Seq<char>, depth: nat) -> Seq<char> {
    sections(Level::Subsection, text, depth)
}

/// A text below the level of subsections as HTML, split into
/// subsubsections.
pub open spec fn spec_html_subsection(text: Seq<char>, depth: nat) -> Seq<char> {
    sections(Level::Subsubsection, text, depth)
}

} // verus!
