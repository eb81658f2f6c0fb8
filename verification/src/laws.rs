//! What holds of the library as a whole: laws that follow from the models
//! of the other modules, each with its proof.

use vstd::prelude::*;
use crate::chars::{spec_is_alpha, spec_is_blank, spec_is_space};
use crate::escape::{
    first_quoting, lemma_find_next_quoting, reserved, show_braces, spec_entity, spec_escape,
    spec_find_next_quoting, spec_fmt_as_html, spec_fmt_error, spec_fmt_errors,
    spec_needs_quoting_at_start, Mode,
};
use crate::markup::{
    dispatched, known_environment, rank, spec_fixed, spec_formatting, spec_heading_close,
    spec_heading_macro, spec_heading_open, spec_list_close, spec_list_missing, spec_list_open,
    spec_list_tag, Entry, Level, List,
};
use crate::model::{
    below, environment, further_sections, group, heading, heading_opens, list, list_closing,
    list_item, list_items, macro_step, one_argument, paragraph_body, paragraph_piece, paragraphs,
    section_close, sections, spec_html, spec_html_paragraph, spec_html_subsubsection, spec_inside,
    spec_nested, token, unknown_environment,
};
use crate::scan::{
    advance, brace_end, bracket_end, first_in_class, item_end, match_start, own_item, paragraph_end,
    spec_argument, spec_env_name, spec_find_class, spec_find_paragraph, spec_finish_item,
    spec_finish_paragraph, spec_finish_standalone_macro, spec_first_event, spec_in_class,
    spec_is_closed, spec_is_unbalanced, spec_macro_name, spec_optional_argument, BEGIN_STEP, Class,
    END_STEP, Event, LIST_BEGIN, LIST_END,
};
use crate::text::{
    after, before, find, lemma_append, lemma_find, lemma_find_is, lemma_find_none, occurs_at,
    replace,
};
use crate::transform::{
    graphic, line_end, opening_of, spec_pull_sections_out_of_environ, spec_strip_comments,
    spec_with_image_directory, strip_line, strip_lines, PERCENT_HOLDER,
};
use crate::validate::{
    distinct_names, doubtful, in_braces, list_view, rendered, spec_check_latex,
    spec_good_environments, supported, unsupported, Subject,
};

verus! {

// What stands in a text, and what does not.

/// `pat` stands nowhere in `text`.
pub open spec fn absent(text: Seq<char>, pat: Seq<char>) -> bool {
    forall|i: int| !occurs_at(text, pat, i)
}

/// `text` in braces.
pub open spec fn braced(text: Seq<char>) -> Seq<char> {
    seq!['{'] + text + seq!['}']
}

/// What stands in the rest of a text stands in the text, further on.
proof fn lemma_occurrence_in_suffix(text: Seq<char>, pat: Seq<char>, n: int, j: int)
    requires
        0 <= n <= text.len(),
        occurs_at(after(text, n), pat, j),
    ensures
        occurs_at(text, pat, n + j),
{
    assert(after(text, n).subrange(j, j + pat.len()) =~= text.subrange(n + j, n + j + pat.len()));
}

/// What stands in the start of a text stands in the text.
proof fn lemma_occurrence_in_prefix(text: Seq<char>, pat: Seq<char>, n: int, j: int)
    requires
        0 <= n <= text.len(),
        occurs_at(before(text, n), pat, j),
    ensures
        occurs_at(text, pat, j),
{
    assert(before(text, n).subrange(j, j + pat.len()) =~= text.subrange(j, j + pat.len()));
}

/// What stands nowhere in a text stands nowhere in it with more behind it.
proof fn lemma_absent_longer(text: Seq<char>, short: Seq<char>, long: Seq<char>)
    requires
        absent(text, short),
        short.len() <= long.len(),
        long.subrange(0, short.len() as int) == short,
    ensures
        absent(text, long),
{
    assert forall|j: int| !occurs_at(text, long, j) by {
        if occurs_at(text, long, j) {
            assert(text.subrange(j, j + short.len()) =~= text.subrange(j, j + long.len()).subrange(
                0,
                short.len() as int,
            ));
            assert(occurs_at(text, short, j));
        }
    }
}

/// Replacing what stands nowhere changes nothing.
proof fn lemma_replace_absent(text: Seq<char>, pat: Seq<char>, rep: Seq<char>)
    requires
        absent(text, pat),
    ensures
        replace(text, pat, rep) == text,
{
    lemma_find_none(text, pat);
}

/// A pattern that starts with a backslash stands nowhere in a text without
/// backslashes.
proof fn lemma_absent_without_backslash(text: Seq<char>, pat: Seq<char>)
    requires
        forall|i: int| 0 <= i < text.len() ==> #[trigger] text[i] != '\\',
        pat.len() > 0,
        pat[0] == '\\',
    ensures
        absent(text, pat),
{
    assert forall|j: int| !occurs_at(text, pat, j) by {
        if occurs_at(text, pat, j) {
            assert(text.subrange(j, j + pat.len())[0] == text[j]);
        }
    }
}

/// A pattern that starts with a backslash stands nowhere in a text whose
/// only backslash is its first character, where the two differ in their
/// second or third character.
proof fn lemma_absent_after_backslash(text: Seq<char>, pat: Seq<char>, k: int)
    requires
        forall|i: int| 1 <= i < text.len() ==> #[trigger] text[i] != '\\',
        pat.len() > k >= 1,
        pat[0] == '\\',
        text.len() > k,
        text[k] != pat[k],
    ensures
        absent(text, pat),
{
    assert forall|j: int| !occurs_at(text, pat, j) by {
        if occurs_at(text, pat, j) {
            let found = text.subrange(j, j + pat.len());
            assert(found[0] == text[j]);
            assert(found[k] == text[j + k]);
        }
    }
}


// Comments.

/// Every `%` of `text` stands directly after a backslash.
pub open spec fn every_percent_escaped(text: Seq<char>) -> bool {
    forall|i: int| 0 <= i < text.len() && #[trigger] text[i] == '%' ==> i > 0 && text[i - 1] == '\\'
}

/// `text` holds no `%`.
pub open spec fn no_percent(text: Seq<char>) -> bool {
    forall|i: int| 0 <= i < text.len() ==> #[trigger] text[i] != '%'
}

/// With `\%` set aside, a text in which every `%` is escaped holds no `%`.
proof fn lemma_holders_leave_no_percent(text: Seq<char>)
    requires
        every_percent_escaped(text),
    ensures
        no_percent(replace(text, "\\%"@, PERCENT_HOLDER@)),
    decreases text.len(),
{
    reveal_strlit("\\%");
    reveal_strlit("\\percent_holder");
    let pat = "\\%"@;
    let holder = PERCENT_HOLDER@;
    lemma_find(text, pat);
    match find(text, pat) {
        Some(i) => {
            let rest = after(text, i + 2);
            let found = text.subrange(i, i + 2);
            assert(found[0] == text[i]);
            assert(found[1] == text[i + 1]);
            assert(every_percent_escaped(rest)) by {
                assert forall|k: int| 0 <= k < rest.len() && #[trigger] rest[k] == '%' implies k > 0
                    && rest[k - 1] == '\\' by {
                    assert(text[i + 2 + k] == '%');
                    if k == 0 {
                        assert(text[i + 1] == '\\');
                    } else {
                        assert(rest[k - 1] == text[i + 2 + k - 1]);
                    }
                }
            }
            lemma_holders_leave_no_percent(rest);
            let lead = before(text, i);
            let tail = replace(rest, pat, holder);
            let all = lead + holder + tail;
            assert forall|k: int| 0 <= k < all.len() implies all[k] != '%' by {
                if k < i {
                    if text[k] == '%' {
                        let at = text.subrange(k - 1, k + 1);
                        assert(at =~= pat);
                        assert(occurs_at(text, pat, k - 1));
                    }
                } else if k < i + holder.len() {
                    assert(all[k] == holder[k - i]);
                } else {
                    assert(all[k] == tail[k - i - holder.len()]);
                }
            }
        },
        None => {
            assert forall|k: int| 0 <= k < text.len() implies text[k] != '%' by {
                if text[k] == '%' {
                    let at = text.subrange(k - 1, k + 1);
                    assert(at =~= pat);
                    assert(occurs_at(text, pat, k - 1));
                }
            }
        },
    }
}

/// A line without `%` is kept, with its line break where it has one.
proof fn lemma_line_without_percent(line: Seq<char>, ended: bool)
    requires
        no_percent(line),
    ensures
        strip_line(line, ended) == line + line_end(ended, false),
{
    reveal_strlit("%");
    assert forall|j: int| !occurs_at(line, "%"@, j) by {
        if occurs_at(line, "%"@, j) {
            let found = line.subrange(j, j + 1);
            assert(found[0] == line[j]);
        }
    }
    lemma_find_none(line, "%"@);
}

/// The lines of a text without `%` are the text.
proof fn lemma_lines_without_percent(text: Seq<char>)
    requires
        no_percent(text),
    ensures
        strip_lines(text) == text,
    decreases text.len(),
{
    reveal_strlit("\n");
    lemma_find(text, "\n"@);
    match find(text, "\n"@) {
        Some(i) => {
            let line = before(text, i);
            let rest = after(text, i + 1);
            lemma_line_without_percent(line, true);
            lemma_lines_without_percent(rest);
            let found = text.subrange(i, i + 1);
            assert(found[0] == text[i]);
            assert(line + "\n"@ + rest =~= text);
        },
        None => {
            lemma_line_without_percent(text, false);
            assert(text + Seq::<char>::empty() =~= text);
        },
    }
}

/// Behind a start of a text that does not hold it, what stands for `\%`
/// stands first where it is put: it cannot begin earlier and reach into
/// itself, as it holds one backslash only, at its start.
proof fn lemma_holder_stands_first(text: Seq<char>, i: int, tail: Seq<char>)
    requires
        absent(text, PERCENT_HOLDER@),
        0 <= i <= text.len(),
    ensures
        crate::text::first_occurrence(before(text, i) + PERCENT_HOLDER@ + tail, PERCENT_HOLDER@, i),
{
    reveal_strlit("\\percent_holder");
    let holder = PERCENT_HOLDER@;
    let lead = before(text, i);
    let all = lead + holder + tail;
    assert(all.subrange(i, i + holder.len()) =~= holder);
    assert forall|j: int| 0 <= j < i implies !occurs_at(all, holder, j) by {
        if occurs_at(all, holder, j) {
            let found = all.subrange(j, j + holder.len());
            if j + holder.len() <= i {
                assert(lead.subrange(j, j + holder.len()) =~= found);
                lemma_occurrence_in_prefix(text, holder, i, j);
            } else {
                assert(found[i - j] == all[i]);
                assert(all[i] == holder[0]);
            }
        }
    }
}

/// Putting `\%` back where it was set aside gives the text again, where
/// the text does not itself hold what stands for `\%`.
proof fn lemma_holders_put_back(text: Seq<char>)
    requires
        absent(text, PERCENT_HOLDER@),
    ensures
        replace(replace(text, "\\%"@, PERCENT_HOLDER@), PERCENT_HOLDER@, "\\%"@) == text,
    decreases text.len(),
{
    reveal_strlit("\\%");
    reveal_strlit("\\percent_holder");
    let pat = "\\%"@;
    let holder = PERCENT_HOLDER@;
    lemma_find(text, pat);
    match find(text, pat) {
        Some(i) => {
            let rest = after(text, i + 2);
            assert(absent(rest, holder)) by {
                assert forall|j: int| !occurs_at(rest, holder, j) by {
                    if occurs_at(rest, holder, j) {
                        lemma_occurrence_in_suffix(text, holder, i + 2, j);
                    }
                }
            }
            lemma_holders_put_back(rest);
            let lead = before(text, i);
            let tail = replace(rest, pat, holder);
            let all = lead + holder + tail;
            lemma_holder_stands_first(text, i, tail);
            lemma_find_is(all, holder, i);
            assert(before(all, i) =~= lead);
            assert(after(all, i + holder.len()) =~= tail);
            let found = text.subrange(i, i + 2);
            assert(found[0] == text[i]);
            assert(found[1] == text[i + 1]);
            assert(lead + pat + rest =~= text);
        },
        None => {
            lemma_find_none(text, holder);
        },
    }
}

/// Stripping comments changes nothing in a text in which every `%` stands
/// directly after a backslash and which does not hold `\percent_holder`,
/// the word that stands for `\%` while the comments are cut out.
pub proof fn law_strip_comments_keeps_text_without_comments(text: Seq<char>)
    requires
        every_percent_escaped(text),
        absent(text, PERCENT_HOLDER@),
    ensures
        spec_strip_comments(text) == text,
{
    let held = replace(text, "\\%"@, PERCENT_HOLDER@);
    lemma_holders_leave_no_percent(text);
    lemma_lines_without_percent(held);
    lemma_holders_put_back(text);
}


// The validator.

/// The validator only adds to the front: what it gives ends with the text
/// that it was given.
pub proof fn law_check_latex_keeps_text(text: Seq<char>)
    ensures
        spec_check_latex(text).len() >= text.len(),
        spec_check_latex(text).subrange(
            spec_check_latex(text).len() - text.len(),
            spec_check_latex(text).len() as int,
        ) == text,
{
    let checked = spec_check_latex(text);
    assert(checked.subrange(checked.len() - text.len(), checked.len() as int) =~= text);
}

/// The names that the validator gathers hold no name twice, and they are
/// the names that the groups hold.
pub proof fn law_distinct_names_hold_each_name_once(groups: Seq<Option<Seq<char>>>)
    ensures
        forall|i: int, j: int|
            0 <= i < j < distinct_names(groups).len() ==> distinct_names(groups)[i]
                != distinct_names(groups)[j],
        forall|name: Seq<char>|
            distinct_names(groups).contains(name) <==> groups.contains(Some(name)),
    decreases groups.len(),
{
    let names = distinct_names(groups);
    if groups.len() == 0 {
        assert forall|name: Seq<char>| names.contains(name) <==> groups.contains(
            Some(name),
        ) by {}
    } else {
        let front = groups.drop_last();
        let earlier = distinct_names(front);
        law_distinct_names_hold_each_name_once(front);
        assert forall|name: Seq<char>| names.contains(name) <==> groups.contains(
            Some(name),
        ) by {
            if names.contains(name) {
                let k = choose|k: int| 0 <= k < names.len() && names[k] == name;
                if k < earlier.len() {
                    assert(names[k] == earlier[k]);
                    assert(earlier.contains(name));
                    assert(front.contains(Some(name)));
                    let g = choose|g: int| 0 <= g < front.len() && front[g] == Some(name);
                    assert(groups[g] == front[g]);
                } else {
                    assert(names == earlier.push(groups.last()->0));
                    assert(groups[groups.len() - 1] == Some(name));
                }
            }
            if groups.contains(Some(name)) {
                let g = choose|g: int| 0 <= g < groups.len() && groups[g] == Some(name);
                if g < front.len() {
                    assert(front[g] == Some(name));
                    assert(front.contains(Some(name)));
                    assert(earlier.contains(name));
                    let k = choose|k: int| 0 <= k < earlier.len() && earlier[k] == name;
                    assert(names[k] == earlier[k]);
                } else if !earlier.contains(name) {
                    assert(groups.last() == Some(name));
                    assert(names == earlier.push(name));
                    assert(names[names.len() - 1] == name);
                } else {
                    let k = choose|k: int| 0 <= k < earlier.len() && earlier[k] == name;
                    assert(names[k] == earlier[k]);
                }
            }
        }
        assert forall|i: int, j: int| 0 <= i < j < names.len() implies names[i] != names[j] by {
            if j < earlier.len() {
                assert(names[i] == earlier[i] && names[j] == earlier[j]);
            } else {
                assert(names[i] == earlier[i]);
                assert(earlier.contains(names[i]));
            }
        }
    }
}

/// The names that the validator reports are among those it was given, and
/// none of them stands for what is supported.
pub proof fn law_unsupported_names_are_not_supported(names: Seq<Seq<char>>, subject: Subject)
    ensures
        forall|i: int|
            0 <= i < unsupported(names, subject).len() ==> !supported(
                subject,
                #[trigger] unsupported(names, subject)[i],
            ) && names.contains(unsupported(names, subject)[i]),
    decreases names.len(),
{
    let left = unsupported(names, subject);
    if names.len() > 0 {
        let front = names.drop_last();
        let earlier = unsupported(front, subject);
        law_unsupported_names_are_not_supported(front, subject);
        assert forall|i: int| 0 <= i < left.len() implies !supported(subject, #[trigger] left[i])
            && names.contains(left[i]) by {
            if i < earlier.len() {
                assert(left[i] == earlier[i]);
                let k = choose|k: int| 0 <= k < front.len() && front[k] == earlier[i];
                assert(names[k] == left[i]);
            } else {
                assert(names[names.len() - 1] == left[i]);
            }
        }
    }
}

/// The validator and the renderer do not drift apart: what the renderer
/// knows, be it an environment or a macro, the validator reports neither as
/// an error nor as a warning.
pub proof fn law_what_is_rendered_is_not_reported(
    groups: Seq<Option<Seq<char>>>,
    subject: Subject,
    name: Seq<char>,
)
    requires
        rendered(subject, name),
    ensures
        !doubtful(groups, subject).contains(name),
{
    let left = doubtful(groups, subject);
    law_unsupported_names_are_not_supported(distinct_names(groups), subject);
    if left.contains(name) {
        let k = choose|k: int| 0 <= k < left.len() && left[k] == name;
        assert(!supported(subject, left[k]));
    }
}

/// A list that was opened is closed by the tag of its own kind, whatever
/// ends it: its own closing, that of a list of another kind, or nothing.
/// Where it is not its own closing, the error marker names the closing that
/// is missing.
pub proof fn law_lists_close_with_their_own_tag(kind: List, closing: List)
    ensures
        occurs_at(spec_list_close(kind, closing)@, spec_list_tag(kind)@, 0),
        occurs_at(spec_list_missing(kind)@, spec_list_tag(kind)@, 0),
        kind != closing ==> spec_list_close(kind, closing) == spec_list_missing(kind),
{
    reveal_strlit("</ul>");
    reveal_strlit("</ol>");
    reveal_strlit("</dl>");
    reveal_strlit("</ul><span class=\"error\">MISSING \\end{itemize}</span>");
    reveal_strlit("</ol><span class=\"error\">MISSING \\end{enumerate}</span>");
    reveal_strlit("</dl><span class=\"error\">MISSING \\end{description}</span>");
    let tag = spec_list_tag(kind)@;
    assert(spec_list_close(kind, closing)@.subrange(0, 5) =~= tag);
    assert(spec_list_missing(kind)@.subrange(0, 5) =~= tag);
}

/// An `\item` inside a nested list ends no item of the list around it:
/// while a nested list is open, the scan for the end of an item meets
/// openings and closings of lists only.
pub proof fn law_items_of_nested_lists_end_no_item(
    item: Option<int>,
    close: Option<int>,
    open: Option<int>,
    nested: nat,
)
    requires
        nested > 0,
    ensures
        spec_first_event(own_item(item, nested), close, open) != Event::Boundary,
{
}

/// The validator passes over no environment that the renderer does not
/// know: each environment of its list of supported ones is rendered.
pub proof fn law_accepted_environments_are_rendered(name: Seq<char>)
    requires
        list_view(spec_good_environments()).contains(name),
    ensures
        rendered(Subject::Environment, name),
{
    assert(in_braces(name) == braced(name));
    let list = spec_good_environments();
    let names = list_view(list);
    let i = choose|i: int| 0 <= i < names.len() && names[i] == name;
    assert(names[i] == list[i]@);
    reveal_strlit("solution");
    reveal_strlit("enumerate");
    reveal_strlit("description");
    reveal_strlit("equation");
    reveal_strlit("equation*");
    reveal_strlit("align");
    reveal_strlit("align*");
    reveal_strlit("figure");
    reveal_strlit("eqnarray");
    reveal_strlit("eqnarray*");
    reveal_strlit("multline");
    reveal_strlit("multline*");
    reveal_strlit("quote");
    reveal_strlit("quotation");
    reveal_strlit("center");
    reveal_strlit("{solution}");
    reveal_strlit("{enumerate}");
    reveal_strlit("{description}");
    reveal_strlit("{equation}");
    reveal_strlit("{equation*}");
    reveal_strlit("{align}");
    reveal_strlit("{align*}");
    reveal_strlit("{figure}");
    reveal_strlit("{eqnarray}");
    reveal_strlit("{eqnarray*}");
    reveal_strlit("{multline}");
    reveal_strlit("{multline*}");
    reveal_strlit("{quote}");
    reveal_strlit("{quotation}");
    reveal_strlit("{center}");
    if i == 0 {
        assert(braced(name) =~= "{solution}"@);
    } else if i == 1 {
        assert(braced(name) =~= "{enumerate}"@);
    } else if i == 2 {
        assert(braced(name) =~= "{description}"@);
    } else if i == 3 {
        assert(braced(name) =~= "{equation}"@);
    } else if i == 4 {
        assert(braced(name) =~= "{equation*}"@);
    } else if i == 5 {
        assert(braced(name) =~= "{align}"@);
    } else if i == 6 {
        assert(braced(name) =~= "{align*}"@);
    } else if i == 7 {
        assert(braced(name) =~= "{figure}"@);
    } else if i == 8 {
        assert(braced(name) =~= "{eqnarray}"@);
    } else if i == 9 {
        assert(braced(name) =~= "{eqnarray*}"@);
    } else if i == 10 {
        assert(braced(name) =~= "{multline}"@);
    } else if i == 11 {
        assert(braced(name) =~= "{multline*}"@);
    } else if i == 12 {
        assert(braced(name) =~= "{quote}"@);
    } else if i == 13 {
        assert(braced(name) =~= "{quotation}"@);
    } else {
        assert(i == 14);
        assert(braced(name) =~= "{center}"@);
    }
}


// Arguments.

/// By how many the opening braces among the first `n` characters of `text`
/// exceed the closing ones.
pub open spec fn excess(text: Seq<char>, n: int) -> int
    decreases n,
{
    if n <= 0 {
        0
    } else {
        excess(text, n - 1) + if text[n - 1] == '{' {
            1int
        } else if text[n - 1] == '}' {
            -1int
        } else {
            0int
        }
    }
}

/// A scan for the closing brace that has come to position `i` with braces
/// in excess all the way ends where the excess first falls to nothing, or
/// finds no end where it never does.
proof fn lemma_brace_end_balances(text: Seq<char>, i: int, open: nat)
    requires
        1 <= i <= text.len(),
        excess(text, i) == open + 1,
        forall|k: int| 1 <= k <= i ==> excess(text, k) > 0,
    ensures
        match brace_end(text, i, open) {
            Some(end) => i < end <= text.len() && excess(text, end) == 0 && forall|k: int|
                1 <= k < end ==> excess(text, k) > 0,
            None => forall|k: int| 1 <= k <= text.len() ==> excess(text, k) > 0,
        },
    decreases text.len() - i,
{
    if i < text.len() {
        if text[i] == '{' {
            lemma_brace_end_balances(text, i + 1, open + 1);
        } else if text[i] == '}' {
            if open > 0 {
                lemma_brace_end_balances(text, i + 1, (open - 1) as nat);
            }
        } else {
            lemma_brace_end_balances(text, i + 1, open);
        }
    }
}

/// A braced argument is the shortest start of the text in which the braces
/// balance. Where the braces balance in no start of the text, the argument
/// is the opening brace alone.
pub proof fn law_argument_balances(text: Seq<char>)
    requires
        text.len() > 0,
        text[0] == '{',
    ensures
        1 <= spec_argument(text).len() <= text.len(),
        spec_argument(text) == before(text, spec_argument(text).len() as int),
        !spec_is_unbalanced(spec_argument(text)) ==> excess(text, spec_argument(text).len() as int)
            == 0,
        forall|k: int| 1 <= k < spec_argument(text).len() ==> excess(text, k) > 0,
        spec_is_unbalanced(spec_argument(text)) ==> forall|k: int|
            1 <= k <= text.len() ==> excess(text, k) > 0,
{
    assert(excess(text, 1) == 1) by {
        assert(excess(text, 0) == 0);
    }
    lemma_brace_end_balances(text, 1, 0);
}

/// A closing bracket ends an optional argument where the braces before it
/// balance.
pub open spec fn closes_option(text: Seq<char>, k: int) -> bool {
    1 <= k < text.len() && text[k] == ']' && excess(text, k) == excess(text, 1)
}

proof fn lemma_bracket_end_balances(text: Seq<char>, i: int, depth: int)
    requires
        1 <= i <= text.len(),
        excess(text, i) == excess(text, 1) + depth,
        forall|k: int| 1 <= k < i ==> !closes_option(text, k),
    ensures
        match bracket_end(text, i, depth) {
            Some(end) => i < end <= text.len() && closes_option(text, end - 1) && forall|k: int|
                1 <= k < end - 1 ==> !closes_option(text, k),
            None => forall|k: int| 1 <= k < text.len() ==> !closes_option(text, k),
        },
    decreases text.len() - i,
{
    if i < text.len() {
        if text[i] == '{' {
            lemma_bracket_end_balances(text, i + 1, depth + 1);
        } else if text[i] == '}' {
            lemma_bracket_end_balances(text, i + 1, depth - 1);
        } else if text[i] == ']' && depth == 0 {
        } else {
            lemma_bracket_end_balances(text, i + 1, depth);
        }
    }
}

/// An optional argument ends with the first closing bracket before which
/// the braces balance. Where there is no such bracket, the argument is the
/// opening bracket alone.
pub proof fn law_optional_argument_balances(text: Seq<char>)
    requires
        text.len() > 0,
        text[0] == '[',
    ensures
        1 <= spec_optional_argument(text).len() <= text.len(),
        spec_optional_argument(text) == before(text, spec_optional_argument(text).len() as int),
        spec_optional_argument(text).len() > 1 ==> closes_option(
            text,
            spec_optional_argument(text).len() - 1,
        ),
        forall|k: int| 1 <= k < spec_optional_argument(text).len() - 1 ==> !closes_option(text, k),
        spec_optional_argument(text).len() == 1 ==> forall|k: int|
            1 <= k < text.len() ==> !closes_option(text, k),
{
    lemma_bracket_end_balances(text, 1, 0);
}


// Escaping.

/// A character that may stand in a text of HTML without being taken for
/// markup: none of `<`, `>`, `"`, `'` and `/`.
pub open spec fn harmless(c: char) -> bool {
    c != '<' && c != '>' && c != '"' && c != '\'' && c != '/'
}

/// Where something must be escaped, something must be escaped first.
proof fn lemma_first_quoting_exists(text: Seq<char>, i: int)
    requires
        0 <= i < text.len(),
        spec_needs_quoting_at_start(after(text, i)) is Some,
    ensures
        exists|j: int| first_quoting(text, j),
    decreases i,
{
    if exists|k: int| 0 <= k < i && spec_needs_quoting_at_start(#[trigger] after(text, k)) is Some {
        let k = choose|k: int|
            0 <= k < i && spec_needs_quoting_at_start(#[trigger] after(text, k)) is Some;
        lemma_first_quoting_exists(text, k);
    } else {
        assert(first_quoting(text, i));
    }
}

/// What stands for a stretch that must be escaped is harmless.
proof fn lemma_entity_is_harmless(text: Seq<char>, start: int)
    requires
        0 <= start < text.len(),
        spec_needs_quoting_at_start(after(text, start)) is Some,
    ensures
        forall|i: int|
            0 <= i < spec_entity(
                text.subrange(
                    start,
                    start + spec_needs_quoting_at_start(after(text, start))->0,
                ),
                Mode::Text,
            ).len() ==> harmless(
                #[trigger] spec_entity(
                    text.subrange(
                        start,
                        start + spec_needs_quoting_at_start(after(text, start))->0,
                    ),
                    Mode::Text,
                )[i],
            ),
{
    reveal_strlit("<");
    reveal_strlit(">");
    reveal_strlit("&");
    reveal_strlit("\"");
    reveal_strlit("'");
    reveal_strlit("/");
    reveal_strlit("``");
    reveal_strlit("''");
    reveal_strlit("&lt;");
    reveal_strlit("&gt;");
    reveal_strlit("&amp;");
    reveal_strlit("&quot;");
    reveal_strlit("&#x27;");
    reveal_strlit("&#x2f;");
    reveal_strlit("\u{201c}");
    reveal_strlit("\u{201d}");
    let at = after(text, start);
    let n = spec_needs_quoting_at_start(at)->0;
    let token = text.subrange(start, start + n);
    assert(token =~= at.subrange(0, n));
    if n == 1 {
        assert(reserved(at[0]));
        assert(token =~= seq![at[0]]);
        assert("<"@ =~= seq!['<']);
        assert(">"@ =~= seq!['>']);
        assert("&"@ =~= seq!['&']);
        assert("\""@ =~= seq!['"']);
        assert("'"@ =~= seq!['\'']);
        assert("/"@ =~= seq!['/']);
    }
}

/// Running text that has been escaped holds no character that HTML would
/// take for markup.
pub proof fn law_escaped_text_is_harmless(text: Seq<char>)
    ensures
        forall|i: int|
            0 <= i < spec_escape(text, Mode::Text).len() ==> harmless(
                #[trigger] spec_escape(text, Mode::Text)[i],
            ),
    decreases text.len(),
{
    let out = spec_escape(text, Mode::Text);
    lemma_find_next_quoting(text);
    match spec_find_next_quoting(text) {
        Some(m) => {
            let lead = before(text, m.0);
            let token = text.subrange(m.0, m.1);
            let shown = spec_entity(token, Mode::Text);
            let rest = after(text, m.1);
            law_escaped_text_is_harmless(rest);
            assert(first_quoting(text, m.0));
            assert forall|i: int| 0 <= i < lead.len() implies harmless(#[trigger] lead[i]) by {
                let at = after(text, i);
                assert(spec_needs_quoting_at_start(at) is None);
                assert(at[0] == text[i]);
            }
            assert forall|i: int| 0 <= i < shown.len() implies harmless(#[trigger] shown[i]) by {
                lemma_entity_is_harmless(text, m.0);
            }
            let more = spec_escape(rest, Mode::Text);
            assert(out == lead + shown + more);
            assert forall|i: int| 0 <= i < out.len() implies harmless(#[trigger] out[i]) by {
                if i < lead.len() {
                    assert(out[i] == lead[i]);
                } else if i < lead.len() + shown.len() {
                    assert(out[i] == shown[i - lead.len()]);
                } else {
                    assert(out[i] == more[i - lead.len() - shown.len()]);
                }
            }
        },
        None => {
            assert forall|i: int| 0 <= i < text.len() implies harmless(#[trigger] text[i]) by {
                let at = after(text, i);
                assert(!first_quoting(text, i));
                if spec_needs_quoting_at_start(at) is Some {
                    lemma_first_quoting_exists(text, i);
                }
                assert(at[0] == text[i]);
            }
        },
    }
}


// What the renderer does not know.

/// A tilde is a space at which no line breaks.
pub proof fn law_tilde_is_a_space_without_break(text: Seq<char>, depth: nat)
    requires
        text.len() > 0,
        text[0] == '~',
    ensures
        token(text, depth).out == "&nbsp;"@,
        token(text, depth).rest == after(text, 1),
{
}

/// A section that a heading has opened is closed where the text ends, also
/// where nothing follows the heading.
pub proof fn law_open_section_is_closed_at_the_end(level: Level, open: bool, depth: nat)
    ensures
        further_sections(level, Seq::<char>::empty(), open, depth) == section_close(open),
        section_close(true) == "</section>"@,
{
}

/// A macro that the renderer does not know is shown as an error, and the
/// text after its name is rendered in its turn.
pub proof fn law_unknown_macro_is_marked(text: Seq<char>, depth: nat)
    requires
        !dispatched(spec_macro_name(text)),
    ensures
        macro_step(text, depth).out == spec_fmt_error(spec_macro_name(text)),
        macro_step(text, depth).rest == after(text, spec_macro_name(text).len() as int),
{
}

/// The closing of an environment where none is open is shown as an error,
/// together with the name that follows it.
pub proof fn law_stray_closing_is_marked(text: Seq<char>, depth: nat)
    requires
        spec_macro_name(text) == "\\end"@,
    ensures
        macro_step(text, depth).out == spec_fmt_errors(
            seq!["\\end"@, spec_env_name(after(text, "\\end"@.len() as int))],
        ),
{
    reveal_strlit("\\end");
    reveal_strlit("\\\\");
    reveal_strlit("\\newpage");
    reveal_strlit("\\textbackslash");
    reveal_strlit("\\ ");
    reveal_strlit("\\noindent");
    reveal_strlit("\\%");
    reveal_strlit("\\#");
    reveal_strlit("\\$");
    reveal_strlit("\\&");
    reveal_strlit("\\_");
    reveal_strlit("\\ldots");
    reveal_strlit("\\emph");
    reveal_strlit("\\underline");
    reveal_strlit("\\textit");
    reveal_strlit("\\textbf");
    reveal_strlit("\\footnote");
    reveal_strlit("\\caption");
    reveal_strlit("\\warning");
    reveal_strlit("\\error");
    reveal_strlit("\\it");
    reveal_strlit("\\centering");
    reveal_strlit("\\bf");
    reveal_strlit("\\sc");
    reveal_strlit("\\vspace");
    reveal_strlit("\\vfill");
    reveal_strlit("\\label");
    reveal_strlit("\\eqref");
    reveal_strlit("\\ref");
    reveal_strlit("\\textcolor");
    reveal_strlit("\\url");
    reveal_strlit("\\href");
    reveal_strlit("\\includegraphics");
    reveal_strlit("\\paragraph");
    reveal_strlit("\\paragraph*");
    reveal_strlit("\\(");
    reveal_strlit("\\[");
    reveal_strlit("\\begin");
    reveal_strlit("\\AA");
    reveal_strlit("\\hline");
    reveal_strlit("\\'");
    reveal_strlit("\\`");
    reveal_strlit("\\\"");
    reveal_strlit("\\^");
    let name = "\\end"@;
    assert(name.len() == 4 && name[1] == 'e' && name[2] == 'n');
    assert(name != "\\emph"@);
    assert(name != "\\href"@) by {
        assert("\\href"@[1] == 'h');
    }
    assert(name != "\\vfill"@);
    assert(name != "\\label"@);
    assert(name != "\\eqref"@);
    assert(name != "\\ref"@) by {
        assert("\\ref"@[1] == 'r');
    }
    assert(name != "\\url"@) by {
        assert("\\url"@[1] == 'u');
    }
    assert(spec_fixed(name) is None);
    assert(spec_formatting(name) is None);
    assert(crate::markup::spec_switch(name) is None);
    assert(crate::markup::spec_accent(name) is None);
}

/// An environment that the renderer does not know is shown as an error,
/// with its body where it is closed.
pub proof fn law_unknown_environment_is_marked(text: Seq<char>, depth: nat)
    requires
        crate::scan::spec_is_closed(spec_env_name(text)),
        !known_environment(spec_env_name(text)),
    ensures
        environment(text, depth) == unknown_environment(
            spec_env_name(text),
            after(text, spec_env_name(text).len() as int),
        ),
{
}

/// Below the last level nothing is rendered: the text is shown as an error.
pub proof fn law_rendering_stops_at_the_last_level(entry: Entry, text: Seq<char>)
    ensures
        spec_nested(entry, text, 0) == spec_fmt_error(text),
{
}


// Text without structure.

/// A text is calm where it is a single paragraph of running text and
/// macros: it holds no `%`, no backslash before `p`, `b`, `s`, `en` or a
/// brace (so no placeholder, no environment, no heading and no escaped
/// brace), no blank line is found in it, and it is not all white space.
pub open spec fn calm(text: Seq<char>) -> bool {
    &&& no_percent(text)
    &&& absent(text, "\\p"@)
    &&& absent(text, "\\b"@)
    &&& absent(text, "\\s"@)
    &&& absent(text, "\\en"@)
    &&& absent(text, "\\{"@)
    &&& absent(text, "\\}"@)
    &&& spec_find_paragraph(text) is None
    &&& !spec_is_blank(text)
}

/// No comment is stripped from a calm text.
proof fn lemma_calm_strip_comments(text: Seq<char>)
    requires
        calm(text),
    ensures
        spec_strip_comments(text) == text,
{
    reveal_strlit("\\p");
    reveal_strlit("\\percent_holder");
    assert(PERCENT_HOLDER@.subrange(0, 2) =~= "\\p"@);
    lemma_absent_longer(text, "\\p"@, PERCENT_HOLDER@);
    law_strip_comments_keeps_text_without_comments(text);
}

/// Nothing is lifted out of a calm text.
proof fn lemma_calm_pull_out(text: Seq<char>, environ: Seq<char>)
    requires
        calm(text),
    ensures
        spec_pull_sections_out_of_environ(text, environ) == text,
{
    reveal_strlit("\\b");
    reveal_strlit("\\begin{");
    let begin = opening_of(environ);
    assert(begin.subrange(0, 2) =~= "\\b"@);
    lemma_absent_longer(text, "\\b"@, begin);
    lemma_find_none(text, begin);
}

/// A calm text is a single paragraph.
proof fn lemma_calm_paragraphs(text: Seq<char>, depth: nat)
    requires
        calm(text),
    ensures
        spec_html_subsubsection(text, depth) == spec_html_paragraph(text, depth),
{
    reveal_strlit("\\b");
    reveal_strlit("\\begin{");
    reveal_strlit("\\en");
    reveal_strlit("\\end{");
    assert("\\begin{"@.subrange(0, 2) =~= "\\b"@);
    assert("\\end{"@.subrange(0, 3) =~= "\\en"@);
    lemma_absent_longer(text, "\\b"@, "\\begin{"@);
    lemma_absent_longer(text, "\\en"@, "\\end{"@);
    assert(text.len() > 0);
    let rest = after(text, 0);
    assert(rest =~= text);
    lemma_find_none(rest, "\\begin{"@);
    lemma_find_none(rest, "\\end{"@);
    assert(paragraph_end(text, 0, 0) == text.len());
    let first = spec_finish_paragraph(text);
    assert(first =~= text);
    let left = after(text, first.len() as int);
    assert(left.len() == 0);
    assert(paragraphs(left, true, depth) =~= Seq::<char>::empty());
    assert(paragraphs(text, true, depth) =~= paragraph_piece(text, true, depth));
}

/// A calm text has no sections.
proof fn lemma_calm_sections(level: Level, text: Seq<char>, depth: nat)
    requires
        calm(text),
    ensures
        sections(level, text, depth) == spec_html_paragraph(text, depth),
    decreases rank(level),
{
    reveal_strlit("\\s");
    reveal_strlit("\\section");
    reveal_strlit("\\subsection");
    reveal_strlit("\\subsubsection");
    let name = spec_heading_macro(level)@;
    assert(name.subrange(0, 2) =~= "\\s"@);
    lemma_absent_longer(text, "\\s"@, name);
    lemma_find_none(text, name);
    match level {
        Level::Section => lemma_calm_sections(Level::Subsection, text, depth),
        Level::Subsection => lemma_calm_sections(Level::Subsubsection, text, depth),
        Level::Subsubsection => lemma_calm_paragraphs(text, depth),
    }
}

/// A calm text is rendered as one paragraph in which no brace is hidden:
/// no comment is stripped from it, nothing is lifted out of it, and it is
/// split neither into sections nor into paragraphs.
pub proof fn law_calm_text_is_one_paragraph(text: Seq<char>, depth: nat)
    requires
        calm(text),
    ensures
        spec_html(text, depth) == paragraph_body(text, depth),
{
    lemma_calm_strip_comments(text);
    lemma_calm_pull_out(text, "solution"@);
    lemma_calm_pull_out(text, "guide"@);
    lemma_calm_pull_out(text, "handout"@);
    lemma_calm_sections(Level::Section, text, depth);
    lemma_replace_absent(text, "\\{"@, "amp#x7b;"@);
    lemma_replace_absent(text, "\\}"@, "amp#x7d;"@);
}

/// A character of plain text: it starts no markup and no comment, and
/// nothing in it has to be escaped.
pub open spec fn plain_char(c: char) -> bool {
    c != '\\' && c != '{' && c != '}' && c != '$' && c != '~' && c != '%' && c != '<' && c != '>'
        && c != '&' && c != '"' && c != '\'' && c != '/' && c != '`'
}

/// Plain text: plain characters, among them no placeholder for an escaped
/// brace.
pub open spec fn plain(text: Seq<char>) -> bool {
    &&& forall|i: int| 0 <= i < text.len() ==> plain_char(#[trigger] text[i])
    &&& absent(text, "amp#x7b;"@)
    &&& absent(text, "amp#x7d;"@)
}

/// A text without backslashes and `%`, in which no blank line is found and
/// which is not all white space, is calm.
proof fn lemma_calm_without_backslash(text: Seq<char>)
    requires
        forall|i: int| 0 <= i < text.len() ==> #[trigger] text[i] != '\\',
        no_percent(text),
        spec_find_paragraph(text) is None,
        !spec_is_blank(text),
    ensures
        calm(text),
{
    reveal_strlit("\\p");
    reveal_strlit("\\b");
    reveal_strlit("\\s");
    reveal_strlit("\\en");
    reveal_strlit("\\{");
    reveal_strlit("\\}");
    lemma_absent_without_backslash(text, "\\p"@);
    lemma_absent_without_backslash(text, "\\b"@);
    lemma_absent_without_backslash(text, "\\s"@);
    lemma_absent_without_backslash(text, "\\en"@);
    lemma_absent_without_backslash(text, "\\{"@);
    lemma_absent_without_backslash(text, "\\}"@);
}

/// Nothing is escaped in plain text.
proof fn lemma_plain_as_html(text: Seq<char>)
    requires
        plain(text),
    ensures
        spec_fmt_as_html(text) == text,
{
    reveal_strlit("``");
    reveal_strlit("''");
    lemma_replace_absent(text, "amp#x7b;"@, "\\{"@);
    lemma_replace_absent(text, "amp#x7d;"@, "\\}"@);
    assert(show_braces(text) == text);
    assert forall|i: int| !first_quoting(text, i) by {
        if 0 <= i < text.len() {
            let rest = after(text, i);
            assert(rest[0] == text[i]);
            if occurs_at(rest, "``"@, 0) {
                assert(rest.subrange(0, 2)[0] == rest[0]);
            }
            if occurs_at(rest, "''"@, 0) {
                assert(rest.subrange(0, 2)[0] == rest[0]);
            }
            assert(spec_needs_quoting_at_start(rest) is None);
        }
    }
    assert(spec_find_next_quoting(text) is None);
}

/// The empty text as HTML is empty.
proof fn lemma_empty_as_html()
    ensures
        spec_fmt_as_html(Seq::<char>::empty()) == Seq::<char>::empty(),
{
    let empty = Seq::<char>::empty();
    assert(plain(empty)) by {
        reveal_strlit("amp#x7b;");
        reveal_strlit("amp#x7d;");
    }
    lemma_plain_as_html(empty);
}

/// Plain text that is not empty is rendered as it stands.
proof fn lemma_plain_paragraph(text: Seq<char>, depth: nat)
    requires
        plain(text),
        text.len() > 0,
    ensures
        paragraph_body(text, depth) == text,
{
    lemma_plain_as_html(text);
    assert forall|i: int| !first_in_class(text, Class::Markup, i) by {
        if 0 <= i < text.len() {
            assert(plain_char(text[i]));
        }
    }
    assert(spec_find_class(text, Class::Markup) is None);
}

/// In plain text in braces the closing brace is the last character.
proof fn lemma_brace_end_of_plain(text: Seq<char>, i: int)
    requires
        plain(text),
        1 <= i <= text.len() + 1,
    ensures
        brace_end(braced(text), i, 0) == Some(text.len() as int + 2),
    decreases text.len() + 1 - i,
{
    let whole = braced(text);
    if i <= text.len() {
        assert(whole[i] == text[i - 1]);
        assert(plain_char(text[i - 1]));
        lemma_brace_end_of_plain(text, i + 1);
    } else {
        assert(whole[i] == '}');
    }
}

/// Plain text in braces is rendered as the text.
proof fn lemma_plain_group(text: Seq<char>, depth: nat)
    requires
        plain(text),
        !spec_is_blank(text),
        spec_find_paragraph(text) is None,
        spec_find_paragraph(braced(text)) is None,
        depth >= 1,
    ensures
        calm(braced(text)),
        spec_argument(braced(text)) == braced(text),
        paragraph_body(braced(text), depth) == text,
{
    let whole = braced(text);
    assert(text.len() > 0);
    assert forall|i: int| 0 <= i < whole.len() implies #[trigger] whole[i] != '\\' && whole[i]
        != '%' by {
        if 1 <= i <= text.len() {
            assert(whole[i] == text[i - 1]);
            assert(plain_char(text[i - 1]));
        }
    }
    assert(!spec_is_blank(whole)) by {
        let k = choose|k: int| 0 <= k < text.len() && !spec_is_space(#[trigger] text[k]);
        assert(whole[k + 1] == text[k]);
    }
    lemma_calm_without_backslash(whole);
    lemma_brace_end_of_plain(text, 1);
    assert(before(whole, whole.len() as int) =~= whole);
    assert(spec_argument(whole) == whole);
    assert(first_in_class(whole, Class::Markup, 0));
    assert(spec_find_class(whole, Class::Markup) == Some(0int)) by {
        let k = choose|k: int| first_in_class(whole, Class::Markup, k);
        assert(!(0 < k));
    }
    assert(after(whole, 0) =~= whole);
    assert(before(whole, 0) =~= Seq::<char>::empty());
    lemma_empty_as_html();
    assert(spec_inside(whole) =~= text);
    assert forall|i: int| 0 <= i < text.len() implies #[trigger] text[i] != '\\' by {
        assert(plain_char(text[i]));
    }
    assert(no_percent(text)) by {
        assert forall|i: int| 0 <= i < text.len() implies #[trigger] text[i] != '%' by {
            assert(plain_char(text[i]));
        }
    }
    lemma_calm_without_backslash(text);
    law_calm_text_is_one_paragraph(text, (depth - 1) as nat);
    lemma_plain_paragraph(text, (depth - 1) as nat);
    assert(spec_nested(Entry::Document, text, depth) == text);
    let step = group(whole, depth);
    assert(step.out == text);
    assert(step.rest =~= Seq::<char>::empty());
    assert(token(whole, depth) == step);
    assert(paragraph_body(step.rest, depth) =~= Seq::<char>::empty());
    assert(paragraph_body(whole, depth) =~= text);
}

/// What the names of the formatting macros have in common.
proof fn lemma_formatting_name(name: Seq<char>)
    requires
        spec_formatting(name) is Some,
    ensures
        name.len() >= 3,
        name[0] == '\\',
        forall|k: int| 1 <= k < name.len() ==> #[trigger] name[k] != '\\' && name[k] != '%',
        name[1] != 'p' && name[1] != 'b' && name[1] != 's' && name[1] != '{' && name[1] != '}',
        name[1] == 'e' ==> name[2] != 'n',
        spec_fixed(name) is None,
        spec_formatting(name)->0.entry != Entry::Paragraph,
        forall|k: int| 1 <= k < name.len() ==> spec_is_alpha(#[trigger] name[k]),
{
    reveal_strlit("\\emph");
    reveal_strlit("\\underline");
    reveal_strlit("\\textit");
    reveal_strlit("\\textbf");
    reveal_strlit("\\footnote");
    reveal_strlit("\\caption");
    reveal_strlit("\\warning");
    reveal_strlit("\\error");
    reveal_strlit("\\\\");
    reveal_strlit("\\newpage");
    reveal_strlit("\\textbackslash");
    reveal_strlit("\\ ");
    reveal_strlit("\\noindent");
    reveal_strlit("\\%");
    reveal_strlit("\\#");
    reveal_strlit("\\$");
    reveal_strlit("\\&");
    reveal_strlit("\\_");
    reveal_strlit("\\ldots");
    assert(name.len() >= 5 && name.len() <= 10);
    assert(name[1] == 'e' || name[1] == 'u' || name[1] == 't' || name[1] == 'f' || name[1] == 'c'
        || name[1] == 'w');
    assert(name != "\\\\"@);
    assert(name != "\\newpage"@) by {
        assert("\\newpage"@[1] == 'n');
    }
    assert(name != "\\textbackslash"@);
    assert(name != "\\ "@);
    assert(name != "\\noindent"@) by {
        assert("\\noindent"@[1] == 'n');
    }
    assert(name != "\\%"@);
    assert(name != "\\#"@);
    assert(name != "\\$"@);
    assert(name != "\\&"@);
    assert(name != "\\_"@);
    assert(name != "\\ldots"@) by {
        assert("\\ldots"@[1] == 'l');
    }
    reveal_strlit("\\AA");
    reveal_strlit("\\hline");
    assert(name != "\\AA"@);
    assert(name != "\\hline"@) by {
        assert("\\hline"@[1] == 'h');
    }
}

/// No blank line is found in a text without a line break.
pub proof fn law_no_blank_line_without_line_break(text: Seq<char>)
    requires
        forall|i: int| 0 <= i < text.len() ==> #[trigger] text[i] != '\n',
    ensures
        spec_find_paragraph(text) is None,
{
    reveal_strlit("\n");
    assert forall|j: int| !occurs_at(text, "\n"@, j) by {
        if occurs_at(text, "\n"@, j) {
            assert(text.subrange(j, j + 1)[0] == text[j]);
        }
    }
    lemma_find_none(text, "\n"@);
}

/// A formatting macro with plain text in braces behind it is calm text.
proof fn lemma_macro_with_plain_text_is_calm(name: Seq<char>, text: Seq<char>)
    requires
        spec_formatting(name) is Some,
        plain(text),
        !spec_is_blank(text),
        spec_find_paragraph(name + braced(text)) is None,
    ensures
        calm(name + braced(text)),
{
    let whole = name + braced(text);
    let n = name.len() as int;
    lemma_formatting_name(name);
    assert forall|i: int| 1 <= i < whole.len() implies #[trigger] whole[i] != '\\' by {
        if i < n {
            assert(whole[i] == name[i]);
        } else if n < i < whole.len() - 1 {
            assert(whole[i] == text[i - n - 1]);
            assert(plain_char(text[i - n - 1]));
        }
    }
    assert(no_percent(whole)) by {
        assert forall|i: int| 0 <= i < whole.len() implies #[trigger] whole[i] != '%' by {
            if 1 <= i < n {
                assert(whole[i] == name[i]);
            } else if n < i < whole.len() - 1 {
                assert(whole[i] == text[i - n - 1]);
                assert(plain_char(text[i - n - 1]));
            }
        }
    }
    assert(!spec_is_blank(whole)) by {
        let k = choose|k: int| 0 <= k < text.len() && !spec_is_space(#[trigger] text[k]);
        assert(whole[n + 1 + k] == text[k]);
    }
    reveal_strlit("\\p");
    reveal_strlit("\\b");
    reveal_strlit("\\s");
    reveal_strlit("\\en");
    reveal_strlit("\\{");
    reveal_strlit("\\}");
    assert(whole[1] == name[1]);
    assert(whole[2] == name[2]);
    lemma_absent_after_backslash(whole, "\\p"@, 1);
    lemma_absent_after_backslash(whole, "\\b"@, 1);
    lemma_absent_after_backslash(whole, "\\s"@, 1);
    lemma_absent_after_backslash(whole, "\\{"@, 1);
    lemma_absent_after_backslash(whole, "\\}"@, 1);
    if name[1] == 'e' {
        lemma_absent_after_backslash(whole, "\\en"@, 2);
    } else {
        lemma_absent_after_backslash(whole, "\\en"@, 1);
    }
}

/// A text that starts with a formatting macro and a brace starts with
/// markup, and the macro is the token that it starts with.
proof fn lemma_macro_at_the_start(name: Seq<char>, inner: Seq<char>)
    requires
        spec_formatting(name) is Some,
        inner.len() > 0,
        inner[0] == '{',
    ensures
        spec_find_class(name + inner, Class::Markup) == Some(0int),
        spec_macro_name(name + inner) == name,
        after(name + inner, name.len() as int) == inner,
        after(name + inner, 0) == name + inner,
        before(name + inner, 0) == Seq::<char>::empty(),
{
    let whole = name + inner;
    let n = name.len() as int;
    lemma_formatting_name(name);
    assert(whole[0] == name[0]);
    assert(first_in_class(whole, Class::Markup, 0));
    assert(spec_find_class(whole, Class::Markup) == Some(0int)) by {
        let k = choose|k: int| first_in_class(whole, Class::Markup, k);
        assert(!(0 < k));
    }
    let behind = after(whole, 1);
    assert(first_in_class(behind, Class::NameEnd, n - 1)) by {
        assert(behind[n - 1] == inner[0]);
        assert forall|j: int| 0 <= j < n - 1 implies !spec_in_class(
            Class::NameEnd,
            #[trigger] behind[j],
        ) by {
            assert(behind[j] == name[j + 1]);
        }
    }
    assert(spec_find_class(behind, Class::NameEnd) == Some(n - 1)) by {
        let k = choose|k: int| first_in_class(behind, Class::NameEnd, k);
        assert(!(k < n - 1));
        assert(!(n - 1 < k));
    }
    assert(before(whole, n) =~= name);
    assert(after(whole, n) =~= inner);
    assert(after(whole, 0) =~= whole);
    assert(before(whole, 0) =~= Seq::<char>::empty());
}

/// Plain text in braces, rendered one level further down as a document or
/// as a run of paragraphs, gives the text.
proof fn lemma_plain_group_nested(entry: Entry, text: Seq<char>, depth: nat)
    requires
        entry != Entry::Paragraph,
        plain(text),
        !spec_is_blank(text),
        spec_find_paragraph(text) is None,
        spec_find_paragraph(braced(text)) is None,
        depth >= 2,
    ensures
        spec_nested(entry, braced(text), depth) == text,
{
    let inner = braced(text);
    lemma_plain_group(text, (depth - 1) as nat);
    lemma_calm_paragraphs(inner, (depth - 1) as nat);
    law_calm_text_is_one_paragraph(inner, (depth - 1) as nat);
    lemma_replace_absent(inner, "\\{"@, "amp#x7b;"@);
    lemma_replace_absent(inner, "\\}"@, "amp#x7d;"@);
}

/// A formatting macro around plain text gives the text inside the markup
/// of the macro.
///
/// The text is plain, not all white space, and no blank line is found in
/// it, alone, in braces or behind the macro.
pub proof fn law_formatting_macro_wraps_plain_text(name: Seq<char>, text: Seq<char>)
    requires
        spec_formatting(name) is Some,
        plain(text),
        !spec_is_blank(text),
        spec_find_paragraph(text) is None,
        spec_find_paragraph(braced(text)) is None,
        spec_find_paragraph(name + braced(text)) is None,
    ensures
        crate::spec_html_string(name + braced(text)) == spec_formatting(name)->0.open@ + text
            + spec_formatting(name)->0.close@,
{
    let inner = braced(text);
    let whole = name + inner;
    let wrapper = spec_formatting(name)->0;
    let depth = crate::MAX_DEPTH as nat;
    lemma_formatting_name(name);
    lemma_macro_with_plain_text_is_calm(name, text);
    law_calm_text_is_one_paragraph(whole, depth);
    lemma_macro_at_the_start(name, inner);
    lemma_empty_as_html();
    lemma_plain_group(text, (depth - 1) as nat);
    lemma_plain_group_nested(wrapper.entry, text, depth);
    let step = one_argument(name, wrapper, inner, depth);
    assert(!spec_is_unbalanced(inner));
    assert(step.out == wrapper.open@ + text + wrapper.close@);
    assert(step.rest =~= Seq::<char>::empty());
    assert(macro_step(whole, depth) == step);
    assert(token(whole, depth) == step);
    assert(paragraph_body(step.rest, depth) =~= Seq::<char>::empty());
    assert(paragraph_body(whole, depth) =~= wrapper.open@ + text + wrapper.close@);
}

/// A formatting macro around a plain line gives the line inside the markup
/// of the macro.
///
/// The line is plain, holds no line break and is not all white space.
pub proof fn law_formatting_macro_wraps_a_plain_line(name: Seq<char>, text: Seq<char>)
    requires
        spec_formatting(name) is Some,
        plain(text),
        forall|i: int| 0 <= i < text.len() ==> #[trigger] text[i] != '\n',
        !spec_is_blank(text),
    ensures
        crate::spec_html_string(name + braced(text)) == spec_formatting(name)->0.open@ + text
            + spec_formatting(name)->0.close@,
{
    let inner = braced(text);
    let whole = name + inner;
    let n = name.len() as int;
    lemma_formatting_name(name);
    reveal_strlit("\\emph");
    reveal_strlit("\\underline");
    reveal_strlit("\\textit");
    reveal_strlit("\\textbf");
    reveal_strlit("\\footnote");
    reveal_strlit("\\caption");
    reveal_strlit("\\warning");
    reveal_strlit("\\error");
    assert forall|i: int| 0 <= i < inner.len() implies #[trigger] inner[i] != '\n' by {
        if 1 <= i <= text.len() {
            assert(inner[i] == text[i - 1]);
        }
    }
    assert forall|i: int| 0 <= i < whole.len() implies #[trigger] whole[i] != '\n' by {
        if i < n {
            assert(whole[i] == name[i]);
        } else {
            assert(whole[i] == inner[i - n]);
        }
    }
    law_no_blank_line_without_line_break(text);
    law_no_blank_line_without_line_break(inner);
    law_no_blank_line_without_line_break(whole);
    law_formatting_macro_wraps_plain_text(name, text);
}

/// A plain line that is not all white space is rendered as it stands.
pub proof fn law_plain_line_is_rendered_as_it_stands(text: Seq<char>)
    requires
        plain(text),
        forall|i: int| 0 <= i < text.len() ==> #[trigger] text[i] != '\n',
        !spec_is_blank(text),
    ensures
        crate::spec_html_string(text) == text,
{
    let depth = crate::MAX_DEPTH as nat;
    assert forall|i: int| 0 <= i < text.len() implies #[trigger] text[i] != '\\' by {
        assert(plain_char(text[i]));
    }
    assert(no_percent(text)) by {
        assert forall|i: int| 0 <= i < text.len() implies #[trigger] text[i] != '%' by {
            assert(plain_char(text[i]));
        }
    }
    law_no_blank_line_without_line_break(text);
    lemma_calm_without_backslash(text);
    law_calm_text_is_one_paragraph(text, depth);
    lemma_plain_paragraph(text, depth);
}

// Lists.

/// The end of a list item lies within the text.
pub proof fn lemma_item_end_within(text: Seq<char>, so_far: int, nested: nat)
    requires
        0 <= so_far <= text.len(),
    ensures
        0 <= item_end(text, so_far, nested) <= text.len(),
    decreases text.len() - so_far,
{
    let rest = after(text, so_far);
    let item = find(rest, "\\item"@);
    let end = match_start(LIST_END@, "\\end{"@, rest);
    let begin = match_start(LIST_BEGIN@, "\\begin{"@, rest);
    if so_far < text.len() {
        lemma_find(rest, "\\item"@);
        match spec_first_event(own_item(item, nested), end, begin) {
            Event::Boundary => {},
            Event::Close => {
                if nested > 0 {
                    lemma_item_end_within(
                        text,
                        advance(text, so_far + end->0, END_STEP as int),
                        (nested - 1) as nat,
                    );
                }
            },
            Event::Open => {
                lemma_item_end_within(
                    text,
                    advance(text, so_far + begin->0, BEGIN_STEP as int),
                    nested + 1,
                );
            },
            Event::Nothing => {},
        }
    }
}

/// What the items of a list give, one after the other, without what ends
/// the list: each item inside its own markup.
pub open spec fn list_body(kind: List, text: Seq<char>, depth: nat) -> Seq<char>
    decreases text.len(),
{
    let item = spec_finish_item(text);
    let rest = after(text, item.len() as int);
    if item.len() == 0 {
        if list_closing(kind, rest) is None && occurs_at(rest, "\\item"@, 0) {
            let next = spec_finish_standalone_macro(after(rest, "\\item"@.len() as int));
            if next.len() < text.len() {
                list_body(kind, next, depth)
            } else {
                Seq::empty()
            }
        } else {
            Seq::empty()
        }
    } else {
        list_item(kind, item, depth) + if rest.len() < text.len() {
            list_body(kind, rest, depth)
        } else {
            Seq::empty()
        }
    }
}

/// Where the items of a list end: at the closing of a list, or where
/// neither an item nor a closing follows.
pub open spec fn list_stop(kind: List, text: Seq<char>) -> Seq<char>
    decreases text.len(),
{
    let item = spec_finish_item(text);
    let rest = after(text, item.len() as int);
    if item.len() == 0 {
        if list_closing(kind, rest) is None && occurs_at(rest, "\\item"@, 0) {
            let next = spec_finish_standalone_macro(after(rest, "\\item"@.len() as int));
            if next.len() < text.len() {
                list_stop(kind, next)
            } else {
                rest
            }
        } else {
            rest
        }
    } else if rest.len() < text.len() {
        list_stop(kind, rest)
    } else {
        rest
    }
}

/// What ends a list whose items end at `stop`: the tag of the list and,
/// where the closing is not its own, an error marker.
pub open spec fn list_ending(kind: List, stop: Seq<char>) -> Seq<char> {
    match list_closing(kind, stop) {
        Some(step) => step.out,
        None => spec_list_missing(kind)@,
    }
}

/// A list is its items, each inside its own markup, and then one ending,
/// which starts with the tag that closes a list of its kind. So every list
/// that is opened is closed, once and by its own tag, and a list inside an
/// item lies wholly inside the markup of that item.
pub proof fn law_list_is_its_items_and_one_ending(kind: List, text: Seq<char>, depth: nat)
    ensures
        list_items(kind, text, depth).out == list_body(kind, text, depth) + list_ending(
            kind,
            list_stop(kind, text),
        ),
        occurs_at(list_ending(kind, list_stop(kind, text)), spec_list_tag(kind)@, 0),
    decreases text.len(),
{
    reveal_strlit("\\item");
    let item = spec_finish_item(text);
    let rest = after(text, item.len() as int);
    let stop = list_stop(kind, text);
    lemma_item_end_within(text, 0, 0);
    assert(item.len() <= text.len());
    assert(rest.len() == text.len() - item.len());
    law_lists_close_with_their_own_tag(kind, List::Itemize);
    law_lists_close_with_their_own_tag(kind, List::Enumerate);
    law_lists_close_with_their_own_tag(kind, List::Description);
    if item.len() == 0 {
        if list_closing(kind, rest) is None && occurs_at(rest, "\\item"@, 0) {
            let next = spec_finish_standalone_macro(after(rest, "\\item"@.len() as int));
            assert(next.len() < text.len());
            law_list_is_its_items_and_one_ending(kind, next, depth);
        } else {
            assert(list_body(kind, text, depth) + list_ending(kind, rest) =~= list_ending(
                kind,
                rest,
            ));
        }
    } else {
        law_list_is_its_items_and_one_ending(kind, rest, depth);
        lemma_append(
            list_item(kind, item, depth),
            list_body(kind, rest, depth),
            list_ending(kind, list_stop(kind, rest)),
        );
    }
}

/// A list starts with the tag that opens a list of its kind and goes on,
/// after what stands before its first item, with its items and its ending.
pub proof fn law_list_is_opened_and_closed(kind: List, text: Seq<char>, depth: nat)
    ensures
        occurs_at(list(kind, text, depth).out, spec_list_open(kind)@, 0),
        list(kind, text, depth).out == spec_list_open(kind)@ + (if spec_is_blank(
            spec_finish_item(text),
        ) {
            Seq::<char>::empty()
        } else {
            spec_fmt_error(spec_finish_item(text))
        }) + list_body(kind, after(text, spec_finish_item(text).len() as int), depth)
            + list_ending(
            kind,
            list_stop(kind, after(text, spec_finish_item(text).len() as int)),
        ),
{
    let lead = spec_finish_item(text);
    let items = after(text, lead.len() as int);
    let shown = if spec_is_blank(lead) {
        Seq::<char>::empty()
    } else {
        spec_fmt_error(lead)
    };
    law_list_is_its_items_and_one_ending(kind, items, depth);
    lemma_append(
        spec_list_open(kind)@ + shown,
        list_body(kind, items, depth),
        list_ending(kind, list_stop(kind, items)),
    );
    let out = list(kind, text, depth).out;
    let open = spec_list_open(kind)@;
    assert(out.subrange(0, open.len() as int) =~= open);
}

// Sections.

/// Nothing is rendered from no text, at any level.
proof fn lemma_nothing_below(level: Level, depth: nat)
    ensures
        below(level, Seq::<char>::empty(), depth) == Seq::<char>::empty(),
        sections(level, Seq::<char>::empty(), depth) == Seq::<char>::empty(),
    decreases rank(level),
{
    reveal_strlit("\\section");
    reveal_strlit("\\subsection");
    reveal_strlit("\\subsubsection");
    let empty = Seq::<char>::empty();
    lemma_find(empty, spec_heading_macro(level)@);
    assert(find(empty, spec_heading_macro(level)@) is None);
    match level {
        Level::Section => lemma_nothing_below(Level::Subsection, depth),
        Level::Subsection => lemma_nothing_below(Level::Subsubsection, depth),
        Level::Subsubsection => {
            assert(paragraphs(empty, true, depth) == empty);
            assert(paragraphs(empty, false, depth) == empty);
        },
    }
}

/// No block opens in a text whose only backslash is its first character
/// and stands before an `s`: no heading is lifted out of it.
proof fn lemma_text_without_blocks(text: Seq<char>, environ: Seq<char>)
    requires
        text.len() >= 2,
        text[1] == 's',
        forall|i: int| 1 <= i < text.len() ==> #[trigger] text[i] != '\\',
    ensures
        spec_pull_sections_out_of_environ(text, environ) == text,
{
    reveal_strlit("\\begin{");
    let begin = opening_of(environ);
    assert(begin[0] == '\\' && begin[1] == 'b');
    lemma_absent_after_backslash(text, begin, 1);
    lemma_find_none(text, begin);
}

/// No comment is stripped from a text without `%` whose only backslash is
/// its first character and stands before an `s`.
proof fn lemma_text_without_comments(text: Seq<char>)
    requires
        text.len() >= 2,
        text[1] == 's',
        forall|i: int| 1 <= i < text.len() ==> #[trigger] text[i] != '\\',
        no_percent(text),
    ensures
        spec_strip_comments(text) == text,
{
    reveal_strlit("\\percent_holder");
    lemma_absent_after_backslash(text, PERCENT_HOLDER@, 1);
    law_strip_comments_keeps_text_without_comments(text);
}

/// In a text made of `\section` and a plain line in braces the only
/// backslash is the first character, and there is no `%`.
proof fn lemma_heading_text_is_quiet(title: Seq<char>)
    requires
        plain(title),
    ensures
        ("\\section"@ + braced(title)).len() >= 2,
        ("\\section"@ + braced(title))[1] == 's',
        forall|i: int|
            1 <= i < ("\\section"@ + braced(title)).len() ==> #[trigger] ("\\section"@ + braced(
                title,
            ))[i] != '\\',
        no_percent("\\section"@ + braced(title)),
{
    reveal_strlit("\\section");
    let name = "\\section"@;
    let text = name + braced(title);
    assert(text[1] == name[1]);
    assert forall|i: int| 0 <= i < text.len() implies (i >= 1 ==> #[trigger] text[i] != '\\')
        && text[i] != '%' by {
        if i < 8 {
            assert(text[i] == name[i]);
        } else if 8 < i < text.len() - 1 {
            assert(text[i] == title[i - 9]);
            assert(plain_char(title[i - 9]));
        }
    }
}

/// A text without `%` whose only backslash is its first character and
/// stands before an `s` holds no comment and no block: it goes to the
/// splitter as it stands.
proof fn lemma_quiet_text_is_split_as_it_stands(text: Seq<char>, depth: nat)
    requires
        text.len() >= 2,
        text[1] == 's',
        forall|i: int| 1 <= i < text.len() ==> #[trigger] text[i] != '\\',
        no_percent(text),
    ensures
        spec_html(text, depth) == sections(Level::Section, text, depth),
{
    lemma_text_without_comments(text);
    lemma_text_without_blocks(text, "solution"@);
    lemma_text_without_blocks(text, "guide"@);
    lemma_text_without_blocks(text, "handout"@);
}

/// Where a macro stands before a text, it is found at the start, nothing
/// stands before it, and the text stands after it.
proof fn lemma_macro_before_text(name: Seq<char>, inner: Seq<char>)
    ensures
        find(name + inner, name) == Some(0int),
        before(name + inner, 0) == Seq::<char>::empty(),
        after(name + inner, name.len() as int) == inner,
{
    let text = name + inner;
    assert(text.subrange(0, name.len() as int) =~= name);
    lemma_find_is(text, name, 0);
    assert(before(text, 0) =~= Seq::<char>::empty());
    assert(after(text, name.len() as int) =~= inner);
}

/// The heading whose title is a plain line in braces, with nothing after
/// it, opens a section and holds the line.
proof fn lemma_heading_of_a_plain_title(level: Level, title: Seq<char>, depth: nat)
    requires
        plain(title),
        forall|i: int| 0 <= i < title.len() ==> #[trigger] title[i] != '\n',
        !spec_is_blank(title),
        depth >= 1,
    ensures
        heading(level, braced(title), depth).out == spec_heading_open(level)@ + title
            + spec_heading_close(level)@,
        heading(level, braced(title), depth).rest == Seq::<char>::empty(),
        heading_opens(braced(title)),
{
    let inner = braced(title);
    law_no_blank_line_without_line_break(title);
    assert forall|i: int| 0 <= i < inner.len() implies #[trigger] inner[i] != '\n' by {
        if 1 <= i <= title.len() {
            assert(inner[i] == title[i - 1]);
        }
    }
    law_no_blank_line_without_line_break(inner);
    lemma_plain_group(title, depth);
    lemma_replace_absent(inner, "\\{"@, "amp#x7b;"@);
    lemma_replace_absent(inner, "\\}"@, "amp#x7d;"@);
    assert(spec_html_paragraph(inner, depth) == title);
    assert(inner[0] == '{');
    assert(!spec_is_unbalanced(inner));
    assert(after(inner, inner.len() as int) =~= Seq::<char>::empty());
}

/// A heading with a plain line as its title and nothing after it gives a
/// section that is opened, holds the title as its heading, and is closed.
pub proof fn law_heading_alone_is_a_closed_section(title: Seq<char>)
    requires
        plain(title),
        forall|i: int| 0 <= i < title.len() ==> #[trigger] title[i] != '\n',
        !spec_is_blank(title),
    ensures
        crate::spec_html_string("\\section"@ + braced(title)) == "<section><h2>"@ + title
            + "</h2></section>"@,
{
    reveal_strlit("</h2>");
    reveal_strlit("</section>");
    reveal_strlit("</h2></section>");
    let depth = crate::MAX_DEPTH as nat;
    let empty = Seq::<char>::empty();
    let inner = braced(title);
    let text = "\\section"@ + inner;
    lemma_heading_text_is_quiet(title);
    lemma_quiet_text_is_split_as_it_stands(text, depth);
    lemma_macro_before_text("\\section"@, inner);
    lemma_nothing_below(Level::Section, depth);
    lemma_heading_of_a_plain_title(Level::Section, title, depth);
    let shown = heading(Level::Section, inner, depth);
    assert(further_sections(Level::Section, empty, true, depth) == "</section>"@);
    assert(sections(Level::Section, text, depth) == empty + shown.out + "</section>"@);
    assert(empty + ("<section><h2>"@ + title + "</h2>"@) + "</section>"@ =~= "<section><h2>"@
        + title + "</h2></section>"@);
}

// Images and environment names.

/// An `\includegraphics` without options at the start of a text is
/// rewritten first, whatever stands after it, also one with options.
pub proof fn law_first_graphic_is_rewritten(text: Seq<char>, dir: Seq<char>)
    requires
        occurs_at(text, "\\includegraphics{"@, 0),
    ensures
        spec_with_image_directory(text, dir) == graphic(
            after(text, "\\includegraphics{"@.len() as int),
            false,
            dir,
        ).out + spec_with_image_directory(
            graphic(after(text, "\\includegraphics{"@.len() as int), false, dir).rest,
            dir,
        ),
{
    lemma_find_is(text, "\\includegraphics{"@, 0);
    lemma_find(text, "\\includegraphics["@);
    reveal_strlit("\\includegraphics{");
    reveal_strlit("\\includegraphics[");
    if find(text, "\\includegraphics["@) == Some(0int) {
        let brace = text.subrange(0, 17);
        assert(brace[16] == text[16]);
    }
    let at = after(text, "\\includegraphics{"@.len() as int);
    assert(before(text, 0) + graphic(at, false, dir).out =~= graphic(at, false, dir).out);
}

/// The name of an environment runs up to and including the first character
/// that cannot stand in a name: before it stand only such as can. A name
/// that is closed ends with that character, the closing brace.
pub proof fn law_env_name_ends_at_the_first_other_character(text: Seq<char>)
    ensures
        spec_env_name(text).len() <= text.len(),
        spec_env_name(text) == before(text, spec_env_name(text).len() as int),
        forall|i: int|
            0 <= i < spec_env_name(text).len() - 1 ==> !spec_in_class(
                Class::EnvironmentEnd,
                #[trigger] text[i],
            ),
        spec_is_closed(spec_env_name(text)) ==> spec_in_class(
            Class::EnvironmentEnd,
            text[spec_env_name(text).len() - 1],
        ),
{
    match spec_find_class(text, Class::EnvironmentEnd) {
        Some(i) => {
            assert(first_in_class(text, Class::EnvironmentEnd, i));
        },
        None => {
            assert(before(text, text.len() as int) =~= text);
            assert forall|i: int| 0 <= i < text.len() - 1 implies !spec_in_class(
                Class::EnvironmentEnd,
                #[trigger] text[i],
            ) by {
                if spec_in_class(Class::EnvironmentEnd, text[i]) {
                    lemma_some_in_class(text, Class::EnvironmentEnd, i);
                }
            }
        },
    }
}

/// Where a character of a class stands in a text, one stands there first.
proof fn lemma_some_in_class(text: Seq<char>, class: Class, i: int)
    requires
        0 <= i < text.len(),
        spec_in_class(class, text[i]),
    ensures
        exists|k: int| first_in_class(text, class, k),
    decreases i,
{
    if exists|j: int| 0 <= j < i && spec_in_class(class, #[trigger] text[j]) {
        let j = choose|j: int| 0 <= j < i && spec_in_class(class, #[trigger] text[j]);
        lemma_some_in_class(text, class, j);
    } else {
        assert(first_in_class(text, class, i));
    }
}

} // verus!
