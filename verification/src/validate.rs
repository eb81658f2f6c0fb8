//! The validator: a document annotated with what it uses that the renderer
//! does not support.
//!
//! An environment or a macro is passed over where the renderer knows it, by
//! its own tables, or where it stands in the list of what else is known to
//! be supported, such as the macros of mathematics.

use vstd::prelude::*;
use crate::pattern::{all_first_groups, each_first_group, group_view, groups_view};
use crate::markup::{
    dispatched, is_dispatched, is_heading, is_known_environment, known_environment, spec_is_heading,
};
use crate::text::{emit, emit_chars, equals};

verus! {

/// A regular expression for the opening of an environment; group 1 is its name.
pub const ENVIRONMENT: &'static str = "\\\\begin\\{([^\\}]+)\\}";

/// A regular expression for a macro; group 1 is its name.
pub const MACRO: &'static str = "\\\\([^0-9_/|><\\\\$\\-+\\s\\(\\)\\[\\]{}]+)";

/// The names as sequences of characters.
pub open spec fn names_view(names: Seq<Vec<char>>) -> Seq<Seq<char>> {
    names.map_values(|n: Vec<char>| n@)
}

/// The names as sequences of characters.
pub open spec fn list_view(list: Seq<&'static str>) -> Seq<Seq<char>> {
    list.map_values(|n: &'static str| n@)
}

/// The environments that are known to be supported. The renderer knows
/// each of them.
pub open spec fn spec_good_environments() -> Seq<&'static str> {
    seq![
        "solution",
        "enumerate",
        "description",
        "equation",
        "equation*",
        "align",
        "align*",
        "figure",
        "eqnarray",
        "eqnarray*",
        "multline",
        "multline*",
        "quote",
        "quotation",
        "center",
    ]
}

/// The environments that are known to be supported.
pub fn good_environments() -> (r: Vec<&'static str>)
    ensures
        r@ == spec_good_environments(),
{
    let r = vec![
        "solution",
        "enumerate",
        "description",
        "equation",
        "equation*",
        "align",
        "align*",
        "figure",
        "eqnarray",
        "eqnarray*",
        "multline",
        "multline*",
        "quote",
        "quotation",
        "center",
    ];
    assert(r@ =~= spec_good_environments());
    r
}

/// The environments that are known not to be supported.
pub open spec fn spec_bad_environments() -> Seq<&'static str> {
    seq!["buggy"]
}

/// The environments that are known not to be supported.
pub fn bad_environments() -> (r: Vec<&'static str>)
    ensures
        r@ == spec_bad_environments(),
{
    let r = vec!["buggy"];
    assert(r@ =~= spec_bad_environments());
    r
}

/// The macros that are known to be supported, besides those that the
/// renderer knows: among them those of mathematics, which are passed on.
pub open spec fn spec_good_macros() -> Seq<&'static str> {
    seq![
        "section",
        "eqref",
        "ref",
        "label",
        "centering",
        "subsection",
        "subsubsection",
        "footnote",
        "section*",
        "subsection*",
        "subsubsection*",
        "begin",
        "end",
        "includegraphics",
        "columnwidth",
        "emph",
        "paragraph",
        "noindent",
        "textwidth",
        "item",
        "textbf",
        "psi",
        "Psi",
        "phi",
        "Phi",
        "delta",
        "Delta",
        "\"o",
        "\"u",
        "&",
        "%",
        "left",
        "right",
        "frac",
        "pm",
        ";",
        ",",
        "text",
        "textit",
        "textrm",
        "it",
        "em",
        "textbackslash",
        "langle",
        "rangle",
    ]
}

/// The macros that are known to be supported.
pub fn good_macros() -> (r: Vec<&'static str>)
    ensures
        r@ == spec_good_macros(),
{
    let r = vec![
        "section",
        "eqref",
        "ref",
        "label",
        "centering",
        "subsection",
        "subsubsection",
        "footnote",
        "section*",
        "subsection*",
        "subsubsection*",
        "begin",
        "end",
        "includegraphics",
        "columnwidth",
        "emph",
        "paragraph",
        "noindent",
        "textwidth",
        "item",
        "textbf",
        "psi",
        "Psi",
        "phi",
        "Phi",
        "delta",
        "Delta",
        "\"o",
        "\"u",
        "&",
        "%",
        "left",
        "right",
        "frac",
        "pm",
        ";",
        ",",
        "text",
        "textit",
        "textrm",
        "it",
        "em",
        "textbackslash",
        "langle",
        "rangle",
    ];
    assert(r@ =~= spec_good_macros());
    r
}

/// The macros that are known not to be supported.
pub open spec fn spec_bad_macros() -> Seq<&'static str> {
    seq![
        "newcommand",
        "mathchar",
        "renewcommand",
        "newenvironment",
        "usepackage",
        "def",
        "cases",
    ]
}

/// The macros that are known not to be supported.
pub fn bad_macros() -> (r: Vec<&'static str>)
    ensures
        r@ == spec_bad_macros(),
{
    let r = vec![
        "newcommand",
        "mathchar",
        "renewcommand",
        "newenvironment",
        "usepackage",
        "def",
        "cases",
    ];
    assert(r@ =~= spec_bad_macros());
    r
}

/// Whether `name` is in the list.
pub fn is_listed(list: &Vec<&'static str>, name: &[char]) -> (b: bool)
    ensures
        b == list_view(list@).contains(name@),
{
    let mut i: usize = 0;
    while i < list.len()
        invariant
            i <= list.len(),
            forall|j: int| 0 <= j < i ==> list_view(list@)[j] != name@,
        decreases list.len() - i,
    {
        if equals(name, list[i]) {
            assert(list_view(list@)[i as int] == name@);
            return true;
        }
        i += 1;
    }
    false
}

/// Whether `name` is among the names.
pub fn is_among(names: &Vec<Vec<char>>, name: &[char]) -> (b: bool)
    ensures
        b == names_view(names@).contains(name@),
{
    let mut i: usize = 0;
    while i < names.len()
        invariant
            i <= names.len(),
            forall|j: int| 0 <= j < i ==> names_view(names@)[j] != name@,
        decreases names.len() - i,
    {
        if crate::text::same(names[i].as_slice(), name) {
            assert(names_view(names@)[i as int] == name@);
            return true;
        }
        i += 1;
    }
    false
}

/// The names that the groups hold, each once, in the order in which they
/// first occur.
pub open spec fn distinct_names(groups: Seq<Option<Seq<char>>>) -> Seq<Seq<char>>
    decreases groups.len(),
{
    if groups.len() == 0 {
        Seq::empty()
    } else {
        let earlier = distinct_names(groups.drop_last());
        match groups.last() {
            Some(name) => if earlier.contains(name) {
                earlier
            } else {
                earlier.push(name)
            },
            None => earlier,
        }
    }
}

/// The names that the groups hold, each once, in the order in which they first
/// occur.
pub fn collect_distinct(groups: &Vec<Option<Vec<char>>>) -> (r: Vec<Vec<char>>)
    ensures
        names_view(r@) == distinct_names(groups_view(groups@)),
{
    let mut r: Vec<Vec<char>> = Vec::new();
    let mut i: usize = 0;
    assert(groups_view(groups@).take(0) =~= Seq::empty());
    assert(names_view(r@) =~= Seq::empty());
    while i < groups.len()
        invariant
            i <= groups.len(),
            names_view(r@) == distinct_names(groups_view(groups@).take(i as int)),
        decreases groups.len() - i,
    {
        proof {
            let all = groups_view(groups@);
            assert(all.take(i + 1).drop_last() =~= all.take(i as int));
            assert(all.take(i + 1).last() == group_view(groups@[i as int]));
        }
        if let Some(name) = &groups[i] {
            if !is_among(&r, name.as_slice()) {
                let ghost before_push = r@;
                r.push(crate::text::copy(name.as_slice()));
                assert(names_view(r@) =~= names_view(before_push).push(name@));
            }
        }
        i += 1;
    }
    assert(groups_view(groups@).take(i as int) =~= groups_view(groups@));
    r
}

/// The names that are not in the list, in their order.
pub open spec fn unlisted(names: Seq<Seq<char>>, list: Seq<Seq<char>>) -> Seq<Seq<char>>
    decreases names.len(),
{
    if names.len() == 0 {
        Seq::empty()
    } else {
        let earlier = unlisted(names.drop_last(), list);
        if list.contains(names.last()) {
            earlier
        } else {
            earlier.push(names.last())
        }
    }
}

/// The names that are not in the list, in their order.
pub fn drop_listed(names: &Vec<Vec<char>>, list: &Vec<&'static str>) -> (r: Vec<Vec<char>>)
    ensures
        names_view(r@) == unlisted(names_view(names@), list_view(list@)),
{
    let mut r: Vec<Vec<char>> = Vec::new();
    let mut i: usize = 0;
    assert(names_view(names@).take(0) =~= Seq::empty());
    assert(names_view(r@) =~= Seq::empty());
    while i < names.len()
        invariant
            i <= names.len(),
            names_view(r@) == unlisted(names_view(names@).take(i as int), list_view(list@)),
        decreases names.len() - i,
    {
        proof {
            let all = names_view(names@);
            assert(all.take(i + 1).drop_last() =~= all.take(i as int));
            assert(all.take(i + 1).last() == names@[i as int]@);
        }
        if !is_listed(list, names[i].as_slice()) {
            let ghost before_push = r@;
            r.push(crate::text::copy(names[i].as_slice()));
            assert(names_view(r@) =~= names_view(before_push).push(names@[i as int]@));
        }
        i += 1;
    }
    assert(names_view(names@).take(i as int) =~= names_view(names@));
    r
}

/// One line of diagnostics: a pseudo-macro with its message, its subject,
/// a line break of LaTeX and one of the text.
pub open spec fn diagnostic(prefix: Seq<char>, name: Seq<char>) -> Seq<char> {
    prefix + name + "}\\\\\n"@
}

/// Appends one line of diagnostics to `out`.
pub fn emit_diagnostic(out: &mut Vec<char>, prefix: &str, name: &[char])
    ensures
        final(out)@ == old(out)@ + diagnostic(prefix@, name@),
{
    emit(out, prefix);
    emit_chars(out, name);
    emit(out, "}\\\\\n");
    assert(out@ =~= old(out)@ + diagnostic(prefix@, name@));
}

/// A line for each name of the list that is among `names`, in the order of
/// the list.
pub open spec fn listed_lines(names: Seq<Seq<char>>, list: Seq<Seq<char>>, prefix: Seq<char>) -> Seq<char>
    decreases list.len(),
{
    if list.len() == 0 {
        Seq::empty()
    } else {
        let earlier = listed_lines(names, list.drop_last(), prefix);
        if names.contains(list.last()) {
            earlier + diagnostic(prefix, list.last())
        } else {
            earlier
        }
    }
}

/// Appends to `out` a line for each name of the list that is among `names`.
pub fn emit_listed(out: &mut Vec<char>, names: &Vec<Vec<char>>, list: &Vec<&'static str>, prefix: &str)
    ensures
        final(out)@ == old(out)@ + listed_lines(names_view(names@), list_view(list@), prefix@),
{
    let mut i: usize = 0;
    assert(list_view(list@).take(0) =~= Seq::empty());
    assert(out@ =~= old(out)@ + Seq::<char>::empty());
    while i < list.len()
        invariant
            i <= list.len(),
            out@ == old(out)@ + listed_lines(
                names_view(names@),
                list_view(list@).take(i as int),
                prefix@,
            ),
        decreases list.len() - i,
    {
        proof {
            let all = list_view(list@);
            assert(all.take(i + 1).drop_last() =~= all.take(i as int));
            assert(all.take(i + 1).last() == list@[i as int]@);
        }
        let name = crate::text::to_chars(list[i]);
        let ghost before_line = out@;
        if is_among(names, name.as_slice()) {
            emit_diagnostic(out, prefix, name.as_slice());
            assert(out@ =~= old(out)@ + (listed_lines(
                names_view(names@),
                list_view(list@).take(i as int),
                prefix@,
            ) + diagnostic(prefix@, name@)));
        }
        i += 1;
    }
    assert(list_view(list@).take(i as int) =~= list_view(list@));
}

/// A line for each name, in their order.
pub open spec fn lines(names: Seq<Seq<char>>, prefix: Seq<char>) -> Seq<char>
    decreases names.len(),
{
    if names.len() == 0 {
        Seq::empty()
    } else {
        lines(names.drop_last(), prefix) + diagnostic(prefix, names.last())
    }
}

/// Appends to `out` a line for each name.
pub fn emit_lines(out: &mut Vec<char>, names: &Vec<Vec<char>>, prefix: &str)
    ensures
        final(out)@ == old(out)@ + lines(names_view(names@), prefix@),
{
    let mut i: usize = 0;
    assert(names_view(names@).take(0) =~= Seq::empty());
    assert(out@ =~= old(out)@ + Seq::<char>::empty());
    while i < names.len()
        invariant
            i <= names.len(),
            out@ == old(out)@ + lines(names_view(names@).take(i as int), prefix@),
        decreases names.len() - i,
    {
        proof {
            let all = names_view(names@);
            assert(all.take(i + 1).drop_last() =~= all.take(i as int));
            assert(all.take(i + 1).last() == names@[i as int]@);
        }
        emit_diagnostic(out, prefix, names[i].as_slice());
        assert(out@ =~= old(out)@ + (lines(names_view(names@).take(i as int), prefix@)
            + diagnostic(prefix@, names@[i as int]@)));
        i += 1;
    }
    assert(names_view(names@).take(i as int) =~= names_view(names@));
}

/// What a name stands for.
#[derive(Clone, Copy, PartialEq, Eq, Structural, Debug)]
pub enum Subject {
    /// An environment; its name stands between the braces of its opening.
    Environment,
    /// A macro; its name stands after the backslash.
    Macro,
}

/// The opening of the environment `name` as the renderer reads it: the name
/// in braces.
pub open spec fn in_braces(name: Seq<char>) -> Seq<char> {
    seq!['{'] + name + seq!['}']
}

/// The macro `name` as the renderer reads it: the name after a backslash.
pub open spec fn with_backslash(name: Seq<char>) -> Seq<char> {
    seq!['\\'] + name
}

/// Whether the renderer knows what `name` stands for.
pub open spec fn rendered(subject: Subject, name: Seq<char>) -> bool {
    match subject {
        Subject::Environment => known_environment(in_braces(name)),
        Subject::Macro => dispatched(with_backslash(name)) || spec_is_heading(with_backslash(name)),
    }
}

/// The list of what is known to be supported.
pub open spec fn good_list(subject: Subject) -> Seq<Seq<char>> {
    match subject {
        Subject::Environment => list_view(spec_good_environments()),
        Subject::Macro => list_view(spec_good_macros()),
    }
}

/// Whether what `name` stands for is supported: the renderer knows it, or
/// it is in the list of what is known to be supported.
pub open spec fn supported(subject: Subject, name: Seq<char>) -> bool {
    rendered(subject, name) || good_list(subject).contains(name)
}

/// Whether what `name` stands for is supported.
pub fn is_supported(subject: Subject, name: &[char]) -> (b: bool)
    ensures
        b == supported(subject, name@),
{
    match subject {
        Subject::Environment => {
            let mut opening: Vec<char> = Vec::new();
            opening.push('{');
            emit_chars(&mut opening, name);
            opening.push('}');
            assert(opening@ =~= in_braces(name@));
            is_known_environment(opening.as_slice()) || is_listed(&good_environments(), name)
        },
        Subject::Macro => {
            let mut token: Vec<char> = Vec::new();
            token.push('\\');
            emit_chars(&mut token, name);
            assert(token@ =~= with_backslash(name@));
            is_dispatched(token.as_slice()) || is_heading(token.as_slice()) || is_listed(
                &good_macros(),
                name,
            )
        },
    }
}

/// The names that do not stand for what is supported, in their order.
pub open spec fn unsupported(names: Seq<Seq<char>>, subject: Subject) -> Seq<Seq<char>>
    decreases names.len(),
{
    if names.len() == 0 {
        Seq::empty()
    } else {
        let earlier = unsupported(names.drop_last(), subject);
        if supported(subject, names.last()) {
            earlier
        } else {
            earlier.push(names.last())
        }
    }
}

/// The names that do not stand for what is supported, in their order.
pub fn drop_supported(names: &Vec<Vec<char>>, subject: Subject) -> (r: Vec<Vec<char>>)
    ensures
        names_view(r@) == unsupported(names_view(names@), subject),
{
    let mut r: Vec<Vec<char>> = Vec::new();
    let mut i: usize = 0;
    assert(names_view(names@).take(0) =~= Seq::empty());
    assert(names_view(r@) =~= Seq::empty());
    while i < names.len()
        invariant
            i <= names.len(),
            names_view(r@) == unsupported(names_view(names@).take(i as int), subject),
        decreases names.len() - i,
    {
        proof {
            let all = names_view(names@);
            assert(all.take(i + 1).drop_last() =~= all.take(i as int));
            assert(all.take(i + 1).last() == names@[i as int]@);
        }
        if !is_supported(subject, names[i].as_slice()) {
            let ghost before_push = r@;
            r.push(crate::text::copy(names[i].as_slice()));
            assert(names_view(r@) =~= names_view(before_push).push(names@[i as int]@));
        }
        i += 1;
    }
    assert(names_view(names@).take(i as int) =~= names_view(names@));
    r
}

/// The names that the groups hold and that do not stand for what is
/// supported, each once, in the order in which they first occur.
pub open spec fn doubtful(groups: Seq<Option<Seq<char>>>, subject: Subject) -> Seq<Seq<char>> {
    unsupported(distinct_names(groups), subject)
}

/// The diagnostics for a text that opens the environments and uses the
/// macros that the groups hold. What is supported is passed over. Of the
/// rest there is an error for each environment and each macro that is known
/// not to be supported, in the order of their lists; then a warning for each
/// other environment and each other macro, in the order in which they first
/// occur.
pub open spec fn diagnostics(
    environments: Seq<Option<Seq<char>>>,
    macros: Seq<Option<Seq<char>>>,
) -> Seq<char> {
    let envs = doubtful(environments, Subject::Environment);
    let names = doubtful(macros, Subject::Macro);
    listed_lines(envs, list_view(spec_bad_environments()), "\\error{bad environment: "@)
        + listed_lines(
        names,
        list_view(spec_bad_macros()),
        "\\error{bad macro: \\textbackslash{}"@,
    ) + lines(
        unlisted(envs, list_view(spec_bad_environments())),
        "\\warning{possibly bad environment: "@,
    ) + lines(
        unlisted(names, list_view(spec_bad_macros())),
        "\\warning{possibly bad macro: \\textbackslash{}"@,
    )
}

/// `text` with the diagnostics before it.
pub open spec fn spec_annotate(
    text: Seq<char>,
    environments: Seq<Option<Seq<char>>>,
    macros: Seq<Option<Seq<char>>>,
) -> Seq<char> {
    diagnostics(environments, macros) + text
}

/// Puts before `text` the diagnostics for the environments that it opens
/// and the macros that it uses, each given as it was found in the text.
pub fn annotate(
    text: &[char],
    environments: &Vec<Option<Vec<char>>>,
    macros: &Vec<Option<Vec<char>>>,
) -> (r: Vec<char>)
    ensures
        r@ == spec_annotate(text@, groups_view(environments@), groups_view(macros@)),
        r@.len() >= text@.len(),
        r@.subrange(r@.len() - text@.len(), r@.len() as int) == text@,
{
    let mut out: Vec<char> = Vec::new();
    let bad_envs = bad_environments();
    let bad = bad_macros();
    let envs = drop_supported(&collect_distinct(environments), Subject::Environment);
    let names = drop_supported(&collect_distinct(macros), Subject::Macro);
    emit_listed(&mut out, &envs, &bad_envs, "\\error{bad environment: ");
    emit_listed(&mut out, &names, &bad, "\\error{bad macro: \\textbackslash{}");
    let other_envs = drop_listed(&envs, &bad_envs);
    let other_names = drop_listed(&names, &bad);
    emit_lines(&mut out, &other_envs, "\\warning{possibly bad environment: ");
    emit_lines(&mut out, &other_names, "\\warning{possibly bad macro: \\textbackslash{}");
    assert(out@ =~= diagnostics(groups_view(environments@), groups_view(macros@)));
    emit_chars(&mut out, text);
    assert(out@.subrange(out@.len() - text@.len(), out@.len() as int) =~= text@);
    out
}

/// `text` with its diagnostics before it: the environments are found by
/// their openings, the macros by their backslashes.
pub open spec fn spec_check_latex(text: Seq<char>) -> Seq<char> {
    spec_annotate(text, each_first_group(ENVIRONMENT@, text), each_first_group(MACRO@, text))
}

/// Checks `text` against what the renderer supports.
pub fn check_latex(text: &[char]) -> (r: Vec<char>)
    ensures
        r@ == spec_check_latex(text@),
        r@.len() >= text@.len(),
        r@.subrange(r@.len() - text@.len(), r@.len() as int) == text@,
{
    let environments = all_first_groups(ENVIRONMENT, text);
    let macros = all_first_groups(MACRO, text);
    annotate(text, &environments, &macros)
}

} // verus!
