//! Lexical scanners: each takes the text at a cursor and gives the part of it
//! that the construct at the cursor covers, always a prefix of the text.
//!
//! A scanner never fails. Where braces or brackets do not balance it gives
//! the opening character alone, and the caller reports the error.

use vstd::prelude::*;
use crate::chars::{is_alpha, spec_is_alpha};
use crate::pattern::{find_match, spec_find_match};
use crate::text::{after, before, find, find_str, head, lemma_find, position, tail};

verus! {

/// Classes of characters that a scanner stops at.
pub enum Class {
    /// A character that starts markup in running text: `~`, `\`, `{` or `$`.
    Markup,
    /// A character that cannot stand in a macro name: one that is not
    /// alphabetic.
    NameEnd,
    /// A character that cannot stand in a braced environment name: neither
    /// alphabetic nor `{` nor `*`. The closing brace is one of them.
    EnvironmentEnd,
}

/// Whether `c` is in the class.
pub open spec fn spec_in_class(class: Class, c: char) -> bool {
    match class {
        Class::Markup => c == '~' || c == '\\' || c == '{' || c == '$',
        Class::NameEnd => !spec_is_alpha(c),
        Class::EnvironmentEnd => c != '{' && c != '*' && !spec_is_alpha(c),
    }
}

/// Whether `c` is in the class.
pub fn in_class(class: &Class, c: char) -> (b: bool)
    ensures
        b == spec_in_class(*class, c),
{
    match class {
        Class::Markup => c == '~' || c == '\\' || c == '{' || c == '$',
        Class::NameEnd => !is_alpha(c),
        Class::EnvironmentEnd => c != '{' && c != '*' && !is_alpha(c),
    }
}

/// Position `i` of `text` holds the first character of the class.
pub open spec fn first_in_class(text: Seq<char>, class: Class, i: int) -> bool {
    &&& 0 <= i < text.len()
    &&& spec_in_class(class, text[i])
    &&& forall|j: int| 0 <= j < i ==> !spec_in_class(class, #[trigger] text[j])
}

/// The position of the first character of `text` that is in the class.
pub open spec fn spec_find_class(text: Seq<char>, class: Class) -> Option<int> {
    if exists|i: int| first_in_class(text, class, i) {
        Some(choose|i: int| first_in_class(text, class, i))
    } else {
        None
    }
}

/// The position of the first character of `text` that is in the class.
pub fn find_class(text: &[char], class: Class) -> (r: Option<usize>)
    ensures
        position(r) == spec_find_class(text@, class),
        r matches Some(i) ==> first_in_class(text@, class, i as int),
        text@.len() <= usize::MAX,
        r is None ==> forall|j: int| 0 <= j < text@.len() ==> !spec_in_class(class, #[trigger] text@[j]),
{
    let mut i: usize = 0;
    while i < text.len()
        invariant
            i <= text.len(),
            forall|j: int| 0 <= j < i ==> !spec_in_class(class, #[trigger] text@[j]),
        decreases text.len() - i,
    {
        if in_class(&class, text[i]) {
            proof {
                assert(first_in_class(text@, class, i as int));
                let k = choose|k: int| first_in_class(text@, class, k);
                assert(!(k < i));
                assert(!(i < k));
            }
            return Some(i);
        }
        i += 1;
    }
    None
}

/// The macro token that `text` starts with: the backslash, the run of
/// alphabetic characters after it and the `*` that may follow the run; or
/// the backslash and one more character where no alphabetic character
/// follows it.
pub open spec fn spec_macro_name(text: Seq<char>) -> Seq<char> {
    if text.len() == 0 {
        text
    } else {
        match spec_find_class(after(text, 1), Class::NameEnd) {
            Some(i) => if i == 0 {
                before(text, 2)
            } else if text[i + 1] == '*' {
                before(text, i + 2)
            } else {
                before(text, i + 1)
            },
            None => text,
        }
    }
}

/// The macro token that `text`, which starts with a backslash, starts with.
pub fn macro_name(text: &[char]) -> (r: &[char])
    ensures
        r@ == spec_macro_name(text@),
        text@.len() > 0 ==> 0 < r@.len() <= text@.len(),
{
    if text.len() == 0 {
        return text;
    }
    match find_class(tail(text, 1), Class::NameEnd) {
        Some(i) => if i == 0 {
            head(text, 2)
        } else if text[i + 1] == '*' {
            head(text, i + 2)
        } else {
            head(text, i + 1)
        },
        None => text,
    }
}

/// Scanning `text` from position `i` with `open` braces open: the position
/// after the `}` that closes the outermost of them, if there is one.
pub open spec fn brace_end(text: Seq<char>, i: int, open: nat) -> Option<int>
    decreases text.len() - i,
{
    if i < 0 || i >= text.len() {
        None
    } else if text[i] == '{' {
        brace_end(text, i + 1, open + 1)
    } else if text[i] == '}' {
        if open == 0 {
            Some(i + 1)
        } else {
            brace_end(text, i + 1, (open - 1) as nat)
        }
    } else {
        brace_end(text, i + 1, open)
    }
}

/// The argument that `text` starts with: a single digit; a group in balanced
/// braces; the `{` alone where the braces do not balance; otherwise the first
/// character.
pub open spec fn spec_argument(text: Seq<char>) -> Seq<char> {
    if text.len() == 0 {
        text
    } else if text[0] == '{' {
        match brace_end(text, 1, 0) {
            Some(end) => before(text, end),
            None => before(text, 1),
        }
    } else {
        before(text, 1)
    }
}

/// A closing brace, where one is found, lies after the place where the scan
/// began and within the text.
pub proof fn lemma_brace_end(text: Seq<char>, i: int, open: nat)
    requires
        0 <= i,
    ensures
        brace_end(text, i, open) matches Some(end) ==> i < end <= text.len(),
    decreases text.len() - i,
{
    if i < text.len() {
        if text[i] == '{' {
            lemma_brace_end(text, i + 1, open + 1);
        } else if text[i] == '}' {
            if open > 0 {
                lemma_brace_end(text, i + 1, (open - 1) as nat);
            }
        } else {
            lemma_brace_end(text, i + 1, open);
        }
    }
}

/// An argument is a prefix of the text, and is empty only where the text is.
pub proof fn lemma_argument(text: Seq<char>)
    ensures
        spec_argument(text).len() <= text.len(),
        text.len() > 0 ==> spec_argument(text).len() >= 1,
        spec_argument(text) == before(text, spec_argument(text).len() as int),
{
    lemma_brace_end(text, 1, 0);
    if text.len() == 0 {
        assert(text =~= before(text, 0));
    }
}

/// The argument is the lone `{` that stands for braces out of balance.
pub open spec fn spec_is_unbalanced(arg: Seq<char>) -> bool {
    arg.len() == 1 && arg[0] == '{'
}

/// Whether `arg` is the lone `{` that stands for braces out of balance.
pub fn is_unbalanced(arg: &[char]) -> (b: bool)
    ensures
        b == spec_is_unbalanced(arg@),
{
    arg.len() == 1 && arg[0] == '{'
}

/// The argument that `text` starts with.
pub fn argument(text: &[char]) -> (r: &[char])
    ensures
        r@ == spec_argument(text@),
        r@.len() <= text@.len(),
        text@.len() > 0 ==> r@.len() > 0,
        !spec_is_unbalanced(r@) && r@.len() > 0 && text@[0] == '{' ==> r@.len() >= 2,
{
    if text.len() == 0 {
        text
    } else if text[0] == '{' {
        let mut open: usize = 0;
        let mut i: usize = 1;
        while i < text.len()
            invariant
                1 <= i <= text.len(),
                open < i,
                text@[0] == '{',
                brace_end(text@, i as int, open as nat) == brace_end(text@, 1, 0),
            decreases text.len() - i,
        {
            let c = text[i];
            assert(brace_end(text@, i as int, open as nat) == if c == '{' {
                brace_end(text@, i + 1, (open + 1) as nat)
            } else if c == '}' {
                if open == 0 {
                    Some(i + 1)
                } else {
                    brace_end(text@, i + 1, (open - 1) as nat)
                }
            } else {
                brace_end(text@, i + 1, open as nat)
            });
            if c == '{' {
                open += 1;
            } else if c == '}' {
                if open == 0 {
                    return head(text, i + 1);
                }
                open -= 1;
            }
            i += 1;
        }
        head(text, 1)
    } else {
        head(text, 1)
    }
}

/// The title that follows a sectioning macro: scanned as an argument is.
pub open spec fn spec_parse_title(text: Seq<char>) -> Seq<char> {
    spec_argument(text)
}

/// The title that `text` starts with.
pub fn parse_title(text: &[char]) -> (r: &[char])
    ensures
        r@ == spec_parse_title(text@),
        r@.len() <= text@.len(),
        text@.len() > 0 ==> r@.len() > 0,
        !spec_is_unbalanced(r@) && r@.len() > 0 && text@[0] == '{' ==> r@.len() >= 2,
{
    argument(text)
}

/// Scanning `text` from position `i` at brace depth `depth`: the position
/// after the first `]` met at depth 0. Braces change the depth; brackets
/// do not.
pub open spec fn bracket_end(text: Seq<char>, i: int, depth: int) -> Option<int>
    decreases text.len() - i,
{
    if i < 0 || i >= text.len() {
        None
    } else if text[i] == '{' {
        bracket_end(text, i + 1, depth + 1)
    } else if text[i] == '}' {
        bracket_end(text, i + 1, depth - 1)
    } else if text[i] == ']' && depth == 0 {
        Some(i + 1)
    } else {
        bracket_end(text, i + 1, depth)
    }
}

/// The optional argument that `text` starts with: a group in brackets, the
/// `[` alone where no `]` closes it, and nothing where `text` does not
/// start with `[`.
pub open spec fn spec_optional_argument(text: Seq<char>) -> Seq<char> {
    if text.len() > 0 && text[0] == '[' {
        match bracket_end(text, 1, 0) {
            Some(end) => before(text, end),
            None => before(text, 1),
        }
    } else {
        before(text, 0)
    }
}

/// The optional argument that `text` starts with.
pub fn optional_argument(text: &[char]) -> (r: &[char])
    ensures
        r@ == spec_optional_argument(text@),
        r@.len() <= text@.len(),
{
    if text.len() > 0 && text[0] == '[' {
        let mut depth: i128 = 0;
        let mut i: usize = 1;
        while i < text.len()
            invariant
                1 <= i <= text.len(),
                -(i as int) < depth < i as int,
                text@[0] == '[',
                bracket_end(text@, i as int, depth as int) == bracket_end(text@, 1, 0),
            decreases text.len() - i,
        {
            let c = text[i];
            assert(bracket_end(text@, i as int, depth as int) == if c == '{' {
                bracket_end(text@, i + 1, depth + 1)
            } else if c == '}' {
                bracket_end(text@, i + 1, depth - 1)
            } else if c == ']' && depth == 0 {
                Some(i + 1)
            } else {
                bracket_end(text@, i + 1, depth as int)
            });
            if c == '{' {
                depth += 1;
            } else if c == '}' {
                depth -= 1;
            } else if c == ']' && depth == 0 {
                return head(text, i + 1);
            }
            i += 1;
        }
        head(text, 1)
    } else {
        head(text, 0)
    }
}

/// What is left of `text` after a macro without arguments: one space less,
/// where a space follows.
pub open spec fn spec_finish_standalone_macro(text: Seq<char>) -> Seq<char> {
    if text.len() > 0 && text[0] == ' ' {
        after(text, 1)
    } else {
        text
    }
}

/// What is left of `text` after a macro without arguments.
pub fn finish_standalone_macro(text: &[char]) -> (r: &[char])
    ensures
        r@ == spec_finish_standalone_macro(text@),
        r@.len() <= text@.len(),
{
    if text.len() > 0 && text[0] == ' ' {
        tail(text, 1)
    } else {
        text
    }
}

/// The environment name that follows `\begin` or `\end`, braces included:
/// the text up to and including the first character that cannot stand in a
/// name. Where that is the closing brace, the name is whole; where another
/// character comes first, the name is cut short after it. Without any such
/// character the name is all of the text.
pub open spec fn spec_env_name(text: Seq<char>) -> Seq<char> {
    match spec_find_class(text, Class::EnvironmentEnd) {
        Some(i) => before(text, i + 1),
        None => text,
    }
}

/// The name ends with the closing brace.
pub open spec fn spec_is_closed(name: Seq<char>) -> bool {
    name.len() > 0 && name.last() == '}'
}

/// Whether `name` ends with the closing brace.
pub fn is_closed(name: &[char]) -> (b: bool)
    ensures
        b == spec_is_closed(name@),
{
    name.len() > 0 && name[name.len() - 1] == '}'
}

/// The environment name, braces included, that `text` starts with.
pub fn env_name(text: &[char]) -> (r: &[char])
    ensures
        r@ == spec_env_name(text@),
        r@.len() <= text@.len(),
{
    match find_class(text, Class::EnvironmentEnd) {
        Some(i) => head(text, i + 1),
        None => text,
    }
}

/// The closing of the environment `name` (its braces included).
pub open spec fn closing(name: Seq<char>) -> Seq<char> {
    "\\end"@ + name
}

/// The text up to and including the first closing of the environment `name`
/// (its braces included); empty where there is none.
pub open spec fn spec_end_env(name: Seq<char>, text: Seq<char>) -> Seq<char> {
    match find(text, closing(name)) {
        Some(i) => before(text, i + closing(name).len()),
        None => before(text, 0),
    }
}

/// The text up to and including the first closing of the environment `name`.
pub fn end_env<'a>(name: &[char], text: &'a [char]) -> (r: &'a [char])
    ensures
        r@ == spec_end_env(name@, text@),
        r@.len() <= text@.len(),
{
    let mut end: Vec<char> = Vec::new();
    crate::text::emit(&mut end, "\\end");
    crate::text::emit_chars(&mut end, name);
    let found = crate::text::find_sub(text, end.as_slice());
    match found {
        Some(i) => head(text, i + end.len()),
        None => head(text, 0),
    }
}

/// The first position is there and lies before the second, or the second is
/// not there.
pub open spec fn spec_earlier(a: Option<int>, b: Option<int>) -> bool {
    match b {
        Some(b) => match a {
            Some(a) => a < b,
            None => false,
        },
        None => true,
    }
}

/// Whether the first position is there and lies before the second, or the
/// second is not there.
pub fn earlier(a: Option<usize>, b: Option<usize>) -> (r: bool)
    ensures
        r == spec_earlier(position(a), position(b)),
{
    match b {
        Some(b) => match a {
            Some(a) => a < b,
            None => false,
        },
        None => true,
    }
}

/// A regular expression for a blank line: a line break, white space, a line
/// break.
pub const BLANK_LINE: &'static str = "\n\\s*\n";

/// A regular expression for the closing of a list environment.
pub const LIST_END: &'static str = "\\\\end\\{(itemize|enumerate|description)\\}";

/// A regular expression for the opening of a list environment.
pub const LIST_BEGIN: &'static str = "\\\\begin\\{(itemize|enumerate|description)\\}";

/// How far a scan moves on from the place where it met a nested `\end{`:
/// past the five characters of it.
pub const END_STEP: usize = 5;

/// How far a scan moves on from the place where it met a nested `\begin{`:
/// past the seven characters of it.
pub const BEGIN_STEP: usize = 7;

/// The position after the first blank line of `text`. A blank line is
/// looked for only where `text` holds a line break.
pub open spec fn spec_find_paragraph(text: Seq<char>) -> Option<int> {
    if find(text, "\n"@) is None {
        None
    } else {
        match spec_find_match(BLANK_LINE@, text) {
            Some(m) => Some(m.1),
            None => None,
        }
    }
}

/// The position after the first blank line of `text`.
pub fn find_paragraph(text: &[char]) -> (r: Option<usize>)
    ensures
        position(r) == spec_find_paragraph(text@),
        r matches Some(i) ==> i <= text@.len(),
{
    if find_str(text, "\n").is_none() {
        return None;
    }
    match find_match(BLANK_LINE, text) {
        Some(m) => Some(m.1),
        None => None,
    }
}

/// What a scan for the end of a paragraph or of a list item meets.
#[derive(Clone, Copy, PartialEq, Eq, Structural, Debug)]
pub enum Event {
    /// What parts one from the next: a blank line, or an `\item`.
    Boundary,
    /// The closing of an environment.
    Close,
    /// The opening of an environment.
    Open,
    /// None of these.
    Nothing,
}

/// Which comes first of a boundary, a closing and an opening, each given by
/// its position where there is one. A boundary comes first only where it
/// lies before both others; of a closing and an opening at the same place,
/// the opening comes first.
pub open spec fn spec_first_event(
    boundary: Option<int>,
    close: Option<int>,
    open: Option<int>,
) -> Event {
    if spec_earlier(boundary, open) && spec_earlier(boundary, close) {
        if boundary is Some {
            Event::Boundary
        } else {
            Event::Nothing
        }
    } else if spec_earlier(close, open) {
        Event::Close
    } else {
        Event::Open
    }
}

/// The event that comes first is there, and no other lies before it.
pub proof fn lemma_first_event(boundary: Option<int>, close: Option<int>, open: Option<int>)
    ensures
        match spec_first_event(boundary, close, open) {
            Event::Boundary => boundary is Some && (close is Some ==> boundary->0 < close->0) && (
            open is Some ==> boundary->0 < open->0),
            Event::Close => close is Some && (boundary is Some ==> close->0 <= boundary->0) && (
            open is Some ==> close->0 < open->0),
            Event::Open => open is Some && (boundary is Some ==> open->0 <= boundary->0) && (
            close is Some ==> open->0 <= close->0),
            Event::Nothing => boundary is None && close is None && open is None,
        },
{
}

/// Which comes first of a boundary, a closing and an opening.
pub fn first_event(boundary: Option<usize>, close: Option<usize>, open: Option<usize>) -> (r: Event)
    ensures
        r == spec_first_event(position(boundary), position(close), position(open)),
        r == Event::Boundary ==> boundary is Some,
        r == Event::Close ==> close is Some,
        r == Event::Open ==> open is Some,
{
    if earlier(boundary, open) && earlier(boundary, close) {
        if boundary.is_some() {
            Event::Boundary
        } else {
            Event::Nothing
        }
    } else if earlier(close, open) {
        Event::Close
    } else {
        Event::Open
    }
}

/// The position `from + step`, or the end of `text` where that lies beyond it.
pub open spec fn advance(text: Seq<char>, from: int, step: int) -> int {
    if from + step > text.len() {
        text.len() as int
    } else {
        from + step
    }
}

/// The position `step` characters after position `so_far + i`, or the end of
/// `text`.
fn move_on(text: &[char], so_far: usize, i: usize, step: usize) -> (r: usize)
    requires
        so_far + i <= text@.len(),
    ensures
        r == advance(text@, so_far + i, step as int),
        r <= text@.len(),
{
    let room = text.len() - so_far - i;
    if room < step {
        text.len()
    } else {
        so_far + i + step
    }
}

/// Where the paragraph that `text` starts with ends, seen from position
/// `so_far` with `nested` environments open. The scan goes from one event to
/// the next: a blank line, an `\end{` or a `\begin{`. Outside nested
/// environments a blank line ends the paragraph after it and an `\end{`
/// ends it before; inside, all three are passed over. Without an end the
/// paragraph is all of `text`.
pub open spec fn paragraph_end(text: Seq<char>, so_far: int, nested: nat) -> int
    decreases text.len() - so_far,
{
    let rest = after(text, so_far);
    let blank = spec_find_paragraph(rest);
    let end = find(rest, "\\end{"@);
    let begin = find(rest, "\\begin{"@);
    if so_far < 0 || so_far >= text.len() {
        text.len() as int
    } else {
        proof {
            lemma_find(rest, "\\end{"@);
            lemma_find(rest, "\\begin{"@);
        }
        match spec_first_event(blank, end, begin) {
            Event::Boundary => if nested == 0 {
                so_far + blank->0
            } else if blank->0 > 0 {
                paragraph_end(text, so_far + blank->0, nested)
            } else {
                text.len() as int
            },
            Event::Close => if nested == 0 {
                so_far + end->0
            } else {
                paragraph_end(
                    text,
                    advance(text, so_far + end->0, END_STEP as int),
                    (nested - 1) as nat,
                )
            },
            Event::Open => paragraph_end(
                text,
                advance(text, so_far + begin->0, BEGIN_STEP as int),
                nested + 1,
            ),
            Event::Nothing => text.len() as int,
        }
    }
}

/// The paragraph that `text` starts with.
pub open spec fn spec_finish_paragraph(text: Seq<char>) -> Seq<char> {
    before(text, paragraph_end(text, 0, 0))
}

/// The paragraph that `text` starts with.
pub fn finish_paragraph(text: &[char]) -> (r: &[char])
    ensures
        r@ == spec_finish_paragraph(text@),
        r@.len() <= text@.len(),
{
    let mut so_far: usize = 0;
    let mut nested: usize = 0;
    loop
        invariant
            so_far <= text@.len(),
            nested <= so_far,
            paragraph_end(text@, so_far as int, nested as nat) == paragraph_end(text@, 0, 0),
        decreases text@.len() - so_far,
    {
        if so_far >= text.len() {
            assert(before(text@, text@.len() as int) =~= text@);
            return text;
        }
        let rest = tail(text, so_far);
        let blank = find_paragraph(rest);
        let end = find_str(rest, "\\end{");
        let begin = find_str(rest, "\\begin{");
        match first_event(blank, end, begin) {
            Event::Boundary => {
                let i = blank.unwrap();
                if nested == 0 {
                    return head(text, so_far + i);
                } else if i > 0 {
                    so_far = so_far + i;
                } else {
                    assert(before(text@, text@.len() as int) =~= text@);
                    return text;
                }
            },
            Event::Close => {
                let i = end.unwrap();
                if nested == 0 {
                    return head(text, so_far + i);
                }
                nested -= 1;
                so_far = move_on(text, so_far, i, END_STEP);
            },
            Event::Open => {
                let i = begin.unwrap();
                nested += 1;
                so_far = move_on(text, so_far, i, BEGIN_STEP);
            },
            Event::Nothing => {
                assert(before(text@, text@.len() as int) =~= text@);
                return text;
            },
        }
    }
}

/// The start of the leftmost match of `pattern` in `text`. A match is
/// looked for only where `text` holds `start`, which every match of the
/// pattern starts with.
pub open spec fn match_start(pattern: Seq<char>, start: Seq<char>, text: Seq<char>) -> Option<int> {
    if find(text, start) is None {
        None
    } else {
        match spec_find_match(pattern, text) {
            Some(m) => Some(m.0),
            None => None,
        }
    }
}

/// The start of the leftmost match of `pattern` in `text`.
fn find_match_start(pattern: &str, start: &str, text: &[char]) -> (r: Option<usize>)
    ensures
        position(r) == match_start(pattern@, start@, text@),
        r matches Some(i) ==> i <= text@.len(),
{
    if find_str(text, start).is_none() {
        return None;
    }
    match find_match(pattern, text) {
        Some(m) => Some(m.0),
        None => None,
    }
}

/// The position of an `\item` that may end the item at hand: none inside a
/// nested list.
pub open spec fn own_item(item: Option<int>, nested: nat) -> Option<int> {
    if nested == 0 {
        item
    } else {
        None
    }
}

/// Where the list item that `text` starts with ends, seen from position
/// `so_far` with `nested` lists open. The scan goes from one event to the
/// next: an `\item`, the closing of a list or the opening of one. Outside
/// nested lists an `\item` ends the item, and so does the closing of a
/// list; inside, closings and openings are counted and `\item` is passed
/// over. Without an end the result is 0.
pub open spec fn item_end(text: Seq<char>, so_far: int, nested: nat) -> int
    decreases text.len() - so_far,
{
    let rest = after(text, so_far);
    let item = find(rest, "\\item"@);
    let end = match_start(LIST_END@, "\\end{"@, rest);
    let begin = match_start(LIST_BEGIN@, "\\begin{"@, rest);
    if so_far < 0 || so_far >= text.len() {
        0
    } else {
        match spec_first_event(own_item(item, nested), end, begin) {
            Event::Boundary => so_far + item->0,
            Event::Close => if nested == 0 {
                so_far + end->0
            } else {
                item_end(text, advance(text, so_far + end->0, END_STEP as int), (nested - 1) as nat)
            },
            Event::Open => item_end(
                text,
                advance(text, so_far + begin->0, BEGIN_STEP as int),
                nested + 1,
            ),
            Event::Nothing => 0,
        }
    }
}

/// The list item that `text` starts with: the text before the `\item` or
/// the closing of a list that ends it; empty where nothing ends it.
pub open spec fn spec_finish_item(text: Seq<char>) -> Seq<char> {
    before(text, item_end(text, 0, 0))
}

/// The list item that `text` starts with.
pub fn finish_item(text: &[char]) -> (r: &[char])
    ensures
        r@ == spec_finish_item(text@),
        r@.len() <= text@.len(),
{
    let mut so_far: usize = 0;
    let mut nested: usize = 0;
    loop
        invariant
            so_far <= text@.len(),
            nested <= so_far,
            item_end(text@, so_far as int, nested as nat) == item_end(text@, 0, 0),
        decreases text@.len() - so_far,
    {
        if so_far >= text.len() {
            return head(text, 0);
        }
        let rest = tail(text, so_far);
        let item = if nested == 0 {
            find_str(rest, "\\item")
        } else {
            None
        };
        let end = find_match_start(LIST_END, "\\end{", rest);
        let begin = find_match_start(LIST_BEGIN, "\\begin{", rest);
        match first_event(item, end, begin) {
            Event::Boundary => {
                return head(text, so_far + item.unwrap());
            },
            Event::Close => {
                let i = end.unwrap();
                if nested == 0 {
                    return head(text, so_far + i);
                }
                nested -= 1;
                so_far = move_on(text, so_far, i, END_STEP);
            },
            Event::Open => {
                nested += 1;
                so_far = move_on(text, so_far, begin.unwrap(), BEGIN_STEP);
            },
            Event::Nothing => {
                return head(text, 0);
            },
        }
    }
}

} // verus!
