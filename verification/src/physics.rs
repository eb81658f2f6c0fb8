//! Shorthand macros of physics notation, written out.

use vstd::prelude::*;
use crate::scan::{argument, lemma_argument, spec_argument};
use crate::text::{
    after, before, emit, emit_chars, find, find_str, head, lemma_append, lemma_find, length,
    replace, replace_all, tail,
};

verus! {

/// What `\dbar` followed by a space is written out as.
pub const DBAR: &'static str = "{\\mkern3mu\\mathchar'26\\mkern-12mu d} ";

/// An argument with its own shorthands written out, where there is a level
/// left to go down; otherwise the argument as it is.
pub open spec fn expanded(arg: Seq<char>, depth: nat) -> Seq<char>
    decreases depth, 0nat, 0nat,
{
    if depth == 0 {
        arg
    } else {
        spec_physics_macros(arg, (depth - 1) as nat)
    }
}

/// An argument between `left` and `right`, with its own shorthands written
/// out.
pub open spec fn bracketed(left: Seq<char>, arg: Seq<char>, right: Seq<char>, depth: nat) -> Seq<
    char,
>
    decreases depth, 1nat, 0nat,
{
    left + expanded(arg, depth) + right
}

/// The partial derivative of the first argument by the second, the third
/// held fixed, each with its own shorthands written out.
pub open spec fn derivative(first: Seq<char>, second: Seq<char>, third: Seq<char>, depth: nat) -> Seq<
    char,
>
    decreases depth, 1nat, 0nat,
{
    "\\left(\\frac{\\partial "@ + expanded(first, depth) + "}{\\partial "@ + expanded(second, depth)
        + "}\\right)_"@ + expanded(third, depth)
}

/// `text` with each use of a shorthand of one argument written out. A use
/// starts where `open`, the macro `name` with its opening brace, stands. It
/// becomes `left`, the argument with its own shorthands written out, and
/// `right`.
pub open spec fn spec_expand_one(
    text: Seq<char>,
    open: Seq<char>,
    name: Seq<char>,
    left: Seq<char>,
    right: Seq<char>,
    depth: nat,
) -> Seq<char>
    decreases depth, 2nat, text.len(),
{
    match find(text, open) {
        Some(i) => if 0 < name.len() <= open.len() {
            proof {
                lemma_find(text, open);
                lemma_argument(after(text, i + name.len()));
            }
            let at = after(text, i + name.len());
            let arg = spec_argument(at);
            before(text, i) + bracketed(left, arg, right, depth) + spec_expand_one(
                after(at, arg.len() as int),
                open,
                name,
                left,
                right,
                depth,
            )
        } else {
            text
        },
        None => text,
    }
}

/// What is left of `text` after the argument that it starts with.
pub open spec fn after_argument(text: Seq<char>) -> Seq<char> {
    after(text, spec_argument(text).len() as int)
}

/// What is left of a text after an argument is no longer than the text.
pub proof fn lemma_after_argument(text: Seq<char>)
    ensures
        after_argument(text).len() <= text.len(),
{
    lemma_argument(text);
}

/// `text` with each use of a derivative shorthand of three arguments written
/// out. A use starts where `open`, the macro `name` with its opening brace,
/// stands.
pub open spec fn spec_expand_three(text: Seq<char>, open: Seq<char>, name: Seq<char>, depth: nat) -> Seq<
    char,
>
    decreases depth, 2nat, text.len(),
{
    match find(text, open) {
        Some(i) => if 0 < name.len() <= open.len() {
            let first = after(text, i + name.len());
            let second = after_argument(first);
            let third = after_argument(second);
            proof {
                lemma_find(text, open);
                lemma_after_argument(first);
                lemma_after_argument(second);
                lemma_after_argument(third);
            }
            before(text, i) + derivative(
                spec_argument(first),
                spec_argument(second),
                spec_argument(third),
                depth,
            ) + spec_expand_three(after_argument(third), open, name, depth)
        } else {
            text
        },
        None => text,
    }
}

/// `text` with the shorthands of physics notation written out, in six
/// passes: `\ket`, `\bra`, `\dbar`, `\myderiv`, `\thermoderivative`, and
/// last a bra closing where a ket opens, which become one bar in the middle. Arguments are written out in the same
/// way, down to `depth` levels; below that they stay as they are.
pub open spec fn spec_physics_macros(text: Seq<char>, depth: nat) -> Seq<char>
    decreases depth, 3nat, 0nat,
{
    let kets = spec_expand_one(text, "\\ket{"@, "\\ket"@, "\\left|"@, "\\right\\rangle "@, depth);
    let bras = spec_expand_one(kets, "\\bra{"@, "\\bra"@, "\\left\\langle "@, "\\right|"@, depth);
    let dbars = replace(bras, "\\dbar "@, DBAR@);
    let derivs = spec_expand_three(dbars, "\\myderiv{"@, "\\myderiv"@, depth);
    let thermo = spec_expand_three(derivs, "\\thermoderivative{"@, "\\thermoderivative"@, depth);
    replace(thermo, "\\right|\\left|"@, "\\middle|"@)
}

/// Appends an argument with its own shorthands written out, where there is
/// a level left to go down.
fn emit_expanded(out: &mut Vec<char>, arg: &[char], depth: usize)
    ensures
        final(out)@ == old(out)@ + expanded(arg@, depth as nat),
    decreases depth, 0nat, 0nat,
{
    if depth == 0 {
        emit_chars(out, arg);
    } else {
        let inner = physics_macros(arg, depth - 1);
        emit_chars(out, inner.as_slice());
    }
}

/// Appends an argument between `left` and `right`.
fn emit_bracketed(out: &mut Vec<char>, left: &str, arg: &[char], right: &str, depth: usize)
    ensures
        final(out)@ == old(out)@ + bracketed(left@, arg@, right@, depth as nat),
    decreases depth, 1nat, 0nat,
{
    let ghost start = out@;
    emit(out, left);
    emit_expanded(out, arg, depth);
    proof {
        lemma_append(start, left@, expanded(arg@, depth as nat));
    }
    emit(out, right);
    proof {
        lemma_append(start, left@ + expanded(arg@, depth as nat), right@);
    }
}

/// Appends the partial derivative of the first argument by the second, the
/// third held fixed.
fn emit_derivative(out: &mut Vec<char>, first: &[char], second: &[char], third: &[char], depth: usize)
    ensures
        final(out)@ == old(out)@ + derivative(first@, second@, third@, depth as nat),
    decreases depth, 1nat, 0nat,
{
    let ghost start = out@;
    emit(out, "\\left(\\frac{\\partial ");
    let ghost one = "\\left(\\frac{\\partial "@;
    emit_expanded(out, first, depth);
    let ghost two = one + expanded(first@, depth as nat);
    proof {
        lemma_append(start, one, expanded(first@, depth as nat));
    }
    emit(out, "}{\\partial ");
    let ghost three = two + "}{\\partial "@;
    proof {
        lemma_append(start, two, "}{\\partial "@);
    }
    emit_expanded(out, second, depth);
    let ghost four = three + expanded(second@, depth as nat);
    proof {
        lemma_append(start, three, expanded(second@, depth as nat));
    }
    emit(out, "}\\right)_");
    let ghost five = four + "}\\right)_"@;
    proof {
        lemma_append(start, four, "}\\right)_"@);
    }
    emit_expanded(out, third, depth);
    proof {
        lemma_append(start, five, expanded(third@, depth as nat));
    }
}

/// Writes out each use of a shorthand of one argument.
fn expand_one(text: &[char], open: &str, name: &str, left: &str, right: &str, depth: usize) -> (r:
    Vec<char>)
    requires
        0 < name@.len() <= open@.len(),
    ensures
        r@ == spec_expand_one(text@, open@, name@, left@, right@, depth as nat),
    decreases depth, 2nat, text@.len(),
{
    let name_len = length(name);
    let mut out: Vec<char> = Vec::new();
    let mut rest = text;
    loop
        invariant
            name_len == name@.len(),
            0 < name@.len() <= open@.len(),
            rest@.len() <= text@.len(),
            out@ + spec_expand_one(rest@, open@, name@, left@, right@, depth as nat)
                == spec_expand_one(text@, open@, name@, left@, right@, depth as nat),
        decreases rest@.len(),
    {
        let ghost so_far = out@;
        let ghost whole = spec_expand_one(rest@, open@, name@, left@, right@, depth as nat);
        let found = find_str(rest, open);
        match found {
            Some(i) => {
                let at = tail(rest, i + name_len);
                let arg = argument(at);
                let left_over = tail(at, arg.len());
                let ghost lead = before(rest@, i as int);
                let ghost shown = bracketed(left@, arg@, right@, depth as nat);
                let ghost more = spec_expand_one(
                    left_over@,
                    open@,
                    name@,
                    left@,
                    right@,
                    depth as nat,
                );
                assert(whole == lead + shown + more);
                emit_chars(&mut out, head(rest, i));
                emit_bracketed(&mut out, left, arg, right, depth);
                proof {
                    lemma_append(so_far, lead, shown);
                    lemma_append(so_far, lead + shown, more);
                }
                rest = left_over;
            },
            None => {
                assert(whole == rest@);
                emit_chars(&mut out, rest);
                return out;
            },
        }
    }
}

/// Writes out each use of a derivative shorthand of three arguments.
fn expand_three(text: &[char], open: &str, name: &str, depth: usize) -> (r: Vec<char>)
    requires
        0 < name@.len() <= open@.len(),
    ensures
        r@ == spec_expand_three(text@, open@, name@, depth as nat),
    decreases depth, 2nat, text@.len(),
{
    let name_len = length(name);
    let mut out: Vec<char> = Vec::new();
    let mut rest = text;
    loop
        invariant
            name_len == name@.len(),
            0 < name@.len() <= open@.len(),
            rest@.len() <= text@.len(),
            out@ + spec_expand_three(rest@, open@, name@, depth as nat) == spec_expand_three(
                text@,
                open@,
                name@,
                depth as nat,
            ),
        decreases rest@.len(),
    {
        let ghost so_far = out@;
        let ghost whole = spec_expand_three(rest@, open@, name@, depth as nat);
        let found = find_str(rest, open);
        match found {
            Some(i) => {
                let at1 = tail(rest, i + name_len);
                let arg1 = argument(at1);
                let at2 = tail(at1, arg1.len());
                let arg2 = argument(at2);
                let at3 = tail(at2, arg2.len());
                let arg3 = argument(at3);
                let left_over = tail(at3, arg3.len());
                let ghost lead = before(rest@, i as int);
                let ghost shown = derivative(arg1@, arg2@, arg3@, depth as nat);
                let ghost more = spec_expand_three(left_over@, open@, name@, depth as nat);
                assert(whole == lead + shown + more);
                emit_chars(&mut out, head(rest, i));
                emit_derivative(&mut out, arg1, arg2, arg3, depth);
                proof {
                    lemma_append(so_far, lead, shown);
                    lemma_append(so_far, lead + shown, more);
                }
                rest = left_over;
            },
            None => {
                assert(whole == rest@);
                emit_chars(&mut out, rest);
                return out;
            },
        }
    }
}

/// Writes out the shorthands of physics notation in `text`, `depth` levels
/// deep.
pub fn physics_macros(text: &[char], depth: usize) -> (r: Vec<char>)
    ensures
        r@ == spec_physics_macros(text@, depth as nat),
    decreases depth, 3nat, 0nat,
{
    proof {
        reveal_strlit("\\ket{");
        reveal_strlit("\\ket");
        reveal_strlit("\\bra{");
        reveal_strlit("\\bra");
        reveal_strlit("\\myderiv{");
        reveal_strlit("\\myderiv");
        reveal_strlit("\\thermoderivative{");
        reveal_strlit("\\thermoderivative");
    }
    let kets = expand_one(text, "\\ket{", "\\ket", "\\left|", "\\right\\rangle ", depth);
    let bras = expand_one(kets.as_slice(), "\\bra{", "\\bra", "\\left\\langle ", "\\right|", depth);
    let dbars = replace_all(bras.as_slice(), "\\dbar ", DBAR);
    let derivs = expand_three(dbars.as_slice(), "\\myderiv{", "\\myderiv", depth);
    let thermo = expand_three(derivs.as_slice(), "\\thermoderivative{", "\\thermoderivative", depth);
    replace_all(thermo.as_slice(), "\\right|\\left|", "\\middle|")
}

} // verus!
