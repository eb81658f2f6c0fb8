//! Widths of figures and images, read from the options of the markup.

use vstd::prelude::*;
use crate::pattern::{first_groups, group_view, groups_view, leftmost_groups, match_view};
use crate::text::{emit, emit_chars, equals};

verus! {

/// A regular expression for an option `width=` with a number and a unit.
pub const WIDTH_OPTION: &'static str = "[\\[\\{]width=(\\d+)(.+)[\\}\\]]";

/// A regular expression for an argument that is a number and a unit.
pub const BARE_WIDTH: &'static str = "[\\[\\{](\\d+)(.+)[\\}\\]]";

/// A regular expression for a decimal multiple of the width of the page:
/// group 1 is the whole part, group 2 the decimal places.
pub const PAGE_FRACTION: &'static str =
    "[\\[\\{](?:width=)?(\\d+)(?:\\.(\\d+))?\\\\(?:columnwidth|textwidth|linewidth)[\\}\\]]";

/// One of the units of length that are supported.
pub open spec fn spec_is_unit(unit: Seq<char>) -> bool {
    unit == "em"@ || unit == "ex"@ || unit == "cm"@ || unit == "in"@ || unit == "mm"@ || unit
        == "pt"@
}

/// Whether `unit` is one of the units of length that are supported.
pub fn is_unit(unit: &[char]) -> (b: bool)
    ensures
        b == spec_is_unit(unit@),
{
    equals(unit, "em") || equals(unit, "ex") || equals(unit, "cm") || equals(unit, "in") || equals(
        unit,
        "mm",
    ) || equals(unit, "pt")
}

/// `digits` without the zeros that it starts with, but for the last digit.
pub open spec fn spec_strip_leading_zeros(digits: Seq<char>) -> Seq<char>
    decreases digits.len(),
{
    if digits.len() > 1 && digits[0] == '0' {
        spec_strip_leading_zeros(digits.subrange(1, digits.len() as int))
    } else {
        digits
    }
}

/// `digits` without the zeros that it starts with, but for the last digit.
pub fn strip_leading_zeros(digits: &[char]) -> (r: &[char])
    ensures
        r@ == spec_strip_leading_zeros(digits@),
{
    let mut rest = digits;
    while rest.len() > 1 && rest[0] == '0'
        invariant
            spec_strip_leading_zeros(rest@) == spec_strip_leading_zeros(digits@),
        decreases rest@.len(),
    {
        rest = vstd::slice::slice_subrange(rest, 1, rest.len());
    }
    rest
}

/// `digits` without the zeros that it ends with.
pub open spec fn spec_strip_trailing_zeros(digits: Seq<char>) -> Seq<char>
    decreases digits.len(),
{
    if digits.len() > 0 && digits.last() == '0' {
        spec_strip_trailing_zeros(digits.drop_last())
    } else {
        digits
    }
}

/// `digits` without the zeros that it ends with.
pub fn strip_trailing_zeros(digits: &[char]) -> (r: &[char])
    ensures
        r@ == spec_strip_trailing_zeros(digits@),
{
    let mut rest = digits;
    while rest.len() > 0 && rest[rest.len() - 1] == '0'
        invariant
            spec_strip_trailing_zeros(rest@) == spec_strip_trailing_zeros(digits@),
        decreases rest@.len(),
    {
        rest = vstd::slice::slice_subrange(rest, 0, rest.len() - 1);
    }
    rest
}

/// The first two decimal places, with zeros where there are fewer.
pub open spec fn hundredths(places: Seq<char>) -> Seq<char> {
    if places.len() == 0 {
        seq!['0', '0']
    } else if places.len() == 1 {
        seq![places[0], '0']
    } else {
        seq![places[0], places[1]]
    }
}

/// The decimal places after the second.
pub open spec fn beyond_hundredths(places: Seq<char>) -> Seq<char> {
    if places.len() > 2 {
        places.subrange(2, places.len() as int)
    } else {
        Seq::empty()
    }
}

/// A hundred times the decimal number with the digits `whole` before the
/// point and `places` after it, written without needless zeros: the point
/// moves two places to the right.
pub open spec fn spec_percent(whole: Seq<char>, places: Seq<char>) -> Seq<char> {
    let rest = spec_strip_trailing_zeros(beyond_hundredths(places));
    spec_strip_leading_zeros(whole + hundredths(places)) + if rest.len() > 0 {
        seq!['.'] + rest
    } else {
        Seq::empty()
    }
}

/// Appends to `out` a hundred times the decimal number `whole`.`places`.
pub fn percent(out: &mut Vec<char>, whole: &[char], places: &[char])
    ensures
        final(out)@ == old(out)@ + spec_percent(whole@, places@),
{
    let mut digits: Vec<char> = Vec::new();
    emit_chars(&mut digits, whole);
    if places.len() == 0 {
        digits.push('0');
        digits.push('0');
    } else if places.len() == 1 {
        digits.push(places[0]);
        digits.push('0');
    } else {
        digits.push(places[0]);
        digits.push(places[1]);
    }
    assert(digits@ =~= whole@ + hundredths(places@));
    emit_chars(out, strip_leading_zeros(digits.as_slice()));
    let beyond = if places.len() > 2 {
        vstd::slice::slice_subrange(places, 2, places.len())
    } else {
        vstd::slice::slice_subrange(places, 0, 0)
    };
    assert(beyond@ =~= beyond_hundredths(places@));
    let rest = strip_trailing_zeros(beyond);
    if rest.len() > 0 {
        out.push('.');
        emit_chars(out, rest);
        assert(out@ =~= old(out)@ + spec_percent(whole@, places@));
    } else {
        assert(out@ =~= old(out)@ + spec_percent(whole@, places@));
    }
}

/// The style for a number and a unit of length, where the groups hold them.
pub open spec fn length_style(groups: Option<Seq<Option<Seq<char>>>>) -> Option<Seq<char>> {
    match groups {
        Some(g) => if g.len() >= 3 && g[1] is Some && g[2] is Some && spec_is_unit(g[2]->0) {
            Some(" style=\"width:"@ + g[1]->0 + g[2]->0 + "\""@)
        } else {
            None
        },
        None => None,
    }
}

/// The style for a decimal multiple of the width of the page, as a
/// percentage, where the groups hold its digits.
pub open spec fn fraction_style(groups: Option<Seq<Option<Seq<char>>>>) -> Seq<char> {
    match groups {
        Some(g) => if g.len() >= 3 && g[1] is Some {
            " style=\"width:"@ + spec_percent(
                g[1]->0,
                match g[2] {
                    Some(places) => places,
                    None => Seq::empty(),
                },
            ) + "%\""@
        } else {
            Seq::empty()
        },
        None => Seq::empty(),
    }
}

/// The style attribute for the width that `option` gives, with the space
/// before it; empty where it gives none, as where `option` is empty. A
/// width is a whole number with a unit of length, after `width=` or alone,
/// or a decimal multiple of the width of the page.
pub open spec fn spec_parse_width(option: Seq<char>) -> Seq<char> {
    let groups = match leftmost_groups(WIDTH_OPTION@, option) {
        Some(g) => Some(g),
        None => leftmost_groups(BARE_WIDTH@, option),
    };
    if option.len() == 0 {
        Seq::empty()
    } else {
        match length_style(groups) {
            Some(style) => style,
            None => fraction_style(leftmost_groups(PAGE_FRACTION@, option)),
        }
    }
}

/// The style for a number and a unit of length, where the groups hold them.
pub fn style_of_length(groups: &Option<Vec<Option<Vec<char>>>>) -> (r: Option<Vec<char>>)
    ensures
        group_view(r) == length_style(match_view(*groups)),
{
    if let Some(g) = groups {
        if g.len() >= 3 {
            assert(groups_view(g@)[1] == group_view(g@[1]));
            assert(groups_view(g@)[2] == group_view(g@[2]));
            if let Some(value) = &g[1] {
                if let Some(unit) = &g[2] {
                    if is_unit(unit.as_slice()) {
                        let mut style: Vec<char> = Vec::new();
                        emit(&mut style, " style=\"width:");
                        emit_chars(&mut style, value.as_slice());
                        emit_chars(&mut style, unit.as_slice());
                        emit(&mut style, "\"");
                        assert(style@ =~= " style=\"width:"@ + value@ + unit@ + "\""@);
                        return Some(style);
                    }
                }
            }
        }
    }
    None
}

/// The style for a decimal multiple of the width of the page, where the groups
/// hold its digits.
pub fn style_of_fraction(groups: &Option<Vec<Option<Vec<char>>>>) -> (r: Vec<char>)
    ensures
        r@ == fraction_style(match_view(*groups)),
{
    let mut style: Vec<char> = Vec::new();
    if let Some(g) = groups {
        if g.len() >= 3 {
            assert(groups_view(g@)[1] == group_view(g@[1]));
            assert(groups_view(g@)[2] == group_view(g@[2]));
            if let Some(whole) = &g[1] {
                emit(&mut style, " style=\"width:");
                let none: Vec<char> = Vec::new();
                let places = match &g[2] {
                    Some(p) => p,
                    None => &none,
                };
                percent(&mut style, whole.as_slice(), places.as_slice());
                emit(&mut style, "%\"");
                assert(style@ =~= fraction_style(match_view(*groups)));
                return style;
            }
        }
    }
    style
}

/// The style attribute for the width that `option` gives.
pub fn parse_width(option: &[char]) -> (r: Vec<char>)
    ensures
        r@ == spec_parse_width(option@),
{
    if option.len() == 0 {
        return Vec::new();
    }
    let with_name = first_groups(WIDTH_OPTION, option);
    let groups = match with_name {
        Some(g) => Some(g),
        None => first_groups(BARE_WIDTH, option),
    };
    match style_of_length(&groups) {
        Some(style) => style,
        None => {
            let fraction = first_groups(PAGE_FRACTION, option);
            style_of_fraction(&fraction)
        },
    }
}

} // verus!
