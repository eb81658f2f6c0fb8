//! Regular expressions, matched by the `regex` crate.

use vstd::prelude::*;

verus! {

/// The leftmost match of the regular expression `pattern` in `text`: the
/// position of its first character and the position after its last one.
/// `None` where `text` holds no match or `pattern` is not a regular expression.
pub uninterp spec fn leftmost_match(pattern: Seq<char>, text: Seq<char>) -> Option<(int, int)>;

/// The capture groups of the leftmost match of `pattern` in `text`, group 0
/// first: for each group the characters it matched, or `None` where it took
/// no part in the match. `None` where `text` holds no match or `pattern` is
/// not a regular expression.
pub uninterp spec fn leftmost_groups(pattern: Seq<char>, text: Seq<char>) -> Option<
    Seq<Option<Seq<char>>>,
>;

/// What group 1 matched in each of the successive matches of `pattern` in
/// `text`, from left to right and without overlap; `None` for a match in
/// which the group took no part. Empty where `pattern` is not a regular
/// expression.
pub uninterp spec fn each_first_group(pattern: Seq<char>, text: Seq<char>) -> Seq<
    Option<Seq<char>>,
>;

/// A span as a pair of mathematical positions.
pub open spec fn span(r: Option<(usize, usize)>) -> Option<(int, int)> {
    match r {
        Some(m) => Some((m.0 as int, m.1 as int)),
        None => None,
    }
}

/// `Regex::new` followed by `Regex::find`: the leftmost match, with the
/// positions that `Match::start` and `Match::end` give turned from bytes into
/// characters. The result is named, not spelled out; it lies within `text`.
#[verifier::external_body]
pub(crate) fn first_match(pattern: &str, text: &[char]) -> (r: Option<(usize, usize)>)
    ensures
        span(r) == leftmost_match(pattern@, text@),
        r matches Some(m) ==> m.0 <= m.1 <= text@.len(),
{
    let hay: String = text.iter().collect();
    let re = regex::Regex::new(pattern).ok()?;
    let m = re.find(&hay)?;
    Some((hay[..m.start()].chars().count(), hay[..m.end()].chars().count()))
}

/// A capture group as a sequence of characters.
pub open spec fn group_view(group: Option<Vec<char>>) -> Option<Seq<char>> {
    match group {
        Some(v) => Some(v@),
        None => None,
    }
}

/// Capture groups as sequences of characters.
pub open spec fn groups_view(groups: Seq<Option<Vec<char>>>) -> Seq<Option<Seq<char>>> {
    groups.map_values(|g: Option<Vec<char>>| group_view(g))
}

/// The capture groups of a match, if there is one, as sequences of characters.
pub open spec fn match_view(groups: Option<Vec<Option<Vec<char>>>>) -> Option<
    Seq<Option<Seq<char>>>,
> {
    match groups {
        Some(v) => Some(groups_view(v@)),
        None => None,
    }
}

/// `Regex::new` followed by `Regex::captures`: the capture groups of the
/// leftmost match, each as the characters it matched. The result is named,
/// not spelled out.
#[verifier::external_body]
pub(crate) fn first_groups(pattern: &str, text: &[char]) -> (r: Option<Vec<Option<Vec<char>>>>)
    ensures
        match_view(r) == leftmost_groups(pattern@, text@),
{
    let hay: String = text.iter().collect();
    let re = regex::Regex::new(pattern).ok()?;
    let caps = re.captures(&hay)?;
    Some(caps.iter().map(|g| g.map(|m| m.as_str().chars().collect())).collect())
}

/// `Regex::new` followed by `Regex::captures_iter`: group 1 of every match,
/// as the characters it matched. The result is named, not spelled out.
#[verifier::external_body]
pub(crate) fn all_first_groups(pattern: &str, text: &[char]) -> (r: Vec<Option<Vec<char>>>)
    ensures
        groups_view(r@) == each_first_group(pattern@, text@),
{
    let hay: String = text.iter().collect();
    match regex::Regex::new(pattern) {
        Ok(re) => re.captures_iter(&hay).map(
            |c| c.get(1).map(|m| m.as_str().chars().collect()),
        ).collect(),
        Err(_) => Vec::new(),
    }
}

/// The leftmost match of `pattern` in `text`, where it lies within `text`.
pub open spec fn spec_find_match(pattern: Seq<char>, text: Seq<char>) -> Option<(int, int)> {
    match leftmost_match(pattern, text) {
        Some(m) => if 0 <= m.0 <= m.1 <= text.len() {
            Some(m)
        } else {
            None
        },
        None => None,
    }
}

/// The leftmost match of the regular expression `pattern` in `text`.
pub fn find_match(pattern: &str, text: &[char]) -> (r: Option<(usize, usize)>)
    ensures
        span(r) == spec_find_match(pattern@, text@),
        r matches Some(m) ==> m.0 <= m.1 <= text@.len() <= usize::MAX,
{
    let _length = text.len();
    first_match(pattern, text)
}

} // verus!
