use vstd::prelude::*;

verus! {

/// The views of a list of strings.
pub open spec fn strings_view(v: Seq<String>) -> Seq<Seq<char>> {
    v.map_values(|s: String| s@)
}

/// The view of one optional capture group.
pub open spec fn opt_string_view(o: Option<String>) -> Option<Seq<char>> {
    match o {
        Some(s) => Some(s@),
        None => None,
    }
}

/// The views of the capture groups of one match, group 0 first.
pub open spec fn captures_view(v: Seq<Option<String>>) -> Seq<Option<Seq<char>>> {
    v.map_values(|o: Option<String>| opt_string_view(o))
}

/// The index of the first of `patterns` that matches somewhere in `text`, when the patterns are compiled
/// together by `regex::RegexSetBuilder` as case insensitive and with insignificant whitespace.
pub uninterp spec fn regex_set_first_match(patterns: Seq<Seq<char>>, text: Seq<char>) -> Option<nat>;

/// The capture groups of the leftmost-first match of `pattern` in `text`, the pattern compiled by
/// `regex::RegexBuilder` as case insensitive and with insignificant whitespace.
pub uninterp spec fn regex_captures_relaxed(pattern: Seq<char>, text: Seq<char>) -> Option<
    Seq<Option<Seq<char>>>,
>;

/// The capture groups of the leftmost-first match of `pattern` in `text`, the pattern compiled by
/// `regex::Regex::new`.
pub uninterp spec fn regex_captures(pattern: Seq<char>, text: Seq<char>) -> Option<
    Seq<Option<Seq<char>>>,
>;

/// The capture groups of every successive non-overlapping match of `pattern` in `text`, the pattern
/// compiled by `regex::Regex::new`.
pub uninterp spec fn regex_captures_all(pattern: Seq<char>, text: Seq<char>) -> Seq<
    Seq<Option<Seq<char>>>,
>;

/// Compiles `patterns` into one `regex::RegexSet` (case insensitive, insignificant whitespace) and returns
/// the index of the first pattern that matches in `text` (`RegexSet::matches`, its first index).
/// `None` both when nothing matches and when a pattern does not compile.
/// Claimed: the result is `regex_set_first_match` of the arguments, and an index is one of `patterns`.
#[verifier::external_body]
pub(crate) fn first_matching_pattern(patterns: &Vec<String>, text: &str) -> (res: Option<usize>)
    ensures
        res matches Some(i) ==> i < patterns.len() && regex_set_first_match(
            strings_view(patterns@),
            text@,
        ) == Some(i as nat),
        res is None ==> regex_set_first_match(strings_view(patterns@), text@) is None,
{
    let set = regex::RegexSetBuilder::new(patterns).case_insensitive(true).ignore_whitespace(
        true,
    ).build().ok()?;
    set.matches(text).into_iter().next()
}

/// Compiles `pattern` with `regex::RegexBuilder` (case insensitive, insignificant whitespace) and returns
/// the groups of `Regex::captures` on `text`, group 0 first. `None` when there is no match or the pattern
/// does not compile. Claimed: the result is `regex_captures_relaxed` of the arguments.
#[verifier::external_body]
pub(crate) fn captures_relaxed(pattern: &str, text: &str) -> (res: Option<Vec<Option<String>>>)
    ensures
        res matches Some(c) ==> regex_captures_relaxed(pattern@, text@) == Some(captures_view(c@)),
        res is None ==> regex_captures_relaxed(pattern@, text@) is None,
{
    let re = regex::RegexBuilder::new(pattern).case_insensitive(true).ignore_whitespace(
        true,
    ).build().ok()?;
    let caps = re.captures(text)?;
    Some(caps.iter().map(|m| m.map(|m| m.as_str().to_string())).collect())
}

/// Compiles `pattern` with `regex::Regex::new` and returns the groups of `Regex::captures` on `text`,
/// group 0 first. `None` when there is no match or the pattern does not compile.
/// Claimed: the result is `regex_captures` of the arguments.
#[verifier::external_body]
pub(crate) fn captures(pattern: &str, text: &str) -> (res: Option<Vec<Option<String>>>)
    ensures
        res matches Some(c) ==> regex_captures(pattern@, text@) == Some(captures_view(c@)),
        res is None ==> regex_captures(pattern@, text@) is None,
{
    let re = regex::Regex::new(pattern).ok()?;
    let caps = re.captures(text)?;
    Some(caps.iter().map(|m| m.map(|m| m.as_str().to_string())).collect())
}

/// Compiles `pattern` with `regex::Regex::new` and returns the groups of every match of
/// `Regex::captures_iter` on `text`, in order. Empty when the pattern does not compile.
/// Claimed: the result is `regex_captures_all` of the arguments.
#[verifier::external_body]
pub(crate) fn captures_all(pattern: &str, text: &str) -> (res: Vec<Vec<Option<String>>>)
    ensures
        res@.map_values(|c: Vec<Option<String>>| captures_view(c@)) == regex_captures_all(
            pattern@,
            text@,
        ),
{
    match regex::Regex::new(pattern) {
        Ok(re) => re.captures_iter(text).map(
            |caps| caps.iter().map(|m| m.map(|m| m.as_str().to_string())).collect(),
        ).collect(),
        Err(_) => Vec::new(),
    }
}


/// The position, counted in characters, where group `group` ends in each successive non-overlapping match
/// of `pattern` in `text` (`None` for a match in which the group takes no part), the pattern compiled by
/// `regex::Regex::new`; empty when the pattern does not compile.
pub uninterp spec fn regex_group_ends(pattern: Seq<char>, text: Seq<char>, group: nat) -> Seq<Option<nat>>;

/// The view of optional positions.
pub open spec fn positions_view(v: Seq<Option<usize>>) -> Seq<Option<nat>> {
    v.map_values(|e: Option<usize>| match e {
        Some(x) => Some(x as nat),
        None => None,
    })
}

/// Compiles `pattern` with `regex::Regex::new` and returns, for every match of `Regex::captures_iter` on
/// `text` in order, where group `group` ends (`Match::end`, turned from a byte offset into a count of
/// characters), `None` when the group takes no part. Empty when the pattern does not compile.
/// Claimed: the result is `regex_group_ends` of the arguments.
#[verifier::external_body]
pub(crate) fn group_ends(pattern: &str, text: &str, group: usize) -> (res: Vec<Option<usize>>)
    ensures
        positions_view(res@) == regex_group_ends(pattern@, text@, group as nat),
{
    match regex::Regex::new(pattern) {
        Ok(re) => re.captures_iter(text).map(
            |caps| caps.get(group).map(|m| text[..m.end()].chars().count()),
        ).collect(),
        Err(_) => Vec::new(),
    }
}

} // verus!
