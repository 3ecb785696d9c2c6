//! Regular expressions, through the `regex` crate.

use vstd::prelude::*;

verus! {

#[verifier::external_type_specification]
#[verifier::external_body]
pub struct ExRegex(regex::Regex);

/// Whether `regex::Regex::new` accepts `pattern`.
pub uninterp spec fn regex_compiles(pattern: Seq<char>) -> bool;

/// Whether the regular expression `pattern` matches somewhere in `haystack`
/// (`regex::Regex::is_match`).
pub uninterp spec fn regex_is_match(pattern: Seq<char>, haystack: Seq<char>) -> bool;

/// The text of capture group 1 in the leftmost-first match of `pattern` in
/// `haystack`, where there is such a match and the group took part in it
/// (`regex::Regex::captures`).
pub uninterp spec fn regex_group_one(pattern: Seq<char>, haystack: Seq<char>) -> Option<
    Seq<char>,
>;

/// Whether `pattern` compiles and matches somewhere in `s`.
pub open spec fn pattern_matches(pattern: Seq<char>, s: Seq<char>) -> bool {
    regex_compiles(pattern) && regex_is_match(pattern, s)
}

/// Capture group 1 of `pattern`'s first match in `s`, where `pattern` compiles.
pub open spec fn pattern_group(pattern: Seq<char>, s: Seq<char>) -> Option<Seq<char>> {
    if regex_compiles(pattern) {
        regex_group_one(pattern, s)
    } else {
        None
    }
}

/// A compiled regular expression together with the pattern it was compiled from.
pub struct Pattern {
    re: regex::Regex,
    source: String,
}

impl View for Pattern {
    type V = Seq<char>;

    closed spec fn view(&self) -> Seq<char> {
        self.source@
    }
}

/// Compiles `pattern` with `regex::Regex::new`; nothing where it is refused.
#[verifier::external_body]
fn compile(pattern: &str) -> (r: Option<Pattern>)
    ensures
        r is Some <==> regex_compiles(pattern@),
        r matches Some(p) ==> p@ == pattern@,
{
    match regex::Regex::new(pattern) {
        Ok(re) => Some(Pattern { re, source: pattern.to_string() }),
        Err(_) => None,
    }
}

/// `regex::Regex::is_match`: whether the pattern matches somewhere in `haystack`.
#[verifier::external_body]
fn is_match(p: &Pattern, haystack: &str) -> (r: bool)
    ensures
        r == regex_is_match(p@, haystack@),
{
    p.re.is_match(haystack)
}

/// `regex::Regex::captures`, its result turned into the text of group 1 of the match.
#[verifier::external_body]
fn group_one(p: &Pattern, haystack: &str) -> (r: Option<String>)
    ensures
        match r {
            Some(g) => regex_group_one(p@, haystack@) == Some(g@),
            None => regex_group_one(p@, haystack@) is None,
        },
{
    match p.re.captures(haystack) {
        Some(caps) => match caps.get(1) {
            Some(m) => Some(m.as_str().to_string()),
            None => None,
        },
        None => None,
    }
}

/// Whether `pattern` compiles and matches somewhere in `s`.
pub fn matches_pattern(pattern: &str, s: &str) -> (r: bool)
    ensures
        r == pattern_matches(pattern@, s@),
{
    match compile(pattern) {
        Some(p) => is_match(&p, s),
        None => false,
    }
}

/// Capture group 1 of the first match of `pattern` in `s`.
pub fn first_group(pattern: &str, s: &str) -> (r: Option<String>)
    ensures
        match r {
            Some(g) => pattern_group(pattern@, s@) == Some(g@),
            None => pattern_group(pattern@, s@) is None,
        },
{
    match compile(pattern) {
        Some(p) => group_one(&p, s),
        None => None,
    }
}

} // verus!
