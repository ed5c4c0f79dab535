//! Pattern compilation and matching.
//!
//! A pattern is a regular-expression string; whether a line matches one is
//! answered by the `regex` crate. The verifier sees that crate's work only
//! through the named spec functions below: what a compiled matcher holds,
//! whether a pattern string compiles, and whether a pattern matches a line.

use vstd::prelude::*;

verus! {

/// Whether the pattern string compiles to a matcher. `regex::Regex::new`
/// either always succeeds or always fails on a given pattern string.
pub uninterp spec fn regex_accepts(pat: Seq<char>) -> bool;

/// The pattern string a compiled matcher was built from.
pub uninterp spec fn regex_pattern(re: regex::Regex) -> Seq<char>;

/// Whether the given pattern matches the given line, as the `regex` crate
/// answers it; the answer depends on the two strings alone.
pub uninterp spec fn regex_match(pat: Seq<char>, text: Seq<char>) -> bool;

#[verifier::external_type_specification]
#[verifier::external_body]
pub struct ExRegex(regex::Regex);

#[verifier::external_type_specification]
#[verifier::external_body]
pub struct ExRegexError(regex::Error);

/// Relies on `regex::Regex::new`: compilation of a pattern string is
/// deterministic, and a successful compilation yields a matcher for exactly
/// that pattern.
#[verifier::external_body]
fn compile_regex(pat: &str) -> (r: Result<regex::Regex, regex::Error>)
    ensures
        r is Ok <==> regex_accepts(pat@),
        r matches Ok(re) ==> regex_pattern(re) == pat@,
{
    regex::Regex::new(pat)
}

/// Relies on `regex::Regex::is_match`: the answer depends only on the
/// pattern the matcher was compiled from and on the line searched.
#[verifier::external_body]
fn regex_is_match(re: &regex::Regex, line: &str) -> (r: bool)
    ensures
        r == regex_match(regex_pattern(*re), line@),
{
    re.is_match(line)
}

/// The pattern strings of a sequence of compiled matchers, in order.
pub open spec fn patterns_of(regexes: Seq<regex::Regex>) -> Seq<Seq<char>> {
    regexes.map_values(|re: regex::Regex| regex_pattern(re))
}

/// The views of a sequence of strings, in order.
pub open spec fn views_of(strs: Seq<String>) -> Seq<Seq<char>> {
    strs.map_values(|s: String| s@)
}

/// Every pattern in the sequence compiles.
pub open spec fn all_accepted(pats: Seq<Seq<char>>) -> bool {
    forall|i: int| 0 <= i < pats.len() ==> regex_accepts(pats[i])
}

/// A pattern string that does not compile, together with its position in
/// the supplied pattern list.
#[derive(Debug, Clone)]
pub struct PatternError {
    pub index: usize,
    pub pattern: String,
}

/// Compile every pattern of the set, in the order supplied. All patterns
/// compile exactly when every pattern string is accepted; otherwise the
/// first failing pattern, in supplied order, is reported.
pub fn compile_patterns(pats: &Vec<String>) -> (r: Result<Vec<regex::Regex>, PatternError>)
    ensures
        r is Ok <==> all_accepted(views_of(pats@)),
        r matches Ok(res) ==> {
            &&& res@.len() == pats@.len()
            &&& forall|i: int| 0 <= i < res@.len() ==> regex_pattern(res@[i]) == pats@[i]@
        },
        r matches Err(e) ==> {
            &&& e.index < pats@.len()
            &&& !regex_accepts(pats@[e.index as int]@)
            &&& forall|i: int| 0 <= i < e.index ==> regex_accepts(pats@[i]@)
            &&& e.pattern@ == pats@[e.index as int]@
        },
{
    let mut res: Vec<regex::Regex> = Vec::new();
    let mut i: usize = 0;
    while i < pats.len()
        invariant
            i <= pats@.len(),
            res@.len() == i,
            forall|j: int| 0 <= j < i ==> regex_accepts(pats@[j]@),
            forall|j: int| 0 <= j < i ==> regex_pattern(res@[j]) == pats@[j]@,
        decreases pats@.len() - i,
    {
        match compile_regex(pats[i].as_str()) {
            Ok(re) => {
                res.push(re);
            },
            Err(_) => {
                assert(!regex_accepts(views_of(pats@)[i as int]));
                return Err(PatternError { index: i, pattern: pats[i].clone() });
            },
        }
        i += 1;
    }
    assert(forall|j: int| 0 <= j < pats@.len() ==> regex_accepts(#[trigger] views_of(pats@)[j]));
    Ok(res)
}

/// Does the line match at least one pattern of the set (logical OR)?
pub open spec fn line_matches(patterns: Seq<Seq<char>>, line: Seq<char>) -> bool {
    exists|i: int| 0 <= i < patterns.len() && regex_match(patterns[i], line)
}

/// Try the patterns in order, stopping at the first that matches; with an
/// empty pattern set no line ever matches.
pub fn is_match_any(line: &str, regexps: &Vec<regex::Regex>) -> (r: bool)
    ensures
        r == line_matches(patterns_of(regexps@), line@),
{
    let mut i: usize = 0;
    while i < regexps.len()
        invariant
            i <= regexps@.len(),
            forall|j: int| 0 <= j < i ==> !regex_match(regex_pattern(regexps@[j]), line@),
        decreases regexps@.len() - i,
    {
        if regex_is_match(&regexps[i], line) {
            assert(regex_match(patterns_of(regexps@)[i as int], line@));
            return true;
        }
        i += 1;
    }
    false
}

} // verus!
