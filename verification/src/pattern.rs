//! Pattern matching by the `regex` crate, and what this library takes on
//! trust about it.

use vstd::prelude::*;

verus! {

#[verifier::external_type_specification]
#[verifier::external_body]
pub struct ExRegex(regex::Regex);

#[verifier::external_type_specification]
#[verifier::external_body]
pub struct ExError(regex::Error);

/// Whether `regex` accepts the pattern.
pub uninterp spec fn regex_compiles(pattern: Seq<char>) -> bool;

/// The pattern that a compiled expression was made from.
pub uninterp spec fn regex_source(re: regex::Regex) -> Seq<char>;

/// What the capture group `index` holds at the first match of the
/// pattern in the text, if there is a match and the group took part.
pub uninterp spec fn regex_group(pattern: Seq<char>, text: Seq<char>, index: nat) -> Option<
    Seq<char>,
>;

/// The text with the first match of the pattern replaced.
pub uninterp spec fn regex_replaced(pattern: Seq<char>, text: Seq<char>, with: Seq<char>) -> Seq<
    char,
>;

/// `Regex::new`. Trusted: it succeeds exactly on the patterns that the
/// crate accepts, and the expression remembers its pattern.
#[verifier::external_body]
pub(crate) fn compile(pattern: &str) -> (r: Result<regex::Regex, regex::Error>)
    ensures
        match r {
            Ok(re) => regex_compiles(pattern@) && regex_source(re) == pattern@,
            Err(_) => !regex_compiles(pattern@),
        },
{
    regex::Regex::new(pattern)
}

/// `Regex::captures`, then `Captures::get` and `Match::as_str`. Trusted:
/// the result depends on the pattern, the text and the index alone; what
/// it is stays unstated.
#[verifier::external_body]
pub(crate) fn group(re: &regex::Regex, text: &str, index: usize) -> (r: Option<String>)
    ensures
        match r {
            Some(s) => regex_group(regex_source(*re), text@, index as nat) == Some(s@),
            None => regex_group(regex_source(*re), text@, index as nat) is None,
        },
{
    re.captures(text).and_then(|c| c.get(index)).map(|m| String::from(m.as_str()))
}

/// `Regex::replace`. Trusted: the result depends on the pattern, the text
/// and the replacement alone; what it is stays unstated.
#[verifier::external_body]
pub(crate) fn replace(re: &regex::Regex, text: &str, with: &str) -> (r: String)
    ensures
        r@ == regex_replaced(regex_source(*re), text@, with@),
{
    re.replace(text, with).into_owned()
}

} // verus!
