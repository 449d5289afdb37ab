//! Regular expressions, as the line rules use them. A pattern is kept as
//! text; what the `regex` crate makes of it is named here and believed.

use vstd::prelude::*;

verus! {

/// Whether `regex::Regex::new` accepts `pattern`.
pub uninterp spec fn regex_compiles(pattern: Seq<char>) -> bool;

/// Whether the regular expression `pattern` has a match somewhere in
/// `haystack`: what `regex::Regex::is_match` returns.
pub uninterp spec fn regex_is_match(pattern: Seq<char>, haystack: Seq<char>) -> bool;

/// What `regex::Regex::captures` finds of the first group: `None` where
/// `pattern` has no match in `haystack`; else, for the leftmost match, the
/// text that the first capture group matched, or `None` where the pattern
/// has no such group or the group took no part in the match.
pub uninterp spec fn regex_first_group(pattern: Seq<char>, haystack: Seq<char>) -> Option<
    Option<Seq<char>>,
>;

/// What `regex::Regex::replace` returns: `haystack` with the leftmost match
/// of `pattern` replaced by `replacement`, in which `$name` and `${name}`
/// stand for capture groups.
pub uninterp spec fn regex_replace(
    pattern: Seq<char>,
    haystack: Seq<char>,
    replacement: Seq<char>,
) -> Seq<char>;

/// What `regex::escape` returns: `text` with every character that has a
/// meaning in a regular expression escaped.
pub uninterp spec fn regex_escape(text: Seq<char>) -> Seq<char>;

/// Calls `regex::Regex::new` and says whether it accepted the pattern.
#[verifier::external_body]
pub(crate) fn compiles(pattern: &str) -> (accepted: bool)
    ensures
        accepted == regex_compiles(pattern@),
{
    regex::Regex::new(pattern).is_ok()
}

/// Calls `regex::Regex::is_match` on the regular expression compiled from
/// `pattern`: the result is a function of the pattern and the haystack.
#[verifier::external_body]
pub(crate) fn is_match(pattern: &str, haystack: &str) -> (found: bool)
    requires
        regex_compiles(pattern@),
    ensures
        found == regex_is_match(pattern@, haystack@),
{
    match regex::Regex::new(pattern) {
        Ok(re) => re.is_match(haystack),
        Err(_) => false,
    }
}

/// Calls `regex::Regex::captures` on the regular expression compiled from
/// `pattern` and hands out the text of the first group with
/// `regex::Captures::get`: the result is a function of the pattern and the
/// haystack.
#[verifier::external_body]
pub(crate) fn first_group(pattern: &str, haystack: &str) -> (found: Option<Option<String>>)
    requires
        regex_compiles(pattern@),
    ensures
        found is Some <==> regex_first_group(pattern@, haystack@) is Some,
        found matches Some(group) ==> (group is Some <==> regex_first_group(
            pattern@,
            haystack@,
        )->0 is Some),
        found matches Some(Some(text)) ==> text@ == regex_first_group(pattern@, haystack@)->0->0,
{
    match regex::Regex::new(pattern) {
        Ok(re) => match re.captures(haystack) {
            Some(caps) => match caps.get(1) {
                Some(group) => Some(Some(String::from(group.as_str()))),
                None => Some(None),
            },
            None => None,
        },
        Err(_) => None,
    }
}

/// Calls `regex::Regex::replace` on the regular expression compiled from
/// `pattern`, with `replacement` as the replacement string: the result is a
/// function of the three texts.
#[verifier::external_body]
pub(crate) fn replace(pattern: &str, haystack: &str, replacement: &str) -> (replaced: String)
    requires
        regex_compiles(pattern@),
    ensures
        replaced@ == regex_replace(pattern@, haystack@, replacement@),
{
    match regex::Regex::new(pattern) {
        Ok(re) => re.replace(haystack, replacement).into_owned(),
        Err(_) => String::from(haystack),
    }
}

/// Calls `regex::escape`.
#[verifier::external_body]
pub(crate) fn escape(text: &str) -> (escaped: String)
    ensures
        escaped@ == regex_escape(text@),
{
    regex::escape(text)
}

/// Calls `str::strip_prefix` of std with a string as the prefix: where
/// `line` starts with `prefix` the result is the rest of `line`, and `None`
/// where it does not.
#[verifier::external_body]
pub(crate) fn strip_prefix<'a>(line: &'a str, prefix: &str) -> (rest: Option<&'a str>)
    ensures
        rest matches Some(tail) ==> line@ == prefix@ + tail@,
        rest is None ==> !prefix@.is_prefix_of(line@),
{
    line.strip_prefix(prefix)
}

} // verus!
