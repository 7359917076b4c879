//! Regular expressions, through the `regex` crate.

use vstd::prelude::*;

verus! {

/// Whether `regex` accepts `pattern` as a regular expression.
pub uninterp spec fn regex_compiles(pattern: Seq<char>) -> bool;

/// Whether the regular expression `pattern` matches somewhere in `hay`.
pub uninterp spec fn regex_found(pattern: Seq<char>, hay: Seq<char>) -> bool;

/// The successive non-overlapping matches of the regular expression
/// `pattern` in `hay`: each one's first character index, its length in
/// characters and its text.
pub uninterp spec fn regex_match_list(pattern: Seq<char>, hay: Seq<char>) -> Seq<(nat, nat, Seq<char>)>;

/// Relies on regex::Regex::new and regex::Regex::is_match: the pattern is
/// compiled (it fails exactly on patterns the crate does not accept, which
/// depends on the pattern alone), then matched against `hay`.
#[verifier::external_body]
pub(crate) fn pattern_is_match(pattern: &str, hay: &str) -> (r: Result<bool, regex::Error>)
    ensures
        r is Ok <==> regex_compiles(pattern@),
        r matches Ok(b) ==> b == regex_found(pattern@, hay@),
{
    regex::Regex::new(pattern).map(|re| re.is_match(hay))
}

/// Relies on regex::Regex::new and regex::Regex::find_iter: the pattern is
/// compiled (as above), then its successive non-overlapping matches in `hay`
/// are listed, each with its byte offset and byte length turned into a
/// character index and a character count, and its text.
#[verifier::external_body]
pub(crate) fn pattern_find_all(pattern: &str, hay: &str) -> (r: Result<Vec<(usize, usize, String)>, regex::Error>)
    ensures
        r is Ok <==> regex_compiles(pattern@),
        r matches Ok(v) ==> v@.len() == regex_match_list(pattern@, hay@).len() && forall|i: int|
            0 <= i < v@.len() ==> {
                let m = #[trigger] regex_match_list(pattern@, hay@)[i];
                &&& v@[i].0 as nat == m.0
                &&& v@[i].1 as nat == m.1
                &&& v@[i].2@ == m.2
                &&& v@[i].0 + v@[i].1 <= hay@.len()
            },
{
    regex::Regex::new(pattern).map(|re| {
        re.find_iter(hay)
            .map(|m| (hay[..m.start()].chars().count(), m.as_str().chars().count(), m.as_str().to_string()))
            .collect()
    })
}

} // verus!
