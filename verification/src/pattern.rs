//! Regular expressions, through the `regex` crate.

use vstd::prelude::*;

verus! {

/// What compiling the regular expression `pattern` and matching it against
/// `text` gives: whether it matches, or the message of the compile error.
pub uninterp spec fn pattern_matches(pattern: Seq<char>, text: Seq<char>) -> Result<bool, Seq<char>>;

/// `regex::Regex::new` on `pattern`, then `Regex::is_match` on `text`. The
/// contract names the outcome.
#[verifier::external_body]
pub(crate) fn regex_is_match(pattern: &str, text: &str) -> (r: Result<bool, String>)
    ensures
        r is Ok <==> pattern_matches(pattern@, text@) is Ok,
        r matches Ok(b) ==> (pattern_matches(pattern@, text@) matches Ok(c) && c == b),
        r matches Err(m) ==> (pattern_matches(pattern@, text@) matches Err(e) && e == m@),
{
    match regex::Regex::new(pattern) {
        Ok(re) => Ok(re.is_match(text)),
        Err(e) => Err(e.to_string()),
    }
}

/// What compiling the regular expression `pattern` and matching it against
/// `text` gives: the text of the capture group `group` of the first match,
/// nothing when there is no match or the group took no part in it, or the
/// message of the compile error.
pub uninterp spec fn pattern_group(pattern: Seq<char>, text: Seq<char>, group: usize) -> Result<Option<Seq<char>>, Seq<char>>;

/// `regex::Regex::new` on `pattern`, then `Regex::captures` on `text` and the
/// group `group` of the captures. The contract names the outcome.
#[verifier::external_body]
pub(crate) fn regex_group(pattern: &str, text: &str, group: usize) -> (r: Result<Option<String>, String>)
    ensures
        r is Ok <==> pattern_group(pattern@, text@, group) is Ok,
        r matches Ok(None) ==> (pattern_group(pattern@, text@, group) matches Ok(g) && g is None),
        r matches Ok(Some(s)) ==> (pattern_group(pattern@, text@, group) matches Ok(g) && g == Some(s@)),
        r matches Err(m) ==> (pattern_group(pattern@, text@, group) matches Err(e) && e == m@),
{
    match regex::Regex::new(pattern) {
        Ok(re) => match re.captures(text) {
            Some(caps) => match caps.get(group) {
                Some(m) => Ok(Some(m.as_str().to_owned())),
                None => Ok(None),
            },
            None => Ok(None),
        },
        Err(e) => Err(e.to_string()),
    }
}

} // verus!
