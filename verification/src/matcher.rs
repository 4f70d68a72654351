//! Compiled pattern matchers. The regex engine itself is an outside
//! collaborator: what a pattern matches is named, not restated, and every
//! call into the engine goes through a trusted wrapper that ties its result
//! to the pattern string the matcher was compiled from.

use vstd::prelude::*;
use vstd::string::*;

verus! {

#[verifier::external_type_specification]
#[verifier::external_body]
pub struct ExRegex(regex::Regex);

/// Whether `regex::Regex::new` accepts the pattern `pat`.
pub uninterp spec fn re_valid(pat: Seq<char>) -> bool;

/// What `regex::Regex::is_match` returns for the pattern `pat` on the
/// haystack `hay`.
pub uninterp spec fn re_match(pat: Seq<char>, hay: Seq<char>) -> bool;

/// The text of capture group 1 of the first match of `pat` in `hay`:
/// `None` when the pattern does not match or group 1 took no part in the
/// match (after `regex::Regex::captures` and `regex::Captures::get`).
pub uninterp spec fn re_capture1(pat: Seq<char>, hay: Seq<char>) -> Option<Seq<char>>;

/// `hay` with every non-overlapping match of `pat` deleted (what
/// `regex::Regex::replace_all` returns for the empty replacement).
pub uninterp spec fn re_delete_all(pat: Seq<char>, hay: Seq<char>) -> Seq<char>;

/// A regex compiled from a pattern string. The `regex` field is always the
/// result of `regex::Regex::new` on `pattern`: the only constructor is
/// `Matcher::new`.
pub struct Matcher {
    pattern: String,
    regex: regex::Regex,
}

impl View for Matcher {
    type V = Seq<char>;

    closed spec fn view(&self) -> Seq<char> {
        self.pattern@
    }
}

impl Matcher {
    /// Relies on `regex::Regex::new`: compiles `pat`, failing exactly on the
    /// patterns the engine rejects.
    #[verifier::external_body]
    pub(crate) fn new(pat: &str) -> (r: Option<Matcher>)
        ensures
            r is Some <==> re_valid(pat@),
            r is Some ==> r->0@ == pat@,
    {
        match regex::Regex::new(pat) {
            Ok(regex) => Some(Matcher { pattern: pat.to_string(), regex }),
            Err(_) => None,
        }
    }

    /// Relies on `regex::Regex::is_match`.
    #[verifier::external_body]
    pub(crate) fn is_match(&self, hay: &str) -> (r: bool)
        ensures
            r == re_match(self@, hay@),
    {
        self.regex.is_match(hay)
    }

    /// Relies on `regex::Regex::captures` and `regex::Captures::get`: the
    /// text of capture group 1 of the first match, if the pattern matches
    /// and the group took part.
    #[verifier::external_body]
    pub(crate) fn capture1(&self, hay: &str) -> (r: Option<String>)
        ensures
            r is Some <==> re_capture1(self@, hay@) is Some,
            r is Some ==> r->0@ == re_capture1(self@, hay@)->0,
    {
        match self.regex.captures(hay) {
            Some(caps) => caps.get(1).map(|m| m.as_str().to_string()),
            None => None,
        }
    }

    /// Relies on `regex::Regex::replace_all` with an empty replacement:
    /// deletes every non-overlapping match.
    #[verifier::external_body]
    pub(crate) fn delete_all(&self, hay: &str) -> (r: String)
        ensures
            r@ == re_delete_all(self@, hay@),
    {
        self.regex.replace_all(hay, "").into_owned()
    }
}

/// The pattern strings of a sequence of matchers.
pub open spec fn matchers_view(ms: Seq<Matcher>) -> Seq<Seq<char>> {
    ms.map_values(|m: Matcher| m@)
}

/// The pattern strings of a sequence of borrowed matchers.
pub open spec fn matcher_refs_view(ms: Seq<&Matcher>) -> Seq<Seq<char>> {
    ms.map_values(|m: &Matcher| m@)
}

/// The pattern that matches a whole parameter name against `rule`, ignoring
/// case: `^(?i:` + `rule` + `)$`.
pub open spec fn anchored_ci(rule: Seq<char>) -> Seq<char> {
    "^(?i:"@ + rule + ")$"@
}

/// Builds the anchored, case-insensitive form of a parameter-name rule.
pub(crate) fn anchor_ci(rule: &str) -> (r: String)
    ensures
        r@ == anchored_ci(rule@),
{
    let mut s = String::from_str("^(?i:");
    s.append(rule);
    s.append(")$");
    s
}

} // verus!
