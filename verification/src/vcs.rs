//! The always-on version-control filter: a path is skipped when it holds
//! a `.git` component, either followed by a separator or at the end of
//! the path.

use vstd::prelude::*;

verus! {

/// The four characters of the version-control marker, `.git`.
pub open spec fn git_marker() -> Seq<char> {
    seq!['.', 'g', 'i', 't']
}

/// `s` holds `.git` followed by a separator or standing at the end:
/// exactly the strings the pattern `\.git(/|$)` matches somewhere.
pub open spec fn is_git_path(s: Seq<char>) -> bool {
    exists|i: int|
        0 <= i && i + 4 <= s.len() && #[trigger] s.subrange(i, i + 4) == git_marker() && (i + 4
            == s.len() || s[i + 4] == '/')
}

/// Relies on regex::Regex::new and regex::Regex::is_match: the fixed
/// pattern `\.git(/|$)` is valid, so `new` cannot fail, and `is_match`
/// returns whether the literal `.git`, followed by `/` or by the end of
/// the haystack, occurs anywhere in `s`. The pattern is pure ASCII, so
/// byte positions of matches coincide with character positions.
#[verifier::external_body]
pub(crate) fn git_pattern_match(s: &str) -> (r: bool)
    ensures
        r == is_git_path(s@),
{
    let re = regex::Regex::new(r"\.git(/|$)").unwrap();
    re.is_match(s)
}

} // verus!
