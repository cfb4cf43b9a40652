//! Regular expressions, as the `regex` crate reads and applies them. The
//! library hands a pattern over as text each time; what the crate answers
//! is known to the proofs by name only.

use vstd::prelude::*;
use vstd::string::*;

verus! {

/// Whether `regex::Regex::new` accepts the pattern.
pub uninterp spec fn regex_compiles(pattern: Seq<char>) -> bool;

/// Whether the regular expression made of the pattern by `regex::Regex::new`
/// has a match anywhere in the text, as `regex::Regex::is_match` reports it.
pub uninterp spec fn regex_matches(pattern: Seq<char>, text: Seq<char>) -> bool;

/// The text that `regex::Regex::replace` returns for the regular expression
/// made of the pattern by `regex::Regex::new`, the text and the replacement.
pub uninterp spec fn regex_replaced(
    pattern: Seq<char>,
    text: Seq<char>,
    replacement: Seq<char>,
) -> Seq<char>;

/// Compiles the pattern with `regex::Regex::new` and asks
/// `regex::Regex::is_match` whether it matches anywhere in the text. The
/// answer is `None` exactly where the pattern does not compile; otherwise it
/// is what `is_match` returned. Both depend on the pattern and the text
/// alone, which is all the contract claims.
#[verifier::external_body]
pub(crate) fn is_match(pattern: &str, text: &str) -> (r: Option<bool>)
    ensures
        r == if regex_compiles(pattern@) {
            Some(regex_matches(pattern@, text@))
        } else {
            None::<bool>
        },
{
    match regex::Regex::new(pattern) {
        Ok(re) => Some(re.is_match(text)),
        Err(_) => None,
    }
}

/// Compiles the pattern with `regex::Regex::new` and has
/// `regex::Regex::replace` replace the leftmost match in the text; in the
/// replacement `${n}` stands for a capture group and `$$` for a dollar sign.
/// The answer is `None` exactly where the pattern does not compile;
/// otherwise it is the text that `replace` returned.
#[verifier::external_body]
pub(crate) fn replace(pattern: &str, text: &str, replacement: &str) -> (r: Option<String>)
    ensures
        match r {
            Some(s) => regex_compiles(pattern@) && s@ == regex_replaced(
                pattern@,
                text@,
                replacement@,
            ),
            None => !regex_compiles(pattern@),
        },
{
    match regex::Regex::new(pattern) {
        Ok(re) => Some(re.replace(text, replacement).into_owned()),
        Err(_) => None,
    }
}

/// Whether the pattern is a regular expression at all.
pub fn is_valid(pattern: &str) -> (b: bool)
    ensures
        b == regex_compiles(pattern@),
{
    is_match(pattern, "").is_some()
}

} // verus!
