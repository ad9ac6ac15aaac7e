use vstd::prelude::*;
use crate::text::{to_chars, from_chars};

verus! {

/// What `regex::Regex::replace_all` gives for a pattern, a text and a
/// replacement (with `$n` group references); nothing when the pattern does
/// not compile.
pub uninterp spec fn regex_replaced(pattern: Seq<char>, text: Seq<char>, replacement: Seq<char>) -> Option<Seq<char>>;

/// `regex::Regex::new` then `Regex::replace_all`; `None` when the pattern
/// does not compile.
#[verifier::external_body]
fn regex_replace_all(pattern: &str, text: &str, replacement: &str) -> (r: Option<String>)
    ensures
        r matches Some(s) ==> regex_replaced(pattern@, text@, replacement@) == Some(s@),
        r is None ==> regex_replaced(pattern@, text@, replacement@) is None,
{
    match regex::Regex::new(pattern) {
        Ok(re) => Some(re.replace_all(text, replacement).to_string()),
        Err(_) => None,
    }
}

/// The text after the replacement, or the text itself when the pattern does
/// not compile.
pub open spec fn replaced_or_kept(pattern: Seq<char>, text: Seq<char>, replacement: Seq<char>) -> Seq<char> {
    match regex_replaced(pattern, text, replacement) {
        Some(s) => s,
        None => text,
    }
}

/// Replaces every match of `pattern` in `text`.
pub fn replace_matches(pattern: &str, text: &str, replacement: &str) -> (r: String)
    ensures
        r@ == replaced_or_kept(pattern@, text@, replacement@),
{
    match regex_replace_all(pattern, text, replacement) {
        Some(s) => s,
        None => {
            let v = to_chars(text);
            from_chars(v.as_slice())
        },
    }
}

} // verus!
