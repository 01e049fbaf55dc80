//! The language-switch policy: one shared decision function that every
//! provider adapter uses, before or after its call.

use vstd::prelude::*;

verus! {

/// What `str::to_lowercase` returns for a given character sequence; the
/// result depends on the characters alone.
pub uninterp spec fn lower_of(s: Seq<char>) -> Seq<char>;

/// Relies on `str::to_lowercase`: returns the lowercase equivalent of the
/// string; the result depends on the characters alone, and an empty string
/// stays empty.
#[verifier::external_body]
pub(crate) fn to_lowercase(s: &str) -> (r: String)
    ensures
        r@ == lower_of(s@),
        s@.len() == 0 ==> r@.len() == 0,
{
    s.to_lowercase()
}

/// Case-insensitive equality of two language names, as the switch policy
/// compares them.
pub open spec fn same_language(a: Seq<char>, b: Seq<char>) -> bool {
    lower_of(a) == lower_of(b)
}

/// Decides the effective target language: when the detected language equals
/// the primary target case-insensitively, translation goes to the alternative
/// target; otherwise it goes to the primary target.
pub fn effective_target(detected: &str, primary: &str, alternative: &str) -> (r: String)
    ensures
        same_language(detected@, primary@) ==> r@ == alternative@,
        !same_language(detected@, primary@) ==> r@ == primary@,
{
    let d = to_lowercase(detected);
    let p = to_lowercase(primary);
    if d == p {
        alternative.to_owned()
    } else {
        primary.to_owned()
    }
}

} // verus!
