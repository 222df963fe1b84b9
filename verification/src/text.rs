//! Small helpers that build strings, with the text they give.
use vstd::prelude::*;
use vstd::string::StringExecFns;
use crate::views::Text;

verus! {

/// `a` and `b` joined by an underscore.
pub open spec fn joined(a: Text, b: Text) -> Text {
    a + "_"@ + b
}

/// `a`, an underscore, then `b`.
pub fn join_underscore(a: &str, b: &str) -> (r: String)
    ensures
        r@ == joined(a@, b@),
{
    let mut s = String::from_str(a);
    s.append("_");
    s.append(b);
    s
}

/// `a` followed by `b`.
pub fn concat(a: &str, b: &str) -> (r: String)
    ensures
        r@ == a@ + b@,
{
    let mut s = String::from_str(a);
    s.append(b);
    s
}

/// `true` when `s` ends with `suffix`.
pub open spec fn ends_with(s: Text, suffix: Text) -> bool {
    s.len() >= suffix.len() && s.subrange(s.len() - suffix.len(), s.len() as int) == suffix
}

/// `s` without `suffix` at its end.
pub open spec fn without_suffix(s: Text, suffix: Text) -> Text
    recommends
        ends_with(s, suffix),
{
    s.subrange(0, s.len() - suffix.len())
}

/// `s` without `suffix` at its end, if `s` ends with it.
pub fn strip_suffix(s: &str, suffix: &str) -> (r: Option<String>)
    ensures
        r is Some == ends_with(s@, suffix@),
        r matches Some(head) ==> head@ == without_suffix(s@, suffix@),
{
    let n = s.unicode_len();
    let k = suffix.unicode_len();
    if n < k {
        return None;
    }
    let tail = String::from_str(s.substring_char(n - k, n));
    let wanted = String::from_str(suffix);
    if tail == wanted {
        Some(String::from_str(s.substring_char(0, n - k)))
    } else {
        None
    }
}

} // verus!
