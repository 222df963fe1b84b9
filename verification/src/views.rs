//! Helpers that lift the view of an element type to sequences and options.
use vstd::prelude::*;

verus! {

/// Text as contracts see it: the characters of a `String`.
pub type Text = Seq<char>;

/// The element-wise view of a sequence.
pub open spec fn seq_view<T: View>(s: Seq<T>) -> Seq<T::V> {
    Seq::new(s.len(), |i: int| s[i]@)
}

/// The view of the value inside an option.
pub open spec fn opt_view<T: View>(o: Option<T>) -> Option<T::V> {
    match o {
        Some(t) => Some(t@),
        None => None,
    }
}

/// `true` when no two positions of `s` hold the same value.
pub open spec fn distinct<T>(s: Seq<T>) -> bool {
    forall|i: int, j: int| 0 <= i < j < s.len() ==> s[i] != s[j]
}

/// Clones an optional string.
pub fn clone_opt_string(o: &Option<String>) -> (r: Option<String>)
    ensures
        r == *o,
{
    match o {
        Some(s) => Some(s.clone()),
        None => None,
    }
}

/// Clones a vector of strings.
pub fn clone_strings(v: &Vec<String>) -> (out: Vec<String>)
    ensures
        out@ == v@,
{
    let mut out: Vec<String> = Vec::new();
    let mut i: usize = 0;
    while i < v.len()
        invariant
            i <= v.len(),
            out@ == v@.take(i as int),
        decreases v.len() - i,
    {
        out.push(v[i].clone());
        assert(out@ =~= v@.take(i + 1));
        i += 1;
    }
    assert(v@.take(v.len() as int) =~= v@);
    out
}

/// The set of the texts of a list of strings.
pub open spec fn text_set(v: Seq<String>) -> Set<Text> {
    Set::new(|t: Text| exists|i: int| 0 <= i < v.len() && v[i]@ == t)
}

/// `true` when one of the strings has the text of `t`.
pub fn contains_text(v: &Vec<String>, t: &String) -> (r: bool)
    ensures
        r == text_set(v@).contains(t@),
{
    let mut i: usize = 0;
    while i < v.len()
        invariant
            i <= v.len(),
            forall|j: int| 0 <= j < i ==> v@[j]@ != t@,
        decreases v.len() - i,
    {
        if v[i] == *t {
            return true;
        }
        i += 1;
    }
    false
}

/// Adds a string to a list that stands for a set of texts.
pub fn insert_text(v: &mut Vec<String>, t: String)
    ensures
        text_set(final(v)@) == text_set(old(v)@).insert(t@),
{
    v.push(t);
    assert forall|x: Text| text_set(v@).contains(x) <==> text_set(old(v)@).insert(t@).contains(
        x,
    ) by {
        if text_set(v@).contains(x) {
            let i = choose|i: int| 0 <= i < v@.len() && v@[i]@ == x;
            if i < old(v)@.len() {
                assert(old(v)@[i]@ == x);
            }
        }
        if text_set(old(v)@).contains(x) {
            let i = choose|i: int| 0 <= i < old(v)@.len() && old(v)@[i]@ == x;
            assert(v@[i]@ == x);
        }
        if x == t@ {
            assert(v@[v@.len() - 1]@ == x);
        }
    }
    assert(text_set(v@) =~= text_set(old(v)@).insert(t@));
}

} // verus!
