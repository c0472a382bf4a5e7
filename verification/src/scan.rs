use vstd::prelude::*;

verus! {

/// The index of the last character of `s` that `f` accepts, if there is one.
pub open spec fn last_where(s: Seq<char>, f: spec_fn(char) -> bool) -> Option<int>
    decreases s.len(),
{
    if s.len() == 0 {
        None
    } else if f(s.last()) {
        Some(s.len() - 1)
    } else {
        last_where(s.drop_last(), f)
    }
}

/// Whether `i` is the place of the last character of `s` that `f` accepts.
pub open spec fn is_last_where(s: Seq<char>, f: spec_fn(char) -> bool, i: int) -> bool {
    &&& 0 <= i < s.len()
    &&& f(s[i])
    &&& forall|j: int| i < j < s.len() ==> !f(#[trigger] s[j])
}

/// Whether `f` accepts no character of `s`.
pub open spec fn none_where(s: Seq<char>, f: spec_fn(char) -> bool) -> bool {
    forall|j: int| 0 <= j < s.len() ==> !f(#[trigger] s[j])
}

/// `last_where` finds the last accepted character, and finds none only where
/// none is accepted.
pub proof fn lemma_last_where(s: Seq<char>, f: spec_fn(char) -> bool)
    ensures
        match last_where(s, f) {
            Some(i) => is_last_where(s, f, i),
            None => none_where(s, f),
        },
    decreases s.len(),
{
    if s.len() > 0 && !f(s.last()) {
        let t = s.drop_last();
        lemma_last_where(t, f);
        assert(forall|j: int| 0 <= j < t.len() ==> t[j] == s[j]);
    }
}

/// A place that is the last accepted one is the place that `last_where` gives.
pub proof fn lemma_last_where_is(s: Seq<char>, f: spec_fn(char) -> bool, i: int)
    requires
        is_last_where(s, f, i),
    ensures
        last_where(s, f) == Some(i),
{
    lemma_last_where(s, f);
}

/// Where no character is accepted, `last_where` gives nothing.
pub proof fn lemma_last_where_none(s: Seq<char>, f: spec_fn(char) -> bool)
    requires
        none_where(s, f),
    ensures
        last_where(s, f) is None,
{
    lemma_last_where(s, f);
}

} // verus!
