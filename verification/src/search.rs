//! Position of the first element of a sequence that satisfies a predicate.
use vstd::prelude::*;

verus! {

/// Whether `i` is the least index of `s` whose element satisfies `p`.
pub open spec fn is_first_where<T>(s: Seq<T>, p: spec_fn(T) -> bool, i: int) -> bool {
    &&& 0 <= i < s.len()
    &&& p(s[i])
    &&& forall|j: int| 0 <= j < i ==> !p(#[trigger] s[j])
}

/// The least index of `s` whose element satisfies `p`, if there is one.
pub open spec fn first_where<T>(s: Seq<T>, p: spec_fn(T) -> bool) -> Option<int> {
    if exists|i: int| is_first_where(s, p, i) {
        Some(choose|i: int| is_first_where(s, p, i))
    } else {
        None
    }
}

/// An index that is the least one satisfying `p` is what `first_where` gives.
pub proof fn lemma_first_where_found<T>(s: Seq<T>, p: spec_fn(T) -> bool, i: int)
    requires
        is_first_where(s, p, i),
    ensures
        first_where(s, p) == Some(i),
{
    let c = choose|k: int| is_first_where(s, p, k);
    assert(is_first_where(s, p, c));
    if c < i {
        assert(!p(s[c]));
    } else if i < c {
        assert(!p(s[i]));
    }
}

/// Where no element satisfies `p`, `first_where` gives nothing.
pub proof fn lemma_first_where_absent<T>(s: Seq<T>, p: spec_fn(T) -> bool)
    requires
        forall|j: int| 0 <= j < s.len() ==> !p(#[trigger] s[j]),
    ensures
        first_where(s, p) is None,
{
}

/// What `first_where` gives is an index of a satisfying element, with none before it.
pub proof fn lemma_first_where_is_first<T>(s: Seq<T>, p: spec_fn(T) -> bool)
    ensures
        first_where(s, p) matches Some(i) ==> is_first_where(s, p, i),
        first_where(s, p) is None ==> forall|j: int| 0 <= j < s.len() ==> !p(#[trigger] s[j]),
{
    if first_where(s, p) is None {
        assert forall|j: int| 0 <= j < s.len() implies !p(#[trigger] s[j]) by {
            if p(s[j]) {
                lemma_some_first(s, p, j);
            }
        }
    }
}

/// A satisfying element at `j` means that some first one exists.
proof fn lemma_some_first<T>(s: Seq<T>, p: spec_fn(T) -> bool, j: int)
    requires
        0 <= j < s.len(),
        p(s[j]),
    ensures
        exists|i: int| is_first_where(s, p, i),
    decreases j,
{
    if forall|k: int| 0 <= k < j ==> !p(#[trigger] s[k]) {
        assert(is_first_where(s, p, j));
    } else {
        let k = choose|k: int| 0 <= k < j && p(#[trigger] s[k]);
        lemma_some_first(s, p, k);
    }
}

/// Appending an element leaves the first satisfying index as it was; where
/// there was none, the new element is the first if it satisfies `p`.
pub proof fn lemma_first_where_push<T>(s: Seq<T>, p: spec_fn(T) -> bool, x: T)
    ensures
        first_where(s.push(x), p) == match first_where(s, p) {
            Some(i) => Some(i),
            None => if p(x) {
                Some(s.len() as int)
            } else {
                None
            },
        },
{
    lemma_first_where_is_first(s, p);
    let t = s.push(x);
    match first_where(s, p) {
        Some(i) => {
            assert(t[i] == s[i]);
            assert forall|j: int| 0 <= j < i implies !p(#[trigger] t[j]) by {
                assert(t[j] == s[j]);
            }
            lemma_first_where_found(t, p, i);
        },
        None => {
            assert forall|j: int| 0 <= j < s.len() implies !p(#[trigger] t[j]) by {
                assert(t[j] == s[j]);
            }
            if p(x) {
                assert(t[s.len() as int] == x);
                lemma_first_where_found(t, p, s.len() as int);
            } else {
                assert forall|j: int| 0 <= j < t.len() implies !p(#[trigger] t[j]) by {
                    if j < s.len() {
                        assert(t[j] == s[j]);
                    }
                }
                lemma_first_where_absent(t, p);
            }
        },
    }
}

/// Whether `i` is the greatest index of `s` whose element satisfies `p`.
pub open spec fn is_last_where<T>(s: Seq<T>, p: spec_fn(T) -> bool, i: int) -> bool {
    &&& 0 <= i < s.len()
    &&& p(s[i])
    &&& forall|j: int| i < j < s.len() ==> !p(#[trigger] s[j])
}

/// The greatest index of `s` whose element satisfies `p`, if there is one.
pub open spec fn last_where<T>(s: Seq<T>, p: spec_fn(T) -> bool) -> Option<int> {
    if exists|i: int| is_last_where(s, p, i) {
        Some(choose|i: int| is_last_where(s, p, i))
    } else {
        None
    }
}

/// An index that is the greatest one satisfying `p` is what `last_where` gives.
pub proof fn lemma_last_where_found<T>(s: Seq<T>, p: spec_fn(T) -> bool, i: int)
    requires
        is_last_where(s, p, i),
    ensures
        last_where(s, p) == Some(i),
{
    let c = choose|k: int| is_last_where(s, p, k);
    assert(is_last_where(s, p, c));
    if c < i {
        assert(!p(s[i]));
    } else if i < c {
        assert(!p(s[c]));
    }
}

/// Where no element satisfies `p`, `last_where` gives nothing.
pub proof fn lemma_last_where_absent<T>(s: Seq<T>, p: spec_fn(T) -> bool)
    requires
        forall|j: int| 0 <= j < s.len() ==> !p(#[trigger] s[j]),
    ensures
        last_where(s, p) is None,
{
}

/// What `last_where` gives is an index of a satisfying element, with none after it.
pub proof fn lemma_last_where_is_last<T>(s: Seq<T>, p: spec_fn(T) -> bool)
    ensures
        last_where(s, p) matches Some(i) ==> is_last_where(s, p, i),
{
}

} // verus!
