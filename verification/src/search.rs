//! Finding the first or the last element of a sequence that satisfies a
//! predicate, as specification functions with the lemmas that pin them down.

use vstd::prelude::*;

verus! {

/// The views of the elements of `s`, in order.
pub open spec fn views<T: View>(s: Seq<T>) -> Seq<T::V> {
    Seq::new(s.len(), |i: int| s[i]@)
}

/// `i` is the least index of `s` whose element satisfies `p`.
pub open spec fn is_first_where<T>(s: Seq<T>, p: spec_fn(T) -> bool, i: int) -> bool {
    &&& 0 <= i < s.len()
    &&& p(s[i])
    &&& forall|k: int| 0 <= k < i ==> !p(#[trigger] s[k])
}

/// `i` is the greatest index of `s` whose element satisfies `p`.
pub open spec fn is_last_where<T>(s: Seq<T>, p: spec_fn(T) -> bool, i: int) -> bool {
    &&& 0 <= i < s.len()
    &&& p(s[i])
    &&& forall|k: int| i < k < s.len() ==> !p(#[trigger] s[k])
}

/// No element of `s` satisfies `p`.
pub open spec fn none_where<T>(s: Seq<T>, p: spec_fn(T) -> bool) -> bool {
    forall|k: int| 0 <= k < s.len() ==> !p(#[trigger] s[k])
}

/// The least index of `s` whose element satisfies `p`, if there is one.
pub open spec fn first_where<T>(s: Seq<T>, p: spec_fn(T) -> bool) -> Option<int> {
    if exists|i: int| is_first_where(s, p, i) {
        Some(choose|i: int| is_first_where(s, p, i))
    } else {
        None
    }
}

/// The greatest index of `s` whose element satisfies `p`, if there is one.
pub open spec fn last_where<T>(s: Seq<T>, p: spec_fn(T) -> bool) -> Option<int> {
    if exists|i: int| is_last_where(s, p, i) {
        Some(choose|i: int| is_last_where(s, p, i))
    } else {
        None
    }
}

/// An index that is first is the one `first_where` names.
pub proof fn lemma_first_where_found<T>(s: Seq<T>, p: spec_fn(T) -> bool, i: int)
    requires
        is_first_where(s, p, i),
    ensures
        first_where(s, p) == Some(i),
{
    let j = choose|j: int| is_first_where(s, p, j);
    assert(is_first_where(s, p, j));
    if j < i {
        assert(!p(s[j]));
    }
    if i < j {
        assert(!p(s[i]));
    }
}

/// Where no element satisfies `p`, `first_where` names none.
pub proof fn lemma_first_where_none<T>(s: Seq<T>, p: spec_fn(T) -> bool)
    requires
        none_where(s, p),
    ensures
        first_where(s, p) is None,
{
    if exists|i: int| is_first_where(s, p, i) {
        let j = choose|j: int| is_first_where(s, p, j);
        assert(!p(s[j]));
    }
}

/// What `first_where` names is first, and it names none only where no
/// element satisfies `p`.
pub proof fn lemma_first_where<T>(s: Seq<T>, p: spec_fn(T) -> bool)
    ensures
        match first_where(s, p) {
            Some(i) => is_first_where(s, p, i),
            None => none_where(s, p),
        },
{
    if first_where(s, p) is None {
        if !none_where(s, p) {
            let k = choose|k: int| 0 <= k < s.len() && p(#[trigger] s[k]);
            lemma_some_first_before(s, p, k);
        }
    }
}

/// Below any satisfying index there is a first one.
proof fn lemma_some_first_before<T>(s: Seq<T>, p: spec_fn(T) -> bool, k: int)
    requires
        0 <= k < s.len(),
        p(s[k]),
    ensures
        exists|i: int| is_first_where(s, p, i),
    decreases k,
{
    if forall|j: int| 0 <= j < k ==> !p(#[trigger] s[j]) {
        assert(is_first_where(s, p, k));
    } else {
        let j = choose|j: int| 0 <= j < k && p(#[trigger] s[j]);
        lemma_some_first_before(s, p, j);
    }
}

/// An index that is last is the one `last_where` names.
pub proof fn lemma_last_where_found<T>(s: Seq<T>, p: spec_fn(T) -> bool, i: int)
    requires
        is_last_where(s, p, i),
    ensures
        last_where(s, p) == Some(i),
{
    let j = choose|j: int| is_last_where(s, p, j);
    assert(is_last_where(s, p, j));
    if j < i {
        assert(!p(s[i]));
    }
    if i < j {
        assert(!p(s[j]));
    }
}

/// Where no element satisfies `p`, `last_where` names none.
pub proof fn lemma_last_where_none<T>(s: Seq<T>, p: spec_fn(T) -> bool)
    requires
        none_where(s, p),
    ensures
        last_where(s, p) is None,
{
    if exists|i: int| is_last_where(s, p, i) {
        let j = choose|j: int| is_last_where(s, p, j);
        assert(!p(s[j]));
    }
}

/// What `last_where` names is last, and it names none only where no element
/// satisfies `p`.
pub proof fn lemma_last_where<T>(s: Seq<T>, p: spec_fn(T) -> bool)
    ensures
        match last_where(s, p) {
            Some(i) => is_last_where(s, p, i),
            None => none_where(s, p),
        },
{
    if last_where(s, p) is None {
        if !none_where(s, p) {
            let k = choose|k: int| 0 <= k < s.len() && p(#[trigger] s[k]);
            lemma_some_last_after(s, p, k);
        }
    }
}

/// Above any satisfying index there is a last one.
proof fn lemma_some_last_after<T>(s: Seq<T>, p: spec_fn(T) -> bool, k: int)
    requires
        0 <= k < s.len(),
        p(s[k]),
    ensures
        exists|i: int| is_last_where(s, p, i),
    decreases s.len() - k,
{
    if forall|j: int| k < j < s.len() ==> !p(#[trigger] s[j]) {
        assert(is_last_where(s, p, k));
    } else {
        let j = choose|j: int| k < j < s.len() && p(#[trigger] s[j]);
        lemma_some_last_after(s, p, j);
    }
}

} // verus!
