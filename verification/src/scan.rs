//! The first element of a sequence that has a property.

use vstd::prelude::*;

verus! {

/// `i` is the position of the first element of `s` for which `p` holds, or the
/// length of `s` if there is none.
pub open spec fn is_first_where<T>(s: Seq<T>, p: spec_fn(T) -> bool, i: int) -> bool {
    &&& 0 <= i <= s.len()
    &&& forall|k: int| 0 <= k < i ==> !p(#[trigger] s[k])
    &&& i < s.len() ==> p(s[i])
}

/// The position of the first element of `s` for which `p` holds, or the length
/// of `s` if there is none.
pub open spec fn first_where<T>(s: Seq<T>, p: spec_fn(T) -> bool) -> int {
    choose|i: int| is_first_where(s, p, i)
}

proof fn lemma_first_where_exists<T>(s: Seq<T>, p: spec_fn(T) -> bool, n: int) -> (i: int)
    requires
        0 <= n <= s.len(),
        forall|k: int| 0 <= k < n ==> !p(#[trigger] s[k]),
    ensures
        is_first_where(s, p, i),
    decreases s.len() - n,
{
    if n < s.len() && !p(s[n]) {
        lemma_first_where_exists(s, p, n + 1)
    } else {
        n
    }
}

/// There is exactly one first position.
pub proof fn lemma_first_where<T>(s: Seq<T>, p: spec_fn(T) -> bool)
    ensures
        is_first_where(s, p, first_where(s, p)),
{
    let i = lemma_first_where_exists(s, p, 0);
}

/// A position that has the property and nothing with it before is the first.
pub proof fn lemma_first_where_is<T>(s: Seq<T>, p: spec_fn(T) -> bool, i: int)
    requires
        is_first_where(s, p, i),
    ensures
        first_where(s, p) == i,
{
    let j = first_where(s, p);
    assert(is_first_where(s, p, j));
    if j < i {
        assert(!p(s[j]));
    } else if i < j {
        assert(!p(s[i]));
    }
}

} // verus!
