//! Where the elements of mapped sequences come from and go to.

use vstd::prelude::*;

verus! {

/// What an element is mapped to is in the mapped sequence.
pub proof fn lemma_filter_map_has<A, B>(s: Seq<A>, f: spec_fn(A) -> Option<B>, t: int)
    requires
        0 <= t < s.len(),
        f(s[t]) is Some,
    ensures
        s.filter_map(f).contains(f(s[t])->0),
    decreases s.len(),
{
    let rest = s.drop_last();
    let found = f(s[t])->0;
    reveal_with_fuel(Seq::filter_map, 2);
    if t < rest.len() {
        lemma_filter_map_has(rest, f, t);
        let k = choose|k: int| 0 <= k < rest.filter_map(f).len() && rest.filter_map(f)[k] == found;
        assert(s.filter_map(f)[k] == found);
    } else {
        assert(s.filter_map(f).last() == found);
    }
}

/// What an element is mapped to is in the joined sequence.
pub proof fn lemma_flat_map_has<A, B>(s: Seq<A>, f: spec_fn(A) -> Seq<B>, j: int, found: B)
    requires
        0 <= j < s.len(),
        f(s[j]).contains(found),
    ensures
        s.flat_map(f).contains(found),
    decreases s.len(),
{
    let rest = s.drop_last();
    assert(rest.push(s.last()) =~= s);
    rest.lemma_flat_map_push(f, s.last());
    if j < rest.len() {
        lemma_flat_map_has(rest, f, j, found);
        let k = choose|k: int| 0 <= k < rest.flat_map(f).len() && rest.flat_map(f)[k] == found;
        assert(s.flat_map(f)[k] == found);
    } else {
        let own = f(s.last());
        let k = choose|k: int| 0 <= k < own.len() && own[k] == found;
        assert(s.flat_map(f)[rest.flat_map(f).len() + k] == found);
    }
}

/// The element that one of the mapped sequence comes from.
pub proof fn lemma_filter_map_origin<A, B>(s: Seq<A>, f: spec_fn(A) -> Option<B>, i: int) -> (t: int)
    requires
        0 <= i < s.filter_map(f).len(),
    ensures
        0 <= t < s.len(),
        f(s[t]) == Some(s.filter_map(f)[i]),
    decreases s.len(),
{
    reveal_with_fuel(Seq::filter_map, 2);
    let rest = s.drop_last();
    if i < rest.filter_map(f).len() {
        lemma_filter_map_origin(rest, f, i)
    } else {
        s.len() - 1
    }
}

/// The element that one of the joined sequence comes from, and its place there.
pub proof fn lemma_flat_map_origin<A, B>(s: Seq<A>, f: spec_fn(A) -> Seq<B>, i: int) -> (place: (
    int,
    int,
))
    requires
        0 <= i < s.flat_map(f).len(),
    ensures
        0 <= place.0 < s.len(),
        0 <= place.1 < f(s[place.0]).len(),
        f(s[place.0])[place.1] == s.flat_map(f)[i],
    decreases s.len(),
{
    if s.len() == 0 {
        assert(s.flat_map(f) =~= Seq::empty());
        (0, 0)
    } else {
        let rest = s.drop_last();
        assert(rest.push(s.last()) =~= s);
        rest.lemma_flat_map_push(f, s.last());
        if i < rest.flat_map(f).len() {
            lemma_flat_map_origin(rest, f, i)
        } else {
            (s.len() - 1, i - rest.flat_map(f).len())
        }
    }
}

} // verus!
