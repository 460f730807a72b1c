//! Laws of maps keyed by paths, over what a look-up gives.

use crate::path;
use crate::path::{DirPath, PathMap};
use vstd::prelude::*;

verus! {

/// A new map holds nothing.
pub proof fn new_map_holds_nothing<V>(
    map: PathMap<V>,
    key: DirPath,
    found: Option<&V>,
    len: usize,
)
    requires
        call_ensures(PathMap::<V>::new, (), map),
        call_ensures(PathMap::<V>::get, (&map, &key), found),
        call_ensures(PathMap::<V>::len, (&map,), len),
    ensures
        found is None,
        len == 0,
{
}

/// What was put in is found under its key, and under every path that is the same;
/// what other paths find stays.
pub proof fn inserted_value_is_found<V>(
    map: &mut PathMap<V>,
    key: DirPath,
    value: V,
    other: DirPath,
    same: bool,
    before: Option<&V>,
    after: Option<&V>,
)
    requires
        call_ensures(PathMap::<V>::insert, (map, key, value), ()),
        call_ensures(PathMap::<V>::get, (&*old(map), &other), before),
        call_ensures(PathMap::<V>::get, (&*final(map), &other), after),
        call_ensures(DirPath::same, (&key, &other), same),
    ensures
        same ==> after is Some && *after->0 == value,
        !same ==> after is Some == before is Some,
        !same && after is Some ==> *after->0 == *before->0,
{
}

/// A key that the map already holds adds nothing to its length, another one does.
pub proof fn new_keys_count<V>(
    map: &mut PathMap<V>,
    key: DirPath,
    value: V,
    before: Option<&V>,
    old_len: usize,
    new_len: usize,
)
    requires
        call_ensures(PathMap::<V>::insert, (map, key, value), ()),
        call_ensures(PathMap::<V>::get, (&*old(map), &key), before),
        call_ensures(PathMap::<V>::len, (&*old(map),), old_len),
        call_ensures(PathMap::<V>::len, (&*final(map),), new_len),
    ensures
        before is Some ==> new_len == old_len,
        before is None ==> new_len == old_len + 1,
{
    assert(final(map)@.dom() =~= old(map)@.dom().insert(key@));
    if before is Some {
        assert(final(map)@.dom() =~= old(map)@.dom());
    }
}

/// What the test accepts for sure stays as it is, what it refuses for sure goes,
/// and nothing comes in.
pub proof fn kept_values_are_accepted<V, F: Fn(&V) -> bool>(
    map: &mut PathMap<V>,
    keep: F,
    key: DirPath,
    before: Option<&V>,
    after: Option<&V>,
)
    requires
        call_ensures(PathMap::<V>::retain::<F>, (map, keep), ()),
        call_ensures(PathMap::<V>::get, (&*old(map), &key), before),
        call_ensures(PathMap::<V>::get, (&*final(map), &key), after),
    ensures
        after is Some ==> before is Some && *after->0 == *before->0,
        before is Some && !call_ensures(keep, (before->0,), false) ==> after is Some,
        before is Some && !call_ensures(keep, (before->0,), true) ==> after is None,
{
    assert(path::is_retained(old(map)@, final(map)@, keep));
    if after is Some {
        assert(final(map)@.contains_key(key@));
    }
    if before is Some && after is None {
        assert(!final(map)@.contains_key(key@));
    }
}

/// A copy finds for every path a copy of what the map finds.
pub proof fn copy_finds_the_same<V: Clone>(
    map: PathMap<V>,
    copy: PathMap<V>,
    key: DirPath,
    in_map: Option<&V>,
    in_copy: Option<&V>,
)
    requires
        call_ensures(<PathMap<V> as Clone>::clone, (&map,), copy),
        call_ensures(PathMap::<V>::get, (&map, &key), in_map),
        call_ensures(PathMap::<V>::get, (&copy, &key), in_copy),
    ensures
        in_map is Some == in_copy is Some,
        in_map is Some ==> cloned::<V>(*in_map->0, *in_copy->0),
{
    assert(map@.dom().contains(key@) == copy@.dom().contains(key@));
}

} // verus!
