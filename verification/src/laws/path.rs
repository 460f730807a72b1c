//! Laws of paths.

use crate::path;
use crate::path::{DirPath, PathComponent};
use vstd::prelude::*;

verus! {

/// Whether the two are the same kind of component, with the same text if any.
pub open spec fn equal(a: PathComponent, b: PathComponent) -> bool {
    match (a, b) {
        (PathComponent::Prefix(x), PathComponent::Prefix(y)) => x@ == y@,
        (PathComponent::RootDir, PathComponent::RootDir) => true,
        (PathComponent::CurDir, PathComponent::CurDir) => true,
        (PathComponent::ParentDir, PathComponent::ParentDir) => true,
        (PathComponent::Normal(x), PathComponent::Normal(y)) => x@ == y@,
        _ => false,
    }
}

/// Two components are the same exactly if they are of one kind and have one text.
pub proof fn same_components_are_equal(a: PathComponent, b: PathComponent, same: bool)
    requires
        call_ensures(PathComponent::same, (&a, &b), same),
    ensures
        same == equal(a, b),
        (a@ == b@) == equal(a, b),
{
}

/// Two paths are the same exactly if they were made of as many components, equal
/// one by one.
pub proof fn same_paths_have_equal_components(
    a: Vec<PathComponent>,
    b: Vec<PathComponent>,
    p: DirPath,
    q: DirPath,
    same: bool,
)
    requires
        call_ensures(DirPath::new, (a,), p),
        call_ensures(DirPath::new, (b,), q),
        call_ensures(DirPath::same, (&p, &q), same),
    ensures
        same == (a@.len() == b@.len() && forall|i: int|
            0 <= i < a@.len() ==> equal(#[trigger] a@[i], b@[i])),
{
    let (x, y) = (path::part_views(a@), path::part_views(b@));
    assert(p@ == x && q@ == y);
    assert(x.len() == a@.len() && y.len() == b@.len());
    if same {
        assert(x == y);
        assert forall|i: int| 0 <= i < a@.len() implies equal(#[trigger] a@[i], b@[i]) by {
            assert(x[i] == a@[i]@);
            assert(y[i] == b@[i]@);
        }
    }
    if a@.len() == b@.len() && forall|i: int|
        0 <= i < a@.len() ==> equal(#[trigger] a@[i], b@[i]) {
        assert forall|i: int| 0 <= i < x.len() implies x[i] == y[i] by {
            assert(equal(a@[i], b@[i]));
            assert(x[i] == a@[i]@);
            assert(y[i] == b@[i]@);
        }
        assert(x =~= y);
    }
}

/// A path gives back the components that it was made of.
pub proof fn components_read_back(
    given: Vec<PathComponent>,
    path: DirPath,
    components: Vec<PathComponent>,
)
    requires
        call_ensures(DirPath::new, (given,), path),
        call_ensures(DirPath::components, (&path,), components),
    ensures
        components@.len() == given@.len(),
        forall|i: int| 0 <= i < given@.len() ==> equal(#[trigger] given@[i], components@[i]),
{
    assert(path::part_views(components@) == path::part_views(given@));
    assert(path::part_views(components@).len() == path::part_views(given@).len());
    assert forall|i: int| 0 <= i < given@.len() implies equal(#[trigger] given@[i], components@[i]) by {
        assert(path::part_views(components@)[i] == components@[i]@);
        assert(path::part_views(given@)[i] == given@[i]@);
    }
}

/// A directory has the name of its last component, if that is a name; otherwise it
/// has none.
pub proof fn name_is_the_last_component(
    given: Vec<PathComponent>,
    path: DirPath,
    name: Option<String>,
)
    requires
        call_ensures(DirPath::new, (given,), path),
        call_ensures(DirPath::name, (&path,), name),
    ensures
        given@.len() == 0 ==> name is None,
        given@.len() > 0 ==> match given@.last() {
            PathComponent::Normal(last) => name is Some && name->0@ == last@,
            _ => name is None,
        },
{
    if given@.len() > 0 {
        assert(path@.last() == given@.last()@);
    }
}

/// Copies of paths and components are what they are copies of.
pub proof fn copies_of_paths_are_equal(
    path: DirPath,
    path_copy: DirPath,
    component: PathComponent,
    component_copy: PathComponent,
)
    requires
        call_ensures(<DirPath as Clone>::clone, (&path,), path_copy),
        call_ensures(<PathComponent as Clone>::clone, (&component,), component_copy),
    ensures
        path_copy == path,
        component_copy == component,
{
}

} // verus!
