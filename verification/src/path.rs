//! Directory paths and maps keyed by them.
//!
//! A path is the list of its components, as the platform splits it: what
//! separates components, and which parts of a text name nothing, is not decided
//! here. Two paths are the same exactly if they have the same components.

use vstd::prelude::*;

verus! {

/// A component of a path.
#[derive(Debug, PartialEq, Eq)]
pub enum PathComponent {
    /// What stands before the root on some platforms, such as a drive.
    Prefix(String),
    /// The root.
    RootDir,
    /// The directory itself.
    CurDir,
    /// The directory above.
    ParentDir,
    /// A directory by its name.
    Normal(String),
}

/// A component of a path, as the contracts speak of it.
#[verifier::ext_equal]
pub enum PathPart {
    Prefix(Seq<char>),
    RootDir,
    CurDir,
    ParentDir,
    Normal(Seq<char>),
}

/// A path, as the contracts speak of it.
pub type PathView = Seq<PathPart>;

impl View for PathComponent {
    type V = PathPart;

    open spec fn view(&self) -> PathPart {
        match self {
            PathComponent::Prefix(prefix) => PathPart::Prefix(prefix@),
            PathComponent::RootDir => PathPart::RootDir,
            PathComponent::CurDir => PathPart::CurDir,
            PathComponent::ParentDir => PathPart::ParentDir,
            PathComponent::Normal(name) => PathPart::Normal(name@),
        }
    }
}

impl Clone for PathComponent {
    fn clone(&self) -> (component: PathComponent)
        ensures
            component == *self,
    {
        match self {
            PathComponent::Prefix(prefix) => PathComponent::Prefix(prefix.clone()),
            PathComponent::RootDir => PathComponent::RootDir,
            PathComponent::CurDir => PathComponent::CurDir,
            PathComponent::ParentDir => PathComponent::ParentDir,
            PathComponent::Normal(name) => PathComponent::Normal(name.clone()),
        }
    }
}

impl PathComponent {
    /// Whether this is the same component.
    pub fn same(&self, other: &PathComponent) -> (same: bool)
        ensures
            same == (self@ == other@),
    {
        match (self, other) {
            (PathComponent::Prefix(a), PathComponent::Prefix(b)) => *a == *b,
            (PathComponent::RootDir, PathComponent::RootDir) => true,
            (PathComponent::CurDir, PathComponent::CurDir) => true,
            (PathComponent::ParentDir, PathComponent::ParentDir) => true,
            (PathComponent::Normal(a), PathComponent::Normal(b)) => *a == *b,
            _ => false,
        }
    }
}

pub open spec fn part_views(components: Seq<PathComponent>) -> PathView {
    components.map_values(|component: PathComponent| component@)
}

/// A directory path: no component, or one below another path.
#[derive(Debug, PartialEq, Eq)]
pub enum DirPath {
    Empty,
    Below(Box<DirPath>, PathComponent),
}

impl DirPath {
    /// The components of the path, in order.
    pub open spec fn parts(self) -> PathView
        decreases self,
    {
        match self {
            DirPath::Empty => Seq::empty(),
            DirPath::Below(parent, component) => parent.parts().push(component@),
        }
    }
}

impl View for DirPath {
    type V = PathView;

    open spec fn view(&self) -> PathView {
        self.parts()
    }
}

impl Clone for DirPath {
    fn clone(&self) -> (path: DirPath)
        ensures
            path == *self,
        decreases self,
    {
        match self {
            DirPath::Empty => DirPath::Empty,
            DirPath::Below(parent, component) => DirPath::Below(
                Box::new((&**parent).clone()),
                component.clone(),
            ),
        }
    }
}

/// The name of the directory within its parent: its last component, if that is a
/// name.
pub open spec fn dir_name(path: PathView) -> Option<Seq<char>> {
    if path.len() == 0 {
        None
    } else {
        match path.last() {
            PathPart::Normal(name) => Some(name),
            _ => None,
        }
    }
}

impl DirPath {
    /// The path with these components.
    pub fn new(components: Vec<PathComponent>) -> (path: DirPath)
        ensures
            path@ == part_views(components@),
    {
        let ghost all = components@;
        let mut path = DirPath::Empty;
        assert(path@ =~= part_views(all.take(0)));
        for component in it: components
            invariant
                it.seq() == all,
                path@ == part_views(all.take(it.index() as int)),
        {
            let ghost k = it.index() as int;
            let ghost before = path@;
            let ghost part = component@;
            path = DirPath::Below(Box::new(path), component);
            assert(path@ == before.push(part));
            assert(path@ =~= part_views(all.take(k + 1)));
        }
        assert(all.take(all.len() as int) =~= all);
        path
    }

    /// The components of the path.
    pub fn components(&self) -> (components: Vec<PathComponent>)
        ensures
            part_views(components@) == self@,
        decreases self,
    {
        match self {
            DirPath::Empty => {
                let components: Vec<PathComponent> = Vec::new();
                assert(part_views(components@) =~= self@);
                components
            },
            DirPath::Below(parent, component) => {
                let mut components = (&**parent).components();
                components.push(component.clone());
                assert(part_views(components@) =~= self@);
                components
            },
        }
    }

    /// Whether this is the same path.
    pub fn same(&self, other: &DirPath) -> (same: bool)
        ensures
            same == (self@ == other@),
        decreases self,
    {
        match (self, other) {
            (DirPath::Empty, DirPath::Empty) => true,
            (DirPath::Below(parent, component), DirPath::Below(other_parent, other_component)) => {
                proof {
                    let (a, b) = (parent@, other_parent@);
                    assert(a.push(component@).drop_last() =~= a);
                    assert(b.push(other_component@).drop_last() =~= b);
                    assert(a.push(component@).last() == component@);
                    assert(b.push(other_component@).last() == other_component@);
                }
                component.same(other_component) && (&**parent).same(&**other_parent)
            },
            _ => {
                assert(self@.len() != other@.len());
                false
            },
        }
    }

    /// The name of the directory within its parent.
    pub fn name(&self) -> (name: Option<String>)
        ensures
            name is Some == dir_name(self@) is Some,
            name is Some ==> name->0@ == dir_name(self@)->0,
    {
        match self {
            DirPath::Below(_, PathComponent::Normal(name)) => Some(name.clone()),
            _ => None,
        }
    }
}

/// `after` holds what `before` holds and `keep` accepts, and what is missing `keep`
/// refuses.
pub open spec fn is_retained<V, F: Fn(&V) -> bool>(
    before: Map<PathView, V>,
    after: Map<PathView, V>,
    keep: F,
) -> bool {
    &&& forall|key: PathView| #[trigger]
        after.contains_key(key) ==> before.contains_key(key) && after[key] == before[key]
            && keep.ensures((&before[key],), true)
    &&& forall|key: PathView|
        before.contains_key(key) && !#[trigger] after.contains_key(key) ==> keep.ensures(
            (&before[key],),
            false,
        )
}

/// A map keyed by paths.
#[derive(Debug)]
pub struct PathMap<V> {
    entries: Vec<(DirPath, V)>,
}

spec fn has_key<V>(entries: Seq<(DirPath, V)>, key: PathView, i: int) -> bool {
    0 <= i < entries.len() && entries[i].0@ == key
}

spec fn map_of<V>(entries: Seq<(DirPath, V)>) -> Map<PathView, V> {
    Map::new(
        |key: PathView| exists|i: int| has_key(entries, key, i),
        |key: PathView| entries[choose|i: int| has_key(entries, key, i)].1,
    )
}

spec fn distinct<V>(entries: Seq<(DirPath, V)>) -> bool {
    forall|i: int, j: int|
        0 <= i < j < entries.len() ==> (#[trigger] entries[i]).0@ != (#[trigger] entries[j]).0@
}

spec fn is_accepted<V, F: Fn(&V) -> bool>(
    entries: Seq<(DirPath, V)>,
    entry: (DirPath, V),
    keep: F,
) -> bool {
    &&& exists|j: int| 0 <= j < entries.len() && #[trigger] entries[j] == entry
    &&& keep.ensures((&entry.1,), true)
}

proof fn lemma_entry<V>(entries: Seq<(DirPath, V)>, i: int)
    requires
        distinct(entries),
        0 <= i < entries.len(),
    ensures
        map_of(entries).contains_key(entries[i].0@),
        map_of(entries)[entries[i].0@] == entries[i].1,
{
    let key = entries[i].0@;
    assert(has_key(entries, key, i));
    let k = choose|k: int| has_key(entries, key, k);
    assert(has_key(entries, key, k));
}

proof fn lemma_push<V>(entries: Seq<(DirPath, V)>, entry: (DirPath, V))
    requires
        distinct(entries),
        !map_of(entries).contains_key(entry.0@),
    ensures
        distinct(entries.push(entry)),
        map_of(entries.push(entry)) == map_of(entries).insert(entry.0@, entry.1),
{
    let after = entries.push(entry);
    assert forall|i: int| 0 <= i < entries.len() implies #[trigger] entries[i].0@ != entry.0@ by {
        lemma_entry(entries, i);
    }
    assert(distinct(after));
    lemma_entry(after, entries.len() as int);
    assert forall|key: PathView| #[trigger]
        map_of(after).contains_key(key) == map_of(entries).insert(entry.0@, entry.1).contains_key(
            key,
        ) by {
        if map_of(entries).contains_key(key) {
            let i = choose|i: int| has_key(entries, key, i);
            assert(has_key(after, key, i));
        }
        if map_of(after).contains_key(key) {
            let i = choose|i: int| has_key(after, key, i);
            if i < entries.len() {
                assert(has_key(entries, key, i));
            }
        }
    }
    assert forall|key: PathView| #[trigger]
        map_of(after).contains_key(key) implies map_of(after)[key] == map_of(entries).insert(
        entry.0@,
        entry.1,
    )[key] by {
        let i = choose|i: int| has_key(after, key, i);
        lemma_entry(after, i);
        if i < entries.len() {
            lemma_entry(entries, i);
        }
    }
    assert(map_of(after) =~= map_of(entries).insert(entry.0@, entry.1));
}

impl<V> PathMap<V> {
    #[verifier::type_invariant]
    spec fn keys_are_distinct(self) -> bool {
        distinct(self.entries@)
    }

    /// The map that holds nothing.
    pub fn new() -> (map: PathMap<V>)
        ensures
            map@ == Map::<PathView, V>::empty(),
    {
        let map = PathMap { entries: Vec::new() };
        assert(map@ =~= Map::<PathView, V>::empty());
        map
    }

    fn position(&self, key: &DirPath) -> (position: Option<usize>)
        ensures
            match position {
                Some(i) => has_key(self.entries@, key@, i as int),
                None => !self@.contains_key(key@),
            },
    {
        for i in 0..self.entries.len()
            invariant
                forall|j: int| 0 <= j < i ==> (#[trigger] self.entries@[j]).0@ != key@,
        {
            if self.entries[i].0.same(key) {
                return Some(i);
            }
        }
        None
    }

    /// What the map holds for `key`.
    pub fn get(&self, key: &DirPath) -> (value: Option<&V>)
        ensures
            value is Some == self@.contains_key(key@),
            value is Some ==> *value->0 == self@[key@],
    {
        proof {
            use_type_invariant(self);
        }
        match self.position(key) {
            Some(i) => {
                proof {
                    lemma_entry(self.entries@, i as int);
                }
                Some(&self.entries[i].1)
            },
            None => None,
        }
    }

    /// Puts `value` in the place of what the map held for `key`, if anything.
    pub fn insert(&mut self, key: DirPath, value: V)
        ensures
            final(self)@ == old(self)@.insert(key@, value),
    {
        proof {
            use_type_invariant(&*self);
        }
        let ghost before = self.entries@;
        let found = self.position(&key);
        let mut entries: Vec<(DirPath, V)> = Vec::new();
        std::mem::swap(&mut entries, &mut self.entries);
        match found {
            Some(i) => {
                let ghost entry = (key, value);
                entries.set(i, (key, value));
                proof {
                    lemma_set(before, i as int, entry);
                }
            },
            None => {
                proof {
                    lemma_push(before, (key, value));
                }
                entries.push((key, value));
            },
        }
        self.entries = entries;
    }

    /// How many keys the map holds.
    pub fn len(&self) -> (len: usize)
        ensures
            len == self@.dom().len(),
            self@.dom().finite(),
    {
        proof {
            use_type_invariant(self);
            lemma_len(self.entries@);
        }
        self.entries.len()
    }

    /// Keeps the entries whose value `keep` accepts.
    pub fn retain<F: Fn(&V) -> bool>(&mut self, keep: F)
        requires
            forall|value: &V| #[trigger] keep.requires((value,)),
        ensures
            forall|key: PathView| #[trigger]
                final(self)@.contains_key(key) ==> old(self)@.contains_key(key) && final(self)@[key]
                    == old(self)@[key] && keep.ensures((&old(self)@[key],), true),
            forall|key: PathView|
                old(self)@.contains_key(key) && !#[trigger] final(self)@.contains_key(key)
                    ==> keep.ensures((&old(self)@[key],), false),
            is_retained(old(self)@, final(self)@, keep),
    {
        proof {
            use_type_invariant(&*self);
        }
        let ghost before = self.entries@;
        let mut entries: Vec<(DirPath, V)> = Vec::new();
        std::mem::swap(&mut entries, &mut self.entries);
        let mut kept: Vec<(DirPath, V)> = Vec::new();
        for entry in it: entries
            invariant
                it.seq() == before,
                distinct(before),
                distinct(kept@),
                forall|value: &V| #[trigger] keep.requires((value,)),
                forall|i: int|
                    0 <= i < kept@.len() ==> is_accepted(
                        before.take(it.index() as int),
                        #[trigger] kept@[i],
                        keep,
                    ),
                forall|j: int|
                    0 <= j < it.index() ==> kept@.contains(#[trigger] before[j]) || keep.ensures(
                        (&before[j].1,),
                        false,
                    ),
        {
            let ghost k = it.index() as int;
            let ghost had = kept@;
            assert forall|i: int| 0 <= i < had.len() implies is_accepted(
                before.take(k + 1),
                #[trigger] had[i],
                keep,
            ) && had[i].0@ != entry.0@ by {
                let j = choose|j: int| 0 <= j < k && #[trigger] before.take(k)[j] == had[i];
                assert(before.take(k + 1)[j] == had[i]);
                assert(before[j].0@ != before[k].0@);
            }
            if keep(&entry.1) {
                kept.push(entry);
                assert(kept@[had.len() as int] == before[k]);
                assert forall|j: int| 0 <= j < k + 1 implies kept@.contains(#[trigger] before[j])
                    || keep.ensures((&before[j].1,), false) by {
                    if j < k && had.contains(before[j]) {
                        let i = choose|i: int| 0 <= i < had.len() && had[i] == before[j];
                        assert(kept@[i] == before[j]);
                    }
                }
                assert(before.take(k + 1)[k] == kept@[had.len() as int]);
                assert(is_accepted(before.take(k + 1), kept@[had.len() as int], keep));
            }
        }
        let ghost after = kept@;
        self.entries = kept;
        proof {
            assert forall|key: PathView| #[trigger]
                map_of(after).contains_key(key) implies map_of(before).contains_key(key) && map_of(
                after,
            )[key] == map_of(before)[key] && keep.ensures((&map_of(before)[key],), true) by {
                let i = choose|i: int| has_key(after, key, i);
                lemma_entry(after, i);
                assert(before.take(before.len() as int) =~= before);
                let j = choose|j: int| 0 <= j < before.len() && #[trigger] before[j] == after[i];
                lemma_entry(before, j);
            }
            assert forall|key: PathView|
                map_of(before).contains_key(key) && !#[trigger] map_of(after).contains_key(
                    key,
                ) implies keep.ensures((&map_of(before)[key],), false) by {
                let j = choose|j: int| has_key(before, key, j);
                lemma_entry(before, j);
                if after.contains(before[j]) {
                    let i = choose|i: int| 0 <= i < after.len() && after[i] == before[j];
                    lemma_entry(after, i);
                }
            }
        }
    }
}

impl<V> View for PathMap<V> {
    type V = Map<PathView, V>;

    closed spec fn view(&self) -> Map<PathView, V> {
        map_of(self.entries@)
    }
}

impl<V: Clone> Clone for PathMap<V> {
    fn clone(&self) -> (map: PathMap<V>)
        ensures
            map@.dom() == self@.dom(),
            forall|key: PathView| #[trigger]
                self@.contains_key(key) ==> cloned::<V>(self@[key], map@[key]),
    {
        proof {
            use_type_invariant(self);
        }
        let mut entries: Vec<(DirPath, V)> = Vec::new();
        for i in 0..self.entries.len()
            invariant
                distinct(self.entries@),
                entries@.len() == i,
                forall|j: int|
                    0 <= j < i ==> (#[trigger] entries@[j]).0@ == self.entries@[j].0@ && cloned::<V>(
                        self.entries@[j].1,
                        entries@[j].1,
                    ),
        {
            entries.push((self.entries[i].0.clone(), self.entries[i].1.clone()));
        }
        assert(distinct(entries@)) by {
            assert forall|i: int, j: int| 0 <= i < j < entries@.len() implies (
            #[trigger] entries@[i]).0@ != (#[trigger] entries@[j]).0@ by {
                assert(self.entries@[i].0@ != self.entries@[j].0@);
            }
        }
        let map = PathMap { entries };
        assert forall|key: PathView| #[trigger]
            self@.contains_key(key) == map@.contains_key(key) && (self@.contains_key(key)
                ==> cloned::<V>(self@[key], map@[key])) by {
            if self@.contains_key(key) {
                let i = choose|i: int| has_key(self.entries@, key, i);
                assert(has_key(map.entries@, key, i));
                lemma_entry(self.entries@, i);
                lemma_entry(map.entries@, i);
            }
            if map@.contains_key(key) {
                let i = choose|i: int| has_key(map.entries@, key, i);
                assert(has_key(self.entries@, key, i));
            }
        }
        assert(map@.dom() =~= self@.dom());
        map
    }
}

proof fn lemma_set<V>(entries: Seq<(DirPath, V)>, at: int, entry: (DirPath, V))
    requires
        distinct(entries),
        has_key(entries, entry.0@, at),
    ensures
        distinct(entries.update(at, entry)),
        map_of(entries.update(at, entry)) == map_of(entries).insert(entry.0@, entry.1),
{
    let after = entries.update(at, entry);
    assert forall|i: int| 0 <= i < after.len() implies #[trigger] after[i].0@ == entries[i].0@ by {}
    assert(distinct(after)) by {
        assert forall|i: int, j: int| 0 <= i < j < after.len() implies (#[trigger] after[i]).0@ != (
        #[trigger] after[j]).0@ by {
            assert(entries[i].0@ != entries[j].0@);
        }
    }
    lemma_entry(after, at);
    assert forall|key: PathView| #[trigger]
        map_of(after).contains_key(key) == map_of(entries).insert(entry.0@, entry.1).contains_key(
            key,
        ) by {
        if map_of(entries).contains_key(key) {
            let i = choose|i: int| has_key(entries, key, i);
            assert(has_key(after, key, i));
        }
        if map_of(after).contains_key(key) {
            let i = choose|i: int| has_key(after, key, i);
            assert(has_key(entries, key, i));
        }
    }
    assert forall|key: PathView| #[trigger]
        map_of(after).contains_key(key) implies map_of(after)[key] == map_of(entries).insert(
        entry.0@,
        entry.1,
    )[key] by {
        let i = choose|i: int| has_key(after, key, i);
        lemma_entry(after, i);
        if i != at {
            lemma_entry(entries, i);
        }
    }
    assert(map_of(after) =~= map_of(entries).insert(entry.0@, entry.1));
}

proof fn lemma_len<V>(entries: Seq<(DirPath, V)>)
    requires
        distinct(entries),
    ensures
        map_of(entries).dom().finite(),
        map_of(entries).dom().len() == entries.len(),
    decreases entries.len(),
{
    if entries.len() == 0 {
        assert(map_of(entries).dom() =~= Set::empty());
    } else {
        let rest = entries.drop_last();
        lemma_len(rest);
        if map_of(rest).contains_key(entries.last().0@) {
            let i = choose|i: int| has_key(rest, entries.last().0@, i);
            assert(entries[i].0@ == entries.last().0@);
        }
        lemma_push(rest, entries.last());
        assert(rest.push(entries.last()) =~= entries);
        assert(map_of(entries).dom() =~= map_of(rest).dom().insert(entries.last().0@));
    }
}

} // verus!
