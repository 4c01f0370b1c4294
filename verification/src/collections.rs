//! Sets of paths and maps from paths. Texts with the same components are one path.
use vstd::prelude::*;
use vstd::string::*;

use crate::paths::{components, contains_path, has_path, same_path};
use crate::search::{first_where, lemma_filter_step, lemma_first_where, position};

verus! {

// ---------------------------------------------------------------------------
// Sets of paths
// ---------------------------------------------------------------------------
/// A set of paths, modelled by their components.
#[derive(Debug)]
pub struct PathSet {
    pub items: Vec<String>,
}

impl View for PathSet {
    type V = Set<Seq<Seq<char>>>;

    open spec fn view(&self) -> Set<Seq<Seq<char>>> {
        Set::new(|path: Seq<Seq<char>>| has_path(self.items@, path))
    }
}

/// The paths other than `path`.
pub open spec fn other_path(path: Seq<Seq<char>>) -> spec_fn(String) -> bool {
    |item: String| components(item@) != path
}

impl PathSet {
    pub fn new() -> (result: PathSet)
        ensures
            result@ == Set::<Seq<Seq<char>>>::empty(),
            result.items@.len() == 0,
    {
        let result = PathSet { items: Vec::new() };
        assert(result@ =~= Set::<Seq<Seq<char>>>::empty());
        result
    }

    pub fn contains(&self, path: &str) -> (result: bool)
        ensures
            result == self@.contains(components(path@)),
    {
        contains_path(&self.items, path)
    }

    /// Adds a path; whether it was missing.
    pub fn insert(&mut self, path: String) -> (result: bool)
        ensures
            result == !old(self)@.contains(components(path@)),
            final(self)@ == old(self)@.insert(components(path@)),
            final(self).items@ == if result {
                old(self).items@.push(path)
            } else {
                old(self).items@
            },
    {
        if self.contains(path.as_str()) {
            assert(self@.insert(components(path@)) =~= self@);
            return false;
        }
        let ghost before = self.items@;
        let ghost added = components(path@);
        self.items.push(path);
        assert forall|p: Seq<Seq<char>>| has_path(self.items@, p) == (has_path(before, p) || p == added) by {
            if has_path(before, p) {
                let i = choose|i: int| 0 <= i < before.len() && components((#[trigger] before[i])@) == p;
                assert(components(self.items@[i]@) == p);
            }
            if p == added {
                assert(components(self.items@[before.len() as int]@) == p);
            }
        }
        assert(self@ =~= old(self)@.insert(added));
        true
    }

    /// Removes a path; whether it was there.
    pub fn remove(&mut self, path: &str) -> (result: bool)
        ensures
            result == old(self)@.contains(components(path@)),
            final(self)@ == old(self)@.remove(components(path@)),
            final(self).items@ == old(self).items@.filter(other_path(components(path@))),
    {
        let found: bool = self.contains(path);
        let ghost before = self.items@;
        let ghost keep = other_path(components(path@));
        let mut rest: Vec<String> = Vec::new();
        std::mem::swap(&mut rest, &mut self.items);
        assert(before.take(0).filter(keep) =~= Seq::<String>::empty());
        while rest.len() > 0
            invariant
                keep == other_path(components(path@)),
                rest@.len() <= before.len(),
                rest@ == before.skip(before.len() - rest@.len()),
                self.items@ == before.take(before.len() - rest@.len()).filter(keep),
            decreases rest@.len(),
        {
            let ghost done = before.len() - rest@.len();
            let item = rest.remove(0);
            proof {
                lemma_filter_step(before, keep, done);
                assert(rest@ =~= before.skip(done + 1));
            }
            if !same_path(item.as_str(), path) {
                self.items.push(item);
            }
        }
        assert(before.take(before.len() as int) =~= before);
        assert forall|p: Seq<Seq<char>>| has_path(self.items@, p) == (has_path(before, p) && p != components(path@)) by {
            if has_path(before, p) && p != components(path@) {
                let i = choose|i: int| 0 <= i < before.len() && components((#[trigger] before[i])@) == p;
                before.lemma_filter_contains(keep, i);
                let j = choose|j: int| 0 <= j < self.items@.len() && self.items@[j] == before[i];
                assert(components(self.items@[j]@) == p);
            }
            if has_path(self.items@, p) {
                let j = choose|j: int| 0 <= j < self.items@.len() && components((#[trigger] self.items@[j])@) == p;
                before.lemma_filter_pred(keep, j);
                before.lemma_filter_contains_rev(keep, self.items@[j]);
            }
        }
        assert(self@ =~= old(self)@.remove(components(path@)));
        found
    }
}

// ---------------------------------------------------------------------------
// Maps from paths
// ---------------------------------------------------------------------------
#[derive(Debug)]
pub struct PathEntry<V> {
    pub path: String,
    pub value: V,
}

/// A map from paths, modelled by their components.
#[derive(Debug)]
pub struct PathMap<V> {
    pub entries: Vec<PathEntry<V>>,
}

pub open spec fn entry_for<V>(path: Seq<Seq<char>>) -> spec_fn(PathEntry<V>) -> bool {
    |entry: PathEntry<V>| components(entry.path@) == path
}

pub open spec fn entry_not_for<V>(path: Seq<Seq<char>>) -> spec_fn(PathEntry<V>) -> bool {
    |entry: PathEntry<V>| components(entry.path@) != path
}

pub open spec fn entry_at<V>(entries: Seq<PathEntry<V>>, path: Seq<Seq<char>>) -> Option<int> {
    first_where(entries, entry_for::<V>(path), 0)
}

impl<V> View for PathMap<V> {
    type V = Map<Seq<Seq<char>>, V>;

    open spec fn view(&self) -> Map<Seq<Seq<char>>, V> {
        Map::new(
            |path: Seq<Seq<char>>| entry_at(self.entries@, path) is Some,
            |path: Seq<Seq<char>>| self.entries@[entry_at(self.entries@, path)->0].value,
        )
    }
}

impl<V> PathMap<V> {
    pub fn new() -> (result: PathMap<V>)
        ensures
            result@ == Map::<Seq<Seq<char>>, V>::empty(),
    {
        let result = PathMap { entries: Vec::new() };
        assert(result@ =~= Map::<Seq<Seq<char>>, V>::empty());
        result
    }

    fn find(&self, path: &str) -> (result: Option<usize>)
        ensures
            position(result) == entry_at(self.entries@, components(path@)),
            result matches Some(at) ==> at < self.entries@.len() && components(
                self.entries@[at as int].path@,
            ) == components(path@),
    {
        let mut index: usize = 0;
        while index < self.entries.len()
            invariant
                index <= self.entries@.len(),
                entry_at(self.entries@, components(path@)) == first_where(
                    self.entries@,
                    entry_for::<V>(components(path@)),
                    index as int,
                ),
            decreases self.entries@.len() - index,
        {
            if same_path(self.entries[index].path.as_str(), path) {
                return Some(index);
            }
            index += 1;
        }
        None
    }

    pub fn get(&self, path: &str) -> (result: Option<&V>)
        ensures
            match result {
                Some(value) => self@.dom().contains(components(path@)) && *value == self@[components(path@)],
                None => !self@.dom().contains(components(path@)),
            },
    {
        match self.find(path) {
            Some(at) => Some(&self.entries[at].value),
            None => None,
        }
    }

    pub fn contains_key(&self, path: &str) -> (result: bool)
        ensures
            result == self@.dom().contains(components(path@)),
    {
        match self.find(path) {
            Some(_) => true,
            None => false,
        }
    }

    /// Sets the value of a path.
    pub fn insert(&mut self, path: String, value: V)
        ensures
            final(self)@ == old(self)@.insert(components(path@), value),
    {
        let ghost before = self.entries@;
        let ghost key = components(path@);
        match self.find(path.as_str()) {
            Some(at) => {
                self.entries[at] = PathEntry { path, value };
                proof {
                    lemma_first_where(before, entry_for::<V>(key), 0);
                    lemma_replaced(before, self.entries@, at as int, key);
                }
            },
            None => {
                self.entries.push(PathEntry { path, value });
                proof {
                    lemma_pushed(before, self.entries@, key);
                }
            },
        }
        proof {
            let wanted = old(self)@.insert(key, value);
            assert forall|path: Seq<Seq<char>>| #[trigger] wanted.dom().contains(path) implies self@[path]
                == wanted[path] by {
                lemma_first_where(before, entry_for::<V>(path), 0);
            }
            assert forall|path: Seq<Seq<char>>| #[trigger] self@.dom().contains(path)
                == wanted.dom().contains(path) by {}
            assert(self@ =~= wanted);
        }
    }

    /// Removes a path.
    pub fn remove(&mut self, path: &str)
        ensures
            final(self)@ == old(self)@.remove(components(path@)),
    {
        let ghost before = self.entries@;
        let ghost keep = entry_not_for::<V>(components(path@));
        let mut rest: Vec<PathEntry<V>> = Vec::new();
        std::mem::swap(&mut rest, &mut self.entries);
        assert(before.take(0).filter(keep) =~= Seq::<PathEntry<V>>::empty());
        while rest.len() > 0
            invariant
                keep == entry_not_for::<V>(components(path@)),
                rest@.len() <= before.len(),
                rest@ == before.skip(before.len() - rest@.len()),
                self.entries@ == before.take(before.len() - rest@.len()).filter(keep),
            decreases rest@.len(),
        {
            let ghost done = before.len() - rest@.len();
            let entry = rest.remove(0);
            proof {
                lemma_filter_step(before, keep, done);
                assert(rest@ =~= before.skip(done + 1));
            }
            if !same_path(entry.path.as_str(), path) {
                self.entries.push(entry);
            }
        }
        assert(before.take(before.len() as int) =~= before);
        proof {
            lemma_removed(before, components(path@));
        }
        assert(self@ =~= old(self)@.remove(components(path@)));
    }
}

proof fn lemma_replaced<V>(
    before: Seq<PathEntry<V>>,
    after: Seq<PathEntry<V>>,
    at: int,
    key: Seq<Seq<char>>,
)
    requires
        entry_at(before, key) == Some(at),
        0 <= at < before.len(),
        components(before[at].path@) == key,
        after == before.update(at, after[at]),
        components(after[at].path@) == key,
    ensures
        forall|path: Seq<Seq<char>>| #[trigger] entry_at(after, path) == entry_at(before, path),
{
    assert forall|path: Seq<Seq<char>>| #[trigger] entry_at(after, path) == entry_at(before, path) by {
        lemma_same_first(before, after, entry_for::<V>(path), 0);
    }
}

proof fn lemma_same_first<V>(
    before: Seq<PathEntry<V>>,
    after: Seq<PathEntry<V>>,
    wanted: spec_fn(PathEntry<V>) -> bool,
    from: int,
)
    requires
        0 <= from,
        before.len() == after.len(),
        forall|i: int|
            0 <= i < before.len() ==> wanted(#[trigger] before[i]) == wanted(after[i]),
    ensures
        first_where(after, wanted, from) == first_where(before, wanted, from),
    decreases before.len() - from,
{
    if from < before.len() {
        assert(wanted(before[from]) == wanted(after[from]));
        lemma_same_first(before, after, wanted, from + 1);
    }
}

proof fn lemma_pushed<V>(before: Seq<PathEntry<V>>, after: Seq<PathEntry<V>>, key: Seq<Seq<char>>)
    requires
        entry_at(before, key) is None,
        after == before.push(after.last()),
        after.len() == before.len() + 1,
        components(after.last().path@) == key,
    ensures
        entry_at(after, key) == Some(before.len() as int),
        forall|path: Seq<Seq<char>>|
            path != key ==> #[trigger] entry_at(after, path) == entry_at(before, path),
{
    assert forall|path: Seq<Seq<char>>| path != key implies #[trigger] entry_at(after, path) == entry_at(
        before,
        path,
    ) by {
        lemma_first_where(before, entry_for::<V>(path), 0);
        lemma_first_where(after, entry_for::<V>(path), 0);
        lemma_first_where_decided(before, after, entry_for::<V>(path));
    }
    lemma_first_where(before, entry_for::<V>(key), 0);
    lemma_first_where(after, entry_for::<V>(key), 0);
    let wanted = entry_for::<V>(key);
    assert(wanted(after[before.len() as int]));
    match first_where(after, wanted, 0) {
        Some(at) => {
            if at < before.len() {
                assert(wanted(before[at]));
            }
        },
        None => {},
    }
}

proof fn lemma_first_where_decided<V>(
    before: Seq<PathEntry<V>>,
    after: Seq<PathEntry<V>>,
    wanted: spec_fn(PathEntry<V>) -> bool,
)
    requires
        after.len() == before.len() + 1,
        forall|i: int| 0 <= i < before.len() ==> after[i] == before[i],
        !wanted(after[before.len() as int]),
    ensures
        first_where(after, wanted, 0) == first_where(before, wanted, 0),
{
    lemma_first_where(before, wanted, 0);
    lemma_first_where(after, wanted, 0);
    match (first_where(before, wanted, 0), first_where(after, wanted, 0)) {
        (Some(a), Some(b)) => {
            assert(wanted(before[a]) && wanted(after[a]));
            assert(wanted(after[b]));
            if b < before.len() {
                assert(wanted(before[b]));
            }
        },
        (Some(a), None) => {
            assert(wanted(after[a]));
        },
        (None, Some(b)) => {
            assert(wanted(after[b]));
            if b < before.len() {
                assert(wanted(before[b]));
            }
        },
        (None, None) => {},
    }
}

proof fn lemma_removed<V>(before: Seq<PathEntry<V>>, key: Seq<Seq<char>>)
    ensures
        ({
            let after = before.filter(entry_not_for::<V>(key));
            &&& entry_at(after, key) is None
            &&& forall|path: Seq<Seq<char>>|
                path != key ==> {
                    &&& (#[trigger] entry_at(after, path) is Some) == (entry_at(before, path) is Some)
                    &&& entry_at(before, path) is Some ==> after[entry_at(after, path)->0]
                        == before[entry_at(before, path)->0]
                }
        }),
    decreases before.len(),
{
    reveal(Seq::filter);
    let keep = entry_not_for::<V>(key);
    let after = before.filter(keep);
    if before.len() > 0 {
        let front = before.drop_last();
        lemma_removed(front, key);
        let front_after = front.filter(keep);
        assert(before =~= front.push(before.last()));
        assert forall|path: Seq<Seq<char>>| path != key implies {
            &&& (#[trigger] entry_at(after, path) is Some) == (entry_at(before, path) is Some)
            &&& entry_at(before, path) is Some ==> after[entry_at(after, path)->0]
                == before[entry_at(before, path)->0]
        } by {
            assert((entry_at(front_after, path) is Some) == (entry_at(front, path) is Some));
            lemma_last_first(front, before, entry_for::<V>(path));
            if keep(before.last()) {
                lemma_last_first(front_after, after, entry_for::<V>(path));
            }
            lemma_first_where(front, entry_for::<V>(path), 0);
            lemma_first_where(front_after, entry_for::<V>(path), 0);
        }
        if keep(before.last()) {
            lemma_last_first(front_after, after, entry_for::<V>(key));
        }
    }
}

/// The first match of a sequence with one item more.
proof fn lemma_last_first<V>(
    front: Seq<PathEntry<V>>,
    all: Seq<PathEntry<V>>,
    wanted: spec_fn(PathEntry<V>) -> bool,
)
    requires
        all.len() == front.len() + 1,
        forall|i: int| 0 <= i < front.len() ==> all[i] == front[i],
    ensures
        first_where(all, wanted, 0) == match first_where(front, wanted, 0) {
            Some(at) => Some(at),
            None => if wanted(all.last()) {
                Some(front.len() as int)
            } else {
                None
            },
        },
{
    lemma_first_where(front, wanted, 0);
    lemma_first_where(all, wanted, 0);
    match (first_where(front, wanted, 0), first_where(all, wanted, 0)) {
        (Some(a), Some(b)) => {
            assert(wanted(all[a]));
            if b < front.len() {
                assert(wanted(front[b]));
            }
        },
        (Some(a), None) => {
            assert(wanted(all[a]));
        },
        (None, Some(b)) => {
            if b < front.len() {
                assert(wanted(front[b]));
            }
        },
        (None, None) => {
            assert(!wanted(all[front.len() as int]));
        },
    }
}

} // verus!
