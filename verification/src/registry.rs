//! A name-keyed registry with insert-or-replace semantics.
//!
//! Entries are kept in registration order. Registering a name that is already
//! present replaces the entry in place, so the position of every entry is
//! stable for as long as it lives.

use vstd::prelude::*;

verus! {

/// Whether `name` occurs among `names`.
pub open spec fn has_name(names: Seq<Seq<char>>, name: Seq<char>) -> bool {
    exists|i: int| 0 <= i < names.len() && names[i] == name
}

/// A position of `name` among `names`; meaningful only where `has_name`.
pub open spec fn position_of(names: Seq<Seq<char>>, name: Seq<char>) -> int {
    choose|i: int| 0 <= i < names.len() && names[i] == name
}

/// The mathematical content of a registry: two sequences of equal length,
/// the `i`-th name belonging to the `i`-th item.
pub struct Entries<V> {
    pub names: Seq<Seq<char>>,
    pub items: Seq<V>,
}

impl<V> Entries<V> {
    /// Every name has an item and no name occurs twice.
    pub open spec fn wf(self) -> bool {
        &&& self.names.len() == self.items.len()
        &&& forall|i: int, j: int|
            0 <= i < j < self.names.len() ==> self.names[i] != self.names[j]
    }

    pub open spec fn empty() -> Self {
        Entries { names: Seq::empty(), items: Seq::empty() }
    }

    pub open spec fn len(self) -> nat {
        self.names.len()
    }

    pub open spec fn contains(self, name: Seq<char>) -> bool {
        has_name(self.names, name)
    }

    /// The position of `name`; meaningful only where `contains(name)`.
    pub open spec fn index_of(self, name: Seq<char>) -> int {
        position_of(self.names, name)
    }

    /// The item registered under `name`; meaningful only where `contains(name)`.
    pub open spec fn get(self, name: Seq<char>) -> V {
        self.items[self.index_of(name)]
    }

    /// The entries with the item at position `i` replaced.
    pub open spec fn set(self, i: int, item: V) -> Self {
        Entries { names: self.names, items: self.items.update(i, item) }
    }

    /// Last-writer-wins registration: a known name keeps its position and gets
    /// the new item, an unknown name is appended.
    pub open spec fn insert(self, name: Seq<char>, item: V) -> Self {
        if self.contains(name) {
            self.set(self.index_of(name), item)
        } else {
            Entries { names: self.names.push(name), items: self.items.push(item) }
        }
    }

    /// The same names, with `f` applied to every item.
    pub open spec fn map<W>(self, f: spec_fn(V) -> W) -> Entries<W> {
        Entries { names: self.names, items: self.items.map_values(f) }
    }

    /// Mapping after a replacement is replacing after mapping.
    pub proof fn lemma_map_set<W>(self, f: spec_fn(V) -> W, i: int, item: V)
        requires
            0 <= i < self.items.len(),
        ensures
            self.set(i, item).map(f) == self.map(f).set(i, f(item)),
    {
        assert(self.set(i, item).map(f).items =~= self.map(f).set(i, f(item)).items);
    }

    /// Mapping after a registration is registering after mapping.
    pub proof fn lemma_map_insert<W>(self, f: spec_fn(V) -> W, name: Seq<char>, item: V)
        requires
            self.wf(),
        ensures
            self.insert(name, item).map(f) == self.map(f).insert(name, f(item)),
    {
        if self.contains(name) {
            self.lemma_map_set(f, self.index_of(name), item);
        } else {
            assert(self.insert(name, item).map(f).items =~= self.map(f).insert(
                name,
                f(item),
            ).items);
        }
    }

    /// In well-formed entries a position is the `index_of` its own name.
    pub proof fn lemma_index_of(self, i: int)
        requires
            self.wf(),
            0 <= i < self.len(),
        ensures
            self.contains(self.names[i]),
            self.index_of(self.names[i]) == i,
    {
    }

    /// Replacing what was just registered is the same as registering the
    /// replacement in the first place.
    pub proof fn lemma_insert_set(self, name: Seq<char>, first: V, second: V)
        requires
            self.wf(),
        ensures
            self.insert(name, first).set(self.insert(name, first).index_of(name), second)
                == self.insert(name, second),
    {
        let once = self.insert(name, first);
        if self.contains(name) {
            let k = self.index_of(name);
            assert(once.set(k, second).items =~= self.insert(name, second).items);
        } else {
            let n = self.names.len() as int;
            self.lemma_insert(name, first);
            once.lemma_index_of(n);
            assert(once.set(n, second).items =~= self.insert(name, second).items);
        }
    }

    /// Registration keeps the entries well formed, makes the name known, stores
    /// the item under it and leaves every other name's item alone.
    pub proof fn lemma_insert(self, name: Seq<char>, item: V)
        requires
            self.wf(),
        ensures
            self.insert(name, item).wf(),
            self.insert(name, item).contains(name),
            self.insert(name, item).get(name) == item,
            forall|other: Seq<char>|
                other != name ==> #[trigger] self.insert(name, item).contains(other)
                    == self.contains(other),
            forall|other: Seq<char>|
                other != name && self.contains(other) ==> #[trigger] self.insert(name, item).get(
                    other,
                ) == self.get(other),
    {
        let after = self.insert(name, item);
        if self.contains(name) {
            after.lemma_index_of(self.index_of(name));
            assert forall|other: Seq<char>| other != name && self.contains(other) implies #[trigger]
                after.get(other) == self.get(other) by {
                after.lemma_index_of(self.index_of(other));
            }
        } else {
            after.lemma_index_of(self.names.len() as int);
            assert forall|other: Seq<char>| other != name implies #[trigger] after.contains(other)
                == self.contains(other) by {
                if self.contains(other) {
                    assert(after.names[self.index_of(other)] == other);
                }
            }
            assert forall|other: Seq<char>| other != name && self.contains(other) implies #[trigger]
                after.get(other) == self.get(other) by {
                after.lemma_index_of(self.index_of(other));
            }
        }
    }
}

/// The names as character sequences.
pub open spec fn name_views(names: Seq<String>) -> Seq<Seq<char>> {
    names.map_values(|s: String| s@)
}

/// A registry of items by name. Names are unique; registering a name again
/// replaces the earlier item.
pub struct Registry<T> {
    names: Vec<String>,
    items: Vec<T>,
}

impl<T> View for Registry<T> {
    type V = Entries<T>;

    closed spec fn view(&self) -> Entries<T> {
        Entries { names: name_views(self.names@), items: self.items@ }
    }
}

impl<T> Registry<T> {
    #[verifier::type_invariant]
    pub closed spec fn wf(self) -> bool {
        self@.wf()
    }

    /// A registry with no entries.
    pub fn new() -> (r: Self)
        ensures
            r@ == Entries::<T>::empty(),
    {
        let r = Registry { names: Vec::new(), items: Vec::new() };
        assert(r@.names =~= Seq::empty());
        r
    }

    /// The number of registered names.
    pub fn len(&self) -> (n: usize)
        ensures
            n == self@.len(),
            self@.wf(),
        no_unwind
    {
        proof {
            use_type_invariant(self);
        }
        self.items.len()
    }

    /// The position of `name`, if it is registered.
    pub fn position(&self, name: &str) -> (r: Option<usize>)
        ensures
            self@.wf(),
            match r {
                Some(i) => self@.contains(name@) && i == self@.index_of(name@),
                None => !self@.contains(name@),
            },
    {
        proof {
            use_type_invariant(self);
        }
        let key = name.to_owned();
        let mut i: usize = 0;
        while i < self.names.len()
            invariant
                i <= self.names.len(),
                self@.wf(),
                key@ == name@,
                forall|j: int| 0 <= j < i ==> self@.names[j] != name@,
            decreases self.names.len() - i,
        {
            if self.names[i] == key {
                proof {
                    self@.lemma_index_of(i as int);
                }
                return Some(i);
            }
            i += 1;
        }
        None
    }

    /// Whether `name` is registered.
    pub fn contains(&self, name: &str) -> (b: bool)
        ensures
            b == self@.contains(name@),
    {
        self.position(name).is_some()
    }

    /// Registers `item` under `name`, replacing an earlier item of that name,
    /// and returns the position at which it now stands.
    pub fn insert(&mut self, name: &str, item: T) -> (i: usize)
        ensures
            final(self)@ == old(self)@.insert(name@, item),
            final(self)@.wf(),
            final(self)@.contains(name@),
            i == final(self)@.index_of(name@),
            i < final(self)@.len(),
    {
        proof {
            use_type_invariant(&*self);
            self@.lemma_insert(name@, item);
        }
        match self.position(name) {
            Some(i) => {
                self.items[i] = item;
                i
            },
            None => {
                let mut taken = Registry::new();
                core::mem::swap(self, &mut taken);
                let Registry { mut names, mut items } = taken;
                let i = items.len();
                names.push(name.to_owned());
                items.push(item);
                assert(name_views(names@) =~= old(self)@.names.push(name@));
                *self = Registry { names, items };
                proof {
                    self@.lemma_index_of(i as int);
                }
                i
            },
        }
    }

    /// The item at position `i`.
    pub fn get(&self, i: usize) -> (r: &T)
        requires
            i < self@.len(),
        ensures
            *r == self@.items[i as int],
        no_unwind
    {
        proof {
            use_type_invariant(self);
        }
        &self.items[i]
    }

    /// A mutable handle on the item at position `i`. Whatever the handle is
    /// used for, only that item changes.
    pub fn get_mut(&mut self, i: usize) -> (r: &mut T)
        requires
            i < old(self)@.len(),
        ensures
            *r == old(self)@.items[i as int],
            final(self)@ == old(self)@.set(i as int, *final(r)),
        no_unwind
    {
        proof {
            use_type_invariant(&*self);
        }
        &mut self.items[i]
    }
}

} // verus!
