//! A finite set of packages, unique by name and version.

use crate::package::{root_key, Package, PackageKey};
use vstd::prelude::*;

verus! {

/// The names and versions of a sequence of packages, in the same order.
pub open spec fn keys_of(packages: Seq<Package>) -> Seq<PackageKey> {
    packages.map_values(|package: Package| package.key())
}

/// The set of names and versions that occur in a sequence of packages.
pub open spec fn key_set(packages: Seq<Package>) -> Set<PackageKey> {
    keys_of(packages).to_set()
}

/// A set of packages. No name and version occurs twice in it.
#[derive(Debug)]
pub struct PackageSet {
    items: Vec<Package>,
}

impl View for PackageSet {
    type V = Set<PackageKey>;

    closed spec fn view(&self) -> Set<PackageKey> {
        key_set(self.items@)
    }
}

impl PackageSet {
    #[verifier::type_invariant]
    spec fn distinct(&self) -> bool {
        keys_of(self.items@).no_duplicates()
    }

    /// Every package set is finite.
    pub proof fn lemma_finite(&self)
        ensures
            self@.finite(),
    {
        vstd::seq_lib::seq_to_set_is_finite(keys_of(self.items@));
    }

    /// The empty set.
    pub fn new() -> (set: PackageSet)
        ensures
            set@ == Set::<PackageKey>::empty(),
    {
        let set = PackageSet { items: Vec::new() };
        assert(set@ =~= Set::<PackageKey>::empty());
        set
    }

    /// The number of packages in the set.
    pub fn len(&self) -> (count: usize)
        ensures
            count == self@.len(),
    {
        proof {
            use_type_invariant(self);
            keys_of(self.items@).unique_seq_to_set();
        }
        self.items.len()
    }

    /// Whether the set holds no package.
    pub fn is_empty(&self) -> (empty: bool)
        ensures
            empty == (self@ == Set::<PackageKey>::empty()),
    {
        proof {
            use_type_invariant(self);
            keys_of(self.items@).unique_seq_to_set();
            if self.items@.len() > 0 {
                assert(keys_of(self.items@)[0] == self.items@[0].key());
                assert(self@.contains(self.items@[0].key()));
            } else {
                assert(self@ =~= Set::<PackageKey>::empty());
            }
        }
        self.items.len() == 0
    }

    /// Moves the packages out and leaves the set empty.
    fn take_items(&mut self) -> (items: Vec<Package>)
        ensures
            items == old(self).items,
            final(self).items@ == Seq::<Package>::empty(),
    {
        let mut taken = PackageSet { items: Vec::new() };
        std::mem::swap(self, &mut taken);
        let PackageSet { items } = taken;
        items
    }

    /// Where a package with the same name and version stands, if anywhere.
    fn position(&self, package: &Package) -> (found: Option<usize>)
        ensures
            match found {
                Some(index) => index < self.items@.len() && self.items@[index as int].key()
                    == package.key(),
                None => !self@.contains(package.key()),
            },
    {
        let mut index: usize = 0;
        while index < self.items.len()
            invariant
                index <= self.items@.len(),
                forall|i: int| 0 <= i < index ==> self.items@[i].key() != package.key(),
            decreases self.items@.len() - index,
        {
            if self.items[index] == *package {
                return Some(index);
            }
            index = index + 1;
        }
        proof {
            let keys = keys_of(self.items@);
            assert forall|i: int| 0 <= i < keys.len() implies keys[i] != package.key() by {
                assert(keys[i] == self.items@[i].key());
            }
        }
        None
    }

    /// Whether the set holds a package with this name and version.
    pub fn contains(&self, package: &Package) -> (held: bool)
        ensures
            held == self@.contains(package.key()),
    {
        match self.position(package) {
            Some(index) => {
                proof {
                    assert(keys_of(self.items@)[index as int] == package.key());
                }
                true
            },
            None => false,
        }
    }

    /// Adds a package. Returns whether it was new to the set.
    pub fn insert(&mut self, package: Package) -> (added: bool)
        ensures
            final(self)@ == old(self)@.insert(package.key()),
            added == !old(self)@.contains(package.key()),
    {
        proof {
            use_type_invariant(&*self);
        }
        match self.position(&package) {
            Some(index) => {
                proof {
                    assert(keys_of(self.items@)[index as int] == package.key());
                    assert(self@ =~= self@.insert(package.key()));
                }
                false
            },
            None => {
                let ghost before = self.items@;
                let mut items = self.take_items();
                items.push(package);
                proof {
                    let keys = keys_of(before);
                    assert(keys_of(items@) =~= keys.push(package.key()));
                    assert forall|i: int| 0 <= i < keys.len() implies keys[i] != package.key() by {
                        assert(keys.to_set().contains(keys[i]));
                    }
                    lemma_push_key(keys, package.key());
                }
                *self = PackageSet { items };
                true
            },
        }
    }

    /// Takes a package out. Returns whether the set held it.
    pub fn remove(&mut self, package: &Package) -> (removed: bool)
        ensures
            final(self)@ == old(self)@.remove(package.key()),
            removed == old(self)@.contains(package.key()),
    {
        proof {
            use_type_invariant(&*self);
        }
        match self.position(package) {
            Some(index) => {
                let ghost before = self.items@;
                let mut items = self.take_items();
                let _ = items.remove(index);
                proof {
                    let keys = keys_of(before);
                    assert(keys[index as int] == package.key());
                    assert(keys_of(items@) =~= keys.remove(index as int));
                    lemma_remove_key(keys, index as int);
                }
                *self = PackageSet { items };
                true
            },
            None => {
                proof {
                    assert(self@ =~= self@.remove(package.key()));
                }
                false
            },
        }
    }

    /// Adds every package of a list.
    pub fn extend(&mut self, packages: &Vec<Package>)
        ensures
            final(self)@ == old(self)@ + key_set(packages@),
    {
        let mut index: usize = 0;
        proof {
            assert(key_set(packages@.take(0)) =~= Set::<PackageKey>::empty());
            assert(self@ =~= old(self)@ + key_set(packages@.take(0)));
        }
        while index < packages.len()
            invariant
                index <= packages@.len(),
                self@ == old(self)@ + key_set(packages@.take(index as int)),
            decreases packages@.len() - index,
        {
            let _ = self.insert(packages[index].duplicate());
            proof {
                let shorter = packages@.take(index as int);
                let longer = packages@.take(index + 1);
                assert(keys_of(longer) =~= keys_of(shorter).push(packages@[index as int].key()));
                lemma_push_key(keys_of(shorter), packages@[index as int].key());
                assert(self@ =~= old(self)@ + key_set(longer));
            }
            index = index + 1;
        }
        proof {
            assert(packages@.take(index as int) =~= packages@);
        }
    }

    /// Adds every package of another set.
    pub fn merge(&mut self, other: &PackageSet)
        ensures
            final(self)@ == old(self)@ + other@,
    {
        self.extend(&other.items);
    }

    /// Takes the fabricated root package out of the set.
    pub fn remove_root(&mut self)
        ensures
            final(self)@ == old(self)@.remove(root_key()),
    {
        let root = Package::root();
        let _ = self.remove(&root);
    }

    /// The packages of the set, each once, in no particular order.
    pub fn to_vec(&self) -> (packages: Vec<Package>)
        ensures
            key_set(packages@) == self@,
            keys_of(packages@).no_duplicates(),
            packages@.len() == self@.len(),
    {
        proof {
            use_type_invariant(self);
            keys_of(self.items@).unique_seq_to_set();
        }
        let mut packages: Vec<Package> = Vec::new();
        let mut index: usize = 0;
        while index < self.items.len()
            invariant
                index <= self.items@.len(),
                packages@ == self.items@.take(index as int),
            decreases self.items@.len() - index,
        {
            packages.push(self.items[index].duplicate());
            proof {
                assert(packages@ =~= self.items@.take(index + 1));
            }
            index = index + 1;
        }
        proof {
            assert(self.items@.take(index as int) =~= self.items@);
        }
        packages
    }
}

/// Appending a key to a sequence adds it to the set of its keys.
proof fn lemma_push_key(keys: Seq<PackageKey>, key: PackageKey)
    ensures
        keys.push(key).to_set() == keys.to_set().insert(key),
{
    let extended = keys.push(key);
    assert forall|k: PackageKey| extended.to_set().contains(k) == keys.to_set().insert(
        key,
    ).contains(k) by {
        if extended.contains(k) {
            let i = choose|i: int| 0 <= i < extended.len() && extended[i] == k;
            if i < keys.len() {
                assert(keys[i] == k);
            }
        }
        if keys.contains(k) {
            let i = choose|i: int| 0 <= i < keys.len() && keys[i] == k;
            assert(extended[i] == k);
        }
        if k == key {
            assert(extended[keys.len() as int] == k);
        }
    }
    assert(extended.to_set() =~= keys.to_set().insert(key));
}

/// Taking one position out of a sequence without repeats takes its key out of
/// the set of keys, and leaves a sequence without repeats.
proof fn lemma_remove_key(keys: Seq<PackageKey>, index: int)
    requires
        keys.no_duplicates(),
        0 <= index < keys.len(),
    ensures
        keys.remove(index).no_duplicates(),
        keys.remove(index).to_set() == keys.to_set().remove(keys[index]),
{
    let rest = keys.remove(index);
    assert forall|i: int, j: int|
        0 <= i < rest.len() && 0 <= j < rest.len() && i != j implies rest[i] != rest[j] by {
        let a = if i < index { i } else { i + 1 };
        let b = if j < index { j } else { j + 1 };
        assert(rest[i] == keys[a]);
        assert(rest[j] == keys[b]);
    }
    assert forall|k: PackageKey| rest.to_set().contains(k) == keys.to_set().remove(
        keys[index],
    ).contains(k) by {
        if rest.contains(k) {
            let i = choose|i: int| 0 <= i < rest.len() && rest[i] == k;
            let a = if i < index { i } else { i + 1 };
            assert(keys[a] == k);
        }
        if keys.contains(k) && k != keys[index] {
            let a = choose|a: int| 0 <= a < keys.len() && keys[a] == k;
            let i = if a < index { a } else { a - 1 };
            assert(rest[i] == k);
        }
    }
    assert(rest.to_set() =~= keys.to_set().remove(keys[index]));
}

} // verus!
