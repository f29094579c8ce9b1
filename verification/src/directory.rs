//! A directory: items under names, no name twice, in the order in which they
//! were entered.

use vstd::prelude::*;
use vstd::string::*;

verus! {

#[derive(Debug)]
pub struct Directory<T> {
    names: Vec<String>,
    items: Vec<T>,
}

/// In a sequence without duplicates, each entry is found at its own place.
pub proof fn lemma_index_of<A>(s: Seq<A>, i: int)
    requires
        s.no_duplicates(),
        0 <= i < s.len(),
    ensures
        s.contains(s[i]),
        s.index_of(s[i]) == i,
{
    let j = s.index_of(s[i]);
    assert(0 <= j < s.len() && s[j] == s[i]);
}

/// The map that a sequence of names and a sequence of items stand for: each
/// name leads to the item at its place.
pub open spec fn map_of<T>(names: Seq<Seq<char>>, items: Seq<T>) -> Map<Seq<char>, T> {
    Map::new(|name: Seq<char>| names.contains(name), |name: Seq<char>| items[names.index_of(name)])
}

/// Entering a new name at the end enters it in the map.
pub proof fn lemma_map_of_push<T>(names: Seq<Seq<char>>, items: Seq<T>, name: Seq<char>, item: T)
    requires
        names.len() == items.len(),
        names.no_duplicates(),
        !names.contains(name),
    ensures
        names.push(name).no_duplicates(),
        map_of(names.push(name), items.push(item)) == map_of(names, items).insert(name, item),
{
    let names2 = names.push(name);
    let items2 = items.push(item);
    assert forall|i: int, j: int|
        0 <= i < names2.len() && 0 <= j < names2.len() && i != j implies names2[i] != names2[j] by {
        if i < names.len() && j < names.len() {
        } else if i < names.len() {
            assert(names.contains(names[i]));
        } else {
            assert(names.contains(names[j]));
        }
    }
    assert forall|k: Seq<char>| #[trigger]
        names2.contains(k) <==> (names.contains(k) || k == name) by {
        if names.contains(k) {
            let i = names.index_of(k);
            assert(names2[i] == k);
        }
        if k == name {
            assert(names2[names.len() as int] == k);
        }
        if names2.contains(k) {
            let i = names2.index_of(k);
            if i < names.len() {
                assert(names[i] == k);
            }
        }
    }
    let left = map_of(names2, items2);
    let right = map_of(names, items).insert(name, item);
    assert forall|k: Seq<char>| left.dom().contains(k) implies #[trigger] left[k] == right[k] by {
        let i = names2.index_of(k);
        assert(0 <= i < names2.len() && names2[i] == k);
        if k == name {
            lemma_index_of(names2, names.len() as int);
        } else {
            assert(names[i] == k);
            lemma_index_of(names, i);
        }
    }
    assert(left =~= right);
}

/// Taking out the entry at a place takes its name out of the map.
pub proof fn lemma_map_of_remove<T>(names: Seq<Seq<char>>, items: Seq<T>, at: int)
    requires
        names.len() == items.len(),
        names.no_duplicates(),
        0 <= at < names.len(),
    ensures
        names.remove(at).no_duplicates(),
        !names.remove(at).contains(names[at]),
        map_of(names.remove(at), items.remove(at)) == map_of(names, items).remove(names[at]),
{
    let names2 = names.remove(at);
    let items2 = items.remove(at);
    assert forall|i: int| 0 <= i < names2.len() implies #[trigger] names2[i] == names[if i < at {
        i
    } else {
        i + 1
    }] by {}
    assert forall|i: int, j: int|
        0 <= i < names2.len() && 0 <= j < names2.len() && i != j implies names2[i]
        != names2[j] by {}
    if names2.contains(names[at]) {
        let i = names2.index_of(names[at]);
        assert(names2[i] == names[at]);
    }
    assert forall|k: Seq<char>| #[trigger]
        names2.contains(k) <==> (names.contains(k) && k != names[at]) by {
        if names2.contains(k) {
            let i = names2.index_of(k);
            assert(names2[i] == k);
            assert(names.contains(k));
        }
        if names.contains(k) && k != names[at] {
            let i = names.index_of(k);
            assert(names[i] == k);
            if i < at {
                assert(names2[i] == k);
            } else {
                assert(names2[i - 1] == k);
            }
        }
    }
    let left = map_of(names2, items2);
    let right = map_of(names, items).remove(names[at]);
    assert forall|k: Seq<char>| left.dom().contains(k) implies #[trigger] left[k] == right[k] by {
        let i = names2.index_of(k);
        assert(0 <= i < names2.len() && names2[i] == k);
        let j = if i < at {
            i
        } else {
            i + 1
        };
        assert(names[j] == k);
        lemma_index_of(names, j);
        assert(items2[i] == items[j]);
    }
    assert(left =~= right);
}

/// Putting another item at a place puts it under that place's name in the map.
pub proof fn lemma_map_of_update<T>(names: Seq<Seq<char>>, items: Seq<T>, at: int, item: T)
    requires
        names.len() == items.len(),
        names.no_duplicates(),
        0 <= at < names.len(),
    ensures
        map_of(names, items.update(at, item)) == map_of(names, items).insert(names[at], item),
{
    let left = map_of(names, items.update(at, item));
    let right = map_of(names, items).insert(names[at], item);
    assert(names.contains(names[at]));
    assert forall|k: Seq<char>| left.dom().contains(k) implies #[trigger] left[k] == right[k] by {
        let i = names.index_of(k);
        assert(0 <= i < names.len() && names[i] == k);
        if k == names[at] {
            lemma_index_of(names, at);
        }
    }
    assert(left =~= right);
}

impl<T> Directory<T> {
    /// The names, in the order in which they were entered.
    pub closed spec fn names(&self) -> Seq<Seq<char>> {
        Seq::new(self.names@.len(), |i: int| self.names@[i]@)
    }

    /// The items, each at the place of its name.
    pub closed spec fn items(&self) -> Seq<T> {
        self.items@
    }

    /// A directory is well formed when each name has its item and no name
    /// occurs twice.
    pub open spec fn wf(&self) -> bool {
        self.names().len() == self.items().len() && self.names().no_duplicates()
    }

    /// The directory as a map from names to items.
    pub open spec fn map(&self) -> Map<Seq<char>, T> {
        map_of(self.names(), self.items())
    }

    pub fn new() -> (d: Self)
        ensures
            d.wf(),
            d.names() == Seq::<Seq<char>>::empty(),
            d.items() == Seq::<T>::empty(),
            d.map() == Map::<Seq<char>, T>::empty(),
    {
        let d = Self { names: Vec::new(), items: Vec::new() };
        proof {
            assert(d.names() =~= Seq::<Seq<char>>::empty());
            assert(d.map() =~= Map::<Seq<char>, T>::empty());
        }
        d
    }

    /// The place of `name`, if it is entered.
    pub fn position(&self, name: &str) -> (place: Option<usize>)
        requires
            self.wf(),
        ensures
            match place {
                Some(i) => i < self.names().len() && self.names()[i as int] == name@
                    && self.names().index_of(name@) == i,
                None => !self.names().contains(name@),
            },
            place.is_some() == self.map().contains_key(name@),
    {
        let key: String = name.to_owned();
        let mut i: usize = 0;
        while i < self.names.len()
            invariant
                i <= self.names.len(),
                key@ == name@,
                self.wf(),
                forall|j: int| 0 <= j < i ==> self.names()[j] != name@,
            decreases self.names.len() - i,
        {
            if self.names[i] == key {
                proof {
                    assert(self.names()[i as int] == name@);
                    lemma_index_of(self.names(), i as int);
                }
                return Some(i);
            }
            i = i + 1;
        }
        proof {
            if self.names().contains(name@) {
                let j = self.names().index_of(name@);
                assert(self.names()[j] == name@);
            }
        }
        None
    }

    pub fn contains_key(&self, name: &str) -> (found: bool)
        requires
            self.wf(),
        ensures
            found == self.map().contains_key(name@),
    {
        self.position(name).is_some()
    }

    /// The item under `name`, if there is one.
    pub fn get(&self, name: &str) -> (found: Option<&T>)
        requires
            self.wf(),
        ensures
            match found {
                Some(item) => self.map().contains_key(name@) && *item == self.map()[name@],
                None => !self.map().contains_key(name@),
            },
    {
        match self.position(name) {
            Some(i) => Some(&self.items[i]),
            None => None,
        }
    }

    /// The item at place `i`.
    pub fn item(&self, i: usize) -> (item: &T)
        requires
            self.wf(),
            i < self.items().len(),
        ensures
            *item == self.items()[i as int],
    {
        &self.items[i]
    }

    /// The items, in the order of their names.
    pub fn values(&self) -> (items: &Vec<T>)
        ensures
            items@ == self.items(),
    {
        &self.items
    }

    /// The items, to be changed where they stand. The names stay as they are,
    /// and so does the directory's form as long as no item is added or lost.
    pub fn values_mut(&mut self) -> (items: &mut [T])
        ensures
            items@ == old(self).items(),
            final(self).names() == old(self).names(),
            final(self).items() == final(items)@,
            old(self).wf() && final(items)@.len() == items@.len() ==> final(self).wf(),
    {
        self.items.as_mut_slice()
    }

    /// The item at place `i`, to be changed. The names stay as they are.
    pub fn item_mut(&mut self, i: usize) -> (item: &mut T)
        requires
            old(self).wf(),
            i < old(self).items().len(),
        ensures
            *item == old(self).items()[i as int],
            final(self).names() == old(self).names(),
            final(self).items() == old(self).items().update(i as int, *final(item)),
            final(self).wf(),
            final(self).map() == old(self).map().insert(old(self).names()[i as int], *final(item)),
    {
        proof {
            let names = self.names();
            let items = self.items();
            assert forall|item: T| #[trigger]
                map_of(names, items.update(i as int, item)) == map_of(names, items).insert(
                    names[i as int],
                    item,
                ) by {
                lemma_map_of_update(names, items, i as int, item);
            }
        }
        &mut self.items[i]
    }

    /// Enters `item` under `name`, unless the name is taken. Says whether the
    /// item was entered.
    pub fn insert(&mut self, name: String, item: T) -> (entered: bool)
        requires
            old(self).wf(),
        ensures
            final(self).wf(),
            entered == !old(self).map().contains_key(name@),
            entered ==> final(self).names() == old(self).names().push(name@) && final(self).items()
                == old(self).items().push(item) && final(self).map() == old(self).map().insert(
                name@,
                item,
            ),
            !entered ==> *final(self) == *old(self),
    {
        if self.position(name.as_str()).is_some() {
            return false;
        }
        proof {
            lemma_map_of_push(self.names(), self.items(), name@, item);
        }
        let ghost before = self.names();
        self.names.push(name);
        self.items.push(item);
        proof {
            assert(self.names() =~= before.push(name@));
        }
        true
    }

    /// Takes out the entry under `name` and hands back its item, if there is
    /// one. The other entries keep their order.
    pub fn remove(&mut self, name: &str) -> (taken: Option<T>)
        requires
            old(self).wf(),
        ensures
            final(self).wf(),
            match taken {
                Some(item) => {
                    let at = old(self).names().index_of(name@);
                    &&& old(self).map().contains_key(name@)
                    &&& item == old(self).map()[name@]
                    &&& final(self).names() == old(self).names().remove(at)
                    &&& final(self).items() == old(self).items().remove(at)
                    &&& final(self).map() == old(self).map().remove(name@)
                },
                None => !old(self).map().contains_key(name@) && *final(self) == *old(self),
            },
    {
        match self.position(name) {
            Some(i) => {
                proof {
                    lemma_map_of_remove(self.names(), self.items(), i as int);
                }
                let ghost before = self.names();
                self.names.remove(i);
                let item = self.items.remove(i);
                proof {
                    assert(self.names() =~= before.remove(i as int));
                }
                Some(item)
            },
            None => None,
        }
    }
}

} // verus!
