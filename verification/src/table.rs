//! A map from names to values, kept as a list of entries in the order in which they came.
use vstd::prelude::*;

verus! {

/// A map from names to values.
pub struct Table<V> {
    entries: Vec<(String, V)>,
}

/// No two entries have the same key.
pub open spec fn distinct_keys<V>(list: Seq<(Seq<char>, V)>) -> bool {
    forall|i: int, j: int|
        0 <= i < list.len() && 0 <= j < list.len() && (#[trigger] list[i]).0 == (
        #[trigger] list[j]).0 ==> i == j
}

/// Whether some entry has the key.
pub open spec fn has_key<V>(list: Seq<(Seq<char>, V)>, key: Seq<char>) -> bool {
    exists|i: int| 0 <= i < list.len() && (#[trigger] list[i]).0 == key
}

/// The place of an entry with the key.
pub open spec fn place_of<V>(list: Seq<(Seq<char>, V)>, key: Seq<char>) -> int {
    choose|i: int| 0 <= i < list.len() && (#[trigger] list[i]).0 == key
}

/// The map that a list of entries stands for.
pub open spec fn map_of<V>(list: Seq<(Seq<char>, V)>) -> Map<Seq<char>, V> {
    Map::new(|k: Seq<char>| has_key(list, k), |k: Seq<char>| list[place_of(list, k)].1)
}

/// Each entry is in the map, under its key.
pub proof fn lemma_map_of<V>(list: Seq<(Seq<char>, V)>, i: int)
    requires
        distinct_keys(list),
        0 <= i < list.len(),
    ensures
        map_of(list).contains_key(list[i].0),
        map_of(list)[list[i].0] == list[i].1,
{
    assert(has_key(list, list[i].0));
    let j = place_of(list, list[i].0);
    assert(list[j].0 == list[i].0);
}

/// The map of a list that grew by one entry with a new key.
pub proof fn lemma_map_of_push<V>(list: Seq<(Seq<char>, V)>, key: Seq<char>, value: V)
    requires
        distinct_keys(list),
        !has_key(list, key),
    ensures
        distinct_keys(list.push((key, value))),
        map_of(list.push((key, value))) == map_of(list).insert(key, value),
{
    let longer = list.push((key, value));
    assert(distinct_keys(longer));
    assert forall|k: Seq<char>| has_key(longer, k) == (has_key(list, k) || k == key) by {
        if has_key(list, k) {
            let i = place_of(list, k);
            assert(longer[i].0 == k);
        }
        if k == key {
            assert(longer[list.len() as int].0 == k);
        }
        if has_key(longer, k) && k != key {
            let i = place_of(longer, k);
            assert(list[i].0 == k);
        }
    }
    assert forall|k: Seq<char>| has_key(longer, k) implies map_of(longer)[k] == map_of(list).insert(
        key,
        value,
    )[k] by {
        let i = place_of(longer, k);
        lemma_map_of(longer, i);
        if k != key {
            assert(list[i].0 == k);
            lemma_map_of(list, i);
        }
    }
    assert(map_of(longer) =~= map_of(list).insert(key, value));
}

/// The map of a list in which one entry has another value.
pub proof fn lemma_map_of_update<V>(list: Seq<(Seq<char>, V)>, place: int, value: V)
    requires
        distinct_keys(list),
        0 <= place < list.len(),
    ensures
        distinct_keys(list.update(place, (list[place].0, value))),
        map_of(list.update(place, (list[place].0, value))) == map_of(list).insert(
            list[place].0,
            value,
        ),
{
    let key = list[place].0;
    let other = list.update(place, (key, value));
    assert forall|i: int| 0 <= i < list.len() implies (#[trigger] other[i]).0 == list[i].0 by {}
    assert(distinct_keys(other));
    assert forall|k: Seq<char>| has_key(other, k) == has_key(list, k) by {
        if has_key(list, k) {
            let i = place_of(list, k);
            assert(other[i].0 == k);
        }
        if has_key(other, k) {
            let i = place_of(other, k);
            assert(list[i].0 == k);
        }
    }
    assert(has_key(list, key));
    assert forall|k: Seq<char>| has_key(other, k) implies map_of(other)[k] == map_of(list).insert(
        key,
        value,
    )[k] by {
        let i = place_of(other, k);
        lemma_map_of(other, i);
        lemma_map_of(list, i);
    }
    assert(map_of(other) =~= map_of(list).insert(key, value));
}

/// The map of a list that lost one entry.
pub proof fn lemma_map_of_remove<V>(list: Seq<(Seq<char>, V)>, place: int)
    requires
        distinct_keys(list),
        0 <= place < list.len(),
    ensures
        distinct_keys(list.remove(place)),
        map_of(list.remove(place)) == map_of(list).remove(list[place].0),
{
    let key = list[place].0;
    let shorter = list.remove(place);
    assert forall|i: int| 0 <= i < shorter.len() implies #[trigger] shorter[i] == list[if i < place {
        i
    } else {
        i + 1
    }] by {}
    assert(distinct_keys(shorter));
    assert forall|k: Seq<char>| has_key(shorter, k) == (has_key(list, k) && k != key) by {
        if has_key(list, k) && k != key {
            let i = place_of(list, k);
            let j = if i < place {
                i
            } else {
                i - 1
            };
            assert(shorter[j].0 == k);
        }
        if has_key(shorter, k) {
            let i = place_of(shorter, k);
            let j = if i < place {
                i
            } else {
                i + 1
            };
            assert(list[j].0 == k);
        }
    }
    assert forall|k: Seq<char>| has_key(shorter, k) implies map_of(shorter)[k] == map_of(
        list,
    ).remove(key)[k] by {
        let i = place_of(shorter, k);
        lemma_map_of(shorter, i);
        let j = if i < place {
            i
        } else {
            i + 1
        };
        lemma_map_of(list, j);
    }
    assert(map_of(shorter) =~= map_of(list).remove(key));
}

/// A list of entries has as many members as its map.
pub proof fn lemma_map_of_len<V>(list: Seq<(Seq<char>, V)>)
    requires
        distinct_keys(list),
    ensures
        map_of(list).dom().finite(),
        map_of(list).len() == list.len(),
    decreases list.len(),
{
    if list.len() == 0 {
        assert(map_of(list).dom() =~= Set::empty());
    } else {
        let front = list.drop_last();
        let last = list.last();
        assert(list =~= front.push(last));
        assert(distinct_keys(front)) by {
            assert forall|i: int, j: int|
                0 <= i < front.len() && 0 <= j < front.len() && (#[trigger] front[i]).0 == (
                #[trigger] front[j]).0 implies i == j by {
                assert(list[i].0 == list[j].0);
            }
        }
        assert(!has_key(front, last.0)) by {
            if has_key(front, last.0) {
                let i = place_of(front, last.0);
                assert(list[i].0 == list[list.len() - 1].0);
            }
        }
        lemma_map_of_len(front);
        lemma_map_of_push(front, last.0, last.1);
        assert(map_of(list).dom() =~= map_of(front).dom().insert(last.0));
    }
}

impl<V> Table<V> {
    /// The entries, in the order in which their keys came.
    pub closed spec fn list(&self) -> Seq<(Seq<char>, V)> {
        self.entries@.map_values(|e: (String, V)| (e.0@, e.1))
    }

    /// No two entries have the same key.
    pub open spec fn wf(&self) -> bool {
        distinct_keys(self.list())
    }
}

impl<V> View for Table<V> {
    type V = Map<Seq<char>, V>;

    open spec fn view(&self) -> Map<Seq<char>, V> {
        map_of(self.list())
    }
}

impl<V> Table<V> {
    /// A table without entries.
    pub fn new() -> (r: Self)
        ensures
            r.wf(),
            r@ == Map::<Seq<char>, V>::empty(),
    {
        let r = Table { entries: Vec::new() };
        assert(r@ =~= Map::<Seq<char>, V>::empty());
        r
    }

    /// The number of entries.
    pub fn len(&self) -> (r: usize)
        requires
            self.wf(),
        ensures
            r == self.list().len(),
            self@.dom().finite(),
            r == self@.len(),
    {
        proof {
            lemma_map_of_len(self.list());
        }
        self.entries.len()
    }

    /// The value of an entry.
    pub fn value_at(&self, i: usize) -> (r: &V)
        requires
            i < self.list().len(),
        ensures
            *r == self.list()[i as int].1,
    {
        &self.entries[i].1
    }

    /// The place of the entry with the key.
    fn find(&self, key: &String) -> (r: Option<usize>)
        requires
            self.wf(),
        ensures
            match r {
                Some(i) => i < self.list().len() && self.list()[i as int].0 == key@
                    && self@.contains_key(key@) && self@[key@] == self.list()[i as int].1,
                None => !self@.contains_key(key@) && !has_key(self.list(), key@),
            },
    {
        let mut i: usize = 0;
        while i < self.entries.len()
            invariant
                self.wf(),
                i <= self.entries.len(),
                forall|j: int| 0 <= j < i ==> (#[trigger] self.list()[j]).0 != key@,
            decreases self.entries.len() - i,
        {
            if self.entries[i].0 == *key {
                proof {
                    lemma_map_of(self.list(), i as int);
                }
                return Some(i);
            }
            i = i + 1;
        }
        None
    }

    /// Whether the table has the key.
    pub fn contains_key(&self, key: &String) -> (r: bool)
        requires
            self.wf(),
        ensures
            r == self@.contains_key(key@),
    {
        match self.find(key) {
            Some(_) => true,
            None => false,
        }
    }

    /// The value under a key.
    pub fn get(&self, key: &String) -> (r: Option<&V>)
        requires
            self.wf(),
        ensures
            match r {
                Some(v) => self@.contains_key(key@) && *v == self@[key@],
                None => !self@.contains_key(key@),
            },
    {
        match self.find(key) {
            Some(i) => Some(&self.entries[i].1),
            None => None,
        }
    }

    /// The value under a key, to be changed in place.
    pub fn get_mut(&mut self, key: &String) -> (r: Option<&mut V>)
        requires
            old(self).wf(),
        ensures
            final(self).wf(),
            match r {
                Some(v) => {
                    &&& old(self)@.contains_key(key@)
                    &&& *v == old(self)@[key@]
                    &&& final(self)@ == old(self)@.insert(key@, *final(v))
                },
                None => !old(self)@.contains_key(key@) && final(self)@ == old(self)@,
            },
    {
        match self.find(key) {
            Some(i) => {
                let ghost before = self.list();
                proof {
                    assert forall|v: V| #[trigger]
                        distinct_keys(before.update(i as int, (key@, v))) && map_of(
                            before.update(i as int, (key@, v)),
                        ) == map_of(before).insert(key@, v) by {
                        lemma_map_of_update(before, i as int, v);
                    }
                }
                let r = &mut self.entries[i].1;
                proof {
                    let ghost after = before.update(i as int, (key@, *final(r)));
                    assert(distinct_keys(after));
                    assert(after_borrow(self).list() =~= after);
                }
                Some(r)
            },
            None => None,
        }
    }

    /// Puts a value under a key, in place of the one that was there.
    pub fn insert(&mut self, key: String, value: V)
        requires
            old(self).wf(),
        ensures
            final(self).wf(),
            final(self)@ == old(self)@.insert(key@, value),
    {
        let ghost before = self.list();
        match self.find(&key) {
            Some(i) => {
                self.entries[i].1 = value;
                proof {
                    lemma_map_of_update(before, i as int, value);
                    assert(self.list() =~= before.update(i as int, (key@, value)));
                }
            },
            None => {
                let ghost k = key@;
                self.entries.push((key, value));
                proof {
                    lemma_map_of_push(before, k, value);
                    assert(self.list() =~= before.push((k, value)));
                }
            },
        }
    }

    /// Takes an entry out.
    pub fn remove_at(&mut self, i: usize)
        requires
            old(self).wf(),
            i < old(self).list().len(),
        ensures
            final(self).wf(),
            final(self).list() == old(self).list().remove(i as int),
            final(self)@ == old(self)@.remove(old(self).list()[i as int].0),
    {
        let ghost before = self.list();
        self.entries.remove(i);
        proof {
            lemma_map_of_remove(before, i as int);
            assert(self.list() =~= before.remove(i as int));
        }
    }

    /// Takes a key out, and says whether it was there.
    pub fn remove(&mut self, key: &String) -> (r: bool)
        requires
            old(self).wf(),
        ensures
            final(self).wf(),
            final(self)@ == old(self)@.remove(key@),
            r == old(self)@.contains_key(key@),
    {
        match self.find(key) {
            Some(i) => {
                self.remove_at(i);
                true
            },
            None => {
                assert(self@.remove(key@) =~= self@);
                false
            },
        }
    }
}

} // verus!
