//! A map from names to values that remembers the order in which its names
//! first came in.

use vstd::hash_map::StringHashMap;
use vstd::prelude::*;

verus! {

/// A map keyed by name. A name that is inserted again keeps its place and
/// takes the new value.
pub struct NameMap<V> {
    entries: Vec<(String, V)>,
    index: StringHashMap<usize>,
}

impl<V> View for NameMap<V> {
    type V = Map<Seq<char>, V>;

    closed spec fn view(&self) -> Map<Seq<char>, V> {
        Map::new(
            |k: Seq<char>| self.index@.contains_key(k),
            |k: Seq<char>| self.entries@[self.index@[k] as int].1,
        )
    }
}

/// Named values as plain names and values.
pub open spec fn named<V>(pairs: Seq<(String, V)>) -> Seq<(Seq<char>, V)> {
    Seq::new(pairs.len(), |i: int| (pairs[i].0@, pairs[i].1))
}

/// The map that holds each pair of `pairs` after they were put in one by
/// one, from the first to the last: of two pairs with one name the later
/// stays.
pub open spec fn map_of<V>(pairs: Seq<(Seq<char>, V)>) -> Map<Seq<char>, V>
    decreases pairs.len(),
{
    if pairs.len() == 0 {
        Map::empty()
    } else {
        map_of(pairs.drop_last()).insert(pairs.last().0, pairs.last().1)
    }
}

/// The names of `pairs` in the order in which each first occurs.
pub open spec fn key_order<V>(pairs: Seq<(Seq<char>, V)>) -> Seq<Seq<char>>
    decreases pairs.len(),
{
    if pairs.len() == 0 {
        Seq::empty()
    } else if map_of(pairs.drop_last()).contains_key(pairs.last().0) {
        key_order(pairs.drop_last())
    } else {
        key_order(pairs.drop_last()).push(pairs.last().0)
    }
}

impl<V> NameMap<V> {
    /// Every entry is found under its name in the index, and the index
    /// holds nothing else: no name occurs twice.
    pub closed spec fn wf(&self) -> bool {
        &&& forall|i: int|
            0 <= i < self.entries@.len() ==> self.index@.contains_key(
                (#[trigger] self.entries@[i]).0@,
            ) && self.index@[self.entries@[i].0@] == i
        &&& forall|k: Seq<char>| #[trigger]
            self.index@.contains_key(k) ==> self.index@[k] < self.entries@.len()
                && self.entries@[self.index@[k] as int].0@ == k
    }

    /// The names, in the order in which each first came in.
    pub closed spec fn names(&self) -> Seq<Seq<char>> {
        Seq::new(self.entries@.len(), |i: int| self.entries@[i].0@)
    }

    /// The values, index for index with the names.
    pub closed spec fn values(&self) -> Seq<V> {
        Seq::new(self.entries@.len(), |i: int| self.entries@[i].1)
    }

    /// An empty map.
    pub fn new() -> (m: Self)
        ensures
            m.wf(),
            m@ == Map::<Seq<char>, V>::empty(),
            m.names() == Seq::<Seq<char>>::empty(),
    {
        let m = NameMap { entries: Vec::new(), index: StringHashMap::new() };
        assert(m@ =~= Map::<Seq<char>, V>::empty());
        assert(m.names() =~= Seq::<Seq<char>>::empty());
        m
    }

    /// Number of names.
    pub fn len(&self) -> (n: usize)
        requires
            self.wf(),
        ensures
            n == self.names().len(),
            n == self@.len(),
    {
        proof {
            self.lemma_len();
        }
        self.entries.len()
    }

    /// The value under `name`, if the map holds the name.
    pub fn get(&self, name: &str) -> (res: Option<&V>)
        requires
            self.wf(),
        ensures
            match res {
                Some(v) => self@.contains_key(name@) && *v == self@[name@],
                None => !self@.contains_key(name@),
            },
    {
        match self.index.get(name) {
            Some(i) => Some(&self.entries[*i].1),
            None => None,
        }
    }

    /// Puts `value` under `name`, in place of the value that the name had.
    pub fn insert(&mut self, name: String, value: V)
        requires
            old(self).wf(),
        ensures
            final(self).wf(),
            final(self)@ == old(self)@.insert(name@, value),
            final(self).names() == (if old(self)@.contains_key(name@) {
                old(self).names()
            } else {
                old(self).names().push(name@)
            }),
    {
        let found: Option<usize> = match self.index.get(name.as_str()) {
            Some(i) => Some(*i),
            None => None,
        };
        match found {
            Some(i) => {
                self.entries.set(i, (name, value));
            },
            None => {
                let at: usize = self.entries.len();
                self.index.insert(name.clone(), at);
                self.entries.push((name, value));
            },
        }
        assert(final(self)@ =~= old(self)@.insert(name@, value));
        assert(final(self).names() =~= (if old(self)@.contains_key(name@) {
            old(self).names()
        } else {
            old(self).names().push(name@)
        }));
    }

    /// The map of `pairs`, put in one by one from the first to the last.
    pub fn from_pairs(pairs: Vec<(String, V)>) -> (m: Self)
        ensures
            m.wf(),
            m@ == map_of(named(pairs@)),
            m.names() == key_order(named(pairs@)),
    {
        let mut m: NameMap<V> = NameMap::new();
        let ghost all = named(pairs@);
        for p in it: pairs
            invariant
                m.wf(),
                all == named(pairs@),
                m@ == map_of(all.take(it.index() as int)),
                m.names() == key_order(all.take(it.index() as int)),
        {
            assert(all.take(it.index() + 1).drop_last() =~= all.take(it.index() as int));
            m.insert(p.0, p.1);
        }
        assert(all.take(all.len() as int) =~= all);
        m
    }

    /// The name in place `i`.
    pub fn name_at(&self, i: usize) -> (name: &String)
        requires
            self.wf(),
            i < self.names().len(),
        ensures
            name@ == self.names()[i as int],
    {
        &self.entries[i].0
    }

    /// The value of the name in place `i`.
    pub fn value_at(&self, i: usize) -> (value: &V)
        requires
            self.wf(),
            i < self.names().len(),
        ensures
            *value == self.values()[i as int],
            *value == self@[self.names()[i as int]],
    {
        &self.entries[i].1
    }

    /// The names are the map's keys, each once, and the values stand index
    /// for index with them.
    pub proof fn lemma_names(&self)
        requires
            self.wf(),
        ensures
            self.names().len() == self.values().len(),
            self.names().no_duplicates(),
            forall|i: int|
                0 <= i < self.names().len() ==> self@.contains_key(#[trigger] self.names()[i])
                    && self@[self.names()[i]] == self.values()[i],
            forall|k: Seq<char>| #[trigger]
                self@.contains_key(k) ==> exists|i: int|
                    0 <= i < self.names().len() && self.names()[i] == k,
    {
        assert forall|i: int, j: int|
            0 <= i < self.names().len() && 0 <= j < self.names().len() && i != j implies self.names()[i]
            != self.names()[j] by {
            assert(self.index@[self.entries@[i].0@] == i);
            assert(self.index@[self.entries@[j].0@] == j);
        }
        assert forall|k: Seq<char>| #[trigger] self@.contains_key(k) implies exists|i: int|
            0 <= i < self.names().len() && self.names()[i] == k by {
            let i = self.index@[k] as int;
            assert(self.names()[i] == k);
        }
    }

    /// The map has as many keys as there are names.
    pub proof fn lemma_len(&self)
        requires
            self.wf(),
        ensures
            self@.dom() == self.names().to_set(),
            self@.dom().finite(),
            self@.len() == self.names().len(),
    {
        self.lemma_names();
        assert forall|k: Seq<char>| self@.dom().contains(k) <==> self.names().to_set().contains(
            k,
        ) by {
            if self@.dom().contains(k) {
                let i = self.index@[k] as int;
                assert(self.names()[i] == k);
            }
            if self.names().to_set().contains(k) {
                let i = choose|i: int| 0 <= i < self.names().len() && self.names()[i] == k;
                assert(self.index@.contains_key(self.entries@[i].0@));
            }
        }
        assert(self@.dom() =~= self.names().to_set());
        self.names().unique_seq_to_set();
        vstd::seq_lib::seq_to_set_is_finite(self.names());
    }
}

/// A name that `pairs` holds is a key of their map, and the map holds no
/// other key.
pub proof fn lemma_map_of_keys<V>(pairs: Seq<(Seq<char>, V)>, k: Seq<char>)
    ensures
        map_of(pairs).contains_key(k) <==> exists|i: int|
            0 <= i < pairs.len() && (#[trigger] pairs[i]).0 == k,
    decreases pairs.len(),
{
    if pairs.len() > 0 {
        let front = pairs.drop_last();
        lemma_map_of_keys(front, k);
        if map_of(pairs).contains_key(k) {
            if pairs.last().0 == k {
                assert(pairs[pairs.len() - 1].0 == k);
            } else {
                let i = choose|i: int| 0 <= i < front.len() && (#[trigger] front[i]).0 == k;
                assert(pairs[i].0 == k);
            }
        }
        if exists|i: int| 0 <= i < pairs.len() && (#[trigger] pairs[i]).0 == k {
            let i = choose|i: int| 0 <= i < pairs.len() && (#[trigger] pairs[i]).0 == k;
            if i < pairs.len() - 1 {
                assert(front[i].0 == k);
            }
        }
    }
}

/// Last write wins: under a name the map of `pairs` holds the value of
/// the last pair with that name.
pub proof fn lemma_map_of_last_wins<V>(pairs: Seq<(Seq<char>, V)>, i: int)
    requires
        0 <= i < pairs.len(),
        forall|j: int| i < j < pairs.len() ==> (#[trigger] pairs[j]).0 != pairs[i].0,
    ensures
        map_of(pairs).contains_key(pairs[i].0),
        map_of(pairs)[pairs[i].0] == pairs[i].1,
    decreases pairs.len(),
{
    if i < pairs.len() - 1 {
        let front = pairs.drop_last();
        assert(pairs[pairs.len() - 1].0 != pairs[i].0);
        assert forall|j: int| i < j < front.len() implies (#[trigger] front[j]).0 != front[i].0 by {
            assert(pairs[j].0 != pairs[i].0);
        }
        lemma_map_of_last_wins(front, i);
    }
}

} // verus!
