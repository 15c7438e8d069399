//! Tables: finite maps from texts.

use vstd::prelude::*;
use vstd::string::*;

use crate::text;

verus! {

/// A finite map from texts, kept as a list of entries. Of two entries with one
/// key the later counts; the methods keep one entry for a key.
#[derive(Debug, PartialEq, Eq)]
pub struct Table<V> {
    pub entries: Vec<(String, V)>,
}

/// The map that a list of entries stands for.
pub open spec fn map_of<V>(entries: Seq<(String, V)>) -> Map<Seq<char>, V>
    decreases entries.len(),
{
    if entries.len() == 0 {
        Map::empty()
    } else {
        map_of(entries.drop_last()).insert(entries.last().0@, entries.last().1)
    }
}

impl<V> View for Table<V> {
    type V = Map<Seq<char>, V>;

    open spec fn view(&self) -> Map<Seq<char>, V> {
        map_of(self.entries@)
    }
}

proof fn lemma_entry_counts<V>(entries: Seq<(String, V)>, at: int)
    requires
        0 <= at < entries.len(),
        forall|j: int| at < j < entries.len() ==> (#[trigger] entries[j]).0@ != entries[at].0@,
    ensures
        map_of(entries).contains_key(entries[at].0@),
        map_of(entries)[entries[at].0@] == entries[at].1,
    decreases entries.len(),
{
    if at < entries.len() - 1 {
        assert forall|j: int| at < j < entries.drop_last().len() implies (
        #[trigger] entries.drop_last()[j]).0@ != entries.drop_last()[at].0@ by {
            assert(entries.drop_last()[j] == entries[j]);
        }
        lemma_entry_counts(entries.drop_last(), at);
        assert(entries[entries.len() - 1].0@ != entries[at].0@);
    }
}

proof fn lemma_no_entry<V>(entries: Seq<(String, V)>, key: Seq<char>)
    requires
        forall|j: int| 0 <= j < entries.len() ==> (#[trigger] entries[j]).0@ != key,
    ensures
        !map_of(entries).contains_key(key),
    decreases entries.len(),
{
    if entries.len() > 0 {
        assert forall|j: int| 0 <= j < entries.drop_last().len() implies (
        #[trigger] entries.drop_last()[j]).0@ != key by {
            assert(entries.drop_last()[j] == entries[j]);
        }
        lemma_no_entry(entries.drop_last(), key);
        assert(entries[entries.len() - 1].0@ != key);
    }
}

proof fn lemma_entry_removed<V>(entries: Seq<(String, V)>, at: int)
    requires
        0 <= at < entries.len(),
    ensures
        map_of(entries.remove(at)).remove(entries[at].0@) == map_of(entries).remove(
            entries[at].0@,
        ),
    decreases entries.len(),
{
    let after = entries.remove(at);
    let key = entries[at].0@;
    if at < entries.len() - 1 {
        lemma_entry_removed(entries.drop_last(), at);
        assert(after.drop_last() =~= entries.drop_last().remove(at));
        assert(after.last() == entries.last());
        let a = map_of(after.drop_last());
        let b = map_of(entries.drop_last());
        let k = entries.last().0@;
        let v = entries.last().1;
        assert(a.insert(k, v).remove(key) =~= a.remove(key).insert(k, v).remove(key));
        assert(b.insert(k, v).remove(key) =~= b.remove(key).insert(k, v).remove(key));
    } else {
        assert(after =~= entries.drop_last());
        assert(map_of(after).remove(key) =~= map_of(entries).remove(key));
    }
}

impl<V> Table<V> {
    pub fn new() -> (r: Table<V>)
        ensures
            r@ == Map::<Seq<char>, V>::empty(),
    {
        Table { entries: Vec::new() }
    }

    fn place(&self, key: &str) -> (r: Option<usize>)
        ensures
            match r {
                Some(i) => {
                    &&& i < self.entries.len()
                    &&& self.entries@[i as int].0@ == key@
                    &&& forall|j: int|
                        i < j < self.entries.len() ==> (#[trigger] self.entries@[j]).0@ != key@
                    &&& self@.contains_key(key@)
                    &&& self@[key@] == self.entries@[i as int].1
                },
                None => {
                    &&& forall|j: int|
                        0 <= j < self.entries.len() ==> (#[trigger] self.entries@[j]).0@ != key@
                    &&& !self@.contains_key(key@)
                },
            },
    {
        let mut i: usize = self.entries.len();
        while i > 0
            invariant
                i <= self.entries.len(),
                forall|j: int|
                    i <= j < self.entries.len() ==> (#[trigger] self.entries@[j]).0@ != key@,
            decreases i,
        {
            i -= 1;
            if text::same(self.entries[i].0.as_str(), key) {
                proof {
                    lemma_entry_counts(self.entries@, i as int);
                }
                return Some(i);
            }
        }
        proof {
            lemma_no_entry(self.entries@, key@);
        }
        None
    }

    /// What the table holds under `key`.
    pub fn get(&self, key: &str) -> (r: Option<&V>)
        ensures
            match r {
                Some(v) => self@.contains_key(key@) && self@[key@] == *v,
                None => !self@.contains_key(key@),
            },
    {
        match self.place(key) {
            Some(i) => Some(&self.entries[i].1),
            None => None,
        }
    }

    pub fn contains(&self, key: &str) -> (r: bool)
        ensures
            r == self@.contains_key(key@),
    {
        self.place(key).is_some()
    }

    pub fn is_empty(&self) -> (r: bool)
        ensures
            r == (self@ == Map::<Seq<char>, V>::empty()),
    {
        proof {
            if self.entries.len() > 0 {
                assert(self@.contains_key(self.entries@.last().0@));
            }
        }
        self.entries.len() == 0
    }

    /// Takes `key` and its value out of the table.
    pub fn remove(&mut self, key: &str)
        ensures
            final(self)@ == old(self)@.remove(key@),
    {
        let ghost before = self.entries@;
        let mut i: usize = self.entries.len();
        while i > 0
            invariant
                i <= self.entries.len(),
                forall|j: int|
                    i <= j < self.entries.len() ==> (#[trigger] self.entries@[j]).0@ != key@,
                map_of(self.entries@).remove(key@) == map_of(before).remove(key@),
            decreases i,
        {
            i -= 1;
            if text::same(self.entries[i].0.as_str(), key) {
                proof {
                    lemma_entry_removed(self.entries@, i as int);
                }
                let ghost prior = self.entries@;
                self.entries.remove(i);
                assert forall|j: int| i <= j < self.entries.len() implies (
                #[trigger] self.entries@[j]).0@ != key@ by {
                    assert(self.entries@[j] == prior[j + 1]);
                }
            }
        }
        proof {
            lemma_no_entry(self.entries@, key@);
            assert(map_of(self.entries@) =~= map_of(self.entries@).remove(key@));
        }
    }

    /// Puts `value` under `key`, in place of what was there.
    pub fn insert(&mut self, key: &str, value: V)
        ensures
            final(self)@ == old(self)@.insert(key@, value),
    {
        self.remove(key);
        let ghost before = self.entries@;
        self.entries.push((key.to_owned(), value));
        assert(self.entries@.drop_last() =~= before);
        assert(self@ =~= old(self)@.insert(key@, value));
    }

    /// Puts `value` under `key` where nothing is there yet.
    pub fn insert_if_absent(&mut self, key: &str, value: V)
        ensures
            final(self)@ == (if old(self)@.contains_key(key@) {
                old(self)@
            } else {
                old(self)@.insert(key@, value)
            }),
    {
        if !self.contains(key) {
            self.insert(key, value);
        }
    }

    /// Takes the value under `key` out of the table.
    pub fn take(&mut self, key: &str) -> (r: Option<V>)
        ensures
            final(self)@ == old(self)@.remove(key@),
            match r {
                Some(v) => old(self)@.contains_key(key@) && old(self)@[key@] == v,
                None => !old(self)@.contains_key(key@),
            },
    {
        match self.place(key) {
            Some(i) => {
                proof {
                    lemma_entry_removed(self.entries@, i as int);
                }
                let (_, v) = self.entries.remove(i);
                self.remove(key);
                Some(v)
            },
            None => {
                assert(self@ =~= self@.remove(key@));
                None
            },
        }
    }
}

/// Mapping the values and putting one in go in either order.
pub proof fn lemma_mapped_insert<V, W>(
    m: Map<Seq<char>, V>,
    f: spec_fn(V) -> W,
    key: Seq<char>,
    value: V,
)
    ensures
        m.insert(key, value).map_values(f) == m.map_values(f).insert(key, f(value)),
{
    assert(m.insert(key, value).map_values(f) =~= m.map_values(f).insert(key, f(value)));
}

/// Mapping the values and taking one out go in either order.
pub proof fn lemma_mapped_remove<V, W>(m: Map<Seq<char>, V>, f: spec_fn(V) -> W, key: Seq<char>)
    ensures
        m.remove(key).map_values(f) == m.map_values(f).remove(key),
{
    assert(m.remove(key).map_values(f) =~= m.map_values(f).remove(key));
}

/// The texts of a table of texts.
pub open spec fn texts_of(t: Table<String>) -> Map<Seq<char>, Seq<char>> {
    t@.map_values(|s: String| s@)
}

impl Table<String> {
    /// Puts a text under `key`.
    pub fn put(&mut self, key: &str, value: &str)
        ensures
            texts_of(*final(self)) == texts_of(*old(self)).insert(key@, value@),
    {
        let v = value.to_owned();
        proof {
            lemma_mapped_insert(self@, |s: String| s@, key@, v);
        }
        self.insert(key, v);
    }

    /// Puts a text under `key` where nothing is there yet.
    pub fn put_if_absent(&mut self, key: &str, value: &str)
        ensures
            texts_of(*final(self)) == (if texts_of(*old(self)).contains_key(key@) {
                texts_of(*old(self))
            } else {
                texts_of(*old(self)).insert(key@, value@)
            }),
    {
        if !self.contains(key) {
            self.put(key, value);
        }
    }

    /// The same texts in a table of their own.
    pub fn copy_texts(&self) -> (r: Table<String>)
        ensures
            texts_of(r) == texts_of(*self),
    {
        let mut out: Vec<(String, String)> = Vec::new();
        let mut i: usize = 0;
        while i < self.entries.len()
            invariant
                i <= self.entries.len(),
                out@ == self.entries@.take(i as int),
            decreases self.entries.len() - i,
        {
            out.push((self.entries[i].0.clone(), self.entries[i].1.clone()));
            assert(self.entries@.take(i as int).push(self.entries@[i as int])
                =~= self.entries@.take(i + 1));
            i += 1;
        }
        assert(self.entries@.take(i as int) =~= self.entries@);
        Table { entries: out }
    }
}

} // verus!
