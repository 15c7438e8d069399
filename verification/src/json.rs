//! JSON documents as plain trees.

use vstd::prelude::*;
use vstd::string::*;

use crate::text;

verus! {

/// A JSON document, mathematically: an object is a finite map from its keys, so
/// the order of its entries is immaterial. A number is its decimal notation.
pub ghost enum JsonModel {
    Null,
    Bool(bool),
    Number(Seq<char>),
    Str(Seq<char>),
    Array(Seq<JsonModel>),
    Object(Map<Seq<char>, JsonModel>),
}

impl JsonModel {
    /// The value under `key`, when this is an object that holds it.
    pub open spec fn field(self, key: Seq<char>) -> Option<JsonModel> {
        match self {
            JsonModel::Object(m) => if m.contains_key(key) {
                Some(m[key])
            } else {
                None
            },
            _ => None,
        }
    }

    /// The characters of a string.
    pub open spec fn text(self) -> Option<Seq<char>> {
        match self {
            JsonModel::Str(s) => Some(s),
            _ => None,
        }
    }

    /// The text under `key`.
    pub open spec fn text_field(self, key: Seq<char>) -> Option<Seq<char>> {
        match self.field(key) {
            Some(v) => v.text(),
            None => None,
        }
    }

    /// An unsigned number of 64 bits.
    pub open spec fn unsigned(self) -> Option<nat> {
        match self {
            JsonModel::Number(s) => text::parsed_digits(s, u64::MAX as nat),
            _ => None,
        }
    }

    /// The elements of an array.
    pub open spec fn elements(self) -> Option<Seq<JsonModel>> {
        match self {
            JsonModel::Array(s) => Some(s),
            _ => None,
        }
    }
}

/// A JSON document as it is written down: an object is the list of its entries,
/// in their order.
pub ghost enum Written {
    Null,
    Bool(bool),
    Number(Seq<char>),
    Str(Seq<char>),
    Array(Seq<Written>),
    Object(Seq<(Seq<char>, Written)>),
}

/// Where the entry stands that counts for `key`: the last one of that key.
pub open spec fn last_place(es: Seq<(Seq<char>, Written)>, key: Seq<char>) -> Option<int>
    decreases es.len(),
{
    if es.len() == 0 {
        None
    } else if es.last().0 == key {
        Some(es.len() - 1)
    } else {
        last_place(es.drop_last(), key)
    }
}

/// The entries with `value` under `key`: in the place of what was there, or as the
/// last entry.
pub open spec fn put(es: Seq<(Seq<char>, Written)>, key: Seq<char>, value: Written) -> Seq<
    (Seq<char>, Written),
> {
    match last_place(es, key) {
        Some(i) => es.update(i, (key, value)),
        None => es.push((key, value)),
    }
}

/// The entries without the one that counts for `key`: the last entry of all takes
/// its place.
pub open spec fn taken(es: Seq<(Seq<char>, Written)>, key: Seq<char>) -> Seq<
    (Seq<char>, Written),
> {
    match last_place(es, key) {
        Some(i) => es.update(i, es.last()).drop_last(),
        None => es,
    }
}

/// No two entries have one key.
pub open spec fn distinct(es: Seq<(Seq<char>, Written)>) -> bool {
    forall|i: int, j: int|
        #![trigger es[i], es[j]]
        0 <= i < j < es.len() ==> es[i].0 != es[j].0
}

impl Written {
    /// The value under `key`, when this is an object that holds it.
    pub open spec fn entry(self, key: Seq<char>) -> Option<Written> {
        match self {
            Written::Object(es) => match last_place(es, key) {
                Some(i) => Some(es[i].1),
                None => None,
            },
            _ => None,
        }
    }

    /// No object in the document has two entries with one key.
    pub open spec fn keyed(self) -> bool
        decreases self,
    {
        match self {
            Written::Array(items) => forall|i: int|
                0 <= i < items.len() ==> (#[trigger] items[i]).keyed(),
            Written::Object(es) => distinct(es) && forall|i: int|
                0 <= i < es.len() ==> (#[trigger] es[i]).1.keyed(),
            _ => true,
        }
    }
}

/// A JSON document. Of two entries of an object with one key, the later counts.
#[derive(Debug, PartialEq, Eq)]
pub enum Json {
    Null,
    Bool(bool),
    /// The number's decimal notation.
    Number(String),
    Str(String),
    Array(Vec<Json>),
    Object(Vec<(String, Json)>),
}

/// The map that a list of entries stands for.
pub open spec fn entries_model(entries: Seq<(String, Json)>) -> Map<Seq<char>, JsonModel>
    decreases entries,
{
    if entries.len() == 0 {
        Map::empty()
    } else {
        entries_model(entries.drop_last()).insert(entries.last().0@, entries.last().1.model())
    }
}

/// The sequence that a list of documents stands for.
pub open spec fn elements_model(items: Seq<Json>) -> Seq<JsonModel>
    decreases items,
{
    if items.len() == 0 {
        Seq::empty()
    } else {
        elements_model(items.drop_last()).push(items.last().model())
    }
}

/// A list of entries as it is written down.
pub open spec fn entries_written(entries: Seq<(String, Json)>) -> Seq<(Seq<char>, Written)>
    decreases entries,
{
    if entries.len() == 0 {
        Seq::empty()
    } else {
        entries_written(entries.drop_last()).push(
            (entries.last().0@, entries.last().1.written()),
        )
    }
}

/// A list of documents as it is written down.
pub open spec fn elements_written(items: Seq<Json>) -> Seq<Written>
    decreases items,
{
    if items.len() == 0 {
        Seq::empty()
    } else {
        elements_written(items.drop_last()).push(items.last().written())
    }
}

impl Json {
    /// The document with the order of its entries.
    pub open spec fn written(self) -> Written
        decreases self,
    {
        match self {
            Json::Null => Written::Null,
            Json::Bool(b) => Written::Bool(b),
            Json::Number(s) => Written::Number(s@),
            Json::Str(s) => Written::Str(s@),
            Json::Array(items) => Written::Array(elements_written(items@)),
            Json::Object(entries) => Written::Object(entries_written(entries@)),
        }
    }

    pub open spec fn model(self) -> JsonModel
        decreases self,
    {
        match self {
            Json::Null => JsonModel::Null,
            Json::Bool(b) => JsonModel::Bool(b),
            Json::Number(s) => JsonModel::Number(s@),
            Json::Str(s) => JsonModel::Str(s@),
            Json::Array(items) => JsonModel::Array(elements_model(items@)),
            Json::Object(entries) => JsonModel::Object(entries_model(entries@)),
        }
    }
}

impl View for Json {
    type V = JsonModel;

    open spec fn view(&self) -> JsonModel {
        self.model()
    }
}

pub proof fn lemma_elements(items: Seq<Json>)
    ensures
        elements_model(items).len() == items.len(),
        forall|i: int|
            0 <= i < items.len() ==> #[trigger] elements_model(items)[i] == items[i].model(),
    decreases items.len(),
{
    if items.len() > 0 {
        lemma_elements(items.drop_last());
    }
}

proof fn lemma_elements_written(items: Seq<Json>)
    ensures
        elements_written(items).len() == items.len(),
        forall|i: int|
            0 <= i < items.len() ==> #[trigger] elements_written(items)[i] == items[i].written(),
    decreases items.len(),
{
    if items.len() > 0 {
        lemma_elements_written(items.drop_last());
    }
}

proof fn lemma_entries_written(entries: Seq<(String, Json)>)
    ensures
        entries_written(entries).len() == entries.len(),
        forall|i: int|
            0 <= i < entries.len() ==> #[trigger] entries_written(entries)[i] == (
                entries[i].0@,
                entries[i].1.written(),
            ),
    decreases entries.len(),
{
    if entries.len() > 0 {
        lemma_entries_written(entries.drop_last());
    }
}

/// The last entry of a key is the one that counts for it.
pub proof fn lemma_last_place(es: Seq<(Seq<char>, Written)>, key: Seq<char>)
    ensures
        match last_place(es, key) {
            Some(i) => 0 <= i < es.len() && es[i].0 == key && forall|j: int|
                i < j < es.len() ==> (#[trigger] es[j]).0 != key,
            None => forall|j: int| 0 <= j < es.len() ==> (#[trigger] es[j]).0 != key,
        },
    decreases es.len(),
{
    if es.len() > 0 && es.last().0 != key {
        let rest = es.drop_last();
        lemma_last_place(rest, key);
        assert forall|j: int| 0 <= j < es.len() - 1 implies #[trigger] es[j] == rest[j] by {}
    }
}

/// Where no key repeats anywhere, none repeats in a value.
pub proof fn lemma_entry_keyed(w: Written, key: Seq<char>)
    requires
        w.keyed(),
        w.entry(key) is Some,
    ensures
        w is Object,
        (w.entry(key)->0).keyed(),
{
    lemma_last_place(w->Object_0, key);
    let i = last_place(w->Object_0, key)->0;
    assert((w->Object_0)[i].1.keyed());
}

/// An entry that no later one repeats decides what its key maps to.
proof fn lemma_entry_counts(entries: Seq<(String, Json)>, at: int)
    requires
        0 <= at < entries.len(),
        forall|j: int| at < j < entries.len() ==> (#[trigger] entries[j]).0@ != entries[at].0@,
    ensures
        entries_model(entries).contains_key(entries[at].0@),
        entries_model(entries)[entries[at].0@] == entries[at].1.model(),
    decreases entries.len(),
{
    if at < entries.len() - 1 {
        assert forall|j: int| at < j < entries.drop_last().len() implies (
        #[trigger] entries.drop_last()[j]).0@ != entries.drop_last()[at].0@ by {
            assert(entries.drop_last()[j] == entries[j]);
        }
        lemma_entry_counts(entries.drop_last(), at);
        assert(entries[entries.len() - 1].0@ != entries[at].0@);
    }
}

/// A key that no entry has is not in the map.
proof fn lemma_no_entry(entries: Seq<(String, Json)>, key: Seq<char>)
    requires
        forall|j: int| 0 <= j < entries.len() ==> (#[trigger] entries[j]).0@ != key,
    ensures
        !entries_model(entries).contains_key(key),
    decreases entries.len(),
{
    if entries.len() > 0 {
        assert forall|j: int| 0 <= j < entries.drop_last().len() implies (
        #[trigger] entries.drop_last()[j]).0@ != key by {
            assert(entries.drop_last()[j] == entries[j]);
        }
        lemma_no_entry(entries.drop_last(), key);
        assert(entries[entries.len() - 1].0@ != key);
    }
}

/// A key of the map is the key of an entry.
pub proof fn lemma_some_entry(entries: Seq<(String, Json)>, key: Seq<char>)
    requires
        entries_model(entries).contains_key(key),
    ensures
        exists|j: int| 0 <= j < entries.len() && (#[trigger] entries[j]).0@ == key,
{
    if forall|j: int| 0 <= j < entries.len() ==> (#[trigger] entries[j]).0@ != key {
        lemma_no_entry(entries, key);
    }
}

/// Giving an entry that no later one repeats another value changes the map
/// under its key alone.
proof fn lemma_entry_update(entries: Seq<(String, Json)>, at: int, entry: (String, Json))
    requires
        0 <= at < entries.len(),
        entry.0@ == entries[at].0@,
        forall|j: int| at < j < entries.len() ==> (#[trigger] entries[j]).0@ != entries[at].0@,
    ensures
        entries_model(entries.update(at, entry)) == entries_model(entries).insert(
            entry.0@,
            entry.1.model(),
        ),
    decreases entries.len(),
{
    let after = entries.update(at, entry);
    if at < entries.len() - 1 {
        assert forall|j: int| at < j < entries.drop_last().len() implies (
        #[trigger] entries.drop_last()[j]).0@ != entries.drop_last()[at].0@ by {
            assert(entries.drop_last()[j] == entries[j]);
        }
        lemma_entry_update(entries.drop_last(), at, entry);
        assert(after.drop_last() =~= entries.drop_last().update(at, entry));
        assert(entries[entries.len() - 1].0@ != entries[at].0@);
    } else {
        assert(after.drop_last() =~= entries.drop_last());
    }
    assert(entries_model(after) =~= entries_model(entries).insert(entry.0@, entry.1.model()));
}

/// Taking an entry out changes the map under its key at most.
proof fn lemma_entry_removed(entries: Seq<(String, Json)>, at: int)
    requires
        0 <= at < entries.len(),
    ensures
        entries_model(entries.remove(at)).remove(entries[at].0@) == entries_model(entries).remove(
            entries[at].0@,
        ),
    decreases entries.len(),
{
    let after = entries.remove(at);
    let key = entries[at].0@;
    if at < entries.len() - 1 {
        lemma_entry_removed(entries.drop_last(), at);
        assert(after.drop_last() =~= entries.drop_last().remove(at));
        assert(after.last() == entries.last());
        let a = entries_model(after.drop_last());
        let b = entries_model(entries.drop_last());
        let k = entries.last().0@;
        let v = entries.last().1.model();
        assert(a.insert(k, v).remove(key) =~= a.remove(key).insert(k, v).remove(key));
        assert(b.insert(k, v).remove(key) =~= b.remove(key).insert(k, v).remove(key));
    } else {
        assert(after =~= entries.drop_last());
        assert(entries_model(after).remove(key) =~= entries_model(entries).remove(key));
    }
}

/// Where no key repeats, the map without an entry is that of the list in which the
/// last entry stands in its place.
proof fn lemma_entry_swapped_out(entries: Seq<(String, Json)>, at: int)
    requires
        0 <= at < entries.len(),
        distinct(entries_written(entries)),
    ensures
        entries_model(entries.update(at, entries.last()).drop_last()) == entries_model(
            entries,
        ).remove(entries[at].0@),
{
    lemma_entries_written(entries);
    let es = entries_written(entries);
    assert forall|i: int, j: int| 0 <= i < j < entries.len() implies (#[trigger] entries[i]).0@ != (
    #[trigger] entries[j]).0@ by {
        assert(es[i].0 != es[j].0);
    }
    let after = entries.update(at, entries.last()).drop_last();
    let before = entries_model(entries).remove(entries[at].0@);
    let last = entries.len() - 1;
    assert forall|k: Seq<char>| #[trigger] entries_model(after).contains_key(k) implies (
    before.contains_key(k) && before[k] == entries_model(after)[k]) by {
        lemma_some_entry(after, k);
        let i = choose|i: int| 0 <= i < after.len() && (#[trigger] after[i]).0@ == k;
        lemma_entry_counts(after, i);
        let from = if i == at {
            last
        } else {
            i
        };
        assert(after[i] == entries[from]);
        lemma_entry_counts(entries, from);
    }
    assert forall|k: Seq<char>| #[trigger] before.contains_key(k) implies entries_model(
        after,
    ).contains_key(k) by {
        lemma_some_entry(entries, k);
        let i = choose|i: int| 0 <= i < entries.len() && (#[trigger] entries[i]).0@ == k;
        let to = if i == last {
            at
        } else {
            i
        };
        assert(after[to] == entries[i]);
        lemma_entry_counts(after, to);
    }
    assert(entries_model(after) =~= before);
}

/// The place of the entry that counts for `key`.
fn place(entries: &Vec<(String, Json)>, key: &str) -> (r: Option<usize>)
    ensures
        match r {
            Some(i) => {
                &&& i < entries.len()
                &&& entries@[i as int].0@ == key@
                &&& forall|j: int| i < j < entries.len() ==> (#[trigger] entries@[j]).0@ != key@
                &&& entries_model(entries@).contains_key(key@)
                &&& entries_model(entries@)[key@] == entries@[i as int].1.model()
            },
            None => {
                &&& forall|j: int| 0 <= j < entries.len() ==> (#[trigger] entries@[j]).0@ != key@
                &&& !entries_model(entries@).contains_key(key@)
            },
        },
        last_place(entries_written(entries@), key@) == (match r {
            Some(i) => Some(i as int),
            None => None,
        }),
        entries_written(entries@).len() == entries.len(),
        r matches Some(i) ==> entries_written(entries@)[i as int].1
            == entries@[i as int].1.written(),
{
    proof {
        lemma_entries_written(entries@);
        lemma_last_place(entries_written(entries@), key@);
    }
    let mut i: usize = entries.len();
    while i > 0
        invariant
            i <= entries.len(),
            forall|j: int| i <= j < entries.len() ==> (#[trigger] entries@[j]).0@ != key@,
        decreases i,
    {
        i -= 1;
        if text::same(&entries[i].0, key) {
            proof {
                lemma_entry_counts(entries@, i as int);
                lemma_entries_written(entries@);
                lemma_last_place(entries_written(entries@), key@);
                assert(entries_written(entries@)[i as int].0 == key@);
            }
            return Some(i);
        }
    }
    proof {
        lemma_no_entry(entries@, key@);
    }
    None
}

/// Whether no two entries have one key.
fn keys_differ(entries: &Vec<(String, Json)>) -> (r: bool)
    ensures
        r == distinct(entries_written(entries@)),
{
    let ghost es = entries_written(entries@);
    proof {
        lemma_entries_written(entries@);
    }
    let mut i: usize = 0;
    while i < entries.len()
        invariant
            i <= entries.len(),
            es == entries_written(entries@),
            es.len() == entries.len(),
            forall|k: int|
                0 <= k < entries.len() ==> #[trigger] es[k] == (
                    entries@[k].0@,
                    entries@[k].1.written(),
                ),
            forall|a: int, b: int|
                #![trigger es[a], es[b]]
                0 <= a < b < es.len() && a < i ==> es[a].0 != es[b].0,
        decreases entries.len() - i,
    {
        let mut j: usize = i + 1;
        while j < entries.len()
            invariant
                i < j <= entries.len(),
                es.len() == entries.len(),
                es == entries_written(entries@),
                forall|k: int|
                    0 <= k < entries.len() ==> #[trigger] es[k] == (
                        entries@[k].0@,
                        entries@[k].1.written(),
                    ),
                forall|b: int| i < b < j ==> es[i as int].0 != (#[trigger] es[b]).0,
            decreases entries.len() - j,
        {
            if text::same(&entries[i].0, &entries[j].0) {
                assert(es[i as int].0 == es[j as int].0);
                return false;
            }
            assert(es[i as int].0 != es[j as int].0);
            j += 1;
        }
        i += 1;
    }
    true
}

/// Takes out every entry of a key; the others keep their order.
fn remove_every(entries: &mut Vec<(String, Json)>, key: &str)
    ensures
        entries_model(final(entries)@) == entries_model(old(entries)@).remove(key@),
{
    let ghost before = entries@;
    let mut i: usize = entries.len();
    while i > 0
        invariant
            i <= entries.len(),
            forall|j: int| i <= j < entries.len() ==> (#[trigger] entries@[j]).0@ != key@,
            entries_model(entries@).remove(key@) == entries_model(before).remove(key@),
        decreases i,
    {
        i -= 1;
        if text::same(&entries[i].0, key) {
            proof {
                lemma_entry_removed(entries@, i as int);
            }
            let ghost prior = entries@;
            entries.remove(i);
            assert forall|j: int| i <= j < entries.len() implies (
            #[trigger] entries@[j]).0@ != key@ by {
                assert(entries@[j] == prior[j + 1]);
            }
        }
    }
    proof {
        lemma_no_entry(entries@, key@);
        assert(entries_model(entries@) =~= entries_model(entries@).remove(key@));
    }
}

impl Json {
    /// The value under `key`, when this is an object that holds it.
    pub fn get(&self, key: &str) -> (r: Option<&Json>)
        ensures
            match r {
                Some(v) => self@.field(key@) == Some(v@) && self.written().entry(key@) == Some(
                    v.written(),
                ),
                None => self@.field(key@) is None && self.written().entry(key@) is None,
            },
    {
        match self {
            Json::Object(entries) => match place(entries, key) {
                Some(i) => Some(&entries[i].1),
                None => None,
            },
            _ => None,
        }
    }

    pub fn is_object(&self) -> (r: bool)
        ensures
            r == (self@ is Object),
            r == (self.written() is Object),
    {
        matches!(self, Json::Object(_))
    }

    /// The text of a string.
    pub fn as_str(&self) -> (r: Option<&str>)
        ensures
            match r {
                Some(s) => self@.text() == Some(s@),
                None => self@.text() is None,
            },
    {
        match self {
            Json::Str(s) => Some(s.as_str()),
            _ => None,
        }
    }

    pub fn as_bool(&self) -> (r: Option<bool>)
        ensures
            match r {
                Some(b) => self@ == JsonModel::Bool(b),
                None => !(self@ is Bool),
            },
    {
        match self {
            Json::Bool(b) => Some(*b),
            _ => None,
        }
    }

    /// A number that fits 64 unsigned bits.
    pub fn as_u64(&self) -> (r: Option<u64>)
        ensures
            match r {
                Some(n) => self@.unsigned() == Some(n as nat),
                None => self@.unsigned() is None,
            },
    {
        match self {
            Json::Number(s) => {
                let v = text::chars_of(s.as_str());
                assert(v@.skip(0) =~= v@);
                text::read_digits(&v, 0, u64::MAX)
            },
            _ => None,
        }
    }

    /// The elements of an array.
    pub fn as_array(&self) -> (r: Option<&Vec<Json>>)
        ensures
            match r {
                Some(items) => self@.elements() == Some(elements_model(items@)),
                None => self@.elements() is None,
            },
    {
        match self {
            Json::Array(items) => Some(items),
            _ => None,
        }
    }

    /// The text under `key`.
    pub fn get_str(&self, key: &str) -> (r: Option<&str>)
        ensures
            match r {
                Some(s) => self@.text_field(key@) == Some(s@),
                None => self@.text_field(key@) is None,
            },
    {
        match self.get(key) {
            Some(v) => v.as_str(),
            None => None,
        }
    }

    /// Puts `value` under `key`, in place of what was there.
    pub fn set(&mut self, key: &str, value: Json)
        requires
            old(self)@ is Object,
        ensures
            final(self)@ == JsonModel::Object(old(self)@->Object_0.insert(key@, value@)),
            final(self).written() == Written::Object(
                put(old(self).written()->Object_0, key@, value.written()),
            ),
    {
        match self {
            Json::Object(entries) => {
                let ghost before = entries@;
                match place(entries, key) {
                    Some(i) => {
                        let ghost entry = (before[i as int].0, value);
                        let name = entries[i].0.clone();
                        entries[i] = (name, value);
                        proof {
                            lemma_entry_update(before, i as int, entry);
                            assert(entries@ =~= before.update(i as int, entry));
                            lemma_entries_written(before);
                            lemma_entries_written(entries@);
                            assert(entries_written(entries@) =~= entries_written(before).update(
                                i as int,
                                (key@, value.written()),
                            ));
                        }
                    },
                    None => {
                        entries.push((key.to_owned(), value));
                        proof {
                            assert(entries@.drop_last() =~= before);
                        }
                    },
                }
            },
            _ => {},
        }
    }

    /// Takes `key` and its value out. Where no key repeats, the last entry takes the
    /// place of the one that goes.
    pub fn remove(&mut self, key: &str)
        requires
            old(self)@ is Object,
        ensures
            final(self)@ == JsonModel::Object(old(self)@->Object_0.remove(key@)),
            final(self).written() is Object,
            distinct(old(self).written()->Object_0) ==> final(self).written() == Written::Object(
                taken(old(self).written()->Object_0, key@),
            ),
    {
        match self {
            Json::Object(entries) => {
                let ghost before = entries@;
                if keys_differ(entries) {
                    match place(entries, key) {
                        Some(i) => {
                            entries.swap_remove(i);
                            proof {
                                lemma_entry_swapped_out(before, i as int);
                                lemma_entries_written(before);
                                lemma_entries_written(entries@);
                                assert(entries_written(entries@) =~= taken(
                                    entries_written(before),
                                    key@,
                                ));
                            }
                        },
                        None => {
                            assert(entries_model(before) =~= entries_model(before).remove(key@));
                        },
                    }
                } else {
                    remove_every(entries, key);
                }
            },
            _ => {},
        }
    }

    /// Whether this is an object without entries.
    pub fn is_empty_object(&self) -> (r: bool)
        ensures
            r == (self@ == JsonModel::Object(Map::empty())),
            r == (self.written() == Written::Object(Seq::empty())),
    {
        match self {
            Json::Object(entries) => {
                proof {
                    lemma_entries_written(entries@);
                    if entries.len() == 0 {
                        assert(entries_written(entries@) =~= Seq::empty());
                    }
                    if entries.len() > 0 {
                        assert(entries_model(entries@).contains_key(entries@.last().0@));
                    }
                }
                entries.len() == 0
            },
            _ => false,
        }
    }

    /// A document of its own with the same contents.
    pub fn duplicate(&self) -> (r: Json)
        ensures
            r@ == self@,
            r.written() == self.written(),
        decreases self,
    {
        match self {
            Json::Null => Json::Null,
            Json::Bool(b) => Json::Bool(*b),
            Json::Number(s) => Json::Number(s.clone()),
            Json::Str(s) => Json::Str(s.clone()),
            Json::Array(items) => Json::Array(duplicate_all(items)),
            Json::Object(entries) => Json::Object(duplicate_entries(entries)),
        }
    }
}

fn duplicate_entries(entries: &Vec<(String, Json)>) -> (r: Vec<(String, Json)>)
    ensures
        entries_model(r@) == entries_model(entries@),
        entries_written(r@) == entries_written(entries@),
    decreases entries,
{
    let mut out: Vec<(String, Json)> = Vec::new();
    let mut i: usize = 0;
    while i < entries.len()
        invariant
            i <= entries.len(),
            entries_model(out@) == entries_model(entries@.take(i as int)),
            entries_written(out@) == entries_written(entries@.take(i as int)),
        decreases entries.len() - i,
    {
        let item = entries[i].1.duplicate();
        let ghost before = out@;
        out.push((entries[i].0.clone(), item));
        assert(out@.drop_last() =~= before);
        assert(entries@.take(i + 1).drop_last() =~= entries@.take(i as int));
        assert(entries@.take(i + 1).last() == entries@[i as int]);
        i += 1;
    }
    assert(entries@.take(i as int) =~= entries@);
    out
}

/// The same documents, each of its own.
pub fn duplicate_all(items: &Vec<Json>) -> (r: Vec<Json>)
    ensures
        elements_model(r@) == elements_model(items@),
        elements_written(r@) == elements_written(items@),
        r.len() == items.len(),
    decreases items,
{
    let mut out: Vec<Json> = Vec::new();
    let mut i: usize = 0;
    while i < items.len()
        invariant
            i <= items.len(),
            out.len() == i,
            elements_model(out@) == elements_model(items@.take(i as int)),
            elements_written(out@) == elements_written(items@.take(i as int)),
        decreases items.len() - i,
    {
        let item = items[i].duplicate();
        let ghost before = out@;
        out.push(item);
        assert(out@.drop_last() =~= before);
        assert(items@.take(i + 1).drop_last() =~= items@.take(i as int));
        assert(items@.take(i + 1).last() == items@[i as int]);
        i += 1;
    }
    assert(items@.take(i as int) =~= items@);
    out
}

// ---------------------------------------------------------------------------
// Reading text
// ---------------------------------------------------------------------------

/// A parsed document of the `serde_json` crate.
#[verifier::external_type_specification]
#[verifier::external_body]
pub struct ExValue(serde_json::Value);

/// The document that a `serde_json::Value` holds.
pub uninterp spec fn contents(v: serde_json::Value) -> JsonModel;

/// What `serde_json::from_str` makes of a text: a document, or nothing when the
/// text is not JSON.
pub uninterp spec fn parsed(text: Seq<char>) -> Option<JsonModel>;

/// The words of the error that `serde_json::from_str` gives for a text that is not
/// JSON.
pub uninterp spec fn complaint(text: Seq<char>) -> Seq<char>;

/// `serde_json::from_str::<serde_json::Value>`: the document that the text
/// denotes, or the words of the error that it reports. Which texts are JSON, what
/// they denote, and how an error is put is left to the crate; an object without
/// entries is read as one.
#[verifier::external_body]
fn parse_value(text: &str) -> (r: Result<serde_json::Value, String>)
    ensures
        match r {
            Ok(v) => parsed(text@) == Some(contents(v)),
            Err(words) => parsed(text@) is None && words@ == complaint(text@),
        },
        text@ == "{}"@ ==> r is Ok && contents(r->Ok_0) == JsonModel::Object(Map::empty()),
{
    serde_json::from_str::<serde_json::Value>(text).map_err(|e| e.to_string())
}

/// One level of a `serde_json::Value`.
enum Node<'a> {
    Null,
    Bool(bool),
    Number(String),
    Str(&'a String),
    Array(&'a Vec<serde_json::Value>),
    Object(Vec<(&'a String, &'a serde_json::Value)>),
}

/// The entries list the map, each key once.
spec fn lists(m: Map<Seq<char>, JsonModel>, es: Seq<(&String, &serde_json::Value)>) -> bool {
    &&& m.dom().finite()
    &&& forall|i: int|
        #![trigger es[i]]
        0 <= i < es.len() ==> m.contains_key(es[i].0@) && m[es[i].0@] == contents(*es[i].1)
    &&& forall|i: int, j: int|
        #![trigger es[i], es[j]]
        0 <= i < j < es.len() ==> es[i].0@ != es[j].0@
    &&& forall|k: Seq<char>| #[trigger]
        m.contains_key(k) ==> exists|i: int| 0 <= i < es.len() && (#[trigger] es[i]).0@ == k
}

/// The variant of a `serde_json::Value` with its fields. A number is carried as
/// the text that `serde_json::Number` displays, and an object as the entries
/// that `serde_json::Map::iter` yields: each key once, with its value.
#[verifier::external_body]
fn open_value<'a>(v: &'a serde_json::Value) -> (r: Node<'a>)
    ensures
        match r {
            Node::Null => contents(*v) == JsonModel::Null,
            Node::Bool(b) => contents(*v) == JsonModel::Bool(b),
            Node::Number(n) => contents(*v) == JsonModel::Number(n@),
            Node::Str(s) => contents(*v) == JsonModel::Str(s@),
            Node::Array(a) => contents(*v) == JsonModel::Array(
                Seq::new(a@.len(), |i: int| contents(a@[i])),
            ),
            Node::Object(es) => contents(*v) is Object && lists(contents(*v)->Object_0, es@),
        },
{
    match v {
        serde_json::Value::Null => Node::Null,
        serde_json::Value::Bool(b) => Node::Bool(*b),
        serde_json::Value::Number(n) => Node::Number(n.to_string()),
        serde_json::Value::String(s) => Node::Str(s),
        serde_json::Value::Array(a) => Node::Array(a),
        serde_json::Value::Object(m) => Node::Object(m.iter().collect()),
    }
}

fn from_value(v: &serde_json::Value) -> (r: Json)
    ensures
        r@ == contents(*v),
        r.written().keyed(),
    decreases contents(*v),
{
    match open_value(v) {
        Node::Null => Json::Null,
        Node::Bool(b) => Json::Bool(b),
        Node::Number(n) => Json::Number(n),
        Node::Str(s) => Json::Str(s.clone()),
        Node::Array(a) => {
            let mut out: Vec<Json> = Vec::new();
            let mut i: usize = 0;
            while i < a.len()
                invariant
                    i <= a.len(),
                    contents(*v) == JsonModel::Array(
                        Seq::new(a@.len(), |i: int| contents(a@[i])),
                    ),
                    elements_model(out@) == Seq::new(a@.len(), |i: int| contents(a@[i])).take(
                        i as int,
                    ),
                    forall|j: int|
                        0 <= j < elements_written(out@).len() ==> (#[trigger] elements_written(
                            out@,
                        )[j]).keyed(),
                decreases a.len() - i,
            {
                let ghost all = Seq::new(a@.len(), |i: int| contents(a@[i]));
                assert(contents(a@[i as int]) == all[i as int]);
                assert(contents(*v)->Array_0 == all);
                assert(decreases_to!(contents(*v) => contents(*v)->Array_0));
                assert(decreases_to!(all => all[i as int]));
                let item = from_value(&a[i]);
                let ghost before = out@;
                out.push(item);
                assert(out@.drop_last() =~= before);
                assert(elements_written(out@) == elements_written(before).push(item.written()));
                assert(all.take(i as int).push(all[i as int]) =~= all.take(i + 1));
                i += 1;
            }
            assert(elements_model(out@) =~= contents(*v)->Array_0);
            assert(Written::Array(elements_written(out@)).keyed());
            Json::Array(out)
        },
        Node::Object(es) => {
            let ghost m = contents(*v)->Object_0;
            let mut out: Vec<(String, Json)> = Vec::new();
            let mut i: usize = 0;
            while i < es.len()
                invariant
                    i <= es.len(),
                    contents(*v) == JsonModel::Object(m),
                    lists(m, es@),
                    forall|k: Seq<char>| #[trigger]
                        entries_model(out@).contains_key(k) ==> m.contains_key(k)
                            && entries_model(out@)[k] == m[k],
                    forall|j: int|
                        #![trigger es@[j]]
                        0 <= j < i ==> entries_model(out@).contains_key(es@[j].0@),
                    entries_written(out@).len() == i,
                    forall|j: int|
                        0 <= j < i ==> (#[trigger] entries_written(out@)[j]).0 == es@[j].0@
                            && entries_written(out@)[j].1.keyed(),
                decreases es.len() - i,
            {
                let e = es[i];
                assert(e == es@[i as int]);
                assert(contents(*v)->Object_0 == m);
                assert(decreases_to!(contents(*v) => contents(*v)->Object_0));
                assert(decreases_to!(m => m[e.0@]));
                let item = from_value(e.1);
                let ghost before = out@;
                out.push((e.0.clone(), item));
                assert(out@.drop_last() =~= before);
                assert(entries_model(out@) == entries_model(before).insert(e.0@, item.model()));
                assert(entries_written(out@) == entries_written(before).push(
                    (e.0@, item.written()),
                ));
                i += 1;
            }
            assert(entries_model(out@) =~= m);
            proof {
                let ws = entries_written(out@);
                assert forall|i: int, j: int| 0 <= i < j < ws.len() implies (#[trigger] ws[i]).0
                    != (#[trigger] ws[j]).0 by {
                    assert(es@[i].0@ != es@[j].0@);
                }
                assert(Written::Object(ws).keyed());
            }
            Json::Object(out)
        },
    }
}

impl Json {
    /// Reads a JSON text, or tells what is wrong with it.
    pub fn parse_strictly(text: &str) -> (r: Result<Json, String>)
        ensures
            match r {
                Ok(j) => parsed(text@) == Some(j@) && j.written().keyed(),
                Err(words) => parsed(text@) is None && words@ == complaint(text@),
            },
            text@ == "{}"@ ==> r is Ok && r->Ok_0@ == JsonModel::Object(Map::empty()),
    {
        match parse_value(text) {
            Ok(v) => Ok(from_value(&v)),
            Err(words) => Err(words),
        }
    }

    /// Reads a JSON text.
    pub fn parse(text: &str) -> (r: Option<Json>)
        ensures
            match r {
                Some(j) => parsed(text@) == Some(j@) && j.written().keyed(),
                None => parsed(text@) is None,
            },
            text@ == "{}"@ ==> r is Some && r->0@ == JsonModel::Object(Map::empty()),
    {
        match Json::parse_strictly(text) {
            Ok(j) => Some(j),
            Err(_) => None,
        }
    }
}

/// What is put under a key is found there, and what stands under other keys is found as before.
/// Entries keep their places: a new one comes last, and an old one is replaced where it stands.
pub proof fn law_putting_keeps_the_rest(
    es: Seq<(Seq<char>, Written)>,
    key: Seq<char>,
    value: Written,
    other: Seq<char>,
    i: int,
)
    ensures
        Written::Object(put(es, key, value)).entry(key) == Some(value),
        other != key ==> Written::Object(put(es, key, value)).entry(other) == Written::Object(
            es,
        ).entry(other),
        0 <= i < es.len() ==> put(es, key, value)[i].0 == es[i].0,
        0 <= i < es.len() && es[i].0 != key ==> put(es, key, value)[i] == es[i],
        (forall|j: int| 0 <= j < es.len() ==> (#[trigger] es[j]).0 != key) ==> put(es, key, value)
            == es.push((key, value)),
        0 <= i < es.len() && es[i].0 == key ==> put(es, key, value).len() == es.len(),
{
    let new = put(es, key, value);
    lemma_last_place(es, key);
    lemma_last_place(new, key);
    lemma_last_place(es, other);
    lemma_last_place(new, other);
    let at = match last_place(es, key) {
        Some(k) => k,
        None => es.len() as int,
    };
    assert(new[at] == (key, value));
    assert forall|j: int| 0 <= j < es.len() && j != at implies new[j] == es[j] by {}
    assert forall|j: int| at < j < new.len() implies (#[trigger] new[j]).0 != key by {
        assert(es[j].0 != key);
    }
    assert(last_place(new, key) == Some(at));
    if other != key {
        if let Some(k) = last_place(es, other) {
            assert(k != at);
            assert(new[k] == es[k]);
            if let Some(n) = last_place(new, other) {
                assert(n != at);
                assert(new[n] == es[n]);
            }
        } else if let Some(n) = last_place(new, other) {
            assert(n != at);
            assert(new[n] == es[n]);
        }
    }
}

/// Where no key repeats, taking an entry out leaves none of its key; the other entries remain,
/// those before it in their places.
pub proof fn law_taking_leaves_the_rest(
    es: Seq<(Seq<char>, Written)>,
    key: Seq<char>,
    at: int,
    i: int,
)
    requires
        forall|a: int, b: int|
            #![trigger es[a], es[b]]
            0 <= a < b < es.len() ==> es[a].0 != es[b].0,
        0 <= at < es.len(),
        es[at].0 == key,
    ensures
        taken(es, key).len() == es.len() - 1,
        Written::Object(taken(es, key)).entry(key) is None,
        0 <= i < at ==> taken(es, key)[i] == es[i],
        at < i < es.len() ==> taken(es, key).contains(es[i]),
{
    let rest = taken(es, key);
    lemma_last_place(es, key);
    lemma_last_place(rest, key);
    assert(last_place(es, key) == Some(at));
    let last = es.len() - 1;
    assert forall|j: int| 0 <= j < rest.len() && j != at implies rest[j] == es[j] by {}
    assert forall|j: int| 0 <= j < rest.len() implies (#[trigger] rest[j]).0 != key by {
        if j == at {
            assert(rest[j] == es[last]);
            assert(es[at].0 != es[last].0);
        } else if j < at {
            assert(es[j].0 != es[at].0);
        } else {
            assert(es[at].0 != es[j].0);
        }
    }
    if at < i < last {
        assert(rest[i] == es[i]);
    }
    if at < i && i == last {
        assert(rest[at] == es[i]);
    }
}

} // verus!
