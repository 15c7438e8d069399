//! Ranking: newest first, then by name.

use vstd::prelude::*;

verus! {

/// What an item is ranked by.
pub struct RankKey {
    /// A moment, on any scale.
    pub time: i128,
    /// A name, as bytes.
    pub name: Vec<u8>,
}

/// The model of a key.
pub ghost struct KeyModel {
    pub time: int,
    pub name: Seq<u8>,
}

impl View for RankKey {
    type V = KeyModel;

    open spec fn view(&self) -> KeyModel {
        KeyModel { time: self.time as int, name: self.name@ }
    }
}

/// The models of keys.
pub open spec fn models(keys: Seq<RankKey>) -> Seq<KeyModel> {
    Seq::new(keys.len(), |i: int| keys[i]@)
}

/// The order of names: byte by byte, a name before those that it begins.
pub open spec fn name_precedes(a: Seq<u8>, b: Seq<u8>) -> bool
    decreases a.len(),
{
    if b.len() == 0 {
        false
    } else if a.len() == 0 {
        true
    } else if a[0] != b[0] {
        a[0] < b[0]
    } else {
        name_precedes(a.skip(1), b.skip(1))
    }
}

/// A key comes strictly before another: it is newer, or as new with an earlier name.
pub open spec fn precedes(a: KeyModel, b: KeyModel) -> bool {
    a.time > b.time || (a.time == b.time && name_precedes(a.name, b.name))
}

/// Where an item goes among ranked ones: before the first that it precedes, looking
/// from a position on.
pub open spec fn place(ranked: Seq<int>, keys: Seq<KeyModel>, item: int, from: int) -> int
    decreases ranked.len() - from,
{
    if from >= ranked.len() || precedes(keys[item], keys[ranked[from]]) {
        from
    } else {
        place(ranked, keys, item, from + 1)
    }
}

/// The positions of the first `n` keys, ranked; equal ones keep their order.
pub open spec fn ranked_first(keys: Seq<KeyModel>, n: nat) -> Seq<int>
    decreases n,
{
    if n == 0 {
        Seq::empty()
    } else {
        let rest = ranked_first(keys, (n - 1) as nat);
        rest.insert(place(rest, keys, n - 1, 0), n - 1)
    }
}

/// The positions of all keys, ranked.
pub open spec fn ranked(keys: Seq<KeyModel>) -> Seq<int> {
    ranked_first(keys, keys.len())
}

/// Item `a` ranks before item `b`: its key precedes, or the keys are as good and it
/// was listed earlier.
pub open spec fn ranks_before(keys: Seq<KeyModel>, a: int, b: int) -> bool {
    precedes(keys[a], keys[b]) || (!precedes(keys[b], keys[a]) && a < b)
}

proof fn lemma_name_total(a: Seq<u8>, b: Seq<u8>)
    ensures
        name_precedes(a, b) || name_precedes(b, a) || a == b,
        !(name_precedes(a, b) && name_precedes(b, a)),
    decreases a.len(),
{
    if a.len() > 0 && b.len() > 0 && a[0] == b[0] {
        lemma_name_total(a.skip(1), b.skip(1));
        if a.skip(1) == b.skip(1) {
            assert(a =~= seq![a[0]] + a.skip(1));
            assert(b =~= seq![b[0]] + b.skip(1));
        }
    } else if a.len() == 0 && b.len() == 0 {
        assert(a =~= b);
    }
}

proof fn lemma_name_transitive(a: Seq<u8>, b: Seq<u8>, c: Seq<u8>)
    requires
        name_precedes(a, b),
        name_precedes(b, c),
    ensures
        name_precedes(a, c),
    decreases a.len(),
{
    if a.len() > 0 && a[0] == b[0] && b[0] == c[0] {
        lemma_name_transitive(a.skip(1), b.skip(1), c.skip(1));
    }
}

proof fn lemma_not_precedes_transitive(a: KeyModel, b: KeyModel, c: KeyModel)
    requires
        !precedes(b, a),
        !precedes(c, b),
    ensures
        !precedes(c, a),
{
    if precedes(c, a) {
        lemma_name_total(a.name, b.name);
        lemma_name_total(b.name, c.name);
        lemma_name_total(c.name, a.name);
        if name_precedes(a.name, b.name) && name_precedes(b.name, c.name) {
            lemma_name_transitive(a.name, b.name, c.name);
        }
    }
}

proof fn lemma_precedes_is_strict(a: KeyModel, b: KeyModel)
    ensures
        precedes(a, b) ==> !precedes(b, a),
{
    lemma_name_total(a.name, b.name);
}

proof fn lemma_place(ranked: Seq<int>, keys: Seq<KeyModel>, item: int, from: int)
    requires
        0 <= from <= ranked.len(),
    ensures
        from <= place(ranked, keys, item, from) <= ranked.len(),
        forall|i: int|
            from <= i < place(ranked, keys, item, from) ==> !precedes(
                keys[item],
                keys[#[trigger] ranked[i]],
            ),
        place(ranked, keys, item, from) < ranked.len() ==> precedes(
            keys[item],
            keys[ranked[place(ranked, keys, item, from)]],
        ),
    decreases ranked.len() - from,
{
    if from < ranked.len() && !precedes(keys[item], keys[ranked[from]]) {
        lemma_place(ranked, keys, item, from + 1);
    }
}

/// What holds of the ranked positions of the first `n` keys.
spec fn is_ranked(r: Seq<int>, keys: Seq<KeyModel>, n: nat) -> bool {
    &&& r.len() == n
    &&& forall|i: int| 0 <= i < n ==> 0 <= #[trigger] r[i] < n
    &&& forall|i: int, j: int|
        0 <= i < j < n ==> ranks_before(keys, #[trigger] r[i], #[trigger] r[j])
}

proof fn lemma_ranked(keys: Seq<KeyModel>, n: nat)
    requires
        n <= keys.len(),
    ensures
        is_ranked(ranked_first(keys, n), keys, n),
    decreases n,
{
    if n > 0 {
        let m = (n - 1) as nat;
        lemma_ranked(keys, m);
        let rest = ranked_first(keys, m);
        let p = place(rest, keys, m as int, 0);
        lemma_place(rest, keys, m as int, 0);
        let r = ranked_first(keys, n);
        assert(r == rest.insert(p, m as int));
        assert forall|i: int| 0 <= i < n implies 0 <= #[trigger] r[i] < n by {
            if i < p {
                assert(r[i] == rest[i]);
            } else if i > p {
                assert(r[i] == rest[i - 1]);
            }
        }
        assert forall|i: int, j: int| 0 <= i < j < n implies ranks_before(
            keys,
            #[trigger] r[i],
            #[trigger] r[j],
        ) by {
            if i < p {
                assert(r[i] == rest[i]);
                if j < p {
                    assert(r[j] == rest[j]);
                } else if j > p {
                    assert(r[j] == rest[j - 1]);
                }
            } else if i > p {
                assert(r[i] == rest[i - 1]);
                assert(r[j] == rest[j - 1]);
            } else {
                assert(r[j] == rest[j - 1]);
                let first = keys[rest[p]];
                let other = keys[rest[j - 1]];
                lemma_precedes_is_strict(keys[m as int], first);
                if j - 1 > p {
                    assert(ranks_before(keys, rest[p], rest[j - 1]));
                    lemma_precedes_is_strict(first, other);
                    assert(!precedes(other, first));
                    if !precedes(keys[m as int], other) {
                        lemma_not_precedes_transitive(first, other, keys[m as int]);
                    }
                }
            }
        }
    }
}

/// Ranking keeps every item once and puts it in its place: the ranked positions are
/// those of the items, each ranks before all that come after it, and none occurs
/// twice.
pub proof fn law_ranking_is_a_sorted_permutation(keys: Seq<KeyModel>)
    ensures
        ranked(keys).len() == keys.len(),
        forall|i: int| 0 <= i < keys.len() ==> 0 <= #[trigger] ranked(keys)[i] < keys.len(),
        forall|i: int, j: int|
            0 <= i < j < keys.len() ==> ranks_before(
                keys,
                #[trigger] ranked(keys)[i],
                #[trigger] ranked(keys)[j],
            ),
        forall|i: int, j: int|
            0 <= i < j < keys.len() ==> #[trigger] ranked(keys)[i] != #[trigger] ranked(keys)[j],
{
    lemma_ranked(keys, keys.len());
    assert forall|i: int, j: int| 0 <= i < j < keys.len() implies #[trigger] ranked(keys)[i]
        != #[trigger] ranked(keys)[j] by {
        let a = ranked(keys)[i];
        let b = ranked(keys)[j];
        assert(ranks_before(keys, a, b));
        lemma_precedes_is_strict(keys[a], keys[b]);
    }
}

fn name_before(a: &Vec<u8>, b: &Vec<u8>) -> (r: bool)
    ensures
        r == name_precedes(a@, b@),
{
    let mut i: usize = 0;
    assert(a@.skip(0) =~= a@);
    assert(b@.skip(0) =~= b@);
    while i < a.len() && i < b.len()
        invariant
            i <= a.len(),
            i <= b.len(),
            name_precedes(a@, b@) == name_precedes(a@.skip(i as int), b@.skip(i as int)),
        decreases a.len() - i,
    {
        assert(a@.skip(i as int)[0] == a[i as int]);
        assert(b@.skip(i as int)[0] == b[i as int]);
        if a[i] != b[i] {
            return a[i] < b[i];
        }
        assert(a@.skip(i as int).skip(1) =~= a@.skip(i + 1));
        assert(b@.skip(i as int).skip(1) =~= b@.skip(i + 1));
        i += 1;
    }
    i < b.len()
}

fn key_before(a: &RankKey, b: &RankKey) -> (r: bool)
    ensures
        r == precedes(a@, b@),
{
    a.time > b.time || (a.time == b.time && name_before(&a.name, &b.name))
}

/// Positions as whole numbers.
pub open spec fn positions(r: Seq<usize>) -> Seq<int> {
    Seq::new(r.len(), |i: int| r[i] as int)
}

/// The positions of keys, ranked: newest first, then by name, equal ones in their
/// order.
pub fn rank(keys: &Vec<RankKey>) -> (r: Vec<usize>)
    ensures
        positions(r@) == ranked(models(keys@)),
{
    let ghost k = models(keys@);
    let mut r: Vec<usize> = Vec::new();
    let mut i: usize = 0;
    assert(positions(r@) =~= ranked_first(k, 0));
    while i < keys.len()
        invariant
            i <= keys.len(),
            k == models(keys@),
            positions(r@) == ranked_first(k, i as nat),
            r.len() == i,
            forall|x: int| 0 <= x < r.len() ==> (#[trigger] r[x]) < i,
        decreases keys.len() - i,
    {
        let ghost before = positions(r@);
        let mut p: usize = 0;
        while p < r.len() && !key_before(&keys[i], &keys[r[p]])
            invariant
                p <= r.len(),
                i < keys.len(),
                r.len() == i,
                k == models(keys@),
                before == positions(r@),
                forall|x: int| 0 <= x < r.len() ==> (#[trigger] r[x]) < i,
                place(before, k, i as int, 0) == place(before, k, i as int, p as int),
            decreases r.len() - p,
        {
            assert(before[p as int] == r[p as int]);
            p += 1;
        }
        proof {
            if p < r.len() {
                assert(before[p as int] == r[p as int]);
            }
            assert(place(before, k, i as int, 0) == p);
        }
        r.insert(p, i);
        i += 1;
        assert(positions(r@) =~= before.insert(p as int, i - 1));
    }
    r
}

/// Names are ordered as words are: by the first byte in which they differ, and a name
/// before those that it begins.
pub proof fn law_names_are_ordered_as_words(
    common: Seq<u8>,
    a: u8,
    b: u8,
    x: Seq<u8>,
    y: Seq<u8>,
)
    ensures
        a < b ==> name_precedes(common + seq![a] + x, common + seq![b] + y) && !name_precedes(
            common + seq![b] + y,
            common + seq![a] + x,
        ),
        name_precedes(common, common + seq![a] + x),
        !name_precedes(common + seq![a] + x, common),
        !name_precedes(common, common),
    decreases common.len(),
{
    let p = common + seq![a] + x;
    let q = common + seq![b] + y;
    if common.len() > 0 {
        let rest = common.skip(1);
        law_names_are_ordered_as_words(rest, a, b, x, y);
        assert(p.skip(1) =~= rest + seq![a] + x);
        assert(q.skip(1) =~= rest + seq![b] + y);
        assert(p[0] == common[0] && q[0] == common[0]);
    } else {
        assert(p[0] == a && q[0] == b);
    }
}

/// The newest come first; of two that are as new, no later one has an earlier name.
pub proof fn law_newest_come_first(keys: Seq<KeyModel>, i: int, j: int)
    requires
        0 <= i < j < keys.len(),
    ensures
        ({
            let a = keys[ranked(keys)[i]];
            let b = keys[ranked(keys)[j]];
            &&& a.time >= b.time
            &&& a.time == b.time ==> !name_precedes(b.name, a.name)
            &&& a == b ==> ranked(keys)[i] < ranked(keys)[j]
        }),
{
    law_ranking_is_a_sorted_permutation(keys);
    let x = ranked(keys)[i];
    let y = ranked(keys)[j];
    assert(ranks_before(keys, x, y));
    lemma_name_total(keys[x].name, keys[y].name);
}

} // verus!
