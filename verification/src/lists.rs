//! Lists of texts.

use vstd::prelude::*;
use vstd::string::*;

use crate::text;

verus! {

/// The texts of a list, as sequences of characters.
pub open spec fn texts(v: Seq<String>) -> Seq<Seq<char>> {
    v.map_values(|s: String| s@)
}

/// The text of an optional string.
pub open spec fn text_of(s: Option<String>) -> Option<Seq<char>> {
    match s {
        Some(t) => Some(t@),
        None => None,
    }
}

/// The texts of `v` other than `x`, in order.
pub open spec fn texts_without(v: Seq<Seq<char>>, x: Seq<char>) -> Seq<Seq<char>> {
    v.filter(|t: Seq<char>| t != x)
}

/// The texts of `a` that are not in `b`, in order.
pub open spec fn texts_minus(a: Seq<Seq<char>>, b: Seq<Seq<char>>) -> Seq<Seq<char>> {
    a.filter(|t: Seq<char>| !b.contains(t))
}

proof fn lemma_take_next(v: Seq<String>, i: int)
    requires
        0 <= i < v.len(),
    ensures
        texts(v.take(i + 1)) == texts(v.take(i)).push(v[i]@),
{
    assert(texts(v.take(i + 1)) =~= texts(v.take(i)).push(v[i]@));
}

/// Filtering a longer list by one more text.
pub proof fn lemma_filter_push<A>(s: Seq<A>, x: A, keep: spec_fn(A) -> bool)
    ensures
        s.push(x).filter(keep) == (if keep(x) {
            s.filter(keep).push(x)
        } else {
            s.filter(keep)
        }),
{
    reveal(Seq::filter);
    assert(s.push(x).drop_last() =~= s);
}

/// Where `s` stands first in the list.
pub fn position(v: &Vec<String>, s: &str) -> (r: Option<usize>)
    ensures
        match r {
            Some(i) => i < v.len() && texts(v@)[i as int] == s@ && forall|j: int|
                0 <= j < i ==> texts(v@)[j] != s@,
            None => !texts(v@).contains(s@),
        },
{
    let mut i: usize = 0;
    while i < v.len()
        invariant
            i <= v.len(),
            forall|j: int| 0 <= j < i ==> texts(v@)[j] != s@,
        decreases v.len() - i,
    {
        if text::same(v[i].as_str(), s) {
            return Some(i);
        }
        i += 1;
    }
    None
}

/// Whether `s` is in the list.
pub fn lists_text(v: &Vec<String>, s: &str) -> (r: bool)
    ensures
        r == texts(v@).contains(s@),
{
    match position(v, s) {
        Some(i) => {
            assert(texts(v@)[i as int] == s@);
            true
        },
        None => false,
    }
}

/// The same texts in a list of their own.
pub fn copy(v: &Vec<String>) -> (r: Vec<String>)
    ensures
        texts(r@) == texts(v@),
        r@ == v@,
{
    let mut out: Vec<String> = Vec::new();
    let mut i: usize = 0;
    while i < v.len()
        invariant
            i <= v.len(),
            out@ == v@.take(i as int),
        decreases v.len() - i,
    {
        out.push(v[i].clone());
        assert(v@.take(i as int).push(v@[i as int]) =~= v@.take(i + 1));
        i += 1;
    }
    assert(v@.take(i as int) =~= v@);
    out
}

/// The texts of the list other than `s`, in order.
pub fn without(v: &Vec<String>, s: &str) -> (r: Vec<String>)
    ensures
        texts(r@) == texts_without(texts(v@), s@),
{
    let mut out: Vec<String> = Vec::new();
    let ghost keep = |t: Seq<char>| t != s@;
    let mut i: usize = 0;
    proof {
        reveal(Seq::filter);
        assert(texts(v@.take(0)) =~= Seq::empty());
        assert(texts(out@) =~= Seq::empty());
    }
    while i < v.len()
        invariant
            i <= v.len(),
            keep == (|t: Seq<char>| t != s@),
            texts(out@) == texts(v@.take(i as int)).filter(keep),
        decreases v.len() - i,
    {
        let ghost before = out@;
        proof {
            lemma_take_next(v@, i as int);
            lemma_filter_push(texts(v@.take(i as int)), v@[i as int]@, keep);
        }
        if !text::same(v[i].as_str(), s) {
            out.push(v[i].clone());
            assert(texts(out@) =~= texts(before).push(v@[i as int]@));
        }
        i += 1;
    }
    assert(v@.take(i as int) =~= v@);
    out
}

/// The texts of `a` that are not in `b`, in order.
pub fn minus(a: &Vec<String>, b: &Vec<String>) -> (r: Vec<String>)
    ensures
        texts(r@) == texts_minus(texts(a@), texts(b@)),
{
    let mut out: Vec<String> = Vec::new();
    let ghost keep = |t: Seq<char>| !texts(b@).contains(t);
    let mut i: usize = 0;
    proof {
        reveal(Seq::filter);
        assert(texts(a@.take(0)) =~= Seq::empty());
        assert(texts(out@) =~= Seq::empty());
    }
    while i < a.len()
        invariant
            i <= a.len(),
            keep == (|t: Seq<char>| !texts(b@).contains(t)),
            texts(out@) == texts(a@.take(i as int)).filter(keep),
        decreases a.len() - i,
    {
        let ghost before = out@;
        proof {
            lemma_take_next(a@, i as int);
            lemma_filter_push(texts(a@.take(i as int)), a@[i as int]@, keep);
        }
        if !lists_text(b, a[i].as_str()) {
            out.push(a[i].clone());
            assert(texts(out@) =~= texts(before).push(a@[i as int]@));
        }
        i += 1;
    }
    assert(a@.take(i as int) =~= a@);
    out
}

/// The optional text in a string of its own.
pub fn copy_text(s: &Option<String>) -> (r: Option<String>)
    ensures
        r == *s,
        text_of(r) == text_of(*s),
{
    match s {
        Some(t) => Some(t.clone()),
        None => None,
    }
}

/// The texts of the list one after the other, with `sep` between them.
pub fn join_all(v: &[String], sep: &str) -> (r: String)
    ensures
        r@ == text::joined(texts(v@), sep@),
{
    let ghost all = texts(v@);
    if v.len() == 0 {
        return String::new();
    }
    let mut s = v[0].clone();
    let mut i: usize = 1;
    assert(all.take(1) =~= seq![v@[0]@]);
    while i < v.len()
        invariant
            1 <= i <= v.len(),
            all == texts(v@),
            s@ == text::joined(all.take(i as int), sep@),
        decreases v.len() - i,
    {
        s.append(sep);
        s.append(v[i].as_str());
        assert(all.take(i + 1).drop_last() =~= all.take(i as int));
        assert(all.take(i + 1).last() == v@[i as int]@);
        i += 1;
    }
    assert(all.take(i as int) =~= all);
    s
}

} // verus!
