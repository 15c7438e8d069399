//! The cache of servers for remote hosts.
//!
//! Archives lie in a directory for each platform. After each use the oldest ones
//! are cleared away, but never the one in use.

use vstd::prelude::*;
use vstd::string::*;

use crate::auto_update;
use crate::auto_update::{AutoUpdater, ReleaseAsset, ReleaseChannel};
use crate::ranking;
use crate::ranking::{KeyModel, RankKey};
use crate::text;

verus! {

/// How many archives are kept.
pub const REMOTE_SERVER_CACHE_LIMIT: usize = 5;

/// Where the archive of a server lies: a directory for the channel, in it one for the
/// platform, in that the file.
#[derive(Debug, PartialEq, Eq)]
pub struct ArchivePath {
    pub channel_dir: String,
    pub platform_dir: String,
    pub file: String,
}

impl AutoUpdater {
    /// Where a published server is downloaded to, and found again.
    pub fn download_remote_server_release(
        channel: ReleaseChannel,
        release: &ReleaseAsset,
        os: &str,
        arch: &str,
    ) -> (r: ArchivePath)
        ensures
            r.channel_dir@ == auto_update::channel_name(channel),
            r.platform_dir@ == os@ + "-"@ + arch@,
            r.file@ == release.version@ + ".gz"@,
    {
        let mut platform_dir = text::join(os, "-");
        platform_dir.append(arch);
        ArchivePath {
            channel_dir: channel.dev_name(),
            platform_dir,
            file: text::join(release.version.as_str(), ".gz"),
        }
    }

    /// Where a published server can be downloaded from.
    pub fn get_remote_server_release_url(release: ReleaseAsset) -> (r: Option<String>)
        ensures
            r == Some(release.url),
    {
        Some(release.url)
    }
}

/// An entry of the directory.
pub struct CacheEntry {
    /// Its name, as the bytes of the file system.
    pub name: Vec<u8>,
    /// When it was last modified, counted from the Unix epoch; `None` where that is not
    /// known.
    pub modified: Option<i128>,
}

/// The entry is an archive: its name has the extension `gz`, and more before it.
pub open spec fn is_archive(name: Seq<u8>) -> bool {
    &&& name.len() >= 4
    &&& name[name.len() - 3] == 46u8
    &&& name[name.len() - 2] == 103u8
    &&& name[name.len() - 1] == 122u8
}

/// What the entry is ranked by: the archive in use counts as just modified, one of
/// unknown age as modified at the epoch.
pub open spec fn key_of(e: CacheEntry, keep: Seq<u8>, now: int) -> KeyModel {
    KeyModel {
        name: e.name@,
        time: if e.name@ == keep {
            now
        } else {
            match e.modified {
                Some(m) => m as int,
                None => 0,
            }
        },
    }
}

/// The archives among the entries, in their order.
pub open spec fn archives(entries: Seq<CacheEntry>, keep: Seq<u8>, now: int) -> Seq<KeyModel>
    decreases entries.len(),
{
    if entries.len() == 0 {
        Seq::empty()
    } else {
        let rest = archives(entries.drop_last(), keep, now);
        if is_archive(entries.last().name@) {
            rest.push(key_of(entries.last(), keep, now))
        } else {
            rest
        }
    }
}

/// The names, in this order of positions, from the first `n` on without the kept one.
pub open spec fn names_past(
    keys: Seq<KeyModel>,
    order: Seq<int>,
    keep: Seq<u8>,
    from: int,
    n: int,
) -> Seq<Seq<u8>>
    decreases n - from,
{
    if n <= from {
        Seq::empty()
    } else {
        let rest = names_past(keys, order, keep, from, n - 1);
        let name = keys[order[n - 1]].name;
        if name == keep {
            rest
        } else {
            rest.push(name)
        }
    }
}

/// The archives to remove: those that rank past the limit, without the kept one.
pub open spec fn stale(keys: Seq<KeyModel>, keep: Seq<u8>, limit: nat) -> Seq<Seq<u8>> {
    if limit == 0 || keys.len() <= limit {
        Seq::empty()
    } else {
        names_past(keys, ranking::ranked(keys), keep, limit as int, keys.len() as int)
    }
}

/// Names as sequences of bytes.
pub open spec fn byte_texts(v: Seq<Vec<u8>>) -> Seq<Seq<u8>> {
    Seq::new(v.len(), |i: int| v[i]@)
}

fn same_bytes(a: &Vec<u8>, b: &Vec<u8>) -> (r: bool)
    ensures
        r == (a@ == b@),
{
    if a.len() != b.len() {
        return false;
    }
    let mut i: usize = 0;
    while i < a.len()
        invariant
            i <= a.len(),
            a.len() == b.len(),
            forall|x: int| 0 <= x < i ==> a[x] == b[x],
        decreases a.len() - i,
    {
        if a[i] != b[i] {
            return false;
        }
        i += 1;
    }
    assert(a@ =~= b@);
    true
}

fn copy_bytes(a: &Vec<u8>) -> (r: Vec<u8>)
    ensures
        r@ == a@,
{
    let mut r: Vec<u8> = Vec::new();
    let mut i: usize = 0;
    while i < a.len()
        invariant
            i <= a.len(),
            r@ == a@.take(i as int),
        decreases a.len() - i,
    {
        r.push(a[i]);
        i += 1;
        assert(r@ =~= a@.take(i as int));
    }
    assert(a@.take(i as int) =~= a@);
    r
}

fn named_archive(name: &Vec<u8>) -> (r: bool)
    ensures
        r == is_archive(name@),
{
    let n = name.len();
    n >= 4 && name[n - 3] == 46u8 && name[n - 2] == 103u8 && name[n - 1] == 122u8
}

fn archive_keys(entries: &Vec<CacheEntry>, keep: &Vec<u8>, now: i128) -> (r: Vec<RankKey>)
    ensures
        ranking::models(r@) == archives(entries@, keep@, now as int),
{
    let mut r: Vec<RankKey> = Vec::new();
    let mut i: usize = 0;
    assert(ranking::models(r@) =~= archives(entries@.take(0), keep@, now as int));
    while i < entries.len()
        invariant
            i <= entries.len(),
            ranking::models(r@) == archives(entries@.take(i as int), keep@, now as int),
        decreases entries.len() - i,
    {
        assert(entries@.take(i + 1).drop_last() =~= entries@.take(i as int));
        assert(entries@.take(i + 1).last() == entries[i as int]);
        let ghost before = r@;
        if named_archive(&entries[i].name) {
            let time: i128 = if same_bytes(&entries[i].name, keep) {
                now
            } else {
                match entries[i].modified {
                    Some(m) => m,
                    None => 0,
                }
            };
            r.push(RankKey { time, name: copy_bytes(&entries[i].name) });
            assert(ranking::models(r@) =~= ranking::models(before).push(
                key_of(entries[i as int], keep@, now as int),
            ));
        }
        i += 1;
    }
    assert(entries@.take(i as int) =~= entries@);
    r
}

/// The archives to remove from a directory, those first that rank higher: nothing
/// where the limit is zero or not exceeded.
pub fn cleanup_remote_server_cache(
    entries: &Vec<CacheEntry>,
    keep: &Vec<u8>,
    now: i128,
    limit: usize,
) -> (r: Vec<Vec<u8>>)
    ensures
        byte_texts(r@) == stale(archives(entries@, keep@, now as int), keep@, limit as nat),
{
    let mut r: Vec<Vec<u8>> = Vec::new();
    if limit == 0 {
        assert(byte_texts(r@) =~= Seq::<Seq<u8>>::empty());
        return r;
    }
    let keys = archive_keys(entries, keep, now);
    let ghost k = ranking::models(keys@);
    if keys.len() <= limit {
        assert(byte_texts(r@) =~= Seq::<Seq<u8>>::empty());
        return r;
    }
    let order = ranking::rank(&keys);
    let ghost o = ranking::ranked(k);
    proof {
        ranking::law_ranking_is_a_sorted_permutation(k);
        assert(ranking::positions(order@).len() == order.len());
    }
    let mut i: usize = limit;
    assert(byte_texts(r@) =~= names_past(k, o, keep@, limit as int, i as int));
    while i < order.len()
        invariant
            limit <= i <= order.len(),
            order.len() == keys.len(),
            k == ranking::models(keys@),
            o == ranking::positions(order@),
            forall|x: int| 0 <= x < k.len() ==> 0 <= #[trigger] o[x] < k.len(),
            byte_texts(r@) == names_past(k, o, keep@, limit as int, i as int),
        decreases order.len() - i,
    {
        assert(o[i as int] == order[i as int]);
        let name = &keys[order[i]].name;
        let ghost before = r@;
        if !same_bytes(name, keep) {
            r.push(copy_bytes(name));
            assert(byte_texts(r@) =~= byte_texts(before).push(name@));
        }
        i += 1;
    }
    r
}

proof fn lemma_names_past(
    keys: Seq<KeyModel>,
    order: Seq<int>,
    keep: Seq<u8>,
    from: int,
    n: int,
    name: Seq<u8>,
)
    requires
        0 <= from <= n <= order.len(),
    ensures
        names_past(keys, order, keep, from, n).contains(name) <==> name != keep && exists|i: int|
            from <= i < n && keys[#[trigger] order[i]].name == name,
        names_past(keys, order, keep, from, n).len() <= n - from,
    decreases n - from,
{
    let all = names_past(keys, order, keep, from, n);
    if n > from {
        lemma_names_past(keys, order, keep, from, n - 1, name);
        let rest = names_past(keys, order, keep, from, n - 1);
        let last = keys[order[n - 1]].name;
        if last != keep {
            if rest.contains(name) {
                let i = choose|i: int| 0 <= i < rest.len() && rest[i] == name;
                assert(all[i] == name);
            }
            if last == name {
                assert(all[rest.len() as int] == name);
            }
            if all.contains(name) && last != name {
                let i = choose|i: int| 0 <= i < all.len() && all[i] == name;
                assert(rest[i] == name);
            }
        }
    }
}

/// The archive in use is never removed.
pub proof fn law_archive_in_use_stays(keys: Seq<KeyModel>, keep: Seq<u8>, limit: nat)
    ensures
        !stale(keys, keep, limit).contains(keep),
{
    if limit > 0 && keys.len() > limit {
        ranking::law_ranking_is_a_sorted_permutation(keys);
        lemma_names_past(
            keys,
            ranking::ranked(keys),
            keep,
            limit as int,
            keys.len() as int,
            keep,
        );
    }
}

/// Exactly the archives past the limit are removed, but for the one in use: where
/// no two have one name, the archive at a rank goes if the limit is not zero and the
/// rank is past it, and stays otherwise.
pub proof fn law_newest_archives_stay(
    keys: Seq<KeyModel>,
    keep: Seq<u8>,
    limit: nat,
    rank: int,
)
    requires
        0 <= rank < keys.len(),
        forall|i: int, j: int|
            0 <= i < keys.len() && 0 <= j < keys.len() && i != j ==> (#[trigger] keys[i]).name != (
            #[trigger] keys[j]).name,
    ensures
        ({
            let name = keys[ranking::ranked(keys)[rank]].name;
            stale(keys, keep, limit).contains(name) <==> 0 < limit <= rank && name != keep
        }),
{
    ranking::law_ranking_is_a_sorted_permutation(keys);
    let order = ranking::ranked(keys);
    let name = keys[order[rank]].name;
    if limit > 0 && keys.len() > limit {
        lemma_names_past(keys, order, keep, limit as int, keys.len() as int, name);
        if rank < limit {
            assert forall|i: int| limit <= i < keys.len() implies keys[#[trigger] order[i]].name
                != name by {
                assert(order[rank] != order[i]);
            }
        } else {
            assert(keys[order[rank]].name == name);
        }
    }
}

/// The archives are the files whose names end in `.gz` with something before it. An archive
/// counts by when it was modified, the one in use by the present, and one of unknown age by
/// the epoch.
pub proof fn law_archives_are_told_by_name(
    entries: Seq<CacheEntry>,
    e: CacheEntry,
    keep: Seq<u8>,
    now: int,
)
    ensures
        ({
            let before = archives(entries, keep, now);
            let after = archives(entries.push(e), keep, now);
            let named = e.name@.len() > 3 && e.name@.skip(e.name@.len() - 3) == seq![
                46u8,
                103u8,
                122u8,
            ];
            if named {
                after.drop_last() == before && after.len() == before.len() + 1 && after.last().name
                    == e.name@ && (e.name@ == keep ==> after.last().time == now) && (e.name@ != keep
                    && e.modified is Some ==> after.last().time == (e.modified->0) as int) && (
                e.name@ != keep && e.modified is None ==> after.last().time == 0)
            } else {
                after == before
            }
        }),
{
    assert(entries.push(e).drop_last() =~= entries);
    let name = e.name@;
    let gz = seq![46u8, 103u8, 122u8];
    if name.len() > 3 {
        let end = name.skip(name.len() - 3);
        assert(end[0] == name[name.len() - 3] && end[1] == name[name.len() - 2] && end[2]
            == name[name.len() - 1]);
        if is_archive(name) {
            assert(end =~= gz);
            assert(archives(entries.push(e), keep, now).drop_last() =~= archives(
                entries,
                keep,
                now,
            ));
        }
    }
}

/// An archive that is removed is older than every one that stays among the first, up to
/// its name: nothing is removed before something that is older.
pub proof fn law_oldest_archives_go(keys: Seq<KeyModel>, keep: Seq<u8>, limit: nat, a: int, b: int)
    requires
        0 <= a < keys.len(),
        0 <= b < keys.len(),
        forall|i: int, j: int|
            0 <= i < keys.len() && 0 <= j < keys.len() && i != j ==> (#[trigger] keys[i]).name != (
            #[trigger] keys[j]).name,
        stale(keys, keep, limit).contains(keys[a].name),
        !stale(keys, keep, limit).contains(keys[b].name),
        keys[b].name != keep,
    ensures
        keys[a].time <= keys[b].time,
{
    ranking::law_ranking_is_a_sorted_permutation(keys);
    let order = ranking::ranked(keys);
    lemma_covers(order, keys.len(), a);
    lemma_covers(order, keys.len(), b);
    let i = choose|i: int| 0 <= i < order.len() && #[trigger] order[i] == a;
    let j = choose|j: int| 0 <= j < order.len() && #[trigger] order[j] == b;
    law_newest_archives_stay(keys, keep, limit, i);
    law_newest_archives_stay(keys, keep, limit, j);
    assert(limit > 0);
    if j < i {
        ranking::law_newest_come_first(keys, j, i);
    }
}

/// Numbers below `n` that are all different, `n` of them, are all of them.
pub proof fn lemma_covers(order: Seq<int>, n: nat, x: int)
    requires
        0 <= x < n,
        order.len() == n,
        forall|i: int| 0 <= i < n ==> 0 <= #[trigger] order[i] < n,
        forall|i: int, j: int| 0 <= i < j < n ==> #[trigger] order[i] != #[trigger] order[j],
    ensures
        exists|i: int| 0 <= i < order.len() && #[trigger] order[i] == x,
{
    let all = vstd::set_lib::set_int_range(0, n as int);
    vstd::set_lib::lemma_int_range(0, n as int);
    assert(order.no_duplicates());
    order.unique_seq_to_set();
    assert(order.to_set().subset_of(all));
    vstd::set_lib::lemma_subset_equality(order.to_set(), all);
    assert(all.contains(x));
    assert(order.to_set().contains(x));
    assert(order.contains(x));
}

} // verus!
