use vibedev::ranking::{rank, RankKey};
use vibedev::auto_update::{AutoUpdater, ReleaseAsset, ReleaseChannel};
use vibedev::release_cache::{cleanup_remote_server_cache, CacheEntry, REMOTE_SERVER_CACHE_LIMIT};

fn entry(name: &str, modified: Option<i128>) -> CacheEntry {
    CacheEntry { name: name.as_bytes().to_vec(), modified }
}

fn names(v: Vec<Vec<u8>>) -> Vec<String> {
    v.into_iter().map(|n| String::from_utf8(n).unwrap()).collect()
}

#[test]
fn oldest_archives_go() {
    let entries = vec![
        entry("1.gz", Some(10)),
        entry("2.gz", Some(30)),
        entry("3.gz", Some(20)),
        entry("notes.txt", Some(1)),
        entry(".gz", Some(1)),
        entry("4.gz", None),
    ];
    let keep = b"1.gz".to_vec();
    // the one in use counts as newest
    assert_eq!(
        names(cleanup_remote_server_cache(&entries, &keep, 100, 2)),
        vec!["3.gz".to_string(), "4.gz".to_string()]
    );
    assert!(cleanup_remote_server_cache(&entries, &keep, 100, 4).is_empty());
    assert!(cleanup_remote_server_cache(&entries, &keep, 100, 0).is_empty());
    // it is not removed even where others are newer
    assert_eq!(
        names(cleanup_remote_server_cache(&entries, &keep, 5, 1)),
        vec!["3.gz".to_string(), "4.gz".to_string()]
    );
    assert_eq!(REMOTE_SERVER_CACHE_LIMIT, 5);
}

#[test]
fn archives_of_one_age_go_by_name() {
    let entries = vec![entry("b.gz", Some(1)), entry("a.gz", Some(1)), entry("c.gz", Some(1))];
    assert_eq!(
        names(cleanup_remote_server_cache(&entries, &b"x.gz".to_vec(), 9, 1)),
        vec!["b.gz".to_string(), "c.gz".to_string()]
    );
}

#[test]
fn ranking_keeps_the_order_of_equals() {
    let key = |time: i128, name: &str| RankKey { time, name: name.as_bytes().to_vec() };
    assert_eq!(rank(&vec![key(1, ""), key(3, ""), key(1, ""), key(2, "")]), vec![1, 3, 0, 2]);
    assert_eq!(rank(&vec![key(1, "ab"), key(1, "a"), key(1, "b")]), vec![1, 0, 2]);
}

#[test]
fn archives_are_named_by_platform_and_version() {
    let release = ReleaseAsset { version: "1.2.3".to_string(), url: "https://x/a".to_string() };
    let path = AutoUpdater::download_remote_server_release(
        ReleaseChannel::Preview,
        &release,
        "linux",
        "x86_64",
    );
    assert_eq!(path.channel_dir, "preview");
    assert_eq!(path.platform_dir, "linux-x86_64");
    assert_eq!(path.file, "1.2.3.gz");
    assert_eq!(
        AutoUpdater::get_remote_server_release_url(release),
        Some("https://x/a".to_string())
    );
}
