use vibedev::json::Json;
use vibedev::lists;
use vibedev::table::Table;
use vibedev::text;
use vibedev::version::Version;

#[test]
fn versions_are_ordered() {
    let v = |s: &str| Version::parse(s).unwrap();
    assert!(v("1.0.1").newer_than(&v("1.0.0")));
    assert!(!v("1.0.0").newer_than(&v("1.0.0")));
    assert!(v("1.0.0").newer_than(&v("1.0.0-rc.1")));
    assert!(v("1.0.0-rc.10").newer_than(&v("1.0.0-rc.9")));
    // with build metadata the order goes on, its rank does not
    assert!(v("1.0.0+b").newer_than(&v("1.0.0+a")));
    assert!(!v("1.0.0+b").outranks(&v("1.0.0+a")));
    assert!(v("2.0.0").outranks(&v("1.9.9+z")));
    assert!(Version::parse("1.0").is_none());
    assert!(Version::parse("01.0.0").is_none());
    assert_eq!(v("1.2.3-rc.1+b.7").to_text(), "1.2.3-rc.1+b.7");
    assert_eq!(v("1.2.3-rc.1+b.7").without_suffixes(), Version::new(1, 2, 3));
    assert!(v("1.2.3").same_as(&Version::new(1, 2, 3)));
}

#[test]
fn json_is_read() {
    let j = Json::parse(r#"{ "a": [1, -2, 1.5, "x\n"], "b": null, "a2": true }"#).unwrap();
    let a = j.get("a").unwrap().as_array().unwrap();
    assert_eq!(a[0].as_u64(), Some(1));
    assert_eq!(a[1].as_u64(), None);
    assert_eq!(a[2].as_u64(), None);
    assert_eq!(a[3].as_str(), Some("x\n"));
    assert_eq!(j.get("b"), Some(&Json::Null));
    assert_eq!(j.get("a2").unwrap().as_bool(), Some(true));
    assert!(Json::parse("{,}").is_none());
    // of two entries with one key the later counts
    let twice = Json::parse(r#"{ "k": 1, "k": 2 }"#).unwrap();
    assert_eq!(twice.get("k").unwrap().as_u64(), Some(2));
    let mut m = j.duplicate();
    m.set("b", Json::Bool(false));
    m.remove("a");
    assert_eq!(m.get("b"), Some(&Json::Bool(false)));
    assert!(m.get("a").is_none());
    assert!(Json::parse("{}").unwrap().is_empty_object());
}

#[test]
fn texts_are_cut() {
    assert_eq!(text::trim(" \u{3000}a b\t"), "a b");
    assert_eq!(text::after_prefix("ab", "a"), Some("b".to_string()));
    assert_eq!(text::before_suffix("ab", "b"), Some("a".to_string()));
    assert_eq!(text::first_line("a\r\nb"), "a");
    assert_eq!(text::decimal(18446744073709551615), "18446744073709551615");
    assert_eq!(text::decimal(0), "0");
    assert_eq!(text::read_unsigned("+65535", 65535), Some(65535));
    assert_eq!(text::read_unsigned("65536", 65535), None);
    assert_eq!(text::read_unsigned("", 9), None);
    assert_eq!(text::read_unsigned("18446744073709551616", u64::MAX), None);
    assert!(text::contains("abc", "bc") && !text::contains("abc", "ac"));
    assert!(text::same_ignoring_case("CONNECT", "connect"));
}

#[test]
fn lists_and_tables_hold_texts() {
    let v = vec!["a".to_string(), "b".to_string(), "a".to_string()];
    assert_eq!(lists::without(&v, "a"), vec!["b".to_string()]);
    assert_eq!(lists::minus(&v, &vec!["b".to_string()]), vec!["a".to_string(), "a".to_string()]);
    assert_eq!(lists::join_all(&v, "/"), "a/b/a");
    assert_eq!(lists::position(&v, "b"), Some(1));
    let mut t: Table<u8> = Table::new();
    t.insert("x", 1);
    t.insert("x", 2);
    t.insert_if_absent("x", 3);
    assert_eq!(t.get("x"), Some(&2));
    assert_eq!(t.take("x"), Some(2));
    assert!(t.is_empty());
}
