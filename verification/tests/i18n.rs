use vibedev::i18n::{tr, translation_in, TRANSLATIONS};
use vibedev::json::Json;

#[test]
fn embedded_table_parses() {
    assert!(Json::parse(TRANSLATIONS).is_some());
}

#[test]
fn missing_key_is_none() {
    assert_eq!(tr("\u{0}definitely not a key\u{0}"), None);
}

#[test]
fn an_english_build_translates_nothing() {
    assert_eq!(TRANSLATIONS, "{}");
    assert_eq!(Json::parse("{}"), Some(Json::Object(vec![])));
    assert_eq!(tr("Open"), None);
}

#[test]
fn a_table_translates() {
    let table = Json::parse(r#"{ "Open": "打开", "Close": "关闭" }"#);
    assert_eq!(translation_in(table.as_ref(), "Open"), Some("打开".to_string()));
    assert_eq!(translation_in(table.as_ref(), "Save"), None);
}

#[test]
fn a_malformed_table_translates_nothing() {
    let mixed = Json::parse(r#"{ "Open": "打开", "Close": 3 }"#);
    assert_eq!(translation_in(mixed.as_ref(), "Open"), None);
    let list = Json::parse("[]");
    assert_eq!(translation_in(list.as_ref(), "Open"), None);
    let broken = Json::parse("{");
    assert_eq!(translation_in(broken.as_ref(), "Open"), None);
}
