use vibedev::json::Json;
use vibedev::migrations::{
    heal_vibedev_registry_override, make_file_finder_include_ignored_an_enum,
    remove_formatters_on_save, restore_code_actions_on_format, MigrationError,
};

fn parse(input: &str) -> Json {
    Json::parse(input).unwrap()
}

fn run(input: &str) -> Json {
    let mut v = parse(input);
    heal_vibedev_registry_override(&mut v).unwrap();
    v
}

#[test]
fn strips_registry_typed_vibedev() {
    let out = run(
        r#"{
            "agent_servers": {
                "VibeDev": {
                    "type": "registry",
                    "default_config_options": { "mode": "auto" }
                }
            },
            "vim_mode": false
        }"#,
    );
    // VibeDev stripped; since it was the only agent server, the whole key is removed.
    assert!(out.get("agent_servers").is_none());
    assert_eq!(out.get("vim_mode"), Some(&Json::Bool(false)));
}

#[test]
fn keeps_other_agent_servers_when_stripping_vibedev() {
    let out = run(
        r#"{
            "agent_servers": {
                "VibeDev": { "type": "registry" },
                "my-agent": { "type": "custom", "command": "/bin/foo" }
            }
        }"#,
    );
    let servers = out.get("agent_servers").unwrap();
    assert!(servers.is_object());
    assert!(servers.get("VibeDev").is_none());
    assert!(servers.get("my-agent").is_some());
}

#[test]
fn preserves_a_real_custom_vibedev_override() {
    let out = run(
        r#"{
            "agent_servers": {
                "VibeDev": {
                    "type": "custom",
                    "command": "C:/dev/bun.exe",
                    "args": ["cli.js", "--acp"]
                }
            }
        }"#,
    );
    let vibedev = out.get("agent_servers").unwrap().get("VibeDev").unwrap();
    assert!(vibedev.is_object());
    assert_eq!(vibedev.get("command").and_then(|c| c.as_str()), Some("C:/dev/bun.exe"));
}

#[test]
fn noop_when_no_agent_servers() {
    let out = run(r#"{ "vim_mode": true }"#);
    assert_eq!(out.get("vim_mode"), Some(&Json::Bool(true)));
    assert!(out.get("agent_servers").is_none());
}

#[test]
fn formatters_on_save_become_the_formatter() {
    let mut v = parse(r#"{ "format_on_save": "prettier", "tab_size": 2 }"#);
    assert_eq!(remove_formatters_on_save(&mut v, &vec![]), Ok(()));
    assert_eq!(v.get_str("format_on_save"), Some("on"));
    assert_eq!(v.get_str("formatter"), Some("prettier"));
    assert_eq!(v.get("tab_size").and_then(|t| t.as_u64()), Some(2));
    // doing it again changes nothing
    let before = v.duplicate();
    assert_eq!(remove_formatters_on_save(&mut v, &vec![]), Ok(()));
    assert_eq!(v, before);
}

#[test]
fn plain_on_and_off_stay() {
    let mut v = parse(r#"{ "format_on_save": "off" }"#);
    let before = v.duplicate();
    assert_eq!(remove_formatters_on_save(&mut v, &vec![]), Ok(()));
    assert_eq!(v, before);
}

#[test]
fn two_formatters_are_an_error() {
    let mut v = parse(r#"{ "format_on_save": "prettier", "formatter": "x" }"#);
    let err = remove_formatters_on_save(&mut v, &vec![]).unwrap_err();
    assert!(matches!(err, MigrationError::FormatterSetTwice { .. }));
    assert!(!err.message().is_empty());
}

#[test]
fn code_actions_come_back() {
    let mut v = parse(r#"{ "formatter": { "code_action": "source.organizeImports" } }"#);
    assert_eq!(restore_code_actions_on_format(&mut v, &vec![]), Ok(()));
    let actions = v.get("code_actions_on_format").unwrap();
    assert_eq!(actions.get("source.organizeImports"), Some(&Json::Bool(true)));
    assert_eq!(v.get("formatter"), Some(&Json::Array(vec![])));
    // doing it again changes nothing
    let before = v.duplicate();
    assert_eq!(restore_code_actions_on_format(&mut v, &vec![]), Ok(()));
    assert_eq!(v, before);
}

#[test]
fn code_actions_that_are_no_map_are_an_error() {
    let mut v = parse(
        r#"{ "formatter": { "code_action": "a" }, "code_actions_on_format": 3 }"#,
    );
    let err = restore_code_actions_on_format(&mut v, &vec![]).unwrap_err();
    assert!(matches!(err, MigrationError::CodeActionsNotMap(_)));
    let mut w = parse(r#"{ "formatter": { "code_action": 3 } }"#);
    let err = restore_code_actions_on_format(&mut w, &vec![]).unwrap_err();
    assert!(matches!(err, MigrationError::CodeActionNotText(_)));
}

#[test]
fn include_ignored_becomes_a_word() {
    for (from, to) in [("true", "all"), ("false", "indexed"), ("null", "smart")] {
        let mut v = parse(&format!(
            "{{ \"file_finder\": {{ \"include_ignored\": {from}, \"file_icons\": true }} }}"
        ));
        assert_eq!(make_file_finder_include_ignored_an_enum(&mut v), Ok(()));
        let finder = v.get("file_finder").unwrap();
        assert_eq!(finder.get_str("include_ignored"), Some(to));
        assert_eq!(finder.get("file_icons"), Some(&Json::Bool(true)));
    }
    let mut number = parse(r#"{ "file_finder": { "include_ignored": 3 } }"#);
    assert_eq!(
        make_file_finder_include_ignored_an_enum(&mut number),
        Err(MigrationError::IncludeIgnoredInvalid)
    );
    let mut flat = parse(r#"{ "file_finder": 3 }"#);
    assert_eq!(
        make_file_finder_include_ignored_an_enum(&mut flat),
        Err(MigrationError::FileFinderNotObject)
    );
}

fn keys(v: &Json) -> Vec<&str> {
    match v {
        Json::Object(entries) => entries.iter().map(|(key, _)| key.as_str()).collect(),
        _ => panic!("an object has keys"),
    }
}

fn object(entries: &[(&str, Json)]) -> Json {
    Json::Object(entries.iter().map(|(key, v)| (key.to_string(), v.duplicate())).collect())
}

#[test]
fn code_actions_follow_last_first() {
    let action = |name: &str| object(&[("code_action", Json::Str(name.to_string()))]);
    let mut v = object(&[
        ("formatter", Json::Array(vec![action("a"), action("b"), action("c")])),
        ("z", Json::Null),
        ("code_actions_on_format", object(&[("y", Json::Bool(false)), ("b", Json::Bool(false))])),
        ("k", Json::Null),
    ]);
    assert_eq!(restore_code_actions_on_format(&mut v, &vec![]), Ok(()));
    assert_eq!(keys(&v), ["formatter", "z", "code_actions_on_format", "k"]);
    assert_eq!(
        v.get("code_actions_on_format"),
        Some(&object(&[
            ("y", Json::Bool(false)),
            ("b", Json::Bool(true)),
            ("c", Json::Bool(true)),
            ("a", Json::Bool(true)),
        ]))
    );
    // where there is no map yet, it comes last
    let mut v = object(&[("formatter", action("a")), ("z", Json::Null)]);
    assert_eq!(restore_code_actions_on_format(&mut v, &vec![]), Ok(()));
    assert_eq!(keys(&v), ["formatter", "z", "code_actions_on_format"]);
}

#[test]
fn a_new_formatter_comes_last() {
    let mut v = parse(r#"{ "format_on_save": "prettier", "tab_size": 2 }"#);
    assert_eq!(remove_formatters_on_save(&mut v, &vec![]), Ok(()));
    assert_eq!(keys(&v), ["format_on_save", "tab_size", "formatter"]);
    let mut v = parse(r#"{ "file_finder": { "include_ignored": true, "b": 1 }, "a": 1 }"#);
    assert_eq!(make_file_finder_include_ignored_an_enum(&mut v), Ok(()));
    assert_eq!(keys(&v), ["file_finder", "a"]);
    assert_eq!(keys(v.get("file_finder").unwrap()), ["include_ignored", "b"]);
}

#[test]
fn the_last_agent_takes_the_place_of_the_one_that_goes() {
    let text = r#"{
        "agent_servers": { "VibeDev": {}, "a": 1, "b": 2 }, "x": 1, "y": 2
    }"#;
    let out = run(text);
    assert_eq!(keys(&out), ["agent_servers", "x", "y"]);
    assert_eq!(keys(out.get("agent_servers").unwrap()), ["b", "a"]);
    let out = run(r#"{ "agent_servers": { "VibeDev": {} }, "x": 1, "y": 2 }"#);
    assert_eq!(keys(&out), ["y", "x"]);
    // as the maps of serde_json do it
    let mut value: serde_json::Value = serde_json::from_str(text).unwrap();
    value["agent_servers"].as_object_mut().unwrap().remove("VibeDev");
    let left: Vec<&String> = value["agent_servers"].as_object().unwrap().keys().collect();
    assert_eq!(left, ["b", "a"]);
    // a key that repeats goes with every entry, and the others keep their order
    let mut v = object(&[("k", Json::Null), ("a", Json::Bool(true)), ("k", Json::Null)]);
    v.remove("k");
    assert_eq!(v, object(&[("a", Json::Bool(true))]));
}
