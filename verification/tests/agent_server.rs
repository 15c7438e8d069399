use vibedev::agent_server::{
    api_key_for_gemini_cli, default_settings_for_agent, extra_env, is_registry_agent,
    remote_command, AgentPreferences, AgentServerCommand, CustomAgentServer,
    CustomAgentServerSettings, LaunchContext, RemoteContext, CODEX_ID, GEMINI_ID,
    VIBEDEV_AGENT_ID,
};
use vibedev::table::Table;

fn no_preferences() -> AgentPreferences {
    AgentPreferences {
        default_mode: None,
        default_model: None,
        favorite_models: Vec::new(),
        default_config_options: Table::new(),
        favorite_config_option_values: Table::new(),
    }
}

#[test]
fn test_unknown_agent_is_not_registry() {
    assert!(!is_registry_agent("my-custom-agent", &vec![], &Table::new()));
}

#[test]
fn test_agent_in_registry_store_is_registry() {
    let registry = vec!["some-new-registry-agent".to_string()];
    assert!(is_registry_agent("some-new-registry-agent", &registry, &Table::new()));
    assert!(!is_registry_agent("not-in-registry", &registry, &Table::new()));
}

#[test]
fn test_agent_with_registry_settings_type_is_registry() {
    let mut servers: Table<CustomAgentServerSettings> = Table::new();
    servers.insert(
        "agent-from-settings",
        CustomAgentServerSettings::Registry { env: Table::new(), preferences: no_preferences() },
    );
    assert!(is_registry_agent("agent-from-settings", &vec![], &servers));
}

#[test]
fn custom_settings_are_no_registry() {
    let mut servers: Table<CustomAgentServerSettings> = Table::new();
    servers.insert(
        "mine",
        CustomAgentServerSettings::Custom {
            path: "/bin/a".to_string(),
            args: vec![],
            env: Table::new(),
            preferences: no_preferences(),
        },
    );
    assert!(!is_registry_agent("mine", &vec![], &servers));
}

#[test]
fn preferences_are_read_back() {
    let a = CustomAgentServer::new("a".to_string());
    let b = CustomAgentServer::new("b".to_string());
    assert_eq!(a.agent_id(), "a");
    let mut servers: Table<CustomAgentServerSettings> = Table::new();
    assert_eq!(a.default_mode(&servers), None);
    a.set_default_mode(&mut servers, None, Some("plan".to_string()));
    a.set_default_model(&mut servers, None, Some("m1".to_string()));
    a.set_default_config_option(&mut servers, None, "thinking", Some("high"));
    assert_eq!(a.default_mode(&servers), Some("plan".to_string()));
    assert_eq!(a.default_model(&servers), Some("m1".to_string()));
    assert_eq!(a.default_config_option(&servers, "thinking"), Some("high".to_string()));
    assert_eq!(b.default_mode(&servers), None);
    a.set_default_config_option(&mut servers, None, "thinking", None);
    assert_eq!(a.default_config_option(&servers, "thinking"), None);
}

#[test]
fn favorites_are_kept_once() {
    let a = CustomAgentServer::new("a".to_string());
    let mut servers: Table<CustomAgentServerSettings> = Table::new();
    a.toggle_favorite_model(&mut servers, None, "m1", true);
    a.toggle_favorite_model(&mut servers, None, "m1", true);
    a.toggle_favorite_model(&mut servers, None, "m2", true);
    assert_eq!(a.favorite_model_ids(&servers), vec!["m1".to_string(), "m2".to_string()]);
    a.toggle_favorite_model(&mut servers, None, "m1", false);
    assert_eq!(a.favorite_model_ids(&servers), vec!["m2".to_string()]);
    a.toggle_favorite_config_option_value(&mut servers, None, "mode", "fast", true);
    assert_eq!(
        a.favorite_config_option_value_ids(&servers, "mode"),
        vec!["fast".to_string()]
    );
    a.toggle_favorite_config_option_value(&mut servers, None, "mode", "fast", false);
    assert!(a.favorite_config_option_value_ids(&servers, "mode").is_empty());
}

#[test]
fn settings_of_an_agent_keep_its_command() {
    let resolved = CustomAgentServerSettings::Custom {
        path: "/bin/a".to_string(),
        args: vec!["--acp".to_string()],
        env: Table::new(),
        preferences: no_preferences(),
    };
    assert_eq!(default_settings_for_agent(Some(&resolved)), resolved);
    assert!(matches!(
        default_settings_for_agent(None),
        CustomAgentServerSettings::Registry { .. }
    ));
}

fn context(from_registry: bool) -> LaunchContext {
    LaunchContext {
        no_browser: true,
        from_registry,
        claude_agent_id: "listed-acp".to_string(),
        codex_api_key: Some("c".to_string()),
        open_ai_api_key: None,
        gemini_api_key: Some("g".to_string()),
        byok: Some("{}".to_string()),
    }
}

#[test]
fn registry_agents_have_variables_of_their_own() {
    let env = extra_env(Table::new(), "listed-acp", &context(true));
    assert_eq!(env.get("ANTHROPIC_API_KEY"), Some(&String::new()));
    assert_eq!(env.get("NO_BROWSER"), Some(&"1".to_string()));
    assert_eq!(env.get("VIBEDEV_BYOK"), Some(&"{}".to_string()));
    let env = extra_env(Table::new(), CODEX_ID, &context(true));
    assert_eq!(env.get("CODEX_API_KEY"), Some(&"c".to_string()));
    assert_eq!(env.get("OPEN_AI_API_KEY"), None);
    let env = extra_env(Table::new(), GEMINI_ID, &context(true));
    assert_eq!(env.get("SURFACE"), Some(&"zed".to_string()));
    assert_eq!(env.get("GEMINI_API_KEY"), Some(&"g".to_string()));
    let env = extra_env(Table::new(), "other", &context(true));
    assert_eq!(env.get("ANTHROPIC_API_KEY"), None);
    let env = extra_env(Table::new(), "listed-acp", &context(false));
    assert_eq!(env.get("ANTHROPIC_API_KEY"), None);
    let env = extra_env(Table::new(), GEMINI_ID, &context(false));
    assert_eq!(env.get("SURFACE"), None);
}

#[test]
fn gemini_key_comes_from_the_environment_first() {
    let key = |a: Option<&str>, b: Option<&str>, c: Option<&str>| {
        api_key_for_gemini_cli(
            a.map(String::from),
            b.map(String::from),
            c.map(String::from),
        )
    };
    assert_eq!(key(Some("a"), Some("b"), Some("c")), Some("a".to_string()));
    assert_eq!(key(None, Some("b"), Some("c")), Some("b".to_string()));
    assert_eq!(key(None, None, Some("c")), Some("c".to_string()));
    assert_eq!(key(None, None, None), None);
}

#[test]
fn a_remote_host_runs_its_own_bundle() {
    let command = || AgentServerCommand {
        path: "/opt/vibedev-agent".to_string(),
        args: vec!["--acp".to_string()],
        env: None,
    };
    let remote = RemoteContext {
        expected_version: Some("2.6.5".to_string()),
        credentials: Some(("key".to_string(), "https://gate".to_string())),
        auth_json: Some("{\"a\":1}".to_string()),
        tunnel_port: Some(41273),
    };
    let r = remote_command(command(), &remote);
    assert_eq!(r.path, "sh");
    assert!(r.args[1].contains("2.6.5"));
    let env = r.env.unwrap();
    assert_eq!(env.get("VIBEDEV_AUTH_JSON"), Some(&"{\"a\":1}".to_string()));
    // only the bundled agent, and only over ssh
    let servers: Table<CustomAgentServerSettings> = Table::new();
    let run = |id: &str, over_ssh: bool| {
        let server = CustomAgentServer::new(id.to_string());
        assert_eq!(server.wants_tunnel(over_ssh), id == VIBEDEV_AGENT_ID && over_ssh);
        server.connect(&servers, Some(command()), over_ssh, &remote).unwrap().command.path
    };
    assert_eq!(run(VIBEDEV_AGENT_ID, true), "sh");
    assert_eq!(run(VIBEDEV_AGENT_ID, false), "/opt/vibedev-agent");
    assert_eq!(run("other", true), "/opt/vibedev-agent");
}

#[test]
fn a_connection_takes_the_preferences_along() {
    let remote = RemoteContext {
        expected_version: None,
        credentials: None,
        auth_json: None,
        tunnel_port: None,
    };
    let mut servers: Table<CustomAgentServerSettings> = Table::new();
    let server = CustomAgentServer::new("mine".to_string());
    server.set_default_mode(&mut servers, None, Some("plan".to_string()));
    server.set_default_config_option(&mut servers, None, "thinking", Some("high"));
    let command =
        AgentServerCommand { path: "/bin/a".to_string(), args: Vec::new(), env: None };
    let connection = server.connect(&servers, Some(command), false, &remote).unwrap();
    assert_eq!(connection.agent_id, "mine");
    assert_eq!(connection.default_mode.as_deref(), Some("plan"));
    assert_eq!(connection.default_model, None);
    assert_eq!(connection.default_config_options.get("thinking"), Some(&"high".to_string()));
    assert_eq!(
        server.connect(&servers, None, false, &remote),
        Err("Custom agent server `mine` is not registered".to_string())
    );
}

#[test]
fn a_registry_agent_is_prepared_for() {
    let servers: Table<CustomAgentServerSettings> = Table::new();
    let registry = vec![GEMINI_ID.to_string(), "other".to_string()];
    let gemini = CustomAgentServer::new(GEMINI_ID.to_string());
    assert!(gemini.prepare(&registry, &servers).wants_gemini_key);
    assert!(!gemini.prepare(&vec![], &servers).wants_gemini_key);
    let other = CustomAgentServer::new("other".to_string()).prepare(&registry, &servers);
    assert!(other.from_registry && !other.wants_gemini_key);
}
