use vibedev::byok::{
    authenticate_byok_providers, collect_byok_groups, collect_byok_map, pending_providers,
    protocol_and_url, protocol_for, ByokMap, ByokProvider, ByokSource, ProviderUrls,
};
use vibedev::table::Table;

#[test]
fn known_provider_protocols() {
    // gateway-only / no-standalone-key providers are excluded.
    assert_eq!(protocol_for("vibedev"), None);
    assert_eq!(protocol_for("bedrock"), None);
    assert_eq!(protocol_for("zed.dev"), None);

    // anthropic + gemini speak their own wire protocols.
    assert_eq!(protocol_for("anthropic"), Some("anthropic"));
    assert_eq!(protocol_for("google"), Some("gemini"));

    // everything else is openai-compatible.
    assert_eq!(protocol_for("openai"), Some("openai"));
    assert_eq!(protocol_for("deepseek"), Some("openai"));
    assert_eq!(protocol_for("mistral"), Some("openai"));
    assert_eq!(protocol_for("ollama"), Some("openai"));
    assert_eq!(protocol_for("lmstudio"), Some("openai"));
    assert_eq!(protocol_for("open_router"), Some("openai"));
    assert_eq!(protocol_for("x_ai"), Some("openai"));
    assert_eq!(protocol_for("vercel.ai_gateway"), Some("openai"));

    // unknown id == openai_compatible custom provider → openai protocol.
    assert_eq!(protocol_for("my_custom_provider"), Some("openai"));
}

fn urls() -> ProviderUrls {
    let mut openai_compatible: Table<String> = Table::new();
    openai_compatible.put("mine", "https://mine.example/v1");
    openai_compatible.put("vibedev", "http://127.0.0.1:1/v1");
    ProviderUrls {
        anthropic: "https://a".to_string(),
        google: "https://g".to_string(),
        openai: "https://o".to_string(),
        deepseek: "https://d".to_string(),
        mistral: "https://m".to_string(),
        ollama: "https://ol".to_string(),
        lmstudio: "https://l".to_string(),
        open_router: "https://or".to_string(),
        x_ai: "https://x".to_string(),
        vercel_ai_gateway: "https://v".to_string(),
        openai_compatible,
    }
}

fn source(id: &str, authenticated: bool, models: &[&str]) -> ByokSource {
    ByokSource {
        id: id.to_string(),
        name: format!("The {id}"),
        authenticated,
        models: models.iter().map(|m| m.to_string()).collect(),
    }
}

#[test]
fn routes_follow_the_settings() {
    let s = urls();
    assert_eq!(protocol_and_url("google", &s), Some(("gemini", "https://g".to_string())));
    assert_eq!(protocol_and_url("vercel.ai_gateway", &s), Some(("openai", "https://v".to_string())));
    assert_eq!(protocol_and_url("mine", &s), Some(("openai", "https://mine.example/v1".to_string())));
    assert_eq!(protocol_and_url("unknown", &s), None);
    // without a key of its own even where an address is set
    assert_eq!(protocol_and_url("vibedev", &s), None);
}

#[test]
fn only_keyed_providers_are_told() {
    let sources = vec![
        source("vibedev", true, &["g"]),
        source("openai", true, &["gpt-a", "gpt-b"]),
        source("mine", true, &[]),
        source("anthropic", false, &["c"]),
        source("mine", true, &["gpt-b"]),
        source("unknown", true, &["u"]),
    ];
    let pending: Vec<ByokProvider> = pending_providers(&sources, &urls());
    let ids: Vec<&str> = pending.iter().map(|p| p.id.as_str()).collect();
    assert_eq!(ids, vec!["openai", "mine"]);
    assert!(pending.iter().all(|p| p.api_key.is_empty()));

    let keys = vec![Some("k1".to_string()), None];
    let map: ByokMap = collect_byok_map(&pending, &keys);
    assert_eq!(map.providers.len(), 2);
    assert_eq!(map.providers[0].api_key, "k1");
    assert_eq!(map.providers[0].label, "The openai（你的 Key）");
    assert_eq!(map.providers[0].protocol, "openai");
    assert_eq!(map.providers[0].base_url, "https://o");
    assert_eq!(map.providers[0].models, vec!["gpt-a".to_string(), "gpt-b".to_string()]);
    // a key that could not be read is empty
    assert_eq!(map.providers[1].api_key, "");

    let groups = collect_byok_groups(&sources, &urls());
    assert_eq!(groups.get("gpt-a"), Some(&"The openai（你的 Key）".to_string()));
    // of two providers with one model the later counts
    assert_eq!(groups.get("gpt-b"), Some(&"The mine（你的 Key）".to_string()));
    assert_eq!(groups.get("g"), None);
    assert_eq!(groups.get("u"), None);
    assert_eq!(groups.get("c"), None);
}

#[test]
fn only_unloaded_keyed_providers_are_authenticated() {
    let sources = vec![
        source("bedrock", false, &[]),
        source("openai", true, &[]),
        source("anthropic", false, &[]),
        source("mine", false, &[]),
    ];
    assert_eq!(
        authenticate_byok_providers(&sources),
        vec!["anthropic".to_string(), "mine".to_string()]
    );
}
