use vibedev::edit_prediction::{
    custom_server_answer, load_open_ai_compatible_api_key_if_needed, ollama_answer,
    open_ai_compatible_api_url, send_custom_server_request, vibedev_configure_fim, ApiKeyState,
    CompletionReply, EditPredictionProvider, EditPredictionSettings, OllamaReply, PromptFormat,
    ServerRequest,
};
use vibedev::global_skills::{refresh_global_skill_index, SkillIndex};
use vibedev::inline_assistant::{
    action_of, advance, chat_model, insert_chat_provider, remove_chat_provider,
    vibedev_configure_inline_assistant, ConfigureAction, ConfigureEvent, ConfigureOutcome,
    ConfigureState, ProviderContent, DEFAULT_MAX_TOKENS, REGISTER_WAIT_MILLIS,
    VIBEDEV_CHAT_PROVIDER_ID,
};
use vibedev::language_models::{
    init, llm_extension_ids, on_extension_event, register_language_model_providers,
    register_openai_compatible_providers, update_environment_fallback_model, ConfiguredModel,
    ExtensionEvent, InstalledExtension, ProviderKind, ProviderState, RegistryChange,
};
use vibedev::onboarding::{
    AgentPanelOnboarding, PlanDefinitions, RegistryEvent, VisibleProvider,
};
use vibedev::table::Table;

#[test]
fn completions_point_at_the_sidecar() {
    let mut settings = EditPredictionSettings { provider: None, open_ai_compatible_api: None };
    let mut state = ApiKeyState { url: String::new(), key: None };
    assert_eq!(open_ai_compatible_api_url(&settings), "");
    vibedev_configure_fim(&mut settings, &mut state, 52001, "t0k");
    assert_eq!(
        open_ai_compatible_api_url(&settings),
        "http://127.0.0.1:52001/v1/completions"
    );
    let api = settings.open_ai_compatible_api.as_ref().unwrap();
    assert_eq!(api.model.as_deref(), Some("deepseek-coder"));
    assert_eq!(api.max_output_tokens, Some(256));
    assert_eq!(api.prompt_format, Some(PromptFormat::DeepseekCoder));
    let key = |p| load_open_ai_compatible_api_key_if_needed(p, &settings, &state);
    assert_eq!(key(EditPredictionProvider::OpenAiCompatibleApi), Some("t0k".to_string()));
    assert_eq!(key(EditPredictionProvider::Other), None);
    assert_eq!(state.key("http://elsewhere"), None);
}

#[test]
fn requests_for_completions_carry_the_key() {
    let request = send_custom_server_request(
        EditPredictionProvider::OpenAiCompatibleApi,
        "http://x/v1",
        "m",
        "fn ".to_string(),
        256,
        vec!["\n\n".to_string()],
        &Some("k".to_string()),
    );
    match request {
        ServerRequest::Completion(c) => {
            assert_eq!(c.url, "http://x/v1");
            assert_eq!(
                c.headers,
                vec![
                    ("Content-Type".to_string(), "application/json".to_string()),
                    ("Authorization".to_string(), "Bearer k".to_string()),
                ]
            );
            assert_eq!((c.model.as_str(), c.prompt.as_str(), c.max_tokens), ("m", "fn ", 256));
            assert_eq!(c.stop, vec!["\n\n".to_string()]);
        }
        ServerRequest::Ollama { .. } => panic!("a completion is asked for"),
    }
    let request = send_custom_server_request(
        EditPredictionProvider::Ollama,
        "u",
        "m",
        "p".to_string(),
        1,
        vec![],
        &None,
    );
    assert!(matches!(request, ServerRequest::Ollama { prompt, .. } if prompt == "p"));
}

#[test]
fn the_first_completion_counts() {
    let reply = |choices: &[&str]| {
        Some(CompletionReply {
            id: "c1".to_string(),
            choices: choices.iter().map(|c| c.to_string()).collect(),
        })
    };
    assert_eq!(
        custom_server_answer(200, "200 OK", "", reply(&["a", "b"])),
        Ok(("a".to_string(), "c1".to_string()))
    );
    assert_eq!(
        custom_server_answer(200, "200 OK", "", reply(&[])),
        Ok((String::new(), "c1".to_string()))
    );
    assert_eq!(
        custom_server_answer(200, "200 OK", "{", None),
        Err("Failed to parse completion response".to_string())
    );
    assert_eq!(
        custom_server_answer(404, "404 Not Found", "no", reply(&["a"])),
        Err("custom server error: 404 Not Found - no".to_string())
    );
}

#[test]
fn an_answer_of_ollama_is_marked_by_its_time() {
    let reply = OllamaReply {
        response: "let x".to_string(),
        created_at: "2025-01-01T00:00:00Z".to_string(),
    };
    assert_eq!(
        ollama_answer(Ok(reply)),
        Ok(("let x".to_string(), "2025-01-01T00:00:00Z".to_string()))
    );
    assert_eq!(ollama_answer(Err("no server".to_string())), Err("no server".to_string()));
}

#[test]
fn the_assistant_is_set_up_for_the_sidecar() {
    let plan = vibedev_configure_inline_assistant(
        52001,
        "t0k".to_string(),
        vec!["m1".to_string(), "m2".to_string()],
    );
    assert_eq!(plan.token, "t0k");
    assert!(plan.content.api_url.starts_with("http://127.0.0.1:52001/"));
    assert_eq!(plan.content.available_models.len(), 2);
    assert_eq!(plan.model.as_deref(), Some("m1"));
    assert_eq!(chat_model("m1".to_string()).max_tokens, DEFAULT_MAX_TOKENS);
    let none = vibedev_configure_inline_assistant(1, "t".to_string(), vec![]);
    assert_eq!(none.model, None);

    let mut providers: Table<ProviderContent> = Table::new();
    insert_chat_provider(&mut providers, plan.content);
    assert!(providers.contains(VIBEDEV_CHAT_PROVIDER_ID));
    remove_chat_provider(&mut providers);
    assert!(!providers.contains(VIBEDEV_CHAT_PROVIDER_ID));
}

/// Drives the set-up; the provider is gone and comes as the settings say.
fn configure(has_model: bool, arrives: bool) -> (ConfigureOutcome, Vec<ConfigureAction>) {
    let mut state = ConfigureState::Begin;
    let mut registered = true;
    let mut waited: u64 = 0;
    let mut taken = Vec::new();
    loop {
        let action = action_of(state);
        taken.push(action);
        let event = match action {
            ConfigureAction::Stop(outcome) => return (outcome, taken),
            ConfigureAction::RemoveKey => {
                registered = false;
                waited = 0;
                ConfigureEvent::Done
            }
            ConfigureAction::InsertKey => {
                registered = arrives;
                waited = 0;
                ConfigureEvent::Done
            }
            ConfigureAction::Sleep(millis) => {
                waited += millis;
                ConfigureEvent::Done
            }
            ConfigureAction::Look => ConfigureEvent::Seen { registered, waited },
            _ => ConfigureEvent::Done,
        };
        state = advance(state, event, has_model);
    }
}

#[test]
fn the_key_is_renewed_before_it_is_used() {
    let (outcome, taken) = configure(true, true);
    assert_eq!(outcome, ConfigureOutcome::Selected);
    let at = |a: ConfigureAction| taken.iter().position(|x| *x == a).unwrap();
    assert!(at(ConfigureAction::RemoveKey) < at(ConfigureAction::InsertKey));
    assert!(at(ConfigureAction::WriteCredentials) < at(ConfigureAction::Authenticate));
    assert!(at(ConfigureAction::Authenticate) < at(ConfigureAction::Select));
    assert_eq!(configure(false, true).0, ConfigureOutcome::NoModels);
    let (outcome, taken) = configure(true, false);
    assert_eq!(outcome, ConfigureOutcome::NotRegistered);
    let slept: u64 = taken
        .iter()
        .map(|a| if let ConfigureAction::Sleep(m) = a { *m } else { 0 })
        .sum();
    assert!(slept >= REGISTER_WAIT_MILLIS);
}

#[test]
fn withheld_providers_are_left_out() {
    let kinds = register_language_model_providers();
    assert!(kinds.contains(&ProviderKind::Anthropic));
    assert!(!kinds.contains(&ProviderKind::Cloud));
}

#[test]
fn the_registry_follows_the_settings() {
    let s = |v: &[&str]| v.iter().map(|x| x.to_string()).collect::<Vec<String>>();
    let changes = register_openai_compatible_providers(&s(&["a", "b"]), &s(&["b", "c"]));
    assert_eq!(changes.unregister, s(&["a"]));
    assert_eq!(changes.register, s(&["c"]));
}

#[test]
fn the_registry_is_filled_and_kept_up() {
    let s = |v: &[&str]| v.iter().map(|x| x.to_string()).collect::<Vec<String>>();
    let installed = vec![InstalledExtension { id: "x".to_string(), provider_count: 1 }];
    let (startup, mut kept) = init(Some(&installed), s(&["a", "b"]));
    assert_eq!(startup.builtin, register_language_model_providers());
    assert_eq!(startup.extensions, Some(s(&["x"])));
    assert!(startup.settings.unregister.is_empty());
    assert_eq!(startup.settings.register, s(&["a", "b"]));
    assert_eq!(kept.on_settings(s(&["b", "a"])), None);
    assert_eq!(kept.keys, s(&["a", "b"]));
    let changes = kept.on_settings(s(&["b", "c"])).unwrap();
    assert_eq!((changes.unregister, changes.register), (s(&["a"]), s(&["c"])));
    assert_eq!(kept.keys, s(&["b", "c"]));
    assert_eq!(init(None, vec![]).0.extensions, None);
}

#[test]
fn extensions_with_models_are_known() {
    let installed = vec![
        InstalledExtension { id: "a".to_string(), provider_count: 0 },
        InstalledExtension { id: "b".to_string(), provider_count: 2 },
    ];
    assert_eq!(llm_extension_ids(&installed), vec!["b".to_string()]);
    assert_eq!(
        on_extension_event(&ExtensionEvent::Updated { installed }),
        Some(RegistryChange::SyncExtensions(vec!["b".to_string()]))
    );
    let installed = |provider_count| ExtensionEvent::Installed {
        id: "x".to_string(),
        provider_count,
    };
    assert_eq!(
        on_extension_event(&installed(Some(1))),
        Some(RegistryChange::ExtensionInstalled("x".to_string()))
    );
    assert_eq!(on_extension_event(&installed(Some(0))), None);
    assert_eq!(on_extension_event(&installed(None)), None);
    assert_eq!(
        on_extension_event(&ExtensionEvent::Uninstalled { id: "x".to_string() }),
        Some(RegistryChange::ExtensionUninstalled("x".to_string()))
    );
    assert_eq!(on_extension_event(&ExtensionEvent::Other), None);
}

fn provider(id: &str, authenticated: bool, default_model: Option<&str>) -> ProviderState {
    ProviderState {
        id: id.to_string(),
        authenticated,
        default_model: default_model.map(|m| m.to_string()),
        recommended_models: vec![],
    }
}

#[test]
fn the_cloud_is_the_first_fallback() {
    let providers = vec![provider("a", true, Some("m")), provider("zed.dev", true, Some("c"))];
    assert_eq!(
        update_environment_fallback_model(&providers),
        Some(ConfiguredModel { provider: "zed.dev".to_string(), model: "c".to_string() })
    );
    let first = Some(ConfiguredModel { provider: "a".to_string(), model: "m".to_string() });
    let providers = vec![provider("a", true, Some("m")), provider("zed.dev", false, Some("c"))];
    assert_eq!(update_environment_fallback_model(&providers), first);
    let providers = vec![provider("a", true, Some("m")), provider("cloud", true, Some("c"))];
    assert_eq!(update_environment_fallback_model(&providers), first);
    // signed in to, but without a model yet
    let providers = vec![provider("a", true, Some("m")), provider("zed.dev", true, None)];
    assert_eq!(update_environment_fallback_model(&providers), None);
    assert_eq!(update_environment_fallback_model(&vec![provider("a", false, Some("m"))]), None);
}

#[test]
fn a_new_user_sees_what_is_set_up() {
    let p = |id: &str, authenticated| VisibleProvider { id: id.to_string(), authenticated };
    let mut view = AgentPanelOnboarding::new(&vec![p("zed.dev", true), p("openai", false)]);
    assert!(!view.has_configured_providers);
    view.on_registry_event(RegistryEvent::Other, &vec![p("openai", true)]);
    assert!(!view.has_configured_providers);
    view.on_registry_event(RegistryEvent::AddedProvider, &vec![p("openai", true)]);
    assert!(view.has_configured_providers);
}

#[test]
fn plans_are_listed_point_by_point() {
    let plans = PlanDefinitions;
    assert_eq!(plans.free_plan().len(), 3);
    assert_eq!(plans.sign_in_upsell()[2], "无需信用卡");
    assert_eq!(plans.pro_trial(false).len(), 2);
    assert_eq!(plans.pro_trial(true)[2], "试用 14 天,无需信用卡");
    assert_eq!(plans.pro_plan()[1], "超过 $5 后按用量计费");
    assert_eq!(plans.business_plan(), vec!["无限制编辑预测", "基于用量的计费"]);
    assert_eq!(plans.student_plan()[1], "VibeDev Agent 中价值 $10 的 Token");
}

#[test]
fn skills_that_can_be_read_are_listed() {
    let results: Vec<Result<&str, ()>> = vec![Ok("a"), Err(()), Ok("b")];
    let index = refresh_global_skill_index(
        results,
        Some(SkillIndex { global_skills: vec!["old"], project_skills: vec!["p"] }),
    );
    assert_eq!(index.global_skills, vec!["a", "b"]);
    assert_eq!(index.project_skills, vec!["p"]);
    let none: Vec<Result<&str, ()>> = vec![];
    let index = refresh_global_skill_index(none, None);
    assert!(index.global_skills.is_empty() && index.project_skills.is_empty());
}
