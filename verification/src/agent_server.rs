//! Agent servers: their settings, and the command and environment that they are
//! launched with.

use vstd::prelude::*;
use vstd::string::*;

use crate::account;
use crate::lists;
use crate::remote_agent;
use crate::table;
use crate::table::Table;
use crate::text;

verus! {

pub const GEMINI_ID: &'static str = "gemini";

pub const CODEX_ID: &'static str = "codex-acp";

/// The bundled agent.
pub const VIBEDEV_AGENT_ID: &'static str = "VibeDev";

/// An agent that is run as a server, by its id.
#[derive(Debug, PartialEq, Eq)]
pub struct CustomAgentServer {
    pub agent_id: String,
}

// ---------------------------------------------------------------------------
// Settings
// ---------------------------------------------------------------------------

/// What the user prefers of an agent.
#[derive(Debug, PartialEq, Eq)]
pub struct AgentPreferences {
    pub default_mode: Option<String>,
    pub default_model: Option<String>,
    pub favorite_models: Vec<String>,
    pub default_config_options: Table<String>,
    pub favorite_config_option_values: Table<Vec<String>>,
}

/// The settings of an agent: one with a command of its own, or one of the
/// registry.
#[derive(Debug, PartialEq, Eq)]
pub enum CustomAgentServerSettings {
    Custom { path: String, args: Vec<String>, env: Table<String>, preferences: AgentPreferences },
    Registry { env: Table<String>, preferences: AgentPreferences },
}

/// The preferences, mathematically.
pub ghost struct PreferencesModel {
    pub default_mode: Option<Seq<char>>,
    pub default_model: Option<Seq<char>>,
    pub favorite_models: Seq<Seq<char>>,
    pub default_config_options: Map<Seq<char>, Seq<char>>,
    pub favorite_config_option_values: Map<Seq<char>, Seq<Seq<char>>>,
}

/// A command of an agent, mathematically.
pub ghost struct CommandModel {
    pub path: Seq<char>,
    pub args: Seq<Seq<char>>,
}

/// The settings of an agent, mathematically: the command is there for one that
/// has its own.
pub ghost struct SettingsModel {
    pub command: Option<CommandModel>,
    pub env: Map<Seq<char>, Seq<char>>,
    pub preferences: PreferencesModel,
}

/// The lists of a table of lists.
pub open spec fn text_lists(t: Map<Seq<char>, Vec<String>>) -> Map<Seq<char>, Seq<Seq<char>>> {
    t.map_values(|v: Vec<String>| lists::texts(v@))
}

impl View for AgentPreferences {
    type V = PreferencesModel;

    open spec fn view(&self) -> PreferencesModel {
        PreferencesModel {
            default_mode: lists::text_of(self.default_mode),
            default_model: lists::text_of(self.default_model),
            favorite_models: lists::texts(self.favorite_models@),
            default_config_options: table::texts_of(self.default_config_options),
            favorite_config_option_values: text_lists(self.favorite_config_option_values@),
        }
    }
}

impl View for CustomAgentServerSettings {
    type V = SettingsModel;

    open spec fn view(&self) -> SettingsModel {
        match *self {
            CustomAgentServerSettings::Custom { path, args, env, preferences } => SettingsModel {
                command: Some(CommandModel { path: path@, args: lists::texts(args@) }),
                env: table::texts_of(env),
                preferences: preferences@,
            },
            CustomAgentServerSettings::Registry { env, preferences } => SettingsModel {
                command: None,
                env: table::texts_of(env),
                preferences: preferences@,
            },
        }
    }
}

/// No preferences.
pub open spec fn no_preferences() -> PreferencesModel {
    PreferencesModel {
        default_mode: None,
        default_model: None,
        favorite_models: Seq::empty(),
        default_config_options: Map::empty(),
        favorite_config_option_values: Map::empty(),
    }
}

/// The settings that a first preference is written into: those of an agent with a
/// command keep it, as a written entry replaces the one that is in effect.
pub open spec fn default_settings(resolved: Option<SettingsModel>) -> SettingsModel {
    match resolved {
        Some(s) => if s.command is Some {
            SettingsModel { preferences: no_preferences(), ..s }
        } else {
            SettingsModel { command: None, env: Map::empty(), preferences: no_preferences() }
        },
        None => SettingsModel { command: None, env: Map::empty(), preferences: no_preferences() },
    }
}

pub open spec fn model_of(s: Option<&CustomAgentServerSettings>) -> Option<SettingsModel> {
    match s {
        Some(s) => Some(s@),
        None => None,
    }
}

fn empty_preferences() -> (r: AgentPreferences)
    ensures
        r@ == no_preferences(),
{
    let r = AgentPreferences {
        default_mode: None,
        default_model: None,
        favorite_models: Vec::new(),
        default_config_options: Table::new(),
        favorite_config_option_values: Table::new(),
    };
    assert(r@.favorite_models =~= Seq::empty());
    assert(r@.default_config_options =~= Map::empty());
    assert(r@.favorite_config_option_values =~= Map::empty());
    r
}

/// The settings that a first preference of an agent is written into.
pub fn default_settings_for_agent(resolved: Option<&CustomAgentServerSettings>) -> (r:
    CustomAgentServerSettings)
    ensures
        r@ == default_settings(model_of(resolved)),
{
    if let Some(CustomAgentServerSettings::Custom { path, args, env, preferences: _ }) = resolved {
        return CustomAgentServerSettings::Custom {
            path: path.clone(),
            args: lists::copy(args),
            env: env.copy_texts(),
            preferences: empty_preferences(),
        };
    }
    let env: Table<String> = Table::new();
    assert(table::texts_of(env) =~= Map::empty());
    CustomAgentServerSettings::Registry { env, preferences: empty_preferences() }
}

/// The settings of all agents, mathematically.
pub open spec fn servers_model(t: Table<CustomAgentServerSettings>) -> Map<
    Seq<char>,
    SettingsModel,
> {
    t@.map_values(|s: CustomAgentServerSettings| s@)
}

/// The settings of an agent before a change: what is written, else the default.
pub open spec fn entry(
    servers: Map<Seq<char>, SettingsModel>,
    id: Seq<char>,
    resolved: Option<SettingsModel>,
) -> SettingsModel {
    if servers.contains_key(id) {
        servers[id]
    } else {
        default_settings(resolved)
    }
}

fn take_entry(
    servers: &mut Table<CustomAgentServerSettings>,
    id: &str,
    resolved: Option<&CustomAgentServerSettings>,
) -> (r: CustomAgentServerSettings)
    ensures
        r@ == entry(servers_model(*old(servers)), id@, model_of(resolved)),
        servers_model(*final(servers)) == servers_model(*old(servers)).remove(id@),
{
    proof {
        table::lemma_mapped_remove(servers@, |s: CustomAgentServerSettings| s@, id@);
    }
    match servers.take(id) {
        Some(s) => s,
        None => default_settings_for_agent(resolved),
    }
}

fn put_entry(
    servers: &mut Table<CustomAgentServerSettings>,
    id: &str,
    settings: CustomAgentServerSettings,
)
    ensures
        servers_model(*final(servers)) == servers_model(*old(servers)).insert(id@, settings@),
{
    proof {
        table::lemma_mapped_insert(servers@, |s: CustomAgentServerSettings| s@, id@, settings);
    }
    servers.insert(id, settings);
}

impl CustomAgentServerSettings {
    /// The preferences.
    pub fn preferences(&self) -> (r: &AgentPreferences)
        ensures
            r@ == self@.preferences,
    {
        match self {
            CustomAgentServerSettings::Custom { preferences, .. } => preferences,
            CustomAgentServerSettings::Registry { preferences, .. } => preferences,
        }
    }

    fn with_preferences(self, p: AgentPreferences) -> (r: CustomAgentServerSettings)
        ensures
            r@ == (SettingsModel { preferences: p@, ..self@ }),
    {
        match self {
            CustomAgentServerSettings::Custom { path, args, env, preferences: _ } =>
                CustomAgentServerSettings::Custom { path, args, env, preferences: p },
            CustomAgentServerSettings::Registry { env, preferences: _ } =>
                CustomAgentServerSettings::Registry { env, preferences: p },
        }
    }

    fn into_preferences(self) -> (r: (CustomAgentServerSettings, AgentPreferences))
        ensures
            r.1@ == self@.preferences,
            r.0@ == (SettingsModel { preferences: no_preferences(), ..self@ }),
    {
        match self {
            CustomAgentServerSettings::Custom { path, args, env, preferences } => (
                CustomAgentServerSettings::Custom {
                    path,
                    args,
                    env,
                    preferences: empty_preferences(),
                },
                preferences,
            ),
            CustomAgentServerSettings::Registry { env, preferences } => (
                CustomAgentServerSettings::Registry { env, preferences: empty_preferences() },
                preferences,
            ),
        }
    }
}

/// The settings of all agents after one preference of an agent has changed.
pub open spec fn changed(
    servers: Map<Seq<char>, SettingsModel>,
    id: Seq<char>,
    resolved: Option<SettingsModel>,
    preferences: PreferencesModel,
) -> Map<Seq<char>, SettingsModel> {
    servers.insert(id, SettingsModel { preferences, ..entry(servers, id, resolved) })
}

proof fn lemma_put_back(
    servers: Map<Seq<char>, SettingsModel>,
    id: Seq<char>,
    settings: SettingsModel,
)
    ensures
        servers.remove(id).insert(id, settings) == servers.insert(id, settings),
{
    assert(servers.remove(id).insert(id, settings) =~= servers.insert(id, settings));
}

// ---------------------------------------------------------------------------
// Preferences
// ---------------------------------------------------------------------------

/// A list of favorites with `value` in it: at the end where it was not there.
pub open spec fn with_favorite(list: Seq<Seq<char>>, value: Seq<char>) -> Seq<Seq<char>> {
    if list.contains(value) {
        list
    } else {
        list.push(value)
    }
}

/// A list of favorites after `value` was made one or is none any more.
pub open spec fn toggled(list: Seq<Seq<char>>, value: Seq<char>, favorite: bool) -> Seq<Seq<char>> {
    if favorite {
        with_favorite(list, value)
    } else {
        lists::texts_without(list, value)
    }
}

fn toggle(list: Vec<String>, value: &str, favorite: bool) -> (r: Vec<String>)
    ensures
        lists::texts(r@) == toggled(lists::texts(list@), value@, favorite),
{
    if favorite {
        let mut list = list;
        if !lists::lists_text(&list, value) {
            let ghost before = list@;
            list.push(value.to_owned());
            assert(lists::texts(list@) =~= lists::texts(before).push(value@));
        }
        list
    } else {
        lists::without(&list, value)
    }
}

/// The favorite values of all options after one value of an option was made a
/// favorite or is none any more. An option without favorites is not kept.
pub open spec fn values_toggled(
    m: Map<Seq<char>, Seq<Seq<char>>>,
    config_id: Seq<char>,
    value: Seq<char>,
    favorite: bool,
) -> Map<Seq<char>, Seq<Seq<char>>> {
    let list = if m.contains_key(config_id) {
        m[config_id]
    } else {
        Seq::empty()
    };
    let after = toggled(list, value, favorite);
    if !favorite && after.len() == 0 {
        m.remove(config_id)
    } else {
        m.insert(config_id, after)
    }
}

fn toggle_value(values: &mut Table<Vec<String>>, config_id: &str, value: &str, favorite: bool)
    ensures
        text_lists(final(values)@) == values_toggled(
            text_lists(old(values)@),
            config_id@,
            value@,
            favorite,
        ),
{
    let ghost f = |v: Vec<String>| lists::texts(v@);
    proof {
        table::lemma_mapped_remove(values@, f, config_id@);
    }
    let list = match values.take(config_id) {
        Some(list) => list,
        None => {
            let none: Vec<String> = Vec::new();
            assert(lists::texts(none@) =~= Seq::empty());
            none
        },
    };
    let ghost m = text_lists(old(values)@);
    let after = toggle(list, value, favorite);
    if favorite || after.len() > 0 {
        let ghost t = lists::texts(after@);
        proof {
            table::lemma_mapped_insert(values@, f, config_id@, after);
            assert(m.remove(config_id@).insert(config_id@, t) =~= m.insert(config_id@, t));
        }
        values.insert(config_id, after);
    }
}

impl CustomAgentServer {
    pub fn new(agent_id: String) -> (r: CustomAgentServer)
        ensures
            r.agent_id == agent_id,
    {
        CustomAgentServer { agent_id }
    }

    pub fn agent_id(&self) -> (r: String)
        ensures
            r@ == self.agent_id@,
    {
        self.agent_id.clone()
    }

    /// The mode that an agent's sessions begin with.
    pub fn default_mode(&self, servers: &Table<CustomAgentServerSettings>) -> (r: Option<String>)
        ensures
            lists::text_of(r) == (if servers_model(*servers).contains_key(self.agent_id@) {
                servers_model(*servers)[self.agent_id@].preferences.default_mode
            } else {
                None
            }),
    {
        match servers.get(self.agent_id.as_str()) {
            Some(s) => lists::copy_text(&s.preferences().default_mode),
            None => None,
        }
    }

    /// The model that an agent's sessions begin with.
    pub fn default_model(&self, servers: &Table<CustomAgentServerSettings>) -> (r: Option<String>)
        ensures
            lists::text_of(r) == (if servers_model(*servers).contains_key(self.agent_id@) {
                servers_model(*servers)[self.agent_id@].preferences.default_model
            } else {
                None
            }),
    {
        match servers.get(self.agent_id.as_str()) {
            Some(s) => lists::copy_text(&s.preferences().default_model),
            None => None,
        }
    }

    /// The favorite models of an agent.
    pub fn favorite_model_ids(&self, servers: &Table<CustomAgentServerSettings>) -> (r: Vec<String>)
        ensures
            lists::texts(r@) == (if servers_model(*servers).contains_key(self.agent_id@) {
                servers_model(*servers)[self.agent_id@].preferences.favorite_models
            } else {
                Seq::empty()
            }),
    {
        match servers.get(self.agent_id.as_str()) {
            Some(s) => lists::copy(&s.preferences().favorite_models),
            None => {
                let r: Vec<String> = Vec::new();
                assert(lists::texts(r@) =~= Seq::empty());
                r
            },
        }
    }

    /// The value that a configuration option of an agent begins with.
    pub fn default_config_option(
        &self,
        servers: &Table<CustomAgentServerSettings>,
        config_id: &str,
    ) -> (r: Option<String>)
        ensures
            lists::text_of(r) == (if servers_model(*servers).contains_key(self.agent_id@)
                && servers_model(*servers)[self.agent_id@].preferences.default_config_options.contains_key(
                config_id@,
            ) {
                Some(servers_model(*servers)[self.agent_id@].preferences.default_config_options[config_id@])
            } else {
                None
            }),
    {
        match servers.get(self.agent_id.as_str()) {
            Some(s) => match s.preferences().default_config_options.get(config_id) {
                Some(v) => Some(v.clone()),
                None => None,
            },
            None => None,
        }
    }

    /// The favorite values of a configuration option of an agent.
    pub fn favorite_config_option_value_ids(
        &self,
        servers: &Table<CustomAgentServerSettings>,
        config_id: &str,
    ) -> (r: Vec<String>)
        ensures
            lists::texts(r@) == (if servers_model(*servers).contains_key(self.agent_id@)
                && servers_model(*servers)[self.agent_id@].preferences.favorite_config_option_values.contains_key(
                config_id@,
            ) {
                servers_model(*servers)[self.agent_id@].preferences.favorite_config_option_values[config_id@]
            } else {
                Seq::empty()
            }),
    {
        let none: Vec<String> = Vec::new();
        assert(lists::texts(none@) =~= Seq::empty());
        match servers.get(self.agent_id.as_str()) {
            Some(s) => match s.preferences().favorite_config_option_values.get(config_id) {
                Some(v) => lists::copy(v),
                None => none,
            },
            None => none,
        }
    }

    /// Sets or clears the mode that an agent's sessions begin with.
    pub fn set_default_mode(
        &self,
        servers: &mut Table<CustomAgentServerSettings>,
        resolved: Option<&CustomAgentServerSettings>,
        mode: Option<String>,
    )
        ensures
            servers_model(*final(servers)) == changed(
                servers_model(*old(servers)),
                self.agent_id@,
                model_of(resolved),
                PreferencesModel {
                    default_mode: lists::text_of(mode),
                    ..entry(servers_model(*old(servers)), self.agent_id@, model_of(resolved)).preferences
                },
            ),
    {
        let (settings, mut p) = take_entry(servers, self.agent_id.as_str(), resolved).into_preferences();
        p.default_mode = mode;
        let settings = settings.with_preferences(p);
        put_entry(servers, self.agent_id.as_str(), settings);
        proof {
            lemma_put_back(servers_model(*old(servers)), self.agent_id@, settings@);
        }
    }

    /// Sets or clears the model that an agent's sessions begin with.
    pub fn set_default_model(
        &self,
        servers: &mut Table<CustomAgentServerSettings>,
        resolved: Option<&CustomAgentServerSettings>,
        model: Option<String>,
    )
        ensures
            servers_model(*final(servers)) == changed(
                servers_model(*old(servers)),
                self.agent_id@,
                model_of(resolved),
                PreferencesModel {
                    default_model: lists::text_of(model),
                    ..entry(servers_model(*old(servers)), self.agent_id@, model_of(resolved)).preferences
                },
            ),
    {
        let (settings, mut p) = take_entry(servers, self.agent_id.as_str(), resolved).into_preferences();
        p.default_model = model;
        let settings = settings.with_preferences(p);
        put_entry(servers, self.agent_id.as_str(), settings);
        proof {
            lemma_put_back(servers_model(*old(servers)), self.agent_id@, settings@);
        }
    }

    /// Makes a model a favorite of an agent, or none any more.
    pub fn toggle_favorite_model(
        &self,
        servers: &mut Table<CustomAgentServerSettings>,
        resolved: Option<&CustomAgentServerSettings>,
        model: &str,
        should_be_favorite: bool,
    )
        ensures
            ({
                let p = entry(servers_model(*old(servers)), self.agent_id@, model_of(resolved)).preferences;
                servers_model(*final(servers)) == changed(
                    servers_model(*old(servers)),
                    self.agent_id@,
                    model_of(resolved),
                    PreferencesModel {
                        favorite_models: toggled(p.favorite_models, model@, should_be_favorite),
                        ..p
                    },
                )
            }),
    {
        let (settings, mut p) = take_entry(servers, self.agent_id.as_str(), resolved).into_preferences();
        let list = lists::copy(&p.favorite_models);
        p.favorite_models = toggle(list, model, should_be_favorite);
        let settings = settings.with_preferences(p);
        put_entry(servers, self.agent_id.as_str(), settings);
        proof {
            lemma_put_back(servers_model(*old(servers)), self.agent_id@, settings@);
        }
    }

    /// Sets the value that a configuration option of an agent begins with, or clears
    /// it.
    pub fn set_default_config_option(
        &self,
        servers: &mut Table<CustomAgentServerSettings>,
        resolved: Option<&CustomAgentServerSettings>,
        config_id: &str,
        value: Option<&str>,
    )
        ensures
            ({
                let p = entry(servers_model(*old(servers)), self.agent_id@, model_of(resolved)).preferences;
                servers_model(*final(servers)) == changed(
                    servers_model(*old(servers)),
                    self.agent_id@,
                    model_of(resolved),
                    PreferencesModel {
                        default_config_options: match value {
                            Some(v) => p.default_config_options.insert(config_id@, v@),
                            None => p.default_config_options.remove(config_id@),
                        },
                        ..p
                    },
                )
            }),
    {
        let (settings, p) = take_entry(servers, self.agent_id.as_str(), resolved).into_preferences();
        let AgentPreferences {
            default_mode,
            default_model,
            favorite_models,
            mut default_config_options,
            favorite_config_option_values,
        } = p;
        match value {
            Some(v) => {
                default_config_options.put(config_id, v);
            },
            None => {
                proof {
                    table::lemma_mapped_remove(
                        default_config_options@,
                        |s: String| s@,
                        config_id@,
                    );
                }
                default_config_options.remove(config_id);
            },
        }
        let p = AgentPreferences {
            default_mode,
            default_model,
            favorite_models,
            default_config_options,
            favorite_config_option_values,
        };
        let settings = settings.with_preferences(p);
        put_entry(servers, self.agent_id.as_str(), settings);
        proof {
            lemma_put_back(servers_model(*old(servers)), self.agent_id@, settings@);
        }
    }

    /// Makes a value of a configuration option a favorite of an agent, or none any
    /// more.
    pub fn toggle_favorite_config_option_value(
        &self,
        servers: &mut Table<CustomAgentServerSettings>,
        resolved: Option<&CustomAgentServerSettings>,
        config_id: &str,
        value_id: &str,
        should_be_favorite: bool,
    )
        ensures
            ({
                let p = entry(servers_model(*old(servers)), self.agent_id@, model_of(resolved)).preferences;
                servers_model(*final(servers)) == changed(
                    servers_model(*old(servers)),
                    self.agent_id@,
                    model_of(resolved),
                    PreferencesModel {
                        favorite_config_option_values: values_toggled(
                            p.favorite_config_option_values,
                            config_id@,
                            value_id@,
                            should_be_favorite,
                        ),
                        ..p
                    },
                )
            }),
    {
        let (settings, p) = take_entry(servers, self.agent_id.as_str(), resolved).into_preferences();
        let AgentPreferences {
            default_mode,
            default_model,
            favorite_models,
            default_config_options,
            mut favorite_config_option_values,
        } = p;
        toggle_value(&mut favorite_config_option_values, config_id, value_id, should_be_favorite);
        let p = AgentPreferences {
            default_mode,
            default_model,
            favorite_models,
            default_config_options,
            favorite_config_option_values,
        };
        let settings = settings.with_preferences(p);
        put_entry(servers, self.agent_id.as_str(), settings);
        proof {
            lemma_put_back(servers_model(*old(servers)), self.agent_id@, settings@);
        }
    }
}

// ---------------------------------------------------------------------------
// Launching
// ---------------------------------------------------------------------------

/// The agent comes from the registry: the registry lists it, or the settings say so.
pub open spec fn comes_from_registry(
    id: Seq<char>,
    registry_ids: Seq<Seq<char>>,
    servers: Map<Seq<char>, SettingsModel>,
) -> bool {
    registry_ids.contains(id) || (servers.contains_key(id) && servers[id].command is None)
}

/// Whether an agent comes from the registry.
pub fn is_registry_agent(
    id: &str,
    registry_ids: &Vec<String>,
    servers: &Table<CustomAgentServerSettings>,
) -> (r: bool)
    ensures
        r == comes_from_registry(id@, lists::texts(registry_ids@), servers_model(*servers)),
{
    if lists::lists_text(registry_ids, id) {
        return true;
    }
    match servers.get(id) {
        Some(s) => matches!(s, CustomAgentServerSettings::Registry { .. }),
        None => false,
    }
}

/// The key that the Gemini agent is given: the first that is there, of the two
/// environment variables and the keychain.
pub fn api_key_for_gemini_cli(
    gemini: Option<String>,
    google: Option<String>,
    keychain: Option<String>,
) -> (r: Option<String>)
    ensures
        r == (if gemini is Some {
            gemini
        } else if google is Some {
            google
        } else {
            keychain
        }),
{
    if gemini.is_some() {
        gemini
    } else if google.is_some() {
        google
    } else {
        keychain
    }
}

/// The map with a text under the key, where there is one to put.
pub open spec fn with_optional(
    m: Map<Seq<char>, Seq<char>>,
    key: Seq<char>,
    value: Option<Seq<char>>,
) -> Map<Seq<char>, Seq<char>> {
    match value {
        Some(v) => m.insert(key, v),
        None => m,
    }
}

/// The map with a text under the key, where nothing is there yet.
pub open spec fn with_default(
    m: Map<Seq<char>, Seq<char>>,
    key: Seq<char>,
    value: Seq<char>,
) -> Map<Seq<char>, Seq<char>> {
    if m.contains_key(key) {
        m
    } else {
        m.insert(key, value)
    }
}

/// What an agent's environment is made of, besides the proxy settings.
#[derive(Debug, PartialEq, Eq)]
pub struct LaunchContext {
    /// No browser can be opened.
    pub no_browser: bool,
    /// The agent comes from the registry.
    pub from_registry: bool,
    /// The id under which the registry lists the agent whose key for Anthropic is emptied.
    pub claude_agent_id: String,
    /// The keys that the local environment holds for Codex.
    pub codex_api_key: Option<String>,
    pub open_ai_api_key: Option<String>,
    /// The key for Gemini.
    pub gemini_api_key: Option<String>,
    /// The user's own keys, as JSON.
    pub byok: Option<String>,
}

/// What an agent of the registry is told besides: each of three agents has
/// variables of its own.
pub open spec fn registry_env(
    m: Map<Seq<char>, Seq<char>>,
    id: Seq<char>,
    c: LaunchContext,
) -> Map<Seq<char>, Seq<char>> {
    if !c.from_registry {
        m
    } else if id == c.claude_agent_id@ {
        m.insert("ANTHROPIC_API_KEY"@, Seq::empty())
    } else if id == CODEX_ID@ {
        with_optional(
            with_optional(m, "CODEX_API_KEY"@, lists::text_of(c.codex_api_key)),
            "OPEN_AI_API_KEY"@,
            lists::text_of(c.open_ai_api_key),
        )
    } else if id == GEMINI_ID@ {
        with_optional(
            m.insert("SURFACE"@, "zed"@),
            "GEMINI_API_KEY"@,
            lists::text_of(c.gemini_api_key),
        )
    } else {
        m
    }
}

/// The environment that an agent is launched with: the proxy settings, and on top
/// of them the rest.
pub open spec fn launch_env(
    proxy: Map<Seq<char>, Seq<char>>,
    id: Seq<char>,
    c: LaunchContext,
) -> Map<Seq<char>, Seq<char>> {
    let m = if c.no_browser {
        proxy.insert("NO_BROWSER"@, "1"@)
    } else {
        proxy
    };
    with_optional(registry_env(m, id, c), "VIBEDEV_BYOK"@, lists::text_of(c.byok))
}

fn put_optional(env: &mut Table<String>, key: &str, value: &Option<String>)
    ensures
        table::texts_of(*final(env)) == with_optional(
            table::texts_of(*old(env)),
            key@,
            lists::text_of(*value),
        ),
{
    if let Some(v) = value {
        env.put(key, v.as_str());
    }
}

/// The environment that an agent is launched with.
pub fn extra_env(proxy: Table<String>, id: &str, context: &LaunchContext) -> (r: Table<String>)
    ensures
        table::texts_of(r) == launch_env(table::texts_of(proxy), id@, *context),
{
    let mut env = proxy;
    if context.no_browser {
        env.put("NO_BROWSER", "1");
    }
    if context.from_registry {
        if text::same(id, context.claude_agent_id.as_str()) {
            proof {
                reveal_strlit("");
                assert(""@ =~= Seq::empty());
            }
            env.put("ANTHROPIC_API_KEY", "");
        } else if text::same(id, CODEX_ID) {
            put_optional(&mut env, "CODEX_API_KEY", &context.codex_api_key);
            put_optional(&mut env, "OPEN_AI_API_KEY", &context.open_ai_api_key);
        } else if text::same(id, GEMINI_ID) {
            env.put("SURFACE", "zed");
            put_optional(&mut env, "GEMINI_API_KEY", &context.gemini_api_key);
        }
    }
    put_optional(&mut env, "VIBEDEV_BYOK", &context.byok);
    env
}

/// The command that an agent is launched with.
#[derive(Debug, PartialEq, Eq)]
pub struct AgentServerCommand {
    pub path: String,
    pub args: Vec<String>,
    pub env: Option<Table<String>>,
}

/// The environment of a command; an empty one where it gives none.
pub open spec fn env_of(env: Option<Table<String>>) -> Map<Seq<char>, Seq<char>> {
    match env {
        Some(t) => table::texts_of(t),
        None => Map::empty(),
    }
}

/// What a remote launch draws on.
#[derive(Debug, PartialEq, Eq)]
pub struct RemoteContext {
    /// The version that the remote host is held to.
    pub expected_version: Option<String>,
    /// The gateway's key and address.
    pub credentials: Option<(String, String)>,
    /// The signed-in state, as it stands on disk.
    pub auth_json: Option<String>,
    /// The remote port of the reverse tunnel, where one is up.
    pub tunnel_port: Option<u16>,
}

/// The environment with the gateway's key and address, where it has none.
pub open spec fn signed_in(
    m: Map<Seq<char>, Seq<char>>,
    credentials: Option<(String, String)>,
) -> Map<Seq<char>, Seq<char>> {
    match credentials {
        Some((key, url)) => with_default(
            with_default(m, "OPENAI_API_KEY"@, key@),
            "OPENAI_BASE_URL"@,
            url@,
        ),
        None => m,
    }
}

/// The environment with every proxy variable pointing at the tunnel.
pub open spec fn tunnelled(m: Map<Seq<char>, Seq<char>>, port: Option<u16>) -> Map<
    Seq<char>,
    Seq<char>,
> {
    match port {
        Some(p) => {
            let proxy = account::loopback(p, Seq::empty());
            m.insert("HTTPS_PROXY"@, proxy).insert("https_proxy"@, proxy).insert(
                "HTTP_PROXY"@,
                proxy,
            ).insert("http_proxy"@, proxy)
        },
        None => m,
    }
}

/// The environment of an agent on a remote host.
pub open spec fn remote_env(m: Map<Seq<char>, Seq<char>>, c: RemoteContext) -> Map<
    Seq<char>,
    Seq<char>,
> {
    tunnelled(
        with_optional(
            signed_in(with_default(m, "IS_SANDBOX"@, "1"@), c.credentials),
            "VIBEDEV_AUTH_JSON"@,
            lists::text_of(c.auth_json),
        ),
        c.tunnel_port,
    )
}

/// The command for a remote host in the place of a local one.
pub open spec fn is_remote_command(
    r: AgentServerCommand,
    local: AgentServerCommand,
    c: RemoteContext,
) -> bool {
    &&& r.path@ == "sh"@
    &&& lists::texts(r.args@) == seq![
        "-c"@,
        remote_agent::launch_script(
            lists::texts(local.args@),
            lists::text_of(c.expected_version),
        ),
    ]
    &&& r.env is Some
    &&& env_of(r.env) == remote_env(env_of(local.env), c)
}

/// The command for a remote host in the place of a local one: the shell program
/// that provides and runs the agent, signed in, and with its traffic led through
/// the tunnel.
pub fn remote_command(local: AgentServerCommand, context: &RemoteContext) -> (r: AgentServerCommand)
    ensures
        is_remote_command(r, local, *context),
{
    let expected = match &context.expected_version {
        Some(v) => Some(v.as_str()),
        None => None,
    };
    let (program, args) = remote_agent::remote_launch_command(&local.args, expected);
    let mut env = match local.env {
        Some(env) => env,
        None => {
            let empty: Table<String> = Table::new();
            assert(table::texts_of(empty) =~= Map::empty());
            empty
        },
    };
    env.put_if_absent("IS_SANDBOX", "1");
    if let Some((key, url)) = &context.credentials {
        env.put_if_absent("OPENAI_API_KEY", key.as_str());
        env.put_if_absent("OPENAI_BASE_URL", url.as_str());
    }
    put_optional(&mut env, "VIBEDEV_AUTH_JSON", &context.auth_json);
    if let Some(port) = context.tunnel_port {
        proof {
            reveal_strlit("");
            assert(""@ =~= Seq::empty());
        }
        let proxy = account::loopback_url(port, "");
        env.put("HTTPS_PROXY", proxy.as_str());
        env.put("https_proxy", proxy.as_str());
        env.put("HTTP_PROXY", proxy.as_str());
        env.put("http_proxy", proxy.as_str());
    }
    AgentServerCommand { path: program, args, env: Some(env) }
}

/// The command is the one that an agent is connected with: the bundled agent gets
/// another one on a remote host; every other agent keeps its own.
pub open spec fn is_connect_command(
    r: AgentServerCommand,
    id: Seq<char>,
    over_ssh: bool,
    command: AgentServerCommand,
    c: RemoteContext,
) -> bool {
    if over_ssh && id == VIBEDEV_AGENT_ID@ {
        is_remote_command(r, command, c)
    } else {
        r == command
    }
}

/// What has to be done before an agent's command is asked for.
#[derive(Clone, Copy, Debug, PartialEq, Eq, Structural)]
pub struct Preparation {
    /// The agent comes from the registry, which is refreshed where it is stale.
    pub from_registry: bool,
    /// The key for Gemini is looked for.
    pub wants_gemini_key: bool,
}

/// What an agent is connected with.
#[derive(Debug, PartialEq, Eq)]
pub struct Connection {
    pub agent_id: String,
    pub command: AgentServerCommand,
    pub default_mode: Option<String>,
    pub default_model: Option<String>,
    pub default_config_options: Table<String>,
}

/// The configuration options that an agent's sessions begin with.
pub open spec fn options_of(
    servers: Map<Seq<char>, SettingsModel>,
    id: Seq<char>,
) -> Map<Seq<char>, Seq<char>> {
    if servers.contains_key(id) {
        servers[id].preferences.default_config_options
    } else {
        Map::empty()
    }
}

impl CustomAgentServer {
    /// What has to be done before the agent's command is asked for.
    pub fn prepare(
        &self,
        registry_ids: &Vec<String>,
        servers: &Table<CustomAgentServerSettings>,
    ) -> (r: Preparation)
        ensures
            r.from_registry == comes_from_registry(
                self.agent_id@,
                lists::texts(registry_ids@),
                servers_model(*servers),
            ),
            r.wants_gemini_key == (r.from_registry && self.agent_id@ == GEMINI_ID@),
    {
        let from_registry = is_registry_agent(self.agent_id.as_str(), registry_ids, servers);
        Preparation {
            from_registry,
            wants_gemini_key: from_registry && text::same(self.agent_id.as_str(), GEMINI_ID),
        }
    }

    /// Whether a tunnel is to be set up for the agent.
    pub fn wants_tunnel(&self, over_ssh: bool) -> (r: bool)
        ensures
            r == (over_ssh && self.agent_id@ == VIBEDEV_AGENT_ID@),
    {
        over_ssh && text::same(self.agent_id.as_str(), VIBEDEV_AGENT_ID)
    }

    /// What the agent is connected with, once it is known whether it is registered, and
    /// with which command. The error says that it is not.
    pub fn connect(
        &self,
        servers: &Table<CustomAgentServerSettings>,
        command: Option<AgentServerCommand>,
        over_ssh: bool,
        context: &RemoteContext,
    ) -> (r: Result<Connection, String>)
        ensures
            match command {
                None => r matches Err(m) && m@ == "Custom agent server `"@ + self.agent_id@
                    + "` is not registered"@,
                Some(command) => {
                    &&& r matches Ok(c)
                    &&& c.agent_id@ == self.agent_id@
                    &&& is_connect_command(
                        c.command,
                        self.agent_id@,
                        over_ssh,
                        command,
                        *context,
                    )
                    &&& lists::text_of(c.default_mode) == (if servers_model(*servers).contains_key(
                        self.agent_id@,
                    ) {
                        servers_model(*servers)[self.agent_id@].preferences.default_mode
                    } else {
                        None
                    })
                    &&& lists::text_of(c.default_model) == (if servers_model(*servers).contains_key(
                        self.agent_id@,
                    ) {
                        servers_model(*servers)[self.agent_id@].preferences.default_model
                    } else {
                        None
                    })
                    &&& table::texts_of(c.default_config_options) == options_of(
                        servers_model(*servers),
                        self.agent_id@,
                    )
                },
            },
    {
        let command = match command {
            Some(c) => c,
            None => {
                let mut s = text::join("Custom agent server `", self.agent_id.as_str());
                s.append("` is not registered");
                return Err(s);
            },
        };
        let command = if self.wants_tunnel(over_ssh) {
            remote_command(command, context)
        } else {
            command
        };
        let options = match servers.get(self.agent_id.as_str()) {
            Some(s) => s.preferences().default_config_options.copy_texts(),
            None => {
                let none: Table<String> = Table::new();
                assert(table::texts_of(none) =~= Map::empty());
                none
            },
        };
        Ok(
            Connection {
                agent_id: self.agent_id(),
                command,
                default_mode: self.default_mode(servers),
                default_model: self.default_model(servers),
                default_config_options: options,
            },
        )
    }
}

// ---------------------------------------------------------------------------
// Laws
// ---------------------------------------------------------------------------

proof fn lemma_filter_without(list: Seq<Seq<char>>, value: Seq<char>)
    ensures
        !lists::texts_without(list, value).contains(value),
        !list.contains(value) ==> lists::texts_without(list, value) == list,
    decreases list.len(),
{
    reveal(Seq::filter);
    if list.len() > 0 {
        let front = list.drop_last();
        lemma_filter_without(front, value);
        assert(front.push(list.last()) =~= list);
        let f = lists::texts_without(front, value);
        if lists::texts_without(list, value).contains(value) {
            let g = lists::texts_without(list, value);
            let i = choose|i: int| 0 <= i < g.len() && g[i] == value;
            if list.last() != value {
                assert(g == f.push(list.last()));
                assert(i < f.len());
                assert(f[i] == value);
            }
            assert(false);
        }
        if !list.contains(value) {
            assert(list[list.len() - 1] == list.last());
            assert(!front.contains(value)) by {
                if front.contains(value) {
                    let i = choose|i: int| 0 <= i < front.len() && front[i] == value;
                    assert(list[i] == value);
                }
            }
        }
    } else {
        assert(lists::texts_without(list, value) =~= list);
    }
}

/// A value that is made a favorite is one, a value that is made none is none, and
/// doing either twice is doing it once; making a new favorite and taking it back
/// leaves the list as it was.
pub proof fn law_favorites(list: Seq<Seq<char>>, value: Seq<char>, favorite: bool)
    ensures
        toggled(list, value, favorite).contains(value) <==> favorite,
        toggled(toggled(list, value, favorite), value, favorite) == toggled(list, value, favorite),
        !list.contains(value) ==> toggled(toggled(list, value, true), value, false) == list,
{
    lemma_filter_without(list, value);
    if !list.contains(value) {
        assert(list.push(value)[list.len() as int] == value);
        reveal(Seq::filter);
        assert(list.push(value).drop_last() =~= list);
    }
    let off = lists::texts_without(list, value);
    lemma_filter_without(off, value);
}

/// A change of one agent's preferences leaves every other agent alone, and keeps the
/// command of the agent itself, the one that is written, else the one in effect; and
/// with a command its environment.
pub proof fn law_preferences_keep_commands(
    servers: Map<Seq<char>, SettingsModel>,
    id: Seq<char>,
    resolved: Option<SettingsModel>,
    preferences: PreferencesModel,
    other: Seq<char>,
)
    ensures
        other != id ==> (changed(servers, id, resolved, preferences).contains_key(other)
            <==> servers.contains_key(other)) && (servers.contains_key(other) ==> changed(
            servers,
            id,
            resolved,
            preferences,
        )[other] == servers[other]),
        servers.contains_key(id) ==> changed(servers, id, resolved, preferences)[id].command
            == servers[id].command && changed(servers, id, resolved, preferences)[id].env
            == servers[id].env,
        !servers.contains_key(id) && resolved is Some ==> changed(
            servers,
            id,
            resolved,
            preferences,
        )[id].command == (resolved->0).command && ((resolved->0).command is Some ==> changed(
            servers,
            id,
            resolved,
            preferences,
        )[id].env == (resolved->0).env),
{
}

/// A variable that the user has set for the remote agent is kept, but for those
/// that lead its traffic through the tunnel and the signed-in state.
pub proof fn law_remote_env_keeps_settings(
    m: Map<Seq<char>, Seq<char>>,
    c: RemoteContext,
    key: Seq<char>,
)
    requires
        m.contains_key(key),
        key != "VIBEDEV_AUTH_JSON"@ || c.auth_json is None,
        (key != "HTTPS_PROXY"@ && key != "https_proxy"@ && key != "HTTP_PROXY"@ && key
            != "http_proxy"@) || c.tunnel_port is None,
    ensures
        remote_env(m, c).contains_key(key),
        remote_env(m, c)[key] == m[key],
{
}

proof fn lemma_variables()
    ensures
        "VIBEDEV_BYOK"@.len() == 12,
        "GEMINI_API_KEY"@.len() == 14,
        "ANTHROPIC_API_KEY"@.len() == 17,
        "CODEX_API_KEY"@.len() == 13,
        "OPEN_AI_API_KEY"@.len() == 15,
        "SURFACE"@.len() == 7,
        "NO_BROWSER"@.len() == 10,
        "gemini"@ != "codex-acp"@,
{
    reveal_strlit("VIBEDEV_BYOK");
    reveal_strlit("GEMINI_API_KEY");
    reveal_strlit("ANTHROPIC_API_KEY");
    reveal_strlit("CODEX_API_KEY");
    reveal_strlit("OPEN_AI_API_KEY");
    reveal_strlit("SURFACE");
    reveal_strlit("NO_BROWSER");
    reveal_strlit("gemini");
    reveal_strlit("codex-acp");
    assert("gemini"@.len() == 6 && "codex-acp"@.len() == 9);
}

/// Each agent of the registry is given its own keys and no other agent's; an agent that is
/// not of the registry is given none. The user's own keys go to every agent.
pub proof fn law_agents_are_given_their_own_keys(
    proxy: Map<Seq<char>, Seq<char>>,
    id: Seq<char>,
    c: LaunchContext,
    key: Seq<char>,
)
    ensures
        ({
            let env = launch_env(proxy, id, c);
            &&& c.byok is Some ==> env.contains_key("VIBEDEV_BYOK"@) && env["VIBEDEV_BYOK"@]
                == (c.byok->0)@
            &&& c.no_browser ==> env.contains_key("NO_BROWSER"@) && env["NO_BROWSER"@] == "1"@
            &&& c.from_registry && id == c.claude_agent_id@ ==> env.contains_key(
                "ANTHROPIC_API_KEY"@,
            ) && env["ANTHROPIC_API_KEY"@].len() == 0
            &&& c.from_registry && id != c.claude_agent_id@ && id == "codex-acp"@
                && c.codex_api_key is Some ==> env.contains_key("CODEX_API_KEY"@)
                && env["CODEX_API_KEY"@] == (c.codex_api_key->0)@
            &&& c.from_registry && id != c.claude_agent_id@ && id == "codex-acp"@
                && c.open_ai_api_key is Some ==> env.contains_key("OPEN_AI_API_KEY"@)
                && env["OPEN_AI_API_KEY"@] == (c.open_ai_api_key->0)@
            &&& c.from_registry && id != c.claude_agent_id@ && id == "gemini"@ ==> env.contains_key(
                "SURFACE"@,
            ) && env["SURFACE"@] == "zed"@
            &&& c.from_registry && id != c.claude_agent_id@ && id == "gemini"@ && c.gemini_api_key
                is Some ==> env.contains_key("GEMINI_API_KEY"@) && env["GEMINI_API_KEY"@]
                == (c.gemini_api_key->0)@
            &&& key == "GEMINI_API_KEY"@ && (!c.from_registry || id != "gemini"@) ==> (
            env.contains_key(key) <==> proxy.contains_key(key))
            &&& (key == "CODEX_API_KEY"@ || key == "OPEN_AI_API_KEY"@) && (!c.from_registry || id
                != "codex-acp"@) ==> (env.contains_key(key) <==> proxy.contains_key(key))
            &&& key == "ANTHROPIC_API_KEY"@ && (!c.from_registry || id != c.claude_agent_id@) ==> (
            env.contains_key(key) <==> proxy.contains_key(key))
            &&& key != "VIBEDEV_BYOK"@ && key != "NO_BROWSER"@ && key != "ANTHROPIC_API_KEY"@ && key
                != "CODEX_API_KEY"@ && key != "OPEN_AI_API_KEY"@ && key != "SURFACE"@ && key
                != "GEMINI_API_KEY"@ ==> (env.contains_key(key) <==> proxy.contains_key(key)) && (
            proxy.contains_key(key) ==> env[key] == proxy[key])
            &&& c.byok is None && !c.no_browser && !c.from_registry ==> env == proxy
        }),
{
    lemma_variables();
}

proof fn lemma_remote_variables()
    ensures
        "HTTPS_PROXY"@ != "https_proxy"@,
        "HTTP_PROXY"@ != "http_proxy"@,
        "HTTPS_PROXY"@.len() == 11,
        "https_proxy"@.len() == 11,
        "HTTP_PROXY"@.len() == 10,
        "http_proxy"@.len() == 10,
        "IS_SANDBOX"@.len() == 10,
        "IS_SANDBOX"@ != "HTTP_PROXY"@,
        "IS_SANDBOX"@ != "http_proxy"@,
        "VIBEDEV_AUTH_JSON"@.len() == 17,
        "OPENAI_API_KEY"@.len() == 14,
        "OPENAI_BASE_URL"@.len() == 15,
{
    reveal_strlit("HTTPS_PROXY");
    reveal_strlit("https_proxy");
    reveal_strlit("HTTP_PROXY");
    reveal_strlit("http_proxy");
    reveal_strlit("IS_SANDBOX");
    reveal_strlit("VIBEDEV_AUTH_JSON");
    reveal_strlit("OPENAI_API_KEY");
    reveal_strlit("OPENAI_BASE_URL");
    assert("HTTPS_PROXY"@[0] == 'H' && "https_proxy"@[0] == 'h');
    assert("HTTP_PROXY"@[0] == 'H' && "http_proxy"@[0] == 'h' && "IS_SANDBOX"@[0] == 'I');
}

/// A remote agent is told where the gateway is and how to reach it: by the key and the
/// address of the account where it has none, with its traffic led to the tunnel, and with
/// the signed-in state.
pub proof fn law_remote_agent_is_signed_in_and_tunnelled(
    m: Map<Seq<char>, Seq<char>>,
    c: RemoteContext,
)
    ensures
        ({
            let env = remote_env(m, c);
            &&& c.tunnel_port is Some ==> ({
                let proxy = "http://127.0.0.1:"@ + text::decimal_of(c.tunnel_port->0 as nat);
                &&& env.contains_key("HTTPS_PROXY"@) && env["HTTPS_PROXY"@] == proxy
                &&& env.contains_key("https_proxy"@) && env["https_proxy"@] == proxy
                &&& env.contains_key("HTTP_PROXY"@) && env["HTTP_PROXY"@] == proxy
                &&& env.contains_key("http_proxy"@) && env["http_proxy"@] == proxy
            })
            &&& c.tunnel_port is None && !m.contains_key("HTTPS_PROXY"@) ==> !env.contains_key(
                "HTTPS_PROXY"@,
            )
            &&& c.auth_json is Some ==> env.contains_key("VIBEDEV_AUTH_JSON"@)
                && env["VIBEDEV_AUTH_JSON"@] == (c.auth_json->0)@
            &&& c.credentials is Some && !m.contains_key("OPENAI_API_KEY"@) ==> env.contains_key(
                "OPENAI_API_KEY"@,
            ) && env["OPENAI_API_KEY"@] == (c.credentials->0).0@
            &&& c.credentials is Some && !m.contains_key("OPENAI_BASE_URL"@) ==> env.contains_key(
                "OPENAI_BASE_URL"@,
            ) && env["OPENAI_BASE_URL"@] == (c.credentials->0).1@
            &&& !m.contains_key("IS_SANDBOX"@) ==> env.contains_key("IS_SANDBOX"@)
                && env["IS_SANDBOX"@] == "1"@
        }),
{
    lemma_remote_variables();
    if c.tunnel_port is Some {
        let p = c.tunnel_port->0;
        assert(account::loopback(p, Seq::empty()) =~= "http://127.0.0.1:"@ + text::decimal_of(
            p as nat,
        ));
    }
}

/// Only the bundled agent, and only on a remote host, is launched otherwise than it was
/// configured.
pub proof fn law_other_agents_keep_their_command(
    r: AgentServerCommand,
    id: Seq<char>,
    over_ssh: bool,
    command: AgentServerCommand,
    c: RemoteContext,
)
    requires
        is_connect_command(r, id, over_ssh, command, c),
    ensures
        !over_ssh ==> r == command,
        id != "VibeDev"@ ==> r == command,
        over_ssh && id == "VibeDev"@ ==> r.path@ == "sh"@ && r.args@.len() == 2 && r.args@[0]@
            == "-c"@ && r.env is Some,
{
    if over_ssh && id == "VibeDev"@ {
        let t = lists::texts(r.args@);
        assert(t.len() == r.args@.len());
        assert(t[0] == r.args@[0]@);
    }
}

/// An agent comes from the registry exactly where the registry lists it or the settings
/// give it no command of its own.
pub proof fn law_registry_agents(
    id: Seq<char>,
    registry_ids: Seq<Seq<char>>,
    servers: Map<Seq<char>, SettingsModel>,
)
    ensures
        registry_ids.contains(id) ==> comes_from_registry(id, registry_ids, servers),
        !registry_ids.contains(id) && !servers.contains_key(id) ==> !comes_from_registry(
            id,
            registry_ids,
            servers,
        ),
        !registry_ids.contains(id) && servers.contains_key(id) && servers[id].command is Some
            ==> !comes_from_registry(id, registry_ids, servers),
        servers.contains_key(id) && servers[id].command is None ==> comes_from_registry(
            id,
            registry_ids,
            servers,
        ),
{
}

/// Making a value a favorite, or none, changes nothing about any other; a new favorite is
/// listed last.
pub proof fn law_other_favorites_stay(
    list: Seq<Seq<char>>,
    value: Seq<char>,
    favorite: bool,
    other: Seq<char>,
)
    requires
        other != value,
    ensures
        toggled(list, value, favorite).contains(other) <==> list.contains(other),
        favorite && !list.contains(value) ==> toggled(list, value, true) == list.push(value),
        list.contains(value) ==> toggled(list, value, true) == list,
{
    lemma_without_keeps(list, value, other);
    if list.contains(other) {
        let i = choose|i: int| 0 <= i < list.len() && list[i] == other;
        assert(list.push(value)[i] == other);
    }
    if list.push(value).contains(other) {
        let i = choose|i: int| 0 <= i < list.push(value).len() && list.push(value)[i] == other;
        assert(list[i] == other);
    }
}

proof fn lemma_without_keeps(list: Seq<Seq<char>>, value: Seq<char>, other: Seq<char>)
    requires
        other != value,
    ensures
        lists::texts_without(list, value).contains(other) <==> list.contains(other),
    decreases list.len(),
{
    reveal(Seq::filter);
    if list.len() > 0 {
        let front = list.drop_last();
        lemma_without_keeps(front, value, other);
        assert(front.push(list.last()) =~= list);
        let f = lists::texts_without(front, value);
        let g = lists::texts_without(list, value);
        if front.contains(other) {
            let i = choose|i: int| 0 <= i < front.len() && front[i] == other;
            assert(list[i] == other);
        }
        if list.contains(other) && list.last() != other {
            let i = choose|i: int| 0 <= i < list.len() && list[i] == other;
            assert(front[i] == other);
        }
        if list.last() != value {
            assert(g == f.push(list.last()));
            assert(g[f.len() as int] == list.last());
            if f.contains(other) {
                let i = choose|i: int| 0 <= i < f.len() && f[i] == other;
                assert(g[i] == other);
            }
            if g.contains(other) && list.last() != other {
                let i = choose|i: int| 0 <= i < g.len() && g[i] == other;
                assert(f[i] == other);
            }
            if list.last() == other {
                assert(list[list.len() - 1] == other);
            }
        } else {
            assert(g == f);
        }
    }
}

/// A favorite value of an option is kept under that option, and an option without favorites
/// is not kept; other options are left alone.
pub proof fn law_favorite_values_stay_with_their_option(
    m: Map<Seq<char>, Seq<Seq<char>>>,
    config_id: Seq<char>,
    value: Seq<char>,
    favorite: bool,
    other: Seq<char>,
)
    ensures
        ({
            let after = values_toggled(m, config_id, value, favorite);
            &&& favorite ==> after.contains_key(config_id) && after[config_id].contains(value)
            &&& !favorite && after.contains_key(config_id) ==> !after[config_id].contains(value)
                && after[config_id].len() > 0
            &&& other != config_id ==> (after.contains_key(other) <==> m.contains_key(other)) && (
            m.contains_key(other) ==> after[other] == m[other])
        }),
{
    let list = if m.contains_key(config_id) {
        m[config_id]
    } else {
        Seq::empty()
    };
    law_favorites(list, value, favorite);
}

/// A first preference is written into settings without preferences, which keep the command
/// in effect and its environment; an agent without a command is one of the registry.
pub proof fn law_first_preference_starts_afresh(resolved: Option<SettingsModel>)
    ensures
        default_settings(resolved).preferences.default_mode is None,
        default_settings(resolved).preferences.default_model is None,
        default_settings(resolved).preferences.favorite_models.len() == 0,
        resolved is None ==> default_settings(resolved).command is None,
        (resolved matches Some(s) && s.command is Some) ==> default_settings(resolved).command
            == (resolved->0).command && default_settings(resolved).env == (resolved->0).env,
        (resolved matches Some(s) && s.command is None) ==> default_settings(resolved).command
            is None && default_settings(resolved).env == Map::<Seq<char>, Seq<char>>::empty(),
{
}

/// A session starts with the options that the settings of its own agent give, and with none
/// where they give none.
pub proof fn law_session_starts_with_its_options(
    servers: Map<Seq<char>, SettingsModel>,
    id: Seq<char>,
    option: Seq<char>,
)
    ensures
        servers.contains_key(id) ==> options_of(servers, id)
            == servers[id].preferences.default_config_options,
        !servers.contains_key(id) ==> !options_of(servers, id).contains_key(option),
{
}

/// A value that is no longer a favorite takes none of the option's others with it, and an
/// option without favorites is not listed.
pub proof fn law_other_favorite_values_stay(
    m: Map<Seq<char>, Seq<Seq<char>>>,
    config_id: Seq<char>,
    value: Seq<char>,
    favorite: bool,
    kept: Seq<char>,
)
    ensures
        m.contains_key(config_id) && m[config_id].contains(kept) && kept != value
            ==> values_toggled(m, config_id, value, favorite).contains_key(config_id)
            && values_toggled(m, config_id, value, favorite)[config_id].contains(kept),
        !m.contains_key(config_id) && !favorite ==> !values_toggled(
            m,
            config_id,
            value,
            favorite,
        ).contains_key(config_id),
        !m.contains_key(config_id) && favorite ==> values_toggled(
            m,
            config_id,
            value,
            favorite,
        ).contains_key(config_id) && values_toggled(m, config_id, value, favorite)[config_id]
            == seq![value],
{
    let list = if m.contains_key(config_id) {
        m[config_id]
    } else {
        Seq::empty()
    };
    if kept != value {
        law_other_favorites_stay(list, value, favorite, kept);
    }
    if !m.contains_key(config_id) {
        assert(lists::texts_without(Seq::empty(), value) =~= Seq::empty());
        assert(Seq::empty().push(value) =~= seq![value]);
    }
}

/// An agent without an environment of its own has an empty one.
pub proof fn law_environment_may_be_left_out(t: Table<String>)
    ensures
        env_of(Some(t)) == table::texts_of(t),
        env_of(None) == Map::<Seq<char>, Seq<char>>::empty(),
{
}

} // verus!
