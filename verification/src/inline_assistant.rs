//! Pointing the inline assistant at the sidecar.
//!
//! A chat provider is put into the settings under a key of its own, with the
//! loopback address and the account's models, and the first model is selected.
//! The registry follows the settings with a delay, and a provider reads its key
//! when it is made, so the key of an older provider is taken out first and the
//! new one is waited for.

use vstd::prelude::*;
use vstd::string::*;

use crate::account;
use crate::lists;
use crate::table::Table;

verus! {

/// The settings key and registry id of the chat provider.
pub const VIBEDEV_CHAT_PROVIDER_ID: &'static str = "vibedev";

/// The environment variable that the provider reads its key from.
pub const VIBEDEV_CHAT_API_KEY_ENV_VAR: &'static str = "VIBEDEV_API_KEY";

/// The context window that a model is given where only its id is known.
pub const DEFAULT_MAX_TOKENS: u64 = 200_000;

/// How long a registration is waited for.
pub const REGISTER_WAIT_MILLIS: u64 = 5_000;

/// The pause between two looks at the registry.
pub const REGISTER_POLL_MILLIS: u64 = 100;

#[derive(Clone, Copy, Debug, PartialEq, Eq, Structural)]
pub struct ModelCapabilities {
    pub tools: bool,
    pub images: bool,
    pub parallel_tool_calls: bool,
    pub prompt_cache_key: bool,
    pub chat_completions: bool,
    pub interleaved_reasoning: bool,
}

/// A model as the settings describe it.
#[derive(Debug, PartialEq, Eq)]
pub struct AvailableModel {
    pub name: String,
    pub display_name: Option<String>,
    pub max_tokens: u64,
    pub max_output_tokens: Option<u64>,
    pub max_completion_tokens: Option<u64>,
    pub reasoning_effort: Option<String>,
    pub capabilities: ModelCapabilities,
}

/// A provider as the settings describe it.
#[derive(Debug, PartialEq, Eq)]
pub struct ProviderContent {
    pub api_url: String,
    pub available_models: Vec<AvailableModel>,
    pub custom_headers: Option<Vec<(String, String)>>,
}

/// The model is described by its id alone: it calls tools and completes chats,
/// and nothing more is known of it.
pub open spec fn is_chat_model(m: AvailableModel, id: Seq<char>) -> bool {
    &&& m.name@ == id
    &&& m.display_name is None
    &&& m.max_tokens == DEFAULT_MAX_TOKENS
    &&& m.max_output_tokens is None
    &&& m.max_completion_tokens is None
    &&& m.reasoning_effort is None
    &&& m.capabilities == ModelCapabilities {
        tools: true,
        images: false,
        parallel_tool_calls: false,
        prompt_cache_key: false,
        chat_completions: true,
        interleaved_reasoning: false,
    }
}

/// The description of a chat model of which only the id is known.
pub fn chat_model(id: String) -> (r: AvailableModel)
    ensures
        is_chat_model(r, id@),
{
    AvailableModel {
        name: id,
        display_name: None,
        max_tokens: DEFAULT_MAX_TOKENS,
        max_output_tokens: None,
        max_completion_tokens: None,
        reasoning_effort: None,
        capabilities: ModelCapabilities {
            tools: true,
            images: false,
            parallel_tool_calls: false,
            prompt_cache_key: false,
            chat_completions: true,
            interleaved_reasoning: false,
        },
    }
}

/// The chat models of a list of ids, in order.
pub open spec fn are_chat_models(ms: Seq<AvailableModel>, ids: Seq<String>) -> bool {
    ms.len() == ids.len() && forall|i: int|
        0 <= i < ms.len() ==> is_chat_model(#[trigger] ms[i], ids[i]@)
}

/// The settings of the chat provider at a port: the base address, to which the
/// client adds the path of a request, and the account's models.
pub fn chat_provider(port: u16, models: &Vec<String>) -> (r: ProviderContent)
    ensures
        r.api_url@ == account::loopback(port, "/v1"@),
        are_chat_models(r.available_models@, models@),
        r.custom_headers is None,
{
    let mut out: Vec<AvailableModel> = Vec::new();
    let mut i: usize = 0;
    while i < models.len()
        invariant
            i <= models.len(),
            out.len() == i,
            forall|k: int| 0 <= k < i ==> is_chat_model(#[trigger] out@[k], models@[k]@),
        decreases models.len() - i,
    {
        out.push(chat_model(models[i].clone()));
        i += 1;
    }
    ProviderContent {
        api_url: account::loopback_url(port, "/v1"),
        available_models: out,
        custom_headers: None,
    }
}

/// What a configuration puts in place.
#[derive(Debug, PartialEq, Eq)]
pub struct InlineAssistantPlan {
    /// The key that the environment variable and the keychain get.
    pub token: String,
    /// The provider for the settings.
    pub content: ProviderContent,
    /// The model to select, if there is one.
    pub model: Option<String>,
}

/// The plan for the sidecar at a port: its token is the provider's key, and the
/// first model is the one to select.
pub fn vibedev_configure_inline_assistant(port: u16, token: String, models: Vec<String>) -> (r:
    InlineAssistantPlan)
    ensures
        r.token@ == token@,
        r.content.api_url@ == account::loopback(port, "/v1"@),
        are_chat_models(r.content.available_models@, models@),
        r.content.custom_headers is None,
        lists::text_of(r.model) == (if models@.len() == 0 {
            None
        } else {
            Some(models@[0]@)
        }),
{
    let content = chat_provider(port, &models);
    let model = if models.len() == 0 {
        None
    } else {
        Some(models[0].clone())
    };
    InlineAssistantPlan { token, content, model }
}

/// Takes the chat provider out of the settings; the other providers stay.
pub fn remove_chat_provider(openai_compatible: &mut Table<ProviderContent>)
    ensures
        final(openai_compatible)@ == old(openai_compatible)@.remove(VIBEDEV_CHAT_PROVIDER_ID@),
{
    openai_compatible.remove(VIBEDEV_CHAT_PROVIDER_ID);
}

/// Puts the chat provider into the settings; the other providers stay.
pub fn insert_chat_provider(
    openai_compatible: &mut Table<ProviderContent>,
    content: ProviderContent,
)
    ensures
        final(openai_compatible)@ == old(openai_compatible)@.insert(
            VIBEDEV_CHAT_PROVIDER_ID@,
            content,
        ),
{
    openai_compatible.insert(VIBEDEV_CHAT_PROVIDER_ID, content);
}

// ---------------------------------------------------------------------------
// The order of the steps
// ---------------------------------------------------------------------------

/// How a configuration ended.
#[derive(Clone, Copy, Debug, PartialEq, Eq, Structural)]
pub enum ConfigureOutcome {
    /// The provider did not appear in the registry in time.
    NotRegistered,
    /// The provider is in place, and there is no model to select yet.
    NoModels,
    /// The provider is in place and its first model is selected.
    Selected,
}

/// What to do next.
#[derive(Clone, Copy, Debug, PartialEq, Eq, Structural)]
pub enum ConfigureAction {
    /// Set the environment variable of the key to the handshake token.
    SetEnv,
    /// Take the provider's key out of the settings.
    RemoveKey,
    /// Tell whether the registry holds the provider, and for how long that was
    /// waited for.
    Look,
    /// Wait for this many milliseconds.
    Sleep(u64),
    /// Put the provider into the settings.
    InsertKey,
    /// Store the token in the keychain under the provider's address.
    WriteCredentials,
    /// Have the provider authenticate.
    Authenticate,
    /// Select the first model, for the inline assistant and as the default.
    Select,
    /// Nothing more.
    Stop(ConfigureOutcome),
}

/// Where the configuration stands.
#[derive(Clone, Copy, Debug, PartialEq, Eq, Structural)]
pub enum ConfigureState {
    Begin,
    EnvSet,
    AwaitingRemoval,
    RestingGone,
    Inserting,
    AwaitingArrival,
    RestingHere,
    Storing,
    Authenticating,
    Selecting,
    Stopped(ConfigureOutcome),
}

/// What came of an action.
#[derive(Clone, Copy, Debug, PartialEq, Eq, Structural)]
pub enum ConfigureEvent {
    /// It is done, or has failed in a way that does not matter.
    Done,
    /// Whether the provider is registered, and for how many milliseconds this was
    /// waited for.
    Seen { registered: bool, waited: u64 },
}

/// The event is one to the state's action.
pub open spec fn fits(state: ConfigureState, event: ConfigureEvent) -> bool {
    match state {
        ConfigureState::AwaitingRemoval | ConfigureState::AwaitingArrival => event is Seen,
        ConfigureState::Stopped(_) => false,
        _ => event is Done,
    }
}

/// The action that a state stands for.
pub open spec fn asked(state: ConfigureState) -> ConfigureAction {
    match state {
        ConfigureState::Begin => ConfigureAction::SetEnv,
        ConfigureState::EnvSet => ConfigureAction::RemoveKey,
        ConfigureState::AwaitingRemoval => ConfigureAction::Look,
        ConfigureState::RestingGone => ConfigureAction::Sleep(REGISTER_POLL_MILLIS),
        ConfigureState::Inserting => ConfigureAction::InsertKey,
        ConfigureState::AwaitingArrival => ConfigureAction::Look,
        ConfigureState::RestingHere => ConfigureAction::Sleep(REGISTER_POLL_MILLIS),
        ConfigureState::Storing => ConfigureAction::WriteCredentials,
        ConfigureState::Authenticating => ConfigureAction::Authenticate,
        ConfigureState::Selecting => ConfigureAction::Select,
        ConfigureState::Stopped(outcome) => ConfigureAction::Stop(outcome),
    }
}

/// What follows an event. The removal is waited for until it shows or the time is
/// up, and then the provider is put in either way; if it does not show in time
/// after that, the configuration ends.
pub open spec fn next(state: ConfigureState, event: ConfigureEvent, has_model: bool) ->
    ConfigureState {
    match (state, event) {
        (ConfigureState::Begin, _) => ConfigureState::EnvSet,
        (ConfigureState::EnvSet, _) => ConfigureState::AwaitingRemoval,
        (ConfigureState::AwaitingRemoval, ConfigureEvent::Seen { registered, waited }) => if
        !registered || waited >= REGISTER_WAIT_MILLIS {
            ConfigureState::Inserting
        } else {
            ConfigureState::RestingGone
        },
        (ConfigureState::RestingGone, _) => ConfigureState::AwaitingRemoval,
        (ConfigureState::Inserting, _) => ConfigureState::AwaitingArrival,
        (ConfigureState::AwaitingArrival, ConfigureEvent::Seen { registered, waited }) => if
        registered {
            ConfigureState::Storing
        } else if waited >= REGISTER_WAIT_MILLIS {
            ConfigureState::Stopped(ConfigureOutcome::NotRegistered)
        } else {
            ConfigureState::RestingHere
        },
        (ConfigureState::RestingHere, _) => ConfigureState::AwaitingArrival,
        (ConfigureState::Storing, _) => ConfigureState::Authenticating,
        (ConfigureState::Authenticating, _) => if has_model {
            ConfigureState::Selecting
        } else {
            ConfigureState::Stopped(ConfigureOutcome::NoModels)
        },
        (ConfigureState::Selecting, _) => ConfigureState::Stopped(ConfigureOutcome::Selected),
        (s, _) => s,
    }
}

/// The action that a state stands for.
pub fn action_of(state: ConfigureState) -> (r: ConfigureAction)
    ensures
        r == asked(state),
{
    match state {
        ConfigureState::Begin => ConfigureAction::SetEnv,
        ConfigureState::EnvSet => ConfigureAction::RemoveKey,
        ConfigureState::AwaitingRemoval => ConfigureAction::Look,
        ConfigureState::RestingGone => ConfigureAction::Sleep(REGISTER_POLL_MILLIS),
        ConfigureState::Inserting => ConfigureAction::InsertKey,
        ConfigureState::AwaitingArrival => ConfigureAction::Look,
        ConfigureState::RestingHere => ConfigureAction::Sleep(REGISTER_POLL_MILLIS),
        ConfigureState::Storing => ConfigureAction::WriteCredentials,
        ConfigureState::Authenticating => ConfigureAction::Authenticate,
        ConfigureState::Selecting => ConfigureAction::Select,
        ConfigureState::Stopped(outcome) => ConfigureAction::Stop(outcome),
    }
}

/// Takes what came of the state's action and goes on. `has_model` tells whether
/// the account has a model to select.
pub fn advance(state: ConfigureState, event: ConfigureEvent, has_model: bool) -> (r: ConfigureState)
    requires
        fits(state, event),
    ensures
        r == next(state, event, has_model),
{
    match state {
        ConfigureState::Begin => ConfigureState::EnvSet,
        ConfigureState::EnvSet => ConfigureState::AwaitingRemoval,
        ConfigureState::AwaitingRemoval => match event {
            ConfigureEvent::Seen { registered, waited } => if !registered || waited
                >= REGISTER_WAIT_MILLIS {
                ConfigureState::Inserting
            } else {
                ConfigureState::RestingGone
            },
            ConfigureEvent::Done => state,
        },
        ConfigureState::RestingGone => ConfigureState::AwaitingRemoval,
        ConfigureState::Inserting => ConfigureState::AwaitingArrival,
        ConfigureState::AwaitingArrival => match event {
            ConfigureEvent::Seen { registered, waited } => if registered {
                ConfigureState::Storing
            } else if waited >= REGISTER_WAIT_MILLIS {
                ConfigureState::Stopped(ConfigureOutcome::NotRegistered)
            } else {
                ConfigureState::RestingHere
            },
            ConfigureEvent::Done => state,
        },
        ConfigureState::RestingHere => ConfigureState::AwaitingArrival,
        ConfigureState::Storing => ConfigureState::Authenticating,
        ConfigureState::Authenticating => if has_model {
            ConfigureState::Selecting
        } else {
            ConfigureState::Stopped(ConfigureOutcome::NoModels)
        },
        ConfigureState::Selecting => ConfigureState::Stopped(ConfigureOutcome::Selected),
        ConfigureState::Stopped(_) => state,
    }
}

// ---------------------------------------------------------------------------
// Runs
// ---------------------------------------------------------------------------

/// The states that a configuration goes through under a sequence of events.
pub open spec fn trace(events: Seq<ConfigureEvent>, has_model: bool) -> Seq<ConfigureState>
    decreases events.len(),
{
    if events.len() == 0 {
        seq![ConfigureState::Begin]
    } else {
        let before = trace(events.drop_last(), has_model);
        before.push(next(before.last(), events.last(), has_model))
    }
}

/// How far along a state is.
pub open spec fn rank(state: ConfigureState) -> int {
    match state {
        ConfigureState::Begin => 0,
        ConfigureState::EnvSet => 1,
        ConfigureState::AwaitingRemoval | ConfigureState::RestingGone => 2,
        ConfigureState::Inserting => 3,
        ConfigureState::AwaitingArrival | ConfigureState::RestingHere => 4,
        ConfigureState::Storing => 5,
        ConfigureState::Authenticating => 6,
        ConfigureState::Selecting => 7,
        ConfigureState::Stopped(_) => 8,
    }
}

/// One of the states is this far along.
spec fn visits(t: Seq<ConfigureState>, r: int) -> bool {
    exists|i: int| 0 <= i < t.len() && #[trigger] rank(t[i]) == r
}

proof fn lemma_trace(events: Seq<ConfigureEvent>, has_model: bool)
    ensures
        trace(events, has_model).len() == events.len() + 1,
        forall|i: int, j: int|
            0 <= i <= j < trace(events, has_model).len() ==> rank(
                #[trigger] trace(events, has_model)[i],
            ) <= rank(#[trigger] trace(events, has_model)[j]),
        forall|r: int|
            0 <= r <= rank(trace(events, has_model).last()) && r <= 4 ==> #[trigger] visits(
                trace(events, has_model),
                r,
            ),
        trace(events, has_model).last() is Selecting ==> has_model,
    decreases events.len(),
{
    if events.len() > 0 {
        let before = trace(events.drop_last(), has_model);
        let after = trace(events, has_model);
        lemma_trace(events.drop_last(), has_model);
        assert forall|r: int| 0 <= r <= rank(after.last()) && r <= 4 implies #[trigger] visits(
            after,
            r,
        ) by {
            if r <= rank(before.last()) {
                assert(visits(before, r));
                let i = choose|i: int| 0 <= i < before.len() && #[trigger] rank(before[i]) == r;
                assert(rank(after[i]) == r);
            } else {
                assert(rank(after[after.len() - 1]) == r);
            }
        }
    } else {
        assert(rank(trace(events, has_model)[0]) == 0);
    }
}

/// The order that makes the token count: by the time the provider is put into the
/// settings, the environment variable has been set and its old key has been taken
/// out; and steps are never taken back.
pub proof fn law_key_is_renewed_before_use(events: Seq<ConfigureEvent>, has_model: bool)
    requires
        trace(events, has_model).last() is Inserting,
    ensures
        exists|i: int, j: int|
            0 <= i < j < trace(events, has_model).len() - 1 && asked(
                #[trigger] trace(events, has_model)[i],
            ) == ConfigureAction::SetEnv && asked(#[trigger] trace(events, has_model)[j])
                == ConfigureAction::RemoveKey,
        forall|i: int, j: int|
            0 <= i <= j < trace(events, has_model).len() ==> rank(
                #[trigger] trace(events, has_model)[i],
            ) <= rank(#[trigger] trace(events, has_model)[j]),
{
    let t = trace(events, has_model);
    lemma_trace(events, has_model);
    assert(visits(t, 0) && visits(t, 1));
    let i = choose|i: int| 0 <= i < t.len() && #[trigger] rank(t[i]) == 0;
    let j = choose|j: int| 0 <= j < t.len() && #[trigger] rank(t[j]) == 1;
    assert(asked(t[i]) == ConfigureAction::SetEnv);
    assert(asked(t[j]) == ConfigureAction::RemoveKey);
    assert(i < j) by {
        if j < i {
            assert(rank(t[j]) <= rank(t[i]));
        }
    }
    assert(j < t.len() - 1) by {
        assert(rank(t[t.len() - 1]) == 3);
    }
}

/// The new provider was looked for, and was there, at the event with this number.
pub open spec fn seen_at(events: Seq<ConfigureEvent>, has_model: bool, k: int) -> bool {
    trace(events, has_model)[k] is AwaitingArrival && events[k] is Seen && events[k]->registered
}

proof fn lemma_seen(events: Seq<ConfigureEvent>, has_model: bool)
    ensures
        ({
            let last = trace(events, has_model).last();
            last is Storing || last is Authenticating || last is Selecting ==> exists|k: int|
                0 <= k < events.len() && #[trigger] seen_at(events, has_model, k)
        }),
    decreases events.len(),
{
    if events.len() > 0 {
        let front = events.drop_last();
        lemma_seen(front, has_model);
        lemma_trace(front, has_model);
        let last = trace(events, has_model).last();
        let before = trace(front, has_model).last();
        assert(trace(events, has_model)[events.len() - 1] == before);
        if last is Storing || last is Authenticating || last is Selecting {
            if before is AwaitingArrival {
                assert(seen_at(events, has_model, events.len() - 1));
            } else {
                let k = choose|k: int|
                    0 <= k < front.len() && #[trigger] seen_at(front, has_model, k);
                assert(trace(events, has_model)[k] == trace(front, has_model)[k]);
                assert(seen_at(events, has_model, k));
            }
        }
    }
}

/// A model is selected only where the account has one, and only after the provider
/// was seen in the registry and asked to authenticate.
pub proof fn law_selection_needs_model(events: Seq<ConfigureEvent>, has_model: bool)
    requires
        trace(events, has_model).last() is Selecting,
    ensures
        has_model,
        events.len() >= 1,
        trace(events, has_model)[events.len() - 1] is Authenticating,
        exists|k: int| 0 <= k < events.len() && #[trigger] seen_at(events, has_model, k),
{
    lemma_seen(events, has_model);
    lemma_trace(events, has_model);
    lemma_trace(events.drop_last(), has_model);
    assert(trace(events, has_model)[events.len() - 1] == trace(
        events.drop_last(),
        has_model,
    ).last());
}

/// The provider is put in as soon as the old one is gone, and after five seconds in any case;
/// until then the registry is looked at every tenth of a second.
pub proof fn law_removal_is_waited_for(registered: bool, waited: u64, has_model: bool)
    ensures
        ({
            let seen = ConfigureEvent::Seen { registered, waited };
            let after = next(ConfigureState::AwaitingRemoval, seen, has_model);
            &&& asked(ConfigureState::AwaitingRemoval) == ConfigureAction::Look
            &&& !registered || waited >= 5_000 ==> asked(after) == ConfigureAction::InsertKey
            &&& registered && waited < 5_000 ==> asked(after) == ConfigureAction::Sleep(100)
                && next(after, ConfigureEvent::Done, has_model) == ConfigureState::AwaitingRemoval
        }),
{
}

/// Once the new provider is registered its key is stored, it authenticates, and the first
/// model is selected where there is one. One that is not registered within five seconds is
/// given up.
pub proof fn law_registered_provider_is_put_to_use(
    registered: bool,
    waited: u64,
    has_model: bool,
)
    ensures
        ({
            let done = ConfigureEvent::Done;
            let seen = ConfigureEvent::Seen { registered, waited };
            let looking = next(ConfigureState::Inserting, done, has_model);
            let after = next(looking, seen, has_model);
            let authenticating = next(after, done, has_model);
            let selecting = next(authenticating, done, has_model);
            &&& asked(looking) == ConfigureAction::Look
            &&& registered ==> asked(after) == ConfigureAction::WriteCredentials && asked(
                authenticating,
            ) == ConfigureAction::Authenticate
            &&& registered && has_model ==> asked(selecting) == ConfigureAction::Select && asked(
                next(selecting, done, has_model),
            ) == ConfigureAction::Stop(ConfigureOutcome::Selected)
            &&& registered && !has_model ==> asked(selecting) == ConfigureAction::Stop(
                ConfigureOutcome::NoModels,
            )
            &&& !registered && waited >= 5_000 ==> asked(after) == ConfigureAction::Stop(
                ConfigureOutcome::NotRegistered,
            )
            &&& !registered && waited < 5_000 ==> asked(after) == ConfigureAction::Sleep(100)
                && next(after, done, has_model) == looking
        }),
{
}

/// A configuration begins with the variable of the environment and the old key.
pub proof fn law_configuration_begins_with_the_key(has_model: bool)
    ensures
        ({
            let done = ConfigureEvent::Done;
            let second = next(ConfigureState::Begin, done, has_model);
            &&& asked(ConfigureState::Begin) == ConfigureAction::SetEnv
            &&& asked(second) == ConfigureAction::RemoveKey
            &&& asked(next(second, done, has_model)) == ConfigureAction::Look
        }),
{
}

/// A chat model is known by its id, and can call tools and complete chats, no more.
pub proof fn law_chat_models_are_told_by_id(
    ms: Seq<AvailableModel>,
    ids: Seq<String>,
    i: int,
)
    requires
        are_chat_models(ms, ids),
        0 <= i < ids.len(),
    ensures
        ms.len() == ids.len(),
        ms[i].name@ == ids[i]@,
        ms[i].display_name is None,
        ms[i].max_tokens == 200_000,
        ms[i].max_output_tokens is None,
        ms[i].max_completion_tokens is None,
        ms[i].reasoning_effort is None,
        ms[i].capabilities.tools && ms[i].capabilities.chat_completions,
        !ms[i].capabilities.images && !ms[i].capabilities.parallel_tool_calls,
        !ms[i].capabilities.prompt_cache_key && !ms[i].capabilities.interleaved_reasoning,
{
    assert(is_chat_model(ms[i], ids[i]@));
}

/// What is waited for is looked for; every other step is done, and after the last nothing
/// follows.
pub proof fn law_steps_are_looked_for_or_done(event: ConfigureEvent, outcome: ConfigureOutcome)
    ensures
        fits(ConfigureState::AwaitingRemoval, event) <==> event is Seen,
        fits(ConfigureState::AwaitingArrival, event) <==> event is Seen,
        fits(ConfigureState::Begin, event) <==> event is Done,
        fits(ConfigureState::Inserting, event) <==> event is Done,
        fits(ConfigureState::Selecting, event) <==> event is Done,
        !fits(ConfigureState::Stopped(outcome), event),
{
}

} // verus!
