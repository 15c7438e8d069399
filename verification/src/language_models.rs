//! The language-model providers: which are registered, how the registry follows
//! the settings and the extensions, and which model stands in when none is
//! chosen.

use vstd::prelude::*;
use vstd::string::*;

use crate::lists;
use crate::onboarding::CLOUD_PROVIDER_ID;
use crate::text;

verus! {

// ---------------------------------------------------------------------------
// Built-in providers
// ---------------------------------------------------------------------------

/// A provider that ships with the editor.
#[derive(Clone, Copy, Debug, PartialEq, Eq, Structural)]
pub enum ProviderKind {
    Cloud,
    Anthropic,
    OpenAi,
    Ollama,
    LmStudio,
    DeepSeek,
    Google,
    Mistral,
    Bedrock,
    OpenRouter,
    VercelAiGateway,
    XAi,
    OpenCode,
    CopilotChat,
    OpenAiSubscribed,
}

/// The provider belongs to another vendor's account and is not offered.
pub open spec fn withheld(kind: ProviderKind) -> bool {
    kind is Cloud || kind is CopilotChat || kind is OpenAiSubscribed
}

/// The providers to register, in order.
pub open spec fn builtin_order() -> Seq<ProviderKind> {
    seq![
        ProviderKind::Anthropic,
        ProviderKind::OpenAi,
        ProviderKind::Ollama,
        ProviderKind::LmStudio,
        ProviderKind::DeepSeek,
        ProviderKind::Google,
        ProviderKind::Mistral,
        ProviderKind::Bedrock,
        ProviderKind::OpenRouter,
        ProviderKind::VercelAiGateway,
        ProviderKind::XAi,
        ProviderKind::OpenCode,
    ]
}

/// The built-in providers to register at startup, in order.
pub fn register_language_model_providers() -> (r: Vec<ProviderKind>)
    ensures
        r@ == builtin_order(),
{
    let r = vec![
        ProviderKind::Anthropic,
        ProviderKind::OpenAi,
        ProviderKind::Ollama,
        ProviderKind::LmStudio,
        ProviderKind::DeepSeek,
        ProviderKind::Google,
        ProviderKind::Mistral,
        ProviderKind::Bedrock,
        ProviderKind::OpenRouter,
        ProviderKind::VercelAiGateway,
        ProviderKind::XAi,
        ProviderKind::OpenCode,
    ];
    assert(r@ =~= builtin_order());
    r
}

/// A provider is registered exactly when it is not withheld, and only once.
pub proof fn law_withheld_providers_are_left_out(kind: ProviderKind)
    ensures
        builtin_order().contains(kind) <==> !withheld(kind),
        builtin_order().no_duplicates(),
{
    let s = builtin_order();
    match kind {
        ProviderKind::Anthropic => { assert(s[0] == kind); },
        ProviderKind::OpenAi => { assert(s[1] == kind); },
        ProviderKind::Ollama => { assert(s[2] == kind); },
        ProviderKind::LmStudio => { assert(s[3] == kind); },
        ProviderKind::DeepSeek => { assert(s[4] == kind); },
        ProviderKind::Google => { assert(s[5] == kind); },
        ProviderKind::Mistral => { assert(s[6] == kind); },
        ProviderKind::Bedrock => { assert(s[7] == kind); },
        ProviderKind::OpenRouter => { assert(s[8] == kind); },
        ProviderKind::VercelAiGateway => { assert(s[9] == kind); },
        ProviderKind::XAi => { assert(s[10] == kind); },
        ProviderKind::OpenCode => { assert(s[11] == kind); },
        _ => {},
    }
}

// ---------------------------------------------------------------------------
// Providers from the settings
// ---------------------------------------------------------------------------

/// What to do to the registry when the settings change.
#[derive(Debug, PartialEq, Eq)]
pub struct ProviderChanges {
    pub unregister: Vec<String>,
    pub register: Vec<String>,
}

/// The registry after the changes: what is unregistered leaves it first.
pub open spec fn after_changes(registry: Set<Seq<char>>, changes: ProviderChanges) -> Set<
    Seq<char>,
> {
    registry.difference(lists::texts(changes.unregister@).to_set()).union(
        lists::texts(changes.register@).to_set(),
    )
}

/// The providers whose key has left the settings are unregistered, and those
/// whose key is new are registered; the others are left as they are.
pub fn register_openai_compatible_providers(old_keys: &Vec<String>, new_keys: &Vec<String>) -> (r:
    ProviderChanges)
    ensures
        lists::texts(r.unregister@) == lists::texts_minus(
            lists::texts(old_keys@),
            lists::texts(new_keys@),
        ),
        lists::texts(r.register@) == lists::texts_minus(
            lists::texts(new_keys@),
            lists::texts(old_keys@),
        ),
{
    ProviderChanges {
        unregister: lists::minus(old_keys, new_keys),
        register: lists::minus(new_keys, old_keys),
    }
}

/// After the changes the registry holds, of the keys that the settings named
/// before or name now, exactly those that they name now; every other provider
/// stays or stays away.
pub proof fn law_registry_follows_settings(
    registry: Set<Seq<char>>,
    old_keys: Seq<Seq<char>>,
    new_keys: Seq<Seq<char>>,
    changes: ProviderChanges,
    id: Seq<char>,
)
    requires
        lists::texts(changes.unregister@) == lists::texts_minus(old_keys, new_keys),
        lists::texts(changes.register@) == lists::texts_minus(new_keys, old_keys),
        forall|k: Seq<char>| #[trigger] old_keys.contains(k) ==> registry.contains(k),
    ensures
        after_changes(registry, changes).contains(id) <==> (if new_keys.contains(id) {
            true
        } else if old_keys.contains(id) {
            false
        } else {
            registry.contains(id)
        }),
{
    let gone = |t: Seq<char>| !new_keys.contains(t);
    let fresh = |t: Seq<char>| !old_keys.contains(t);
    lemma_filter_contains(old_keys, gone, id);
    lemma_filter_contains(new_keys, fresh, id);
    assert(lists::texts(changes.unregister@).to_set().contains(id) <==> lists::texts_minus(
        old_keys,
        new_keys,
    ).contains(id));
    assert(lists::texts(changes.register@).to_set().contains(id) <==> lists::texts_minus(
        new_keys,
        old_keys,
    ).contains(id));
}

proof fn lemma_filter_contains<A>(s: Seq<A>, keep: spec_fn(A) -> bool, x: A)
    ensures
        s.filter(keep).contains(x) <==> s.contains(x) && keep(x),
    decreases s.len(),
{
    reveal(Seq::filter);
    if s.len() > 0 {
        let front = s.drop_last();
        lemma_filter_contains(front, keep, x);
        lists::lemma_filter_push(front, s.last(), keep);
        assert(front.push(s.last()) =~= s);
        if s.contains(x) && !front.contains(x) {
            let i = choose|i: int| 0 <= i < s.len() && s[i] == x;
            if i < s.len() - 1 {
                assert(front[i] == x);
            }
        }
        if front.contains(x) {
            let i = choose|i: int| 0 <= i < front.len() && front[i] == x;
            assert(s[i] == x);
        }
        if keep(s.last()) {
            let f = front.filter(keep);
            assert(f.push(s.last())[f.len() as int] == s.last());
            if f.contains(x) {
                let i = choose|i: int| 0 <= i < f.len() && f[i] == x;
                assert(f.push(s.last())[i] == x);
            }
            if f.push(s.last()).contains(x) && !f.contains(x) {
                let i = choose|i: int|
                    0 <= i < f.push(s.last()).len() && f.push(s.last())[i] == x;
                if i < f.len() {
                    assert(f[i] == x);
                }
            }
        }
        assert(s[s.len() - 1] == s.last());
    }
}

// ---------------------------------------------------------------------------
// Providers from extensions
// ---------------------------------------------------------------------------

/// An installed extension and how many language-model providers it declares.
#[derive(Debug, PartialEq, Eq)]
pub struct InstalledExtension {
    pub id: String,
    pub provider_count: usize,
}

/// What the extension store reports.
#[derive(Debug, PartialEq, Eq)]
pub enum ExtensionEvent {
    /// An extension was installed; with the number of providers that its manifest
    /// declares, where the manifest is known.
    Installed { id: String, provider_count: Option<usize> },
    Uninstalled { id: String },
    /// The set of installed extensions changed.
    Updated { installed: Vec<InstalledExtension> },
    Other,
}

/// What the registry is told.
#[derive(Debug, PartialEq, Eq)]
pub enum RegistryChange {
    ExtensionInstalled(String),
    ExtensionUninstalled(String),
    SyncExtensions(Vec<String>),
}

/// The extensions that declare a provider, in order.
pub open spec fn with_providers(installed: Seq<InstalledExtension>) -> Seq<Seq<char>>
    decreases installed.len(),
{
    if installed.len() == 0 {
        Seq::empty()
    } else {
        let front = with_providers(installed.drop_last());
        if installed.last().provider_count > 0 {
            front.push(installed.last().id@)
        } else {
            front
        }
    }
}

/// The ids of the installed extensions that declare a provider.
pub fn llm_extension_ids(installed: &Vec<InstalledExtension>) -> (r: Vec<String>)
    ensures
        lists::texts(r@) == with_providers(installed@),
{
    let mut out: Vec<String> = Vec::new();
    let mut i: usize = 0;
    assert(lists::texts(out@) =~= with_providers(installed@.take(0)));
    while i < installed.len()
        invariant
            i <= installed.len(),
            lists::texts(out@) == with_providers(installed@.take(i as int)),
        decreases installed.len() - i,
    {
        let ghost before = out@;
        assert(installed@.take(i + 1).drop_last() =~= installed@.take(i as int));
        if installed[i].provider_count > 0 {
            out.push(installed[i].id.clone());
            assert(lists::texts(out@) =~= lists::texts(before).push(installed@[i as int].id@));
        }
        i += 1;
    }
    assert(installed@.take(i as int) =~= installed@);
    out
}

/// What an event of the extension store means for the registry: an installed
/// extension counts only if its manifest is known and declares a provider.
pub fn on_extension_event(event: &ExtensionEvent) -> (r: Option<RegistryChange>)
    ensures
        match *event {
            ExtensionEvent::Installed { id, provider_count } => if provider_count is Some
                && provider_count->0 > 0 {
                r matches Some(RegistryChange::ExtensionInstalled(x)) && x@ == id@
            } else {
                r is None
            },
            ExtensionEvent::Uninstalled { id } => r matches Some(
                RegistryChange::ExtensionUninstalled(x),
            ) && x@ == id@,
            ExtensionEvent::Updated { installed } => r matches Some(
                RegistryChange::SyncExtensions(ids),
            ) && lists::texts(ids@) == with_providers(installed@),
            ExtensionEvent::Other => r is None,
        },
{
    match event {
        ExtensionEvent::Installed { id, provider_count } => match provider_count {
            Some(n) => if *n > 0 {
                Some(RegistryChange::ExtensionInstalled(id.clone()))
            } else {
                None
            },
            None => None,
        },
        ExtensionEvent::Uninstalled { id } => Some(
            RegistryChange::ExtensionUninstalled(id.clone()),
        ),
        ExtensionEvent::Updated { installed } => Some(
            RegistryChange::SyncExtensions(llm_extension_ids(installed)),
        ),
        ExtensionEvent::Other => None,
    }
}

// ---------------------------------------------------------------------------
// Startup, and the settings after it
// ---------------------------------------------------------------------------

/// What the registry is told at startup.
#[derive(Debug, PartialEq, Eq)]
pub struct Startup {
    pub builtin: Vec<ProviderKind>,
    /// The extensions that declare a provider, where there is a store of extensions.
    pub extensions: Option<Vec<String>>,
    /// The providers of the settings.
    pub settings: ProviderChanges,
}

/// The providers that the settings named when they were looked at last.
#[derive(Debug, PartialEq, Eq)]
pub struct SettingsProviders {
    pub keys: Vec<String>,
}

/// The lists name the same texts.
pub open spec fn same_texts(a: Seq<Seq<char>>, b: Seq<Seq<char>>) -> bool {
    forall|t: Seq<char>| #[trigger] a.contains(t) <==> b.contains(t)
}

/// What the registry is told at startup, and what is kept of the settings. Every provider
/// that the settings name is new.
pub fn init(installed: Option<&Vec<InstalledExtension>>, keys: Vec<String>) -> (r: (
    Startup,
    SettingsProviders,
))
    ensures
        r.0.builtin@ == builtin_order(),
        match (installed, r.0.extensions) {
            (Some(i), Some(e)) => lists::texts(e@) == with_providers(i@),
            (None, None) => true,
            _ => false,
        },
        r.0.settings.unregister@.len() == 0,
        lists::texts(r.0.settings.register@) == lists::texts(keys@),
        r.1.keys == keys,
{
    let extensions = match installed {
        Some(i) => Some(llm_extension_ids(i)),
        None => None,
    };
    let none: Vec<String> = Vec::new();
    let settings = register_openai_compatible_providers(&none, &keys);
    proof {
        assert(lists::texts(none@) =~= Seq::empty());
        lemma_minus_nothing(lists::texts(keys@));
        reveal(Seq::filter);
        assert(lists::texts(settings.unregister@).len() == 0);
    }
    (
        Startup { builtin: register_language_model_providers(), extensions, settings },
        SettingsProviders { keys },
    )
}

proof fn lemma_minus_nothing(a: Seq<Seq<char>>)
    ensures
        lists::texts_minus(a, Seq::empty()) == a,
    decreases a.len(),
{
    reveal(Seq::filter);
    if a.len() > 0 {
        let keep = |t: Seq<char>| !Seq::<Seq<char>>::empty().contains(t);
        lemma_minus_nothing(a.drop_last());
        lists::lemma_filter_push(a.drop_last(), a.last(), keep);
        assert(a.drop_last().push(a.last()) =~= a);
    }
}

impl SettingsProviders {
    /// Takes the providers that the settings name now. The registry is told of changes,
    /// and only where there are any.
    pub fn on_settings(&mut self, new_keys: Vec<String>) -> (r: Option<ProviderChanges>)
        ensures
            r is None <==> same_texts(lists::texts(old(self).keys@), lists::texts(new_keys@)),
            match r {
                None => *final(self) == *old(self),
                Some(c) => {
                    &&& final(self).keys == new_keys
                    &&& lists::texts(c.unregister@) == lists::texts_minus(
                        lists::texts(old(self).keys@),
                        lists::texts(new_keys@),
                    )
                    &&& lists::texts(c.register@) == lists::texts_minus(
                        lists::texts(new_keys@),
                        lists::texts(old(self).keys@),
                    )
                },
            },
    {
        let changes = register_openai_compatible_providers(&self.keys, &new_keys);
        let ghost before = lists::texts(self.keys@);
        let ghost after = lists::texts(new_keys@);
        proof {
            lemma_nothing_gone(before, after);
            lemma_nothing_gone(after, before);
            assert(lists::texts(changes.unregister@).len() == changes.unregister.len());
            assert(lists::texts(changes.register@).len() == changes.register.len());
        }
        if changes.unregister.len() == 0 && changes.register.len() == 0 {
            None
        } else {
            self.keys = new_keys;
            Some(changes)
        }
    }
}

proof fn lemma_nothing_gone(a: Seq<Seq<char>>, b: Seq<Seq<char>>)
    ensures
        lists::texts_minus(a, b).len() == 0 <==> forall|t: Seq<char>| #[trigger]
            a.contains(t) ==> b.contains(t),
{
    let gone = |t: Seq<char>| !b.contains(t);
    let left = lists::texts_minus(a, b);
    if left.len() == 0 {
        assert forall|t: Seq<char>| #[trigger] a.contains(t) implies b.contains(t) by {
            lemma_filter_contains(a, gone, t);
        }
    } else {
        assert(left.contains(left[0]));
        lemma_filter_contains(a, gone, left[0]);
    }
}

/// The registry after it was told of changes, if there were any.
pub open spec fn after_settings(
    registry: Set<Seq<char>>,
    changes: Option<ProviderChanges>,
) -> Set<Seq<char>> {
    match changes {
        Some(c) => after_changes(registry, c),
        None => registry,
    }
}

/// Whatever the settings come to name, the registry goes on to hold what they name, and no
/// provider that they named before.
pub proof fn law_registry_keeps_up_with_settings(
    registry: Set<Seq<char>>,
    old_keys: Seq<Seq<char>>,
    new_keys: Seq<Seq<char>>,
    changes: Option<ProviderChanges>,
)
    requires
        changes is None <==> same_texts(old_keys, new_keys),
        changes is Some ==> lists::texts((changes->0).unregister@) == lists::texts_minus(
            old_keys,
            new_keys,
        ) && lists::texts((changes->0).register@) == lists::texts_minus(new_keys, old_keys),
        forall|k: Seq<char>| #[trigger] old_keys.contains(k) ==> registry.contains(k),
    ensures
        forall|k: Seq<char>| #[trigger]
            new_keys.contains(k) ==> after_settings(registry, changes).contains(k),
        forall|k: Seq<char>| #[trigger]
            old_keys.contains(k) && !new_keys.contains(k) ==> !after_settings(
                registry,
                changes,
            ).contains(k),
{
    if changes is Some {
        assert forall|k: Seq<char>| #[trigger] new_keys.contains(k) implies after_settings(
            registry,
            changes,
        ).contains(k) by {
            law_registry_follows_settings(registry, old_keys, new_keys, changes->0, k);
        }
        assert forall|k: Seq<char>| #[trigger]
            old_keys.contains(k) && !new_keys.contains(k) implies !after_settings(
            registry,
            changes,
        ).contains(k) by {
            law_registry_follows_settings(registry, old_keys, new_keys, changes->0, k);
        }
    } else {
        assert forall|k: Seq<char>| #[trigger] new_keys.contains(k) implies registry.contains(
            k,
        ) by {
            assert(old_keys.contains(k));
        }
    }
}

// ---------------------------------------------------------------------------
// The fallback model
// ---------------------------------------------------------------------------

/// A registered provider, as far as the choice of a model goes.
#[derive(Debug, PartialEq, Eq)]
pub struct ProviderState {
    pub id: String,
    pub authenticated: bool,
    pub default_model: Option<String>,
    pub recommended_models: Vec<String>,
}

/// A model and the provider that serves it.
#[derive(Debug, PartialEq, Eq)]
pub struct ConfiguredModel {
    pub provider: String,
    pub model: String,
}

/// The model that a provider would serve: its default, else the first that it
/// recommends.
pub open spec fn served(p: ProviderState) -> Option<Seq<char>> {
    match p.default_model {
        Some(m) => Some(m@),
        None => if p.recommended_models@.len() > 0 {
            Some(p.recommended_models@[0]@)
        } else {
            None
        },
    }
}

pub open spec fn paired(p: ProviderState) -> Option<(Seq<char>, Seq<char>)> {
    match served(p) {
        Some(m) => Some((p.id@, m)),
        None => None,
    }
}

/// The first provider from `from` on that has the id.
pub open spec fn provider_at(ps: Seq<ProviderState>, id: Seq<char>, from: int) -> Option<int>
    decreases ps.len() - from,
{
    if from < 0 || from >= ps.len() {
        None
    } else if ps[from].id@ == id {
        Some(from)
    } else {
        provider_at(ps, id, from + 1)
    }
}

/// The first authenticated provider from `from` on that serves a model.
pub open spec fn first_serving(ps: Seq<ProviderState>, from: int) -> Option<(Seq<char>, Seq<char>)>
    decreases ps.len() - from,
{
    if from < 0 || from >= ps.len() {
        None
    } else if ps[from].authenticated && served(ps[from]) is Some {
        paired(ps[from])
    } else {
        first_serving(ps, from + 1)
    }
}

/// The fallback model: the cloud provider's while that is authenticated, even if
/// it serves none yet; else that of the first authenticated provider that serves
/// one.
pub open spec fn fallback(ps: Seq<ProviderState>, cloud: Seq<char>) -> Option<
    (Seq<char>, Seq<char>),
> {
    match provider_at(ps, cloud, 0) {
        Some(i) => if ps[i].authenticated {
            paired(ps[i])
        } else {
            first_serving(ps, 0)
        },
        None => first_serving(ps, 0),
    }
}

pub open spec fn configured(m: Option<ConfiguredModel>) -> Option<(Seq<char>, Seq<char>)> {
    match m {
        Some(c) => Some((c.provider@, c.model@)),
        None => None,
    }
}

fn serve(p: &ProviderState) -> (r: Option<ConfiguredModel>)
    ensures
        configured(r) == paired(*p),
{
    match &p.default_model {
        Some(m) => Some(ConfiguredModel { provider: p.id.clone(), model: m.clone() }),
        None => if p.recommended_models.len() > 0 {
            Some(
                ConfiguredModel { provider: p.id.clone(), model: p.recommended_models[0].clone() },
            )
        } else {
            None
        },
    }
}

fn find_provider(providers: &Vec<ProviderState>, id: &str) -> (r: Option<usize>)
    ensures
        match r {
            Some(i) => i < providers.len() && provider_at(providers@, id@, 0) == Some(i as int),
            None => provider_at(providers@, id@, 0) is None,
        },
{
    let mut i: usize = 0;
    while i < providers.len()
        invariant
            i <= providers.len(),
            provider_at(providers@, id@, 0) == provider_at(providers@, id@, i as int),
        decreases providers.len() - i,
    {
        if text::same(providers[i].id.as_str(), id) {
            return Some(i);
        }
        i += 1;
    }
    None
}

/// The model to use where the environment configures none.
pub fn update_environment_fallback_model(providers: &Vec<ProviderState>) -> (r: Option<
    ConfiguredModel,
>)
    ensures
        configured(r) == fallback(providers@, CLOUD_PROVIDER_ID@),
{
    fallback_model(providers, CLOUD_PROVIDER_ID)
}

/// The model of a provider that goes before the others while somebody is signed in to it,
/// else of the first that serves.
fn fallback_model(providers: &Vec<ProviderState>, cloud_id: &str) -> (r: Option<ConfiguredModel>)
    ensures
        configured(r) == fallback(providers@, cloud_id@),
{
    if let Some(i) = find_provider(providers, cloud_id) {
        if providers[i].authenticated {
            return serve(&providers[i]);
        }
    }
    let mut i: usize = 0;
    while i < providers.len()
        invariant
            i <= providers.len(),
            fallback(providers@, cloud_id@) == first_serving(providers@, 0),
            first_serving(providers@, 0) == first_serving(providers@, i as int),
        decreases providers.len() - i,
    {
        if providers[i].authenticated {
            let m = serve(&providers[i]);
            if m.is_some() {
                return m;
            }
        }
        i += 1;
    }
    None
}

/// While the cloud provider is authenticated no other provider's model is the
/// fallback, so the choice does not flicker during sign-in.
pub proof fn law_cloud_is_preferred(ps: Seq<ProviderState>)
    requires
        provider_at(ps, CLOUD_PROVIDER_ID@, 0) is Some,
        ps[provider_at(ps, CLOUD_PROVIDER_ID@, 0)->0].authenticated,
    ensures
        fallback(ps, CLOUD_PROVIDER_ID@) is Some ==> (fallback(ps, CLOUD_PROVIDER_ID@)->0).0
            == CLOUD_PROVIDER_ID@,
{
    lemma_provider_at(ps, CLOUD_PROVIDER_ID@, 0);
}

proof fn lemma_provider_at(ps: Seq<ProviderState>, id: Seq<char>, from: int)
    requires
        provider_at(ps, id, from) is Some,
    ensures
        ps[provider_at(ps, id, from)->0].id@ == id,
    decreases ps.len() - from,
{
    if ps[from].id@ != id {
        lemma_provider_at(ps, id, from + 1);
    }
}

/// The providers that need an account of another vendor are not registered, and every
/// other one is, once.
pub proof fn law_vendor_accounts_are_not_offered()
    ensures
        !builtin_order().contains(ProviderKind::Cloud),
        !builtin_order().contains(ProviderKind::CopilotChat),
        !builtin_order().contains(ProviderKind::OpenAiSubscribed),
        builtin_order().contains(ProviderKind::Anthropic),
        builtin_order().contains(ProviderKind::OpenAi),
        builtin_order().contains(ProviderKind::Ollama),
        builtin_order().contains(ProviderKind::LmStudio),
        builtin_order().contains(ProviderKind::DeepSeek),
        builtin_order().contains(ProviderKind::Google),
        builtin_order().contains(ProviderKind::Mistral),
        builtin_order().contains(ProviderKind::Bedrock),
        builtin_order().contains(ProviderKind::OpenRouter),
        builtin_order().contains(ProviderKind::VercelAiGateway),
        builtin_order().contains(ProviderKind::XAi),
        builtin_order().contains(ProviderKind::OpenCode),
        builtin_order().len() == 12,
        builtin_order().no_duplicates(),
{
    let s = builtin_order();
    assert(s[0] is Anthropic && s[1] is OpenAi && s[2] is Ollama && s[3] is LmStudio);
    assert(s[4] is DeepSeek && s[5] is Google && s[6] is Mistral && s[7] is Bedrock);
    assert(s[8] is OpenRouter && s[9] is VercelAiGateway && s[10] is XAi && s[11] is OpenCode);
}

/// The provider has a model to serve.
pub open spec fn can_serve(p: ProviderState) -> bool {
    p.authenticated && (p.default_model is Some || p.recommended_models@.len() > 0)
}

/// Where nobody is signed in to the cloud, the first provider that somebody is signed in to
/// and that has a model stands in: with its default model, else with the first that it
/// recommends. Where there is none, nothing does.
pub proof fn law_first_signed_in_provider_stands_in(ps: Seq<ProviderState>, i: int)
    requires
        forall|j: int|
            0 <= j < ps.len() && (#[trigger] ps[j]).id@ == "zed.dev"@ ==> !ps[j].authenticated,
    ensures
        0 <= i < ps.len() && ps[i].authenticated && (ps[i].default_model is Some
            || ps[i].recommended_models@.len() > 0) && (forall|j: int|
            0 <= j < i ==> !(#[trigger] ps[j]).authenticated || (ps[j].default_model is None
                && ps[j].recommended_models@.len() == 0)) ==> fallback(ps, CLOUD_PROVIDER_ID@)
            == Some(
            (
                ps[i].id@,
                if ps[i].default_model is Some {
                    (ps[i].default_model->0)@
                } else {
                    ps[i].recommended_models@[0]@
                },
            ),
        ),
        (forall|j: int|
            0 <= j < ps.len() ==> !(#[trigger] ps[j]).authenticated || (ps[j].default_model is None
                && ps[j].recommended_models@.len() == 0)) ==> fallback(ps, CLOUD_PROVIDER_ID@)
            is None,
{
    if provider_at(ps, CLOUD_PROVIDER_ID@, 0) is Some {
        lemma_provider_at(ps, CLOUD_PROVIDER_ID@, 0);
        lemma_provider_range(ps, CLOUD_PROVIDER_ID@, 0);
        let c = provider_at(ps, CLOUD_PROVIDER_ID@, 0)->0;
        assert(!ps[c].authenticated);
    }
    if 0 <= i < ps.len() && can_serve(ps[i]) && (forall|j: int|
        0 <= j < i ==> !can_serve(#[trigger] ps[j])) {
        lemma_first_serving(ps, 0, i);
    }
    if forall|j: int| 0 <= j < ps.len() ==> !can_serve(#[trigger] ps[j]) {
        lemma_none_serving(ps, 0);
    }
}

proof fn lemma_provider_range(ps: Seq<ProviderState>, id: Seq<char>, from: int)
    requires
        provider_at(ps, id, from) is Some,
    ensures
        from <= provider_at(ps, id, from)->0 < ps.len(),
        0 <= from,
        forall|j: int| from <= j < provider_at(ps, id, from)->0 ==> (#[trigger] ps[j]).id@ != id,
    decreases ps.len() - from,
{
    if ps[from].id@ != id {
        lemma_provider_range(ps, id, from + 1);
    }
}

proof fn lemma_first_serving(ps: Seq<ProviderState>, from: int, i: int)
    requires
        0 <= from <= i < ps.len(),
        can_serve(ps[i]),
        forall|j: int| from <= j < i ==> !can_serve(#[trigger] ps[j]),
    ensures
        first_serving(ps, from) == paired(ps[i]),
    decreases i - from,
{
    if from < i {
        assert(!can_serve(ps[from]));
        lemma_first_serving(ps, from + 1, i);
    }
}

proof fn lemma_none_serving(ps: Seq<ProviderState>, from: int)
    requires
        0 <= from,
        forall|j: int| from <= j < ps.len() ==> !can_serve(#[trigger] ps[j]),
    ensures
        first_serving(ps, from) is None,
    decreases ps.len() - from,
{
    if from < ps.len() {
        assert(!can_serve(ps[from]));
        lemma_none_serving(ps, from + 1);
    }
}

/// Once somebody is signed in to the cloud its own model is the fallback, and none is while
/// it has none.
pub proof fn law_cloud_serves_its_own_model(ps: Seq<ProviderState>, c: int)
    requires
        0 <= c < ps.len(),
        ps[c].id@ == "zed.dev"@,
        ps[c].authenticated,
        forall|j: int| 0 <= j < c ==> (#[trigger] ps[j]).id@ != "zed.dev"@,
    ensures
        fallback(ps, CLOUD_PROVIDER_ID@) == (if ps[c].default_model is Some {
            Some(("zed.dev"@, (ps[c].default_model->0)@))
        } else if ps[c].recommended_models@.len() > 0 {
            Some(("zed.dev"@, ps[c].recommended_models@[0]@))
        } else {
            None
        }),
{
    lemma_found_at(ps, CLOUD_PROVIDER_ID@, 0, c);
}

proof fn lemma_found_at(ps: Seq<ProviderState>, id: Seq<char>, from: int, c: int)
    requires
        0 <= from <= c < ps.len(),
        ps[c].id@ == id,
        forall|j: int| from <= j < c ==> (#[trigger] ps[j]).id@ != id,
    ensures
        provider_at(ps, id, from) == Some(c),
    decreases c - from,
{
    if from < c {
        lemma_found_at(ps, id, from + 1, c);
    }
}

/// An extension counts exactly where it declares a provider.
pub proof fn law_extensions_with_providers_count(
    installed: Seq<InstalledExtension>,
    e: InstalledExtension,
)
    ensures
        with_providers(installed.push(e)) == (if e.provider_count == 0 {
            with_providers(installed)
        } else {
            with_providers(installed).push(e.id@)
        }),
        with_providers(Seq::empty()).len() == 0,
{
    assert(installed.push(e).drop_last() =~= installed);
}

/// A configured model is known by its provider and its own name.
pub proof fn law_models_are_known_by_provider_and_name(c: ConfiguredModel)
    ensures
        configured(Some(c)) == Some((c.provider@, c.model@)),
        configured(None) is None,
{
}

} // verus!
