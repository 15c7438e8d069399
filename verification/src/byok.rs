//! Keys of the user's own.
//!
//! A user may have set up providers with keys of their own. The agent is told of
//! them: which they are, how they are spoken to and where, with which key, and what
//! models they have. Providers that have no key of their own are left out.

use vstd::prelude::*;
use vstd::string::*;

use crate::lists;
use crate::table;
use crate::table::Table;
use crate::text;

verus! {

/// One provider, as the agent is told of it.
#[derive(Debug)]
pub struct ByokProvider {
    pub id: String,
    pub label: String,
    /// "openai", "anthropic" or "gemini".
    pub protocol: &'static str,
    pub base_url: String,
    /// Empty where no key could be read: the provider is then skipped.
    pub api_key: String,
    pub models: Vec<String>,
}

/// All that the agent is told.
#[derive(Debug)]
pub struct ByokMap {
    pub providers: Vec<ByokProvider>,
}

/// The model of a provider.
pub ghost struct ByokModel {
    pub id: Seq<char>,
    pub label: Seq<char>,
    pub protocol: Seq<char>,
    pub base_url: Seq<char>,
    pub api_key: Seq<char>,
    pub models: Seq<Seq<char>>,
}

impl View for ByokProvider {
    type V = ByokModel;

    open spec fn view(&self) -> ByokModel {
        ByokModel {
            id: self.id@,
            label: self.label@,
            protocol: self.protocol@,
            base_url: self.base_url@,
            api_key: self.api_key@,
            models: lists::texts(self.models@),
        }
    }
}

/// The models of providers.
pub open spec fn models_of(v: Seq<ByokProvider>) -> Seq<ByokModel> {
    Seq::new(v.len(), |i: int| v[i]@)
}

/// Where the providers are reached.
#[derive(Debug)]
pub struct ProviderUrls {
    pub anthropic: String,
    pub google: String,
    pub openai: String,
    pub deepseek: String,
    pub mistral: String,
    pub ollama: String,
    pub lmstudio: String,
    pub open_router: String,
    pub x_ai: String,
    pub vercel_ai_gateway: String,
    /// Those that the user has added, by their ids.
    pub openai_compatible: Table<String>,
}

/// A registered provider.
#[derive(Debug)]
pub struct ByokSource {
    pub id: String,
    pub name: String,
    pub authenticated: bool,
    /// The ids of its models.
    pub models: Vec<String>,
}

// ---------------------------------------------------------------------------
// One provider
// ---------------------------------------------------------------------------

/// The protocol of a provider; `None` for those that have no key of their own.
pub open spec fn protocol_of(id: Seq<char>) -> Option<Seq<char>> {
    if id == "vibedev"@ || id == "bedrock"@ || id == "zed.dev"@ {
        None
    } else if id == "anthropic"@ {
        Some("anthropic"@)
    } else if id == "google"@ {
        Some("gemini"@)
    } else {
        Some("openai"@)
    }
}

/// The protocol of a provider; `None` for those that have no key of their own.
pub fn protocol_for(id: &str) -> (r: Option<&'static str>)
    ensures
        match r {
            Some(p) => protocol_of(id@) == Some(p@),
            None => protocol_of(id@) is None,
        },
{
    if text::same(id, "vibedev") || text::same(id, "bedrock") || text::same(id, "zed.dev") {
        None
    } else if text::same(id, "anthropic") {
        Some("anthropic")
    } else if text::same(id, "google") {
        Some("gemini")
    } else {
        Some("openai")
    }
}

/// Where a provider is reached; `None` for one that nothing is known of.
pub open spec fn url_of(id: Seq<char>, s: ProviderUrls) -> Option<Seq<char>> {
    if id == "anthropic"@ {
        Some(s.anthropic@)
    } else if id == "google"@ {
        Some(s.google@)
    } else if id == "openai"@ {
        Some(s.openai@)
    } else if id == "deepseek"@ {
        Some(s.deepseek@)
    } else if id == "mistral"@ {
        Some(s.mistral@)
    } else if id == "ollama"@ {
        Some(s.ollama@)
    } else if id == "lmstudio"@ {
        Some(s.lmstudio@)
    } else if id == "open_router"@ {
        Some(s.open_router@)
    } else if id == "x_ai"@ {
        Some(s.x_ai@)
    } else if id == "vercel.ai_gateway"@ {
        Some(s.vercel_ai_gateway@)
    } else if s.openai_compatible@.contains_key(id) {
        Some(s.openai_compatible@[id]@)
    } else {
        None
    }
}

/// How and where a provider is spoken to; `None` leaves it out.
pub open spec fn route_of(id: Seq<char>, s: ProviderUrls) -> Option<(Seq<char>, Seq<char>)> {
    match (protocol_of(id), url_of(id, s)) {
        (Some(p), Some(u)) => Some((p, u)),
        _ => None,
    }
}

/// How and where a provider is spoken to; `None` leaves it out.
pub fn protocol_and_url(id: &str, s: &ProviderUrls) -> (r: Option<(&'static str, String)>)
    ensures
        match r {
            Some((p, u)) => route_of(id@, *s) == Some((p@, u@)),
            None => route_of(id@, *s) is None,
        },
{
    let protocol = match protocol_for(id) {
        Some(p) => p,
        None => return None,
    };
    let url = if text::same(id, "anthropic") {
        s.anthropic.clone()
    } else if text::same(id, "google") {
        s.google.clone()
    } else if text::same(id, "openai") {
        s.openai.clone()
    } else if text::same(id, "deepseek") {
        s.deepseek.clone()
    } else if text::same(id, "mistral") {
        s.mistral.clone()
    } else if text::same(id, "ollama") {
        s.ollama.clone()
    } else if text::same(id, "lmstudio") {
        s.lmstudio.clone()
    } else if text::same(id, "open_router") {
        s.open_router.clone()
    } else if text::same(id, "x_ai") {
        s.x_ai.clone()
    } else if text::same(id, "vercel.ai_gateway") {
        s.vercel_ai_gateway.clone()
    } else {
        match s.openai_compatible.get(id) {
            Some(u) => u.clone(),
            None => return None,
        }
    };
    Some((protocol, url))
}

/// What a provider is called in the agent: it is told apart from the gateway.
pub open spec fn label_of(name: Seq<char>) -> Seq<char> {
    name + "（你的 Key）"@
}

fn label(name: &str) -> (r: String)
    ensures
        r@ == label_of(name@),
{
    text::join(name, "（你的 Key）")
}

// ---------------------------------------------------------------------------
// All providers
// ---------------------------------------------------------------------------

/// The providers that have to be authenticated before they are asked: those with a
/// key of their own that was not loaded yet.
pub open spec fn unloaded(sources: Seq<ByokSource>) -> Seq<Seq<char>>
    decreases sources.len(),
{
    if sources.len() == 0 {
        Seq::empty()
    } else {
        let rest = unloaded(sources.drop_last());
        let s = sources.last();
        if protocol_of(s.id@) is Some && !s.authenticated {
            rest.push(s.id@)
        } else {
            rest
        }
    }
}

/// The providers that have to be authenticated, by their ids.
pub fn authenticate_byok_providers(sources: &Vec<ByokSource>) -> (r: Vec<String>)
    ensures
        lists::texts(r@) == unloaded(sources@),
{
    let mut r: Vec<String> = Vec::new();
    let mut i: usize = 0;
    assert(lists::texts(r@) =~= unloaded(sources@.take(0)));
    while i < sources.len()
        invariant
            i <= sources.len(),
            lists::texts(r@) == unloaded(sources@.take(i as int)),
        decreases sources.len() - i,
    {
        proof {
            assert(sources@.take(i + 1).drop_last() =~= sources@.take(i as int));
            assert(sources@.take(i + 1).last() == sources[i as int]);
        }
        let ghost before = r@;
        if protocol_for(sources[i].id.as_str()).is_some() && !sources[i].authenticated {
            r.push(sources[i].id.clone());
            assert(lists::texts(r@) =~= lists::texts(before).push(sources[i as int].id@));
        }
        i += 1;
    }
    assert(sources@.take(i as int) =~= sources@);
    r
}

/// What the agent is told of a provider, but for its key; `None` leaves it out.
pub open spec fn entry_of(s: ByokSource, urls: ProviderUrls) -> Option<ByokModel> {
    match route_of(s.id@, urls) {
        Some((protocol, url)) => if s.authenticated && s.models@.len() > 0 {
            Some(
                ByokModel {
                    id: s.id@,
                    label: label_of(s.name@),
                    protocol,
                    base_url: url,
                    api_key: Seq::empty(),
                    models: lists::texts(s.models@),
                },
            )
        } else {
            None
        },
        None => None,
    }
}

/// What the agent is told of the providers, but for their keys, in their order.
pub open spec fn entries_of(sources: Seq<ByokSource>, urls: ProviderUrls) -> Seq<ByokModel>
    decreases sources.len(),
{
    if sources.len() == 0 {
        Seq::empty()
    } else {
        let rest = entries_of(sources.drop_last(), urls);
        match entry_of(sources.last(), urls) {
            Some(e) => rest.push(e),
            None => rest,
        }
    }
}

fn entry(s: &ByokSource, urls: &ProviderUrls) -> (r: Option<ByokProvider>)
    ensures
        match r {
            Some(p) => entry_of(*s, *urls) == Some(p@),
            None => entry_of(*s, *urls) is None,
        },
{
    if !s.authenticated {
        return None;
    }
    match protocol_and_url(s.id.as_str(), urls) {
        Some((protocol, base_url)) => if s.models.len() > 0 {
            let api_key = String::new();
            assert(api_key@ =~= Seq::empty());
            Some(
                ByokProvider {
                    id: s.id.clone(),
                    label: label(s.name.as_str()),
                    protocol,
                    base_url,
                    api_key,
                    models: lists::copy(&s.models),
                },
            )
        } else {
            None
        },
        None => None,
    }
}

/// The providers that the agent is told of, without their keys: those that are
/// authenticated, that are spoken to in a known way, and that have models.
pub fn pending_providers(sources: &Vec<ByokSource>, urls: &ProviderUrls) -> (r: Vec<
    ByokProvider,
>)
    ensures
        models_of(r@) == entries_of(sources@, *urls),
{
    let mut r: Vec<ByokProvider> = Vec::new();
    let mut i: usize = 0;
    assert(models_of(r@) =~= entries_of(sources@.take(0), *urls));
    while i < sources.len()
        invariant
            i <= sources.len(),
            models_of(r@) == entries_of(sources@.take(i as int), *urls),
        decreases sources.len() - i,
    {
        proof {
            assert(sources@.take(i + 1).drop_last() =~= sources@.take(i as int));
            assert(sources@.take(i + 1).last() == sources[i as int]);
        }
        let ghost before = models_of(r@);
        match entry(&sources[i], urls) {
            Some(p) => {
                r.push(p);
                assert(models_of(r@) =~= before.push(p@));
            },
            None => {},
        }
        i += 1;
    }
    assert(sources@.take(i as int) =~= sources@);
    r
}

/// The key that was read for an entry: empty where none could be.
pub open spec fn key_at(keys: Seq<Option<String>>, i: int) -> Seq<char> {
    if i < keys.len() && keys[i] is Some {
        (keys[i]->0)@
    } else {
        Seq::empty()
    }
}

/// The entries with these keys.
pub open spec fn with_keys(v: Seq<ByokModel>, keys: Seq<Option<String>>) -> Seq<ByokModel> {
    Seq::new(v.len(), |i: int| ByokModel { api_key: key_at(keys, i), ..v[i] })
}

/// What the agent is told, once the keys were read in the order of the providers.
pub fn collect_byok_map(pending: &Vec<ByokProvider>, keys: &Vec<Option<String>>) -> (r: ByokMap)
    ensures
        models_of(r.providers@) == with_keys(models_of(pending@), keys@),
{
    let mut r: Vec<ByokProvider> = Vec::new();
    let mut i: usize = 0;
    let ghost all = with_keys(models_of(pending@), keys@);
    while i < pending.len()
        invariant
            i <= pending.len(),
            r.len() == i,
            all == with_keys(models_of(pending@), keys@),
            forall|x: int| 0 <= x < i ==> (#[trigger] r[x])@ == all[x],
        decreases pending.len() - i,
    {
        let p = &pending[i];
        let api_key = if i < keys.len() {
            match &keys[i] {
                Some(k) => k.clone(),
                None => String::new(),
            }
        } else {
            String::new()
        };
        assert(api_key@ =~= key_at(keys@, i as int));
        r.push(
            ByokProvider {
                id: p.id.clone(),
                label: p.label.clone(),
                protocol: p.protocol,
                base_url: p.base_url.clone(),
                api_key,
                models: lists::copy(&p.models),
            },
        );
        i += 1;
    }
    assert(models_of(r@) =~= all);
    ByokMap { providers: r }
}

// ---------------------------------------------------------------------------
// Which model belongs to which provider
// ---------------------------------------------------------------------------

/// The first `n` models are put under this label.
pub open spec fn with_models(
    m: Map<Seq<char>, Seq<char>>,
    models: Seq<Seq<char>>,
    label: Seq<char>,
    n: int,
) -> Map<Seq<char>, Seq<char>>
    decreases n,
{
    if n <= 0 {
        m
    } else {
        with_models(m, models, label, n - 1).insert(models[n - 1], label)
    }
}

/// The label of each model; of two providers with one model the later counts.
pub open spec fn groups_of(sources: Seq<ByokSource>, urls: ProviderUrls) -> Map<
    Seq<char>,
    Seq<char>,
>
    decreases sources.len(),
{
    if sources.len() == 0 {
        Map::empty()
    } else {
        let rest = groups_of(sources.drop_last(), urls);
        let s = sources.last();
        if s.authenticated && route_of(s.id@, urls) is Some {
            with_models(
                rest,
                lists::texts(s.models@),
                label_of(s.name@),
                s.models@.len() as int,
            )
        } else {
            rest
        }
    }
}

fn put_models(groups: &mut Table<String>, models: &Vec<String>, label: &str)
    ensures
        table::texts_of(*final(groups)) == with_models(
            table::texts_of(*old(groups)),
            lists::texts(models@),
            label@,
            models@.len() as int,
        ),
{
    let ghost before = table::texts_of(*groups);
    let mut i: usize = 0;
    while i < models.len()
        invariant
            i <= models.len(),
            table::texts_of(*groups) == with_models(
                before,
                lists::texts(models@),
                label@,
                i as int,
            ),
        decreases models.len() - i,
    {
        assert(lists::texts(models@)[i as int] == models[i as int]@);
        groups.put(models[i].as_str(), label);
        i += 1;
    }
}

/// The label of each model of the providers that the agent is told of; models of
/// others belong to the gateway.
pub fn collect_byok_groups(sources: &Vec<ByokSource>, urls: &ProviderUrls) -> (r: Table<String>)
    ensures
        table::texts_of(r) == groups_of(sources@, *urls),
{
    let mut r: Table<String> = Table::new();
    let mut i: usize = 0;
    assert(table::texts_of(r) =~= groups_of(sources@.take(0), *urls));
    while i < sources.len()
        invariant
            i <= sources.len(),
            table::texts_of(r) == groups_of(sources@.take(i as int), *urls),
        decreases sources.len() - i,
    {
        proof {
            assert(sources@.take(i + 1).drop_last() =~= sources@.take(i as int));
            assert(sources@.take(i + 1).last() == sources[i as int]);
        }
        let s = &sources[i];
        if s.authenticated && protocol_and_url(s.id.as_str(), urls).is_some() {
            put_models(&mut r, &s.models, label(s.name.as_str()).as_str());
        }
        i += 1;
    }
    assert(sources@.take(i as int) =~= sources@);
    r
}

// ---------------------------------------------------------------------------
// Laws
// ---------------------------------------------------------------------------

/// Providers without a key of their own are never told, nor are those that nobody
/// has signed in to, and those without models.
pub proof fn law_only_keyed_providers_are_told(
    sources: Seq<ByokSource>,
    urls: ProviderUrls,
    i: int,
)
    requires
        0 <= i < entries_of(sources, urls).len(),
    ensures
        ({
            let e = entries_of(sources, urls)[i];
            &&& protocol_of(e.id) == Some(e.protocol)
            &&& url_of(e.id, urls) == Some(e.base_url)
            &&& e.models.len() > 0
            &&& e.id != "vibedev"@ && e.id != "bedrock"@ && e.id != "zed.dev"@
            &&& exists|j: int|
                0 <= j < sources.len() && (#[trigger] sources[j]).authenticated && entry_of(
                    sources[j],
                    urls,
                ) == Some(e)
        }),
    decreases sources.len(),
{
    let front = sources.drop_last();
    let rest = entries_of(front, urls);
    let e = entries_of(sources, urls)[i];
    if i < rest.len() {
        law_only_keyed_providers_are_told(front, urls, i);
        let j = choose|j: int|
            0 <= j < front.len() && (#[trigger] front[j]).authenticated && entry_of(
                front[j],
                urls,
            ) == Some(e);
        assert(sources[j] == front[j]);
    } else {
        assert(sources[sources.len() - 1] == sources.last());
    }
}

proof fn lemma_with_models(
    m: Map<Seq<char>, Seq<char>>,
    models: Seq<Seq<char>>,
    label: Seq<char>,
    n: int,
    id: Seq<char>,
)
    requires
        0 <= n <= models.len(),
    ensures
        with_models(m, models, label, n).contains_key(id) <==> m.contains_key(id)
            || models.take(n).contains(id),
        models.take(n).contains(id) ==> with_models(m, models, label, n)[id] == label,
        !models.take(n).contains(id) && m.contains_key(id) ==> with_models(
            m,
            models,
            label,
            n,
        )[id] == m[id],
    decreases n,
{
    if n > 0 {
        lemma_with_models(m, models, label, n - 1, id);
        let a = models.take(n - 1);
        let b = models.take(n);
        assert(b =~= a.push(models[n - 1]));
        if a.contains(id) {
            let k = choose|k: int| 0 <= k < a.len() && a[k] == id;
            assert(b[k] == id);
        }
        if models[n - 1] == id {
            assert(b[n - 1] == id);
        }
        if b.contains(id) && models[n - 1] != id {
            let k = choose|k: int| 0 <= k < b.len() && b[k] == id;
            assert(a[k] == id);
        }
    }
}

/// Every model of a provider that the agent is told of has a label.
pub proof fn law_told_models_are_grouped(
    sources: Seq<ByokSource>,
    urls: ProviderUrls,
    i: int,
    model: Seq<char>,
)
    requires
        0 <= i < entries_of(sources, urls).len(),
        entries_of(sources, urls)[i].models.contains(model),
    ensures
        groups_of(sources, urls).contains_key(model),
    decreases sources.len(),
{
    let rest = entries_of(sources.drop_last(), urls);
    let s = sources.last();
    let models = lists::texts(s.models@);
    if i < rest.len() {
        law_told_models_are_grouped(sources.drop_last(), urls, i, model);
    }
    if s.authenticated && route_of(s.id@, urls) is Some {
        lemma_with_models(
            groups_of(sources.drop_last(), urls),
            models,
            label_of(s.name@),
            s.models@.len() as int,
            model,
        );
        assert(models.take(s.models@.len() as int) =~= models);
    }
}

proof fn lemma_ids_differ()
    ensures
        forall|a: Seq<char>, b: Seq<char>| a.len() != b.len() ==> a != b,
        "anthropic"@.len() == 9,
        "google"@.len() == 6,
        "openai"@.len() == 6,
        "deepseek"@.len() == 8,
        "mistral"@.len() == 7,
        "ollama"@.len() == 6,
        "lmstudio"@.len() == 8,
        "open_router"@.len() == 11,
        "x_ai"@.len() == 4,
        "vercel.ai_gateway"@.len() == 17,
        "vibedev"@.len() == 7,
        "bedrock"@.len() == 7,
        "zed.dev"@.len() == 7,
        "google"@ != "openai"@,
        "google"@ != "ollama"@,
        "openai"@ != "ollama"@,
        "deepseek"@ != "lmstudio"@,
        "mistral"@ != "vibedev"@,
        "mistral"@ != "bedrock"@,
        "mistral"@ != "zed.dev"@,
{
    reveal_strlit("anthropic");
    reveal_strlit("google");
    reveal_strlit("openai");
    reveal_strlit("deepseek");
    reveal_strlit("mistral");
    reveal_strlit("ollama");
    reveal_strlit("lmstudio");
    reveal_strlit("open_router");
    reveal_strlit("x_ai");
    reveal_strlit("vercel.ai_gateway");
    reveal_strlit("vibedev");
    reveal_strlit("bedrock");
    reveal_strlit("zed.dev");
    assert("google"@[0] == 'g' && "openai"@[0] == 'o' && "ollama"@[0] == 'o');
    assert("openai"@[1] == 'p' && "ollama"@[1] == 'l');
    assert("deepseek"@[0] == 'd' && "lmstudio"@[0] == 'l');
    assert("mistral"@[0] == 'm' && "vibedev"@[0] == 'v' && "bedrock"@[0] == 'b' && "zed.dev"@[0]
        == 'z');
}

/// Each built-in provider is reached at the address that its own setting holds, and spoken
/// to in its own way.
pub proof fn law_each_provider_has_its_own_address(s: ProviderUrls)
    ensures
        route_of("anthropic"@, s) == Some(("anthropic"@, s.anthropic@)),
        route_of("google"@, s) == Some(("gemini"@, s.google@)),
        route_of("openai"@, s) == Some(("openai"@, s.openai@)),
        route_of("deepseek"@, s) == Some(("openai"@, s.deepseek@)),
        route_of("mistral"@, s) == Some(("openai"@, s.mistral@)),
        route_of("ollama"@, s) == Some(("openai"@, s.ollama@)),
        route_of("lmstudio"@, s) == Some(("openai"@, s.lmstudio@)),
        route_of("open_router"@, s) == Some(("openai"@, s.open_router@)),
        route_of("x_ai"@, s) == Some(("openai"@, s.x_ai@)),
        route_of("vercel.ai_gateway"@, s) == Some(("openai"@, s.vercel_ai_gateway@)),
        route_of("vibedev"@, s) is None,
        route_of("bedrock"@, s) is None,
        route_of("zed.dev"@, s) is None,
{
    lemma_ids_differ();
}

/// Any other provider is one that speaks as OpenAI does, reached at the address that the
/// user has added under its id; one without such an address is not told of.
pub proof fn law_added_provider_has_the_address_of_its_id(id: Seq<char>, s: ProviderUrls)
    requires
        id != "anthropic"@ && id != "google"@ && id != "openai"@ && id != "deepseek"@ && id
            != "mistral"@ && id != "ollama"@ && id != "lmstudio"@ && id != "open_router"@ && id
            != "x_ai"@ && id != "vercel.ai_gateway"@,
        id != "vibedev"@ && id != "bedrock"@ && id != "zed.dev"@,
    ensures
        s.openai_compatible@.contains_key(id) ==> route_of(id, s) == Some(
            ("openai"@, s.openai_compatible@[id]@),
        ),
        !s.openai_compatible@.contains_key(id) ==> route_of(id, s) is None,
{
}

/// What the agent is told of a provider is what the provider says of itself: its id, its
/// models, its name marked as the user's own, with the way to it, and no key yet.
pub proof fn law_told_providers_speak_for_themselves(
    sources: Seq<ByokSource>,
    urls: ProviderUrls,
    i: int,
)
    requires
        0 <= i < entries_of(sources, urls).len(),
    ensures
        exists|j: int|
            0 <= j < sources.len() && ({
                let e = entries_of(sources, urls)[i];
                let s = #[trigger] sources[j];
                &&& e.id == s.id@
                &&& e.label == s.name@ + "（你的 Key）"@
                &&& route_of(s.id@, urls) == Some((e.protocol, e.base_url))
                &&& e.models == Seq::new(s.models@.len(), |k: int| s.models@[k]@)
                &&& e.models.len() > 0
                &&& e.api_key.len() == 0
                &&& s.authenticated
            }),
{
    law_only_keyed_providers_are_told(sources, urls, i);
    let e = entries_of(sources, urls)[i];
    let j = choose|j: int|
        0 <= j < sources.len() && (#[trigger] sources[j]).authenticated && entry_of(
            sources[j],
            urls,
        ) == Some(e);
    let s = sources[j];
    assert(e.models =~= Seq::new(s.models@.len(), |k: int| s.models@[k]@));
}

/// The agent is told of every provider that somebody is signed in to, that has models and
/// that there is a way to, in the order of the providers.
pub proof fn law_signed_in_providers_are_told(
    sources: Seq<ByokSource>,
    urls: ProviderUrls,
    more: Seq<ByokSource>,
    s: ByokSource,
)
    ensures
        ({
            let told = entries_of(sources.push(s), urls);
            let before = entries_of(sources, urls);
            if s.authenticated && s.models@.len() > 0 && route_of(s.id@, urls) is Some {
                told.drop_last() == before && told.len() == before.len() + 1 && told.last().id
                    == s.id@
            } else {
                told == before
            }
        }),
        entries_of(sources + more, urls) == entries_of(sources, urls) + entries_of(more, urls),
    decreases more.len(),
{
    assert(sources.push(s).drop_last() =~= sources);
    let told = entries_of(sources.push(s), urls);
    if entry_of(s, urls) is Some {
        assert(told.drop_last() =~= entries_of(sources, urls));
    }
    if more.len() == 0 {
        assert(sources + more =~= sources);
        assert(entries_of(sources, urls) + entries_of(more, urls) =~= entries_of(sources, urls));
    } else {
        let all = sources + more;
        assert(all.drop_last() =~= sources + more.drop_last());
        assert(all.last() == more.last());
        law_signed_in_providers_are_told(sources, urls, more.drop_last(), s);
        assert(entries_of(all, urls) =~= entries_of(sources, urls) + entries_of(more, urls));
    }
}

/// Keys go to the providers in their order, and change nothing else of them: one whose key
/// could not be read has an empty one.
pub proof fn law_keys_go_to_their_providers(
    v: Seq<ByokModel>,
    keys: Seq<Option<String>>,
    i: int,
)
    requires
        0 <= i < v.len(),
    ensures
        with_keys(v, keys).len() == v.len(),
        ({
            let e = with_keys(v, keys)[i];
            &&& e.id == v[i].id && e.label == v[i].label && e.protocol == v[i].protocol
            &&& e.base_url == v[i].base_url && e.models == v[i].models
            &&& i < keys.len() && keys[i] is Some ==> e.api_key == (keys[i]->0)@
            &&& i >= keys.len() || keys[i] is None ==> e.api_key.len() == 0
        }),
{
}

/// A provider is to be authenticated exactly where nobody is signed in to it and it has a
/// key of its own.
pub proof fn law_unloaded_providers_are_authenticated(sources: Seq<ByokSource>, s: ByokSource)
    ensures
        ({
            let all = unloaded(sources.push(s));
            if !s.authenticated && s.id@ != "vibedev"@ && s.id@ != "bedrock"@ && s.id@
                != "zed.dev"@ {
                all == unloaded(sources).push(s.id@)
            } else {
                all == unloaded(sources)
            }
        }),
        unloaded(Seq::empty()).len() == 0,
{
    assert(sources.push(s).drop_last() =~= sources);
}

/// A model stands under the name of the last provider that has it, of those that somebody
/// is signed in to and that there is a way to; the others add nothing.
pub proof fn law_models_stand_under_their_provider(
    sources: Seq<ByokSource>,
    urls: ProviderUrls,
    s: ByokSource,
    model: Seq<char>,
)
    ensures
        ({
            let before = groups_of(sources, urls);
            let after = groups_of(sources.push(s), urls);
            let has = exists|k: int| 0 <= k < s.models@.len() && (#[trigger] s.models@[k])@ == model;
            if s.authenticated && route_of(s.id@, urls) is Some && has {
                after.contains_key(model) && after[model] == s.name@ + "（你的 Key）"@
            } else {
                (after.contains_key(model) <==> before.contains_key(model)) && (
                before.contains_key(model) ==> after[model] == before[model])
            }
        }),
{
    assert(sources.push(s).drop_last() =~= sources);
    let models = lists::texts(s.models@);
    let n = s.models@.len() as int;
    let has = exists|k: int| 0 <= k < s.models@.len() && (#[trigger] s.models@[k])@ == model;
    lemma_with_models(groups_of(sources, urls), models, label_of(s.name@), n, model);
    assert(models.take(n) =~= models);
    if has {
        let k = choose|k: int| 0 <= k < s.models@.len() && (#[trigger] s.models@[k])@ == model;
        assert(models[k] == model);
    }
    if models.contains(model) {
        let k = choose|k: int| 0 <= k < models.len() && models[k] == model;
        assert(s.models@[k]@ == model);
    }
}

} // verus!
