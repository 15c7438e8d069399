//! The account service: requests to the loopback sidecar, what its replies say,
//! and what the signed-in state on disk holds.

use vstd::prelude::*;
use vstd::string::*;

use crate::json;
use crate::json::Json;
use crate::lists;
use crate::text;

verus! {

/// How often the account panel asks for a fresh snapshot.
pub const ACCOUNT_POLL_SECS: u64 = 20;

/// The settings layer of the user, as the sidecar names it.
pub const PROVIDERS_SOURCE_USER: &'static str = "userSettings";

/// The handshake of the sidecar: its loopback port and the bearer token of this
/// launch.
#[derive(Debug, PartialEq, Eq)]
pub struct Endpoint {
    pub port: u16,
    pub token: String,
}

/// The loopback address of a port and a path.
pub open spec fn loopback(port: u16, path: Seq<char>) -> Seq<char> {
    "http://127.0.0.1:"@ + text::decimal_of(port as nat) + path
}

/// The address of `path` on the loopback port.
pub fn loopback_url(port: u16, path: &str) -> (r: String)
    ensures
        r@ == loopback(port, path@),
{
    let mut s = text::join("http://127.0.0.1:", text::decimal(port as u64).as_str());
    s.append(path);
    s
}

/// The address of `path` on the sidecar.
pub fn sidecar_url(endpoint: &Endpoint, path: &str) -> (r: String)
    ensures
        r@ == loopback(endpoint.port, path@),
{
    loopback_url(endpoint.port, path)
}

/// Whether an HTTP status reports success.
pub fn is_success(status: u16) -> (r: bool)
    ensures
        r == (200 <= status < 300),
{
    200 <= status && status < 300
}

// ---------------------------------------------------------------------------
// Requests
// ---------------------------------------------------------------------------

#[derive(Clone, Copy, Debug, PartialEq, Eq, Structural)]
pub enum Method {
    Get,
    Post,
}

/// An HTTP request, as it is to be sent.
#[derive(Debug, PartialEq, Eq)]
pub struct HttpRequest {
    pub method: Method,
    pub url: String,
    pub headers: Vec<(String, String)>,
    pub body: String,
}

/// A header has this name and this value.
pub open spec fn is_header(h: (String, String), name: Seq<char>, value: Seq<char>) -> bool {
    h.0@ == name && h.1@ == value
}

/// The request carries exactly the bearer token.
pub open spec fn bears(r: HttpRequest, token: Seq<char>) -> bool {
    r.headers@.len() >= 1 && is_header(r.headers@[0], "Authorization"@, "Bearer "@ + token)
}

/// A GET request to the sidecar with the launch's bearer token.
pub fn authed_get(endpoint: &Endpoint, path: &str) -> (r: HttpRequest)
    ensures
        r.method == Method::Get,
        r.url@ == loopback(endpoint.port, path@),
        r.headers@.len() == 1,
        bears(r, endpoint.token@),
        r.body@ == Seq::<char>::empty(),
{
    let token = text::join("Bearer ", endpoint.token.as_str());
    HttpRequest {
        method: Method::Get,
        url: sidecar_url(endpoint, path),
        headers: vec![("Authorization".to_owned(), token)],
        body: String::new(),
    }
}

/// A POST request to the sidecar with the launch's bearer token and a JSON body.
pub fn authed_post_json(endpoint: &Endpoint, path: &str, json_body: String) -> (r: HttpRequest)
    ensures
        r.method == Method::Post,
        r.url@ == loopback(endpoint.port, path@),
        r.headers@.len() == 2,
        bears(r, endpoint.token@),
        is_header(r.headers@[1], "Content-Type"@, "application/json"@),
        r.body@ == json_body@,
{
    let token = text::join("Bearer ", endpoint.token.as_str());
    HttpRequest {
        method: Method::Post,
        url: sidecar_url(endpoint, path),
        headers: vec![
            ("Authorization".to_owned(), token),
            ("Content-Type".to_owned(), "application/json".to_owned()),
        ],
        body: json_body,
    }
}

/// What `serde_json::to_string` writes for a text: a JSON string literal.
pub uninterp spec fn quoted(s: Seq<char>) -> Seq<char>;

/// The text stands for itself in a JSON string literal: it holds no quotation mark, no
/// backslash and no control character.
pub open spec fn needs_no_escape(s: Seq<char>) -> bool {
    forall|i: int|
        0 <= i < s.len() ==> (#[trigger] s[i]) as u32 >= 32 && s[i] != '"' && s[i] != '\\'
}

/// `serde_json::to_string` of a `str`: the JSON string literal that denotes it. How
/// characters are escaped is left to the crate; a text that needs no escape is put
/// between quotation marks.
#[verifier::external_body]
fn quote(s: &str) -> (r: String)
    ensures
        r@ == quoted(s@),
        needs_no_escape(s@) ==> r@ == seq!['"'] + s@ + seq!['"'],
{
    serde_json::to_string(s).unwrap_or_default()
}

/// The body that relays a login payload: an object with the one key `payload`.
pub fn callback_body(payload: &str) -> (r: String)
    ensures
        r@ == "{\"payload\":"@ + quoted(payload@) + "}"@,
        needs_no_escape(payload@) ==> r@ == "{\"payload\":"@ + (seq!['"'] + payload@ + seq![
            '"',
        ]) + "}"@,
{
    let mut s = text::join("{\"payload\":", quote(payload).as_str());
    s.append("}");
    s
}

/// Asks for the account snapshot.
pub fn fetch_account(endpoint: &Endpoint) -> (r: HttpRequest)
    ensures
        r.method == Method::Get,
        r.url@ == loopback(endpoint.port, "/vibedev/account"@),
        r.headers@.len() == 1,
        bears(r, endpoint.token@),
        r.body@ == Seq::<char>::empty(),
{
    authed_get(endpoint, "/vibedev/account")
}

/// Asks for the provider configuration.
pub fn fetch_providers(endpoint: &Endpoint) -> (r: HttpRequest)
    ensures
        r.method == Method::Get,
        r.url@ == loopback(endpoint.port, "/vibedev/providers"@),
        r.headers@.len() == 1,
        bears(r, endpoint.token@),
        r.body@ == Seq::<char>::empty(),
{
    authed_get(endpoint, "/vibedev/providers")
}

/// Hands over a changed provider configuration.
pub fn save_providers(endpoint: &Endpoint, json_body: String) -> (r: HttpRequest)
    ensures
        r.method == Method::Post,
        r.url@ == loopback(endpoint.port, "/vibedev/providers"@),
        bears(r, endpoint.token@),
        r.headers@.len() == 2,
        is_header(r.headers@[1], "Content-Type"@, "application/json"@),
        r.body@ == json_body@,
{
    authed_post_json(endpoint, "/vibedev/providers", json_body)
}

/// Begins a login.
pub fn start_login(endpoint: &Endpoint) -> (r: HttpRequest)
    ensures
        r.method == Method::Post,
        r.url@ == loopback(endpoint.port, "/vibedev/login/start"@),
        bears(r, endpoint.token@),
        r.headers@.len() == 2,
        is_header(r.headers@[1], "Content-Type"@, "application/json"@),
        r.body@ == "{}"@,
{
    authed_post_json(endpoint, "/vibedev/login/start", "{}".to_owned())
}

/// Hands over the payload of a login callback.
pub fn relay_login_callback(endpoint: &Endpoint, payload: &str) -> (r: HttpRequest)
    ensures
        r.method == Method::Post,
        r.url@ == loopback(endpoint.port, "/vibedev/login/callback"@),
        bears(r, endpoint.token@),
        r.headers@.len() == 2,
        is_header(r.headers@[1], "Content-Type"@, "application/json"@),
        r.body@ == "{\"payload\":"@ + quoted(payload@) + "}"@,
        needs_no_escape(payload@) ==> r.body@ == "{\"payload\":"@ + (seq!['"'] + payload@ + seq![
            '"',
        ]) + "}"@,
{
    authed_post_json(endpoint, "/vibedev/login/callback", callback_body(payload))
}

/// Drops the stored key.
pub fn sign_out(endpoint: &Endpoint) -> (r: HttpRequest)
    ensures
        r.method == Method::Post,
        r.url@ == loopback(endpoint.port, "/vibedev/logout"@),
        bears(r, endpoint.token@),
        r.headers@.len() == 2,
        is_header(r.headers@[1], "Content-Type"@, "application/json"@),
        r.body@ == "{}"@,
{
    authed_post_json(endpoint, "/vibedev/logout", "{}".to_owned())
}

/// Has the model catalog fetched anew.
pub fn refresh_models(endpoint: &Endpoint) -> (r: HttpRequest)
    ensures
        r.method == Method::Post,
        r.url@ == loopback(endpoint.port, "/vibedev/models/refresh"@),
        bears(r, endpoint.token@),
        r.headers@.len() == 2,
        is_header(r.headers@[1], "Content-Type"@, "application/json"@),
        r.body@ == "{}"@,
{
    authed_post_json(endpoint, "/vibedev/models/refresh", "{}".to_owned())
}

// ---------------------------------------------------------------------------
// Replies
// ---------------------------------------------------------------------------

/// Why a reply of the sidecar is no success.
#[derive(Debug, PartialEq, Eq)]
pub enum ReplyError {
    /// The body is not JSON; the text says what is wrong with it.
    NotJson(String),
    /// The body does not say `"ok": true`.
    Rejected,
    /// The body holds no `login_url`, or an empty one.
    MissingLoginUrl,
}

/// The reply says that the request was carried out.
pub open spec fn says_ok(reply: json::JsonModel) -> bool {
    reply.field("ok"@) == Some(json::JsonModel::Bool(true))
}

fn accepted(reply: &Json) -> (r: bool)
    ensures
        r == says_ok(reply@),
{
    match reply.get("ok") {
        Some(v) => match v.as_bool() {
            Some(b) => b,
            None => false,
        },
        None => false,
    }
}

/// What a parsed reply to the start of a login gives: the address to open.
pub fn login_url(reply: &Json) -> (r: Result<String, ReplyError>)
    ensures
        match r {
            Ok(url) => url@.len() > 0 && reply@.text_field("login_url"@) == Some(url@),
            Err(e) => e == ReplyError::MissingLoginUrl && (reply@.text_field("login_url"@) is None
                || (reply@.text_field("login_url"@)->0).len() == 0),
        },
{
    match reply.get_str("login_url") {
        Some(url) => if url.is_empty() {
            Err(ReplyError::MissingLoginUrl)
        } else {
            Ok(url.to_owned())
        },
        None => Err(ReplyError::MissingLoginUrl),
    }
}

/// The address to open, from the body of the reply to the start of a login.
pub fn login_url_from(body: &str) -> (r: Result<String, ReplyError>)
    ensures
        match json::parsed(body@) {
            None => r matches Err(ReplyError::NotJson(words)) && words@ == json::complaint(body@),
            Some(reply) => match r {
                Ok(url) => url@.len() > 0 && reply.text_field("login_url"@) == Some(url@),
                Err(e) => e == ReplyError::MissingLoginUrl && (reply.text_field(
                    "login_url"@,
                ) is None || (reply.text_field("login_url"@)->0).len() == 0),
            },
        },
{
    match Json::parse_strictly(body) {
        Ok(reply) => login_url(&reply),
        Err(complaint) => Err(ReplyError::NotJson(complaint)),
    }
}

/// What a parsed reply to a relayed callback gives: the verified email, if any.
pub fn callback_email(reply: &Json) -> (r: Result<Option<String>, ReplyError>)
    ensures
        if says_ok(reply@) {
            r is Ok && lists::text_of(r->Ok_0) == reply@.text_field("email"@)
        } else {
            r == Err::<Option<String>, ReplyError>(ReplyError::Rejected)
        },
{
    if !accepted(reply) {
        return Err(ReplyError::Rejected);
    }
    match reply.get_str("email") {
        Some(email) => Ok(Some(email.to_owned())),
        None => Ok(None),
    }
}

/// The verified email, from the body of the reply to a relayed callback.
pub fn callback_email_from(body: &str) -> (r: Result<Option<String>, ReplyError>)
    ensures
        match json::parsed(body@) {
            None => r matches Err(ReplyError::NotJson(words)) && words@ == json::complaint(body@),
            Some(reply) => if says_ok(reply) {
                r is Ok && lists::text_of(r->Ok_0) == reply.text_field("email"@)
            } else {
                r == Err::<Option<String>, ReplyError>(ReplyError::Rejected)
            },
        },
{
    match Json::parse_strictly(body) {
        Ok(reply) => callback_email(&reply),
        Err(complaint) => Err(ReplyError::NotJson(complaint)),
    }
}

/// Whether a sign-out was carried out.
pub fn sign_out_from(body: &str) -> (r: Result<(), ReplyError>)
    ensures
        match json::parsed(body@) {
            None => r matches Err(ReplyError::NotJson(words)) && words@ == json::complaint(body@),
            Some(reply) => r == (if says_ok(reply) {
                Ok::<(), ReplyError>(())
            } else {
                Err(ReplyError::Rejected)
            }),
        },
{
    match Json::parse_strictly(body) {
        Ok(reply) => if accepted(&reply) {
            Ok(())
        } else {
            Err(ReplyError::Rejected)
        },
        Err(complaint) => Err(ReplyError::NotJson(complaint)),
    }
}

/// How many models a reply reports: none where it gives no count.
pub open spec fn model_count(reply: json::JsonModel) -> nat {
    match reply.field("model_count"@) {
        Some(v) => match v.unsigned() {
            Some(n) => n,
            None => 0,
        },
        None => 0,
    }
}

/// What a parsed reply to a refresh of the models gives: how many there are.
pub fn refreshed_count(reply: &Json) -> (r: Result<u64, ReplyError>)
    ensures
        if says_ok(reply@) {
            r is Ok && r->Ok_0 == model_count(reply@)
        } else {
            r == Err::<u64, ReplyError>(ReplyError::Rejected)
        },
{
    if !accepted(reply) {
        return Err(ReplyError::Rejected);
    }
    match reply.get("model_count") {
        Some(v) => match v.as_u64() {
            Some(n) => Ok(n),
            None => Ok(0),
        },
        None => Ok(0),
    }
}

/// How many models there are, from the body of the reply to a refresh.
pub fn refreshed_count_from(body: &str) -> (r: Result<u64, ReplyError>)
    ensures
        match json::parsed(body@) {
            None => r matches Err(ReplyError::NotJson(words)) && words@ == json::complaint(body@),
            Some(reply) => if says_ok(reply) {
                r is Ok && r->Ok_0 == model_count(reply)
            } else {
                r == Err::<u64, ReplyError>(ReplyError::Rejected)
            },
        },
{
    match Json::parse_strictly(body) {
        Ok(reply) => refreshed_count(&reply),
        Err(complaint) => Err(ReplyError::NotJson(complaint)),
    }
}

// ---------------------------------------------------------------------------
// The signed-in state on disk
// ---------------------------------------------------------------------------

/// The id of a model entry: the text under `id`, else the entry itself if it is
/// a text.
pub open spec fn model_id(entry: json::JsonModel) -> Option<Seq<char>> {
    match entry.text_field("id"@) {
        Some(id) => Some(id),
        None => entry.text(),
    }
}

/// The non-empty ids of the first `n` entries, in order.
pub open spec fn model_ids(entries: Seq<json::JsonModel>, n: int) -> Seq<Seq<char>>
    decreases n,
{
    if n <= 0 || n > entries.len() {
        Seq::empty()
    } else {
        let front = model_ids(entries, n - 1);
        match model_id(entries[n - 1]) {
            Some(id) => if id.len() > 0 {
                front.push(id)
            } else {
                front
            },
            None => front,
        }
    }
}

/// The ids under `available_models`, none where that is no array.
pub open spec fn available_ids(state: json::JsonModel) -> Seq<Seq<char>> {
    match state.field("available_models"@) {
        Some(v) => match v.elements() {
            Some(entries) => model_ids(entries, entries.len() as int),
            None => Seq::empty(),
        },
        None => Seq::empty(),
    }
}

fn id_of(entry: &Json) -> (r: Option<String>)
    ensures
        lists::text_of(r) == model_id(entry@),
{
    match entry.get_str("id") {
        Some(id) => Some(id.to_owned()),
        None => match entry.as_str() {
            Some(id) => Some(id.to_owned()),
            None => None,
        },
    }
}

/// The model ids that the parsed signed-in state lists.
pub fn available_model_ids(state: &Json) -> (r: Vec<String>)
    ensures
        lists::texts(r@) == available_ids(state@),
{
    let mut out: Vec<String> = Vec::new();
    assert(lists::texts(out@) =~= Seq::empty());
    let entries = match state.get("available_models") {
        Some(v) => match v.as_array() {
            Some(entries) => entries,
            None => return out,
        },
        None => return out,
    };
    let ghost all = json::elements_model(entries@);
    proof {
        json::lemma_elements(entries@);
    }
    let mut i: usize = 0;
    while i < entries.len()
        invariant
            i <= entries.len(),
            all == json::elements_model(entries@),
            all.len() == entries.len(),
            forall|k: int| 0 <= k < entries.len() ==> #[trigger] all[k] == entries@[k].model(),
            lists::texts(out@) == model_ids(all, i as int),
        decreases entries.len() - i,
    {
        let ghost before = out@;
        assert(all[i as int] == entries@[i as int]@);
        if let Some(id) = id_of(&entries[i]) {
            if !id.as_str().is_empty() {
                let ghost t = id@;
                out.push(id);
                assert(lists::texts(out@) =~= lists::texts(before).push(t));
            }
        }
        i += 1;
    }
    out
}

/// The model ids that the text of the signed-in state lists; none where the text
/// is not JSON.
pub fn read_cached_available_model_ids(raw: &str) -> (r: Vec<String>)
    ensures
        match json::parsed(raw@) {
            Some(state) => lists::texts(r@) == available_ids(state),
            None => r@.len() == 0,
        },
{
    match Json::parse(raw) {
        Some(state) => available_model_ids(&state),
        None => Vec::new(),
    }
}

/// The gateway's key and address, where both are texts and neither is empty.
pub open spec fn credentials(state: json::JsonModel) -> Option<(Seq<char>, Seq<char>)> {
    match (state.text_field("api_key"@), state.text_field("proxy_url"@)) {
        (Some(key), Some(url)) => if key.len() == 0 || url.len() == 0 {
            None
        } else {
            Some((key, url))
        },
        _ => None,
    }
}

pub open spec fn pair_of(p: Option<(String, String)>) -> Option<(Seq<char>, Seq<char>)> {
    match p {
        Some((a, b)) => Some((a@, b@)),
        None => None,
    }
}

/// The gateway credentials that the parsed signed-in state holds.
pub fn gateway_credentials(state: &Json) -> (r: Option<(String, String)>)
    ensures
        pair_of(r) == credentials(state@),
{
    let key = match state.get_str("api_key") {
        Some(s) => s,
        None => return None,
    };
    let url = match state.get_str("proxy_url") {
        Some(s) => s,
        None => return None,
    };
    if key.is_empty() || url.is_empty() {
        return None;
    }
    Some((key.to_owned(), url.to_owned()))
}

/// The gateway credentials that the text of the signed-in state holds.
pub fn local_gateway_credentials(raw: &str) -> (r: Option<(String, String)>)
    ensures
        pair_of(r) == (match json::parsed(raw@) {
            Some(state) => credentials(state),
            None => None,
        }),
{
    match Json::parse(raw) {
        Some(state) => gateway_credentials(&state),
        None => None,
    }
}

/// The text of the signed-in state as it stands, unless it is blank.
pub fn local_auth_json_raw(raw: &str) -> (r: Option<String>)
    ensures
        lists::text_of(r) == (if text::trimmed(raw@).len() == 0 {
            None
        } else {
            Some(raw@)
        }),
{
    if text::trim(raw).as_str().is_empty() {
        None
    } else {
        Some(raw.to_owned())
    }
}

/// The files of a handshake.
pub open spec fn handshake_files() -> Seq<Seq<char>> {
    seq!["endpoint.json"@, "sidecar.lock"@, "refs"@]
}

/// The files to delete at launch: those of a handshake that is recorded, where nothing
/// answers any more at its port.
pub fn clear_stale_handshake(recorded: bool, answers: bool) -> (r: Vec<String>)
    ensures
        lists::texts(r@) == (if recorded && !answers {
            handshake_files()
        } else {
            Seq::empty()
        }),
{
    let mut r: Vec<String> = Vec::new();
    if recorded && !answers {
        r = vec!["endpoint.json".to_owned(), "sidecar.lock".to_owned(), "refs".to_owned()];
        assert(lists::texts(r@) =~= handshake_files());
    } else {
        assert(lists::texts(r@) =~= Seq::empty());
    }
    r
}

/// The account's models: those that the sidecar reports, or the cached ones where
/// it reports none.
pub fn models_or_cached(reported: Vec<String>, cached: Vec<String>) -> (r: Vec<String>)
    ensures
        r@ == (if reported@.len() == 0 {
            cached@
        } else {
            reported@
        }),
{
    if reported.len() == 0 {
        cached
    } else {
        reported
    }
}

// ---------------------------------------------------------------------------
// Laws
// ---------------------------------------------------------------------------

/// The ids of the models are told in the order of their entries: an entry that is an object
/// by its `id`, one that is a text by itself, and those without an id not at all.
pub proof fn law_models_are_told_by_their_ids(
    state: json::JsonModel,
    entries: Seq<json::JsonModel>,
    entry: json::JsonModel,
    id: Seq<char>,
)
    requires
        state.field("available_models"@) == Some(json::JsonModel::Array(entries.push(entry))),
    ensures
        ({
            let before = model_ids(entries, entries.len() as int);
            let after = available_ids(state);
            &&& id.len() > 0 && entry.field("id"@) == Some(json::JsonModel::Str(id)) ==> after
                == before.push(id)
            &&& id.len() > 0 && entry == json::JsonModel::Str(id) ==> after == before.push(id)
            &&& entry.field("id"@) == Some(json::JsonModel::Str(Seq::empty())) ==> after == before
            &&& entry == json::JsonModel::Str(Seq::empty()) ==> after == before
            &&& !(entry is Object) && !(entry is Str) ==> after == before
            &&& entry is Object && entry.field("id"@) is None ==> after == before
        }),
{
    let all = entries.push(entry);
    lemma_front_ids(all, entries, entries.len() as int);
    assert(all[entries.len() as int] == entry);
    assert(model_ids(all, entries.len() as int) == model_ids(entries, entries.len() as int));
}

proof fn lemma_front_ids(all: Seq<json::JsonModel>, front: Seq<json::JsonModel>, n: int)
    requires
        0 <= n <= front.len() < all.len(),
        forall|i: int| 0 <= i < front.len() ==> all[i] == #[trigger] front[i],
    ensures
        model_ids(all, n) == model_ids(front, n),
    decreases n,
{
    if n > 0 {
        lemma_front_ids(all, front, n - 1);
        assert(all[n - 1] == front[n - 1]);
    }
}

/// No models are told where the state lists none.
pub proof fn law_no_list_no_models(state: json::JsonModel)
    ensures
        state.field("available_models"@) is None ==> available_ids(state).len() == 0,
        (state.field("available_models"@) matches Some(v) && !(v is Array)) ==> available_ids(
            state,
        ).len() == 0,
{
}

/// The gateway is reached with the key and at the address that the state holds, where both
/// are texts that are not empty.
pub proof fn law_credentials_need_key_and_address(
    state: json::JsonModel,
    key: Seq<char>,
    url: Seq<char>,
)
    ensures
        state.field("api_key"@) == Some(json::JsonModel::Str(key)) && state.field("proxy_url"@)
            == Some(json::JsonModel::Str(url)) && key.len() > 0 && url.len() > 0 ==> credentials(
            state,
        ) == Some((key, url)),
        state.field("api_key"@) is None || state.field("proxy_url"@) is None ==> credentials(state)
            is None,
        state.field("api_key"@) == Some(json::JsonModel::Str(Seq::empty())) ==> credentials(state)
            is None,
        state.field("proxy_url"@) == Some(json::JsonModel::Str(Seq::empty())) ==> credentials(
            state,
        ) is None,
        (state.field("api_key"@) matches Some(v) && !(v is Str)) ==> credentials(state) is None,
        (state.field("proxy_url"@) matches Some(v) && !(v is Str)) ==> credentials(state) is None,
{
}

/// A request goes to this machine, to the port of the sidecar.
pub proof fn law_requests_stay_on_this_machine(port: u16, path: Seq<char>)
    ensures
        loopback(port, path) == "http://127.0.0.1:"@ + text::decimal_of(port as nat) + path,
        text::begins_with(loopback(port, path), "http://127.0.0.1:"@),
        text::ends_with(loopback(port, path), path),
{
    let s = loopback(port, path);
    let head = "http://127.0.0.1:"@;
    assert(s.take(head.len() as int) =~= head);
    assert(s.skip(s.len() - path.len()) =~= path);
}

/// A reply is a success only where it says so outright, and the models that it reports are
/// counted as it counts them.
pub proof fn law_replies_say_so(reply: json::JsonModel, n: nat)
    ensures
        reply.field("ok"@) == Some(json::JsonModel::Bool(true)) ==> says_ok(reply),
        reply.field("ok"@) == Some(json::JsonModel::Bool(false)) ==> !says_ok(reply),
        reply.field("ok"@) is None ==> !says_ok(reply),
        (reply.field("ok"@) matches Some(v) && !(v is Bool)) ==> !says_ok(reply),
        n <= u64::MAX && reply.field("model_count"@) == Some(
            json::JsonModel::Number(text::decimal_of(n)),
        ) ==> model_count(reply) == n,
        reply.field("model_count"@) is None ==> model_count(reply) == 0,
{
    if n <= u64::MAX {
        text::law_decimal_is_read_back(n, u64::MAX as nat);
    }
}

/// A handshake that nobody answers for any more is cleared away whole.
pub proof fn law_handshake_is_cleared_whole()
    ensures
        handshake_files().contains("endpoint.json"@),
        handshake_files().contains("sidecar.lock"@),
        handshake_files().contains("refs"@),
        handshake_files().len() == 3,
{
    let f = handshake_files();
    assert(f[0] == "endpoint.json"@ && f[1] == "sidecar.lock"@ && f[2] == "refs"@);
}

/// A request to the gateway says in its first header who asks.
pub proof fn law_requests_bear_the_token(r: HttpRequest, token: Seq<char>, h: (String, String))
    ensures
        bears(r, token) ==> r.headers@.len() > 0 && r.headers@[0].0@ == "Authorization"@
            && r.headers@[0].1@ == "Bearer "@ + token,
        is_header(h, "Content-Type"@, "application/json"@) <==> h.0@ == "Content-Type"@ && h.1@
            == "application/json"@,
{
}

/// A reply whose count of models is no number counts none.
pub proof fn law_bad_counts_count_nothing(reply: json::JsonModel, v: json::JsonModel)
    requires
        reply.field("model_count"@) == Some(v),
        !(v is Number),
    ensures
        model_count(reply) == 0,
{
}

} // verus!
