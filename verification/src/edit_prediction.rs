//! Completions of code while it is typed, through the sidecar.
//!
//! The provider of completions is pointed at the sidecar once that is up: at its
//! port, with its token. A request goes there with the token, and the first of the
//! completions that come back counts.

use vstd::prelude::*;
use vstd::string::*;

use crate::account;
use crate::lists;
use crate::text;

verus! {

pub const OPEN_AI_COMPATIBLE_CREDENTIALS_USERNAME: &'static str = "openai-compatible-api-token";

/// The variable of the environment that the key is read from.
pub const OPEN_AI_COMPATIBLE_TOKEN_ENV_VAR_NAME: &'static str =
    "ZED_OPEN_AI_COMPATIBLE_EDIT_PREDICTION_API_KEY";

/// A provider of completions.
#[derive(Clone, Copy, Debug, PartialEq, Eq, Structural)]
pub enum EditPredictionProvider {
    OpenAiCompatibleApi,
    Ollama,
    /// Anything else.
    Other,
}

/// How the text round the cursor is handed over.
#[derive(Clone, Copy, Debug, PartialEq, Eq, Structural)]
pub enum PromptFormat {
    DeepseekCoder,
    /// Anything else.
    Other,
}

/// The settings of a provider that speaks the protocol of OpenAI.
#[derive(Debug)]
pub struct OpenAiCompatibleSettings {
    pub model: Option<String>,
    pub api_url: Option<String>,
    pub max_output_tokens: Option<u32>,
    pub prompt_format: Option<PromptFormat>,
}

/// The settings of completions.
#[derive(Debug)]
pub struct EditPredictionSettings {
    pub provider: Option<EditPredictionProvider>,
    pub open_ai_compatible_api: Option<OpenAiCompatibleSettings>,
}

/// The key, and for which address it is.
#[derive(Debug)]
pub struct ApiKeyState {
    pub url: String,
    pub key: Option<String>,
}

/// The address that is set, if any.
pub open spec fn set_url(s: EditPredictionSettings) -> Option<Seq<char>> {
    match s.open_ai_compatible_api {
        Some(o) => lists::text_of(o.api_url),
        None => None,
    }
}

/// The address that is set, or none.
pub fn open_ai_compatible_api_url(s: &EditPredictionSettings) -> (r: String)
    ensures
        r@ == (match set_url(*s) {
            Some(u) => u,
            None => ""@,
        }),
{
    match &s.open_ai_compatible_api {
        Some(o) => match &o.api_url {
            Some(u) => u.clone(),
            None => "".to_owned(),
        },
        None => "".to_owned(),
    }
}

impl ApiKeyState {
    /// The key for an address: none for another than its own.
    pub open spec fn key_for(&self, url: Seq<char>) -> Option<Seq<char>> {
        if self.url@ == url {
            lists::text_of(self.key)
        } else {
            None
        }
    }

    /// The key for an address: none for another than its own.
    pub fn key(&self, url: &str) -> (r: Option<String>)
        ensures
            lists::text_of(r) == self.key_for(url@),
    {
        if text::same(self.url.as_str(), url) {
            lists::copy_text(&self.key)
        } else {
            None
        }
    }
}

/// The key of a request: only the provider that has one is asked for it.
pub fn load_open_ai_compatible_api_key_if_needed(
    provider: EditPredictionProvider,
    settings: &EditPredictionSettings,
    state: &ApiKeyState,
) -> (r: Option<String>)
    ensures
        lists::text_of(r) == (if provider == EditPredictionProvider::OpenAiCompatibleApi {
            state.key_for(
                match set_url(*settings) {
                    Some(u) => u,
                    None => ""@,
                },
            )
        } else {
            None
        }),
{
    match provider {
        EditPredictionProvider::OpenAiCompatibleApi => {
            let url = open_ai_compatible_api_url(settings);
            state.key(url.as_str())
        },
        _ => None,
    }
}

/// The address of completions at the sidecar.
pub open spec fn completions_url(port: u16) -> Seq<char> {
    account::loopback(port, "/v1/completions"@)
}

/// The settings point at the sidecar.
pub open spec fn points_at(s: EditPredictionSettings, port: u16) -> bool {
    &&& s.provider == Some(EditPredictionProvider::OpenAiCompatibleApi)
    &&& s.open_ai_compatible_api matches Some(o) && {
        &&& lists::text_of(o.model) == Some("deepseek-coder"@)
        &&& lists::text_of(o.api_url) == Some(completions_url(port))
        &&& o.max_output_tokens == Some(256u32)
        &&& o.prompt_format == Some(PromptFormat::DeepseekCoder)
    }
}

/// Points completions at the sidecar: the key first, so that a request that follows
/// the change of the settings finds it.
pub fn vibedev_configure_fim(
    settings: &mut EditPredictionSettings,
    state: &mut ApiKeyState,
    port: u16,
    token: &str,
)
    ensures
        points_at(*final(settings), port),
        final(state).url@ == completions_url(port),
        lists::text_of(final(state).key) == Some(token@),
{
    let api_url = account::loopback_url(port, "/v1/completions");
    state.url = api_url.clone();
    state.key = Some(token.to_owned());
    settings.provider = Some(EditPredictionProvider::OpenAiCompatibleApi);
    settings.open_ai_compatible_api = Some(
        OpenAiCompatibleSettings {
            model: Some("deepseek-coder".to_owned()),
            api_url: Some(api_url),
            max_output_tokens: Some(256),
            prompt_format: Some(PromptFormat::DeepseekCoder),
        },
    );
}

/// Once completions point at the sidecar, a request to it carries its token.
pub proof fn law_token_reaches_the_request(
    settings: EditPredictionSettings,
    state: ApiKeyState,
    port: u16,
    token: Seq<char>,
)
    requires
        points_at(settings, port),
        state.url@ == completions_url(port),
        lists::text_of(state.key) == Some(token),
    ensures
        set_url(settings) is Some,
        state.key_for(set_url(settings)->0) == Some(token),
{
}

// ---------------------------------------------------------------------------
// A request
// ---------------------------------------------------------------------------

/// A request for completions.
#[derive(Debug)]
pub struct CompletionRequest {
    pub url: String,
    pub headers: Vec<(String, String)>,
    pub model: String,
    pub prompt: String,
    pub max_tokens: u32,
    pub stop: Vec<String>,
}

/// How a request is sent.
#[derive(Debug)]
pub enum ServerRequest {
    /// In the way of Ollama, which has no key.
    Ollama { prompt: String, stop: Vec<String> },
    /// As a POST of this.
    Completion(CompletionRequest),
}

/// The headers, as texts.
pub open spec fn header_texts(h: Seq<(String, String)>) -> Seq<(Seq<char>, Seq<char>)> {
    Seq::new(h.len(), |i: int| (h[i].0@, h[i].1@))
}

/// The headers of a request: what it is, and the key where there is one.
pub open spec fn headers_of(key: Option<Seq<char>>) -> Seq<(Seq<char>, Seq<char>)> {
    let first = seq![("Content-Type"@, "application/json"@)];
    match key {
        Some(k) => first.push(("Authorization"@, "Bearer "@ + k)),
        None => first,
    }
}

/// The request for completions from a provider.
pub fn send_custom_server_request(
    provider: EditPredictionProvider,
    url: &str,
    model: &str,
    prompt: String,
    max_tokens: u32,
    stop_tokens: Vec<String>,
    api_key: &Option<String>,
) -> (r: ServerRequest)
    ensures
        match r {
            ServerRequest::Ollama { prompt: p, stop } => provider
                == EditPredictionProvider::Ollama && p == prompt && stop == stop_tokens,
            ServerRequest::Completion(c) => {
                &&& provider != EditPredictionProvider::Ollama
                &&& c.url@ == url@
                &&& header_texts(c.headers@) == headers_of(lists::text_of(*api_key))
                &&& c.model@ == model@
                &&& c.prompt == prompt
                &&& c.max_tokens == max_tokens
                &&& c.stop == stop_tokens
            },
        },
{
    match provider {
        EditPredictionProvider::Ollama => ServerRequest::Ollama { prompt, stop: stop_tokens },
        _ => {
            let mut headers: Vec<(String, String)> = vec![
                ("Content-Type".to_owned(), "application/json".to_owned()),
            ];
            match api_key {
                Some(k) => headers.push(
                    ("Authorization".to_owned(), text::join("Bearer ", k.as_str())),
                ),
                None => {},
            }
            assert(header_texts(headers@) =~= headers_of(lists::text_of(*api_key)));
            ServerRequest::Completion(
                CompletionRequest {
                    url: url.to_owned(),
                    headers,
                    model: model.to_owned(),
                    prompt,
                    max_tokens,
                    stop: stop_tokens,
                },
            )
        },
    }
}

/// What is said of an answer that is no success; the status comes with its name.
pub open spec fn failure_text(status: Seq<char>, body: Seq<char>) -> Seq<char> {
    "custom server error: "@ + status + " - "@ + body
}

/// What a server answers: the texts of the completions, and the mark of the answer.
#[derive(Debug, PartialEq, Eq)]
pub struct CompletionReply {
    pub id: String,
    pub choices: Vec<String>,
}

/// The completion that counts: the first of them, or an empty text.
pub open spec fn first_choice(choices: Seq<String>) -> Seq<char> {
    if choices.len() > 0 {
        choices[0]@
    } else {
        ""@
    }
}

/// What comes of an answer: the completion that counts, with the mark of the answer. The
/// reply is `None` where the body cannot be read.
pub fn custom_server_answer(
    code: u16,
    status: &str,
    body: &str,
    reply: Option<CompletionReply>,
) -> (r: Result<(String, String), String>)
    ensures
        if !(200 <= code < 300) {
            r matches Err(message) && message@ == failure_text(status@, body@)
        } else {
            match reply {
                None => r matches Err(message) && message@
                    == "Failed to parse completion response"@,
                Some(p) => r matches Ok(a) && a.0@ == first_choice(p.choices@) && a.1@ == p.id@,
            }
        },
{
    if !account::is_success(code) {
        let mut message = text::join("custom server error: ", status);
        message.append(" - ");
        message.append(body);
        return Err(message);
    }
    match reply {
        None => Err("Failed to parse completion response".to_owned()),
        Some(p) => {
            let first = if p.choices.len() > 0 {
                p.choices[0].clone()
            } else {
                "".to_owned()
            };
            Ok((first, p.id))
        },
    }
}

/// What Ollama answers: the text of the completion, and when it was made.
#[derive(Debug, PartialEq, Eq)]
pub struct OllamaReply {
    pub response: String,
    pub created_at: String,
}

/// What comes of an answer of Ollama: the completion, with the time as the mark of the
/// answer. An error is passed on.
pub fn ollama_answer(reply: Result<OllamaReply, String>) -> (r: Result<(String, String), String>)
    ensures
        match reply {
            Ok(p) => r == Ok::<(String, String), String>((p.response, p.created_at)),
            Err(message) => r == Err::<(String, String), String>(message),
        },
{
    match reply {
        Ok(p) => Ok((p.response, p.created_at)),
        Err(message) => Err(message),
    }
}

/// Completions that point at the sidecar are asked for on this machine, at its port, from
/// the model for code.
pub proof fn law_completions_stay_on_this_machine(s: EditPredictionSettings, port: u16)
    requires
        points_at(s, port),
    ensures
        s.provider == Some(EditPredictionProvider::OpenAiCompatibleApi),
        set_url(s) == Some(
            "http://127.0.0.1:"@ + text::decimal_of(port as nat) + "/v1/completions"@,
        ),
        s.open_ai_compatible_api matches Some(o) && (o.model matches Some(m) && m@
            == "deepseek-coder"@) && o.max_output_tokens == Some(256u32),
{
}

/// A key is handed out for its own address and for no other.
pub proof fn law_key_is_for_its_own_address(state: ApiKeyState, url: Seq<char>)
    ensures
        url != state.url@ ==> state.key_for(url) is None,
        state.key is Some ==> state.key_for(state.url@) == Some((state.key->0)@),
        state.key is None ==> state.key_for(url) is None,
{
}

/// A request says what it carries, and carries a key exactly where there is one, as that of
/// the bearer.
pub proof fn law_requests_carry_the_key_they_have(key: Seq<char>)
    ensures
        headers_of(None) == seq![("Content-Type"@, "application/json"@)],
        headers_of(Some(key)) == seq![
            ("Content-Type"@, "application/json"@),
            ("Authorization"@, "Bearer "@ + key),
        ],
{
    assert(headers_of(Some(key)) =~= seq![
        ("Content-Type"@, "application/json"@),
        ("Authorization"@, "Bearer "@ + key),
    ]);
}

/// The first completion counts, whatever follows it; without one there is nothing to insert.
pub proof fn law_first_completion_counts(first: String, others: Seq<String>)
    ensures
        first_choice(seq![first] + others) == first@,
        first_choice(Seq::empty()) == ""@,
        first_choice(Seq::empty()).len() == 0,
{
    reveal_strlit("");
    assert((seq![first] + others)[0] == first);
}

/// A refusal is told with its status and with what the server says.
pub proof fn law_refusal_is_told(status: Seq<char>, body: Seq<char>)
    ensures
        failure_text(status, body) == "custom server error: "@ + status + " - "@ + body,
{
}

} // verus!
