//! Provider selection: endpoints, wire dialects, credentials and request
//! headers.
use vstd::prelude::*;
use crate::agent::{ChatMessage, Role};
use crate::json::{i64_of, json_i64, json_member, json_member_of, json_str, opt_text, str_of};
use crate::stream::Dialect;
use crate::text::{append, decimal, decimal_text, has_prefix, owned, same_text, trim, trimmed};
use vstd::string::StrSliceExecFns;

verus! {

pub open spec fn openrouter_url() -> Seq<char> {
    "https://openrouter.ai/api/v1/chat/completions"@
}

/// The endpoint used for a provider name; unknown names go to OpenRouter.
pub open spec fn endpoint_for(name: Seq<char>) -> Seq<char> {
    if name == "openrouter"@ {
        openrouter_url()
    } else if name == "openai"@ {
        "https://api.openai.com/v1/chat/completions"@
    } else if name == "anthropic"@ {
        "https://api.anthropic.com/v1/messages"@
    } else if name == "ollama"@ {
        "http://localhost:11434/v1/chat/completions"@
    } else {
        openrouter_url()
    }
}

/// Resolves the provider's API endpoint URL from a provider name.
pub fn provider_endpoint(provider_name: &str) -> (r: &'static str)
    ensures
        r@ == endpoint_for(provider_name@),
{
    if same_text(provider_name, "openrouter") {
        "https://openrouter.ai/api/v1/chat/completions"
    } else if same_text(provider_name, "openai") {
        "https://api.openai.com/v1/chat/completions"
    } else if same_text(provider_name, "anthropic") {
        "https://api.anthropic.com/v1/messages"
    } else if same_text(provider_name, "ollama") {
        "http://localhost:11434/v1/chat/completions"
    } else {
        "https://openrouter.ai/api/v1/chat/completions"
    }
}


/// The provider used when neither the request nor the configuration names one.
pub open spec fn default_provider() -> Seq<char> {
    "anthropic"@
}

pub open spec fn choose_name(
    requested: Option<Seq<char>>,
    configured: Option<Seq<char>>,
    fallback: Seq<char>,
) -> Seq<char> {
    match requested {
        Some(r) => r,
        None => match configured {
            Some(c) => c,
            None => fallback,
        },
    }
}

pub open spec fn opt_str_view(o: Option<&str>) -> Option<Seq<char>> {
    match o {
        Some(s) => Some(s@),
        None => None,
    }
}

fn pick_name(requested: Option<&str>, configured: Option<&str>, fallback: &str) -> (r: String)
    ensures
        r@ == choose_name(opt_str_view(requested), opt_str_view(configured), fallback@),
{
    match requested {
        Some(r) => owned(r),
        None => match configured {
            Some(c) => owned(c),
            None => owned(fallback),
        },
    }
}

/// The provider name for a run: the request's choice, else the
/// configuration's, else the default.
pub fn resolve_provider(requested: Option<&str>, configured: Option<&str>) -> (r: String)
    ensures
        r@ == choose_name(opt_str_view(requested), opt_str_view(configured), default_provider()),
{
    pick_name(requested, configured, "anthropic")
}

/// The model name for a run: the request's choice, else the
/// configuration's, else the provider's default model as configured.
pub fn resolve_model(requested: Option<&str>, configured: Option<&str>, fallback: &str) -> (r:
    String)
    ensures
        r@ == choose_name(opt_str_view(requested), opt_str_view(configured), fallback@),
{
    pick_name(requested, configured, fallback)
}

/// The wire format a provider speaks.
pub open spec fn dialect_of(name: Seq<char>) -> Dialect {
    if name == "anthropic"@ {
        Dialect::Anthropic
    } else {
        Dialect::OpenAiCompat
    }
}

pub fn provider_dialect(provider_name: &str) -> (r: Dialect)
    ensures
        r == dialect_of(provider_name@),
{
    if same_text(provider_name, "anthropic") {
        Dialect::Anthropic
    } else {
        Dialect::OpenAiCompat
    }
}

/// The environment variable that holds a provider's own key.
pub open spec fn env_var_of(name: Seq<char>) -> Seq<char> {
    if name == "openrouter"@ {
        "OPENROUTER_API_KEY"@
    } else if name == "openai"@ {
        "OPENAI_API_KEY"@
    } else if name == "anthropic"@ {
        "ANTHROPIC_API_KEY"@
    } else {
        "VIZICLAW_API_KEY"@
    }
}

pub fn provider_env_var(provider_name: &str) -> (r: &'static str)
    ensures
        r@ == env_var_of(provider_name@),
{
    if same_text(provider_name, "openrouter") {
        "OPENROUTER_API_KEY"
    } else if same_text(provider_name, "openai") {
        "OPENAI_API_KEY"
    } else if same_text(provider_name, "anthropic") {
        "ANTHROPIC_API_KEY"
    } else {
        "VIZICLAW_API_KEY"
    }
}

pub open spec fn nonempty(o: Option<Seq<char>>) -> bool {
    o matches Some(s) && s.len() > 0
}

pub open spec fn opt_string_view(o: Option<String>) -> Option<Seq<char>> {
    match o {
        Some(s) => Some(s@),
        None => None,
    }
}

/// The first non-empty key of: the configured key, the provider's own
/// variable, `VIZICLAW_API_KEY`, `API_KEY`.
pub open spec fn first_key(
    config_key: Option<Seq<char>>,
    provider_env: Option<Seq<char>>,
    generic_env: Option<Seq<char>>,
    fallback_env: Option<Seq<char>>,
) -> Option<Seq<char>> {
    if nonempty(config_key) {
        config_key
    } else if nonempty(provider_env) {
        provider_env
    } else if nonempty(generic_env) {
        generic_env
    } else if nonempty(fallback_env) {
        fallback_env
    } else {
        None
    }
}

fn is_nonempty(o: &Option<String>) -> (r: bool)
    ensures
        r == nonempty(opt_string_view(*o)),
{
    match o {
        Some(s) => s.as_str().unicode_len() > 0,
        None => false,
    }
}

/// Resolves the API key from the configured key and the values of the
/// provider's own variable, `VIZICLAW_API_KEY` and `API_KEY`.
pub fn resolve_api_key(
    config_key: Option<String>,
    provider_env: Option<String>,
    generic_env: Option<String>,
    fallback_env: Option<String>,
) -> (r: Option<String>)
    ensures
        opt_string_view(r) == first_key(
            opt_string_view(config_key),
            opt_string_view(provider_env),
            opt_string_view(generic_env),
            opt_string_view(fallback_env),
        ),
{
    if is_nonempty(&config_key) {
        config_key
    } else if is_nonempty(&provider_env) {
        provider_env
    } else if is_nonempty(&generic_env) {
        generic_env
    } else if is_nonempty(&fallback_env) {
        fallback_env
    } else {
        None
    }
}

/// The safety margin before a stored OAuth token's expiry, in milliseconds.
pub const EXPIRY_MARGIN_MS: i64 = 60000;

/// A stored token is usable unless an expiry is known and `now_ms` is
/// within the margin of it.
pub open spec fn token_fresh(expires_at: Option<i64>, now_ms: i64) -> bool {
    match expires_at {
        Some(e) => (now_ms as int) < e - EXPIRY_MARGIN_MS,
        None => true,
    }
}

/// The access token, when the stored credential is still fresh.
pub fn token_if_fresh(expires_at: Option<i64>, now_ms: i64, access_token: Option<String>) -> (r:
    Option<String>)
    ensures
        token_fresh(expires_at, now_ms) ==> r == access_token,
        !token_fresh(expires_at, now_ms) ==> r is None,
{
    match expires_at {
        Some(e) => {
            if (now_ms as i128) >= (e as i128) - (EXPIRY_MARGIN_MS as i128) {
                return None;
            }
        },
        None => {},
    }
    access_token
}

/// Reads the access token out of a stored credential record (JSON with
/// `accessToken` and an optional `expiresAt` in epoch milliseconds),
/// honouring the expiry margin.
pub fn oauth_token_from_record(raw: &str, now_ms: i64) -> (r: Option<String>)
    ensures
        opt_text(r) == oauth_token_of(raw@, now_ms),
{
    let t = trimmed(raw);
    let expires_at = match json_member(t.as_str(), "expiresAt") {
        Some(e) => json_i64(e.as_str()),
        None => None,
    };
    let access = match json_member(t.as_str(), "accessToken") {
        Some(a) => json_str(a.as_str()),
        None => None,
    };
    token_if_fresh(expires_at, now_ms, access)
}

/// The token a stored credential record yields at `now_ms`: its
/// `accessToken` string when the record is fresh.
pub open spec fn oauth_token_of(raw: Seq<char>, now_ms: i64) -> Option<Seq<char>> {
    let t = trim(raw);
    if token_fresh(i64_of(json_member_of(t, "expiresAt"@)), now_ms) {
        str_of(json_member_of(t, "accessToken"@))
    } else {
        None
    }
}

/// The credential a run uses: for Anthropic a stored OAuth token comes
/// first and the resolved key only when there is none; other providers use
/// the resolved key.
pub fn credential_for(provider_name: &str, oauth_token: Option<String>, resolved_key: Option<
    String,
>) -> (r: Option<String>)
    ensures
        opt_string_view(r) == if dialect_of(provider_name@) == Dialect::Anthropic
            && oauth_token is Some {
            opt_string_view(oauth_token)
        } else {
            opt_string_view(resolved_key)
        },
{
    match provider_dialect(provider_name) {
        Dialect::Anthropic => match oauth_token {
            Some(t) => Some(t),
            None => resolved_key,
        },
        Dialect::OpenAiCompat => resolved_key,
    }
}

/// Prefix of Anthropic OAuth access tokens.
pub open spec fn oauth_prefix() -> Seq<char> {
    "sk-ant-oat01-"@
}

pub open spec fn is_oauth(key: Seq<char>) -> bool {
    oauth_prefix().len() <= key.len() && key.subrange(0, oauth_prefix().len() as int)
        == oauth_prefix()
}

/// The credential header an Anthropic request carries.
pub open spec fn anthropic_auth(key: Seq<char>) -> (Seq<char>, Seq<char>) {
    if is_oauth(key) {
        ("Authorization"@, "Bearer "@ + key)
    } else {
        ("x-api-key"@, key)
    }
}

pub open spec fn headers_view(h: Seq<(String, String)>) -> Seq<(Seq<char>, Seq<char>)> {
    h.map_values(|p: (String, String)| (p.0@, p.1@))
}

/// The headers of a request besides the content type: for OpenAI-compatible
/// providers a bearer token when there is a key; for Anthropic the API
/// version and the credential header.
pub open spec fn request_headers(dialect: Dialect, key: Option<Seq<char>>) -> Seq<
    (Seq<char>, Seq<char>),
> {
    match dialect {
        Dialect::OpenAiCompat => match key {
            Some(k) => seq![("Authorization"@, "Bearer "@ + k)],
            None => seq![],
        },
        Dialect::Anthropic => match key {
            Some(k) => seq![("anthropic-version"@, "2023-06-01"@), anthropic_auth(k)],
            None => seq![("anthropic-version"@, "2023-06-01"@)],
        },
    }
}

fn bearer(key: &str) -> (r: (String, String))
    ensures
        r.0@ == "Authorization"@,
        r.1@ == "Bearer "@ + key@,
{
    let mut v = owned("Bearer ");
    append(&mut v, key);
    (owned("Authorization"), v)
}

/// Builds the headers of a request.
pub fn build_headers(dialect: Dialect, key: Option<&str>) -> (r: Vec<(String, String)>)
    ensures
        headers_view(r@) == request_headers(dialect, opt_str_view(key)),
{
    let mut h: Vec<(String, String)> = Vec::new();
    match dialect {
        Dialect::OpenAiCompat => {
            if let Some(k) = key {
                h.push(bearer(k));
            }
        },
        Dialect::Anthropic => {
            h.push((owned("anthropic-version"), owned("2023-06-01")));
            if let Some(k) = key {
                proof {
                    reveal_strlit("sk-ant-oat01-");
                }
                if has_prefix(k, "sk-ant-oat01-") {
                    h.push(bearer(k));
                } else {
                    h.push((owned("x-api-key"), owned(k)));
                }
            }
        },
    }
    assert(headers_view(h@) =~= request_headers(dialect, opt_str_view(key)));
    h
}

/// An Anthropic credential selects exactly one of the two credential
/// headers: a bearer token when it is an OAuth token, `x-api-key`
/// otherwise, never both.
pub proof fn lemma_oauth_selection(key: Seq<char>)
    ensures
        is_oauth(key) ==> request_headers(Dialect::Anthropic, Some(key))[1] == (
            "Authorization"@,
            "Bearer "@ + key,
        ),
        !is_oauth(key) ==> request_headers(Dialect::Anthropic, Some(key))[1] == (
            "x-api-key"@,
            key,
        ),
        forall|i: int|
            0 <= i < 2 ==> #[trigger] request_headers(Dialect::Anthropic, Some(key))[i].0 != (
            if is_oauth(key) {
                "x-api-key"@
            } else {
                "Authorization"@
            }),
{
    reveal_strlit("x-api-key");
    reveal_strlit("Authorization");
    reveal_strlit("anthropic-version");
    let h = request_headers(Dialect::Anthropic, Some(key));
    assert("x-api-key"@[0] != "Authorization"@[0]);
    assert("x-api-key"@[0] != "anthropic-version"@[0]);
    assert("Authorization"@[0] != "anthropic-version"@[0]);
}


/// An error that ends a run.
#[derive(Debug, Clone, PartialEq, Eq)]
pub enum AgentError {
    /// The configuration could not be loaded.
    ConfigInvalid { message: String },
    /// The Anthropic provider was chosen and no key was found.
    CredentialMissing,
    /// The provider answered with a non-2xx status.
    ProviderHttp { dialect: Dialect, status: u16, body: String },
    /// The transport failed in the middle of the stream.
    ProviderStream { message: String },
    /// A turn could not be stored or read.
    Persistence { message: String },
}

pub open spec fn error_message(e: AgentError) -> Seq<char> {
    match e {
        AgentError::ConfigInvalid { message } => message@,
        AgentError::CredentialMissing => missing_key_message(),
        AgentError::ProviderHttp { dialect, status, body } => http_lead(dialect) + decimal(
            status as nat,
        ) + ": "@ + body@,
        AgentError::ProviderStream { message } => "Stream chunk error: "@ + message@,
        AgentError::Persistence { message } => message@,
    }
}

pub open spec fn http_lead(d: Dialect) -> Seq<char> {
    match d {
        Dialect::OpenAiCompat => "Provider returned "@,
        Dialect::Anthropic => "Anthropic returned "@,
    }
}

pub open spec fn missing_key_message() -> Seq<char> {
    "No Anthropic API key found. Set ANTHROPIC_API_KEY or store an OAuth token."@
}

impl AgentError {
    /// The human-readable text carried by the `Error` event.
    pub fn message(&self) -> (r: String)
        ensures
            r@ == error_message(*self),
    {
        match self {
            AgentError::ConfigInvalid { message } => message.clone(),
            AgentError::CredentialMissing => owned(
                "No Anthropic API key found. Set ANTHROPIC_API_KEY or store an OAuth token.",
            ),
            AgentError::ProviderHttp { dialect, status, body } => {
                let mut m = match dialect {
                    Dialect::OpenAiCompat => owned("Provider returned "),
                    Dialect::Anthropic => owned("Anthropic returned "),
                };
                let digits = decimal_text(*status as u64);
                append(&mut m, digits.as_str());
                append(&mut m, ": ");
                append(&mut m, body.as_str());
                m
            },
            AgentError::ProviderStream { message } => {
                let mut m = owned("Stream chunk error: ");
                append(&mut m, message.as_str());
                m
            },
            AgentError::Persistence { message } => message.clone(),
        }
    }
}

/// Accepts a 2xx response; any other status fails with its body.
pub fn check_status(dialect: Dialect, status: u16, body: String) -> (r: Result<(), AgentError>)
    ensures
        200 <= status <= 299 <==> r is Ok,
        r matches Err(e) ==> e matches AgentError::ProviderHttp { dialect: d, status: s, body: b }
            && d == dialect && s == status && b@ == body@,
{
    if 200 <= status && status <= 299 {
        Ok(())
    } else {
        Err(AgentError::ProviderHttp { dialect, status, body })
    }
}

pub open spec fn history_view(h: Seq<ChatMessage>) -> Seq<(Role, Seq<char>)> {
    h.map_values(|m: ChatMessage| m@)
}

/// The content of the first system message, if any.
pub open spec fn first_system(h: Seq<(Role, Seq<char>)>) -> Option<Seq<char>>
    decreases h.len(),
{
    if h.len() == 0 {
        None
    } else {
        match first_system(h.drop_last()) {
            Some(s) => Some(s),
            None => if h.last().0 == Role::System {
                Some(h.last().1)
            } else {
                None
            },
        }
    }
}

/// The messages that are not system messages, in order.
pub open spec fn non_system(h: Seq<(Role, Seq<char>)>) -> Seq<(Role, Seq<char>)>
    decreases h.len(),
{
    if h.len() == 0 {
        Seq::empty()
    } else if h.last().0 == Role::System {
        non_system(h.drop_last())
    } else {
        non_system(h.drop_last()).push(h.last())
    }
}

/// Splits a conversation for the Anthropic format: the first system
/// message's content goes to a top-level field, the other messages stay.
pub fn split_system(history: &Vec<ChatMessage>) -> (r: (Option<String>, Vec<ChatMessage>))
    ensures
        opt_string_view(r.0) == first_system(history_view(history@)),
        history_view(r.1@) == non_system(history_view(history@)),
{
    let ghost hv = history_view(history@);
    let mut system: Option<String> = None;
    let mut rest: Vec<ChatMessage> = Vec::new();
    let mut k: usize = 0;
    assert(hv.subrange(0, 0) =~= Seq::<(Role, Seq<char>)>::empty());
    assert(history_view(rest@) =~= Seq::<(Role, Seq<char>)>::empty());
    while k < history.len()
        invariant
            k <= history@.len(),
            hv == history_view(history@),
            opt_string_view(system) == first_system(hv.subrange(0, k as int)),
            history_view(rest@) == non_system(hv.subrange(0, k as int)),
        decreases history@.len() - k,
    {
        let m = &history[k];
        assert(hv.subrange(0, k + 1).drop_last() =~= hv.subrange(0, k as int));
        if m.role == Role::System {
            if system.is_none() {
                system = Some(m.content.clone());
            }
        } else {
            let ghost before = rest@;
            rest.push(ChatMessage { role: m.role, content: m.content.clone() });
            assert(history_view(rest@) =~= history_view(before).push(hv[k as int]));
        }
        k = k + 1;
    }
    assert(hv.subrange(0, k as int) =~= hv);
    (system, rest)
}

fn copy_history(history: &Vec<ChatMessage>) -> (r: Vec<ChatMessage>)
    ensures
        history_view(r@) == history_view(history@),
{
    let mut out: Vec<ChatMessage> = Vec::new();
    let mut k: usize = 0;
    while k < history.len()
        invariant
            k <= history@.len(),
            history_view(out@) =~= history_view(history@).subrange(0, k as int),
        decreases history@.len() - k,
    {
        let ghost before = out@;
        out.push(ChatMessage { role: history[k].role, content: history[k].content.clone() });
        assert(history_view(out@) =~= history_view(before).push(history[k as int]@));
        assert(history_view(history@).subrange(0, k + 1) =~= history_view(history@).subrange(
            0,
            k as int,
        ).push(history[k as int]@));
        k = k + 1;
    }
    assert(history_view(history@).subrange(0, k as int) =~= history_view(history@));
    out
}

/// The most tokens an Anthropic reply may hold.
pub const ANTHROPIC_MAX_TOKENS: u32 = 16384;

/// Everything a streaming chat request carries but the sampling temperature.
#[derive(Debug, Clone, PartialEq, Eq)]
pub struct RequestPlan {
    pub endpoint: String,
    pub dialect: Dialect,
    pub headers: Vec<(String, String)>,
    pub model: String,
    /// The top-level system prompt (Anthropic only).
    pub system: Option<String>,
    pub messages: Vec<ChatMessage>,
    /// The reply length limit (Anthropic only).
    pub max_tokens: Option<u32>,
}

/// Plans one streaming chat request to a provider. Anthropic needs a key;
/// other providers may go without one.
pub fn plan_request(
    provider_name: &str,
    api_key: Option<&str>,
    history: &Vec<ChatMessage>,
    model: &str,
) -> (r: Result<RequestPlan, AgentError>)
    ensures
        (dialect_of(provider_name@) == Dialect::Anthropic && api_key is None) <==> r is Err,
        r matches Err(e) ==> e is CredentialMissing,
        r matches Ok(p) ==> {
            &&& p.endpoint@ == endpoint_for(provider_name@)
            &&& p.dialect == dialect_of(provider_name@)
            &&& headers_view(p.headers@) == request_headers(p.dialect, opt_str_view(api_key))
            &&& p.model@ == model@
            &&& p.dialect == Dialect::Anthropic ==> {
                &&& opt_string_view(p.system) == first_system(history_view(history@))
                &&& history_view(p.messages@) == non_system(history_view(history@))
                &&& p.max_tokens == Some(ANTHROPIC_MAX_TOKENS)
            }
            &&& p.dialect == Dialect::OpenAiCompat ==> {
                &&& p.system is None
                &&& history_view(p.messages@) == history_view(history@)
                &&& p.max_tokens is None
            }
        },
{
    let dialect = provider_dialect(provider_name);
    let endpoint = owned(provider_endpoint(provider_name));
    match dialect {
        Dialect::Anthropic => {
            if api_key.is_none() {
                return Err(AgentError::CredentialMissing);
            }
            let (system, messages) = split_system(history);
            Ok(
                RequestPlan {
                    endpoint,
                    dialect,
                    headers: build_headers(dialect, api_key),
                    model: owned(model),
                    system,
                    messages,
                    max_tokens: Some(ANTHROPIC_MAX_TOKENS),
                },
            )
        },
        Dialect::OpenAiCompat => Ok(
            RequestPlan {
                endpoint,
                dialect,
                headers: build_headers(dialect, api_key),
                model: owned(model),
                system: None,
                messages: copy_history(history),
                max_tokens: None,
            },
        ),
    }
}

} // verus!
