//! Chat messages exchanged with a chat-completion service, and reading its reply.
use vstd::prelude::*;
use crate::text::owned;
use vstd::std_specs::convert::FromSpecImpl;

verus! {

/// The HTTP client's error type, carried opaquely.
#[verifier::external_type_specification]
#[verifier::external_body]
pub struct ExReqwestError(reqwest::Error);

/// The JSON codec's error type, carried opaquely.
#[verifier::external_type_specification]
#[verifier::external_body]
pub struct ExJsonError(serde_json::Error);

/// Errors of the language-model client.
#[derive(Debug)]
pub enum LlmError {
    Http(reqwest::Error),
    Json(serde_json::Error),
    Provider(String),
    MissingConfig(String),
    InvalidResponse,
    ConfigParse(String),
}

/// Trusted: `reqwest::Error`'s `Display` text; nothing is claimed of it.
#[verifier::external_body]
fn http_error_text(e: &reqwest::Error) -> String {
    e.to_string()
}

/// Trusted: `serde_json::Error`'s `Display` text; nothing is claimed of it.
#[verifier::external_body]
fn json_error_text(e: &serde_json::Error) -> String {
    e.to_string()
}

/// Whether `s` begins with `prefix`.
pub open spec fn starts_with(s: Seq<char>, prefix: Seq<char>) -> bool {
    s.len() >= prefix.len() && s.subrange(0, prefix.len() as int) == prefix
}

impl LlmError {
    /// The error's message: a fixed prefix per kind, followed by the detail it carries (for
    /// an HTTP or JSON failure, the underlying error's own text).
    pub fn message(&self) -> (r: String)
        ensures
            match self {
                LlmError::Http(_) => starts_with(r@, "HTTP request failed: "@),
                LlmError::Json(_) => starts_with(r@, "JSON error: "@),
                LlmError::Provider(s) => r@ == "provider returned an error: "@ + s@,
                LlmError::MissingConfig(s) => r@ == "missing configuration key: "@ + s@,
                LlmError::InvalidResponse => r@ == "invalid response format"@,
                LlmError::ConfigParse(s) => r@ == "configuration parse error: "@ + s@,
            },
    {
        let (mut r, detail) = match self {
            LlmError::Http(e) => (String::from_str("HTTP request failed: "), http_error_text(e)),
            LlmError::Json(e) => (String::from_str("JSON error: "), json_error_text(e)),
            LlmError::Provider(s) => (String::from_str("provider returned an error: "), s.clone()),
            LlmError::MissingConfig(s) => (String::from_str("missing configuration key: "), s.clone()),
            LlmError::InvalidResponse => (String::from_str("invalid response format"), String::new()),
            LlmError::ConfigParse(s) => (String::from_str("configuration parse error: "), s.clone()),
        };
        let ghost head = r@;
        r.append(detail.as_str());
        proof {
            reveal_strlit("HTTP request failed: ");
            reveal_strlit("JSON error: ");
            assert(r@.subrange(0, head.len() as int) =~= head);
        }
        r
    }
}

impl From<reqwest::Error> for LlmError {
    fn from(e: reqwest::Error) -> (r: Self) {
        LlmError::Http(e)
    }
}

impl FromSpecImpl<reqwest::Error> for LlmError {
    open spec fn obeys_from_spec() -> bool {
        true
    }

    open spec fn from_spec(e: reqwest::Error) -> LlmError {
        LlmError::Http(e)
    }
}

impl From<serde_json::Error> for LlmError {
    fn from(e: serde_json::Error) -> (r: Self) {
        LlmError::Json(e)
    }
}

impl FromSpecImpl<serde_json::Error> for LlmError {
    open spec fn obeys_from_spec() -> bool {
        true
    }

    open spec fn from_spec(e: serde_json::Error) -> LlmError {
        LlmError::Json(e)
    }
}

/// One chat message: a role ("system", "user", "assistant") and its text.
#[derive(Debug)]
pub struct ChatMessage {
    pub role: String,
    pub content: String,
}

impl Clone for ChatMessage {
    fn clone(&self) -> (r: Self)
        ensures
            r == *self,
    {
        ChatMessage { role: self.role.clone(), content: self.content.clone() }
    }
}

/// One alternative of a chat-completion reply.
#[derive(Debug)]
pub struct ChatChoice {
    pub message: ChatMessage,
}

/// A chat-completion reply.
#[derive(Debug)]
pub struct ChatResponse {
    pub choices: Vec<ChatChoice>,
}

/// A message's role and text as character sequences.
pub open spec fn msg(role: Seq<char>, content: Seq<char>) -> (Seq<char>, Seq<char>) {
    (role, content)
}

/// The role and text of each message.
pub open spec fn message_views(m: Seq<ChatMessage>) -> Seq<(Seq<char>, Seq<char>)> {
    m.map_values(|c: ChatMessage| (c.role@, c.content@))
}

/// The messages for a single prompt: the system prompt first when one is given (even an
/// empty one), then the user prompt.
pub fn build_messages(prompt: &str, system_prompt: Option<&str>) -> (r: Vec<ChatMessage>)
    ensures
        message_views(r@) == (match system_prompt {
            Some(sys) => seq![msg("system"@, sys@), msg("user"@, prompt@)],
            None => seq![msg("user"@, prompt@)],
        }),
{
    let mut messages: Vec<ChatMessage> = Vec::new();
    if let Some(sys) = system_prompt {
        messages.push(ChatMessage { role: owned("system"), content: owned(sys) });
    }
    messages.push(ChatMessage { role: owned("user"), content: owned(prompt) });
    assert(message_views(messages@) =~= (match system_prompt {
        Some(sys) => seq![msg("system"@, sys@), msg("user"@, prompt@)],
        None => seq![msg("user"@, prompt@)],
    }));
    messages
}

/// The text of the first choice of a reply; a reply without choices is invalid.
pub fn extract_response(response: ChatResponse) -> (r: Result<String, LlmError>)
    ensures
        response.choices@.len() > 0 ==> (r matches Ok(s) && s@ == response.choices@[0].message.content@),
        response.choices@.len() == 0 ==> (r matches Err(LlmError::InvalidResponse)),
{
    if response.choices.len() > 0 {
        Ok(response.choices[0].message.content.clone())
    } else {
        Err(LlmError::InvalidResponse)
    }
}

/// The OpenAI chat-completion provider.
pub struct OpenAiProvider;

/// The OpenRouter chat-completion provider.
pub struct OpenRouterProvider;

impl OpenAiProvider {
    pub fn name(&self) -> (r: &'static str)
        ensures
            r@ == "openai"@,
    {
        "openai"
    }
}

impl OpenRouterProvider {
    pub fn name(&self) -> (r: &'static str)
        ensures
            r@ == "openrouter"@,
    {
        "openrouter"
    }
}

/// The HTTP headers of a chat request: the JSON content type, a bearer token when an API key
/// is configured, and, for OpenRouter only, the referer and title when configured.
pub open spec fn request_headers_spec(
    api_key: Option<Seq<char>>,
    site_url: Option<Seq<char>>,
    app_name: Option<Seq<char>>,
    openrouter: bool,
) -> Seq<(Seq<char>, Seq<char>)> {
    let base = seq![("Content-Type"@, "application/json"@)];
    let with_key = match api_key {
        Some(k) => base.push(("Authorization"@, "Bearer "@ + k)),
        None => base,
    };
    let with_site = match site_url {
        Some(u) => if openrouter { with_key.push(("HTTP-Referer"@, u)) } else { with_key },
        None => with_key,
    };
    match app_name {
        Some(a) => if openrouter { with_site.push(("X-Title"@, a)) } else { with_site },
        None => with_site,
    }
}

/// The option's text, if any.
pub open spec fn opt_view(o: Option<String>) -> Option<Seq<char>> {
    match o {
        Some(s) => Some(s@),
        None => None,
    }
}

/// The headers to send with a chat request (see `request_headers_spec`).
pub fn request_headers(
    api_key: &Option<String>,
    site_url: &Option<String>,
    app_name: &Option<String>,
    openrouter: bool,
) -> (r: Vec<(String, String)>)
    ensures
        r@.map_values(|h: (String, String)| (h.0@, h.1@))
            == request_headers_spec(opt_view(*api_key), opt_view(*site_url), opt_view(*app_name), openrouter),
{
    let mut h: Vec<(String, String)> = Vec::new();
    h.push((owned("Content-Type"), owned("application/json")));
    if let Some(k) = api_key {
        let mut v = owned("Bearer ");
        v.append(k.as_str());
        h.push((owned("Authorization"), v));
    }
    if openrouter {
        if let Some(u) = site_url {
            h.push((owned("HTTP-Referer"), u.clone()));
        }
        if let Some(a) = app_name {
            h.push((owned("X-Title"), a.clone()));
        }
    }
    assert(h@.map_values(|h: (String, String)| (h.0@, h.1@))
        =~= request_headers_spec(opt_view(*api_key), opt_view(*site_url), opt_view(*app_name), openrouter));
    h
}

} // verus!
