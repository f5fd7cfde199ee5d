//! The decisions of the OpenAI-compatible LLM client: the headers and timeouts
//! of its HTTP client, the endpoint URLs, the request body, when a failed
//! request is retried on the provider's additional URL, and what is read back
//! from a reply.

use vstd::prelude::*;

use crate::prompts::first_index;
use crate::text::{concat_str, opt_text, starts_with, str_eq, trim, trim_end_char, trim_end_matches_char, trim_str};

verus! {

broadcast use vstd::string::group_string_axioms;

/// The post-processing provider that a request goes to, as the settings hold it.
pub struct PostProcessProvider {
    pub id: String,
    pub base_url: String,
    pub additional_url: Option<String>,
}

/// OpenRouter-style reasoning options, sent as the nested `reasoning` object.
pub struct ReasoningConfig {
    pub effort: Option<String>,
    pub exclude: Option<bool>,
}

impl PostProcessProvider {
    /// A copy of this provider.
    pub fn duplicate(&self) -> (r: PostProcessProvider)
        ensures
            r == *self,
    {
        PostProcessProvider {
            id: self.id.clone(),
            base_url: self.base_url.clone(),
            additional_url: match &self.additional_url {
                Some(u) => Some(u.clone()),
                None => None,
            },
        }
    }
}

/// One default header of the HTTP client: a lower-case name and its value.
pub struct HttpHeader {
    pub name: String,
    pub value: String,
}

/// The connect timeout and the whole-request timeout of the HTTP client, in seconds.
pub struct Timeouts {
    pub connect_secs: u64,
    pub total_secs: u64,
}

/// How the HTTP client is to be built: its default headers and, where the
/// provider has a fallback URL, its timeouts.
pub struct ClientSettings {
    pub headers: Vec<HttpHeader>,
    pub timeouts: Option<Timeouts>,
}

/// `serde_json::Value`, carried through to the request body untouched.
#[verifier::external_type_specification]
#[verifier::external_body]
pub struct ExJsonValue(serde_json::Value);

/// One message of a chat completion request.
pub struct ChatMessage {
    pub role: String,
    pub content: String,
}

/// The JSON schema of a structured-output request.
pub struct JsonSchema {
    pub name: String,
    pub strict: bool,
    pub schema: serde_json::Value,
}

/// The `response_format` of a structured-output request.
pub struct ResponseFormat {
    pub format_type: String,
    pub json_schema: JsonSchema,
}

/// The body of a chat completion request.
pub struct ChatCompletionRequest {
    pub model: String,
    pub messages: Vec<ChatMessage>,
    pub response_format: Option<ResponseFormat>,
    pub reasoning_effort: Option<String>,
    pub reasoning: Option<ReasoningConfig>,
}

/// A chat completion request, ready to send: where to, where to next if the
/// first URL cannot be reached, with which client, and what.
pub struct ChatCompletionPlan {
    pub primary_url: String,
    pub fallback_url: Option<String>,
    pub client: ClientSettings,
    pub request: ChatCompletionRequest,
}

/// A model-list request, ready to send.
pub struct ModelsPlan {
    pub primary_url: String,
    pub fallback_url: Option<String>,
    pub client: ClientSettings,
}

/// The message of a chat completion reply.
pub struct ChatMessageResponse {
    pub content: Option<String>,
}

/// One choice of a chat completion reply.
pub struct ChatChoice {
    pub message: ChatMessageResponse,
}

/// A chat completion reply.
pub struct ChatCompletionResponse {
    pub choices: Vec<ChatChoice>,
}

/// What comes after a request to the first URL: its outcome stands, or the same
/// request goes to the fallback URL.
pub enum AttemptNext<T> {
    Finish(Result<T, String>),
    Retry(String),
}

/// A header as plain text.
pub struct HeaderView {
    pub name: Seq<char>,
    pub value: Seq<char>,
}

impl View for HttpHeader {
    type V = HeaderView;

    open spec fn view(&self) -> HeaderView {
        HeaderView { name: self.name@, value: self.value@ }
    }
}

/// The plain views of a list of headers.
pub open spec fn headers_view(s: Seq<HttpHeader>) -> Seq<HeaderView> {
    s.map_values(|h: HttpHeader| h@)
}

/// The header `name: value`.
pub open spec fn header(name: Seq<char>, value: Seq<char>) -> HeaderView {
    HeaderView { name, value }
}

/// Whether `http` accepts the byte `b` in a header value.
pub open spec fn header_byte_ok(b: u8) -> bool {
    (b >= 32 && b != 127) || b == 9
}

/// Whether `http` accepts the text `s` as a header value: each byte of its
/// UTF-8 encoding is accepted.
pub open spec fn header_value_ok(s: Seq<char>) -> bool {
    forall|i: int|
        0 <= i < vstd::utf8::encode_utf8(s).len() ==> header_byte_ok(
            #[trigger] vstd::utf8::encode_utf8(s)[i],
        )
}

/// How `http::header::InvalidHeaderValue` displays.
pub open spec fn header_value_error() -> Seq<char> {
    "failed to parse header value"@
}

/// The headers that every request carries.
pub open spec fn base_headers() -> Seq<HeaderView> {
    seq![
        header("content-type"@, "application/json"@),
        header("referer"@, "https://github.com/cjpais/Handy"@),
        header("user-agent"@, "Handy/1.0 (+https://github.com/cjpais/Handy)"@),
        header("x-title"@, "Handy"@),
    ]
}

/// The default headers for a provider and API key: the common ones, then the
/// key as Anthropic takes it or as a bearer token; or the message when the key
/// cannot stand in a header.
pub open spec fn headers_for(provider_id: Seq<char>, api_key: Seq<char>) -> Result<
    Seq<HeaderView>,
    Seq<char>,
> {
    if api_key.len() == 0 {
        Ok(base_headers())
    } else if provider_id == "anthropic"@ {
        if header_value_ok(api_key) {
            Ok(
                base_headers() + seq![
                    header("x-api-key"@, api_key),
                    header("anthropic-version"@, "2023-06-01"@),
                ],
            )
        } else {
            Err("Invalid API key header value: "@ + header_value_error())
        }
    } else {
        let bearer = "Bearer "@ + api_key;
        if header_value_ok(bearer) {
            Ok(base_headers() + seq![header("authorization"@, bearer)])
        } else {
            Err("Invalid authorization header value: "@ + header_value_error())
        }
    }
}

/// `secs * 2`, or `u64::MAX` where that does not fit (`u64::saturating_mul`).
pub open spec fn double_saturating(secs: u64) -> u64 {
    if secs * 2 <= u64::MAX {
        (secs * 2) as u64
    } else {
        u64::MAX
    }
}

/// Whether `c` is what a client built for the given provider and key is: its
/// headers, with no timeouts or with `timeout_secs` to connect and twice that
/// in all; or, where the headers cannot be built, their message.
pub open spec fn client_built(
    r: Result<ClientSettings, String>,
    provider_id: Seq<char>,
    api_key: Seq<char>,
    timeout_secs: Option<u64>,
) -> bool {
    match headers_for(provider_id, api_key) {
        Ok(h) => r matches Ok(c) && headers_view(c.headers@) == h && match timeout_secs {
            None => c.timeouts is None,
            Some(t) => c.timeouts matches Some(ts) && ts.connect_secs == t && ts.total_secs
                == double_saturating(t),
        },
        Err(m) => r matches Err(e) && e@ == m,
    }
}

/// Whether the provider has an additional URL that is more than whitespace.
pub open spec fn has_fallback_url(provider: PostProcessProvider) -> bool {
    provider.additional_url matches Some(u) && trim(u@).len() > 0
}

/// `base` without trailing slashes, followed by `path`.
pub open spec fn endpoint_url(base: Seq<char>, path: Seq<char>) -> Seq<char> {
    trim_end_char(base, '/') + path
}

/// The fallback URL for `path`, where the provider has one.
pub open spec fn fallback_url_for(provider: PostProcessProvider, path: Seq<char>) -> Option<
    Seq<char>,
> {
    if has_fallback_url(provider) {
        Some(endpoint_url(provider.additional_url->Some_0@, path))
    } else {
        None
    }
}

/// The timeout of the client for requests that have a fallback URL.
pub open spec fn fallback_timeout(provider: PostProcessProvider) -> Option<u64> {
    if has_fallback_url(provider) {
        Some(5)
    } else {
        None
    }
}

/// `http::HeaderValue::from_str`, reduced to whether it accepts `value`. It
/// accepts exactly the values whose every byte is a tab or lies in 32..=255
/// except 127, and its error displays as "failed to parse header value".
#[verifier::external_body]
fn check_header_value(value: &str) -> (r: Result<(), String>)
    ensures
        r is Ok <==> header_value_ok(value@),
        r matches Err(m) ==> m@ == header_value_error(),
{
    match reqwest::header::HeaderValue::from_str(value) {
        Ok(_) => Ok(()),
        Err(e) => Err(e.to_string()),
    }
}

fn push_header(headers: &mut Vec<HttpHeader>, name: &str, value: &str)
    ensures
        headers_view(final(headers)@) == headers_view(old(headers)@).push(header(name@, value@)),
{
    headers.push(HttpHeader { name: name.to_owned(), value: value.to_owned() });
    assert(headers_view(headers@) =~= headers_view(old(headers)@).push(header(name@, value@)));
}

/// The default headers for requests to `provider` with `api_key`.
pub fn build_headers(provider: &PostProcessProvider, api_key: &str) -> (r: Result<
    Vec<HttpHeader>,
    String,
>)
    ensures
        match headers_for(provider.id@, api_key@) {
            Ok(h) => r matches Ok(v) && headers_view(v@) == h,
            Err(m) => r matches Err(e) && e@ == m,
        },
{
    let mut headers: Vec<HttpHeader> = Vec::new();
    push_header(&mut headers, "content-type", "application/json");
    push_header(&mut headers, "referer", "https://github.com/cjpais/Handy");
    push_header(&mut headers, "user-agent", "Handy/1.0 (+https://github.com/cjpais/Handy)");
    push_header(&mut headers, "x-title", "Handy");
    assert(headers_view(headers@) =~= base_headers());
    if !api_key.is_empty() {
        if str_eq(provider.id.as_str(), "anthropic") {
            match check_header_value(api_key) {
                Ok(()) => {},
                Err(e) => {
                    return Err(concat_str("Invalid API key header value: ", e.as_str()));
                },
            }
            let ghost before = headers_view(headers@);
            push_header(&mut headers, "x-api-key", api_key);
            push_header(&mut headers, "anthropic-version", "2023-06-01");
            assert(headers_view(headers@) =~= before + seq![
                header("x-api-key"@, api_key@),
                header("anthropic-version"@, "2023-06-01"@),
            ]);

        } else {
            let bearer = concat_str("Bearer ", api_key);
            match check_header_value(bearer.as_str()) {
                Ok(()) => {},
                Err(e) => {
                    return Err(concat_str("Invalid authorization header value: ", e.as_str()));
                },
            }
            let ghost before = headers_view(headers@);
            push_header(&mut headers, "authorization", bearer.as_str());
            assert(headers_view(headers@) =~= before + seq![header("authorization"@, bearer@)]);

        }
    }
    Ok(headers)
}

/// The HTTP client for `provider`: its default headers, no timeouts.
pub fn create_client(provider: &PostProcessProvider, api_key: &str) -> (r: Result<
    ClientSettings,
    String,
>)
    ensures
        client_built(r, provider.id@, api_key@, None),
{
    let headers = build_headers(provider, api_key)?;
    Ok(ClientSettings { headers, timeouts: None })
}

/// The HTTP client for `provider` with a connect timeout of `timeout_secs` and
/// a whole-request timeout of twice that, so that a fallback is tried soon.
pub fn create_client_with_timeout(
    provider: &PostProcessProvider,
    api_key: &str,
    timeout_secs: u64,
) -> (r: Result<ClientSettings, String>)
    ensures
        client_built(r, provider.id@, api_key@, Some(timeout_secs)),
{
    let headers = build_headers(provider, api_key)?;
    let total_secs = match timeout_secs.checked_mul(2) {
        Some(t) => t,
        None => u64::MAX,
    };
    Ok(
        ClientSettings {
            headers,
            timeouts: Some(Timeouts { connect_secs: timeout_secs, total_secs }),
        },
    )
}

/// Whether the provider has a non-empty additional URL, so that requests fall
/// back to it and use a short timeout.
pub fn has_fallback(provider: &PostProcessProvider) -> (r: bool)
    ensures
        r == has_fallback_url(*provider),
{
    match &provider.additional_url {
        Some(url) => !trim_str(url.as_str()).as_str().is_empty(),
        None => false,
    }
}

/// `base` without trailing slashes, followed by `path`.
pub fn endpoint(base: &str, path: &str) -> (r: String)
    ensures
        r@ == endpoint_url(base@, path@),
{
    concat_str(trim_end_matches_char(base, '/').as_str(), path)
}

/// The fallback URL of `provider` for `path`, where it has one.
fn fallback_endpoint(provider: &PostProcessProvider, path: &str) -> (r: Option<String>)
    ensures
        r matches Some(u) ==> fallback_url_for(*provider, path@) == Some(u@),
        r is None ==> fallback_url_for(*provider, path@) is None,
{
    if has_fallback(provider) {
        match &provider.additional_url {
            Some(url) => Some(endpoint(url.as_str(), path)),
            None => None,
        }
    } else {
        None
    }
}

/// The client for requests to `provider`: with the short timeout where there
/// is a fallback URL.
fn client_for(provider: &PostProcessProvider, api_key: &str) -> (r: Result<ClientSettings, String>)
    ensures
        client_built(r, provider.id@, api_key@, fallback_timeout(*provider)),
{
    if has_fallback(provider) {
        create_client_with_timeout(provider, api_key, 5)
    } else {
        create_client(provider, api_key)
    }
}

/// A message as plain text: role and content.
pub open spec fn message_view(m: ChatMessage) -> (Seq<char>, Seq<char>) {
    (m.role@, m.content@)
}

/// The messages of a request: the system prompt where there is one, then the user's content.
pub open spec fn request_messages(system_prompt: Option<Seq<char>>, user_content: Seq<char>) -> Seq<
    (Seq<char>, Seq<char>),
> {
    match system_prompt {
        Some(s) => seq![("system"@, s), ("user"@, user_content)],
        None => seq![("user"@, user_content)],
    }
}

/// Whether `f` is the structured-output format for `schema`.
pub open spec fn is_schema_format(f: ResponseFormat, schema: serde_json::Value) -> bool {
    &&& f.format_type@ == "json_schema"@
    &&& f.json_schema.name@ == "transcription_output"@
    &&& f.json_schema.strict
    &&& f.json_schema.schema == schema
}

/// Whether `r` is the chat completion request planned for these arguments: the
/// endpoint of the base URL, the fallback endpoint where the provider has one,
/// the client with the short timeout exactly then, and the body built from the
/// arguments; or the message of headers that cannot be built.
pub open spec fn chat_plan_is(
    r: Result<ChatCompletionPlan, String>,
    provider: PostProcessProvider,
    api_key: Seq<char>,
    model: Seq<char>,
    user_content: Seq<char>,
    system_prompt: Option<Seq<char>>,
    json_schema: Option<serde_json::Value>,
    reasoning_effort: Option<String>,
    reasoning: Option<ReasoningConfig>,
) -> bool {
    match headers_for(provider.id@, api_key) {
        Err(m) => r matches Err(e) && e@ == m,
        Ok(_) => r matches Ok(plan) && {
            &&& plan.primary_url@ == endpoint_url(provider.base_url@, "/chat/completions"@)
            &&& match plan.fallback_url {
                Some(u) => fallback_url_for(provider, "/chat/completions"@) == Some(u@),
                None => fallback_url_for(provider, "/chat/completions"@) is None,
            }
            &&& client_built(Ok(plan.client), provider.id@, api_key, fallback_timeout(provider))
            &&& plan.request.model@ == model
            &&& plan.request.messages@.map_values(|m: ChatMessage| message_view(m))
                == request_messages(system_prompt, user_content)
            &&& match json_schema {
                Some(s) => plan.request.response_format matches Some(f) && is_schema_format(f, s),
                None => plan.request.response_format is None,
            }
            &&& plan.request.reasoning_effort == reasoning_effort
            &&& plan.request.reasoning == reasoning
        },
    }
}

/// Everything about a chat completion request before it is sent: its URLs,
/// the client it goes out with, and its body.
pub fn plan_chat_completion(
    provider: &PostProcessProvider,
    api_key: &str,
    model: &str,
    user_content: String,
    system_prompt: Option<String>,
    json_schema: Option<serde_json::Value>,
    reasoning_effort: Option<String>,
    reasoning: Option<ReasoningConfig>,
) -> (r: Result<ChatCompletionPlan, String>)
    ensures
        chat_plan_is(
            r,
            *provider,
            api_key@,
            model@,
            user_content@,
            opt_text(system_prompt),
            json_schema,
            reasoning_effort,
            reasoning,
        ),
{
    let primary_url = endpoint(provider.base_url.as_str(), "/chat/completions");
    let fallback_url = fallback_endpoint(provider, "/chat/completions");
    let client = client_for(provider, api_key)?;
    let ghost system_view = opt_text(system_prompt);
    let ghost user_view = user_content@;
    let mut messages: Vec<ChatMessage> = Vec::new();
    match system_prompt {
        Some(system) => {
            messages.push(ChatMessage { role: "system".to_owned(), content: system });
        },
        None => {},
    }
    messages.push(ChatMessage { role: "user".to_owned(), content: user_content });
    assert(messages@.map_values(|m: ChatMessage| message_view(m)) =~= request_messages(
        system_view,
        user_view,
    ));
    let response_format = match json_schema {
        Some(schema) => Some(
            ResponseFormat {
                format_type: "json_schema".to_owned(),
                json_schema: JsonSchema { name: "transcription_output".to_owned(), strict: true, schema },
            },
        ),
        None => None,
    };
    let request = ChatCompletionRequest {
        model: model.to_owned(),
        messages,
        response_format,
        reasoning_effort,
        reasoning,
    };
    Ok(ChatCompletionPlan { primary_url, fallback_url, client, request })
}

/// Whether `r` is the model-list request planned for `provider`: the endpoint
/// of the base URL, the fallback endpoint where the provider has one, and the
/// client with the short timeout exactly then; or the message of headers that
/// cannot be built.
pub open spec fn models_plan_is(r: Result<ModelsPlan, String>, provider: PostProcessProvider, api_key: Seq<char>) -> bool {
    match headers_for(provider.id@, api_key) {
        Err(m) => r matches Err(e) && e@ == m,
        Ok(_) => r matches Ok(plan) && {
            &&& plan.primary_url@ == endpoint_url(provider.base_url@, "/models"@)
            &&& match plan.fallback_url {
                Some(u) => fallback_url_for(provider, "/models"@) == Some(u@),
                None => fallback_url_for(provider, "/models"@) is None,
            }
            &&& client_built(Ok(plan.client), provider.id@, api_key, fallback_timeout(provider))
        },
    }
}

/// Everything about a model-list request to `provider` before it is sent.
pub fn plan_fetch_models(provider: &PostProcessProvider, api_key: &str) -> (r: Result<
    ModelsPlan,
    String,
>)
    ensures
        models_plan_is(r, *provider, api_key@),
{
    let primary_url = endpoint(provider.base_url.as_str(), "/models");
    let fallback_url = fallback_endpoint(provider, "/models");
    let client = client_for(provider, api_key)?;
    Ok(ModelsPlan { primary_url, fallback_url, client })
}

/// A model-list request to the given URL, with no fallback and a ten second timeout.
pub fn plan_fetch_models_from_url(provider: &PostProcessProvider, api_key: &str, url: &str) -> (r:
    Result<ModelsPlan, String>)
    ensures
        match headers_for(provider.id@, api_key@) {
            Err(m) => r matches Err(e) && e@ == m,
            Ok(_) => r matches Ok(plan) && {
                &&& plan.primary_url@ == endpoint_url(url@, "/models"@)
                &&& plan.fallback_url is None
                &&& client_built(Ok(plan.client), provider.id@, api_key@, Some(10))
            },
        },
{
    let primary_url = endpoint(url, "/models");
    let client = create_client_with_timeout(provider, api_key, 10)?;
    Ok(ModelsPlan { primary_url, fallback_url: None, client })
}

/// What follows a request to the first URL: a failure whose message begins
/// with `prefix` goes on to the fallback URL, if there is one; every other
/// outcome stands.
pub open spec fn next_attempt<T>(outcome: Result<T, String>, fallback_url: Option<String>, prefix: Seq<char>) -> AttemptNext<T> {
    match (outcome, fallback_url) {
        (Err(e), Some(u)) => if prefix.is_prefix_of(e@) {
            AttemptNext::Retry(u)
        } else {
            AttemptNext::Finish(outcome)
        },
        _ => AttemptNext::Finish(outcome),
    }
}

/// What follows a request to the first URL: a failure whose message begins
/// with `connection_error_prefix` goes on to the fallback URL, if there is
/// one; every other outcome stands.
pub fn after_primary_attempt<T>(
    outcome: Result<T, String>,
    fallback_url: Option<String>,
    connection_error_prefix: &str,
) -> (r: AttemptNext<T>)
    ensures
        r == next_attempt(outcome, fallback_url, connection_error_prefix@),
{
    match outcome {
        Err(e) => {
            let is_connection_error = starts_with(e.as_str(), connection_error_prefix);
            match fallback_url {
                Some(url) => if is_connection_error {
                    AttemptNext::Retry(url)
                } else {
                    AttemptNext::Finish(Err(e))
                },
                None => AttemptNext::Finish(Err(e)),
            }
        },
        Ok(v) => AttemptNext::Finish(Ok(v)),
    }
}

/// The start of the message of a chat request that could not reach its URL.
pub open spec fn chat_connection_prefix() -> Seq<char> {
    "HTTP request failed:"@
}

/// The start of the message of a model-list request that could not reach its URL.
pub open spec fn models_connection_prefix() -> Seq<char> {
    "Failed to fetch models:"@
}

/// What follows a chat request to the first URL: it goes on to the fallback
/// URL only when the first could not be reached.
pub fn after_chat_attempt(outcome: Result<Option<String>, String>, fallback_url: Option<String>) -> (r:
    AttemptNext<Option<String>>)
    ensures
        r == next_attempt(outcome, fallback_url, chat_connection_prefix()),
{
    after_primary_attempt(outcome, fallback_url, "HTTP request failed:")
}

/// What follows a model-list request to the first URL: it goes on to the
/// fallback URL only when the first could not be reached.
pub fn after_models_attempt(outcome: Result<Vec<String>, String>, fallback_url: Option<String>) -> (r:
    AttemptNext<Vec<String>>)
    ensures
        r == next_attempt(outcome, fallback_url, models_connection_prefix()),
{
    after_primary_attempt(outcome, fallback_url, "Failed to fetch models:")
}

/// The message of a chat request that could not be sent or answered.
pub fn chat_transport_error(detail: &str) -> (r: String)
    ensures
        r@ == "HTTP request failed: "@ + detail@,
{
    concat_str("HTTP request failed: ", detail)
}

/// The message of a chat request answered with a status other than success.
pub fn chat_status_error(status: &str, body: &str) -> (r: String)
    ensures
        r@ == "API request failed with status "@ + status@ + ": "@ + body@,
{
    let head = concat_str("API request failed with status ", status);
    let head = concat_str(head.as_str(), ": ");
    concat_str(head.as_str(), body)
}

/// The message of a chat reply that is not a chat completion.
pub fn chat_parse_error(detail: &str) -> (r: String)
    ensures
        r@ == "Failed to parse API response: "@ + detail@,
{
    concat_str("Failed to parse API response: ", detail)
}

/// The message of a model-list request that could not be sent or answered.
pub fn models_transport_error(detail: &str) -> (r: String)
    ensures
        r@ == "Failed to fetch models: "@ + detail@,
{
    concat_str("Failed to fetch models: ", detail)
}

/// The message of a model-list request answered with a status other than success.
pub fn models_status_error(status: &str, body: &str) -> (r: String)
    ensures
        r@ == "Model list request failed ("@ + status@ + "): "@ + body@,
{
    let head = concat_str("Model list request failed (", status);
    let head = concat_str(head.as_str(), "): ");
    concat_str(head.as_str(), body)
}

/// The message of a model-list reply that is not JSON.
pub fn models_parse_error(detail: &str) -> (r: String)
    ensures
        r@ == "Failed to parse response: "@ + detail@,
{
    concat_str("Failed to parse response: ", detail)
}

/// What the first choice of a reply says, if there is a choice and it has content.
pub open spec fn reply_content(resp: ChatCompletionResponse) -> Option<Seq<char>> {
    if resp.choices@.len() == 0 {
        None
    } else {
        match resp.choices@[0].message.content {
            Some(c) => Some(c@),
            None => None,
        }
    }
}

/// The content of the first choice of a chat completion reply.
pub fn first_choice_content(resp: &ChatCompletionResponse) -> (r: Option<String>)
    ensures
        match (r, reply_content(*resp)) {
            (Some(a), Some(b)) => a@ == b,
            (None, None) => true,
            _ => false,
        },
{
    if resp.choices.len() == 0 {
        return None;
    }
    match &resp.choices[0].message.content {
        Some(c) => Some(c.clone()),
        None => None,
    }
}


/// A parsed JSON reply, as far as the model list reads it: strings, arrays,
/// objects (whose keys are distinct), and every other value alike.
pub enum JsonValue {
    Str(String),
    Array(Vec<JsonValue>),
    Object(Vec<JsonMember>),
    Other,
}

/// One member of a JSON object.
pub struct JsonMember {
    pub key: String,
    pub value: JsonValue,
}

/// Whether a member has key `key`.
pub open spec fn has_key(key: Seq<char>) -> spec_fn(JsonMember) -> bool {
    |m: JsonMember| m.key@ == key
}

/// The member `key` of an object (`serde_json::Value::get` with a string index).
pub open spec fn json_get(v: JsonValue, key: Seq<char>) -> Option<JsonValue> {
    match v {
        JsonValue::Object(members) => match first_index(members@, has_key(key)) {
            Some(i) => Some(members@[i].value),
            None => None,
        },
        _ => None,
    }
}

/// The text of a string (`serde_json::Value::as_str`).
pub open spec fn json_str(v: Option<JsonValue>) -> Option<Seq<char>> {
    match v {
        Some(JsonValue::Str(s)) => Some(s@),
        _ => None,
    }
}

/// The model named by one entry of a `data` list: its `id`, else its `name`.
pub open spec fn entry_model(entry: JsonValue) -> Option<Seq<char>> {
    match json_str(json_get(entry, "id"@)) {
        Some(id) => Some(id),
        None => json_str(json_get(entry, "name"@)),
    }
}

/// A bare string entry of a list of models.
pub open spec fn string_entry(entry: JsonValue) -> Option<Seq<char>> {
    json_str(Some(entry))
}

/// The models that a model-list reply names: those of its `data` list, where it
/// has one, else the strings of a bare list, else none.
pub open spec fn model_ids(reply: JsonValue) -> Seq<Seq<char>> {
    match json_get(reply, "data"@) {
        Some(JsonValue::Array(entries)) => entries@.filter_map(|e: JsonValue| entry_model(e)),
        _ => match reply {
            JsonValue::Array(entries) => entries@.filter_map(|e: JsonValue| string_entry(e)),
            _ => Seq::empty(),
        },
    }
}

/// The member `key` of `v`, where `v` is an object that has one.
fn json_member<'a>(v: &'a JsonValue, key: &str) -> (r: Option<&'a JsonValue>)
    ensures
        match (r, json_get(*v, key@)) {
            (Some(a), Some(b)) => *a == b,
            (None, None) => true,
            _ => false,
        },
{
    match v {
        JsonValue::Object(members) => {
            let ghost f = has_key(key@);
            let n = members.len();
            for i in 0..n
                invariant
                    n == members@.len(),
                    *v == JsonValue::Object(*members),
                    f == has_key(key@),
                    forall|j: int| 0 <= j < i ==> !f(#[trigger] members@[j]),
            {
                if str_eq(members[i].key.as_str(), key) {
                    proof {
                        crate::prompts::lemma_first_index_at(members@, f, i as int);
                    }
                    return Some(&members[i].value);
                }
            }
            proof {
                crate::prompts::lemma_first_index_none(members@, f);
            }
            None
        },
        _ => None,
    }
}

/// The text of `v`, where it is a string.
fn json_text(v: Option<&JsonValue>) -> (r: Option<String>)
    ensures
        match (r, json_str(match v {
            Some(x) => Some(*x),
            None => None,
        })) {
            (Some(a), Some(b)) => a@ == b,
            (None, None) => true,
            _ => false,
        },
{
    match v {
        Some(JsonValue::Str(s)) => Some(s.clone()),
        _ => None,
    }
}

/// The text of a list of strings.
pub open spec fn texts(v: Seq<String>) -> Seq<Seq<char>> {
    v.map_values(|s: String| s@)
}

/// The models that a model-list reply names, in order.
pub fn extract_model_ids(reply: &JsonValue) -> (r: Vec<String>)
    ensures
        texts(r@) == model_ids(*reply),
{
    let mut models: Vec<String> = Vec::new();
    match json_member(reply, "data") {
        Some(JsonValue::Array(entries)) => {
            let ghost f = |e: JsonValue| entry_model(e);
            let n = entries.len();
            for i in 0..n
                invariant
                    n == entries@.len(),
                    f == (|e: JsonValue| entry_model(e)),
                    texts(models@) == entries@.take(i as int).filter_map(f),
            {
                proof {
                    entries@.lemma_filter_map_take_succ(f, i as int);
                }
                let entry = &entries[i];
                match json_text(json_member(entry, "id")) {
                    Some(id) => {
                        models.push(id);
                    },
                    None => match json_text(json_member(entry, "name")) {
                        Some(name) => {
                            models.push(name);
                        },
                        None => {},
                    },
                }
                assert(texts(models@) =~= entries@.take(i + 1).filter_map(f));
            }
            assert(entries@.take(n as int) =~= entries@);
        },
        _ => match reply {
            JsonValue::Array(entries) => {
                let ghost f = |e: JsonValue| string_entry(e);
                let n = entries.len();
                for i in 0..n
                    invariant
                        n == entries@.len(),
                        f == (|e: JsonValue| string_entry(e)),
                        texts(models@) == entries@.take(i as int).filter_map(f),
                {
                    proof {
                        entries@.lemma_filter_map_take_succ(f, i as int);
                    }
                    match json_text(Some(&entries[i])) {
                        Some(model) => {
                            models.push(model);
                        },
                        None => {},
                    }
                    assert(texts(models@) =~= entries@.take(i + 1).filter_map(f));
                }
                assert(entries@.take(n as int) =~= entries@);
            },
            _ => {
                assert(texts(models@) =~= Seq::<Seq<char>>::empty());
            },
        },
    }
    models
}

} // verus!
