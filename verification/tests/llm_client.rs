use serde_json::Value;

use handy::{
    after_chat_attempt, after_models_attempt, after_primary_attempt, build_headers, chat_parse_error, chat_status_error,
    chat_transport_error, create_client, create_client_with_timeout, endpoint, extract_model_ids,
    first_choice_content, has_fallback, models_parse_error, models_status_error,
    models_transport_error, plan_chat_completion, plan_fetch_models, plan_fetch_models_from_url,
    AttemptNext, ChatChoice, ChatCompletionResponse, ChatMessageResponse, HttpHeader, JsonMember,
    JsonValue, PostProcessProvider, ReasoningConfig,
};

fn provider(id: &str, base: &str, additional: Option<&str>) -> PostProcessProvider {
    PostProcessProvider {
        id: id.to_string(),
        base_url: base.to_string(),
        additional_url: additional.map(|s| s.to_string()),
    }
}

fn pairs(h: &[HttpHeader]) -> Vec<(String, String)> {
    h.iter().map(|h| (h.name.clone(), h.value.clone())).collect()
}

fn base_pairs() -> Vec<(String, String)> {
    vec![
        ("content-type".to_string(), "application/json".to_string()),
        ("referer".to_string(), "https://github.com/cjpais/Handy".to_string()),
        ("user-agent".to_string(), "Handy/1.0 (+https://github.com/cjpais/Handy)".to_string()),
        ("x-title".to_string(), "Handy".to_string()),
    ]
}

#[test]
fn headers_without_key() {
    let h = build_headers(&provider("openai", "https://api.openai.com/v1", None), "").unwrap();
    assert_eq!(pairs(&h), base_pairs());
}

#[test]
fn headers_with_bearer_key() {
    let h = build_headers(&provider("openai", "u", None), "sk-123").unwrap();
    let mut expected = base_pairs();
    expected.push(("authorization".to_string(), "Bearer sk-123".to_string()));
    assert_eq!(pairs(&h), expected);
}

#[test]
fn headers_for_anthropic() {
    let h = build_headers(&provider("anthropic", "u", None), "key-é").unwrap();
    let mut expected = base_pairs();
    expected.push(("x-api-key".to_string(), "key-é".to_string()));
    expected.push(("anthropic-version".to_string(), "2023-06-01".to_string()));
    assert_eq!(pairs(&h), expected);
}

#[test]
fn headers_refuse_keys_that_cannot_stand_in_a_header() {
    let r = build_headers(&provider("anthropic", "u", None), "bad\nkey");
    assert_eq!(r.err().as_deref(), Some("Invalid API key header value: failed to parse header value"));
    let r = build_headers(&provider("groq", "u", None), "bad\u{7f}");
    assert_eq!(
        r.err().as_deref(),
        Some("Invalid authorization header value: failed to parse header value")
    );
    assert!(build_headers(&provider("groq", "u", None), "tab\tok").is_ok());
}

#[test]
fn client_timeouts() {
    let p = provider("openai", "u", None);
    let c = create_client(&p, "").unwrap();
    assert!(c.timeouts.is_none());
    let c = create_client_with_timeout(&p, "", 5).unwrap();
    let t = c.timeouts.unwrap();
    assert_eq!((t.connect_secs, t.total_secs), (5, 10));
    let c = create_client_with_timeout(&p, "", u64::MAX - 1).unwrap();
    let t = c.timeouts.unwrap();
    assert_eq!((t.connect_secs, t.total_secs), (u64::MAX - 1, u64::MAX));
    assert!(create_client_with_timeout(&p, "a\rb", 5).is_err());
}

#[test]
fn fallback_needs_a_non_blank_url() {
    assert!(!has_fallback(&provider("x", "u", None)));
    assert!(!has_fallback(&provider("x", "u", Some("  \t"))));
    assert!(has_fallback(&provider("x", "u", Some(" http://localhost:1234/v1 "))));
}

#[test]
fn endpoints() {
    assert_eq!(endpoint("https://api.openai.com/v1/", "/chat/completions"), "https://api.openai.com/v1/chat/completions");
    assert_eq!(endpoint("http://h//", "/models"), "http://h/models");
}

#[test]
fn chat_plan_without_fallback() {
    let p = provider("openai", "https://api.openai.com/v1/", None);
    let plan = plan_chat_completion(
        &p,
        "sk",
        "gpt-4o",
        "hello".to_string(),
        Some("be brief".to_string()),
        None,
        Some("low".to_string()),
        None,
    )
    .unwrap();
    assert_eq!(plan.primary_url, "https://api.openai.com/v1/chat/completions");
    assert!(plan.fallback_url.is_none());
    assert!(plan.client.timeouts.is_none());
    assert_eq!(plan.request.model, "gpt-4o");
    let msgs: Vec<(String, String)> =
        plan.request.messages.iter().map(|m| (m.role.clone(), m.content.clone())).collect();
    assert_eq!(
        msgs,
        vec![
            ("system".to_string(), "be brief".to_string()),
            ("user".to_string(), "hello".to_string())
        ]
    );
    assert!(plan.request.response_format.is_none());
    assert_eq!(plan.request.reasoning_effort.as_deref(), Some("low"));
}

#[test]
fn chat_plan_with_fallback_and_schema() {
    let p = provider("openrouter", "https://openrouter.ai/api/v1", Some("http://localhost:8080/v1/"));
    let schema = schema_example();
    let plan = plan_chat_completion(
        &p,
        "",
        "m",
        "hi".to_string(),
        None,
        Some(schema.clone()),
        None,
        Some(ReasoningConfig { effort: Some("none".to_string()), exclude: Some(true) }),
    )
    .unwrap();
    assert_eq!(plan.fallback_url.as_deref(), Some("http://localhost:8080/v1/chat/completions"));
    let t = plan.client.timeouts.unwrap();
    assert_eq!((t.connect_secs, t.total_secs), (5, 10));
    assert_eq!(plan.request.messages.len(), 1);
    let f = plan.request.response_format.unwrap();
    assert_eq!(f.format_type, "json_schema");
    assert_eq!(f.json_schema.name, "transcription_output");
    assert!(f.json_schema.strict);
    assert_eq!(f.json_schema.schema, schema);
    assert_eq!(plan.request.reasoning.unwrap().exclude, Some(true));
}

fn schema_example() -> Value {
    let mut props = serde_json::Map::new();
    let mut text = serde_json::Map::new();
    text.insert("type".to_string(), Value::String("string".to_string()));
    props.insert("text".to_string(), Value::Object(text));
    let mut root = serde_json::Map::new();
    root.insert("type".to_string(), Value::String("object".to_string()));
    root.insert("properties".to_string(), Value::Object(props));
    Value::Object(root)
}

#[test]
fn model_plans() {
    let p = provider("openai", "https://a/v1/", Some("https://b/v1"));
    let plan = plan_fetch_models(&p, "k").unwrap();
    assert_eq!(plan.primary_url, "https://a/v1/models");
    assert_eq!(plan.fallback_url.as_deref(), Some("https://b/v1/models"));
    assert_eq!(plan.client.timeouts.as_ref().map(|t| t.connect_secs), Some(5));
    let plan = plan_fetch_models_from_url(&p, "k", "https://c/v1///").unwrap();
    assert_eq!(plan.primary_url, "https://c/v1/models");
    assert!(plan.fallback_url.is_none());
    let t = plan.client.timeouts.unwrap();
    assert_eq!((t.connect_secs, t.total_secs), (10, 20));
}

#[test]
fn error_messages() {
    assert_eq!(chat_transport_error("timed out"), "HTTP request failed: timed out");
    assert_eq!(
        chat_status_error("401 Unauthorized", "bad key"),
        "API request failed with status 401 Unauthorized: bad key"
    );
    assert_eq!(chat_parse_error("eof"), "Failed to parse API response: eof");
    assert_eq!(models_transport_error("dns"), "Failed to fetch models: dns");
    assert_eq!(models_status_error("404 Not Found", "nope"), "Model list request failed (404 Not Found): nope");
    assert_eq!(models_parse_error("eof"), "Failed to parse response: eof");
}

#[test]
fn only_unreachable_requests_fall_back() {
    let url = Some("http://f".to_string());
    let next = after_primary_attempt::<Option<String>>(Err(chat_transport_error("refused")), url.clone(), "HTTP request failed:");
    assert!(matches!(next, AttemptNext::Retry(u) if u == "http://f"));
    let next = after_primary_attempt::<Option<String>>(Err(chat_status_error("500", "x")), url.clone(), "HTTP request failed:");
    assert!(matches!(next, AttemptNext::Finish(Err(_))));
    let next = after_primary_attempt::<Option<String>>(Err(chat_transport_error("refused")), None, "HTTP request failed:");
    assert!(matches!(next, AttemptNext::Finish(Err(_))));
    let next = after_primary_attempt(Ok(Some("hi".to_string())), url.clone(), "HTTP request failed:");
    assert!(matches!(next, AttemptNext::Finish(Ok(Some(ref s))) if s == "hi"));
    let next = after_primary_attempt::<Vec<String>>(Err(models_transport_error("x")), url.clone(), "Failed to fetch models:");
    assert!(matches!(next, AttemptNext::Retry(_)));
    let next = after_primary_attempt::<Vec<String>>(Err(models_parse_error("x")), url, "Failed to fetch models:");
    assert!(matches!(next, AttemptNext::Finish(Err(_))));
}

#[test]
fn named_retry_decisions() {
    let url = Some("http://f".to_string());
    assert!(matches!(
        after_chat_attempt(Err(chat_transport_error("refused")), url.clone()),
        AttemptNext::Retry(_)
    ));
    assert!(matches!(
        after_chat_attempt(Err(chat_parse_error("eof")), url.clone()),
        AttemptNext::Finish(Err(_))
    ));
    assert!(matches!(
        after_models_attempt(Err(models_transport_error("dns")), url.clone()),
        AttemptNext::Retry(_)
    ));
    assert!(matches!(
        after_models_attempt(Err(models_status_error("500", "x")), url),
        AttemptNext::Finish(Err(_))
    ));
}

#[test]
fn first_choice() {
    let resp = ChatCompletionResponse {
        choices: vec![
            ChatChoice { message: ChatMessageResponse { content: Some("one".to_string()) } },
            ChatChoice { message: ChatMessageResponse { content: Some("two".to_string()) } },
        ],
    };
    assert_eq!(first_choice_content(&resp).as_deref(), Some("one"));
    let resp = ChatCompletionResponse {
        choices: vec![ChatChoice { message: ChatMessageResponse { content: None } }],
    };
    assert_eq!(first_choice_content(&resp), None);
    assert_eq!(first_choice_content(&ChatCompletionResponse { choices: vec![] }), None);
}

fn s(x: &str) -> JsonValue {
    JsonValue::Str(x.to_string())
}

fn obj(members: Vec<(&str, JsonValue)>) -> JsonValue {
    JsonValue::Object(
        members.into_iter().map(|(k, v)| JsonMember { key: k.to_string(), value: v }).collect(),
    )
}

#[test]
fn model_ids_from_data_list() {
    let reply = obj(vec![
        ("object", s("list")),
        (
            "data",
            JsonValue::Array(vec![
                obj(vec![("id", s("gpt-4o")), ("name", s("GPT 4o"))]),
                obj(vec![("name", s("llama"))]),
                obj(vec![("id", JsonValue::Other), ("name", s("mistral"))]),
                obj(vec![("owned_by", s("x"))]),
                s("bare"),
            ]),
        ),
    ]);
    assert_eq!(extract_model_ids(&reply), vec!["gpt-4o", "llama", "mistral"]);
}

#[test]
fn model_ids_from_bare_list_and_others() {
    let reply = JsonValue::Array(vec![s("a"), JsonValue::Other, s("b"), obj(vec![("id", s("c"))])]);
    assert_eq!(extract_model_ids(&reply), vec!["a", "b"]);
    let reply = obj(vec![("data", s("not a list"))]);
    assert!(extract_model_ids(&reply).is_empty());
    assert!(extract_model_ids(&JsonValue::Other).is_empty());
}
