use tokend::config::ExtProcConfig;
use tokend::json::JsonValue;
use tokend::server::ext_proc::{
    build_mutation_response, continue_body_response, continue_headers_response, error_response,
    handle_parsed_body, handle_request_body, should_intercept, ExtProcResponse, ExtProcSession, ExtRequest,
    HeaderEntry, Phase,
};
use tokend::server::MetricEvent;
use tokend::tokenizer::TokenizerRegistry;

const WORDS: &str = r#"{
  "version": "1.0",
  "truncation": null,
  "padding": null,
  "added_tokens": [],
  "normalizer": null,
  "pre_tokenizer": {"type": "Whitespace"},
  "post_processor": null,
  "decoder": null,
  "model": {
    "type": "WordLevel",
    "vocab": {"[UNK]": 0, "hello": 1, "world": 2, "the": 3},
    "unk_token": "[UNK]"
  }
}"#;

fn registry() -> TokenizerRegistry {
    let mut reg = TokenizerRegistry::new("/cache");
    assert!(reg.load("words", Ok(WORDS.to_string())).is_ok());
    let config = r#"{"chat_template": "{% for m in messages %}{{ m.content }} {% endfor %}"}"#;
    assert!(reg.load_chat_template("words", Ok(config.to_string())).is_ok());
    reg
}

fn config(mode: &str) -> ExtProcConfig {
    ExtProcConfig { mode: mode.to_string(), ..ExtProcConfig::default() }
}

fn path_header(path: &str) -> Option<Vec<HeaderEntry>> {
    Some(vec![
        HeaderEntry { key: ":method".into(), value: "POST".into(), raw_value: vec![] },
        HeaderEntry { key: ":path".into(), value: String::new(), raw_value: path.as_bytes().to_vec() },
    ])
}

fn headers(r: &ExtProcResponse) -> Vec<(String, String)> {
    match &r.header_mutation {
        Some(hs) => hs
            .iter()
            .map(|h| (h.key.clone(), String::from_utf8(h.raw_value.clone()).unwrap()))
            .collect(),
        None => vec![],
    }
}

fn pair(k: &str, v: &str) -> (String, String) {
    (k.to_string(), v.to_string())
}

fn error_of(r: &ExtProcResponse) -> String {
    assert_eq!(r.phase, Phase::RequestBody);
    assert!(r.body_mutation.is_none());
    let hs = headers(r);
    assert_eq!(hs.len(), 1);
    assert_eq!(hs[0].0, "x-tokend-error");
    hs[0].1.clone()
}

#[test]
fn default_paths_are_intercepted() {
    let paths = ExtProcConfig::default().intercept_paths;
    assert!(should_intercept(&path_header("/v1/chat/completions"), &paths));
    assert!(should_intercept(&path_header("/completions?stream=false"), &paths));
    assert!(!should_intercept(&path_header("/v1/embeddings"), &paths));
    assert!(!should_intercept(&None, &paths));
    let text_value = Some(vec![HeaderEntry {
        key: ":path".into(),
        value: "/chat/completions".into(),
        raw_value: vec![],
    }]);
    assert!(should_intercept(&text_value, &paths));
}

#[test]
fn default_config_values() {
    let c = ExtProcConfig::default();
    assert!(!c.enabled);
    assert_eq!(c.port, 8767);
    assert_eq!(
        c.intercept_paths,
        vec!["/v1/chat/completions", "/chat/completions", "/v1/completions", "/completions"]
    );
    assert_eq!(c.mode, "headers");
    assert_eq!(c.token_count_header, "x-tokend-token-count");
    assert_eq!(c.model_header, "x-tokend-model");
    assert_eq!(c.body_field, "token_count");
    assert!(!c.inject_tokens);
    assert_eq!(c.token_ids_field, "token_ids");
}

#[test]
fn continue_responses() {
    let r = continue_headers_response();
    assert_eq!(r.phase, Phase::RequestHeaders);
    assert!(r.header_mutation.is_none() && r.body_mutation.is_none());
    let r = continue_body_response();
    assert_eq!(r.phase, Phase::RequestBody);
    assert!(r.header_mutation.is_none() && r.body_mutation.is_none());
    assert_eq!(error_of(&error_response("boom")), "boom");
}

#[test]
fn headers_mode_sets_two_headers() {
    let body = JsonValue::Object(vec![("model".into(), JsonValue::Str("m".into()))]);
    let r = build_mutation_response(&config("headers"), "m", 12, &vec![1, 2], &body);
    assert_eq!(r.phase, Phase::RequestBody);
    assert!(r.body_mutation.is_none());
    assert_eq!(
        headers(&r),
        vec![pair("x-tokend-token-count", "12"), pair("x-tokend-model", "m")]
    );
}

#[test]
fn body_mode_rewrites_the_body() {
    let body = JsonValue::Object(vec![("model".into(), JsonValue::Str("m".into()))]);
    let r = build_mutation_response(&config("body"), "m", 2, &vec![1, 2], &body);
    let bytes = r.body_mutation.clone().unwrap();
    let v: serde_json::Value = serde_json::from_slice(&bytes).unwrap();
    assert_eq!(v["model"], "m");
    assert_eq!(v["token_count"], 2);
    assert!(v.get("token_ids").is_none());
    assert_eq!(headers(&r), vec![pair("content-length", &bytes.len().to_string())]);
}

#[test]
fn both_mode_injects_tokens() {
    let mut cfg = config("both");
    cfg.inject_tokens = true;
    let body = JsonValue::Object(vec![("model".into(), JsonValue::Str("m".into()))]);
    let r = build_mutation_response(&cfg, "m", 2, &vec![1, 2], &body);
    let bytes = r.body_mutation.clone().unwrap();
    let v: serde_json::Value = serde_json::from_slice(&bytes).unwrap();
    assert_eq!(v["token_count"], 2);
    let ids = serde_json::Value::Array(vec![serde_json::Value::from(1), serde_json::Value::from(2)]);
    assert_eq!(v["token_ids"], ids);
    assert_eq!(
        headers(&r),
        vec![
            pair("x-tokend-token-count", "2"),
            pair("x-tokend-model", "m"),
            pair("content-length", &bytes.len().to_string()),
        ]
    );
}

#[test]
fn unknown_mode_sets_nothing() {
    let body = JsonValue::Object(vec![]);
    let r = build_mutation_response(&config("none"), "m", 2, &vec![1, 2], &body);
    assert_eq!(r.phase, Phase::RequestBody);
    assert!(r.header_mutation.is_none() && r.body_mutation.is_none());
}

#[test]
fn body_errors_fail_open() {
    let reg = registry();
    let cfg = config("headers");
    let (r, event) = handle_request_body(b"not json", &reg, &cfg);
    assert!(error_of(&r).starts_with("JSON parse error: "));
    assert!(matches!(event, MetricEvent::ExtProcError));
    let (r, _) = handle_request_body(br#"{"prompt": "hello"}"#, &reg, &cfg);
    assert_eq!(error_of(&r), "missing 'model' field");
    let (r, _) = handle_request_body(br#"{"model": "words"}"#, &reg, &cfg);
    assert_eq!(error_of(&r), "missing 'messages' or 'prompt' field");
    let (r, _) = handle_request_body(br#"{"model": "words", "prompt": 3}"#, &reg, &cfg);
    assert_eq!(error_of(&r), "'prompt' must be a string");
    let (r, _) = handle_request_body(br#"{"model": "other", "prompt": "hello"}"#, &reg, &cfg);
    assert_eq!(error_of(&r), "tokenization failed: model not loaded: other");
    let (r, _) = handle_request_body(br#"{"model": "other", "messages": []}"#, &reg, &cfg);
    assert_eq!(error_of(&r), "tokenization failed: model not loaded: other");
    let (r, event) = handle_request_body(br#"{"model": "words", "messages": [{"content": "x"}]}"#, &reg, &cfg);
    assert_eq!(error_of(&r), "messages parse error: missing field `role`");
    assert!(matches!(event, MetricEvent::ExtProcError));
}

#[test]
fn prompt_bodies_are_tokenized() {
    let reg = registry();
    let (r, event) =
        handle_request_body(br#"{"model": "words", "prompt": "hello the world"}"#, &reg, &config("headers"));
    assert_eq!(
        headers(&r),
        vec![pair("x-tokend-token-count", "3"), pair("x-tokend-model", "words")]
    );
    match event {
        MetricEvent::ExtProc { model, token_count, .. } => {
            assert_eq!(model, "words");
            assert_eq!(token_count, 3);
        }
        other => panic!("unexpected metric: {:?}", other),
    }
}

#[test]
fn chat_bodies_are_rendered_then_tokenized() {
    let reg = registry();
    let mut cfg = config("body");
    cfg.inject_tokens = true;
    let body = br#"{"model": "words", "messages": [{"role": "user", "content": "hello world"}]}"#;
    let (r, _) = handle_request_body(body, &reg, &cfg);
    let bytes = r.body_mutation.clone().unwrap();
    let v: serde_json::Value = serde_json::from_slice(&bytes).unwrap();
    assert_eq!(v["token_count"], 2);
    let ids = serde_json::Value::Array(vec![serde_json::Value::from(1), serde_json::Value::from(2)]);
    assert_eq!(v["token_ids"], ids);
    assert_eq!(v["messages"][0]["content"], "hello world");
}

#[test]
fn session_intercepts_only_matching_requests() {
    let reg = registry();
    let cfg = config("headers");
    let mut session = ExtProcSession::new();
    assert!(!session.intercept);
    let (r, event) = session.handle(&ExtRequest::RequestHeaders(path_header("/v1/models")), &reg, &cfg);
    assert_eq!(r.phase, Phase::RequestHeaders);
    assert!(matches!(event, MetricEvent::ExtProcPassthrough));
    let body = br#"{"model": "words", "prompt": "hello"}"#.to_vec();
    let (r, event) = session.handle(&ExtRequest::RequestBody(body.clone()), &reg, &cfg);
    assert_eq!(r.phase, Phase::RequestBody);
    assert!(r.header_mutation.is_none() && r.body_mutation.is_none());
    assert!(matches!(event, MetricEvent::Nothing));

    let (_, event) =
        session.handle(&ExtRequest::RequestHeaders(path_header("/v1/completions")), &reg, &cfg);
    assert!(session.intercept);
    assert!(matches!(event, MetricEvent::Nothing));
    let (r, event) = session.handle(&ExtRequest::RequestBody(body), &reg, &cfg);
    assert_eq!(
        headers(&r),
        vec![pair("x-tokend-token-count", "1"), pair("x-tokend-model", "words")]
    );
    assert!(matches!(event, MetricEvent::ExtProc { .. }));

    let (r, _) = session.handle(&ExtRequest::ResponseHeaders, &reg, &cfg);
    assert_eq!(r.phase, Phase::ResponseHeaders);
    let (r, _) = session.handle(&ExtRequest::ResponseBody, &reg, &cfg);
    assert_eq!(r.phase, Phase::ResponseBody);
    let (r, _) = session.handle(&ExtRequest::Other, &reg, &cfg);
    assert_eq!(r.phase, Phase::RequestHeaders);
}

#[test]
fn parsed_bodies_are_answered_by_their_shape() {
    let reg = registry();
    let cfg = config("headers");
    let start = std::time::Instant::now();
    let no_model = JsonValue::Object(vec![("prompt".into(), JsonValue::Str("hello".into()))]);
    let (r, event) = handle_parsed_body(&no_model, &reg, &cfg, &start);
    assert_eq!(error_of(&r), "missing 'model' field");
    assert!(matches!(event, MetricEvent::ExtProcError));
    let model_not_text = JsonValue::Object(vec![("model".into(), JsonValue::Number("3".into()))]);
    let (r, _) = handle_parsed_body(&model_not_text, &reg, &cfg, &start);
    assert_eq!(error_of(&r), "missing 'model' field");
    let neither = JsonValue::Object(vec![("model".into(), JsonValue::Str("words".into()))]);
    let (r, _) = handle_parsed_body(&neither, &reg, &cfg, &start);
    assert_eq!(error_of(&r), "missing 'messages' or 'prompt' field");
    let prompt = JsonValue::Object(vec![
        ("model".into(), JsonValue::Str("words".into())),
        ("prompt".into(), JsonValue::Str("hello world".into())),
    ]);
    let (r, event) = handle_parsed_body(&prompt, &reg, &cfg, &start);
    assert_eq!(
        headers(&r),
        vec![pair("x-tokend-token-count", "2"), pair("x-tokend-model", "words")]
    );
    match event {
        MetricEvent::ExtProc { model, token_count, .. } => {
            assert_eq!(model, "words");
            assert_eq!(token_count, 2);
        }
        other => panic!("unexpected metric: {:?}", other),
    }
}
