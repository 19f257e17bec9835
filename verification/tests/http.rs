use tokend::chat_template::ChatMessage;
use tokend::config::TokenizerSource;
use tokend::json::JsonValue;
use tokend::server::http::{
    chat_tokenize_reply, decode_model_path, default_hf_source, default_true, handle_chat_tokenize,
    handle_ready, handle_tokenize, handle_unload, health_reply, load_reply, parse_source,
    ready_reply, tokenize_reply, ChatTokenizeRequest, TokenizeRequest, TokenizeText,
};
use tokend::server::MetricEvent;
use tokend::tokenizer::{ChatTokenizeResult, TokenResult, TokenizerError, TokenizerRegistry};

const WORDS: &str = r#"{
  "version": "1.0",
  "truncation": null,
  "padding": null,
  "added_tokens": [],
  "normalizer": null,
  "pre_tokenizer": {"type": "Whitespace"},
  "post_processor": null,
  "decoder": null,
  "model": {
    "type": "WordLevel",
    "vocab": {"[UNK]": 0, "hello": 1, "world": 2, "the": 3},
    "unk_token": "[UNK]"
  }
}"#;

fn words() -> String {
    WORDS.to_string()
}

fn render(j: &JsonValue) -> String {
    match j {
        JsonValue::Null => "null".to_string(),
        JsonValue::Bool(b) => b.to_string(),
        JsonValue::Number(n) => n.clone(),
        JsonValue::Str(s) => format!("{:?}", s),
        JsonValue::Array(items) => {
            format!("[{}]", items.iter().map(render).collect::<Vec<_>>().join(","))
        }
        JsonValue::Object(fields) => format!(
            "{{{}}}",
            fields
                .iter()
                .map(|(k, v)| format!("{:?}:{}", k, render(v)))
                .collect::<Vec<_>>()
                .join(",")
        ),
    }
}

fn result(ids: Vec<u32>, tokens: Option<Vec<&str>>) -> TokenResult {
    TokenResult {
        token_count: ids.len() as u32,
        token_ids: ids,
        tokens: tokens.map(|t| t.into_iter().map(String::from).collect()),
    }
}

fn registry_with(model: &str) -> TokenizerRegistry {
    let mut reg = TokenizerRegistry::new("/cache");
    assert!(reg.load(model, Ok(words())).is_ok());
    reg
}

#[test]
fn single_text_reply_is_flat() {
    let (reply, event) = tokenize_reply("m", false, Ok(vec![result(vec![5, 6], None)]), 42);
    assert_eq!(reply.status, 200);
    assert_eq!(
        render(&reply.body),
        r#"{"model":"m","token_ids":[5,6],"token_count":2,"latency_us":42}"#
    );
    match event {
        MetricEvent::Tokenize { model, latency_us, token_count } => {
            assert_eq!(model, "m");
            assert_eq!(latency_us, 42);
            assert_eq!(token_count, 2);
        }
        other => panic!("unexpected metric: {:?}", other),
    }
}

#[test]
fn single_text_reply_with_tokens() {
    let (reply, _) = tokenize_reply("m", false, Ok(vec![result(vec![5], Some(vec!["a"]))]), 1);
    assert_eq!(
        render(&reply.body),
        r#"{"model":"m","token_ids":[5],"token_count":1,"tokens":["a"],"latency_us":1}"#
    );
}

#[test]
fn batch_reply_keeps_the_order() {
    let results = vec![result(vec![1, 2, 3], None), result(vec![4], Some(vec!["x"]))];
    let (reply, event) = tokenize_reply("m", true, Ok(results), 7);
    assert_eq!(reply.status, 200);
    assert_eq!(
        render(&reply.body),
        r#"{"model":"m","results":[{"token_ids":[1,2,3],"token_count":3},{"token_ids":[4],"token_count":1,"tokens":["x"]}],"latency_us":7}"#
    );
    match event {
        MetricEvent::Tokenize { token_count, .. } => assert_eq!(token_count, 4),
        other => panic!("unexpected metric: {:?}", other),
    }
}

#[test]
fn tokenize_errors() {
    let (reply, event) = tokenize_reply("m", false, Err(TokenizerError::ModelNotFound("m".into())), 0);
    assert_eq!(reply.status, 404);
    assert_eq!(render(&reply.body), r#"{"error":"model not loaded: m"}"#);
    assert!(matches!(event, MetricEvent::Error { .. }));
    let failure = TokenizerError::EncodeFailed { model: "m".into(), message: "bad".into() };
    let (reply, event) = tokenize_reply("m", false, Err(failure), 0);
    assert_eq!(reply.status, 500);
    assert_eq!(render(&reply.body), r#"{"error":"tokenization failed for m: bad"}"#);
    match event {
        MetricEvent::Error { model } => assert_eq!(model, "m"),
        other => panic!("unexpected metric: {:?}", other),
    }
}

#[test]
fn handle_tokenize_against_the_registry() {
    let reg = registry_with("words");
    let req = TokenizeRequest {
        model: "words".into(),
        text: TokenizeText::Single("hello world".into()),
        add_special_tokens: true,
        return_tokens: false,
    };
    let (reply, _) = handle_tokenize(&reg, &req);
    assert_eq!(reply.status, 200);
    assert!(render(&reply.body).starts_with(r#"{"model":"words","token_ids":[1,2],"token_count":2,"latency_us":"#));
    let missing = TokenizeRequest { model: "other".into(), ..req };
    let (reply, _) = handle_tokenize(&reg, &missing);
    assert_eq!(reply.status, 404);
    assert_eq!(render(&reply.body), r#"{"error":"model not loaded: other"}"#);
}

#[test]
fn chat_reply_bodies() {
    let res = ChatTokenizeResult {
        token_ids: vec![9, 8],
        token_count: 2,
        tokens: None,
        render_us: 3,
    };
    let (reply, event) = chat_tokenize_reply("m", Ok(res), 11);
    assert_eq!(reply.status, 200);
    assert_eq!(
        render(&reply.body),
        r#"{"model":"m","token_count":2,"token_ids":[9,8],"latency_us":11,"render_us":3}"#
    );
    match event {
        MetricEvent::ChatTokenize { model, latency_us, render_us, token_count } => {
            assert_eq!((model.as_str(), latency_us, render_us, token_count), ("m", 11, 3, 2));
        }
        other => panic!("unexpected metric: {:?}", other),
    }
    let (reply, event) =
        chat_tokenize_reply("m", Err(TokenizerError::ChatTemplateNotAvailable("m".into())), 0);
    assert_eq!(reply.status, 400);
    assert_eq!(render(&reply.body), r#"{"error":"chat template not available for m"}"#);
    assert!(matches!(event, MetricEvent::Nothing));
    let failure = TokenizerError::ChatTemplateRenderFailed { model: "m".into(), message: "x".into() };
    let (reply, _) = chat_tokenize_reply("m", Err(failure), 0);
    assert_eq!(reply.status, 500);
    assert_eq!(render(&reply.body), r#"{"error":"chat template render failed for m: x"}"#);
}

#[test]
fn handle_chat_tokenize_without_template() {
    let reg = registry_with("words");
    let req = ChatTokenizeRequest {
        model: "words".into(),
        messages: vec![ChatMessage {
            role: "user".into(),
            content: Some("hello".into()),
            tool_calls: None,
            tool_call_id: None,
            name: None,
        }],
        add_generation_prompt: true,
        tools: None,
        add_special_tokens: true,
        return_tokens: false,
    };
    let (reply, _) = handle_chat_tokenize(&reg, &req);
    assert_eq!(reply.status, 400);
    assert_eq!(render(&reply.body), r#"{"error":"chat template not available for words"}"#);
}

#[test]
fn sources_by_name() {
    assert!(matches!(parse_source("huggingface"), Ok(TokenizerSource::Huggingface)));
    assert!(matches!(parse_source("local"), Ok(TokenizerSource::Local)));
    match parse_source("s3") {
        Err(reply) => {
            assert_eq!(reply.status, 400);
            assert_eq!(render(&reply.body), r#"{"error":"unknown source: s3"}"#);
        }
        Ok(_) => panic!("accepted an unknown source"),
    }
    assert_eq!(default_hf_source(), "huggingface");
    assert!(default_true());
}

#[test]
fn load_replies() {
    let reg = registry_with("words");
    let (reply, event) = load_reply(&reg, "words", Ok(()));
    assert_eq!(reply.status, 200);
    assert_eq!(render(&reply.body), r#"{"success":true,"message":"loaded words"}"#);
    match event {
        MetricEvent::LoadedModels { count } => assert_eq!(count, 1),
        other => panic!("unexpected metric: {:?}", other),
    }
    let (reply, _) = load_reply(&reg, "words", Err(TokenizerError::AlreadyLoaded("words".into())));
    assert_eq!(reply.status, 409);
    assert_eq!(render(&reply.body), r#"{"error":"model already loaded: words"}"#);
    let failure = TokenizerError::LoadFailed { model: "x".into(), message: "404".into() };
    let (reply, _) = load_reply(&reg, "x", Err(failure));
    assert_eq!(reply.status, 500);
    assert_eq!(render(&reply.body), r#"{"error":"failed to load tokenizer for x: 404"}"#);
}

#[test]
fn model_paths_are_percent_decoded() {
    assert_eq!(
        decode_model_path("mistralai%2FMistral-7B-Instruct-v0.3"),
        "mistralai/Mistral-7B-Instruct-v0.3"
    );
    assert_eq!(decode_model_path("plain"), "plain");
}

#[test]
fn unload_by_path() {
    let mut reg = registry_with("org/words");
    let (reply, event) = handle_unload(&mut reg, "org%2Fwords");
    assert_eq!(reply.status, 200);
    assert_eq!(render(&reply.body), r#"{"success":true,"message":"unloaded org/words"}"#);
    match event {
        MetricEvent::LoadedModels { count } => assert_eq!(count, 0),
        other => panic!("unexpected metric: {:?}", other),
    }
    let (reply, _) = handle_unload(&mut reg, "org%2Fwords");
    assert_eq!(reply.status, 404);
    assert_eq!(render(&reply.body), r#"{"error":"model not loaded: org/words"}"#);
}

#[test]
fn health_and_readiness() {
    let reply = health_reply();
    assert_eq!(reply.status, 200);
    assert_eq!(render(&reply.body), r#"{"status":"ok"}"#);
    let reply = ready_reply(3, 3);
    assert_eq!(reply.status, 200);
    assert_eq!(
        render(&reply.body),
        r#"{"ready":true,"loaded_models":3,"expected_models":3}"#
    );
    let reply = ready_reply(1, 3);
    assert_eq!(reply.status, 503);
    assert_eq!(
        render(&reply.body),
        r#"{"ready":false,"loaded_models":1,"expected_models":3}"#
    );
    assert_eq!(ready_reply(0, 0).status, 503);
    let reg = registry_with("words");
    assert_eq!(handle_ready(&reg, 1).status, 200);
    assert_eq!(handle_ready(&reg, 2).status, 503);
}

#[test]
fn one_element_array_answers_results() {
    let (reply, _) = tokenize_reply("m", true, Ok(vec![result(vec![5, 6], None)]), 3);
    assert_eq!(
        render(&reply.body),
        r#"{"model":"m","results":[{"token_ids":[5,6],"token_count":2}],"latency_us":3}"#
    );
    let reg = registry_with("words");
    let req = TokenizeRequest {
        model: "words".into(),
        text: TokenizeText::Batch(vec!["the world".into()]),
        add_special_tokens: true,
        return_tokens: false,
    };
    let (reply, _) = handle_tokenize(&reg, &req);
    assert_eq!(reply.status, 200);
    assert!(render(&reply.body)
        .starts_with(r#"{"model":"words","results":[{"token_ids":[3,2],"token_count":2}],"latency_us":"#));
}

#[test]
fn chat_for_unknown_model_is_not_found() {
    let reg = registry_with("words");
    let req = ChatTokenizeRequest {
        model: "other".into(),
        messages: vec![],
        add_generation_prompt: true,
        tools: None,
        add_special_tokens: true,
        return_tokens: false,
    };
    let (reply, event) = handle_chat_tokenize(&reg, &req);
    assert_eq!(reply.status, 404);
    assert_eq!(render(&reply.body), r#"{"error":"model not loaded: other"}"#);
    assert!(matches!(event, MetricEvent::Error { .. }));
}

#[test]
fn percent_decoding_of_model_paths() {
    assert_eq!(decode_model_path("a%2fb%2Fc"), "a/b/c");
    assert_eq!(decode_model_path("caf%C3%A9"), "caf\u{e9}");
    assert_eq!(decode_model_path("a+b"), "a+b");
    // Escapes that are not two hexadecimal digits stay as they are.
    assert_eq!(decode_model_path("%zz%4"), "%zz%4");
    assert_eq!(decode_model_path("%4g%"), "%4g%");
    assert_eq!(decode_model_path("%%41"), "%A");
    // Decoded bytes that are not UTF-8: the path is taken as it is.
    assert_eq!(decode_model_path("bad%FF"), "bad%FF");
    assert_eq!(decode_model_path(""), "");
}
