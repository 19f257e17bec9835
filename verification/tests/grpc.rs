use tokend::server::grpc::{
    chat_tokenize, chat_tokenize_reply, health, load_reply, load_source, tokenize, tokenize_reply,
    unload_tokenizer, Code,
};
use tokend::server::proto;
use tokend::server::MetricEvent;
use tokend::config::TokenizerSource;
use tokend::tokenizer::{ChatTokenizeResult, TokenResult, TokenizerError, TokenizerRegistry};

const WORDS: &str = r#"{
  "version": "1.0",
  "truncation": null,
  "padding": null,
  "added_tokens": [],
  "normalizer": null,
  "pre_tokenizer": {"type": "Whitespace"},
  "post_processor": null,
  "decoder": null,
  "model": {
    "type": "WordLevel",
    "vocab": {"[UNK]": 0, "hello": 1, "world": 2, "the": 3},
    "unk_token": "[UNK]"
  }
}"#;

fn registry_with(model: &str) -> TokenizerRegistry {
    let mut reg = TokenizerRegistry::new("/cache");
    assert!(reg.load(model, Ok(WORDS.to_string())).is_ok());
    reg
}

fn request(model: &str, texts: Vec<&str>) -> proto::TokenizeRequest {
    proto::TokenizeRequest {
        model: model.to_string(),
        texts: texts.into_iter().map(String::from).collect(),
        add_special_tokens: true,
        return_tokens: false,
    }
}

fn user(content: &str) -> proto::ChatMessage {
    proto::ChatMessage {
        role: "user".into(),
        content: Some(content.into()),
        tool_calls: vec![],
        tool_call_id: None,
        name: None,
    }
}

#[test]
fn empty_texts_are_invalid() {
    let reg = registry_with("words");
    let (r, event) = tokenize(&reg, request("words", vec![]));
    match r {
        Err(s) => {
            assert_eq!(s.code, Code::InvalidArgument);
            assert_eq!(s.message, "texts must not be empty");
        }
        Ok(_) => panic!("accepted no texts"),
    }
    assert!(matches!(event, MetricEvent::Nothing));
}

#[test]
fn tokenize_always_answers_a_list() {
    let reg = registry_with("words");
    let (r, event) = tokenize(&reg, request("words", vec!["hello world"]));
    let resp = r.ok().unwrap();
    assert_eq!(resp.model, "words");
    assert_eq!(resp.results.len(), 1);
    assert_eq!(resp.results[0].token_ids, vec![1, 2]);
    assert_eq!(resp.results[0].token_count, 2);
    assert!(resp.results[0].tokens.is_empty());
    match event {
        MetricEvent::Tokenize { model, token_count, latency_us } => {
            assert_eq!(model, "words");
            assert_eq!(token_count, 2);
            assert_eq!(latency_us, resp.latency_us);
        }
        other => panic!("unexpected metric: {:?}", other),
    }
}

#[test]
fn tokenize_unknown_model_is_not_found() {
    let reg = registry_with("words");
    let (r, _) = tokenize(&reg, request("other", vec!["hello"]));
    match r {
        Err(s) => {
            assert_eq!(s.code, Code::NotFound);
            assert_eq!(s.message, "model not loaded: other");
        }
        Ok(_) => panic!("tokenized with no model"),
    }
}

#[test]
fn tokenize_reply_maps_every_result() {
    let results = vec![
        TokenResult { token_ids: vec![1], token_count: 1, tokens: Some(vec!["a".into()]) },
        TokenResult { token_ids: vec![2, 3], token_count: 2, tokens: None },
    ];
    let (r, event) = tokenize_reply("m".to_string(), Ok(results), 5);
    let resp = r.ok().unwrap();
    assert_eq!(resp.latency_us, 5);
    assert_eq!(resp.results[0].tokens, vec!["a".to_string()]);
    assert_eq!(resp.results[1].token_ids, vec![2, 3]);
    match event {
        MetricEvent::Tokenize { token_count, .. } => assert_eq!(token_count, 3),
        other => panic!("unexpected metric: {:?}", other),
    }
    let failure = TokenizerError::EncodeFailed { model: "m".into(), message: "x".into() };
    let (r, _) = tokenize_reply("m".to_string(), Err(failure), 5);
    match r {
        Err(s) => {
            assert_eq!(s.code, Code::Internal);
            assert_eq!(s.message, "tokenization failed for m: x");
        }
        Ok(_) => panic!("answered a failure"),
    }
}

#[test]
fn chat_tokenize_needs_messages_and_template() {
    let reg = registry_with("words");
    let empty = proto::ChatTokenizeRequest {
        model: "words".into(),
        messages: vec![],
        add_generation_prompt: true,
        return_tokens: false,
    };
    match chat_tokenize(&reg, empty).0 {
        Err(s) => {
            assert_eq!(s.code, Code::InvalidArgument);
            assert_eq!(s.message, "messages must not be empty");
        }
        Ok(_) => panic!("accepted no messages"),
    }
    let req = proto::ChatTokenizeRequest {
        model: "words".into(),
        messages: vec![user("hello")],
        add_generation_prompt: true,
        return_tokens: false,
    };
    match chat_tokenize(&reg, req).0 {
        Err(s) => {
            assert_eq!(s.code, Code::FailedPrecondition);
            assert_eq!(s.message, "chat template not available for words");
        }
        Ok(_) => panic!("rendered without a template"),
    }
}

#[test]
fn chat_tokenize_with_template() {
    let mut reg = registry_with("words");
    let config = r#"{"chat_template": "{% for m in messages %}{{ m.content }} {% endfor %}"}"#;
    assert!(reg.load_chat_template("words", Ok(config.to_string())).is_ok());
    let req = proto::ChatTokenizeRequest {
        model: "words".into(),
        messages: vec![user("hello"), user("the world")],
        add_generation_prompt: true,
        return_tokens: true,
    };
    let (r, _) = chat_tokenize(&reg, req);
    let resp = r.ok().unwrap();
    assert_eq!(resp.token_ids, vec![1, 3, 2]);
    assert_eq!(resp.token_count, 3);
    assert_eq!(resp.tokens, vec!["hello".to_string(), "the".to_string(), "world".to_string()]);
}

#[test]
fn chat_tokenize_reply_fields() {
    let res = ChatTokenizeResult { token_ids: vec![4], token_count: 1, tokens: None, render_us: 2 };
    let (r, _) = chat_tokenize_reply("m".to_string(), Ok(res), 9);
    let resp = r.ok().unwrap();
    assert_eq!((resp.token_count, resp.latency_us, resp.render_us), (1, 9, 2));
    assert!(resp.tokens.is_empty());
    let (r, event) = chat_tokenize_reply(
        "m".to_string(),
        Err(TokenizerError::ModelNotFound("m".into())),
        0,
    );
    match r {
        Err(s) => assert_eq!(s.code, Code::NotFound),
        Ok(_) => panic!("answered a failure"),
    }
    assert!(matches!(event, MetricEvent::Error { .. }));
}

#[test]
fn load_sources_and_replies() {
    assert!(matches!(load_source(1), Ok(TokenizerSource::Huggingface)));
    assert!(matches!(load_source(2), Ok(TokenizerSource::Local)));
    match load_source(0) {
        Err(s) => {
            assert_eq!(s.code, Code::InvalidArgument);
            assert_eq!(s.message, "source must be HUGGINGFACE or LOCAL");
        }
        Ok(_) => panic!("accepted an unspecified source"),
    }
    let reg = registry_with("words");
    let (r, _) = load_reply(&reg, "words", Ok(()));
    let resp = r.ok().unwrap();
    assert!(resp.success);
    assert_eq!(resp.message, "loaded words");
    match load_reply(&reg, "words", Err(TokenizerError::AlreadyLoaded("words".into()))).0 {
        Err(s) => {
            assert_eq!(s.code, Code::AlreadyExists);
            assert_eq!(s.message, "model already loaded: words");
        }
        Ok(_) => panic!("answered a failure"),
    }
}

#[test]
fn unload_over_grpc() {
    let mut reg = registry_with("words");
    let (r, _) = unload_tokenizer(&mut reg, proto::UnloadTokenizerRequest { model: "words".into() });
    let resp = r.ok().unwrap();
    assert!(resp.success);
    assert_eq!(resp.message, "unloaded words");
    let (r, _) = unload_tokenizer(&mut reg, proto::UnloadTokenizerRequest { model: "words".into() });
    match r {
        Err(s) => {
            assert_eq!(s.code, Code::NotFound);
            assert_eq!(s.message, "model not loaded: words");
        }
        Ok(_) => panic!("unloaded twice"),
    }
    assert!(health(proto::HealthRequest {}).serving);
}
