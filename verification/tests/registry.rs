use tokend::chat_template::ChatMessage;
use tokend::config::TokenizerSource;
use tokend::tokenizer::{parse_definition, token_result, LoadPlan, TokenizerError, TokenizerRegistry};

const WORDS: &str = r#"{
  "version": "1.0",
  "truncation": null,
  "padding": null,
  "added_tokens": [],
  "normalizer": null,
  "pre_tokenizer": {"type": "Whitespace"},
  "post_processor": null,
  "decoder": null,
  "model": {
    "type": "WordLevel",
    "vocab": {"[UNK]": 0, "hello": 1, "world": 2, "the": 3},
    "unk_token": "[UNK]"
  }
}"#;

fn words() -> String {
    WORDS.to_string()
}

fn message(role: &str, content: &str) -> ChatMessage {
    ChatMessage {
        role: role.to_string(),
        content: Some(content.to_string()),
        tool_calls: None,
        tool_call_id: None,
        name: None,
    }
}

fn registry_with(model: &str) -> TokenizerRegistry {
    let mut reg = TokenizerRegistry::new("/cache");
    assert!(reg.load(model, Ok(words())).is_ok());
    reg
}

const CONFIG_WITH_TEMPLATE: &str = r#"{
  "bos_token": "<s>",
  "eos_token": {"content": "</s>", "__type": "AddedToken"},
  "chat_template": "{% for m in messages %}{{ m.content }} {% endfor %}"
}"#;

#[test]
fn new_registry_is_empty() {
    let reg = TokenizerRegistry::new("/cache");
    assert_eq!(reg.model_count(), 0);
    assert!(reg.list_models().is_empty());
    assert!(!reg.has_chat_template("any"));
}

#[test]
fn cache_path_replaces_slashes() {
    let reg = TokenizerRegistry::new("/cache");
    assert_eq!(
        reg.cache_path("meta-llama/Llama-3.1-70B"),
        "/cache/meta-llama--Llama-3.1-70B/tokenizer.json"
    );
    let reg = TokenizerRegistry::new("/cache/");
    assert_eq!(reg.cache_path("gpt2"), "/cache/gpt2/tokenizer.json");
}

#[test]
fn plan_load_picks_the_source() {
    let reg = registry_with("loaded");
    match reg.plan_load("org/model", TokenizerSource::Huggingface, None) {
        Ok(LoadPlan::FromHub { cache_path }) => {
            assert_eq!(cache_path, "/cache/org--model/tokenizer.json")
        }
        other => panic!("unexpected plan: {:?}", other),
    }
    match reg.plan_load("mine", TokenizerSource::Local, Some("/models/mine/tokenizer.json")) {
        Ok(LoadPlan::FromFile { path }) => assert_eq!(path, "/models/mine/tokenizer.json"),
        other => panic!("unexpected plan: {:?}", other),
    }
    match reg.plan_load("mine", TokenizerSource::Local, None) {
        Err(e) => assert_eq!(
            e.to_string(),
            "failed to load tokenizer for mine: local source requires a path"
        ),
        other => panic!("unexpected plan: {:?}", other),
    }
    match reg.plan_load("loaded", TokenizerSource::Huggingface, None) {
        Err(TokenizerError::AlreadyLoaded(m)) => assert_eq!(m, "loaded"),
        other => panic!("unexpected plan: {:?}", other),
    }
}

#[test]
fn load_then_tokenize() {
    let reg = registry_with("words");
    assert_eq!(reg.model_count(), 1);
    assert_eq!(reg.list_models(), vec!["words".to_string()]);
    let results = reg.tokenize("words", &["hello world", "the"], true, false).unwrap();
    assert_eq!(results.len(), 2);
    assert_eq!(results[0].token_ids, vec![1, 2]);
    assert_eq!(results[0].token_count, 2);
    assert!(results[0].tokens.is_none());
    assert_eq!(results[1].token_ids, vec![3]);
    assert_eq!(results[1].token_count, 1);
}

#[test]
fn tokenize_returns_token_strings_when_asked() {
    let reg = registry_with("words");
    let results = reg.tokenize("words", &["hello world"], true, true).unwrap();
    assert_eq!(
        results[0].tokens,
        Some(vec!["hello".to_string(), "world".to_string()])
    );
}

#[test]
fn tokenize_unknown_model_fails() {
    let reg = TokenizerRegistry::new("/cache");
    match reg.tokenize("missing", &["hello"], true, false) {
        Err(e) => assert_eq!(e.to_string(), "model not loaded: missing"),
        Ok(_) => panic!("tokenized with no model"),
    }
}

#[test]
fn load_twice_is_refused() {
    let mut reg = registry_with("words");
    match reg.load("words", Ok(words())) {
        Err(e) => assert_eq!(e.to_string(), "model already loaded: words"),
        Ok(()) => panic!("loaded twice"),
    }
    assert_eq!(reg.model_count(), 1);
}

#[test]
fn failed_fetch_is_reported() {
    let mut reg = TokenizerRegistry::new("/cache");
    match reg.load("broken", Err("file not found".to_string())) {
        Err(e) => assert_eq!(
            e.to_string(),
            "failed to load tokenizer for broken: file not found"
        ),
        Ok(()) => panic!("loaded a failed fetch"),
    }
    assert_eq!(reg.model_count(), 0);
}

#[test]
fn unload_then_load_again() {
    let mut reg = registry_with("words");
    assert!(reg.unload("words").is_ok());
    assert_eq!(reg.model_count(), 0);
    match reg.unload("words") {
        Err(e) => assert_eq!(e.to_string(), "model not loaded: words"),
        Ok(()) => panic!("unloaded twice"),
    }
    assert!(reg.load("words", Ok(words())).is_ok());
    assert_eq!(reg.model_count(), 1);
}

#[test]
fn error_texts() {
    let cases = vec![
        (TokenizerError::ModelNotFound("m".into()), "model not loaded: m"),
        (TokenizerError::AlreadyLoaded("m".into()), "model already loaded: m"),
        (
            TokenizerError::LoadFailed { model: "m".into(), message: "x".into() },
            "failed to load tokenizer for m: x",
        ),
        (
            TokenizerError::EncodeFailed { model: "m".into(), message: "x".into() },
            "tokenization failed for m: x",
        ),
        (
            TokenizerError::ChatTemplateNotAvailable("m".into()),
            "chat template not available for m",
        ),
        (
            TokenizerError::ChatTemplateRenderFailed { model: "m".into(), message: "x".into() },
            "chat template render failed for m: x",
        ),
        (
            TokenizerError::FetchConfigFailed { model: "m".into(), message: "x".into() },
            "failed to fetch tokenizer config for m: x",
        ),
    ];
    for (e, text) in cases {
        assert_eq!(e.to_string(), text);
    }
}

#[test]
fn chat_template_needs_a_loaded_model() {
    let mut reg = TokenizerRegistry::new("/cache");
    match reg.load_chat_template("words", Ok(CONFIG_WITH_TEMPLATE.to_string())) {
        Err(e) => assert_eq!(e.to_string(), "model not loaded: words"),
        Ok(()) => panic!("template for a missing model"),
    }
}

#[test]
fn chat_template_fetch_failures() {
    let mut reg = registry_with("words");
    match reg.load_chat_template("words", Err("offline".to_string())) {
        Err(e) => assert_eq!(e.to_string(), "failed to fetch tokenizer config for words: offline"),
        Ok(()) => panic!("template from a failed fetch"),
    }
    match reg.load_chat_template("words", Ok("{\"bos_token\": \"<s>\"}".to_string())) {
        Err(e) => assert_eq!(
            e.to_string(),
            "failed to fetch tokenizer config for words: no chat_template field in tokenizer_config.json"
        ),
        Ok(()) => panic!("template from a config without one"),
    }
    match reg.load_chat_template("words", Ok("not json".to_string())) {
        Err(TokenizerError::FetchConfigFailed { model, .. }) => assert_eq!(model, "words"),
        other => panic!("unexpected outcome: {:?}", other),
    }
    assert!(!reg.has_chat_template("words"));
}

#[test]
fn chat_template_that_does_not_compile() {
    let mut reg = registry_with("words");
    let config = r#"{"chat_template": "{% for m in messages %}"}"#;
    match reg.load_chat_template("words", Ok(config.to_string())) {
        Err(TokenizerError::ChatTemplateRenderFailed { model, .. }) => assert_eq!(model, "words"),
        other => panic!("unexpected outcome: {:?}", other),
    }
    assert!(!reg.has_chat_template("words"));
}

#[test]
fn chat_tokenize_renders_then_tokenizes() {
    let mut reg = registry_with("words");
    assert!(reg.load_chat_template("words", Ok(CONFIG_WITH_TEMPLATE.to_string())).is_ok());
    assert!(reg.has_chat_template("words"));
    let messages = vec![message("user", "hello"), message("assistant", "world")];
    let result = reg.chat_tokenize("words", &messages, true, None, true, true).unwrap();
    assert_eq!(result.token_ids, vec![1, 2]);
    assert_eq!(result.token_count, 2);
    assert_eq!(
        result.tokens,
        Some(vec!["hello".to_string(), "world".to_string()])
    );
}

#[test]
fn chat_tokenize_without_template() {
    let reg = registry_with("words");
    match reg.chat_tokenize("words", &[message("user", "hello")], true, None, true, false) {
        Err(e) => assert_eq!(e.to_string(), "chat template not available for words"),
        Ok(_) => panic!("rendered without a template"),
    }
}

#[test]
fn unload_drops_the_chat_template() {
    let mut reg = registry_with("words");
    assert!(reg.load_chat_template("words", Ok(CONFIG_WITH_TEMPLATE.to_string())).is_ok());
    assert!(reg.unload("words").is_ok());
    assert!(!reg.has_chat_template("words"));
    assert!(reg.load("words", Ok(words())).is_ok());
    assert!(!reg.has_chat_template("words"));
}

#[test]
fn definition_that_does_not_parse_is_refused() {
    let mut reg = TokenizerRegistry::new("/cache");
    match reg.load("bad", Ok("not a tokenizer".to_string())) {
        Err(TokenizerError::LoadFailed { model, message }) => {
            assert_eq!(model, "bad");
            assert!(!message.is_empty());
        }
        other => panic!("unexpected outcome: {:?}", other),
    }
    assert_eq!(reg.model_count(), 0);
}

#[test]
fn chat_tokenize_unknown_model_is_not_loaded() {
    let reg = TokenizerRegistry::new("/cache");
    match reg.chat_tokenize("missing", &[message("user", "hello")], true, None, true, false) {
        Err(e) => assert_eq!(e.to_string(), "model not loaded: missing"),
        Ok(_) => panic!("rendered without a model"),
    }
}

#[test]
fn each_text_gets_its_own_ids() {
    let reg = registry_with("words");
    let results = reg.tokenize("words", &["world", "hello the", "nothing"], false, true).unwrap();
    assert_eq!(results[0].token_ids, vec![2]);
    assert_eq!(results[1].token_ids, vec![1, 3]);
    assert_eq!(results[2].token_ids, vec![0]);
    assert_eq!(results[2].tokens, Some(vec!["[UNK]".to_string()]));
}

#[test]
fn tokenizing_no_texts_gives_no_results() {
    let reg = registry_with("words");
    let results = reg.tokenize("words", &[], true, true).unwrap();
    assert!(results.is_empty());
}

#[test]
fn token_results_count_their_ids() {
    let r = token_result(vec![7, 8, 9], vec!["a".to_string(), "b".to_string(), "c".to_string()], false);
    assert_eq!(r.token_ids, vec![7, 8, 9]);
    assert_eq!(r.token_count, 3);
    assert!(r.tokens.is_none());
    let r = token_result(vec![4], vec!["x".to_string()], true);
    assert_eq!(r.token_count, 1);
    assert_eq!(r.tokens, Some(vec!["x".to_string()]));
    let r = token_result(vec![], vec![], true);
    assert_eq!(r.token_count, 0);
    assert_eq!(r.tokens, Some(vec![]));
}

#[test]
fn parse_then_insert_loads_a_model() {
    let mut reg = TokenizerRegistry::new("/cache");
    let t = parse_definition("words", Ok(words())).unwrap();
    assert!(reg.insert_parsed("words", t).is_ok());
    let results = reg.tokenize("words", &["hello"], true, false).unwrap();
    assert_eq!(results[0].token_ids, vec![1]);
    let again = parse_definition("words", Ok(words())).unwrap();
    match reg.insert_parsed("words", again) {
        Err(e) => assert_eq!(e.to_string(), "model already loaded: words"),
        Ok(()) => panic!("loaded twice"),
    }
    match parse_definition("x", Err("404".to_string())) {
        Err(e) => assert_eq!(e.to_string(), "failed to load tokenizer for x: 404"),
        Ok(_) => panic!("parsed a failed fetch"),
    }
}
