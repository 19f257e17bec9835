use tokend::config::{
    cache_dir_for_home, default_cache_dir, default_grpc_port, default_http_port, default_source,
    env_var_references, expand_env_vars, join, Config, ExtProcConfig, ServerConfig,
    TokenizerConfig, TokenizerSource,
};

/// Expands `${VAR}` references with the values a lookup gives, as the
/// daemon does with its environment.
fn expand_with(input: &str, lookup: &dyn Fn(&str) -> Option<String>) -> String {
    let values: Vec<Option<String>> =
        env_var_references(input).iter().map(|name| lookup(name)).collect();
    expand_env_vars(input, &values)
}

fn test_env(name: &str) -> Option<String> {
    if name == "TOKEND_TEST_VAR" {
        Some("hello".to_string())
    } else {
        None
    }
}

#[test]
fn test_expand_env_vars() {
    assert_eq!(expand_with("${TOKEND_TEST_VAR}", &test_env), "hello");
    assert_eq!(expand_with("pre_${TOKEND_TEST_VAR}_post", &test_env), "pre_hello_post");
    assert_eq!(expand_with("${TOKEND_NONEXISTENT}", &test_env), "");
    assert_eq!(expand_with("no vars here", &test_env), "no vars here");
}

#[test]
fn references_in_order() {
    assert_eq!(
        env_var_references("a ${X} b ${Y_2} ${X}"),
        vec!["X".to_string(), "Y_2".to_string(), "X".to_string()]
    );
    assert!(env_var_references("$X {Y} $ {Z}").is_empty());
}

#[test]
fn values_are_taken_in_order() {
    let values = vec![Some("1".to_string()), None, Some("3".to_string())];
    assert_eq!(expand_env_vars("${A}-${B}-${C}-${D}", &values), "1--3-");
}

#[test]
fn unterminated_reference() {
    assert_eq!(env_var_references("x ${OPEN"), vec!["OPEN".to_string()]);
    assert_eq!(expand_env_vars("x ${OPEN", &vec![Some("v".to_string())]), "x v");
}

#[test]
fn paths_join_like_unix() {
    assert_eq!(join("/home/u", ".cache"), "/home/u/.cache");
    assert_eq!(join("/home/u/", ".cache"), "/home/u/.cache");
    assert_eq!(join("/home/u", "/abs"), "/abs");
    assert_eq!(join("", "rel"), "rel");
}

#[test]
fn cache_dir_defaults() {
    assert_eq!(cache_dir_for_home(Some("/home/u".into())), "/home/u/.cache/tokend");
    assert_eq!(cache_dir_for_home(None), "/tmp/tokend/cache");
    let d = default_cache_dir();
    assert!(d == "/tmp/tokend/cache" || d.ends_with("/.cache/tokend"));
}

#[test]
fn default_values() {
    assert_eq!(default_source(), TokenizerSource::Huggingface);
    assert_eq!(default_http_port(), 8765);
    assert_eq!(default_grpc_port(), 8766);
    let server = ServerConfig { uds_path: None, http_port: 8765, grpc_port: 8766 };
    assert_eq!(server.uds_socket_path(), "/var/run/tokend.sock");
    let server = ServerConfig { uds_path: Some("/tmp/t.sock".into()), ..server };
    assert_eq!(server.uds_socket_path(), "/tmp/t.sock");
}

fn config(cache_dir: &str, hf_token: Option<&str>) -> Config {
    Config {
        tokenizers: vec![TokenizerConfig {
            model: "my-local-model".into(),
            source: TokenizerSource::Local,
            path: Some("/models/local/tokenizer.json".into()),
        }],
        server: ServerConfig { uds_path: None, http_port: 9999, grpc_port: 9998 },
        ext_proc: ExtProcConfig::default(),
        cache_dir: cache_dir.into(),
        hf_token: hf_token.map(String::from),
    }
}

#[test]
fn finishing_resolves_home_and_empty_token() {
    let c = config("~/.cache/tokend", Some("")).finish_with_home(Some("/home/u".into()));
    assert_eq!(c.cache_dir, "/home/u/.cache/tokend");
    assert!(c.hf_token.is_none());
    assert_eq!(c.server.http_port, 9999);
    assert_eq!(c.server.grpc_port, 9998);
    assert_eq!(c.tokenizers[0].path.as_deref(), Some("/models/local/tokenizer.json"));

    let c = config("~/.cache/tokend", Some("hf_abc")).finish_with_home(None);
    assert_eq!(c.cache_dir, "~/.cache/tokend");
    assert_eq!(c.hf_token.as_deref(), Some("hf_abc"));

    let c = config("/var/cache/tokend", None).finish_with_home(Some("/home/u".into()));
    assert_eq!(c.cache_dir, "/var/cache/tokend");
}
