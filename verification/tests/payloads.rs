use tokend::bench::{bench_model, build_chat_messages, format_number, Stats};
use tokend::tokenizer::{TokenizerError, TokenizerRegistry};
use tokend::payloads::{
    chat_for_size, chat_long, chat_medium, chat_short, chat_size_label, text_for_size,
    text_size_label, TEXT_LONG, TEXT_MEDIUM, TEXT_SHORT,
};

#[test]
fn chat_sizes() {
    assert_eq!(chat_short().len(), 2);
    assert_eq!(chat_medium().len(), 5);
    assert_eq!(chat_long().len(), 20);
    let short = chat_short();
    assert_eq!(short[0].role, "system");
    assert_eq!(short[1].content.as_deref(), Some(TEXT_SHORT));
    assert_eq!(chat_medium()[2].content.as_deref(), Some(TEXT_MEDIUM));
    assert!(chat_for_size("short").is_some());
    assert_eq!(chat_for_size("long").unwrap().len(), 20);
    assert!(chat_for_size("huge").is_none());
}

#[test]
fn long_chat_is_cut_from_the_long_text() {
    let long = chat_long();
    let pieces: Vec<&str> = long
        .iter()
        .filter_map(|m| m.content.as_deref())
        .filter(|c| TEXT_LONG.contains(c) && c.len() > 100)
        .collect();
    assert_eq!(pieces.concat(), TEXT_LONG);
    assert_eq!(long[19].content.as_deref(), Some("Summarize the key takeaways."));
}

#[test]
fn size_labels() {
    assert_eq!(chat_size_label("short"), "short (2 turns, ~50 tokens)");
    assert_eq!(chat_size_label("medium"), "medium (5 turns, ~500 tokens)");
    assert_eq!(chat_size_label("long"), "long (20 turns, ~3000 tokens)");
    assert_eq!(chat_size_label("x"), "unknown");
    assert_eq!(text_size_label("short"), "short (~20 tokens)");
    assert_eq!(text_size_label("medium"), "medium (~200 tokens)");
    assert_eq!(text_size_label("long"), "long (~2000 tokens)");
    assert_eq!(text_size_label(""), "unknown");
}

#[test]
fn texts_by_size() {
    assert_eq!(text_for_size("short"), Some(TEXT_SHORT));
    assert_eq!(text_for_size("medium"), Some(TEXT_MEDIUM));
    assert_eq!(text_for_size("long"), Some(TEXT_LONG));
    assert_eq!(text_for_size("tiny"), None);
}

#[test]
fn counts_get_thousands_separators() {
    assert_eq!(format_number(0), "0");
    assert_eq!(format_number(999), "999");
    assert_eq!(format_number(1000), "1,000");
    assert_eq!(format_number(1234567), "1,234,567");
    assert_eq!(format_number(100000), "100,000");
    assert_eq!(format_number(u64::MAX), "18,446,744,073,709,551,615");
}

#[test]
fn grouped_counts_read_back() {
    for n in [0u64, 7, 12, 345, 6789, 10000, 999999, 1000001] {
        assert_eq!(format_number(n).replace(',', ""), n.to_string());
    }
}

#[test]
fn synthetic_conversation_short_text() {
    let m = build_chat_messages("short text", 4);
    assert_eq!(m.len(), 4);
    assert_eq!(m[0].role, "system");
    assert_eq!(m[0].content.as_deref(), Some("You are a helpful assistant."));
    assert_eq!(m[1].role, "user");
    assert_eq!(m[2].role, "assistant");
    assert_eq!(m[3].role, "user");
    assert_eq!(m[3].content.as_deref(), Some("short text"));
    assert!(m[1].tool_calls.is_empty() && m[1].name.is_none() && m[1].tool_call_id.is_none());
    assert_eq!(build_chat_messages("x", 0).len(), 1);
}

#[test]
fn synthetic_conversation_cuts_long_text() {
    let text = TEXT_MEDIUM;
    let m = build_chat_messages(text, 3);
    let half = text.len() / 2;
    let offset1 = 37 % half;
    assert_eq!(m[1].content.as_deref(), Some(&text[offset1..offset1 + half]));
    let offset2 = 74 % half;
    assert_eq!(m[2].content.as_deref(), Some(&text[offset2..offset2 + half]));
}

const WORDS: &str = r#"{
  "version": "1.0",
  "truncation": null,
  "padding": null,
  "added_tokens": [],
  "normalizer": null,
  "pre_tokenizer": {"type": "Whitespace"},
  "post_processor": null,
  "decoder": null,
  "model": {
    "type": "WordLevel",
    "vocab": {"[UNK]": 0, "hello": 1, "world": 2, "the": 3},
    "unk_token": "[UNK]"
  }
}"#;

#[test]
fn bench_run_sums_the_counts() {
    let mut reg = TokenizerRegistry::new("/cache");
    assert!(reg.load("words", Ok(WORDS.to_string())).is_ok());
    let (total, error) = bench_model(&reg, "words", "hello the world", 10);
    assert_eq!(total, 30);
    assert!(error.is_none());
    let (total, error) = bench_model(&reg, "words", "hello", 0);
    assert_eq!(total, 0);
    assert!(error.is_none());
    let (total, error) = bench_model(&reg, "other", "hello", 5);
    assert_eq!(total, 0);
    assert!(matches!(error, Some(TokenizerError::ModelNotFound(_))));
}

fn stats(latencies_ns: Vec<u64>) -> Stats {
    Stats {
        total_requests: latencies_ns.len() as u64,
        total_errors: 0,
        total_tokens: 0,
        elapsed_ns: 1_000_000_000,
        latencies_ns,
        server_latency_sum_us: 0,
        status_counts: vec![("OK".to_string(), 3)],
    }
}

#[test]
fn latency_figures() {
    let s = stats(vec![1_000, 2_000, 4_000]);
    assert_eq!(s.min(), 1_000);
    assert_eq!(s.max(), 4_000);
    // 7000 / 3, rounded down.
    assert_eq!(s.mean(), 2_333);
    let one = stats(vec![1_500_000_001]);
    assert_eq!(one.mean(), 1_500_000_001);
    let big = stats(vec![u64::MAX, u64::MAX]);
    assert_eq!(big.mean(), u64::MAX);
}

#[test]
fn latency_figures_of_no_requests() {
    let s = stats(vec![]);
    assert_eq!(s.min(), 0);
    assert_eq!(s.max(), 0);
    assert_eq!(s.mean(), 0);
}
