//! The messages of the `tokend.v1` gRPC service.
use vstd::prelude::*;

verus! {

pub struct TokenizeRequest {
    pub model: String,
    pub texts: Vec<String>,
    pub add_special_tokens: bool,
    pub return_tokens: bool,
}

pub struct TokenResult {
    pub token_ids: Vec<u32>,
    pub token_count: u32,
    pub tokens: Vec<String>,
}

pub struct TokenizeResponse {
    pub model: String,
    pub results: Vec<TokenResult>,
    pub latency_us: u64,
}

pub struct FunctionCall {
    pub name: String,
    pub arguments: String,
}

pub struct ToolCall {
    pub id: String,
    /// The field `type` of the message.
    pub call_type: String,
    pub function: Option<FunctionCall>,
}

pub struct ChatMessage {
    pub role: String,
    pub content: Option<String>,
    pub tool_calls: Vec<ToolCall>,
    pub tool_call_id: Option<String>,
    pub name: Option<String>,
}

pub struct ChatTokenizeRequest {
    pub model: String,
    pub messages: Vec<ChatMessage>,
    pub add_generation_prompt: bool,
    pub return_tokens: bool,
}

pub struct ChatTokenizeResponse {
    pub model: String,
    pub token_count: u32,
    pub token_ids: Vec<u32>,
    pub tokens: Vec<String>,
    pub latency_us: u64,
    pub render_us: u64,
}

/// `TOKENIZER_SOURCE_UNSPECIFIED` is 0, `TOKENIZER_SOURCE_HUGGINGFACE` 1 and
/// `TOKENIZER_SOURCE_LOCAL` 2.
pub struct LoadTokenizerRequest {
    pub model: String,
    pub source: i32,
    pub path: Option<String>,
}

pub struct LoadTokenizerResponse {
    pub success: bool,
    pub message: String,
}

pub struct UnloadTokenizerRequest {
    pub model: String,
}

pub struct UnloadTokenizerResponse {
    pub success: bool,
    pub message: String,
}

pub struct HealthRequest {}

pub struct HealthResponse {
    pub serving: bool,
}

} // verus!
