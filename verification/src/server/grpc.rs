//! The gRPC `TokenizerService`: what each RPC answers.
use vstd::prelude::*;
use vstd::string::*;
use crate::chat_template;
use crate::config::TokenizerSource;
use crate::server::MetricEvent;
use crate::server::proto;
use crate::server::http;
use crate::text;
use crate::tokenizer;
use crate::tokenizer::{TokenizerError, TokenizerRegistry};

verus! {

broadcast use vstd::string::group_string_axioms;

/// The gRPC status codes the service answers with.
#[derive(Clone, Copy, Debug, PartialEq, Eq, Structural)]
pub enum Code {
    InvalidArgument,
    NotFound,
    AlreadyExists,
    FailedPrecondition,
    Internal,
}

/// A failed RPC: its code and message.
#[derive(Debug)]
pub struct Status {
    pub code: Code,
    pub message: String,
}

fn status(code: Code, message: String) -> (r: Status)
    ensures
        r.code == code,
        r.message == message,
{
    Status { code, message }
}

/// Whether `r` failed with `code` and message `text`.
pub open spec fn fails_with<T>(r: Result<T, Status>, code: Code, text: Seq<char>) -> bool {
    r matches Err(s) && s.code == code && s.message@ == text
}

/// A token result of the service: token strings are always a list, empty
/// where they were not asked for.
pub open spec fn proto_result_of(r: tokenizer::TokenResult, p: proto::TokenResult) -> bool {
    &&& p.token_ids == r.token_ids
    &&& p.token_count == r.token_count
    &&& p.tokens@ == (match r.tokens {
        Some(t) => t@,
        None => Seq::<String>::empty(),
    })
}

fn strings_or_empty(o: Option<Vec<String>>) -> (r: Vec<String>)
    ensures
        r@ == (match o {
            Some(t) => t@,
            None => Seq::<String>::empty(),
        }),
{
    match o {
        Some(t) => t,
        None => Vec::new(),
    }
}

/// The answer of the `Tokenize` RPC to the registry's answer, and the metric
/// it records: every result, in order, however many texts there were.
pub open spec fn tokenize_answer(
    r: (Result<proto::TokenizeResponse, Status>, MetricEvent),
    model: Seq<char>,
    result: Result<Vec<tokenizer::TokenResult>, TokenizerError>,
    latency_us: u64,
) -> bool {
    match result {
        Ok(results) => {
            &&& r.0 matches Ok(resp)
            &&& resp.model@ == model
            &&& resp.latency_us == latency_us
            &&& resp.results.len() == results.len()
            &&& forall|i: int|
                0 <= i < results.len() ==> proto_result_of(results@[i], #[trigger] resp.results@[i])
            &&& r.1 matches MetricEvent::Tokenize { model: m, latency_us: l, token_count: t }
            &&& m@ == model && l == latency_us && t == http::total_tokens(results@)
        },
        Err(TokenizerError::ModelNotFound(m)) => {
            &&& fails_with(r.0, Code::NotFound, "model not loaded: "@ + m@)
            &&& r.1 matches MetricEvent::Error { model: mm } && mm@ == m@
        },
        Err(e) => {
            &&& fails_with(r.0, Code::Internal, tokenizer::error_text(e))
            &&& r.1 matches MetricEvent::Error { model: mm } && mm@ == model
        },
    }
}

/// Answers the `Tokenize` RPC from the registry's answer.
pub fn tokenize_reply(
    model: String,
    result: Result<Vec<tokenizer::TokenResult>, TokenizerError>,
    latency_us: u64,
) -> (r: (Result<proto::TokenizeResponse, Status>, MetricEvent))
    ensures
        tokenize_answer(r, model@, result, latency_us),
{
    match result {
        Ok(results) => {
            let mut total: u64 = 0;
            let mut out: Vec<proto::TokenResult> = Vec::new();
            let ghost all = results@;
            let n = results.len();
            let mut rev: Vec<tokenizer::TokenResult> = Vec::new();
            let mut results = results;
            while results.len() > 0
                invariant
                    rev@ =~= all.skip(results.len() as int).reverse(),
                    results@ =~= all.take(results.len() as int),
                    results.len() <= all.len(),
                decreases results.len(),
            {
                let r = results.pop().unwrap();
                rev.push(r);
                assert(all.skip(results.len() as int).reverse() =~= all.skip(results.len() + 1).reverse().push(r));
            }
            assert(all.skip(0) =~= all);
            let mut k: usize = 0;
            while rev.len() > 0
                invariant
                    k + rev.len() == all.len(),
                    all.len() == n,
                    rev@ =~= all.skip(k as int).reverse(),
                    out.len() == k,
                    total == http::total_tokens(all.take(k as int)),
                    forall|j: int| 0 <= j < k ==> proto_result_of(all[j], #[trigger] out@[j]),
                decreases rev.len(),
            {
                let r = rev.pop().unwrap();
                assert(r == all[k as int]);
                assert(all.take(k + 1).drop_last() =~= all.take(k as int));
                total = total.wrapping_add(r.token_count as u64);
                out.push(proto::TokenResult {
                    token_ids: r.token_ids,
                    token_count: r.token_count,
                    tokens: strings_or_empty(r.tokens),
                });
                k = k + 1;
                assert(rev@ =~= all.skip(k as int).reverse());
            }
            assert(all.take(k as int) =~= all);
            (
                Ok(proto::TokenizeResponse { model: model.clone(), results: out, latency_us }),
                MetricEvent::Tokenize { model, latency_us, token_count: total },
            )
        },
        Err(TokenizerError::ModelNotFound(m)) => (
            Err(status(Code::NotFound, text::concat("model not loaded: ", m.as_str()))),
            MetricEvent::Error { model: m },
        ),
        Err(e) => (Err(status(Code::Internal, e.to_string())), MetricEvent::Error { model }),
    }
}

/// The `Tokenize` RPC: the texts must not be empty; they are tokenized, the
/// work of the registry timed.
pub fn tokenize(registry: &TokenizerRegistry, req: proto::TokenizeRequest) -> (r: (
    Result<proto::TokenizeResponse, Status>,
    MetricEvent,
))
    ensures
        req.texts.len() == 0 ==> fails_with(r.0, Code::InvalidArgument, "texts must not be empty"@)
            && r.1 is Nothing,
        req.texts.len() > 0 ==> exists|
            res: Result<Vec<tokenizer::TokenResult>, TokenizerError>,
            latency_us: u64,
        |
            tokenizer::tokenize_outcome(
                res,
                registry@,
                req.model@,
                req.texts@.map_values(|t: String| t@),
                req.add_special_tokens,
                req.return_tokens,
            ) && #[trigger] tokenize_answer(r, req.model@, res, latency_us),
{
    if req.texts.len() == 0 {
        return (
            Err(status(Code::InvalidArgument, String::from_str("texts must not be empty"))),
            MetricEvent::Nothing,
        );
    }
    let start = std::time::Instant::now();
    let mut texts: Vec<&str> = Vec::new();
    let mut i: usize = 0;
    while i < req.texts.len()
        invariant
            i <= req.texts.len(),
            texts.len() == i,
            forall|k: int| 0 <= k < i ==> #[trigger] texts@[k]@ == req.texts@[k]@,
        decreases req.texts.len() - i,
    {
        texts.push(req.texts[i].as_str());
        i = i + 1;
    }
    assert(texts@.map_values(|t: &str| t@) =~= req.texts@.map_values(|t: String| t@));
    let result = registry.tokenize(req.model.as_str(), texts.as_slice(), req.add_special_tokens, req.return_tokens);
    let latency_us = tokenizer::micros_since(&start) as u64;
    let ghost res = result;
    let r = tokenize_reply(req.model, result, latency_us);
    assert(tokenize_answer(r, req.model@, res, latency_us));
    r
}

pub open spec fn message_of(m: proto::ChatMessage) -> chat_template::ChatMessageView {
    chat_template::ChatMessageView {
        role: m.role@,
        content: text::opt_text(m.content),
        tool_calls: if m.tool_calls.len() == 0 {
            None
        } else {
            Some(m.tool_calls@.map_values(|tc: proto::ToolCall| tool_call_of(tc)))
        },
        tool_call_id: text::opt_text(m.tool_call_id),
        name: text::opt_text(m.name),
    }
}

pub open spec fn tool_call_of(tc: proto::ToolCall) -> chat_template::ToolCallView {
    chat_template::ToolCallView {
        id: tc.id@,
        call_type: tc.call_type@,
        function: match tc.function {
            Some(f) => chat_template::FunctionCallView { name: f.name@, arguments: f.arguments@ },
            None => chat_template::FunctionCallView { name: Seq::empty(), arguments: Seq::empty() },
        },
    }
}

/// Converts the messages of a request to chat messages.
pub fn convert_messages(messages: Vec<proto::ChatMessage>) -> (r: Vec<chat_template::ChatMessage>)
    ensures
        chat_template::messages_view(r@) == messages@.map_values(|m: proto::ChatMessage| message_of(m)),
{
    let ghost all = messages@;
    let n = messages.len();
    let mut messages = messages;
    let mut rev: Vec<proto::ChatMessage> = Vec::new();
    while messages.len() > 0
        invariant
            rev@ =~= all.skip(messages.len() as int).reverse(),
            messages@ =~= all.take(messages.len() as int),
            messages.len() <= all.len(),
        decreases messages.len(),
    {
        let m = messages.pop().unwrap();
        rev.push(m);
        assert(all.skip(messages.len() as int).reverse() =~= all.skip(messages.len() + 1).reverse().push(m));
    }
    assert(all.skip(0) =~= all);
    let mut out: Vec<chat_template::ChatMessage> = Vec::new();
    let mut k: usize = 0;
    while rev.len() > 0
        invariant
            k + rev.len() == all.len(),
            all.len() == n,
            rev@ =~= all.skip(k as int).reverse(),
            chat_template::messages_view(out@) =~= all.take(k as int).map_values(
                |m: proto::ChatMessage| message_of(m),
            ),
        decreases rev.len(),
    {
        let m = rev.pop().unwrap();
        assert(m == all[k as int]);
        let ghost mv = message_of(m);
        let tool_calls = if m.tool_calls.len() == 0 {
            None
        } else {
            let ghost tcs = m.tool_calls@;
            let mut calls: Vec<chat_template::ToolCall> = Vec::new();
            let mut j: usize = 0;
            while j < m.tool_calls.len()
                invariant
                    j <= m.tool_calls.len(),
                    tcs == m.tool_calls@,
                    chat_template::tool_calls_view(calls@) =~= tcs.take(j as int).map_values(
                        |tc: proto::ToolCall| tool_call_of(tc),
                    ),
                decreases m.tool_calls.len() - j,
            {
                let tc = &m.tool_calls[j];
                let function = match &tc.function {
                    Some(f) => chat_template::FunctionCall { name: f.name.clone(), arguments: f.arguments.clone() },
                    None => chat_template::FunctionCall { name: String::new(), arguments: String::new() },
                };
                let c = chat_template::ToolCall { id: tc.id.clone(), call_type: tc.call_type.clone(), function };
                assert(c@ == tool_call_of(tcs[j as int]));
                calls.push(c);
                assert(tcs.take(j + 1).map_values(|tc: proto::ToolCall| tool_call_of(tc)) =~= tcs.take(
                    j as int,
                ).map_values(|tc: proto::ToolCall| tool_call_of(tc)).push(tool_call_of(tcs[j as int])));
                j = j + 1;
            }
            assert(tcs.take(j as int) =~= tcs);
            Some(calls)
        };
        let c = chat_template::ChatMessage {
            role: m.role,
            content: m.content,
            tool_calls,
            tool_call_id: m.tool_call_id,
            name: m.name,
        };
        assert(c@ == mv);
        let ghost before = out@;
        out.push(c);
        assert(chat_template::messages_view(out@) =~= chat_template::messages_view(before).push(c@));
        assert(all.take(k + 1).map_values(|m: proto::ChatMessage| message_of(m)) =~= all.take(
            k as int,
        ).map_values(|m: proto::ChatMessage| message_of(m)).push(message_of(all[k as int])));
        k = k + 1;
        assert(rev@ =~= all.skip(k as int).reverse());
    }
    assert(all.take(k as int) =~= all);
    out
}

} // verus!

verus! {

/// The answer of the `ChatTokenize` RPC to the registry's answer, and the
/// metric it records.
pub open spec fn chat_answer(
    r: (Result<proto::ChatTokenizeResponse, Status>, MetricEvent),
    model: Seq<char>,
    result: Result<tokenizer::ChatTokenizeResult, TokenizerError>,
    latency_us: u64,
) -> bool {
    match result {
        Ok(res) => {
            &&& r.0 matches Ok(resp)
            &&& resp.model@ == model
            &&& resp.token_count == res.token_count
            &&& resp.token_ids == res.token_ids
            &&& resp.tokens@ == (match res.tokens {
                Some(t) => t@,
                None => Seq::<String>::empty(),
            })
            &&& resp.latency_us == latency_us
            &&& resp.render_us == res.render_us
            &&& r.1 matches MetricEvent::ChatTokenize {
                model: m,
                latency_us: l,
                render_us: ru,
                token_count: t,
            }
            &&& m@ == model && l == latency_us && ru == res.render_us && t == res.token_count as u64
        },
        Err(TokenizerError::ModelNotFound(m)) => {
            &&& fails_with(r.0, Code::NotFound, "model not loaded: "@ + m@)
            &&& r.1 matches MetricEvent::Error { model: mm } && mm@ == m@
        },
        Err(TokenizerError::ChatTemplateNotAvailable(m)) => {
            &&& fails_with(r.0, Code::FailedPrecondition, "chat template not available for "@ + m@)
            &&& r.1 is Nothing
        },
        Err(e) => {
            &&& fails_with(r.0, Code::Internal, tokenizer::error_text(e))
            &&& r.1 matches MetricEvent::Error { model: mm } && mm@ == model
        },
    }
}

/// Answers the `ChatTokenize` RPC from the registry's answer.
pub fn chat_tokenize_reply(
    model: String,
    result: Result<tokenizer::ChatTokenizeResult, TokenizerError>,
    latency_us: u64,
) -> (r: (Result<proto::ChatTokenizeResponse, Status>, MetricEvent))
    ensures
        chat_answer(r, model@, result, latency_us),
{
    match result {
        Ok(result) => {
            let token_count = result.token_count;
            let render_us = result.render_us;
            (
                Ok(
                    proto::ChatTokenizeResponse {
                        model: model.clone(),
                        token_count: result.token_count,
                        token_ids: result.token_ids,
                        tokens: strings_or_empty(result.tokens),
                        latency_us,
                        render_us: result.render_us,
                    },
                ),
                MetricEvent::ChatTokenize { model, latency_us, render_us, token_count: token_count as u64 },
            )
        },
        Err(TokenizerError::ModelNotFound(m)) => (
            Err(status(Code::NotFound, text::concat("model not loaded: ", m.as_str()))),
            MetricEvent::Error { model: m },
        ),
        Err(TokenizerError::ChatTemplateNotAvailable(m)) => (
            Err(status(Code::FailedPrecondition, text::concat("chat template not available for ", m.as_str()))),
            MetricEvent::Nothing,
        ),
        Err(e) => (Err(status(Code::Internal, e.to_string())), MetricEvent::Error { model }),
    }
}

/// The `ChatTokenize` RPC: the messages must not be empty; they are
/// rendered with the model's chat template (no tools, special tokens on)
/// and tokenized, the work of the registry timed.
pub fn chat_tokenize(registry: &TokenizerRegistry, req: proto::ChatTokenizeRequest) -> (r: (
    Result<proto::ChatTokenizeResponse, Status>,
    MetricEvent,
))
    requires
        registry.wf(),
    ensures
        req.messages.len() == 0 ==> fails_with(r.0, Code::InvalidArgument, "messages must not be empty"@)
            && r.1 is Nothing,
        req.messages.len() > 0 ==> exists|
            res: Result<tokenizer::ChatTokenizeResult, TokenizerError>,
            latency_us: u64,
        |
            tokenizer::chat_tokenize_outcome(
                res,
                registry@,
                req.model@,
                req.messages@.map_values(|m: proto::ChatMessage| message_of(m)),
                req.add_generation_prompt,
                None,
                true,
                req.return_tokens,
            ) && #[trigger] chat_answer(r, req.model@, res, latency_us),
{
    if req.messages.len() == 0 {
        return (
            Err(status(Code::InvalidArgument, String::from_str("messages must not be empty"))),
            MetricEvent::Nothing,
        );
    }
    let ghost model_text = req.model@;
    let model = req.model;
    let messages = convert_messages(req.messages);
    let start = std::time::Instant::now();
    let result = registry.chat_tokenize(
        model.as_str(),
        messages.as_slice(),
        req.add_generation_prompt,
        None,
        true,
        req.return_tokens,
    );
    let latency_us = tokenizer::micros_since(&start) as u64;
    let ghost res = result;
    let r = chat_tokenize_reply(model, result, latency_us);
    assert(chat_answer(r, model_text, res, latency_us));
    r
}

/// The source of a `LoadTokenizer` request: `1` is the Hugging Face Hub,
/// `2` a local file; anything else is refused.
pub fn load_source(source: i32) -> (r: Result<TokenizerSource, Status>)
    ensures
        source == 1 ==> r == Ok::<TokenizerSource, Status>(TokenizerSource::Huggingface),
        source == 2 ==> r == Ok::<TokenizerSource, Status>(TokenizerSource::Local),
        source != 1 && source != 2 ==> fails_with(
            r,
            Code::InvalidArgument,
            "source must be HUGGINGFACE or LOCAL"@,
        ),
{
    if source == 1 {
        Ok(TokenizerSource::Huggingface)
    } else if source == 2 {
        Ok(TokenizerSource::Local)
    } else {
        Err(status(Code::InvalidArgument, String::from_str("source must be HUGGINGFACE or LOCAL")))
    }
}

/// The answer of the `LoadTokenizer` RPC to the outcome of loading `model`.
pub fn load_reply(registry: &TokenizerRegistry, model: &str, result: Result<(), TokenizerError>) -> (r: (
    Result<proto::LoadTokenizerResponse, Status>,
    MetricEvent,
))
    ensures
        match result {
            Ok(()) => {
                &&& r.0 matches Ok(resp) && resp.success && resp.message@ == "loaded "@ + model@
                &&& r.1 matches MetricEvent::LoadedModels { count } && count == registry@.models.len()
            },
            Err(TokenizerError::AlreadyLoaded(m)) => fails_with(
                r.0,
                Code::AlreadyExists,
                "model already loaded: "@ + m@,
            ) && r.1 is Nothing,
            Err(e) => fails_with(r.0, Code::Internal, tokenizer::error_text(e)) && r.1 is Nothing,
        },
{
    match result {
        Ok(()) => (
            Ok(proto::LoadTokenizerResponse { success: true, message: text::concat("loaded ", model) }),
            MetricEvent::LoadedModels { count: registry.model_count() },
        ),
        Err(TokenizerError::AlreadyLoaded(m)) => (
            Err(status(Code::AlreadyExists, text::concat("model already loaded: ", m.as_str()))),
            MetricEvent::Nothing,
        ),
        Err(e) => (Err(status(Code::Internal, e.to_string())), MetricEvent::Nothing),
    }
}

/// The `UnloadTokenizer` RPC.
pub fn unload_tokenizer(registry: &mut TokenizerRegistry, req: proto::UnloadTokenizerRequest) -> (r: (
    Result<proto::UnloadTokenizerResponse, Status>,
    MetricEvent,
))
    requires
        old(registry).wf(),
    ensures
        final(registry).wf(),
        final(registry)@ == old(registry)@.without_model(req.model@),
        old(registry)@.models.contains_key(req.model@) ==> {
            &&& r.0 matches Ok(resp) && resp.success && resp.message@ == "unloaded "@ + req.model@
            &&& r.1 matches MetricEvent::LoadedModels { count } && count == final(registry)@.models.len()
        },
        !old(registry)@.models.contains_key(req.model@) ==> fails_with(
            r.0,
            Code::NotFound,
            "model not loaded: "@ + req.model@,
        ) && r.1 is Nothing,
{
    match registry.unload(req.model.as_str()) {
        Ok(()) => (
            Ok(
                proto::UnloadTokenizerResponse {
                    success: true,
                    message: text::concat("unloaded ", req.model.as_str()),
                },
            ),
            MetricEvent::LoadedModels { count: registry.model_count() },
        ),
        Err(TokenizerError::ModelNotFound(m)) => (
            Err(status(Code::NotFound, text::concat("model not loaded: ", m.as_str()))),
            MetricEvent::Nothing,
        ),
        Err(e) => (Err(status(Code::Internal, e.to_string())), MetricEvent::Nothing),
    }
}

/// The `Health` RPC: the service is serving.
pub fn health(_req: proto::HealthRequest) -> (r: proto::HealthResponse)
    ensures
        r.serving,
{
    proto::HealthResponse { serving: true }
}

} // verus!
