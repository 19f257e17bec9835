//! The HTTP API: request and response bodies, and the replies of the
//! handlers.
use vstd::prelude::*;
use vstd::string::*;
use vstd::utf8::*;
use crate::chat_template;
use crate::chat_template::{ChatMessage, Tool};
use crate::config::TokenizerSource;
use crate::json;
use crate::json::{Json, JsonValue, json_ids, json_number, json_string, json_strs, push_member};
use crate::server::MetricEvent;
use crate::text;
use crate::tokenizer;
use crate::tokenizer::{TokenResult, TokenizerError, TokenizerRegistry};

verus! {

broadcast use vstd::string::group_string_axioms;

// --- Request/Response types ---

/// The texts of a tokenize request: a single string, or an array of strings.
pub enum TokenizeText {
    Single(String),
    Batch(Vec<String>),
}

/// The texts of a request, in order.
pub open spec fn text_seq(t: TokenizeText) -> Seq<Seq<char>> {
    match t {
        TokenizeText::Single(s) => seq![s@],
        TokenizeText::Batch(v) => v@.map_values(|s: String| s@),
    }
}

pub struct TokenizeRequest {
    pub model: String,
    pub text: TokenizeText,
    pub add_special_tokens: bool,
    pub return_tokens: bool,
}

pub fn default_true() -> (r: bool)
    ensures
        r,
{
    true
}

pub struct TokenizeResponse {
    pub model: String,
    pub token_ids: Option<Vec<u32>>,
    pub token_count: Option<u32>,
    pub tokens: Option<Vec<String>>,
    pub results: Option<Vec<TokenResultJson>>,
    pub latency_us: u64,
}

pub struct TokenResultJson {
    pub token_ids: Vec<u32>,
    pub token_count: u32,
    pub tokens: Option<Vec<String>>,
}

pub struct LoadTokenizerRequest {
    pub model: String,
    pub source: String,
    pub path: Option<String>,
}

pub fn default_hf_source() -> (r: String)
    ensures
        r@ == "huggingface"@,
{
    String::from_str("huggingface")
}

pub struct ChatTokenizeRequest {
    pub model: String,
    pub messages: Vec<ChatMessage>,
    pub add_generation_prompt: bool,
    pub tools: Option<Vec<Tool>>,
    pub add_special_tokens: bool,
    pub return_tokens: bool,
}

pub struct ChatTokenizeResponse {
    pub model: String,
    pub token_count: u32,
    pub token_ids: Vec<u32>,
    pub tokens: Option<Vec<String>>,
    pub latency_us: u64,
    pub render_us: u64,
}

/// A reply: an HTTP status and a JSON body.
#[derive(Debug)]
pub struct HttpReply {
    pub status: u16,
    pub body: JsonValue,
}

// --- JSON bodies, as the serde derives write them (absent options skipped) ---

pub open spec fn opt_strs_json(o: Option<Vec<String>>) -> Option<Json> {
    match o {
        Some(t) => Some(json::strs_json(t@)),
        None => None,
    }
}

pub open spec fn token_result_json(r: TokenResultJson) -> Json {
    Json::Object(
        seq![("token_ids"@, json::ids_json(r.token_ids@)), ("token_count"@, json::num_json(r.token_count as nat))]
            + chat_template::opt_member("tokens"@, opt_strs_json(r.tokens)),
    )
}

pub open spec fn tokenize_response_json(r: TokenizeResponse) -> Json {
    Json::Object(
        seq![("model"@, Json::Str(r.model@))] + chat_template::opt_member(
            "token_ids"@,
            match r.token_ids {
                Some(ids) => Some(json::ids_json(ids@)),
                None => None,
            },
        ) + chat_template::opt_member(
            "token_count"@,
            match r.token_count {
                Some(c) => Some(json::num_json(c as nat)),
                None => None,
            },
        ) + chat_template::opt_member("tokens"@, opt_strs_json(r.tokens)) + chat_template::opt_member(
            "results"@,
            match r.results {
                Some(rs) => Some(Json::Array(rs@.map_values(|x: TokenResultJson| token_result_json(x)))),
                None => None,
            },
        ) + seq![("latency_us"@, json::num_json(r.latency_us as nat))],
    )
}

pub open spec fn chat_tokenize_response_json(r: ChatTokenizeResponse) -> Json {
    Json::Object(
        seq![
            ("model"@, Json::Str(r.model@)),
            ("token_count"@, json::num_json(r.token_count as nat)),
            ("token_ids"@, json::ids_json(r.token_ids@)),
        ] + chat_template::opt_member("tokens"@, opt_strs_json(r.tokens)) + seq![
            ("latency_us"@, json::num_json(r.latency_us as nat)),
            ("render_us"@, json::num_json(r.render_us as nat)),
        ],
    )
}

fn push_opt_strs(fields: &mut Vec<(String, JsonValue)>, key: &str, o: &Option<Vec<String>>)
    ensures
        json::view_fields(final(fields)@) == json::view_fields(old(fields)@)
            + chat_template::opt_member(key@, opt_strs_json(*o)),
{
    match o {
        Some(t) => {
            push_member(fields, key, json_strs(t));
            assert(json::view_fields(fields@) =~= json::view_fields(old(fields)@)
                + chat_template::opt_member(key@, opt_strs_json(*o)));
        },
        None => {
            assert(json::view_fields(fields@) =~= json::view_fields(old(fields)@)
                + chat_template::opt_member(key@, opt_strs_json(*o)));
        },
    }
}

impl TokenResultJson {
    pub fn to_json(&self) -> (r: JsonValue)
        ensures
            r@ == token_result_json(*self),
    {
        let mut fields: Vec<(String, JsonValue)> = Vec::new();
        push_member(&mut fields, "token_ids", json_ids(&self.token_ids));
        push_member(&mut fields, "token_count", json_number(self.token_count as u64));
        push_opt_strs(&mut fields, "tokens", &self.tokens);
        let r = JsonValue::Object(fields);
        assert(json::view_fields(fields@) =~= seq![
            ("token_ids"@, json::ids_json(self.token_ids@)),
            ("token_count"@, json::num_json(self.token_count as nat)),
        ] + chat_template::opt_member("tokens"@, opt_strs_json(self.tokens)));
        r
    }
}

impl TokenizeResponse {
    pub fn to_json(&self) -> (r: JsonValue)
        ensures
            r@ == tokenize_response_json(*self),
    {
        let mut fields: Vec<(String, JsonValue)> = Vec::new();
        push_member(&mut fields, "model", json_string(self.model.as_str()));
        let ghost f1 = json::view_fields(fields@);
        match &self.token_ids {
            Some(ids) => push_member(&mut fields, "token_ids", json_ids(ids)),
            None => {},
        }
        let ghost f2 = json::view_fields(fields@);
        assert(f2 =~= f1 + chat_template::opt_member(
            "token_ids"@,
            match self.token_ids {
                Some(ids) => Some(json::ids_json(ids@)),
                None => None,
            },
        ));
        match self.token_count {
            Some(c) => push_member(&mut fields, "token_count", json_number(c as u64)),
            None => {},
        }
        let ghost f3 = json::view_fields(fields@);
        assert(f3 =~= f2 + chat_template::opt_member(
            "token_count"@,
            match self.token_count {
                Some(c) => Some(json::num_json(c as nat)),
                None => None,
            },
        ));
        push_opt_strs(&mut fields, "tokens", &self.tokens);
        let ghost f4 = json::view_fields(fields@);
        match &self.results {
            Some(rs) => {
                let mut items: Vec<JsonValue> = Vec::new();
                let mut i: usize = 0;
                while i < rs.len()
                    invariant
                        i <= rs.len(),
                        json::view_items(items@) =~= rs@.take(i as int).map_values(
                            |x: TokenResultJson| token_result_json(x),
                        ),
                    decreases rs.len() - i,
                {
                    let j = rs[i].to_json();
                    proof {
                        json::lemma_view_items_push(items@, j);
                    }
                    items.push(j);
                    assert(rs@.take(i + 1).map_values(|x: TokenResultJson| token_result_json(x))
                        =~= rs@.take(i as int).map_values(|x: TokenResultJson| token_result_json(x)).push(
                        token_result_json(rs@[i as int]),
                    ));
                    i = i + 1;
                }
                assert(rs@.take(i as int) =~= rs@);
                push_member(&mut fields, "results", JsonValue::Array(items));
            },
            None => {},
        }
        let ghost f5 = json::view_fields(fields@);
        assert(f5 =~= f4 + chat_template::opt_member(
            "results"@,
            match self.results {
                Some(rs) => Some(Json::Array(rs@.map_values(|x: TokenResultJson| token_result_json(x)))),
                None => None,
            },
        ));
        push_member(&mut fields, "latency_us", json_number(self.latency_us));
        let r = JsonValue::Object(fields);
        assert(json::view_fields(fields@) =~= tokenize_response_json(*self)->Object_0);
        r
    }
}

impl ChatTokenizeResponse {
    pub fn to_json(&self) -> (r: JsonValue)
        ensures
            r@ == chat_tokenize_response_json(*self),
    {
        let mut fields: Vec<(String, JsonValue)> = Vec::new();
        push_member(&mut fields, "model", json_string(self.model.as_str()));
        push_member(&mut fields, "token_count", json_number(self.token_count as u64));
        push_member(&mut fields, "token_ids", json_ids(&self.token_ids));
        push_opt_strs(&mut fields, "tokens", &self.tokens);
        push_member(&mut fields, "latency_us", json_number(self.latency_us));
        push_member(&mut fields, "render_us", json_number(self.render_us));
        let r = JsonValue::Object(fields);
        assert(json::view_fields(fields@) =~= chat_tokenize_response_json(*self)->Object_0);
        r
    }
}

} // verus!

verus! {

// --- Replies ---

/// The body `{"error": text}`.
pub open spec fn error_body(text: Seq<char>) -> Json {
    Json::Object(seq![("error"@, Json::Str(text))])
}

/// The body `{"success": true, "message": text}`.
pub open spec fn success_body(text: Seq<char>) -> Json {
    Json::Object(seq![("success"@, Json::Bool(true)), ("message"@, Json::Str(text))])
}

fn error_reply(status: u16, text: String) -> (r: HttpReply)
    ensures
        r.status == status,
        r.body@ == error_body(text@),
{
    HttpReply { status, body: json::single_member("error", text) }
}

fn success_reply(text: String) -> (r: HttpReply)
    ensures
        r.status == 200,
        r.body@ == success_body(text@),
{
    let mut fields: Vec<(String, JsonValue)> = Vec::new();
    push_member(&mut fields, "success", JsonValue::Bool(true));
    push_member(&mut fields, "message", JsonValue::Str(text));
    assert(json::view_fields(fields@) =~= seq![("success"@, Json::Bool(true)), ("message"@, Json::Str(text@))]);
    HttpReply { status: 200, body: JsonValue::Object(fields) }
}

/// The sum of the token counts of some results, in `u64` arithmetic that
/// wraps on overflow.
pub open spec fn total_tokens(s: Seq<TokenResult>) -> u64
    decreases s.len(),
{
    if s.len() == 0 {
        0
    } else {
        vstd::wrapping::u64_specs::wrapping_add(total_tokens(s.drop_last()), s.last().token_count as u64)
    }
}

pub open spec fn result_json(r: TokenResult) -> Json {
    Json::Object(
        seq![("token_ids"@, json::ids_json(r.token_ids@)), ("token_count"@, json::num_json(r.token_count as nat))]
            + chat_template::opt_member("tokens"@, opt_strs_json(r.tokens)),
    )
}

/// The body of a successful tokenization: flat fields for a single string,
/// a `results` array (in the order of the texts) for an array of strings,
/// whatever its length.
pub open spec fn tokenize_ok_json(model: Seq<char>, batch: bool, results: Seq<TokenResult>, latency_us: u64) -> Json {
    if !batch && results.len() == 1 {
        Json::Object(
            seq![
                ("model"@, Json::Str(model)),
                ("token_ids"@, json::ids_json(results[0].token_ids@)),
                ("token_count"@, json::num_json(results[0].token_count as nat)),
            ] + chat_template::opt_member("tokens"@, opt_strs_json(results[0].tokens)) + seq![
                ("latency_us"@, json::num_json(latency_us as nat)),
            ],
        )
    } else {
        Json::Object(
            seq![
                ("model"@, Json::Str(model)),
                ("results"@, Json::Array(results.map_values(|r: TokenResult| result_json(r)))),
                ("latency_us"@, json::num_json(latency_us as nat)),
            ],
        )
    }
}

/// The reply of `POST /tokenize` to the registry's answer, and the metric
/// it records.
pub open spec fn tokenize_answer(
    r: (HttpReply, MetricEvent),
    model: Seq<char>,
    batch: bool,
    result: Result<Vec<TokenResult>, TokenizerError>,
    latency_us: u64,
) -> bool {
    match result {
        Ok(results) => {
            &&& r.0.status == 200
            &&& r.0.body@ == tokenize_ok_json(model, batch, results@, latency_us)
            &&& r.1 matches MetricEvent::Tokenize { model: m, latency_us: l, token_count: t }
            &&& m@ == model && l == latency_us && t == total_tokens(results@)
        },
        Err(TokenizerError::ModelNotFound(m)) => {
            &&& r.0.status == 404
            &&& r.0.body@ == error_body("model not loaded: "@ + m@)
            &&& r.1 matches MetricEvent::Error { model: mm } && mm@ == m@
        },
        Err(e) => {
            &&& r.0.status == 500
            &&& r.0.body@ == error_body(tokenizer::error_text(e))
            &&& r.1 matches MetricEvent::Error { model: mm } && mm@ == model
        },
    }
}

/// The reply of `POST /tokenize` to the registry's answer.
pub fn tokenize_reply(
    model: &str,
    batch: bool,
    result: Result<Vec<TokenResult>, TokenizerError>,
    latency_us: u64,
) -> (r: (
    HttpReply,
    MetricEvent,
))
    ensures
        tokenize_answer(r, model@, batch, result, latency_us),
{
    match result {
        Ok(results) => {
            let mut total: u64 = 0;
            let mut i: usize = 0;
            while i < results.len()
                invariant
                    i <= results.len(),
                    total == total_tokens(results@.take(i as int)),
                decreases results.len() - i,
            {
                assert(results@.take(i + 1).drop_last() =~= results@.take(i as int));
                total = total.wrapping_add(results[i].token_count as u64);
                i = i + 1;
            }
            assert(results@.take(i as int) =~= results@);
            let ghost rv = results@;
            let response = if !batch && results.len() == 1 {
                let mut results = results;
                let r0 = results.remove(0);
                TokenizeResponse {
                    model: String::from_str(model),
                    token_ids: Some(r0.token_ids),
                    token_count: Some(r0.token_count),
                    tokens: r0.tokens,
                    results: None,
                    latency_us,
                }
            } else {
                let mut json_results: Vec<TokenResultJson> = Vec::new();
                let mut results = results;
                let ghost all = results@;
                let n = results.len();
                let mut k: usize = 0;
                // take the results out in order
                let mut rev: Vec<TokenResult> = Vec::new();
                while results.len() > 0
                    invariant
                        rev@ =~= all.skip(results.len() as int).reverse(),
                        results@ =~= all.take(results.len() as int),
                        results.len() <= all.len(),
                    decreases results.len(),
                {
                    let r = results.pop().unwrap();
                    rev.push(r);
                    assert(all.skip(results.len() as int).reverse() =~= all.skip(results.len() + 1).reverse().push(r));
                }
                assert(all.skip(0) =~= all);
                let mut results = rev;
                while results.len() > 0
                    invariant
                        k + results.len() == all.len(),
                        all.len() == n,
                        results@ =~= all.skip(k as int).reverse(),
                        json_results@.map_values(|x: TokenResultJson| token_result_json(x))
                            =~= all.take(k as int).map_values(|r: TokenResult| result_json(r)),
                    decreases results.len(),
                {
                    let r = results.pop().unwrap();
                    assert(r == all[k as int]);
                    let ghost before = json_results@;
                    let j = TokenResultJson { token_ids: r.token_ids, token_count: r.token_count, tokens: r.tokens };
                    json_results.push(j);
                    assert(all.take(k + 1).map_values(|r: TokenResult| result_json(r)) =~= all.take(k as int).map_values(
                        |r: TokenResult| result_json(r),
                    ).push(result_json(all[k as int])));
                    assert(json_results@.map_values(|x: TokenResultJson| token_result_json(x)) =~= before.map_values(
                        |x: TokenResultJson| token_result_json(x),
                    ).push(token_result_json(j)));
                    k = k + 1;
                    assert(results@ =~= all.skip(k as int).reverse());
                }
                assert(all.take(k as int) =~= all);
                TokenizeResponse {
                    model: String::from_str(model),
                    token_ids: None,
                    token_count: None,
                    tokens: None,
                    results: Some(json_results),
                    latency_us,
                }
            };
            let body = response.to_json();
            assert(body@ == tokenize_ok_json(model@, batch, rv, latency_us)) by {
                assert(tokenize_response_json(response)->Object_0 =~= tokenize_ok_json(model@, batch, rv, latency_us)->Object_0);
            }
            (
                HttpReply { status: 200, body },
                MetricEvent::Tokenize { model: String::from_str(model), latency_us, token_count: total },
            )
        },
        Err(TokenizerError::ModelNotFound(m)) => {
            let text = text::concat("model not loaded: ", m.as_str());
            (error_reply(404, text), MetricEvent::Error { model: m })
        },
        Err(e) => (
            error_reply(500, e.to_string()),
            MetricEvent::Error { model: String::from_str(model) },
        ),
    }
}

} // verus!

verus! {

/// The body of a successful chat tokenization.
pub open spec fn chat_ok_json(model: Seq<char>, res: tokenizer::ChatTokenizeResult, latency_us: u64) -> Json {
    Json::Object(
        seq![
            ("model"@, Json::Str(model)),
            ("token_count"@, json::num_json(res.token_count as nat)),
            ("token_ids"@, json::ids_json(res.token_ids@)),
        ] + chat_template::opt_member("tokens"@, opt_strs_json(res.tokens)) + seq![
            ("latency_us"@, json::num_json(latency_us as nat)),
            ("render_us"@, json::num_json(res.render_us as nat)),
        ],
    )
}

/// The reply of `POST /v1/chat/tokenize` to the registry's answer, and the
/// metric it records.
pub open spec fn chat_answer(
    r: (HttpReply, MetricEvent),
    model: Seq<char>,
    result: Result<tokenizer::ChatTokenizeResult, TokenizerError>,
    latency_us: u64,
) -> bool {
    match result {
        Ok(res) => {
            &&& r.0.status == 200
            &&& r.0.body@ == chat_ok_json(model, res, latency_us)
            &&& r.1 matches MetricEvent::ChatTokenize {
                model: m,
                latency_us: l,
                render_us: ru,
                token_count: t,
            }
            &&& m@ == model && l == latency_us && ru == res.render_us && t == res.token_count as u64
        },
        Err(TokenizerError::ModelNotFound(m)) => {
            &&& r.0.status == 404
            &&& r.0.body@ == error_body("model not loaded: "@ + m@)
            &&& r.1 matches MetricEvent::Error { model: mm } && mm@ == m@
        },
        Err(TokenizerError::ChatTemplateNotAvailable(m)) => {
            &&& r.0.status == 400
            &&& r.0.body@ == error_body("chat template not available for "@ + m@)
            &&& r.1 is Nothing
        },
        Err(e) => {
            &&& r.0.status == 500
            &&& r.0.body@ == error_body(tokenizer::error_text(e))
            &&& r.1 matches MetricEvent::Error { model: mm } && mm@ == model
        },
    }
}

/// The reply of `POST /v1/chat/tokenize` to the registry's answer.
pub fn chat_tokenize_reply(
    model: &str,
    result: Result<tokenizer::ChatTokenizeResult, TokenizerError>,
    latency_us: u64,
) -> (r: (HttpReply, MetricEvent))
    ensures
        chat_answer(r, model@, result, latency_us),
{
    match result {
        Ok(res) => {
            let token_count = res.token_count;
            let render_us = res.render_us;
            let response = ChatTokenizeResponse {
                model: String::from_str(model),
                token_count: res.token_count,
                token_ids: res.token_ids,
                tokens: res.tokens,
                latency_us,
                render_us: res.render_us,
            };
            let body = response.to_json();
            (
                HttpReply { status: 200, body },
                MetricEvent::ChatTokenize {
                    model: String::from_str(model),
                    latency_us,
                    render_us,
                    token_count: token_count as u64,
                },
            )
        },
        Err(TokenizerError::ModelNotFound(m)) => {
            let text = text::concat("model not loaded: ", m.as_str());
            (error_reply(404, text), MetricEvent::Error { model: m })
        },
        Err(TokenizerError::ChatTemplateNotAvailable(m)) => {
            let text = text::concat("chat template not available for ", m.as_str());
            (error_reply(400, text), MetricEvent::Nothing)
        },
        Err(e) => (
            error_reply(500, e.to_string()),
            MetricEvent::Error { model: String::from_str(model) },
        ),
    }
}

/// `POST /tokenize`: tokenizes the request's texts and replies, timing the
/// work of the registry.
pub fn handle_tokenize(registry: &TokenizerRegistry, req: &TokenizeRequest) -> (r: (HttpReply, MetricEvent))
    ensures
        exists|res: Result<Vec<TokenResult>, TokenizerError>, latency_us: u64|
            tokenizer::tokenize_outcome(
                res,
                registry@,
                req.model@,
                text_seq(req.text),
                req.add_special_tokens,
                req.return_tokens,
            ) && #[trigger] tokenize_answer(r, req.model@, req.text is Batch, res, latency_us),
{
    let start = std::time::Instant::now();
    let mut texts: Vec<&str> = Vec::new();
    let batch = match &req.text {
        TokenizeText::Single(s) => {
            texts.push(s.as_str());
            false
        },
        TokenizeText::Batch(v) => {
            let mut i: usize = 0;
            while i < v.len()
                invariant
                    i <= v.len(),
                    texts.len() == i,
                    forall|k: int| 0 <= k < i ==> #[trigger] texts@[k]@ == v@[k]@,
                decreases v.len() - i,
            {
                texts.push(v[i].as_str());
                i = i + 1;
            }
            true
        },
    };
    assert(texts@.map_values(|t: &str| t@) =~= text_seq(req.text));
    let result = registry.tokenize(
        req.model.as_str(),
        texts.as_slice(),
        req.add_special_tokens,
        req.return_tokens,
    );
    let latency_us = tokenizer::micros_since(&start) as u64;
    let ghost res = result;
    let r = tokenize_reply(req.model.as_str(), batch, result, latency_us);
    assert(tokenize_answer(r, req.model@, req.text is Batch, res, latency_us));
    r
}

/// `POST /v1/chat/tokenize`: renders and tokenizes the request's
/// conversation and replies, timing the work of the registry.
pub fn handle_chat_tokenize(registry: &TokenizerRegistry, req: &ChatTokenizeRequest) -> (r: (
    HttpReply,
    MetricEvent,
))
    requires
        registry.wf(),
    ensures
        exists|res: Result<tokenizer::ChatTokenizeResult, TokenizerError>, latency_us: u64|
            tokenizer::chat_tokenize_outcome(
                res,
                registry@,
                req.model@,
                chat_template::messages_view(req.messages@),
                req.add_generation_prompt,
                match req.tools {
                    Some(ts) => Some(ts@),
                    None => None,
                },
                req.add_special_tokens,
                req.return_tokens,
            ) && #[trigger] chat_answer(r, req.model@, res, latency_us),
{
    let start = std::time::Instant::now();
    let tools: Option<&[Tool]> = match &req.tools {
        Some(t) => Some(t.as_slice()),
        None => None,
    };
    let result = registry.chat_tokenize(
        req.model.as_str(),
        req.messages.as_slice(),
        req.add_generation_prompt,
        tools,
        req.add_special_tokens,
        req.return_tokens,
    );
    let latency_us = tokenizer::micros_since(&start) as u64;
    let ghost res = result;
    let r = chat_tokenize_reply(req.model.as_str(), result, latency_us);
    assert(chat_answer(r, req.model@, res, latency_us));
    r
}

/// The source named in a load request: `huggingface` or `local`, and a
/// `400` reply for any other name.
pub fn parse_source(source: &str) -> (r: Result<TokenizerSource, HttpReply>)
    ensures
        source@ == "huggingface"@ ==> r == Ok::<TokenizerSource, HttpReply>(
            TokenizerSource::Huggingface,
        ),
        source@ == "local"@ ==> r == Ok::<TokenizerSource, HttpReply>(TokenizerSource::Local),
        source@ != "huggingface"@ && source@ != "local"@ ==> (r matches Err(reply) && reply.status
            == 400 && reply.body@ == error_body("unknown source: "@ + source@)),
{
    proof {
        reveal_strlit("huggingface");
        reveal_strlit("local");
    }
    if text::same_text(source, "huggingface") {
        Ok(TokenizerSource::Huggingface)
    } else if text::same_text(source, "local") {
        Ok(TokenizerSource::Local)
    } else {
        Err(error_reply(400, text::concat("unknown source: ", source)))
    }
}

/// The reply of `POST /tokenizers/load` to the outcome of loading `model`.
pub fn load_reply(registry: &TokenizerRegistry, model: &str, result: Result<(), TokenizerError>) -> (r: (
    HttpReply,
    MetricEvent,
))
    ensures
        match result {
            Ok(()) => {
                &&& r.0.status == 200
                &&& r.0.body@ == success_body("loaded "@ + model@)
                &&& r.1 matches MetricEvent::LoadedModels { count } && count == registry@.models.len()
            },
            Err(TokenizerError::AlreadyLoaded(m)) => {
                &&& r.0.status == 409
                &&& r.0.body@ == error_body("model already loaded: "@ + m@)
                &&& r.1 is Nothing
            },
            Err(e) => {
                &&& r.0.status == 500
                &&& r.0.body@ == error_body(tokenizer::error_text(e))
                &&& r.1 is Nothing
            },
        },
{
    match result {
        Ok(()) => (
            success_reply(text::concat("loaded ", model)),
            MetricEvent::LoadedModels { count: registry.model_count() },
        ),
        Err(TokenizerError::AlreadyLoaded(m)) => (
            error_reply(409, text::concat("model already loaded: ", m.as_str())),
            MetricEvent::Nothing,
        ),
        Err(e) => (error_reply(500, e.to_string()), MetricEvent::Nothing),
    }
}

/// The value of a hexadecimal digit, in either case.
pub open spec fn hex_value(c: u8) -> Option<u8> {
    if 48 <= c <= 57 {
        Some((c - 48) as u8)
    } else if 65 <= c <= 70 {
        Some((c - 55) as u8)
    } else if 97 <= c <= 102 {
        Some((c - 87) as u8)
    } else {
        None
    }
}

/// Percent decoding of bytes: a `%` followed by two hexadecimal digits
/// becomes the byte they write; every other byte, a `%` that starts no
/// such escape among them, stays as it is (`+` stays a `+`).
pub open spec fn percent_bytes(b: Seq<u8>) -> Seq<u8>
    decreases b.len(),
{
    if b.len() == 0 {
        seq![]
    } else if b[0] == 37 && b.len() >= 3 && hex_value(b[1]) is Some && hex_value(b[2]) is Some {
        seq![(hex_value(b[1])->0 * 16 + hex_value(b[2])->0) as u8] + percent_bytes(b.skip(3))
    } else {
        seq![b[0]] + percent_bytes(b.skip(1))
    }
}

/// Percent decoding of a text: its UTF-8 bytes decoded, read as UTF-8
/// again, or `None` where the decoded bytes are not UTF-8.
pub open spec fn percent_decode(s: Seq<char>) -> Option<Seq<char>> {
    let b = percent_bytes(encode_utf8(s));
    if valid_utf8(b) {
        Some(decode_utf8(b))
    } else {
        None
    }
}

fn hex_digit(c: u8) -> (r: Option<u8>)
    ensures
        r == hex_value(c),
{
    if 48 <= c && c <= 57 {
        Some(c - 48)
    } else if 65 <= c && c <= 70 {
        Some(c - 55)
    } else if 97 <= c && c <= 102 {
        Some(c - 87)
    } else {
        None
    }
}

/// Percent decodes some bytes.
pub fn percent_decode_bytes(b: &[u8]) -> (r: Vec<u8>)
    ensures
        r@ == percent_bytes(b@),
{
    let n = b.len();
    let mut out: Vec<u8> = Vec::new();
    let mut i: usize = 0;
    assert(out@ + percent_bytes(b@.skip(0)) =~= percent_bytes(b@)) by {
        assert(b@.skip(0) =~= b@);
    }
    while i < n
        invariant
            n == b@.len(),
            i <= n,
            out@ + percent_bytes(b@.skip(i as int)) == percent_bytes(b@),
        decreases n - i,
    {
        let ghost rest = b@.skip(i as int);
        assert(rest[0] == b@[i as int]);
        let mut escaped: Option<u8> = None;
        if b[i] == 37 && n - i >= 3 {
            assert(rest[1] == b@[i + 1] && rest[2] == b@[i + 2]);
            match (hex_digit(b[i + 1]), hex_digit(b[i + 2])) {
                (Some(hi), Some(lo)) => {
                    escaped = Some(hi * 16 + lo);
                },
                _ => {},
            }
        }
        match escaped {
            Some(byte) => {
                assert(rest.skip(3) =~= b@.skip(i + 3));
                out.push(byte);
                i = i + 3;
            },
            None => {
                assert(rest.skip(1) =~= b@.skip(i + 1));
                out.push(b[i]);
                i = i + 1;
            },
        }
        assert(out@ + percent_bytes(b@.skip(i as int)) =~= percent_bytes(b@));
    }
    assert(b@.skip(n as int) =~= Seq::<u8>::empty());
    assert(out@ + percent_bytes(b@.skip(n as int)) =~= out@);
    out
}

/// `String::from_utf8`, its error dropped. As its documentation says, a
/// text comes back exactly where the bytes are UTF-8, and it holds the
/// characters they encode.
#[verifier::external_body]
fn utf8_string(bytes: Vec<u8>) -> (r: Option<String>)
    ensures
        r is Some <==> valid_utf8(bytes@),
        r matches Some(t) ==> t@ == decode_utf8(bytes@),
{
    String::from_utf8(bytes).ok()
}

/// Percent decodes a text: `None` where the decoded bytes are not UTF-8.
pub fn url_decode(s: &str) -> (r: Option<String>)
    ensures
        text::opt_text(r) == percent_decode(s@),
{
    let bytes = percent_decode_bytes(s.as_bytes());
    utf8_string(bytes)
}

proof fn lemma_scalar_not_percent(c: char)
    requires
        c != '%',
    ensures
        forall|k: int| 0 <= k < encode_scalar(c as u32).len() ==> #[trigger] encode_scalar(c as u32)[k] != 37,
{
    let v = c as u32;
    char_is_scalar(c);
    assert(v != 37);
    if has_width_1_encoding(v) {
        assert(leading_byte_width_1(v) != 37) by (bit_vector)
            requires
                v <= 0x7F,
                v != 37,
        ;
    } else if has_width_2_encoding(v) {
        assert(leading_byte_width_2(v) >= 0x80 && last_continuation_byte(v) >= 0x80) by (bit_vector);
    } else if has_width_3_encoding(v) {
        assert(leading_byte_width_3(v) >= 0x80 && second_last_continuation_byte(v) >= 0x80
            && last_continuation_byte(v) >= 0x80) by (bit_vector);
    } else {
        assert(leading_byte_width_4(v) >= 0x80 && third_last_continuation_byte(v) >= 0x80
            && second_last_continuation_byte(v) >= 0x80 && last_continuation_byte(v) >= 0x80)
            by (bit_vector);
    }
}

proof fn lemma_encoding_not_percent(s: Seq<char>)
    requires
        !s.contains('%'),
    ensures
        forall|k: int| 0 <= k < encode_utf8(s).len() ==> #[trigger] encode_utf8(s)[k] != 37,
    decreases s.len(),
{
    if s.len() > 0 {
        let rest = s.drop_first();
        assert(!rest.contains('%')) by {
            if rest.contains('%') {
                let j = choose|j: int| 0 <= j < rest.len() && rest[j] == '%';
                assert(s[j + 1] == '%');
            }
        }
        assert(s[0] != '%');
        lemma_encoding_not_percent(rest);
        lemma_scalar_not_percent(s[0]);
        let e = encode_scalar(s[0] as u32);
        assert(encode_utf8(s) == e + encode_utf8(rest));
        assert forall|k: int| 0 <= k < encode_utf8(s).len() implies #[trigger] encode_utf8(s)[k] != 37 by {
            if k < e.len() {
                assert(encode_utf8(s)[k] == e[k]);
            } else {
                assert(encode_utf8(s)[k] == encode_utf8(rest)[k - e.len()]);
            }
        }
    }
}

proof fn lemma_percent_free(b: Seq<u8>)
    requires
        forall|k: int| 0 <= k < b.len() ==> #[trigger] b[k] != 37,
    ensures
        percent_bytes(b) == b,
    decreases b.len(),
{
    if b.len() > 0 {
        let rest = b.skip(1);
        assert forall|k: int| 0 <= k < rest.len() implies #[trigger] rest[k] != 37 by {
            assert(rest[k] == b[k + 1]);
        }
        lemma_percent_free(rest);
        assert(seq![b[0]] + rest =~= b);
    }
}

/// The model named by the path of `DELETE /tokenizers/{model}`: percent
/// decoded (a `/` is written `%2F`), or taken as it is where the decoded
/// bytes are not UTF-8. A path without `%` names the model as written.
pub fn decode_model_path(raw: &str) -> (r: String)
    ensures
        r@ == (match percent_decode(raw@) {
            Some(d) => d,
            None => raw@,
        }),
        !raw@.contains('%') ==> r@ == raw@,
{
    proof {
        if !raw@.contains('%') {
            lemma_encoding_not_percent(raw@);
            lemma_percent_free(encode_utf8(raw@));
            encode_utf8_valid_utf8(raw@);
            encode_utf8_decode_utf8(raw@);
        }
    }
    match url_decode(raw) {
        Some(d) => d,
        None => String::from_str(raw),
    }
}

/// `DELETE /tokenizers/{model}`: unloads the model named by the path.
pub fn handle_unload(registry: &mut TokenizerRegistry, raw_model: &str) -> (r: (HttpReply, MetricEvent))
    requires
        old(registry).wf(),
    ensures
        final(registry).wf(),
        ({
            let model = match percent_decode(raw_model@) {
                Some(d) => d,
                None => raw_model@,
            };
            &&& final(registry)@ == old(registry)@.without_model(model)
            &&& old(registry)@.models.contains_key(model) ==> {
                &&& r.0.status == 200
                &&& r.0.body@ == success_body("unloaded "@ + model)
                &&& r.1 matches MetricEvent::LoadedModels { count } && count == final(registry)@.models.len()
            }
            &&& !old(registry)@.models.contains_key(model) ==> {
                &&& r.0.status == 404
                &&& r.0.body@ == error_body("model not loaded: "@ + model)
                &&& r.1 is Nothing
            }
        }),
{
    let model = decode_model_path(raw_model);
    match registry.unload(model.as_str()) {
        Ok(()) => (
            success_reply(text::concat("unloaded ", model.as_str())),
            MetricEvent::LoadedModels { count: registry.model_count() },
        ),
        Err(TokenizerError::ModelNotFound(m)) => (
            error_reply(404, text::concat("model not loaded: ", m.as_str())),
            MetricEvent::Nothing,
        ),
        Err(e) => (error_reply(500, e.to_string()), MetricEvent::Nothing),
    }
}

/// `GET /health`: the process is alive.
pub fn health_reply() -> (r: HttpReply)
    ensures
        r.status == 200,
        r.body@ == Json::Object(seq![("status"@, Json::Str("ok"@))]),
{
    HttpReply { status: 200, body: json::single_member("status", String::from_str("ok")) }
}

/// Whether the daemon is ready: at least as many models are loaded as the
/// configuration declares, and it declares at least one.
pub open spec fn is_ready(loaded: nat, expected: nat) -> bool {
    loaded >= expected && expected > 0
}

/// The readiness reply: `200` when ready, `503` otherwise, with the counts.
pub open spec fn is_ready_reply(r: HttpReply, loaded: nat, expected: nat) -> bool {
    &&& r.status == (if is_ready(loaded, expected) {
        200u16
    } else {
        503u16
    })
    &&& r.body@ == Json::Object(
        seq![
            ("ready"@, Json::Bool(is_ready(loaded, expected))),
            ("loaded_models"@, json::num_json(loaded)),
            ("expected_models"@, json::num_json(expected)),
        ],
    )
}

/// `GET /ready`: `200` when ready, `503` otherwise, with the counts.
pub fn ready_reply(loaded: usize, expected: usize) -> (r: HttpReply)
    ensures
        is_ready_reply(r, loaded as nat, expected as nat),
{
    let ready = loaded >= expected && expected > 0;
    let mut fields: Vec<(String, JsonValue)> = Vec::new();
    push_member(&mut fields, "ready", JsonValue::Bool(ready));
    push_member(&mut fields, "loaded_models", json_number(loaded as u64));
    push_member(&mut fields, "expected_models", json_number(expected as u64));
    assert(json::view_fields(fields@) =~= seq![
        ("ready"@, Json::Bool(is_ready(loaded as nat, expected as nat))),
        ("loaded_models"@, json::num_json(loaded as nat)),
        ("expected_models"@, json::num_json(expected as nat)),
    ]);
    HttpReply { status: if ready { 200 } else { 503 }, body: JsonValue::Object(fields) }
}

/// `GET /ready` for a registry and the number of models the configuration
/// declares.
pub fn handle_ready(registry: &TokenizerRegistry, expected: usize) -> (r: HttpReply)
    ensures
        is_ready_reply(r, registry@.models.len(), expected as nat),
{
    ready_reply(registry.model_count(), expected)
}

/// Readiness grows with the loaded models: once the configuration declares
/// some models and at least that many are loaded (hot-loaded ones count
/// too), the readiness reply is `200` with `ready: true`; with fewer loaded,
/// or none declared, it is `503` with `ready: false`.
pub proof fn lemma_ready_when_enough_loaded(r: HttpReply, loaded: nat, expected: nat)
    requires
        is_ready_reply(r, loaded, expected),
    ensures
        expected > 0 && loaded >= expected ==> r.status == 200 && json::json_get(r.body@, "ready"@)
            == Some(Json::Bool(true)),
        expected == 0 || loaded < expected ==> r.status == 503 && json::json_get(r.body@, "ready"@)
            == Some(Json::Bool(false)),
{
    reveal_with_fuel(json::find_field, 2);
}

} // verus!
