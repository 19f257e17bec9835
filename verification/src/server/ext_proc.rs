//! The Envoy external processor: which requests are intercepted, and the
//! mutations answered for their bodies.
use vstd::prelude::*;
use vstd::string::*;
use crate::chat_template;
use crate::config::ExtProcConfig;
use crate::json;
use crate::json::{Json, JsonValue};
use crate::server::MetricEvent;
use crate::text;
use crate::tokenizer;
use crate::tokenizer::{RegistryView, TokenizerRegistry};

verus! {

broadcast use vstd::string::group_string_axioms;

/// A request header as Envoy sends it: the value either as text or as raw
/// bytes.
pub struct HeaderEntry {
    pub key: String,
    pub value: String,
    pub raw_value: Vec<u8>,
}

/// A header to set on the request.
#[derive(Debug)]
pub struct HeaderSet {
    pub key: String,
    pub raw_value: Vec<u8>,
}

/// What Envoy sends on the processing stream.
pub enum ExtRequest {
    /// The request headers, where there are any.
    RequestHeaders(Option<Vec<HeaderEntry>>),
    /// The buffered request body.
    RequestBody(Vec<u8>),
    ResponseHeaders,
    ResponseBody,
    /// Any other message, or none.
    Other,
}

/// The phase a response answers.
#[derive(Clone, Copy, Debug, PartialEq, Eq, Structural)]
pub enum Phase {
    RequestHeaders,
    RequestBody,
    ResponseHeaders,
    ResponseBody,
}

/// A processing response: the phase it answers, the headers to set (none
/// where there is nothing to set), and the new body, if any.
#[derive(Debug)]
pub struct ExtProcResponse {
    pub phase: Phase,
    pub header_mutation: Option<Vec<HeaderSet>>,
    pub body_mutation: Option<Vec<u8>>,
}

pub open spec fn header_view(h: HeaderSet) -> (Seq<char>, Seq<u8>) {
    (h.key@, h.raw_value@)
}

pub open spec fn headers_view(s: Seq<HeaderSet>) -> Seq<(Seq<char>, Seq<u8>)> {
    s.map_values(|h: HeaderSet| header_view(h))
}

pub open spec fn mutation_view(m: Option<Vec<HeaderSet>>) -> Option<Seq<(Seq<char>, Seq<u8>)>> {
    match m {
        Some(v) => Some(headers_view(v@)),
        None => None,
    }
}

/// The bytes of a text.
pub open spec fn bytes_of(s: Seq<char>) -> Seq<u8> {
    vstd::utf8::encode_utf8(s)
}

/// A response that lets the phase go on unchanged.
pub open spec fn is_continue(r: ExtProcResponse, phase: Phase) -> bool {
    r.phase == phase && r.header_mutation is None && r.body_mutation is None
}

/// The fail-open response: the body passes through, with the header
/// `x-tokend-error` set to the message.
pub open spec fn is_error_response(r: ExtProcResponse, msg: Seq<char>) -> bool {
    &&& r.phase == Phase::RequestBody
    &&& mutation_view(r.header_mutation) == Some(seq![("x-tokend-error"@, bytes_of(msg))])
    &&& r.body_mutation is None
}

fn header(key: &str, value: &str) -> (r: HeaderSet)
    ensures
        header_view(r) == (key@, bytes_of(value@)),
{
    HeaderSet { key: String::from_str(key), raw_value: value.as_bytes_vec() }
}

/// Build a CONTINUE response for the request headers phase.
pub fn continue_headers_response() -> (r: ExtProcResponse)
    ensures
        is_continue(r, Phase::RequestHeaders),
{
    ExtProcResponse { phase: Phase::RequestHeaders, header_mutation: None, body_mutation: None }
}

/// Build a CONTINUE response for the request body phase.
pub fn continue_body_response() -> (r: ExtProcResponse)
    ensures
        is_continue(r, Phase::RequestBody),
{
    ExtProcResponse { phase: Phase::RequestBody, header_mutation: None, body_mutation: None }
}

/// Build a fail-open response: pass through with an error header.
pub fn error_response(msg: &str) -> (r: ExtProcResponse)
    ensures
        is_error_response(r, msg@),
{
    let mut headers: Vec<HeaderSet> = Vec::new();
    headers.push(header("x-tokend-error", msg));
    assert(headers_view(headers@) =~= seq![("x-tokend-error"@, bytes_of(msg@))]);
    ExtProcResponse { phase: Phase::RequestBody, header_mutation: Some(headers), body_mutation: None }
}

// ---------------------------------------------------------------------------
// Which requests are intercepted
// ---------------------------------------------------------------------------

/// What `String::from_utf8_lossy` makes of some bytes.
pub uninterp spec fn lossy_text(b: Seq<u8>) -> Seq<char>;

/// `String::from_utf8_lossy`, owned. The contract claims that the text is a
/// function of the bytes, named `lossy_text`, and that valid UTF-8 is
/// decoded as it is.
#[verifier::external_body]
fn utf8_lossy(b: &[u8]) -> (r: String)
    ensures
        r@ == lossy_text(b@),
        vstd::utf8::valid_utf8(b@) ==> r@ == vstd::utf8::decode_utf8(b@),
{
    String::from_utf8_lossy(b).to_string()
}

/// The first header named `:path`.
pub open spec fn path_header(hs: Seq<HeaderEntry>) -> Option<HeaderEntry>
    decreases hs.len(),
{
    if hs.len() == 0 {
        None
    } else if hs[0].key@ == ":path"@ {
        Some(hs[0])
    } else {
        path_header(hs.drop_first())
    }
}

/// The path a header carries: its raw bytes read as UTF-8 where there are
/// any, else its text value.
pub open spec fn header_path(h: HeaderEntry) -> Seq<char> {
    if h.raw_value@.len() > 0 {
        lossy_text(h.raw_value@)
    } else {
        h.value@
    }
}

/// The path without its query string: what comes before the first `?`.
pub open spec fn strip_query(p: Seq<char>) -> Seq<char>
    decreases p.len(),
{
    if p.len() == 0 || p[0] == '?' {
        seq![]
    } else {
        seq![p[0]] + strip_query(p.drop_first())
    }
}

/// Whether a request is intercepted: its `:path` header, without the query
/// string, is one of the intercept paths.
pub open spec fn intercepts(headers: Option<Vec<HeaderEntry>>, paths: Seq<String>) -> bool {
    match headers {
        Some(hs) => match path_header(hs@) {
            Some(h) => paths.map_values(|p: String| p@).contains(strip_query(header_path(h))),
            None => false,
        },
        None => false,
    }
}

fn query_stripped(p: &str) -> (r: String)
    ensures
        r@ == strip_query(p@),
{
    let v = text::chars_of(p);
    let mut out = String::new();
    let mut i: usize = 0;
    assert(v@.skip(0) =~= v@);
    while i < v.len() && v[i] != '?'
        invariant
            i <= v.len(),
            v@ == p@,
            strip_query(p@) == out@ + strip_query(v@.skip(i as int)),
        decreases v.len() - i,
    {
        assert(v@.skip(i as int).drop_first() =~= v@.skip(i + 1));
        out.push(v[i]);
        assert(strip_query(v@.skip(i as int)) == seq![v@[i as int]] + strip_query(v@.skip(i + 1)));
        i = i + 1;
    }
    assert(strip_query(v@.skip(i as int)) == Seq::<char>::empty());
    out
}

fn contains_text(paths: &Vec<String>, p: &str) -> (r: bool)
    ensures
        r == paths@.map_values(|q: String| q@).contains(p@),
{
    let ghost vs = paths@.map_values(|q: String| q@);
    let mut i: usize = 0;
    while i < paths.len()
        invariant
            i <= paths.len(),
            vs == paths@.map_values(|q: String| q@),
            forall|k: int| 0 <= k < i ==> vs[k] != p@,
        decreases paths.len() - i,
    {
        if text::same_text(paths[i].as_str(), p) {
            assert(vs[i as int] == p@);
            return true;
        }
        i = i + 1;
    }
    false
}

proof fn lemma_path_header_skip(hs: Seq<HeaderEntry>, i: int)
    requires
        0 <= i < hs.len(),
        hs[i].key@ != ":path"@,
    ensures
        path_header(hs.skip(i)) == path_header(hs.skip(i + 1)),
{
    assert(hs.skip(i).drop_first() =~= hs.skip(i + 1));
}

/// Checks whether the request path matches any configured intercept path.
pub fn should_intercept(headers: &Option<Vec<HeaderEntry>>, intercept_paths: &Vec<String>) -> (r: bool)
    ensures
        r == intercepts(*headers, intercept_paths@),
{
    match headers {
        Some(entries) => {
            let mut i: usize = 0;
            assert(entries@.skip(0) =~= entries@);
            while i < entries.len()
                invariant
                    i <= entries.len(),
                    *headers == Some(*entries),
                    path_header(entries@) == path_header(entries@.skip(i as int)),
                decreases entries.len() - i,
            {
                if text::same_text(entries[i].key.as_str(), ":path") {
                    assert(entries@.skip(i as int)[0] == entries@[i as int]);
                    let path = if entries[i].raw_value.len() > 0 {
                        utf8_lossy(entries[i].raw_value.as_slice())
                    } else {
                        entries[i].value.clone()
                    };
                    let path_only = query_stripped(path.as_str());
                    return contains_text(intercept_paths, path_only.as_str());
                }
                proof {
                    lemma_path_header_skip(entries@, i as int);
                }
                i = i + 1;
            }
            assert(entries@.skip(i as int).len() == 0);
            false
        },
        None => false,
    }
}

// ---------------------------------------------------------------------------
// The mutation answered for a tokenized body
// ---------------------------------------------------------------------------

/// Whether a mode sets the token headers.
pub open spec fn mode_sets_headers(mode: Seq<char>) -> bool {
    mode == "headers"@ || mode == "both"@
}

/// Whether a mode rewrites the body.
pub open spec fn mode_sets_body(mode: Seq<char>) -> bool {
    mode == "body"@ || mode == "both"@
}

/// The token headers a mode sets: the count, then the model.
pub open spec fn token_headers(cfg: ExtProcConfig, model: Seq<char>, count: u32) -> Seq<
    (Seq<char>, Seq<u8>),
> {
    if mode_sets_headers(cfg.mode@) {
        seq![
            (cfg.token_count_header@, bytes_of(text::decimal(count as nat))),
            (cfg.model_header@, bytes_of(model)),
        ]
    } else {
        seq![]
    }
}

/// The body with the token count set (and the token ids, where they are
/// injected); a body that is not an object is left as it is.
pub open spec fn counted_body(cfg: ExtProcConfig, count: u32, ids: Seq<u32>, body: Json) -> Json {
    match body {
        Json::Object(fields) => {
            let with_count = json::set_field(fields, cfg.body_field@, json::num_json(count as nat));
            Json::Object(
                if cfg.inject_tokens {
                    json::set_field(with_count, cfg.token_ids_field@, json::ids_json(ids))
                } else {
                    with_count
                },
            )
        },
        _ => body,
    }
}

/// No header mutation for no headers.
pub open spec fn headers_or_none(hs: Seq<(Seq<char>, Seq<u8>)>) -> Option<Seq<(Seq<char>, Seq<u8>)>> {
    if hs.len() == 0 {
        None
    } else {
        Some(hs)
    }
}

/// The response to a tokenized body: the token headers where the mode sets
/// them; where it rewrites the body, the rewritten body with its new
/// `content-length`.
pub open spec fn is_mutation_response(
    r: ExtProcResponse,
    cfg: ExtProcConfig,
    model: Seq<char>,
    count: u32,
    ids: Seq<u32>,
    body: Json,
) -> bool {
    let hs = token_headers(cfg, model, count);
    &&& r.phase == Phase::RequestBody
    &&& if mode_sets_body(cfg.mode@) {
        let b = json::json_bytes(counted_body(cfg, count, ids, body));
        &&& r.body_mutation matches Some(m) && m@ == b
        &&& mutation_view(r.header_mutation) == Some(
            hs.push(("content-length"@, bytes_of(text::decimal(b.len())))),
        )
    } else {
        &&& r.body_mutation is None
        &&& mutation_view(r.header_mutation) == headers_or_none(hs)
    }
}

fn header_bytes(key: String, value: &str) -> (r: HeaderSet)
    ensures
        header_view(r) == (key@, bytes_of(value@)),
{
    HeaderSet { key, raw_value: value.as_bytes_vec() }
}

/// Builds the response with header and/or body mutations, as the mode asks.
pub fn build_mutation_response(
    ext_proc: &ExtProcConfig,
    model: &str,
    token_count: u32,
    token_ids: &Vec<u32>,
    parsed_body: &JsonValue,
) -> (r: ExtProcResponse)
    ensures
        is_mutation_response(r, *ext_proc, model@, token_count, token_ids@, parsed_body@),
{
    let mode = ext_proc.mode.as_str();
    let sets_headers = text::same_text(mode, "headers") || text::same_text(mode, "both");
    let sets_body = text::same_text(mode, "body") || text::same_text(mode, "both");
    let ghost hs = token_headers(*ext_proc, model@, token_count);
    let mut headers: Vec<HeaderSet> = Vec::new();
    if sets_headers {
        let count_text = text::decimal_string(token_count as u64);
        headers.push(header_bytes(ext_proc.token_count_header.clone(), count_text.as_str()));
        headers.push(header_bytes(ext_proc.model_header.clone(), model));
    }
    assert(headers_view(headers@) =~= hs);
    let mut body_mutation: Option<Vec<u8>> = None;
    if sets_body {
        let mut modified = parsed_body.deep_copy();
        modified.set(ext_proc.body_field.clone(), json::json_number(token_count as u64));
        if ext_proc.inject_tokens {
            modified.set(ext_proc.token_ids_field.clone(), json::json_ids(token_ids));
        }
        assert(modified@ == counted_body(*ext_proc, token_count, token_ids@, parsed_body@));
        let bytes = json::write_json(&modified);
        let len_text = text::decimal_string(bytes.len() as u64);
        let ghost before = headers@;
        headers.push(header("content-length", len_text.as_str()));
        assert(headers_view(headers@) =~= headers_view(before).push(
            ("content-length"@, bytes_of(text::decimal(bytes@.len()))),
        ));
        body_mutation = Some(bytes);
    }
    let header_mutation = if headers.len() == 0 {
        None
    } else {
        Some(headers)
    };
    ExtProcResponse { phase: Phase::RequestBody, header_mutation, body_mutation }
}

// ---------------------------------------------------------------------------
// Tokenizing a request body
// ---------------------------------------------------------------------------

/// The flag `key` of a body: its boolean value, `true` where it is missing or
/// not a boolean.
pub open spec fn flag_or_true(body: Json, key: Seq<char>) -> bool {
    match json::json_get(body, key) {
        Some(Json::Bool(b)) => b,
        _ => true,
    }
}

/// The fail-open response for a tokenization that failed with `cause`.
pub open spec fn tokenizing_failure(resp: ExtProcResponse, cause: Seq<char>) -> bool {
    is_error_response(resp, "tokenization failed: "@ + cause)
}

/// The fail-open response for a text the tokenizer of `model` could not
/// encode, with the tokenizer's message.
pub open spec fn encode_failure(resp: ExtProcResponse, model: Seq<char>, message: Seq<char>) -> bool {
    tokenizing_failure(resp, "tokenization failed for "@ + model + ": "@ + message)
}

/// The tokenization of `text` by the tokenizer of a loaded model, with
/// special tokens: the ids with their count, or the tokenizer's failure;
/// for a tokenizer that does not sample, the ids of its encoding of `text`
/// or the failure it reports on `text`.
pub open spec fn tokenized(
    r: Result<(u32, Vec<u32>), ExtProcResponse>,
    reg: RegistryView,
    model: Seq<char>,
    text: Seq<char>,
) -> bool {
    let def = reg.models[model];
    match r {
        Ok((count, ids)) => {
            &&& count == ids@.len() as u32
            &&& tokenizer::fixed_encoding(def) ==> (tokenizer::encoding_of(def, text, true) matches Ok(
                enc,
            ) && ids@ == enc.0)
        },
        Err(resp) => exists|message: Seq<char>|
            #[trigger] encode_failure(resp, model, message) && (tokenizer::fixed_encoding(def)
                ==> tokenizer::encoding_of(def, text, true) == Err::<
                (Seq<u32>, Seq<Seq<char>>),
                Seq<char>,
            >(message)),
    }
}

/// What becomes of a chat completions body (one with `messages`): the
/// messages are read, the model's chat template renders them (with
/// `add_generation_prompt`, `true` unless the body says otherwise, and no
/// tools), and the prompt is tokenized with special tokens.
pub open spec fn chat_request_outcome(
    r: Result<(u32, Vec<u32>), ExtProcResponse>,
    reg: RegistryView,
    model: Seq<char>,
    body: Json,
) -> bool {
    match chat_template::decode_messages(json::json_get(body, "messages"@).unwrap()) {
        Err(e) => r matches Err(resp) && is_error_response(resp, "messages parse error: "@ + e),
        Ok(ms) => if !reg.models.contains_key(model) {
            r matches Err(resp) && tokenizing_failure(resp, "model not loaded: "@ + model)
        } else if !reg.templates.contains_key(model) {
            r matches Err(resp) && tokenizing_failure(
                resp,
                "chat template not available for "@ + model,
            )
        } else {
            match chat_template::template_render(
                reg.templates[model].source,
                chat_template::render_context(
                    reg.templates[model],
                    ms,
                    flag_or_true(body, "add_generation_prompt"@),
                    None,
                ),
            ) {
                Err(e) => r matches Err(resp) && tokenizing_failure(
                    resp,
                    "chat template render failed for "@ + model + ": "@ + e,
                ),
                Ok(prompt) => tokenized(r, reg, model, prompt),
            }
        },
    }
}

/// What becomes of a completions body (one with `prompt`): the prompt must
/// be a string, and is tokenized as it is, with special tokens.
pub open spec fn prompt_request_outcome(
    r: Result<(u32, Vec<u32>), ExtProcResponse>,
    reg: RegistryView,
    model: Seq<char>,
    body: Json,
) -> bool {
    match json::json_get_str(body, "prompt"@) {
        None => r matches Err(resp) && is_error_response(resp, "'prompt' must be a string"@),
        Some(p) => if !reg.models.contains_key(model) {
            r matches Err(resp) && tokenizing_failure(resp, "model not loaded: "@ + model)
        } else {
            tokenized(r, reg, model, p)
        },
    }
}

fn failure_response(e: &tokenizer::TokenizerError) -> (r: ExtProcResponse)
    ensures
        tokenizing_failure(r, tokenizer::error_text(*e)),
{
    let cause = e.to_string();
    let msg = text::concat("tokenization failed: ", cause.as_str());
    error_response(msg.as_str())
}

/// Chat completions path: reads the messages, applies the chat template,
/// tokenizes.
pub fn tokenize_chat_request(parsed: &JsonValue, model: &str, registry: &TokenizerRegistry) -> (r:
    Result<(u32, Vec<u32>), ExtProcResponse>)
    requires
        registry.wf(),
        json::json_get(parsed@, "messages"@) is Some,
    ensures
        chat_request_outcome(r, registry@, model@, parsed@),
{
    let messages_val = parsed.get("messages").unwrap();
    let messages = match chat_template::messages_from_json(messages_val) {
        Ok(m) => m,
        Err(e) => {
            let msg = text::concat("messages parse error: ", e.as_str());
            return Err(error_response(msg.as_str()));
        },
    };
    let add_generation_prompt = match parsed.get("add_generation_prompt") {
        Some(v) => match v.as_bool() {
            Some(b) => b,
            None => true,
        },
        None => true,
    };
    match registry.chat_tokenize(model, messages.as_slice(), add_generation_prompt, None, true, false) {
        Ok(result) => Ok((result.token_count, result.token_ids)),
        Err(e) => {
            let resp = failure_response(&e);
            proof {
                if let tokenizer::TokenizerError::EncodeFailed { model: m, message } = e {
                    assert(encode_failure(resp, model@, message@));
                }
            }
            Err(resp)
        },
    }
}

/// Completions path: tokenizes the prompt string as it is, with no chat
/// template.
pub fn tokenize_completions_request(parsed: &JsonValue, model: &str, registry: &TokenizerRegistry) -> (r:
    Result<(u32, Vec<u32>), ExtProcResponse>)
    ensures
        prompt_request_outcome(r, registry@, model@, parsed@),
{
    let prompt = match parsed.get("prompt") {
        Some(v) => match v.as_str() {
            Some(p) => p,
            None => {
                return Err(error_response("'prompt' must be a string"));
            },
        },
        None => {
            return Err(error_response("'prompt' must be a string"));
        },
    };
    let texts: [&str; 1] = [prompt];
    proof {
        assert(texts@.map_values(|t: &str| t@) =~= seq![prompt@]);
    }
    match registry.tokenize(model, &texts, true, false) {
        Ok(mut results) => {
            let result = results.remove(0);
            Ok((result.token_count, result.token_ids))
        },
        Err(e) => {
            let resp = failure_response(&e);
            proof {
                if let tokenizer::TokenizerError::EncodeFailed { model: m, message } = e {
                    assert(encode_failure(resp, model@, message@));
                    if tokenizer::fixed_encoding(registry@.models[model@]) {
                        let ts = seq![prompt@];
                        assert(tokenizer::first_failure(registry@.models[model@], ts, true, message@));
                        let i = choose|i: int|
                            0 <= i < ts.len() && #[trigger] tokenizer::encoding_of(
                                registry@.models[model@],
                                ts[i],
                                true,
                            ) == Err::<(Seq<u32>, Seq<Seq<char>>), Seq<char>>(message@) && forall|j: int|
                                0 <= j < i ==> tokenizer::encoding_of(registry@.models[model@], ts[j], true) is Ok;
                        assert(i == 0);
                    }
                }
            }
            Err(resp)
        },
    }
}

// ---------------------------------------------------------------------------
// Handling a request body
// ---------------------------------------------------------------------------

/// A failed request body: the fail-open response with the message, and an
/// error recorded.
pub open spec fn fails_with(r: (ExtProcResponse, MetricEvent), msg: Seq<char>) -> bool {
    is_error_response(r.0, msg) && r.1 is ExtProcError
}

/// The answer to a tokenization: the mutation response with the tokens
/// recorded, or the tokenization's failure with an error recorded.
pub open spec fn answers(
    r: (ExtProcResponse, MetricEvent),
    t: Result<(u32, Vec<u32>), ExtProcResponse>,
    cfg: ExtProcConfig,
    model: Seq<char>,
    body: Json,
) -> bool {
    match t {
        Ok((count, ids)) => {
            &&& is_mutation_response(r.0, cfg, model, count, ids@, body)
            &&& r.1 matches MetricEvent::ExtProc { model: m, latency_us: _, token_count }
            &&& m@ == model
            &&& token_count == count as u64
        },
        Err(resp) => r.0 == resp && r.1 is ExtProcError,
    }
}

/// What becomes of a request body once it parsed as JSON: it must have a
/// string `model`; a body with `messages` goes the chat completions path,
/// else one with `prompt` the completions path.
pub open spec fn parsed_outcome(
    r: (ExtProcResponse, MetricEvent),
    reg: RegistryView,
    cfg: ExtProcConfig,
    v: Json,
) -> bool {
    match json::json_get_str(v, "model"@) {
        None => fails_with(r, "missing 'model' field"@),
        Some(m) => if json::json_get(v, "messages"@) is Some {
            exists|t: Result<(u32, Vec<u32>), ExtProcResponse>|
                chat_request_outcome(t, reg, m, v) && #[trigger] answers(r, t, cfg, m, v)
        } else if json::json_get(v, "prompt"@) is Some {
            exists|t: Result<(u32, Vec<u32>), ExtProcResponse>|
                prompt_request_outcome(t, reg, m, v) && #[trigger] answers(r, t, cfg, m, v)
        } else {
            fails_with(r, "missing 'messages' or 'prompt' field"@)
        },
    }
}

/// What becomes of a buffered request body: it must be JSON, and then goes
/// as `parsed_outcome` says.
pub open spec fn body_outcome(
    r: (ExtProcResponse, MetricEvent),
    reg: RegistryView,
    cfg: ExtProcConfig,
    bytes: Seq<u8>,
) -> bool {
    match json::json_parse(bytes) {
        Err(e) => fails_with(r, "JSON parse error: "@ + e),
        Ok(v) => parsed_outcome(r, reg, cfg, v),
    }
}

/// Parses the buffered request body, tokenizes it as its shape asks, and
/// builds the mutation response.
pub fn handle_request_body(body: &[u8], registry: &TokenizerRegistry, ext_proc: &ExtProcConfig) -> (r: (
    ExtProcResponse,
    MetricEvent,
))
    requires
        registry.wf(),
    ensures
        body_outcome(r, registry@, *ext_proc, body@),
{
    let start = std::time::Instant::now();
    match json::parse_json(body) {
        Ok(parsed) => handle_parsed_body(&parsed, registry, ext_proc, &start),
        Err(e) => {
            let msg = text::concat("JSON parse error: ", e.as_str());
            (error_response(msg.as_str()), MetricEvent::ExtProcError)
        },
    }
}

/// Tokenizes a parsed request body as its shape asks and builds the mutation
/// response; the latency recorded is counted from `start`.
pub fn handle_parsed_body(
    parsed: &JsonValue,
    registry: &TokenizerRegistry,
    ext_proc: &ExtProcConfig,
    start: &std::time::Instant,
) -> (r: (ExtProcResponse, MetricEvent))
    requires
        registry.wf(),
    ensures
        parsed_outcome(r, registry@, *ext_proc, parsed@),
{
    let model = match parsed.get("model") {
        Some(v) => match v.as_str() {
            Some(m) => String::from_str(m),
            None => {
                return (error_response("missing 'model' field"), MetricEvent::ExtProcError);
            },
        },
        None => {
            return (error_response("missing 'model' field"), MetricEvent::ExtProcError);
        },
    };
    let tokenize_result = if parsed.get("messages").is_some() {
        tokenize_chat_request(parsed, model.as_str(), registry)
    } else if parsed.get("prompt").is_some() {
        tokenize_completions_request(parsed, model.as_str(), registry)
    } else {
        return (
            error_response("missing 'messages' or 'prompt' field"),
            MetricEvent::ExtProcError,
        );
    };
    let ghost t = tokenize_result;
    let r = match tokenize_result {
        Ok((token_count, token_ids)) => {
            let latency_us = tokenizer::micros_since(start) as u64;
            let resp = build_mutation_response(ext_proc, model.as_str(), token_count, &token_ids, parsed);
            (resp, MetricEvent::ExtProc { model, latency_us, token_count: token_count as u64 })
        },
        Err(resp) => (resp, MetricEvent::ExtProcError),
    };
    proof {
        let m = json::json_get_str(parsed@, "model"@)->Some_0;
        assert(m == model@);
        assert(answers(r, t, *ext_proc, m, parsed@));
    }
    r
}

// ---------------------------------------------------------------------------
// The processing stream
// ---------------------------------------------------------------------------

/// Whether a stream intercepts after one more message: request headers
/// decide it anew, anything else leaves it as it was.
pub open spec fn next_intercept(intercept: bool, msg: ExtRequest, paths: Seq<String>) -> bool {
    match msg {
        ExtRequest::RequestHeaders(h) => intercepts(h, paths),
        _ => intercept,
    }
}

/// Whether a stream intercepts after some messages, from the start.
pub open spec fn intercept_after(msgs: Seq<ExtRequest>, paths: Seq<String>) -> bool
    decreases msgs.len(),
{
    if msgs.len() == 0 {
        false
    } else {
        next_intercept(intercept_after(msgs.drop_last(), paths), msgs.last(), paths)
    }
}

/// The request headers that came last among some messages, if any came.
pub open spec fn last_headers(msgs: Seq<ExtRequest>) -> Option<Option<Vec<HeaderEntry>>>
    decreases msgs.len(),
{
    if msgs.len() == 0 {
        None
    } else {
        match msgs.last() {
            ExtRequest::RequestHeaders(h) => Some(h),
            _ => last_headers(msgs.drop_last()),
        }
    }
}

/// The state of one processing stream: whether the request whose headers
/// came last is intercepted.
pub struct ExtProcSession {
    pub intercept: bool,
}

impl ExtProcSession {
    /// A stream that has seen no headers yet intercepts nothing.
    pub fn new() -> (r: Self)
        ensures
            !r.intercept,
    {
        ExtProcSession { intercept: false }
    }

    /// Answers one message of the stream. Request headers decide whether the
    /// request is intercepted; the body of an intercepted request is
    /// tokenized; everything else continues unchanged.
    pub fn handle(
        &mut self,
        msg: &ExtRequest,
        registry: &TokenizerRegistry,
        ext_proc: &ExtProcConfig,
    ) -> (r: (ExtProcResponse, MetricEvent))
        requires
            registry.wf(),
        ensures
            final(self).intercept == next_intercept(old(self).intercept, *msg, ext_proc.intercept_paths@),
            match *msg {
                ExtRequest::RequestHeaders(h) => {
                    &&& final(self).intercept == intercepts(h, ext_proc.intercept_paths@)
                    &&& is_continue(r.0, Phase::RequestHeaders)
                    &&& if final(self).intercept {
                        r.1 is Nothing
                    } else {
                        r.1 is ExtProcPassthrough
                    }
                },
                ExtRequest::RequestBody(b) => {
                    &&& final(self).intercept == old(self).intercept
                    &&& if old(self).intercept {
                        body_outcome(r, registry@, *ext_proc, b@)
                    } else {
                        is_continue(r.0, Phase::RequestBody) && r.1 is Nothing
                    }
                },
                ExtRequest::ResponseHeaders => {
                    &&& final(self).intercept == old(self).intercept
                    &&& is_continue(r.0, Phase::ResponseHeaders)
                    &&& r.1 is Nothing
                },
                ExtRequest::ResponseBody => {
                    &&& final(self).intercept == old(self).intercept
                    &&& is_continue(r.0, Phase::ResponseBody)
                    &&& r.1 is Nothing
                },
                ExtRequest::Other => {
                    &&& final(self).intercept == old(self).intercept
                    &&& is_continue(r.0, Phase::RequestHeaders)
                    &&& r.1 is Nothing
                },
            },
    {
        match msg {
            ExtRequest::RequestHeaders(headers) => {
                self.intercept = should_intercept(headers, &ext_proc.intercept_paths);
                let event = if self.intercept {
                    MetricEvent::Nothing
                } else {
                    MetricEvent::ExtProcPassthrough
                };
                (continue_headers_response(), event)
            },
            ExtRequest::RequestBody(body) => {
                if self.intercept {
                    handle_request_body(body.as_slice(), registry, ext_proc)
                } else {
                    (continue_body_response(), MetricEvent::Nothing)
                }
            },
            ExtRequest::ResponseHeaders => (
                ExtProcResponse {
                    phase: Phase::ResponseHeaders,
                    header_mutation: None,
                    body_mutation: None,
                },
                MetricEvent::Nothing,
            ),
            ExtRequest::ResponseBody => (
                ExtProcResponse { phase: Phase::ResponseBody, header_mutation: None, body_mutation: None },
                MetricEvent::Nothing,
            ),
            ExtRequest::Other => (continue_headers_response(), MetricEvent::Nothing),
        }
    }
}

} // verus!

verus! {

// ---------------------------------------------------------------------------
// Laws of the external processor
// ---------------------------------------------------------------------------

/// The query string does not count when a path is matched: a path without
/// `?` is matched as it is, and with a query string after it, as itself.
pub proof fn lemma_query_ignored(path: Seq<char>, query: Seq<char>)
    requires
        !path.contains('?'),
    ensures
        strip_query(path) == path,
        strip_query(path + seq!['?'] + query) == path,
    decreases path.len(),
{
    if path.len() == 0 {
        assert((path + seq!['?'] + query)[0] == '?');
    } else {
        assert(!path.drop_first().contains('?')) by {
            if path.drop_first().contains('?') {
                let i = choose|i: int| 0 <= i < path.drop_first().len() && path.drop_first()[i] == '?';
                assert(path[i + 1] == '?');
            }
        }
        lemma_query_ignored(path.drop_first(), query);
        assert(path[0] != '?') by {
            assert(path.contains(path[0]));
        }
        assert((path + seq!['?'] + query).drop_first() =~= path.drop_first() + seq!['?'] + query);
        assert(path =~= seq![path[0]] + path.drop_first());
    }
}

/// In `headers` mode the body passes unchanged, and exactly the token count
/// and model headers are set.
pub proof fn lemma_headers_mode_keeps_body(
    r: ExtProcResponse,
    cfg: ExtProcConfig,
    model: Seq<char>,
    count: u32,
    ids: Seq<u32>,
    body: Json,
)
    requires
        cfg.mode@ == "headers"@,
        is_mutation_response(r, cfg, model, count, ids, body),
    ensures
        r.body_mutation is None,
        mutation_view(r.header_mutation) == Some(
            seq![
                (cfg.token_count_header@, bytes_of(text::decimal(count as nat))),
                (cfg.model_header@, bytes_of(model)),
            ],
        ),
{
    reveal_strlit("headers");
    reveal_strlit("body");
    reveal_strlit("both");
    assert("headers"@ != "body"@ && "headers"@ != "both"@) by {
        assert("headers"@.len() != "body"@.len());
        assert("headers"@.len() != "both"@.len());
    }
    assert(mode_sets_headers(cfg.mode@));
    assert(!mode_sets_body(cfg.mode@));
}

/// In `body` mode no token header is set: the rewritten body goes with its
/// `content-length` alone.
pub proof fn lemma_body_mode_sets_no_token_headers(
    r: ExtProcResponse,
    cfg: ExtProcConfig,
    model: Seq<char>,
    count: u32,
    ids: Seq<u32>,
    body: Json,
)
    requires
        cfg.mode@ == "body"@,
        is_mutation_response(r, cfg, model, count, ids, body),
    ensures
        r.body_mutation matches Some(b) && mutation_view(r.header_mutation) == Some(
            seq![("content-length"@, bytes_of(text::decimal(b@.len())))],
        ),
{
    reveal_strlit("headers");
    reveal_strlit("body");
    reveal_strlit("both");
    assert("body"@ != "headers"@ && "body"@ != "both"@) by {
        assert("body"@.len() != "headers"@.len());
        assert("body"@[2] != "both"@[2]);
    }
    assert(!mode_sets_headers(cfg.mode@));
    assert(mode_sets_body(cfg.mode@));
    let hs = token_headers(cfg, model, count);
    let b = r.body_mutation->Some_0;
    assert(hs.len() == 0);
    assert(hs.push(("content-length"@, bytes_of(text::decimal(b@.len())))) =~= seq![
        ("content-length"@, bytes_of(text::decimal(b@.len()))),
    ]);
}

/// A rewritten body carries the token count under `body_field`, unless the
/// token ids are injected under the same name, and the token ids under
/// `token_ids_field` where they are injected; every other member keeps its
/// value.
pub proof fn lemma_counted_body_reads_back(
    cfg: ExtProcConfig,
    count: u32,
    ids: Seq<u32>,
    fields: Seq<(Seq<char>, Json)>,
    other: Seq<char>,
)
    ensures
        !(cfg.inject_tokens && cfg.token_ids_field@ == cfg.body_field@) ==> json::json_get(
            counted_body(cfg, count, ids, Json::Object(fields)),
            cfg.body_field@,
        ) == Some(json::num_json(count as nat)),
        cfg.inject_tokens ==> json::json_get(
            counted_body(cfg, count, ids, Json::Object(fields)),
            cfg.token_ids_field@,
        ) == Some(json::ids_json(ids)),
        other != cfg.body_field@ && (cfg.inject_tokens ==> other != cfg.token_ids_field@)
            ==> json::json_get(counted_body(cfg, count, ids, Json::Object(fields)), other)
            == json::json_get(Json::Object(fields), other),
{
    let c = json::num_json(count as nat);
    let with_count = json::set_field(fields, cfg.body_field@, c);
    json::lemma_get_after_set(fields, cfg.body_field@, other, c);
    json::lemma_get_after_set(fields, cfg.body_field@, cfg.token_ids_field@, c);
    if cfg.inject_tokens {
        json::lemma_get_after_set(with_count, cfg.token_ids_field@, other, json::ids_json(ids));
        json::lemma_get_after_set(with_count, cfg.token_ids_field@, cfg.body_field@, json::ids_json(ids));
    }
}

/// Fail-open: a request body that could not be tokenized passes unchanged,
/// with the single header `x-tokend-error` set; one that was tokenized is
/// answered with the mutations of the mode.
pub proof fn lemma_fail_open(r: (ExtProcResponse, MetricEvent), reg: RegistryView, cfg: ExtProcConfig, bytes: Seq<u8>)
    requires
        body_outcome(r, reg, cfg, bytes),
    ensures
        r.1 is ExtProcError ==> {
            &&& r.0.phase == Phase::RequestBody
            &&& r.0.body_mutation is None
            &&& r.0.header_mutation matches Some(hs)
            &&& hs.len() == 1
            &&& hs[0].key@ == "x-tokend-error"@
        },
        r.1 is ExtProc ==> exists|count: u32, ids: Seq<u32>, model: Seq<char>, body: Json|
            #[trigger] is_mutation_response(r.0, cfg, model, count, ids, body),
{
    match json::json_parse(bytes) {
        Err(e) => {
            assert(is_error_response(r.0, "JSON parse error: "@ + e));
        },
        Ok(v) => match json::json_get_str(v, "model"@) {
            None => {
                assert(is_error_response(r.0, "missing 'model' field"@));
            },
            Some(m) => {
                if json::json_get(v, "messages"@) is Some || json::json_get(v, "prompt"@) is Some {
                    let t = choose|t: Result<(u32, Vec<u32>), ExtProcResponse>|
                        (chat_request_outcome(t, reg, m, v) || prompt_request_outcome(t, reg, m, v))
                            && #[trigger] answers(r, t, cfg, m, v);
                    match t {
                        Ok((count, ids)) => {
                            assert(is_mutation_response(r.0, cfg, m, count, ids@, v));
                        },
                        Err(resp) => {
                            if json::json_get(v, "messages"@) is Some {
                                assert(chat_request_outcome(t, reg, m, v));
                            } else {
                                assert(prompt_request_outcome(t, reg, m, v));
                            }
                            assert(exists|msg: Seq<char>| is_error_response(resp, msg));
                        },
                    }
                } else {
                    assert(is_error_response(r.0, "missing 'messages' or 'prompt' field"@));
                }
            },
        },
    }
    if r.1 is ExtProcError {
        assert(exists|msg: Seq<char>| is_error_response(r.0, msg));
        let msg = choose|msg: Seq<char>| is_error_response(r.0, msg);
        let hs = r.0.header_mutation->Some_0;
        assert(headers_view(hs@) == seq![("x-tokend-error"@, bytes_of(msg))]);
        assert(headers_view(hs@).len() == hs@.len());
        assert(headers_view(hs@)[0] == header_view(hs@[0]));
    }
}

/// Whether a stream tokenizes a request body depends on the request headers
/// that came last alone: it intercepts exactly when they named an intercept
/// path, and not at all before any headers came.
pub proof fn lemma_intercept_follows_last_headers(msgs: Seq<ExtRequest>, paths: Seq<String>)
    ensures
        intercept_after(msgs, paths) == (match last_headers(msgs) {
            Some(h) => intercepts(h, paths),
            None => false,
        }),
    decreases msgs.len(),
{
    if msgs.len() > 0 {
        lemma_intercept_follows_last_headers(msgs.drop_last(), paths);
    }
}

/// A chat completions body that does not set `add_generation_prompt` to a
/// boolean (it lacks the member, or holds something else there) is answered
/// as the same body with `add_generation_prompt: true`: the assistant turn is
/// opened unless the body turns it off.
pub proof fn lemma_generation_prompt_by_default(
    r: Result<(u32, Vec<u32>), ExtProcResponse>,
    reg: RegistryView,
    model: Seq<char>,
    fields: Seq<(Seq<char>, Json)>,
)
    requires
        !(json::json_get(Json::Object(fields), "add_generation_prompt"@) matches Some(Json::Bool(_))),
        json::json_get(Json::Object(fields), "messages"@) is Some,
    ensures
        chat_request_outcome(r, reg, model, Json::Object(fields)) == chat_request_outcome(
            r,
            reg,
            model,
            Json::Object(json::set_field(fields, "add_generation_prompt"@, Json::Bool(true))),
        ),
{
    reveal_strlit("messages");
    reveal_strlit("add_generation_prompt");
    assert("messages"@.len() != "add_generation_prompt"@.len());
    json::lemma_get_after_set(fields, "add_generation_prompt"@, "messages"@, Json::Bool(true));
    let set = Json::Object(json::set_field(fields, "add_generation_prompt"@, Json::Bool(true)));
    assert(json::json_get(set, "messages"@) == json::json_get(Json::Object(fields), "messages"@));
    assert(flag_or_true(Json::Object(fields), "add_generation_prompt"@));
    assert(flag_or_true(set, "add_generation_prompt"@));
}

} // verus!
