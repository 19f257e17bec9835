//! The registry of loaded tokenizers and chat templates.
use vstd::prelude::*;
use vstd::string::*;
use std::sync::Arc;
use crate::chat_template;
use crate::chat_template::{ChatMessage, ChatTemplate, ChatTemplateView, Tool};
use crate::config;
use crate::config::TokenizerSource;
use crate::json;
use crate::text;

verus! {

broadcast use vstd::string::group_string_axioms;

// ---------------------------------------------------------------------------
// Errors and results
// ---------------------------------------------------------------------------

#[derive(Debug)]
pub enum TokenizerError {
    ModelNotFound(String),
    AlreadyLoaded(String),
    LoadFailed { model: String, message: String },
    EncodeFailed { model: String, message: String },
    ChatTemplateNotAvailable(String),
    ChatTemplateRenderFailed { model: String, message: String },
    FetchConfigFailed { model: String, message: String },
}

/// The text of an error.
pub open spec fn error_text(e: TokenizerError) -> Seq<char> {
    match e {
        TokenizerError::ModelNotFound(m) => "model not loaded: "@ + m@,
        TokenizerError::AlreadyLoaded(m) => "model already loaded: "@ + m@,
        TokenizerError::LoadFailed { model, message } => "failed to load tokenizer for "@ + model@
            + ": "@ + message@,
        TokenizerError::EncodeFailed { model, message } => "tokenization failed for "@ + model@
            + ": "@ + message@,
        TokenizerError::ChatTemplateNotAvailable(m) => "chat template not available for "@ + m@,
        TokenizerError::ChatTemplateRenderFailed { model, message } =>
            "chat template render failed for "@ + model@ + ": "@ + message@,
        TokenizerError::FetchConfigFailed { model, message } =>
            "failed to fetch tokenizer config for "@ + model@ + ": "@ + message@,
    }
}

fn prefixed(prefix: &str, model: &String) -> (r: String)
    ensures
        r@ == prefix@ + model@,
{
    text::concat(prefix, model.as_str())
}

fn prefixed_with_cause(prefix: &str, model: &String, message: &String) -> (r: String)
    ensures
        r@ == prefix@ + model@ + ": "@ + message@,
{
    let mut s = text::concat(prefix, model.as_str());
    s.append(": ");
    s.append(message.as_str());
    s
}

impl TokenizerError {
    /// The error's message, as its `Display` writes it.
    pub fn to_string(&self) -> (r: String)
        ensures
            r@ == error_text(*self),
    {
        match self {
            TokenizerError::ModelNotFound(m) => prefixed("model not loaded: ", m),
            TokenizerError::AlreadyLoaded(m) => prefixed("model already loaded: ", m),
            TokenizerError::LoadFailed { model, message } => prefixed_with_cause(
                "failed to load tokenizer for ",
                model,
                message,
            ),
            TokenizerError::EncodeFailed { model, message } => prefixed_with_cause(
                "tokenization failed for ",
                model,
                message,
            ),
            TokenizerError::ChatTemplateNotAvailable(m) => prefixed(
                "chat template not available for ",
                m,
            ),
            TokenizerError::ChatTemplateRenderFailed { model, message } => prefixed_with_cause(
                "chat template render failed for ",
                model,
                message,
            ),
            TokenizerError::FetchConfigFailed { model, message } => prefixed_with_cause(
                "failed to fetch tokenizer config for ",
                model,
                message,
            ),
        }
    }
}

pub struct TokenResult {
    pub token_ids: Vec<u32>,
    pub token_count: u32,
    pub tokens: Option<Vec<String>>,
}

pub struct ChatTokenizeResult {
    pub token_ids: Vec<u32>,
    pub token_count: u32,
    pub tokens: Option<Vec<String>>,
    /// Microseconds spent in template rendering only.
    pub render_us: u64,
}

/// The facts every result of a tokenization holds: the count is the number
/// of ids (as `len() as u32` gives it), and token strings are there exactly
/// when they were asked for.
pub open spec fn consistent_result(r: TokenResult, return_tokens: bool) -> bool {
    &&& r.token_count == r.token_ids@.len() as u32
    &&& (r.tokens is Some <==> return_tokens)
}

/// The result of one encoding: its ids, their number (as `len() as u32`
/// gives it), and its token strings only where they were asked for.
pub fn token_result(ids: Vec<u32>, strings: Vec<String>, return_tokens: bool) -> (r: TokenResult)
    ensures
        r.token_ids@ == ids@,
        r.token_count == ids@.len() as u32,
        r.tokens == (if return_tokens {
            Some(strings)
        } else {
            None::<Vec<String>>
        }),
{
    let token_count = #[verifier::truncate] (ids.len() as u32);
    let tokens = if return_tokens {
        Some(strings)
    } else {
        None
    };
    TokenResult { token_ids: ids, token_count, tokens }
}

/// A result holds an encoding: its ids, their number, and, where they were
/// asked for, its token strings.
pub open spec fn result_of(r: TokenResult, enc: (Seq<u32>, Seq<Seq<char>>), return_tokens: bool) -> bool {
    &&& r.token_ids@ == enc.0
    &&& r.token_count == enc.0.len() as u32
    &&& if return_tokens {
        r.tokens matches Some(t) && t@.map_values(|s: String| s@) == enc.1
    } else {
        r.tokens is None
    }
}

/// The tokenizer of `definition` encodes `text` into what `r` holds.
pub open spec fn encodes_to(
    definition: Seq<char>,
    text: Seq<char>,
    add_special_tokens: bool,
    r: TokenResult,
    return_tokens: bool,
) -> bool {
    encoding_of(definition, text, add_special_tokens) matches Ok(enc) && result_of(r, enc, return_tokens)
}

/// `text` is the first of `texts` that the tokenizer of `definition` fails
/// on, and `message` is the failure.
pub open spec fn first_failure(
    definition: Seq<char>,
    texts: Seq<Seq<char>>,
    add_special_tokens: bool,
    message: Seq<char>,
) -> bool {
    exists|i: int|
        0 <= i < texts.len() && #[trigger] encoding_of(definition, texts[i], add_special_tokens)
            == Err::<(Seq<u32>, Seq<Seq<char>>), Seq<char>>(message) && forall|j: int|
            0 <= j < i ==> encoding_of(definition, texts[j], add_special_tokens) is Ok
}

/// What tokenizing `texts` with `model` answers: the model must be loaded;
/// then one result per text, in order, each the encoding of its text by
/// the model's tokenizer, or the failure on the first text it cannot encode.
/// For a tokenizer that samples (see `fixed_encoding`) the ids are left
/// open: no text means an empty answer, and a failure needs a text.
pub open spec fn tokenize_outcome(
    r: Result<Vec<TokenResult>, TokenizerError>,
    reg: RegistryView,
    model: Seq<char>,
    texts: Seq<Seq<char>>,
    add_special_tokens: bool,
    return_tokens: bool,
) -> bool {
    if !reg.models.contains_key(model) {
        r matches Err(TokenizerError::ModelNotFound(m)) && m@ == model
    } else {
        let def = reg.models[model];
        match r {
            Ok(results) => {
                &&& results.len() == texts.len()
                &&& forall|i: int|
                    0 <= i < texts.len() ==> consistent_result(#[trigger] results@[i], return_tokens)
                &&& fixed_encoding(def) ==> forall|i: int|
                    0 <= i < texts.len() ==> encodes_to(
                        def,
                        texts[i],
                        add_special_tokens,
                        #[trigger] results@[i],
                        return_tokens,
                    )
            },
            Err(e) => {
                &&& e matches TokenizerError::EncodeFailed { model: m, message }
                &&& m@ == model
                &&& texts.len() > 0
                &&& fixed_encoding(def) ==> first_failure(def, texts, add_special_tokens, message@)
            },
        }
    }
}

/// What a chat tokenization answers: the model must be loaded and have a
/// chat template; the template renders the messages (see `render_context`),
/// and the rendered prompt is encoded by the model's tokenizer.
pub open spec fn chat_tokenize_outcome(
    r: Result<ChatTokenizeResult, TokenizerError>,
    reg: RegistryView,
    model: Seq<char>,
    messages: Seq<chat_template::ChatMessageView>,
    add_generation_prompt: bool,
    tools: Option<Seq<Tool>>,
    add_special_tokens: bool,
    return_tokens: bool,
) -> bool {
    if !reg.models.contains_key(model) {
        r matches Err(TokenizerError::ModelNotFound(m)) && m@ == model
    } else if !reg.templates.contains_key(model) {
        r matches Err(TokenizerError::ChatTemplateNotAvailable(m)) && m@ == model
    } else {
        match chat_template::template_render(
            reg.templates[model].source,
            chat_template::render_context(reg.templates[model], messages, add_generation_prompt, tools),
        ) {
            Err(e) => r matches Err(TokenizerError::ChatTemplateRenderFailed { model: m, message })
                && m@ == model && message@ == e,
            Ok(prompt) => {
                let def = reg.models[model];
                match r {
                    Ok(res) => {
                        &&& res.token_count == res.token_ids@.len() as u32
                        &&& (res.tokens is Some <==> return_tokens)
                        &&& fixed_encoding(def) ==> encodes_to(
                            def,
                            prompt,
                            add_special_tokens,
                            TokenResult {
                                token_ids: res.token_ids,
                                token_count: res.token_count,
                                tokens: res.tokens,
                            },
                            return_tokens,
                        )
                    },
                    Err(e) => {
                        &&& e matches TokenizerError::EncodeFailed { model: m, message }
                        &&& m@ == model
                        &&& fixed_encoding(def) ==> encoding_of(def, prompt, add_special_tokens)
                            == Err::<(Seq<u32>, Seq<Seq<char>>), Seq<char>>(message@)
                    },
                }
            },
        }
    }
}

/// How to obtain a tokenizer that is not loaded yet.
#[derive(Debug)]
pub enum LoadPlan {
    /// Read `path` if it exists, else download the model's `tokenizer.json`
    /// from the Hugging Face Hub and store it at `path`.
    FromHub { cache_path: String },
    /// Read the tokenizer file at `path`.
    FromFile { path: String },
}

// ---------------------------------------------------------------------------
// Outside types and calls
// ---------------------------------------------------------------------------

#[verifier::external_type_specification]
#[verifier::external_body]
#[verifier::reject_recursive_types(K)]
#[verifier::reject_recursive_types(V)]
#[verifier::reject_recursive_types(S)]
pub struct ExDashMap<K, V, S>(dashmap::DashMap<K, V, S>);

#[verifier::external_type_specification]
#[verifier::external_body]
pub struct ExTokenizer(tokenizers::Tokenizer);

#[verifier::external_type_specification]
#[verifier::external_body]
pub struct ExInstant(std::time::Instant);

/// A parsed tokenizer with the definition it was parsed from: the text of
/// its `tokenizer.json`. Only `parse_tokenizer` makes one, so the definition
/// is always the one the tokenizer came from.
pub struct LoadedTokenizer {
    tokenizer: tokenizers::Tokenizer,
    definition: Ghost<Seq<char>>,
}

impl View for LoadedTokenizer {
    type V = Seq<char>;

    closed spec fn view(&self) -> Seq<char> {
        self.definition@
    }
}

/// What `Tokenizer::from_str` makes of a definition: `None` where it
/// accepts it, else the text of its error.
pub uninterp spec fn tokenizer_parse(definition: Seq<char>) -> Option<Seq<char>>;

/// What `Tokenizer::encode` gives for a text, by the tokenizer of a
/// definition: the ids (`Encoding::get_ids`) and token strings
/// (`Encoding::get_tokens`), or the text of its error.
pub uninterp spec fn encoding_of(definition: Seq<char>, text: Seq<char>, add_special_tokens: bool) -> Result<
    (Seq<u32>, Seq<Seq<char>>),
    Seq<char>,
>;

/// Whether the tokenizer of a definition encodes without sampling: its
/// model sets no `dropout` (only BPE with a dropout draws random numbers
/// while encoding). Read from the definition as JSON.
pub open spec fn fixed_encoding(definition: Seq<char>) -> bool {
    match json::json_parse(vstd::utf8::encode_utf8(definition)) {
        Ok(v) => match json::json_get(v, "model"@) {
            Some(m) => match json::json_get(m, "dropout"@) {
                None => true,
                Some(json::Json::Null) => true,
                Some(_) => false,
            },
            None => true,
        },
        Err(_) => true,
    }
}

/// The entries of a map of tokenizers: each model with the definition of its
/// tokenizer.
pub uninterp spec fn tokenizer_entries(m: dashmap::DashMap<String, Arc<LoadedTokenizer>>) -> Map<
    Seq<char>,
    Seq<char>,
>;

/// The entries of a map of chat templates, each by its view.
pub uninterp spec fn template_entries(m: dashmap::DashMap<String, Arc<ChatTemplate>>) -> Map<
    Seq<char>,
    ChatTemplateView,
>;

/// `DashMap::new` for tokenizers: the map is empty.
#[verifier::external_body]
fn new_tokenizer_map() -> (r: dashmap::DashMap<String, Arc<LoadedTokenizer>>)
    ensures
        tokenizer_entries(r).dom() == Set::<Seq<char>>::empty(),
{
    dashmap::DashMap::new()
}

/// `DashMap::new` for chat templates: the map is empty.
#[verifier::external_body]
fn new_template_map() -> (r: dashmap::DashMap<String, Arc<ChatTemplate>>)
    ensures
        template_entries(r).dom() == Set::<Seq<char>>::empty(),
{
    dashmap::DashMap::new()
}

/// `DashMap::contains_key` on tokenizers.
#[verifier::external_body]
fn has_tokenizer(m: &dashmap::DashMap<String, Arc<LoadedTokenizer>>, key: &str) -> (r: bool)
    ensures
        r == tokenizer_entries(*m).contains_key(key@),
{
    m.contains_key(key)
}

/// `DashMap::insert` on tokenizers: the key maps to the tokenizer afterwards,
/// and every other entry is unchanged.
#[verifier::external_body]
fn insert_tokenizer(m: &mut dashmap::DashMap<String, Arc<LoadedTokenizer>>, key: String, t: Arc<LoadedTokenizer>)
    ensures
        tokenizer_entries(*final(m)) == tokenizer_entries(*old(m)).insert(key@, t@),
{
    m.insert(key, t);
}

/// `DashMap::remove` on tokenizers: the key is gone afterwards, every other
/// entry is unchanged, and the answer says whether the key was there.
#[verifier::external_body]
fn remove_tokenizer(m: &mut dashmap::DashMap<String, Arc<LoadedTokenizer>>, key: &str) -> (r: bool)
    ensures
        tokenizer_entries(*final(m)) == tokenizer_entries(*old(m)).remove(key@),
        r == tokenizer_entries(*old(m)).contains_key(key@),
{
    m.remove(key).is_some()
}

/// `DashMap::get` on tokenizers, handing out a shared handle on the
/// tokenizer of the key.
#[verifier::external_body]
fn get_tokenizer(m: &dashmap::DashMap<String, Arc<LoadedTokenizer>>, key: &str) -> (r: Option<
    Arc<LoadedTokenizer>,
>)
    ensures
        match r {
            Some(t) => tokenizer_entries(*m).contains_key(key@) && t@ == tokenizer_entries(*m)[key@],
            None => !tokenizer_entries(*m).contains_key(key@),
        },
{
    m.get(key).map(|e| e.value().clone())
}

/// `DashMap::len` on tokenizers: the number of keys.
#[verifier::external_body]
fn count_tokenizers(m: &dashmap::DashMap<String, Arc<LoadedTokenizer>>) -> (r: usize)
    ensures
        r == tokenizer_entries(*m).len(),
{
    m.len()
}

/// The keys of the tokenizer map, each once, in the order `DashMap::iter`
/// walks them.
#[verifier::external_body]
fn tokenizer_keys(m: &dashmap::DashMap<String, Arc<LoadedTokenizer>>) -> (r: Vec<String>)
    ensures
        r@.map_values(|k: String| k@).to_set() == tokenizer_entries(*m).dom(),
        r@.map_values(|k: String| k@).no_duplicates(),
{
    m.iter().map(|e| e.key().clone()).collect()
}

/// `DashMap::contains_key` on chat templates.
#[verifier::external_body]
fn has_template(m: &dashmap::DashMap<String, Arc<ChatTemplate>>, key: &str) -> (r: bool)
    ensures
        r == template_entries(*m).contains_key(key@),
{
    m.contains_key(key)
}

/// `DashMap::insert` on chat templates: the key maps to the template
/// afterwards, and every other entry is unchanged.
#[verifier::external_body]
fn insert_template(m: &mut dashmap::DashMap<String, Arc<ChatTemplate>>, key: String, t: Arc<ChatTemplate>)
    ensures
        template_entries(*final(m)) == template_entries(*old(m)).insert(key@, t@),
{
    m.insert(key, t);
}

/// `DashMap::remove` on chat templates: the key is gone afterwards, and every
/// other entry is unchanged.
#[verifier::external_body]
fn remove_template(m: &mut dashmap::DashMap<String, Arc<ChatTemplate>>, key: &str)
    ensures
        template_entries(*final(m)) == template_entries(*old(m)).remove(key@),
{
    m.remove(key);
}

/// `DashMap::get` on chat templates, handing out a shared handle on the
/// template of the key.
#[verifier::external_body]
fn get_template(m: &dashmap::DashMap<String, Arc<ChatTemplate>>, key: &str) -> (r: Option<
    Arc<ChatTemplate>,
>)
    ensures
        match r {
            Some(t) => template_entries(*m).contains_key(key@) && t@ == template_entries(*m)[key@],
            None => !template_entries(*m).contains_key(key@),
        },
{
    m.get(key).map(|e| e.value().clone())
}

/// `Tokenizer::from_str`: parses a tokenizer from its definition, the
/// text of a `tokenizer.json`. The contract claims that whether it parses,
/// and the error text where it does not, are a function of the text, named
/// `tokenizer_parse`, and that the tokenizer made keeps the text it was
/// parsed from.
#[verifier::external_body]
fn parse_tokenizer(definition: &str) -> (r: Result<LoadedTokenizer, String>)
    ensures
        match r {
            Ok(t) => tokenizer_parse(definition@) is None && t@ == definition@,
            Err(e) => tokenizer_parse(definition@) == Some(e@),
        },
{
    match definition.parse::<tokenizers::Tokenizer>() {
        Ok(tokenizer) => Ok(LoadedTokenizer { tokenizer, definition: Ghost(definition@) }),
        Err(e) => Err(e.to_string()),
    }
}

/// `Tokenizer::encode` of one text, its ids (`Encoding::get_ids`) and token
/// strings (`Encoding::get_tokens`) copied out, an error taken as its
/// message. For a tokenizer that does not sample (`fixed_encoding`), the
/// contract claims the outcome is a function of the definition, the text and
/// the flag, named `encoding_of`; of a sampling one nothing is claimed.
#[verifier::external_body]
fn encode(t: &LoadedTokenizer, text: &str, add_special_tokens: bool) -> (r: Result<(Vec<u32>, Vec<String>), String>)
    ensures
        fixed_encoding(t@) ==> encoding_of(t@, text@, add_special_tokens) == (match r {
            Ok((ids, tokens)) => Ok((ids@, tokens@.map_values(|s: String| s@))),
            Err(e) => Err(e@),
        }),
{
    match t.tokenizer.encode(text, add_special_tokens) {
        Ok(encoding) => Ok((encoding.get_ids().to_vec(), encoding.get_tokens().to_vec())),
        Err(e) => Err(e.to_string()),
    }
}

/// `Instant::now`; nothing is claimed of the time.
pub assume_specification[ std::time::Instant::now ]() -> std::time::Instant;

/// The microseconds elapsed since `start` (`Instant::elapsed`, then
/// `Duration::as_micros`); nothing is claimed of the time.
#[verifier::external_body]
pub(crate) fn micros_since(start: &std::time::Instant) -> u128 {
    start.elapsed().as_micros()
}

} // verus!

verus! {

// ---------------------------------------------------------------------------
// The registry
// ---------------------------------------------------------------------------

/// What becomes of a model's `tokenizer_config.json` text.
pub enum TemplateOutcome {
    /// The chat template it yields.
    Loaded(ChatTemplateView),
    /// The document could not be read, or holds no chat template.
    FetchFailed(Seq<char>),
    /// The template does not compile.
    CompileFailed(Seq<char>),
}

/// The chat template a `tokenizer_config.json` text yields: its
/// `chat_template` (see `chat_template_of`) after the fixups, with the
/// document's `bos_token` and `eos_token`.
pub open spec fn template_outcome(raw: Seq<char>) -> TemplateOutcome {
    match json::json_parse(vstd::utf8::encode_utf8(raw)) {
        Err(e) => TemplateOutcome::FetchFailed(e),
        Ok(cfg) => match chat_template::chat_template_of(cfg) {
            None => TemplateOutcome::FetchFailed("no chat_template field in tokenizer_config.json"@),
            Some(src) => match chat_template::template_compile(chat_template::patch_template(src)) {
                Some(e) => TemplateOutcome::CompileFailed(e),
                None => TemplateOutcome::Loaded(
                    ChatTemplateView {
                        source: chat_template::patch_template(src),
                        bos_token: chat_template::special_token_of(cfg, "bos_token"@),
                        eos_token: chat_template::special_token_of(cfg, "eos_token"@),
                    },
                ),
            },
        },
    }
}

pub struct TokenizerRegistry {
    tokenizers: dashmap::DashMap<String, Arc<LoadedTokenizer>>,
    chat_templates: dashmap::DashMap<String, Arc<ChatTemplate>>,
    cache_dir: String,
}

/// What a registry holds: the names of the loaded models, the chat template
/// of each model that has one, and the cache directory.
#[verifier::ext_equal]
pub struct RegistryView {
    /// Each loaded model with the definition of its tokenizer.
    pub models: Map<Seq<char>, Seq<char>>,
    pub templates: Map<Seq<char>, ChatTemplateView>,
    pub cache_dir: Seq<char>,
}

impl RegistryView {
    /// Finitely many models, and a chat template only for a loaded model.
    pub open spec fn wf(self) -> bool {
        &&& self.models.dom().finite()
        &&& self.templates.dom().subset_of(self.models.dom())
    }

    /// The registry with `model` loaded from `definition`.
    pub open spec fn with_model(self, model: Seq<char>, definition: Seq<char>) -> RegistryView {
        RegistryView {
            models: self.models.insert(model, definition),
            templates: self.templates,
            cache_dir: self.cache_dir,
        }
    }

    /// The registry with `t` as the chat template of `model`.
    pub open spec fn with_template(self, model: Seq<char>, t: ChatTemplateView) -> RegistryView {
        RegistryView {
            models: self.models,
            templates: self.templates.insert(model, t),
            cache_dir: self.cache_dir,
        }
    }

    /// The registry with `model` and its chat template gone.
    pub open spec fn without_model(self, model: Seq<char>) -> RegistryView {
        RegistryView {
            models: self.models.remove(model),
            templates: self.templates.remove(model),
            cache_dir: self.cache_dir,
        }
    }
}

impl View for TokenizerRegistry {
    type V = RegistryView;

    closed spec fn view(&self) -> RegistryView {
        RegistryView {
            models: tokenizer_entries(self.tokenizers),
            templates: template_entries(self.chat_templates),
            cache_dir: self.cache_dir@,
        }
    }
}

/// The name a model's tokenizer is cached under: `/` becomes `--`, so
/// "meta-llama/Llama-3.1-70B" is cached as "meta-llama--Llama-3.1-70B".
pub open spec fn safe_model_name(model: Seq<char>) -> Seq<char> {
    text::replace_all(model, "/"@, "--"@)
}

/// The cache file of a model: `<cache_dir>/<safe name>/tokenizer.json`.
pub open spec fn cache_file(cache_dir: Seq<char>, model: Seq<char>) -> Seq<char> {
    config::join_path(config::join_path(cache_dir, safe_model_name(model)), "tokenizer.json"@)
}

/// Parses the tokenizer of `model` from its definition, the text of a
/// `tokenizer.json` (or reports why that text could not be fetched). No
/// registry is involved, so a definition can be parsed while the registry
/// serves others.
pub fn parse_definition(model: &str, fetched: Result<String, String>) -> (r: Result<
    LoadedTokenizer,
    TokenizerError,
>)
    ensures
        match fetched {
            Ok(def) => match tokenizer_parse(def@) {
                None => r matches Ok(t) && t@ == def@,
                Some(e) => r matches Err(TokenizerError::LoadFailed { model: m, message }) && m@ == model@
                    && message@ == e,
            },
            Err(e) => r matches Err(TokenizerError::LoadFailed { model: m, message }) && m@ == model@
                && message@ == e@,
        },
{
    match fetched {
        Ok(definition) => match parse_tokenizer(definition.as_str()) {
            Ok(t) => Ok(t),
            Err(message) => Err(TokenizerError::LoadFailed { model: String::from_str(model), message }),
        },
        Err(message) => Err(TokenizerError::LoadFailed { model: String::from_str(model), message }),
    }
}

impl TokenizerRegistry {
    /// A registry's invariant: that of its view.
    pub open spec fn wf(&self) -> bool {
        self@.wf()
    }

    /// An empty registry that caches downloaded tokenizers under `cache_dir`.
    pub fn new(cache_dir: &str) -> (r: Self)
        ensures
            r.wf(),
            r@.models.dom() == Set::<Seq<char>>::empty(),
            r@.templates.dom() == Set::<Seq<char>>::empty(),
            r@.cache_dir == cache_dir@,
    {
        TokenizerRegistry {
            tokenizers: new_tokenizer_map(),
            chat_templates: new_template_map(),
            cache_dir: String::from_str(cache_dir),
        }
    }

    /// The file a model's downloaded tokenizer is cached in.
    pub fn cache_path(&self, model: &str) -> (r: String)
        ensures
            r@ == cache_file(self@.cache_dir, model@),
    {
        proof {
            reveal_strlit("/");
        }
        let safe_name = text::replace(model, "/", "--");
        let dir = config::join(self.cache_dir.as_str(), safe_name.as_str());
        config::join(dir.as_str(), "tokenizer.json")
    }

    /// How to obtain the tokenizer of `model`: it must not be loaded yet, and
    /// a local source needs a path.
    pub fn plan_load(&self, model: &str, source: TokenizerSource, path: Option<&str>) -> (r: Result<
        LoadPlan,
        TokenizerError,
    >)
        ensures
            self@.models.contains_key(model@) ==> (r matches Err(TokenizerError::AlreadyLoaded(m))
                && m@ == model@),
            !self@.models.contains_key(model@) ==> match source {
                TokenizerSource::Huggingface => r matches Ok(LoadPlan::FromHub { cache_path })
                    && cache_path@ == cache_file(self@.cache_dir, model@),
                TokenizerSource::Local => match path {
                    Some(p) => r matches Ok(LoadPlan::FromFile { path: fp }) && fp@ == p@,
                    None => r matches Err(TokenizerError::LoadFailed { model: m, message })
                        && m@ == model@ && message@ == "local source requires a path"@,
                },
            },
    {
        if has_tokenizer(&self.tokenizers, model) {
            return Err(TokenizerError::AlreadyLoaded(String::from_str(model)));
        }
        match source {
            TokenizerSource::Huggingface => Ok(LoadPlan::FromHub { cache_path: self.cache_path(model) }),
            TokenizerSource::Local => match path {
                Some(p) => Ok(LoadPlan::FromFile { path: String::from_str(p) }),
                None => Err(
                    TokenizerError::LoadFailed {
                        model: String::from_str(model),
                        message: String::from_str("local source requires a path"),
                    },
                ),
            },
        }
    }

    /// Registers the tokenizer obtained for `model` (see `plan_load`): its
    /// definition, the text of its `tokenizer.json`, is parsed; or reports
    /// why it could not be obtained or parsed. A model that is loaded already
    /// is left as it is, with its tokenizer.
    pub fn load(&mut self, model: &str, fetched: Result<String, String>) -> (r: Result<(), TokenizerError>)
        requires
            old(self).wf(),
        ensures
            final(self).wf(),
            old(self)@.models.contains_key(model@) ==> (r matches Err(TokenizerError::AlreadyLoaded(m))
                && m@ == model@ && final(self)@ == old(self)@),
            !old(self)@.models.contains_key(model@) ==> match fetched {
                Ok(def) => match tokenizer_parse(def@) {
                    None => r is Ok && final(self)@ == old(self)@.with_model(model@, def@),
                    Some(e) => r matches Err(TokenizerError::LoadFailed { model: m, message })
                        && m@ == model@ && message@ == e && final(self)@ == old(self)@,
                },
                Err(e) => r matches Err(TokenizerError::LoadFailed { model: m, message })
                    && m@ == model@ && message@ == e@ && final(self)@ == old(self)@,
            },
    {
        if has_tokenizer(&self.tokenizers, model) {
            return Err(TokenizerError::AlreadyLoaded(String::from_str(model)));
        }
        match parse_definition(model, fetched) {
            Ok(t) => self.insert_parsed(model, t),
            Err(e) => Err(e),
        }
    }

    /// Registers a tokenizer parsed for `model` (see `parse_definition`),
    /// unless the model is loaded already.
    pub fn insert_parsed(&mut self, model: &str, t: LoadedTokenizer) -> (r: Result<(), TokenizerError>)
        requires
            old(self).wf(),
        ensures
            final(self).wf(),
            old(self)@.models.contains_key(model@) ==> (r matches Err(TokenizerError::AlreadyLoaded(m))
                && m@ == model@ && final(self)@ == old(self)@),
            !old(self)@.models.contains_key(model@) ==> r is Ok && final(self)@ == old(self)@.with_model(
                model@,
                t@,
            ),
    {
        if has_tokenizer(&self.tokenizers, model) {
            return Err(TokenizerError::AlreadyLoaded(String::from_str(model)));
        }
        insert_tokenizer(&mut self.tokenizers, String::from_str(model), Arc::new(t));
        Ok(())
    }

    /// Compiles the chat template of a loaded model from the text of its
    /// `tokenizer_config.json` (or the reason it could not be fetched), and
    /// registers it.
    pub fn load_chat_template(&mut self, model: &str, raw_config: Result<String, String>) -> (r: Result<
        (),
        TokenizerError,
    >)
        requires
            old(self).wf(),
        ensures
            final(self).wf(),
            !old(self)@.models.contains_key(model@) ==> (r matches Err(TokenizerError::ModelNotFound(m))
                && m@ == model@ && final(self)@ == old(self)@),
            old(self)@.models.contains_key(model@) ==> match raw_config {
                Err(e) => r matches Err(TokenizerError::FetchConfigFailed { model: m, message })
                    && m@ == model@ && message@ == e@ && final(self)@ == old(self)@,
                Ok(raw) => match template_outcome(raw@) {
                    TemplateOutcome::Loaded(t) => r is Ok && final(self)@ == old(self)@.with_template(
                        model@,
                        t,
                    ),
                    TemplateOutcome::FetchFailed(e) => r matches Err(
                        TokenizerError::FetchConfigFailed { model: m, message },
                    ) && m@ == model@ && message@ == e && final(self)@ == old(self)@,
                    TemplateOutcome::CompileFailed(e) => r matches Err(
                        TokenizerError::ChatTemplateRenderFailed { model: m, message },
                    ) && m@ == model@ && message@ == e && final(self)@ == old(self)@,
                },
            },
    {
        if !has_tokenizer(&self.tokenizers, model) {
            return Err(TokenizerError::ModelNotFound(String::from_str(model)));
        }
        let raw = match raw_config {
            Ok(raw) => raw,
            Err(message) => {
                return Err(TokenizerError::FetchConfigFailed { model: String::from_str(model), message });
            },
        };
        let config = match json::parse_json(raw.as_str().as_bytes()) {
            Ok(v) => v,
            Err(message) => {
                return Err(TokenizerError::FetchConfigFailed { model: String::from_str(model), message });
            },
        };
        let template_source = match chat_template::extract_chat_template(&config) {
            Some(s) => s,
            None => {
                return Err(
                    TokenizerError::FetchConfigFailed {
                        model: String::from_str(model),
                        message: String::from_str("no chat_template field in tokenizer_config.json"),
                    },
                );
            },
        };
        let bos_token = chat_template::extract_special_token(&config, "bos_token");
        let eos_token = chat_template::extract_special_token(&config, "eos_token");
        match ChatTemplate::new(template_source.as_str(), bos_token, eos_token) {
            Ok(t) => {
                insert_template(&mut self.chat_templates, String::from_str(model), Arc::new(t));
                Ok(())
            },
            Err(e) => Err(
                TokenizerError::ChatTemplateRenderFailed {
                    model: String::from_str(model),
                    message: e.message,
                },
            ),
        }
    }
}

} // verus!

verus! {

impl TokenizerRegistry {
    /// Unloads a tokenizer, with its chat template, freeing memory.
    pub fn unload(&mut self, model: &str) -> (r: Result<(), TokenizerError>)
        requires
            old(self).wf(),
        ensures
            final(self).wf(),
            final(self)@ == old(self)@.without_model(model@),
            r is Ok <==> old(self)@.models.contains_key(model@),
            r matches Err(e) ==> (e matches TokenizerError::ModelNotFound(m) && m@ == model@),
    {
        remove_template(&mut self.chat_templates, model);
        if remove_tokenizer(&mut self.tokenizers, model) {
            Ok(())
        } else {
            Err(TokenizerError::ModelNotFound(String::from_str(model)))
        }
    }

    /// Tokenizes one or more texts using the specified model.
    pub fn tokenize(&self, model: &str, texts: &[&str], add_special_tokens: bool, return_tokens: bool) -> (r:
        Result<Vec<TokenResult>, TokenizerError>)
        ensures
            tokenize_outcome(
                r,
                self@,
                model@,
                texts@.map_values(|t: &str| t@),
                add_special_tokens,
                return_tokens,
            ),
    {
        let tokenizer = match get_tokenizer(&self.tokenizers, model) {
            Some(t) => t,
            None => {
                return Err(TokenizerError::ModelNotFound(String::from_str(model)));
            },
        };
        let ghost def = self@.models[model@];
        let ghost tv = texts@.map_values(|t: &str| t@);
        let mut results: Vec<TokenResult> = Vec::new();
        let mut i: usize = 0;
        while i < texts.len()
            invariant
                i <= texts.len(),
                self@.models.contains_key(model@),
                def == self@.models[model@],
                tokenizer@ == def,
                tv == texts@.map_values(|t: &str| t@),
                results.len() == i,
                forall|k: int| 0 <= k < i ==> consistent_result(#[trigger] results@[k], return_tokens),
                fixed_encoding(def) ==> forall|k: int|
                    0 <= k < i ==> encodes_to(
                        def,
                        tv[k],
                        add_special_tokens,
                        #[trigger] results@[k],
                        return_tokens,
                    ),
            decreases texts.len() - i,
        {
            let (token_ids, strings) = match encode(&tokenizer, texts[i], add_special_tokens) {
                Ok(e) => e,
                Err(message) => {
                    proof {
                        if fixed_encoding(def) {
                            assert(tv[i as int] == texts@[i as int]@);
                            assert forall|j: int| 0 <= j < i implies encoding_of(
                                def,
                                tv[j],
                                add_special_tokens,
                            ) is Ok by {
                                assert(encodes_to(def, tv[j], add_special_tokens, results@[j], return_tokens));
                            }
                            assert(encoding_of(def, tv[i as int], add_special_tokens) == Err::<
                                (Seq<u32>, Seq<Seq<char>>),
                                Seq<char>,
                            >(message@));
                        }
                    }
                    return Err(TokenizerError::EncodeFailed { model: String::from_str(model), message });
                },
            };
            let r = token_result(token_ids, strings, return_tokens);
            proof {
                assert(tv[i as int] == texts@[i as int]@);
            }
            results.push(r);
            i = i + 1;
        }
        Ok(results)
    }

    /// Applies a model's chat template to messages, then tokenizes the
    /// rendered prompt. A model that is not loaded is reported as such before
    /// its chat template is looked for.
    pub fn chat_tokenize(
        &self,
        model: &str,
        messages: &[ChatMessage],
        add_generation_prompt: bool,
        tools: Option<&[Tool]>,
        add_special_tokens: bool,
        return_tokens: bool,
    ) -> (r: Result<ChatTokenizeResult, TokenizerError>)
        requires
            self.wf(),
        ensures
            chat_tokenize_outcome(
                r,
                self@,
                model@,
                chat_template::messages_view(messages@),
                add_generation_prompt,
                match tools {
                    Some(ts) => Some(ts@),
                    None => None,
                },
                add_special_tokens,
                return_tokens,
            ),
    {
        if !has_tokenizer(&self.tokenizers, model) {
            return Err(TokenizerError::ModelNotFound(String::from_str(model)));
        }
        let chat_template = match get_template(&self.chat_templates, model) {
            Some(t) => t,
            None => {
                return Err(TokenizerError::ChatTemplateNotAvailable(String::from_str(model)));
            },
        };
        let render_start = std::time::Instant::now();
        let prompt = match chat_template.render(messages, add_generation_prompt, tools) {
            Ok(p) => p,
            Err(e) => {
                return Err(
                    TokenizerError::ChatTemplateRenderFailed {
                        model: String::from_str(model),
                        message: e.message,
                    },
                );
            },
        };
        let render_us = micros_since(&render_start) as u64;
        let texts: [&str; 1] = [prompt.as_str()];
        proof {
            assert(texts@.map_values(|t: &str| t@) =~= seq![prompt@]);
        }
        let mut results = match self.tokenize(model, &texts, add_special_tokens, return_tokens) {
            Ok(results) => results,
            Err(e) => {
                return Err(e);
            },
        };
        let result = results.remove(0);
        Ok(
            ChatTokenizeResult {
                token_ids: result.token_ids,
                token_count: result.token_count,
                tokens: result.tokens,
                render_us,
            },
        )
    }

    /// Whether a model has a chat template loaded.
    pub fn has_chat_template(&self, model: &str) -> (r: bool)
        ensures
            r == self@.templates.contains_key(model@),
    {
        has_template(&self.chat_templates, model)
    }

    /// The names of the loaded models, each once, in no particular order.
    pub fn list_models(&self) -> (r: Vec<String>)
        ensures
            r@.map_values(|k: String| k@).to_set() == self@.models.dom(),
            r@.map_values(|k: String| k@).no_duplicates(),
    {
        tokenizer_keys(&self.tokenizers)
    }

    /// The number of loaded models.
    pub fn model_count(&self) -> (r: usize)
        ensures
            r == self@.models.len(),
    {
        count_tokenizers(&self.tokenizers)
    }
}

} // verus!

verus! {

// ---------------------------------------------------------------------------
// Laws of the registry
// ---------------------------------------------------------------------------

/// Loading a model that was not loaded and unloading it again gives back the
/// registry as it was.
pub proof fn lemma_unload_undoes_load(v: RegistryView, model: Seq<char>, definition: Seq<char>)
    requires
        v.wf(),
        !v.models.contains_key(model),
    ensures
        v.with_model(model, definition).without_model(model) == v,
{
    assert(!v.templates.dom().contains(model));
    assert(v.with_model(model, definition).without_model(model).models =~= v.models);
    assert(v.with_model(model, definition).without_model(model).templates =~= v.templates);
}

/// Loading a model that was not loaded keeps the invariant and counts one
/// model more.
pub proof fn lemma_load_counts(v: RegistryView, model: Seq<char>, definition: Seq<char>)
    requires
        v.wf(),
        !v.models.contains_key(model),
    ensures
        v.with_model(model, definition).wf(),
        v.with_model(model, definition).models.len() == v.models.len() + 1,
{
    assert(v.with_model(model, definition).models.dom() =~= v.models.dom().insert(model));
}

/// Unloading a loaded model keeps the invariant, counts one model less, and
/// leaves the model free to be loaded again.
pub proof fn lemma_unload_counts(v: RegistryView, model: Seq<char>)
    requires
        v.wf(),
        v.models.contains_key(model),
    ensures
        v.without_model(model).wf(),
        v.without_model(model).models.len() == v.models.len() - 1,
        !v.without_model(model).models.contains_key(model),
        !v.without_model(model).templates.contains_key(model),
{
    assert(v.without_model(model).models.dom() =~= v.models.dom().remove(model));
}

/// A model that was just loaded is tokenized with the tokenizer it was
/// loaded with: the registry no longer answers that it is not loaded, and
/// for a tokenizer that does not sample each result is the encoding of its
/// text by that tokenizer.
pub proof fn lemma_loaded_model_tokenizes(
    v: RegistryView,
    model: Seq<char>,
    definition: Seq<char>,
    r: Result<Vec<TokenResult>, TokenizerError>,
    texts: Seq<Seq<char>>,
    add_special_tokens: bool,
    return_tokens: bool,
)
    requires
        tokenize_outcome(r, v.with_model(model, definition), model, texts, add_special_tokens, return_tokens),
    ensures
        !(r matches Err(TokenizerError::ModelNotFound(_))),
        fixed_encoding(definition) ==> match r {
            Ok(results) => forall|i: int|
                0 <= i < texts.len() ==> encodes_to(
                    definition,
                    texts[i],
                    add_special_tokens,
                    #[trigger] results@[i],
                    return_tokens,
                ),
            Err(e) => e matches TokenizerError::EncodeFailed { model: _, message } && first_failure(
                definition,
                texts,
                add_special_tokens,
                message@,
            ),
        },
{
    assert(v.with_model(model, definition).models[model] == definition);
}

/// Once a model is unloaded, tokenizing with it answers that it is not
/// loaded, and so does rendering a chat for it.
pub proof fn lemma_unloaded_model_is_gone(
    v: RegistryView,
    model: Seq<char>,
    r: Result<Vec<TokenResult>, TokenizerError>,
    texts: Seq<Seq<char>>,
    add_special_tokens: bool,
    return_tokens: bool,
    c: Result<ChatTokenizeResult, TokenizerError>,
    messages: Seq<chat_template::ChatMessageView>,
    add_generation_prompt: bool,
    tools: Option<Seq<Tool>>,
)
    requires
        tokenize_outcome(r, v.without_model(model), model, texts, add_special_tokens, return_tokens),
        chat_tokenize_outcome(
            c,
            v.without_model(model),
            model,
            messages,
            add_generation_prompt,
            tools,
            add_special_tokens,
            return_tokens,
        ),
    ensures
        r matches Err(TokenizerError::ModelNotFound(m)) && m@ == model,
        c matches Err(TokenizerError::ModelNotFound(m)) && m@ == model,
{
}

/// A chat template registered for a loaded model keeps the invariant and
/// changes no model.
pub proof fn lemma_template_keeps_models(v: RegistryView, model: Seq<char>, t: ChatTemplateView)
    requires
        v.wf(),
        v.models.contains_key(model),
    ensures
        v.with_template(model, t).wf(),
        v.with_template(model, t).models == v.models,
        v.with_template(model, t).templates[model] == t,
{
}

/// The chat template registered from a `tokenizer_config.json` carries the
/// document's special tokens: where its `bos_token` (or `eos_token`) member
/// is a string, that string is the token; where it is an object, the
/// object's `content` string; where the document has no such member, the
/// template has no such token.
pub proof fn lemma_template_carries_special_tokens(raw: Seq<char>)
    requires
        template_outcome(raw) is Loaded,
    ensures
        ({
            let cfg = json::json_parse(vstd::utf8::encode_utf8(raw))->Ok_0;
            let t = template_outcome(raw)->Loaded_0;
            &&& json::json_get(cfg, "bos_token"@) matches Some(json::Json::Str(s)) ==> t.bos_token == Some(s)
            &&& json::json_get(cfg, "bos_token"@) matches Some(json::Json::Object(f)) ==> t.bos_token
                == json::json_get_str(json::Json::Object(f), "content"@)
            &&& json::json_get(cfg, "bos_token"@) is None ==> t.bos_token is None
            &&& json::json_get(cfg, "eos_token"@) matches Some(json::Json::Str(s)) ==> t.eos_token == Some(s)
            &&& json::json_get(cfg, "eos_token"@) matches Some(json::Json::Object(f)) ==> t.eos_token
                == json::json_get_str(json::Json::Object(f), "content"@)
            &&& json::json_get(cfg, "eos_token"@) is None ==> t.eos_token is None
        }),
{
}

proof fn lemma_replace_slash_free(s: Seq<char>)
    ensures
        !text::replace_all(s, "/"@, "--"@).contains('/'),
    decreases s.len(),
{
    reveal_strlit("/");
    reveal_strlit("--");
    if s.len() > 0 {
        if text::occurs_at(s, 0, "/"@) {
            lemma_replace_slash_free(s.skip(1));
            let rest = text::replace_all(s.skip(1), "/"@, "--"@);
            assert forall|i: int| 0 <= i < ("--"@ + rest).len() implies ("--"@ + rest)[i] != '/' by {
                if i >= 2 {
                    assert(("--"@ + rest)[i] == rest[i - 2]);
                }
            }
        } else {
            assert(s[0] != '/') by {
                if s[0] == '/' {
                    assert(s.subrange(0, 1) =~= "/"@);
                }
            }
            lemma_replace_slash_free(s.drop_first());
            let rest = text::replace_all(s.drop_first(), "/"@, "--"@);
            assert forall|i: int| 0 <= i < (seq![s[0]] + rest).len() implies (seq![s[0]]
                + rest)[i] != '/' by {
                if i >= 1 {
                    assert((seq![s[0]] + rest)[i] == rest[i - 1]);
                }
            }
        }
    }
}

proof fn lemma_join_keeps_base(base: Seq<char>, rel: Seq<char>)
    requires
        rel.len() == 0 || rel[0] != '/',
    ensures
        base.is_prefix_of(config::join_path(base, rel)),
{
    let j = config::join_path(base, rel);
    assert(j.subrange(0, base.len() as int) =~= base);
}

/// A model's name, as its cache directory is named, holds no `/`, and its
/// cache file lies under the cache directory, whatever the model's name.
pub proof fn lemma_cache_file_under_cache_dir(cache_dir: Seq<char>, model: Seq<char>)
    ensures
        !safe_model_name(model).contains('/'),
        cache_dir.is_prefix_of(cache_file(cache_dir, model)),
{
    lemma_replace_slash_free(model);
    let safe = safe_model_name(model);
    let dir = config::join_path(cache_dir, safe);
    assert(safe.len() == 0 || safe[0] != '/') by {
        if safe.len() > 0 {
            assert(safe.contains(safe[0]));
        }
    }
    lemma_join_keeps_base(cache_dir, safe);
    reveal_strlit("tokenizer.json");
    lemma_join_keeps_base(dir, "tokenizer.json"@);
    let f = cache_file(cache_dir, model);
    assert(f.subrange(0, cache_dir.len() as int) =~= dir.subrange(0, cache_dir.len() as int));
}

} // verus!
