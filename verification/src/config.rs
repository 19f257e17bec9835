//! The daemon's configuration: its types and defaults, `${VAR}` expansion in
//! the raw text, and the finishing touches applied after parsing.
use vstd::prelude::*;
use vstd::string::*;
use crate::text;

verus! {

broadcast use vstd::string::group_string_axioms;

pub struct Config {
    pub tokenizers: Vec<TokenizerConfig>,
    pub server: ServerConfig,
    pub ext_proc: ExtProcConfig,
    pub cache_dir: String,
    pub hf_token: Option<String>,
}

pub struct TokenizerConfig {
    pub model: String,
    pub source: TokenizerSource,
    pub path: Option<String>,
}

#[derive(Clone, Copy, Debug, PartialEq, Eq, Structural)]
pub enum TokenizerSource {
    Huggingface,
    Local,
}

pub struct ServerConfig {
    pub uds_path: Option<String>,
    pub http_port: u16,
    pub grpc_port: u16,
}

/// Envoy external processor settings.
pub struct ExtProcConfig {
    pub enabled: bool,
    pub port: u16,
    /// Request paths whose bodies are tokenized.
    pub intercept_paths: Vec<String>,
    /// `"headers"`, `"body"` or `"both"`.
    pub mode: String,
    pub token_count_header: String,
    pub model_header: String,
    pub body_field: String,
    pub inject_tokens: bool,
    pub token_ids_field: String,
}

/// The source a tokenizer is fetched from by default.
pub fn default_source() -> (r: TokenizerSource)
    ensures
        r == TokenizerSource::Huggingface,
{
    TokenizerSource::Huggingface
}

pub fn default_http_port() -> (r: u16)
    ensures
        r == 8765,
{
    8765
}

pub fn default_grpc_port() -> (r: u16)
    ensures
        r == 8766,
{
    8766
}

/// The Unix domain socket path used when the configuration names none.
pub open spec fn default_uds_path_text() -> Seq<char> {
    "/var/run/tokend.sock"@
}

impl ServerConfig {
    /// The Unix domain socket path to listen on: the configured one, or
    /// `/var/run/tokend.sock`.
    pub fn uds_socket_path(&self) -> (r: &str)
        ensures
            r@ == (match self.uds_path {
                Some(p) => p@,
                None => default_uds_path_text(),
            }),
    {
        match &self.uds_path {
            Some(p) => p.as_str(),
            None => "/var/run/tokend.sock",
        }
    }
}

pub open spec fn default_intercept_paths() -> Seq<Seq<char>> {
    seq!["/v1/chat/completions"@, "/chat/completions"@, "/v1/completions"@, "/completions"@]
}

impl ExtProcConfig {
    /// The documented defaults of each ext_proc setting.
    pub open spec fn is_default(self) -> bool {
        &&& !self.enabled
        &&& self.port == 8767
        &&& self.intercept_paths@.map_values(|p: String| p@) == default_intercept_paths()
        &&& self.mode@ == "headers"@
        &&& self.token_count_header@ == "x-tokend-token-count"@
        &&& self.model_header@ == "x-tokend-model"@
        &&& self.body_field@ == "token_count"@
        &&& !self.inject_tokens
        &&& self.token_ids_field@ == "token_ids"@
    }
}

impl Default for ExtProcConfig {
    fn default() -> (r: Self)
        ensures
            r.is_default(),
    {
        let mut paths: Vec<String> = Vec::new();
        paths.push(String::from_str("/v1/chat/completions"));
        paths.push(String::from_str("/chat/completions"));
        paths.push(String::from_str("/v1/completions"));
        paths.push(String::from_str("/completions"));
        let r = ExtProcConfig {
            enabled: false,
            port: 8767,
            intercept_paths: paths,
            mode: String::from_str("headers"),
            token_count_header: String::from_str("x-tokend-token-count"),
            model_header: String::from_str("x-tokend-model"),
            body_field: String::from_str("token_count"),
            inject_tokens: false,
            token_ids_field: String::from_str("token_ids"),
        };
        assert(r.intercept_paths@.map_values(|p: String| p@) =~= default_intercept_paths());
        r
    }
}

// ---------------------------------------------------------------------------
// Paths
// ---------------------------------------------------------------------------

/// `base` joined with `rel`, as `Path::join` does on Unix: an absolute `rel`
/// replaces `base`; otherwise a `/` is put between them unless `base` is
/// empty or already ends with one.
pub open spec fn join_path(base: Seq<char>, rel: Seq<char>) -> Seq<char> {
    if rel.len() > 0 && rel[0] == '/' {
        rel
    } else if base.len() == 0 || base.last() == '/' {
        base + rel
    } else {
        base + seq!['/'] + rel
    }
}

/// `base` joined with `rel`, as `Path::join` does on Unix.
pub fn join(base: &str, rel: &str) -> (r: String)
    ensures
        r@ == join_path(base@, rel@),
{
    let b = text::chars_of(base);
    let rchars = text::chars_of(rel);
    if rchars.len() > 0 && rchars[0] == '/' {
        return String::from_str(rel);
    }
    let mut s = String::from_str(base);
    if !(b.len() == 0 || b[b.len() - 1] == '/') {
        s.push('/');
    }
    s.append(rel);
    s
}

/// The user's home directory as `home::home_dir` finds it in the environment,
/// as text. Nothing is claimed of it: it depends on the environment.
#[verifier::external_body]
fn home_dir() -> Option<String> {
    home::home_dir().map(|h| h.to_string_lossy().into_owned())
}

/// `home` is what `home_dir` answered when it was asked for the user's home
/// directory: a value it returned, not any value at all.
pub closed spec fn reported_home(home: Option<Seq<char>>) -> bool {
    exists|h: Option<String>| call_ensures(home_dir, (), h) && text::opt_text(h) == home
}

/// The cache directory for a home directory: `<home>/.cache/tokend`, or
/// `/tmp/tokend/cache` where there is no home directory.
pub open spec fn cache_dir_for(home: Option<Seq<char>>) -> Seq<char> {
    match home {
        Some(h) => join_path(join_path(h, ".cache"@), "tokend"@),
        None => "/tmp/tokend/cache"@,
    }
}

/// The cache directory for a home directory.
pub fn cache_dir_for_home(home: Option<String>) -> (r: String)
    ensures
        r@ == cache_dir_for(text::opt_text(home)),
{
    match home {
        Some(h) => {
            let c = join(h.as_str(), ".cache");
            join(c.as_str(), "tokend")
        },
        None => String::from_str("/tmp/tokend/cache"),
    }
}

/// The `tokend` directory under `~/.cache` of the user's home directory, if
/// there is one.
pub fn dirs_next() -> (r: Option<String>)
    ensures
        r matches Some(d) ==> exists|h: Seq<char>| d@ == cache_dir_for(Some(h)),
        exists|home: Option<Seq<char>>|
            #[trigger] reported_home(home) && match home {
                Some(h) => r matches Some(d) && d@ == cache_dir_for(Some(h)),
                None => r is None,
            },
{
    let home = home_dir();
    let ghost hv = text::opt_text(home);
    assert(reported_home(hv));
    match home {
        Some(h) => {
            let d = cache_dir_for_home(Some(h));
            assert(d@ == cache_dir_for(Some(h@)));
            Some(d)
        },
        None => None,
    }
}

/// The default cache directory: `~/.cache/tokend` under the user's home
/// directory, or `/tmp/tokend/cache` where it cannot be found.
pub fn default_cache_dir() -> (r: String)
    ensures
        r@ == "/tmp/tokend/cache"@ || exists|h: Seq<char>| r@ == cache_dir_for(Some(h)),
        exists|home: Option<Seq<char>>| #[trigger] reported_home(home) && r@ == cache_dir_for(home),
{
    match dirs_next() {
        Some(d) => d,
        None => String::from_str("/tmp/tokend/cache"),
    }
}

// ---------------------------------------------------------------------------
// Finishing a parsed configuration
// ---------------------------------------------------------------------------

/// The cache directory with a leading `~/` resolved against `home`.
pub open spec fn expand_home(dir: Seq<char>, home: Option<Seq<char>>) -> Seq<char> {
    if dir.len() >= 2 && dir[0] == '~' && dir[1] == '/' && home is Some {
        join_path(home->0, dir.skip(2))
    } else {
        dir
    }
}

/// The token with an empty one taken as none.
pub open spec fn nonempty_token(t: Option<Seq<char>>) -> Option<Seq<char>> {
    match t {
        Some(s) => if s.len() == 0 {
            None
        } else {
            Some(s)
        },
        None => None,
    }
}

impl Config {
    /// The configuration with `~/` in `cache_dir` resolved against `home`,
    /// and an empty `hf_token` taken as none. Everything else is kept.
    pub fn finish_with_home(self, home: Option<String>) -> (r: Config)
        ensures
            r.cache_dir@ == expand_home(self.cache_dir@, text::opt_text(home)),
            text::opt_text(r.hf_token) == nonempty_token(text::opt_text(self.hf_token)),
            r.tokenizers == self.tokenizers,
            r.server == self.server,
            r.ext_proc == self.ext_proc,
    {
        let mut config = self;
        let dir = text::chars_of(config.cache_dir.as_str());
        if dir.len() >= 2 && dir[0] == '~' && dir[1] == '/' {
            match home {
                Some(h) => {
                    let stripped = text::string_from(&dir, 2);
                    config.cache_dir = join(h.as_str(), stripped.as_str());
                },
                None => {},
            }
        }
        let empty = match &config.hf_token {
            Some(t) => t.as_str().is_empty(),
            None => false,
        };
        if empty {
            config.hf_token = None;
        }
        config
    }

    /// The configuration with `~/` in `cache_dir` resolved against the user's
    /// home directory (`home::home_dir`), and an empty `hf_token` taken as none.
    pub fn finish(self) -> (r: Config)
        ensures
            exists|home: Option<Seq<char>>|
                #[trigger] reported_home(home) && r.cache_dir@ == expand_home(self.cache_dir@, home),
            text::opt_text(r.hf_token) == nonempty_token(text::opt_text(self.hf_token)),
            r.tokenizers == self.tokenizers,
            r.server == self.server,
            r.ext_proc == self.ext_proc,
    {
        let home = home_dir();
        let ghost h = text::opt_text(home);
        assert(reported_home(h));
        let r = self.finish_with_home(home);
        assert(r.cache_dir@ == expand_home(self.cache_dir@, h));
        r
    }
}

} // verus!

verus! {

// ---------------------------------------------------------------------------
// ${VAR} expansion
// ---------------------------------------------------------------------------

/// Whether `s` starts with `${`.
pub open spec fn opens_var(s: Seq<char>) -> bool {
    s.len() >= 2 && s[0] == '$' && s[1] == '{'
}

/// The position of the first `}` in `s`, or its length where there is none.
pub open spec fn close_pos(s: Seq<char>) -> nat
    decreases s.len(),
{
    if s.len() == 0 {
        0
    } else if s[0] == '}' {
        0
    } else {
        1 + close_pos(s.drop_first())
    }
}

/// What follows a reference whose name starts `s`: the text after the
/// closing `}`, or nothing where the reference runs to the end.
pub open spec fn after_var(s: Seq<char>) -> Seq<char> {
    if close_pos(s) < s.len() {
        s.skip(close_pos(s) + 1int)
    } else {
        seq![]
    }
}

/// The names of the `${NAME}` references of a text, in order. A reference
/// without a closing `}` takes the rest of the text as its name.
pub open spec fn env_refs(s: Seq<char>) -> Seq<Seq<char>>
    decreases s.len(),
{
    if s.len() == 0 {
        seq![]
    } else if opens_var(s) {
        let rest = s.skip(2);
        seq![rest.take(close_pos(rest) as int)] + env_refs(after_var(rest))
    } else {
        env_refs(s.drop_first())
    }
}

/// The value given for the `i`-th reference; unset where none is given.
pub open spec fn value_at(values: Seq<Option<Seq<char>>>, i: int) -> Seq<char> {
    if 0 <= i < values.len() {
        match values[i] {
            Some(v) => v,
            None => seq![],
        }
    } else {
        seq![]
    }
}

/// The values left once the first reference has taken its own.
pub open spec fn rest_values(values: Seq<Option<Seq<char>>>) -> Seq<Option<Seq<char>>> {
    if values.len() > 0 {
        values.skip(1)
    } else {
        values
    }
}

/// The text with its references replaced, in order, by `values`; an unset
/// variable expands to the empty string.
pub open spec fn expand(s: Seq<char>, values: Seq<Option<Seq<char>>>) -> Seq<char>
    decreases s.len(),
{
    if s.len() == 0 {
        seq![]
    } else if opens_var(s) {
        value_at(values, 0) + expand(after_var(s.skip(2)), rest_values(values))
    } else {
        seq![s[0]] + expand(s.drop_first(), values)
    }
}

proof fn lemma_close_pos(s: Seq<char>)
    ensures
        close_pos(s) <= s.len(),
        forall|j: int| 0 <= j < close_pos(s) ==> s[j] != '}',
        close_pos(s) < s.len() ==> s[close_pos(s) as int] == '}',
    decreases s.len(),
{
    if s.len() > 0 && s[0] != '}' {
        lemma_close_pos(s.drop_first());
        assert forall|j: int| 0 <= j < close_pos(s) implies s[j] != '}' by {
            if j > 0 {
                assert(s[j] == s.drop_first()[j - 1]);
            }
        }
    }
}

/// Scans the name of a reference whose text (after `${`) starts at `from`.
fn scan_name(v: &Vec<char>, from: usize) -> (r: (String, usize))
    requires
        from <= v.len(),
    ensures
        r.0@ == v@.skip(from as int).take(close_pos(v@.skip(from as int)) as int),
        r.1 <= v.len(),
        v@.skip(r.1 as int) == after_var(v@.skip(from as int)),
{
    let ghost rest = v@.skip(from as int);
    proof {
        lemma_close_pos(rest);
    }
    let mut name = String::new();
    let mut i = from;
    while i < v.len() && v[i] != '}'
        invariant
            from <= i <= v.len(),
            rest == v@.skip(from as int),
            close_pos(rest) <= rest.len(),
            forall|j: int| 0 <= j < close_pos(rest) ==> rest[j] != '}',
            close_pos(rest) < rest.len() ==> rest[close_pos(rest) as int] == '}',
            i - from <= close_pos(rest),
            name@ == rest.take(i - from),
        decreases v.len() - i,
    {
        name.push(v[i]);
        assert(rest.take(i + 1 - from) =~= rest.take(i - from).push(v@[i as int]));
        i = i + 1;
    }
    if i < v.len() {
        assert(rest[i - from] == v@[i as int]);
    }
    assert(i - from == close_pos(rest));
    if i < v.len() {
        assert(v@.skip(i + 1) =~= rest.skip(close_pos(rest) + 1int));
        (name, i + 1)
    } else {
        assert(v@.skip(i as int) =~= seq![]);
        (name, i)
    }
}

/// The names of the `${NAME}` references of a text, in order; these are the
/// variables whose values `expand_env_vars` takes.
pub fn env_var_references(input: &str) -> (r: Vec<String>)
    ensures
        r@.map_values(|n: String| n@) == env_refs(input@),
{
    let v = text::chars_of(input);
    let mut out: Vec<String> = Vec::new();
    let mut i: usize = 0;
    assert(v@.skip(0) =~= v@);
    while i < v.len()
        invariant
            i <= v.len(),
            v@ == input@,
            env_refs(input@) == out@.map_values(|n: String| n@) + env_refs(v@.skip(i as int)),
        decreases v.len() - i,
    {
        let ghost s = v@.skip(i as int);
        let ghost before = out@;
        if v[i] == '$' && i + 1 < v.len() && v[i + 1] == '{' {
            assert(opens_var(s));
            assert(s.skip(2) =~= v@.skip(i + 2));
            let (name, next) = scan_name(&v, i + 2);
            out.push(name);
            assert(out@.map_values(|n: String| n@) =~= before.map_values(|n: String| n@).push(name@));
            assert(env_refs(s) == seq![name@] + env_refs(v@.skip(next as int)));
            assert(out@.map_values(|n: String| n@) + env_refs(v@.skip(next as int)) =~= before.map_values(|n: String| n@) + (seq![name@] + env_refs(v@.skip(next as int))));
            i = next;
        } else {
            assert(!opens_var(s));
            assert(s.drop_first() =~= v@.skip(i + 1));
            i = i + 1;
        }
    }
    assert(v@.skip(i as int).len() == 0);
    assert(out@.map_values(|n: String| n@) + env_refs(v@.skip(i as int)) =~= out@.map_values(|n: String| n@));
    out
}

/// Expands `${VAR}` patterns: the `k`-th reference of `input` (see
/// `env_var_references`) becomes `values[k]`; an unset variable (`None`, or
/// no `k`-th value) expands to the empty string.
pub fn expand_env_vars(input: &str, values: &Vec<Option<String>>) -> (r: String)
    ensures
        r@ == expand(input@, values@.map_values(|o: Option<String>| text::opt_text(o))),
{
    let ghost vals = values@.map_values(|o: Option<String>| text::opt_text(o));
    let v = text::chars_of(input);
    let mut out = String::new();
    let mut i: usize = 0;
    let mut k: usize = 0;
    assert(v@.skip(0) =~= v@);
    assert(vals.skip(0) =~= vals);
    while i < v.len()
        invariant
            i <= v.len(),
            v@ == input@,
            vals == values@.map_values(|o: Option<String>| text::opt_text(o)),
            vals.len() == values.len(),
            k <= values.len(),
            expand(input@, vals) == out@ + expand(v@.skip(i as int), vals.skip(k as int)),
        decreases v.len() - i,
    {
        let ghost s = v@.skip(i as int);
        let ghost before = out@;
        if v[i] == '$' && i + 1 < v.len() && v[i + 1] == '{' {
            assert(opens_var(s));
            assert(s.skip(2) =~= v@.skip(i + 2));
            let (_name, next) = scan_name(&v, i + 2);
            if k < values.len() {
                match &values[k] {
                    Some(val) => {
                        out.append(val.as_str());
                    },
                    None => {},
                }
            }
            assert(value_at(vals.skip(k as int), 0) == value_at(vals, k as int));
            assert(out@ == before + value_at(vals, k as int));
            let ghost old_k = k;
            k = if k < values.len() { k + 1 } else { k };
            assert(rest_values(vals.skip(old_k as int)) =~= vals.skip(k as int));
            i = next;
        } else {
            assert(!opens_var(s));
            assert(s.drop_first() =~= v@.skip(i + 1));
            out.push(v[i]);
            i = i + 1;
        }
    }
    assert(v@.skip(i as int).len() == 0);
    out
}

/// Whether `${` starts at position `i` of `s`.
pub open spec fn opens_at(s: Seq<char>, i: int) -> bool {
    s[i] == '$' && s[i + 1] == '{'
}

/// Whether `${` occurs nowhere in `s`.
pub open spec fn no_refs(s: Seq<char>) -> bool {
    forall|i: int| 0 <= i < s.len() - 1 ==> !#[trigger] opens_at(s, i)
}

/// A text with no `${` in it comes out of expansion unchanged, whatever the
/// values.
pub proof fn lemma_expand_without_refs(s: Seq<char>, values: Seq<Option<Seq<char>>>)
    requires
        no_refs(s),
    ensures
        expand(s, values) == s,
        env_refs(s) == Seq::<Seq<char>>::empty(),
    decreases s.len(),
{
    if s.len() > 0 {
        if s.len() >= 2 {
            assert(!opens_at(s, 0));
        }
        assert(!opens_var(s));
        let t = s.drop_first();
        assert forall|i: int| 0 <= i < t.len() - 1 implies !#[trigger] opens_at(t, i) by {
            assert(t[i] == s[i + 1] && t[i + 1] == s[i + 2]);
            assert(!opens_at(s, i + 1));
        }
        lemma_expand_without_refs(t, values);
        assert(seq![s[0]] + t =~= s);
    }
}

/// A reference to an unset variable expands to the empty string: the text
/// before the reference and after it are kept, with nothing between them.
pub proof fn lemma_unset_var_expands_empty(pre: Seq<char>, name: Seq<char>, post: Seq<char>)
    requires
        no_refs(pre),
        pre.len() == 0 || pre.last() != '$',
        forall|i: int| 0 <= i < name.len() ==> name[i] != '}',
        no_refs(post),
    ensures
        expand(pre + "${"@ + name + "}"@ + post, seq![None]) == pre + post,
        env_refs(pre + "${"@ + name + "}"@ + post) == seq![name],
    decreases pre.len(),
{
    reveal_strlit("${");
    reveal_strlit("}");
    let s = pre + "${"@ + name + "}"@ + post;
    if pre.len() == 0 {
        assert(s =~= "${"@ + name + "}"@ + post);
        assert(opens_var(s));
        let rest = s.skip(2);
        assert(rest =~= name + "}"@ + post);
        lemma_close_pos(rest);
        assert(close_pos(rest) == name.len()) by {
            if close_pos(rest) < name.len() {
                assert(rest[close_pos(rest) as int] == name[close_pos(rest) as int]);
            } else if close_pos(rest) > name.len() {
                assert(rest[name.len() as int] == '}');
            }
        }
        assert(after_var(rest) =~= post);
        assert(rest.take(name.len() as int) =~= name);
        lemma_expand_without_refs(post, rest_values(seq![None::<Seq<char>>]));
        assert(value_at(seq![None], 0) =~= seq![]);
        assert(pre + post =~= post);
    } else {
        assert(!opens_var(s)) by {
            if pre.len() == 1 {
                assert(s[0] == pre[0]);
                assert(s[1] == '$');
            } else {
                assert(s[0] == pre[0] && s[1] == pre[1]);
                assert(!opens_at(pre, 0));
            }
        }
        let p2 = pre.drop_first();
        assert forall|i: int| 0 <= i < p2.len() - 1 implies !#[trigger] opens_at(p2, i) by {
            assert(p2[i] == pre[i + 1] && p2[i + 1] == pre[i + 2]);
            assert(!opens_at(pre, i + 1));
        }
        lemma_unset_var_expands_empty(p2, name, post);
        assert(s.drop_first() =~= p2 + "${"@ + name + "}"@ + post);
        assert(seq![s[0]] + (p2 + post) =~= pre + post);
    }
}

} // verus!
