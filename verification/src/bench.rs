//! The load generator's own logic: how it writes counts, and the synthetic
//! conversation it sends in chat mode.
use vstd::prelude::*;
use vstd::string::*;
use crate::server::proto;
use crate::text;
use crate::tokenizer;
use crate::tokenizer::{TokenizerError, TokenizerRegistry};

verus! {

broadcast use vstd::string::group_string_axioms;

// ---------------------------------------------------------------------------
// Counts with thousands separators
// ---------------------------------------------------------------------------

/// A numeral with its digits grouped in threes from the right, the groups
/// separated by commas: "1234567" is written "1,234,567".
pub open spec fn grouped(s: Seq<char>) -> Seq<char>
    decreases s.len(),
{
    if s.len() <= 3 {
        s
    } else {
        grouped(s.subrange(0, s.len() - 3)) + seq![','] + s.subrange(s.len() - 3, s.len() as int)
    }
}

/// A text with its commas left out.
pub open spec fn without_commas(s: Seq<char>) -> Seq<char>
    decreases s.len(),
{
    if s.len() == 0 {
        s
    } else if s.last() == ',' {
        without_commas(s.drop_last())
    } else {
        without_commas(s.drop_last()).push(s.last())
    }
}

proof fn lemma_decimal_nonempty(n: nat)
    ensures
        text::decimal(n).len() >= 1,
    decreases n,
{
    if n >= 10 {
        lemma_decimal_nonempty(n / 10);
    }
}

/// Writes a count with thousands separators.
pub fn format_number(n: u64) -> (r: String)
    ensures
        r@ == grouped(text::decimal(n as nat)),
{
    let s = text::decimal_string(n);
    let v = text::chars_of(s.as_str());
    proof {
        lemma_decimal_nonempty(n as nat);
    }
    let len = v.len();
    let first: usize = if len % 3 == 0 {
        3
    } else {
        len % 3
    };
    let mut out = String::new();
    let mut i: usize = 0;
    while i < first
        invariant
            first <= len,
            v@ == text::decimal(n as nat),
            len == v.len(),
            i <= first,
            out@ == v@.take(i as int),
        decreases first - i,
    {
        out.push(v[i]);
        assert(v@.take(i + 1) =~= v@.take(i as int).push(v@[i as int]));
        i = i + 1;
    }
    assert(grouped(v@.take(first as int)) == v@.take(first as int));
    while i < len
        invariant
            1 <= first <= i <= len,
            (len - i) % 3 == 0,
            len == v.len(),
            v@ == text::decimal(n as nat),
            out@ == grouped(v@.take(i as int)),
        decreases len - i,
    {
        let ghost before = out@;
        out.push(',');
        out.push(v[i]);
        out.push(v[i + 1]);
        out.push(v[i + 2]);
        proof {
            let t = v@.take(i + 3);
            assert(t.subrange(0, t.len() - 3) =~= v@.take(i as int));
            assert(t.subrange(t.len() - 3, t.len() as int) =~= seq![
                v@[i as int],
                v@[i + 1],
                v@[i + 2],
            ]);
            assert(out@ =~= before + seq![','] + seq![v@[i as int], v@[i + 1], v@[i + 2]]);
        }
        i = i + 3;
    }
    assert(v@.take(len as int) =~= v@);
    out
}

proof fn lemma_without_commas_add(a: Seq<char>, b: Seq<char>)
    ensures
        without_commas(a + b) == without_commas(a) + without_commas(b),
    decreases b.len(),
{
    if b.len() == 0 {
        assert(a + b =~= a);
        assert(without_commas(a) + without_commas(b) =~= without_commas(a));
    } else {
        lemma_without_commas_add(a, b.drop_last());
        assert((a + b).drop_last() =~= a + b.drop_last());
        assert((a + b).last() == b.last());
        if b.last() != ',' {
            assert(without_commas(a) + without_commas(b) =~= (without_commas(a) + without_commas(
                b.drop_last(),
            )).push(b.last()));
        }
    }
}

proof fn lemma_decimal_has_no_commas(n: nat)
    ensures
        without_commas(text::decimal(n)) == text::decimal(n),
    decreases n,
{
    let d = text::decimal(n);
    assert(d.last() == text::digit_char(n % 10));
    assert(text::digit_char(n % 10) != ',');
    if n < 10 {
        assert(d.drop_last() =~= Seq::<char>::empty());
        assert(without_commas(Seq::<char>::empty()) == Seq::<char>::empty());
        assert(d =~= Seq::<char>::empty().push(d.last()));
    } else {
        lemma_decimal_has_no_commas(n / 10);
        assert(d.drop_last() =~= text::decimal(n / 10));
        assert(d =~= d.drop_last().push(d.last()));
    }
}

/// Leaving the separators out of a grouped numeral gives back its digits.
pub proof fn lemma_grouped_keeps_digits(s: Seq<char>)
    ensures
        without_commas(grouped(s)) == without_commas(s),
    decreases s.len(),
{
    if s.len() > 3 {
        let a = s.subrange(0, s.len() - 3);
        let b = s.subrange(s.len() - 3, s.len() as int);
        lemma_grouped_keeps_digits(a);
        lemma_without_commas_add(grouped(a) + seq![','], b);
        lemma_without_commas_add(grouped(a), seq![',']);
        assert(seq![','].drop_last() =~= Seq::<char>::empty());
        assert(seq![','].last() == ',');
        assert(without_commas(Seq::<char>::empty()) == Seq::<char>::empty());
        assert(without_commas(seq![',']) =~= Seq::<char>::empty());
        assert(a + b =~= s);
        lemma_without_commas_add(a, b);
    }
}

/// A count written by `format_number` reads back as its decimal digits once
/// the separators are left out.
pub proof fn lemma_format_number_digits(n: nat)
    ensures
        without_commas(grouped(text::decimal(n))) == text::decimal(n),
{
    lemma_grouped_keeps_digits(text::decimal(n));
    lemma_decimal_has_no_commas(n);
}

// ---------------------------------------------------------------------------
// The synthetic conversation
// ---------------------------------------------------------------------------

/// Where the text of turn `i` starts, in bytes: turns vary so that servers
/// cannot cache one answer for all.
pub open spec fn turn_offset(len: nat, i: nat) -> nat {
    (i * 37) % (len / 2)
}

/// Where the text of turn `i` ends, in bytes: half the text on from its
/// start, at most the whole text.
pub open spec fn turn_end(len: nat, i: nat) -> nat {
    let end = turn_offset(len, i) + len / 2;
    if end < len {
        end
    } else {
        len
    }
}

/// The text of turn `i`: a text of more than 100 bytes is cut to its bytes
/// from `turn_offset` to `turn_end`; a shorter one is used whole.
pub open spec fn turn_content(text: Seq<char>, i: nat) -> Seq<char> {
    let bytes = vstd::utf8::encode_utf8(text);
    if bytes.len() > 100 {
        vstd::utf8::decode_utf8(
            bytes.subrange(turn_offset(bytes.len(), i) as int, turn_end(bytes.len(), i) as int),
        )
    } else {
        text
    }
}

/// Whether every turn's cut falls on character boundaries, as slicing a
/// `str` requires.
pub open spec fn cuts_on_boundaries(text: Seq<char>, turns: nat) -> bool {
    let bytes = vstd::utf8::encode_utf8(text);
    bytes.len() > 100 ==> forall|i: nat|
        1 <= i < turns ==> vstd::utf8::is_char_boundary(bytes, #[trigger] turn_offset(bytes.len(), i) as int)
            && vstd::utf8::is_char_boundary(bytes, turn_end(bytes.len(), i) as int)
}

/// A message with just a role and a content.
pub open spec fn is_plain_message(m: proto::ChatMessage, role: Seq<char>, content: Seq<char>) -> bool {
    &&& m.role@ == role
    &&& m.content matches Some(c) && c@ == content
    &&& m.tool_calls@.len() == 0
    &&& m.tool_call_id is None
    &&& m.name is None
}

proof fn lemma_boundary_in_suffix(bytes: Seq<u8>, from: int, to: int)
    requires
        vstd::utf8::valid_utf8(bytes),
        vstd::utf8::valid_utf8(bytes.subrange(from, bytes.len() as int)),
        0 <= from <= to <= bytes.len(),
        vstd::utf8::is_char_boundary(bytes, to),
    ensures
        vstd::utf8::is_char_boundary(bytes.subrange(from, bytes.len() as int), to - from),
{
    let tail = bytes.subrange(from, bytes.len() as int);
    if to == bytes.len() {
        vstd::utf8::is_char_boundary_start_end_of_seq(tail);
    } else {
        vstd::utf8::is_char_boundary_iff_not_is_continuation_byte(bytes, to);
        vstd::utf8::is_char_boundary_iff_not_is_continuation_byte(tail, to - from);
        assert(tail[to - from] == bytes[to]);
    }
}

fn plain_message(role: &str, content: &str) -> (m: proto::ChatMessage)
    ensures
        is_plain_message(m, role@, content@),
{
    proto::ChatMessage {
        role: String::from_str(role),
        content: Some(String::from_str(content)),
        tool_calls: Vec::new(),
        tool_call_id: None,
        name: None,
    }
}

/// Builds a synthetic multi-turn conversation from the text payload: a
/// system message, then `turns - 1` turns that alternate between user and
/// assistant.
pub fn build_chat_messages(text: &str, turns: usize) -> (r: Vec<proto::ChatMessage>)
    requires
        turns * 37 <= usize::MAX,
        cuts_on_boundaries(text@, turns as nat),
    ensures
        r.len() == if turns == 0 {
            1
        } else {
            turns as int
        },
        is_plain_message(r@[0], "system"@, "You are a helpful assistant."@),
        forall|i: int|
            1 <= i < turns ==> is_plain_message(
                #[trigger] r@[i],
                if i % 2 == 1 {
                    "user"@
                } else {
                    "assistant"@
                },
                turn_content(text@, i as nat),
            ),
{
    let mut messages: Vec<proto::ChatMessage> = Vec::new();
    messages.push(plain_message("system", "You are a helpful assistant."));
    let ghost bytes = vstd::utf8::encode_utf8(text@);
    proof {
        vstd::utf8::encode_utf8_valid_utf8(text@);
    }
    let len = text.as_bytes().len();
    let mut i: usize = 1;
    while i < turns
        invariant
            1 <= i,
            i <= turns || (turns == 0 && i == 1),
            turns * 37 <= usize::MAX,
            cuts_on_boundaries(text@, turns as nat),
            bytes == vstd::utf8::encode_utf8(text@),
            vstd::utf8::valid_utf8(bytes),
            len == bytes.len(),
            messages.len() == i,
            is_plain_message(messages@[0], "system"@, "You are a helpful assistant."@),
            forall|k: int|
                1 <= k < i ==> is_plain_message(
                    #[trigger] messages@[k],
                    if k % 2 == 1 {
                        "user"@
                    } else {
                        "assistant"@
                    },
                    turn_content(text@, k as nat),
                ),
        decreases turns - i,
    {
        let role = if i % 2 == 1 {
            "user"
        } else {
            "assistant"
        };
        let m = if len > 100 {
            let half = len / 2;
            assert(i * 37 <= turns * 37) by (nonlinear_arith)
                requires
                    i <= turns,
            ;
            let offset = (i * 37) % half;
            let end = if offset + half < len {
                offset + half
            } else {
                len
            };
            assert(offset == turn_offset(len as nat, i as nat));
            assert(end == turn_end(len as nat, i as nat));
            assert(vstd::utf8::is_char_boundary(bytes, turn_offset(bytes.len(), i as nat) as int));
            let (_, tail) = text.split_at(offset);
            proof {
                vstd::utf8::encode_utf8_valid_utf8(tail@);
                lemma_boundary_in_suffix(bytes, offset as int, end as int);
            }
            let (piece, _) = tail.split_at(end - offset);
            proof {
                assert(piece.spec_bytes() =~= bytes.subrange(offset as int, end as int));
                vstd::utf8::encode_utf8_decode_utf8(piece@);
            }
            plain_message(role, piece)
        } else {
            plain_message(role, text)
        };
        messages.push(m);
        i = i + 1;
    }
    messages
}

// ---------------------------------------------------------------------------
// The throughput run of one model
// ---------------------------------------------------------------------------

/// Tokenizes `text` with `model`, with special tokens, `iterations` times,
/// and sums the token counts; the first failure stops the run and is
/// returned with the sum so far. A tokenizer that does not sample gives the
/// same count every time, so the sum is that count times the iterations.
pub fn bench_model(registry: &TokenizerRegistry, model: &str, text: &str, iterations: u32) -> (r: (
    u64,
    Option<TokenizerError>,
))
    ensures
        iterations == 0 ==> r.0 == 0 && r.1 is None,
        iterations > 0 && !registry@.models.contains_key(model@) ==> r.0 == 0 && (r.1 matches Some(
            TokenizerError::ModelNotFound(m),
        ) && m@ == model@),
        iterations > 0 && registry@.models.contains_key(model@) && tokenizer::fixed_encoding(
            registry@.models[model@],
        ) ==> match tokenizer::encoding_of(registry@.models[model@], text@, true) {
            Ok(enc) => r.1 is None && r.0 == iterations * ((enc.0.len() as u32) as nat),
            Err(e) => r.0 == 0 && (r.1 matches Some(TokenizerError::EncodeFailed { model: m, message })
                && m@ == model@ && message@ == e),
        },
        r.1 matches Some(e) ==> (e is ModelNotFound || e is EncodeFailed),
{
    let texts: [&str; 1] = [text];
    proof {
        assert(texts@.map_values(|t: &str| t@) =~= seq![text@]);
    }
    let ghost def = registry@.models[model@];
    let mut total: u64 = 0;
    let mut count: u32 = 0;
    let mut i: u32 = 0;
    while i < iterations
        invariant
            i <= iterations,
            texts@.map_values(|t: &str| t@) == seq![text@],
            total <= i * 0xFFFF_FFFFnat,
            i > 0 ==> registry@.models.contains_key(model@),
            i > 0 && tokenizer::fixed_encoding(def) ==> (tokenizer::encoding_of(def, text@, true) matches Ok(
                enc,
            ) && count == enc.0.len() as u32 && total == i * (count as nat)),
            def == registry@.models[model@],
        decreases iterations - i,
    {
        match registry.tokenize(model, &texts, true, false) {
            Ok(results) => {
                let c = results[0].token_count;
                proof {
                    if tokenizer::fixed_encoding(def) {
                        assert(tokenizer::encodes_to(def, seq![text@][0], true, results@[0], false));
                    }
                }
                assert(total + c <= (i + 1) * 0xFFFF_FFFFnat) by (nonlinear_arith)
                    requires
                        total <= i * 0xFFFF_FFFFnat,
                        c <= 0xFFFF_FFFFnat,
                ;
                assert(i > 0 && tokenizer::fixed_encoding(def) ==> total + c == (i + 1) * (c as nat)) by (nonlinear_arith)
                    requires
                        i > 0 && tokenizer::fixed_encoding(def) ==> total == i * (count as nat),
                        i > 0 && tokenizer::fixed_encoding(def) ==> c == count,
                ;
                total = total + c as u64;
                count = c;
                i = i + 1;
            },
            Err(e) => {
                proof {
                    if registry@.models.contains_key(model@) && tokenizer::fixed_encoding(def) {
                        let ts = seq![text@];
                        let k = choose|k: int|
                            0 <= k < ts.len() && #[trigger] tokenizer::encoding_of(def, ts[k], true)
                                == Err::<(Seq<u32>, Seq<Seq<char>>), Seq<char>>(
                                e->EncodeFailed_message@,
                            ) && forall|j: int|
                                0 <= j < k ==> tokenizer::encoding_of(def, ts[j], true) is Ok;
                        assert(k == 0);
                    }
                }
                return (total, Some(e));
            },
        }
    }
    (total, None)
}

// ---------------------------------------------------------------------------
// Run statistics
// ---------------------------------------------------------------------------

/// The figures of one benchmark run. Durations are whole nanoseconds; the
/// latencies are sorted from shortest to longest.
pub struct Stats {
    pub total_requests: u64,
    pub total_errors: u64,
    pub total_tokens: u64,
    pub elapsed_ns: u64,
    pub latencies_ns: Vec<u64>,
    pub server_latency_sum_us: u64,
    pub status_counts: Vec<(String, u64)>,
}

/// The sum of some durations.
pub open spec fn total_ns(s: Seq<u64>) -> int
    decreases s.len(),
{
    if s.len() == 0 {
        0
    } else {
        total_ns(s.drop_last()) + s.last()
    }
}

/// Durations sorted from shortest to longest.
pub open spec fn sorted_ns(s: Seq<u64>) -> bool {
    forall|i: int, j: int| 0 <= i <= j < s.len() ==> s[i] <= s[j]
}

proof fn lemma_total_bound(s: Seq<u64>)
    ensures
        0 <= total_ns(s) <= s.len() * (u64::MAX as int),
    decreases s.len(),
{
    if s.len() > 0 {
        lemma_total_bound(s.drop_last());
    }
}

impl Stats {
    /// The mean latency: the sum divided by the count, rounded down; zero
    /// where there are none.
    pub fn mean(&self) -> (r: u64)
        requires
            self.latencies_ns@.len() <= u32::MAX,
        ensures
            r == (if self.latencies_ns@.len() == 0 {
                0
            } else {
                total_ns(self.latencies_ns@) / (self.latencies_ns@.len() as int)
            }),
    {
        let n = self.latencies_ns.len();
        if n == 0 {
            return 0;
        }
        let mut sum: u128 = 0;
        let mut i: usize = 0;
        while i < n
            invariant
                n == self.latencies_ns@.len(),
                n <= u32::MAX,
                i <= n,
                sum == total_ns(self.latencies_ns@.take(i as int)),
            decreases n - i,
        {
            proof {
                lemma_total_bound(self.latencies_ns@.take(i as int));
                assert(i * (u64::MAX as int) <= (u32::MAX as int) * (u64::MAX as int)) by (nonlinear_arith)
                    requires
                        i <= u32::MAX,
                ;
                assert(self.latencies_ns@.take(i as int + 1).drop_last() =~= self.latencies_ns@.take(i as int));
            }
            sum = sum + self.latencies_ns[i] as u128;
            i = i + 1;
        }
        proof {
            assert(self.latencies_ns@.take(n as int) =~= self.latencies_ns@);
            lemma_total_bound(self.latencies_ns@);
            let t = total_ns(self.latencies_ns@);
            assert(t / (n as int) <= u64::MAX) by (nonlinear_arith)
                requires
                    0 <= t <= n * (u64::MAX as int),
                    n > 0,
            ;
        }
        (sum / (n as u128)) as u64
    }

    /// The shortest latency: the first, as they are sorted; zero where there
    /// are none.
    pub fn min(&self) -> (r: u64)
        ensures
            r == (if self.latencies_ns@.len() == 0 {
                0
            } else {
                self.latencies_ns@[0]
            }),
            sorted_ns(self.latencies_ns@) ==> forall|i: int|
                0 <= i < self.latencies_ns@.len() ==> r <= #[trigger] self.latencies_ns@[i],
    {
        if self.latencies_ns.len() == 0 {
            0
        } else {
            self.latencies_ns[0]
        }
    }

    /// The longest latency: the last, as they are sorted; zero where there
    /// are none.
    pub fn max(&self) -> (r: u64)
        ensures
            r == (if self.latencies_ns@.len() == 0 {
                0
            } else {
                self.latencies_ns@.last()
            }),
            sorted_ns(self.latencies_ns@) ==> forall|i: int|
                0 <= i < self.latencies_ns@.len() ==> #[trigger] self.latencies_ns@[i] <= r,
    {
        let n = self.latencies_ns.len();
        if n == 0 {
            0
        } else {
            self.latencies_ns[n - 1]
        }
    }
}

} // verus!
