//! What the transports decide: replies to requests, and the metrics each
//! request records.
use vstd::prelude::*;

pub mod http;
pub mod proto;
pub mod grpc;
pub mod ext_proc;

verus! {

/// A metric a request records.
#[derive(Debug)]
pub enum MetricEvent {
    /// Nothing is recorded.
    Nothing,
    /// A successful tokenization: its latency and the tokens produced.
    Tokenize { model: String, latency_us: u64, token_count: u64 },
    /// A successful chat tokenization: its latency, the time spent
    /// rendering the template, and the tokens produced.
    ChatTokenize { model: String, latency_us: u64, render_us: u64, token_count: u64 },
    /// A failed request against a model.
    Error { model: String },
    /// The number of loaded models changed.
    LoadedModels { count: usize },
    /// A request body tokenized for Envoy: its latency and the tokens.
    ExtProc { model: String, latency_us: u64, token_count: u64 },
    /// A request Envoy sent that is not intercepted.
    ExtProcPassthrough,
    /// A request body that could not be tokenized for Envoy.
    ExtProcError,
}

} // verus!
