//! Canonical benchmark text payloads at three size points, and chat
//! conversations built from them.
use vstd::prelude::*;
use vstd::string::*;
use crate::chat_template::{ChatMessage, ChatMessageView};
use crate::chat_template;
use crate::text;

verus! {

broadcast use vstd::string::group_string_axioms;

/// ~20 tokens after BPE.
pub const TEXT_SHORT: &'static str = "The quick brown fox jumps over the lazy dog near the riverbank.";

/// ~200 tokens — a paragraph of technical prose.
pub const TEXT_MEDIUM: &'static str = "Kubernetes implements a declarative control loop: the API server stores desired state in etcd, and controllers continuously reconcile observed state toward it. The scheduler assigns pods to nodes by scoring candidates against resource requests, affinity rules, and topology constraints. kubelet on each node runs pod sandboxes via the CRI, mounts volumes via the CSI, and wires networking via the CNI. Health probes drive readiness and liveness gating; failing liveness restarts the container while failing readiness pulls it from load-balancer endpoints. HPA adjusts replica count against custom metrics exposed through the metrics pipeline, while VPA right-sizes container resource limits based on observed usage histograms collected over a rolling window.";

/// ~2000 tokens — extended technical content.
pub const TEXT_LONG: &'static str = "Disaggregated LLM serving separates the prefill and decode phases onto distinct worker pools, exploiting the asymmetry between the two: prefill is compute-bound and parallelizes well across prompt tokens, whereas decode is memory-bandwidth-bound and benefits from batching many in-flight sequences. Routing the initial prefill request to a prefill worker, then migrating the populated KV-cache entries to a decode worker via RDMA or NVLink fabric, allows each pool to be sized and scheduled independently. This enables heterogeneous clusters where high-FLOPS GPUs handle prefill and high-HBM-bandwidth GPUs handle decode without stranding capacity on either. \nPrefix-cache-aware routing extends this by hashing the prompt prefix and directing requests to the worker that already holds matching KV entries in its GPU SRAM. A hit avoids recomputing the prefix entirely, trading a network round-trip for O(n) attention work. The routing layer maintains a distributed prefix-hash index — either a consistent-hash ring or a centralized coordinator — and falls back to the least-loaded worker on a miss. Cache eviction follows LRU with capacity limits derived from available HBM, and invalidation is triggered on model weight updates or context-window exhaustion. \nThe KV-cache coordination plane must handle split-brain scenarios where multiple workers believe they hold the authoritative copy of an in-flight sequence's state. Fencing tokens issued at sequence-creation time and incremented on each migration prevent stale workers from committing speculative decode steps after a handoff. Workers that fail to renew their fencing token within the heartbeat window are preempted and their sequences are rescheduled. The sequence-state journal, replicated to at least two workers before acknowledgement, provides durability against single-node failure without sacrificing the sub-millisecond decode latency budget. \nAttention kernel selection is a function of sequence length, batch size, and hardware capability. For long-context sequences where the KV cache exceeds L2, paged attention kernels amortize HBM bandwidth by fetching only the pages referenced in the current decode step. Flash-attention variants prefetch the next page asynchronously while the CUDA cores are occupied with the current GEMM, hiding memory latency behind compute. Dedicated accelerator cores can offload prefix-hash lookups and cache-line fetches, reducing PCIe traffic on the hot path. NCCL AllReduce is replaced by NIXL point-to-point transfers for KV-cache migration between tensor parallel ranks, avoiding the barrier synchronization overhead that would otherwise serialize the decode pipeline. \nObservability in this architecture requires per-sequence tracing that spans the prefill and decode workers, capturing enqueue time, time-to-first-token, per-step decode latency, cache-hit ratio, and migration duration. The trace context is propagated in the sequence metadata alongside the fencing token, allowing a distributed trace collector to reconstruct the full request timeline across the heterogeneous fleet. Anomaly detection on the time-to-first-token distribution identifies pathological prompt patterns that defeat prefix caching and warrant rate limiting or prompt rewriting at the gateway layer. SLO burn-rate alerts derived from the error budget framework fire when p99 decode latency exceeds the agreed envelope, triggering autoscaler events that provision additional decode capacity within the cluster before the budget is exhausted.";

/// A message with a role and a content, and no other field.
pub open spec fn msg_view(role: Seq<char>, content: Seq<char>) -> ChatMessageView {
    ChatMessageView { role, content: Some(content), tool_calls: None, tool_call_id: None, name: None }
}

fn msg(role: &str, content: &str) -> (m: ChatMessage)
    ensures
        m@ == msg_view(role@, content@),
{
    ChatMessage {
        role: String::from_str(role),
        content: Some(String::from_str(content)),
        tool_calls: None,
        tool_call_id: None,
        name: None,
    }
}

/// The messages of `chat_short`.
pub open spec fn chat_short_spec() -> Seq<ChatMessageView> {
    seq![
        msg_view("system"@, "You are a helpful assistant."@),
        msg_view("user"@, TEXT_SHORT@),
    ]
}

/// 2-turn conversation: system + user. ~50 tokens after template application.
pub fn chat_short() -> (v: Vec<ChatMessage>)
    ensures
        chat_template::messages_view(v@) == chat_short_spec(),
{
    let mut v: Vec<ChatMessage> = Vec::new();
    v.push(msg("system", "You are a helpful assistant."));
    v.push(msg("user", TEXT_SHORT));
    assert(chat_template::messages_view(v@) =~= chat_short_spec());
    v
}

/// The messages of `chat_medium`.
pub open spec fn chat_medium_spec() -> Seq<ChatMessageView> {
    seq![
        msg_view("system"@, "You are a helpful assistant specializing in distributed systems."@),
        msg_view("user"@, "Explain how Kubernetes scheduling works."@),
        msg_view("assistant"@, TEXT_MEDIUM@),
        msg_view("user"@, "How does the HPA interact with custom metrics?"@),
        msg_view("assistant"@, "HPA queries the metrics API server on each reconciliation loop, comparing the current metric value against the target. When the ratio exceeds 1.0, it scales up by ceil(currentReplicas * ratio). The metrics pipeline typically flows from the application through Prometheus, then the prometheus-adapter exposes them as custom.metrics.k8s.io resources."@),
    ]
}

/// 5-turn conversation. ~500 tokens after template application.
pub fn chat_medium() -> (v: Vec<ChatMessage>)
    ensures
        chat_template::messages_view(v@) == chat_medium_spec(),
{
    let mut v: Vec<ChatMessage> = Vec::new();
    v.push(msg("system", "You are a helpful assistant specializing in distributed systems."));
    v.push(msg("user", "Explain how Kubernetes scheduling works."));
    v.push(msg("assistant", TEXT_MEDIUM));
    v.push(msg("user", "How does the HPA interact with custom metrics?"));
    v.push(msg("assistant", "HPA queries the metrics API server on each reconciliation loop, comparing the current metric value against the target. When the ratio exceeds 1.0, it scales up by ceil(currentReplicas * ratio). The metrics pipeline typically flows from the application through Prometheus, then the prometheus-adapter exposes them as custom.metrics.k8s.io resources."));
    assert(chat_template::messages_view(v@) =~= chat_medium_spec());
    v
}

/// The messages of `chat_long`.
pub open spec fn chat_long_spec() -> Seq<ChatMessageView> {
    seq![
        msg_view("system"@, "You are an expert in LLM inference infrastructure."@),
        msg_view("user"@, "What is disaggregated LLM serving?"@),
        msg_view("assistant"@, TEXT_LONG@.subrange(0, 600)),
        msg_view("user"@, "How does prefix-cache-aware routing work?"@),
        msg_view("assistant"@, TEXT_LONG@.subrange(600, 1196)),
        msg_view("user"@, "What about KV-cache coordination in split-brain scenarios?"@),
        msg_view("assistant"@, TEXT_LONG@.subrange(1196, 1796)),
        msg_view("user"@, "How does attention kernel selection depend on sequence length?"@),
        msg_view("assistant"@, TEXT_LONG@.subrange(1796, 3523)),
        msg_view("user"@, "Can you elaborate on the observability requirements?"@),
        msg_view("assistant"@, TEXT_MEDIUM@),
        msg_view("user"@, "How does the scheduler assign pods to nodes?"@),
        msg_view("assistant"@, "The scheduler runs a two-phase pipeline: filtering and scoring. Filtering removes nodes that don't meet hard constraints (resource requests, taints, affinity rules). Scoring ranks remaining candidates using weighted plugins — ImageLocality, NodeAffinity, PodTopologySpread, and others. The highest-scoring node wins."@),
        msg_view("user"@, "What about topology-aware scheduling?"@),
        msg_view("assistant"@, "TopologySpreadConstraints let you distribute pods across failure domains (zones, racks, nodes) with configurable maxSkew. The scheduler enforces these during both filtering and scoring phases, preventing hot spots while respecting the skew budget you define."@),
        msg_view("user"@, "How does VPA interact with resource limits?"@),
        msg_view("assistant"@, "VPA observes container resource usage over a rolling window (typically 8 days) and recommends target, lower-bound, and upper-bound values. In Auto mode it evicts pods to apply new requests/limits. The recommendation is capped by any LimitRange in the namespace and bounded by the container's max allowed resource policy."@),
        msg_view("user"@, "What are the tradeoffs between HPA and VPA?"@),
        msg_view("assistant"@, "HPA scales horizontally (more replicas) based on metrics, while VPA scales vertically (bigger containers). Running both on the same resource (CPU/memory) creates a feedback loop — HPA adds replicas, reducing per-pod utilization, causing VPA to shrink them. The standard pattern is HPA on CPU and VPA on memory, or using multidimensional pod autoscaler (MPA) to coordinate both."@),
        msg_view("user"@, "Summarize the key takeaways."@),
    ]
}

/// 20-turn conversation. ~3000 tokens after template application.
pub fn chat_long() -> (v: Vec<ChatMessage>)
    ensures
        chat_template::messages_view(v@) == chat_long_spec(),
{
    proof {
        reveal_strlit("Disaggregated LLM serving separates the prefill and decode phases onto distinct worker pools, exploiting the asymmetry between the two: prefill is compute-bound and parallelizes well across prompt tokens, whereas decode is memory-bandwidth-bound and benefits from batching many in-flight sequences. Routing the initial prefill request to a prefill worker, then migrating the populated KV-cache entries to a decode worker via RDMA or NVLink fabric, allows each pool to be sized and scheduled independently. This enables heterogeneous clusters where high-FLOPS GPUs handle prefill and high-HBM-bandwidth GPUs handle decode without stranding capacity on either. \nPrefix-cache-aware routing extends this by hashing the prompt prefix and directing requests to the worker that already holds matching KV entries in its GPU SRAM. A hit avoids recomputing the prefix entirely, trading a network round-trip for O(n) attention work. The routing layer maintains a distributed prefix-hash index — either a consistent-hash ring or a centralized coordinator — and falls back to the least-loaded worker on a miss. Cache eviction follows LRU with capacity limits derived from available HBM, and invalidation is triggered on model weight updates or context-window exhaustion. \nThe KV-cache coordination plane must handle split-brain scenarios where multiple workers believe they hold the authoritative copy of an in-flight sequence's state. Fencing tokens issued at sequence-creation time and incremented on each migration prevent stale workers from committing speculative decode steps after a handoff. Workers that fail to renew their fencing token within the heartbeat window are preempted and their sequences are rescheduled. The sequence-state journal, replicated to at least two workers before acknowledgement, provides durability against single-node failure without sacrificing the sub-millisecond decode latency budget. \nAttention kernel selection is a function of sequence length, batch size, and hardware capability. For long-context sequences where the KV cache exceeds L2, paged attention kernels amortize HBM bandwidth by fetching only the pages referenced in the current decode step. Flash-attention variants prefetch the next page asynchronously while the CUDA cores are occupied with the current GEMM, hiding memory latency behind compute. Dedicated accelerator cores can offload prefix-hash lookups and cache-line fetches, reducing PCIe traffic on the hot path. NCCL AllReduce is replaced by NIXL point-to-point transfers for KV-cache migration between tensor parallel ranks, avoiding the barrier synchronization overhead that would otherwise serialize the decode pipeline. \nObservability in this architecture requires per-sequence tracing that spans the prefill and decode workers, capturing enqueue time, time-to-first-token, per-step decode latency, cache-hit ratio, and migration duration. The trace context is propagated in the sequence metadata alongside the fencing token, allowing a distributed trace collector to reconstruct the full request timeline across the heterogeneous fleet. Anomaly detection on the time-to-first-token distribution identifies pathological prompt patterns that defeat prefix caching and warrant rate limiting or prompt rewriting at the gateway layer. SLO burn-rate alerts derived from the error budget framework fire when p99 decode latency exceeds the agreed envelope, triggering autoscaler events that provision additional decode capacity within the cluster before the budget is exhausted.");
    }
    assert(TEXT_LONG@.len() == 3523);
    let mut v: Vec<ChatMessage> = Vec::new();
    v.push(msg("system", "You are an expert in LLM inference infrastructure."));
    v.push(msg("user", "What is disaggregated LLM serving?"));
    v.push(msg("assistant", TEXT_LONG.substring_char(0, 600)));
    v.push(msg("user", "How does prefix-cache-aware routing work?"));
    v.push(msg("assistant", TEXT_LONG.substring_char(600, 1196)));
    v.push(msg("user", "What about KV-cache coordination in split-brain scenarios?"));
    v.push(msg("assistant", TEXT_LONG.substring_char(1196, 1796)));
    v.push(msg("user", "How does attention kernel selection depend on sequence length?"));
    v.push(msg("assistant", TEXT_LONG.substring_char(1796, 3523)));
    v.push(msg("user", "Can you elaborate on the observability requirements?"));
    v.push(msg("assistant", TEXT_MEDIUM));
    v.push(msg("user", "How does the scheduler assign pods to nodes?"));
    v.push(msg("assistant", "The scheduler runs a two-phase pipeline: filtering and scoring. Filtering removes nodes that don't meet hard constraints (resource requests, taints, affinity rules). Scoring ranks remaining candidates using weighted plugins — ImageLocality, NodeAffinity, PodTopologySpread, and others. The highest-scoring node wins."));
    v.push(msg("user", "What about topology-aware scheduling?"));
    v.push(msg("assistant", "TopologySpreadConstraints let you distribute pods across failure domains (zones, racks, nodes) with configurable maxSkew. The scheduler enforces these during both filtering and scoring phases, preventing hot spots while respecting the skew budget you define."));
    v.push(msg("user", "How does VPA interact with resource limits?"));
    v.push(msg("assistant", "VPA observes container resource usage over a rolling window (typically 8 days) and recommends target, lower-bound, and upper-bound values. In Auto mode it evicts pods to apply new requests/limits. The recommendation is capped by any LimitRange in the namespace and bounded by the container's max allowed resource policy."));
    v.push(msg("user", "What are the tradeoffs between HPA and VPA?"));
    v.push(msg("assistant", "HPA scales horizontally (more replicas) based on metrics, while VPA scales vertically (bigger containers). Running both on the same resource (CPU/memory) creates a feedback loop — HPA adds replicas, reducing per-pod utilization, causing VPA to shrink them. The standard pattern is HPA on CPU and VPA on memory, or using multidimensional pod autoscaler (MPA) to coordinate both."));
    v.push(msg("user", "Summarize the key takeaways."));
    assert(chat_template::messages_view(v@) =~= chat_long_spec());
    v
}

/// The label of a chat size.
pub open spec fn chat_size_label_of(size: Seq<char>) -> Seq<char> {
    if size == "short"@ {
        "short (2 turns, ~50 tokens)"@
    } else if size == "medium"@ {
        "medium (5 turns, ~500 tokens)"@
    } else if size == "long"@ {
        "long (20 turns, ~3000 tokens)"@
    } else {
        "unknown"@
    }
}

/// Human-readable label for a chat size.
pub fn chat_size_label(size: &str) -> (r: &'static str)
    ensures
        r@ == chat_size_label_of(size@),
{
    if text::same_text(size, "short") {
        "short (2 turns, ~50 tokens)"
    } else if text::same_text(size, "medium") {
        "medium (5 turns, ~500 tokens)"
    } else if text::same_text(size, "long") {
        "long (20 turns, ~3000 tokens)"
    } else {
        "unknown"
    }
}

/// Return a chat payload for a given size name.
pub fn chat_for_size(size: &str) -> (r: Option<Vec<ChatMessage>>)
    ensures
        match r {
            Some(v) => {
                ||| size@ == "short"@ && chat_template::messages_view(v@) == chat_short_spec()
                ||| size@ == "medium"@ && chat_template::messages_view(v@) == chat_medium_spec()
                ||| size@ == "long"@ && chat_template::messages_view(v@) == chat_long_spec()
            },
            None => size@ != "short"@ && size@ != "medium"@ && size@ != "long"@,
        },
{
    if text::same_text(size, "short") {
        Some(chat_short())
    } else if text::same_text(size, "medium") {
        Some(chat_medium())
    } else if text::same_text(size, "long") {
        Some(chat_long())
    } else {
        None
    }
}

/// The label of a text size.
pub open spec fn text_size_label_of(size: Seq<char>) -> Seq<char> {
    if size == "short"@ {
        "short (~20 tokens)"@
    } else if size == "medium"@ {
        "medium (~200 tokens)"@
    } else if size == "long"@ {
        "long (~2000 tokens)"@
    } else {
        "unknown"@
    }
}

/// Human-readable label for a text size.
pub fn text_size_label(size: &str) -> (r: &'static str)
    ensures
        r@ == text_size_label_of(size@),
{
    if text::same_text(size, "short") {
        "short (~20 tokens)"
    } else if text::same_text(size, "medium") {
        "medium (~200 tokens)"
    } else if text::same_text(size, "long") {
        "long (~2000 tokens)"
    } else {
        "unknown"
    }
}

/// The text payload of a size name.
pub open spec fn text_for_size_of(size: Seq<char>) -> Option<Seq<char>> {
    if size == "short"@ {
        Some(TEXT_SHORT@)
    } else if size == "medium"@ {
        Some(TEXT_MEDIUM@)
    } else if size == "long"@ {
        Some(TEXT_LONG@)
    } else {
        None
    }
}

/// Return the text payload for a given size name.
pub fn text_for_size(size: &str) -> (r: Option<&'static str>)
    ensures
        match r {
            Some(t) => text_for_size_of(size@) == Some(t@),
            None => text_for_size_of(size@) is None,
        },
{
    if text::same_text(size, "short") {
        Some(TEXT_SHORT)
    } else if text::same_text(size, "medium") {
        Some(TEXT_MEDIUM)
    } else if text::same_text(size, "long") {
        Some(TEXT_LONG)
    } else {
        None
    }
}

} // verus!
