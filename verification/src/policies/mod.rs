//! Load balancing policies: the events that routers emit, the choice of workers
//! that can take a request, and the state and metrics of the Thunder policy.

use vstd::prelude::*;

pub mod laws;
pub mod thunder;
pub mod thunder_metrics;

pub use thunder_metrics::{BackendCapacity, HttpMetricsClient};

verus! {

/// Per-request usage event emitted by routers after the upstream stream
/// completes.
///
/// Stateless policies ignore this; the Thunder policy uses it to update the
/// tokens of a backend and the per-program ratio of characters to tokens.
///
/// `request_text_chars` is captured by the router at admission time, so that the
/// consumer can compute `tokens_per_char = total_tokens / request_text_chars`.
#[derive(Debug, Clone)]
pub struct UsageEvent {
    /// Program identifier this usage belongs to (None for non-program requests
    /// or when the client did not send `metadata.program_id`).
    pub program_id: Option<String>,
    /// Backend URL the request was routed to.
    pub backend_url: String,
    /// Prompt tokens reported by the upstream usage payload.
    pub prompt_tokens: u32,
    /// Completion tokens reported by the upstream usage payload.
    pub completion_tokens: u32,
    /// Sum of prompt and completion (kept explicit so consumers don't repeat the
    /// math).
    pub total_tokens: u32,
    /// Char-length of the routing-extracted request text.
    pub request_text_chars: usize,
    /// Anthropic-only: tokens served from the prompt cache. `None` for OpenAI
    /// Chat and Responses, where this concept does not exist.
    pub cache_read_input_tokens: Option<u32>,
    /// Client-declared `max_tokens` (or equivalent: `max_completion_tokens` for
    /// OpenAI Chat, `max_output_tokens` for Responses). `None` if the request did
    /// not specify a limit.
    pub declared_max_tokens: Option<u32>,
}

/// Progress event emitted during streaming (every ~20 tokens or per Anthropic
/// `message_delta`).
#[derive(Debug, Clone)]
pub struct StreamingProgressEvent {
    pub program_id: String,
    pub delta_tokens: u64,
}

/// What a worker says of itself when a request is to be routed.
#[derive(Debug, Clone, Copy)]
pub struct WorkerHealth {
    /// The worker passes its health checks.
    pub is_healthy: bool,
    /// The worker's circuit breaker lets requests through.
    pub circuit_breaker_can_execute: bool,
}

impl WorkerHealth {
    /// The worker can take a request.
    pub open spec fn available(self) -> bool {
        self.is_healthy && self.circuit_breaker_can_execute
    }
}

/// Filter the workers that can take a request and return their indices, in
/// order.
pub fn get_healthy_worker_indices(workers: &[WorkerHealth]) -> (indices: Vec<usize>)
    ensures
        forall|i: usize| #[trigger]
            indices@.contains(i) <==> i < workers@.len() && workers@[i as int].available(),
        forall|a: int, b: int| 0 <= a < b < indices@.len() ==> indices@[a] < indices@[b],
        forall|i: usize| #[trigger]
            indices@.contains(i) <==> i < workers@.len() && workers@[i as int].is_healthy
                && workers@[i as int].circuit_breaker_can_execute,
{
    let mut indices: Vec<usize> = Vec::new();
    for idx in 0..workers.len()
        invariant
            forall|i: usize| #[trigger]
                indices@.contains(i) <==> i < idx && workers@[i as int].available(),
            forall|a: int, b: int| 0 <= a < b < indices@.len() ==> indices@[a] < indices@[b],
    {
        let ghost before = indices@;
        if workers[idx].is_healthy && workers[idx].circuit_breaker_can_execute {
            assert forall|a: int| 0 <= a < before.len() implies before[a] < idx by {
                assert(before.contains(before[a]));
            }
            indices.push(idx);
            assert forall|i: usize| #[trigger]
                indices@.contains(i) <==> before.contains(i) || i == idx by {
                if before.contains(i) {
                    let a = choose|a: int| 0 <= a < before.len() && before[a] == i;
                    assert(indices@[a] == i);
                }
                if i == idx {
                    assert(indices@[before.len() as int] == i);
                }
            }
        }
    }
    indices
}

/// The key of requests that name no model.
pub const UNKNOWN_MODEL_ID: &'static str = "unknown";

/// Normalize a model id to a key for policy lookups.
///
/// Returns `UNKNOWN_MODEL_ID` for an empty model id, to ensure consistent
/// behavior across single-model and multi-model deployments.
pub fn normalize_model_key(model_id: &str) -> (key: &str)
    ensures
        key@ == model_key(model_id@),
        model_id@.len() > 0 ==> key@ == model_id@,
        model_id@.len() == 0 ==> key@ == "unknown"@,
{
    if model_id.is_empty() {
        UNKNOWN_MODEL_ID
    } else {
        model_id
    }
}

/// The key of a model id: the id itself, or that of an unknown model where the
/// id is empty.
pub open spec fn model_key(model_id: Seq<char>) -> Seq<char> {
    if model_id.len() == 0 {
        UNKNOWN_MODEL_ID@
    } else {
        model_id
    }
}

/// A key is never empty, and is its own key. Only an empty id has another key than
/// itself.
pub proof fn law_model_key(model_id: Seq<char>)
    ensures
        model_key(model_id).len() > 0,
        model_id.len() > 0 ==> model_key(model_id) == model_id,
        model_id.len() == 0 ==> model_key(model_id) == "unknown"@,
        model_key(model_key(model_id)) == model_key(model_id),
{
    reveal_strlit("unknown");
}

} // verus!
