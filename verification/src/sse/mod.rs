//! Server-Sent Events (SSE) parsing for streaming usage extraction.
//!
//! Three protocols supported:
//! - OpenAI Chat Completions (`/v1/chat/completions`)
//! - Anthropic Messages (`/v1/messages`)
//! - OpenAI Responses (`/v1/responses`)
//!
//! Each parser:
//! 1. Buffers incoming bytes across chunk boundaries
//! 2. Splits on the SSE event delimiter `\n\n`
//! 3. Per-line `data:` extraction and JSON parse
//! 4. Protocol-specific usage extraction
//! 5. Optional usage-event stripping (OpenAI Chat only)
//! 6. Token-delta emission for incremental tracking

use vstd::prelude::*;

use crate::text;

pub mod anthropic;
pub mod anthropic_laws;
pub mod chat_laws;
pub mod documents;
pub mod extractor;
pub mod extractor_laws;
pub mod framing;
pub mod framing_laws;
pub mod json;
pub mod laws;
pub mod openai_chat;
pub mod responses;
pub mod responses_laws;

pub use extractor::{ParsedChunk, ParsedUsage, SseExtractor, SseProtocol};

verus! {

/// Token-progress emission threshold (events for OpenAI Chat and Responses; not
/// used for Anthropic, which gives cumulative readings).
pub const INCREMENTAL_TOKEN_INTERVAL: u64 = 20;

/// Detect the protocol from the upstream endpoint URL.
pub fn detect_protocol(endpoint: &str) -> (protocol: SseProtocol)
    ensures
        protocol == if text::occurs_in("/v1/messages"@, endpoint@) {
            SseProtocol::AnthropicMessages
        } else if text::occurs_in("/v1/responses"@, endpoint@) {
            SseProtocol::OpenAiResponses
        } else {
            SseProtocol::OpenAiChat
        },
        forall|a: Seq<char>, b: Seq<char>|
            endpoint@ == #[trigger] (a + "/v1/messages"@ + b) ==> protocol
                == SseProtocol::AnthropicMessages,
        protocol == SseProtocol::AnthropicMessages ==> exists|a: Seq<char>, b: Seq<char>|
            endpoint@ == #[trigger] (a + "/v1/messages"@ + b),
        forall|a: Seq<char>, b: Seq<char>|
            endpoint@ == #[trigger] (a + "/v1/responses"@ + b) ==> protocol
                != SseProtocol::OpenAiChat,
        protocol == SseProtocol::OpenAiResponses ==> exists|a: Seq<char>, b: Seq<char>|
            endpoint@ == #[trigger] (a + "/v1/responses"@ + b),
{
    proof {
        assert forall|a: Seq<char>, b: Seq<char>|
            endpoint@ == #[trigger] (a + "/v1/messages"@ + b) implies text::occurs_in(
            "/v1/messages"@,
            endpoint@,
        ) by {
            text::law_occurs_within(a, "/v1/messages"@, b);
        }
        assert forall|a: Seq<char>, b: Seq<char>|
            endpoint@ == #[trigger] (a + "/v1/responses"@ + b) implies text::occurs_in(
            "/v1/responses"@,
            endpoint@,
        ) by {
            text::law_occurs_within(a, "/v1/responses"@, b);
        }
        if text::occurs_in("/v1/messages"@, endpoint@) {
            let around = text::law_occurs_splits("/v1/messages"@, endpoint@);
            assert(endpoint@ == around.0 + "/v1/messages"@ + around.1);
        }
        if text::occurs_in("/v1/responses"@, endpoint@) {
            let around = text::law_occurs_splits("/v1/responses"@, endpoint@);
            assert(endpoint@ == around.0 + "/v1/responses"@ + around.1);
        }
    }
    if text::contains(endpoint, "/v1/messages") {
        SseProtocol::AnthropicMessages
    } else if text::contains(endpoint, "/v1/responses") {
        SseProtocol::OpenAiResponses
    } else {
        SseProtocol::OpenAiChat
    }
}

} // verus!
