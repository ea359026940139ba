//! OpenAI Chat Completions (`/v1/chat/completions`) SSE parser.
//!
//! Stream shape:
//! ```text
//! data: {"id":"...","choices":[{"delta":{"content":"Hello"}}]}
//!
//! data: {"id":"...","choices":[{"delta":{"content":" world"}}]}
//!
//! data: {"id":"...","choices":[],"usage":{"total_tokens":12,"prompt_tokens":3,"completion_tokens":9}}
//!
//! data: [DONE]
//!
//! ```
//!
//! - Token delta: each document whose `delta.content` is not empty counts one
//! - Usage: the first document of the stream where `choices == []` and a `usage`
//!   object gives a `total_tokens` count
//! - Strip target: the event of that document (when the client did not ask for
//!   usage)

use vstd::prelude::*;

use crate::counting;
use crate::sse::documents;
use crate::sse::documents::parse_documents;
use crate::sse::extractor::{EventOutcome, ParsedUsage, Yield};
use crate::sse::json;
use crate::sse::json::Json;

verus! {

#[derive(Debug, Clone, Copy)]
pub struct OpenAiChatState {
    /// Whether this stream's usage has already been emitted.
    pub usage_emitted: bool,
}

impl Default for OpenAiChatState {
    fn default() -> (state: Self)
        ensures
            !state.usage_emitted,
    {
        OpenAiChatState { usage_emitted: false }
    }
}

/// What the parser reads out of one document.
#[derive(Debug, Clone, Copy)]
pub struct ChatReading {
    /// The document adds content to the completion.
    pub has_content: bool,
    /// The usage that the document reports.
    pub usage: Option<ParsedUsage>,
}

/// The first choice of the document has a delta with content.
pub open spec fn content_delta(document: Json) -> bool {
    match document.member("choices"@) {
        Some(Json::List(choices)) => choices.len() > 0 && match choices[0].member("delta"@) {
            Some(delta) => match delta.member_text("content"@) {
                Some(content) => content.len() > 0,
                None => false,
            },
            None => false,
        },
        _ => false,
    }
}

/// The choices of the document are an empty list.
pub open spec fn no_choices(document: Json) -> bool {
    match document.member("choices"@) {
        Some(Json::List(choices)) => choices.len() == 0,
        _ => false,
    }
}

/// The counts of the `usage` object of a document, where that gives a total.
pub open spec fn usage_counts(document: Json) -> Option<ParsedUsage> {
    match document.member("usage"@) {
        Some(usage) => match usage.member_unsigned("total_tokens"@) {
            Some(total_tokens) => Some(
                ParsedUsage {
                    total_tokens,
                    prompt_tokens: usage.member_unsigned("prompt_tokens"@),
                    completion_tokens: usage.member_unsigned("completion_tokens"@),
                    cached_tokens: match usage.member("prompt_tokens_details"@) {
                        Some(details) => details.member_unsigned("cached_tokens"@),
                        None => None,
                    },
                },
            ),
            None => None,
        },
        None => None,
    }
}

/// What the parser reads out of a document: whether it adds content, and the
/// usage that it reports. A document with choices reports none.
pub open spec fn reading_of(document: Json) -> ChatReading {
    ChatReading {
        has_content: content_delta(document),
        usage: if no_choices(document) {
            usage_counts(document)
        } else {
            None
        },
    }
}

/// What the parser reads out of each document of a row.
pub open spec fn readings_of(documents: Seq<Json>) -> Seq<ChatReading> {
    Seq::new(documents.len(), |i: int| reading_of(documents[i]))
}

/// What the parser reads out of an event.
pub open spec fn event_readings(event: Seq<u8>) -> Seq<ChatReading> {
    readings_of(documents::documents(event, true))
}

/// How many of the readings add content.
pub open spec fn content_count(readings: Seq<ChatReading>) -> nat
    decreases readings.len(),
{
    if readings.len() == 0 {
        0
    } else {
        content_count(readings.drop_last()) + if readings.last().has_content {
            1nat
        } else {
            0nat
        }
    }
}

/// The first usage among the readings.
pub open spec fn first_usage(readings: Seq<ChatReading>) -> Option<ParsedUsage>
    decreases readings.len(),
{
    if readings.len() == 0 {
        None
    } else {
        match first_usage(readings.drop_last()) {
            Some(usage) => Some(usage),
            None => readings.last().usage,
        }
    }
}

/// The usage that an event with these readings reports: the first it carries,
/// unless the stream has reported usage before.
pub open spec fn reported_usage(state: OpenAiChatState, readings: Seq<ChatReading>) -> Option<
    ParsedUsage,
> {
    if state.usage_emitted {
        None
    } else {
        first_usage(readings)
    }
}

/// The state after an event with these readings.
pub open spec fn next_state(
    state: OpenAiChatState,
    readings: Seq<ChatReading>,
) -> OpenAiChatState {
    OpenAiChatState {
        usage_emitted: state.usage_emitted || reported_usage(state, readings) is Some,
    }
}

/// What an event with these readings yields. The event is forwarded whole,
/// unless it reports usage and usage is to be stripped.
pub open spec fn outcome(
    state: OpenAiChatState,
    event: Seq<u8>,
    readings: Seq<ChatReading>,
    strip_usage_chunk: bool,
) -> Yield {
    let usage = reported_usage(state, readings);
    Yield {
        forward: if usage is Some && strip_usage_chunk {
            Seq::empty()
        } else {
            event
        },
        usage,
        token_delta: counting::saturate(content_count(readings)),
    }
}

/// Process one event of the stream.
pub fn process_event(
    state: &mut OpenAiChatState,
    event_bytes: &[u8],
    strip_usage_chunk: bool,
) -> (outcome: EventOutcome)
    ensures
        *final(state) == next_state(*old(state), event_readings(event_bytes@)),
        outcome@ == self::outcome(
            *old(state),
            event_bytes@,
            event_readings(event_bytes@),
            strip_usage_chunk,
        ),
{
    let values = parse_documents(event_bytes, true);
    let mut readings: Vec<ChatReading> = Vec::new();
    for i in 0..values.len()
        invariant
            readings@ == readings_of(json::json_values(values@.take(i as int))),
    {
        let reading = read_document(&values[i]);
        readings.push(reading);
        assert(readings@ =~= readings_of(json::json_values(values@.take(i + 1))));
    }
    assert(values@.take(values@.len() as int) =~= values@);
    process_readings(state, event_bytes, readings.as_slice(), strip_usage_chunk)
}

/// Process one event of the stream, given what was read out of it.
pub fn process_readings(
    state: &mut OpenAiChatState,
    event_bytes: &[u8],
    readings: &[ChatReading],
    strip_usage_chunk: bool,
) -> (outcome: EventOutcome)
    ensures
        *final(state) == next_state(*old(state), readings@),
        outcome@ == self::outcome(*old(state), event_bytes@, readings@, strip_usage_chunk),
{
    let mut usage: Option<ParsedUsage> = None;
    let mut token_delta: u64 = 0;
    for i in 0..readings.len()
        invariant
            *state == next_state(*old(state), readings@.take(i as int)),
            usage == reported_usage(*old(state), readings@.take(i as int)),
            token_delta == counting::saturate(content_count(readings@.take(i as int))),
    {
        let ghost seen = readings@.take(i + 1);
        assert(seen.drop_last() =~= readings@.take(i as int));
        let reading = readings[i];
        // Token delta: count if delta.content is non-empty.
        if reading.has_content {
            token_delta = token_delta.saturating_add(1);
        }
        // Usage extraction: the first document that reports usage.

        if !state.usage_emitted {
            if reading.usage.is_some() {
                state.usage_emitted = true;
                usage = reading.usage;
            }
        }
    }
    assert(readings@.take(readings@.len() as int) =~= readings@);
    // Forward decision: if this event reported usage and usage is
    // stripped, drop the entire event from the forwarded byte stream.
    let mut forward: Vec<u8> = Vec::new();
    if !(usage.is_some() && strip_usage_chunk) {
        forward.extend_from_slice(event_bytes);
        assert(forward@ =~= event_bytes@);
    }
    EventOutcome { forward, usage, token_delta }
}

/// Read one document.
pub fn read_document(value: &serde_json::Value) -> (reading: ChatReading)
    ensures
        reading == reading_of(json::json_value(*value)),
{
    ChatReading {
        has_content: has_content_delta(value),
        usage: if has_no_choices(value) {
            parse_usage(value)
        } else {
            None
        },
    }
}

/// Whether the choices of a document are an empty list.
pub fn has_no_choices(value: &serde_json::Value) -> (empty: bool)
    ensures
        empty == no_choices(json::json_value(*value)),
{
    match json::get(value, "choices") {
        Some(choices) => match choices.as_array() {
            Some(items) => items.len() == 0,
            None => false,
        },
        None => false,
    }
}

/// Whether a document adds content to the completion.
pub fn has_content_delta(value: &serde_json::Value) -> (has_content: bool)
    ensures
        has_content == content_delta(json::json_value(*value)),
{
    match json::get(value, "choices") {
        Some(choices) => match choices.as_array() {
            Some(items) => if items.len() > 0 {
                match json::get(&items[0], "delta") {
                    Some(delta) => match json::get_text(delta, "content") {
                        Some(content) => !content.is_empty(),
                        None => false,
                    },
                    None => false,
                }
            } else {
                false
            },
            None => false,
        },
        None => false,
    }
}

/// The counts of the `usage` object of a document.
pub fn parse_usage(value: &serde_json::Value) -> (usage: Option<ParsedUsage>)
    ensures
        usage == usage_counts(json::json_value(*value)),
{
    let usage = json::get(value, "usage")?.as_object()?;
    let total_tokens = json::get_member_unsigned(usage, "total_tokens")?;
    Some(
        ParsedUsage {
            total_tokens,
            prompt_tokens: json::get_member_unsigned(usage, "prompt_tokens"),
            completion_tokens: json::get_member_unsigned(usage, "completion_tokens"),
            cached_tokens: match json::get_member(usage, "prompt_tokens_details") {
                Some(details) => json::get_unsigned(details, "cached_tokens"),
                None => None,
            },
        },
    )
}

} // verus!
