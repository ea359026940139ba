//! Anthropic Messages (`/v1/messages`) SSE parser.
//!
//! Stream shape:
//! ```text
//! event: message_start
//! data: {"type":"message_start","message":{"id":"...","usage":{"input_tokens":25,"cache_read_input_tokens":10}}}
//!
//! event: content_block_delta
//! data: {"type":"content_block_delta","index":0,"delta":{"type":"text_delta","text":"Hello"}}
//!
//! event: message_delta
//! data: {"type":"message_delta","delta":{"stop_reason":"end_turn"},"usage":{"output_tokens":15}}
//!
//! event: message_stop
//! data: {"type":"message_stop"}
//! ```
//!
//! - Token delta: `message_delta` gives a cumulative `output_tokens`; the delta is
//!   what it adds to the count reported so far
//! - Usage: `input_tokens` of `message_start` and the last `output_tokens`
//! - `cache_read_input_tokens`: from `message_start`
//! - Strip: never (Anthropic clients always expect to see usage events)

use vstd::prelude::*;

use crate::counting;
use crate::sse::documents;
use crate::sse::documents::parse_documents;
use crate::sse::extractor::{EventOutcome, ParsedUsage, Yield};
use crate::sse::json;
use crate::sse::json::Json;
use crate::text::same_text;

verus! {

#[derive(Debug, Clone, Copy)]
pub struct AnthropicState {
    pub input_tokens: Option<u64>,
    pub cache_read_input_tokens: Option<u64>,
    pub output_tokens_cumulative: u64,
    pub last_reported_output_tokens: u64,
    pub seen_message_stop: bool,
}

impl Default for AnthropicState {
    fn default() -> (state: Self)
        ensures
            state == initial_state(),
    {
        AnthropicState {
            input_tokens: None,
            cache_read_input_tokens: None,
            output_tokens_cumulative: 0,
            last_reported_output_tokens: 0,
            seen_message_stop: false,
        }
    }
}

/// The state before the first event.
pub open spec fn initial_state() -> AnthropicState {
    AnthropicState {
        input_tokens: None,
        cache_read_input_tokens: None,
        output_tokens_cumulative: 0,
        last_reported_output_tokens: 0,
        seen_message_stop: false,
    }
}

/// The counts in the usage of a `message_start`.
#[derive(Debug, Clone, Copy)]
pub struct StartUsage {
    pub input_tokens: Option<u64>,
    pub cache_read_input_tokens: Option<u64>,
    pub output_tokens: Option<u64>,
}

/// What the parser reads out of one document.
#[derive(Debug, Clone, Copy)]
pub enum AnthropicReading {
    /// `message_start`, with the usage of its message.
    MessageStart(Option<StartUsage>),
    /// `message_delta`, with the cumulative output count of its usage.
    MessageDelta(Option<u64>),
    /// `message_stop`.
    MessageStop,
    /// Any other document.
    Other,
}

/// What the parser reads out of a document.
pub open spec fn reading_of(document: Json) -> AnthropicReading {
    let kind = document.member_text("type"@);
    if kind == Some("message_start"@) {
        AnthropicReading::MessageStart(
            match document.member("message"@) {
                Some(message) => match message.member("usage"@) {
                    Some(usage) => Some(
                        StartUsage {
                            input_tokens: usage.member_unsigned("input_tokens"@),
                            cache_read_input_tokens: usage.member_unsigned(
                                "cache_read_input_tokens"@,
                            ),
                            output_tokens: usage.member_unsigned("output_tokens"@),
                        },
                    ),
                    None => None,
                },
                None => None,
            },
        )
    } else if kind == Some("message_delta"@) {
        AnthropicReading::MessageDelta(
            match document.member("usage"@) {
                Some(usage) => usage.member_unsigned("output_tokens"@),
                None => None,
            },
        )
    } else if kind == Some("message_stop"@) {
        AnthropicReading::MessageStop
    } else {
        AnthropicReading::Other
    }
}

/// What the parser reads out of each document of a row.
pub open spec fn readings_of(documents: Seq<Json>) -> Seq<AnthropicReading> {
    Seq::new(documents.len(), |i: int| reading_of(documents[i]))
}

/// What the parser reads out of an event.
pub open spec fn event_readings(event: Seq<u8>) -> Seq<AnthropicReading> {
    readings_of(documents::documents(event, false))
}

/// The state after one reading.
pub open spec fn step(state: AnthropicState, reading: AnthropicReading) -> AnthropicState {
    match reading {
        AnthropicReading::MessageStart(Some(usage)) => AnthropicState {
            input_tokens: usage.input_tokens,
            cache_read_input_tokens: usage.cache_read_input_tokens,
            output_tokens_cumulative: match usage.output_tokens {
                Some(out) => out,
                None => state.output_tokens_cumulative,
            },
            ..state
        },
        AnthropicReading::MessageDelta(Some(out)) => AnthropicState {
            output_tokens_cumulative: out,
            last_reported_output_tokens: if out > state.last_reported_output_tokens {
                out
            } else {
                state.last_reported_output_tokens
            },
            ..state
        },
        AnthropicReading::MessageStop => AnthropicState { seen_message_stop: true, ..state },
        _ => state,
    }
}

/// The state after a row of readings.
pub open spec fn next_state(
    state: AnthropicState,
    readings: Seq<AnthropicReading>,
) -> AnthropicState
    decreases readings.len(),
{
    if readings.len() == 0 {
        state
    } else {
        step(next_state(state, readings.drop_last()), readings.last())
    }
}

/// The usage that a state amounts to, once the input count is known.
pub open spec fn state_usage(state: AnthropicState) -> Option<ParsedUsage> {
    match state.input_tokens {
        Some(input) => Some(
            ParsedUsage {
                total_tokens: counting::saturate(
                    (input + state.output_tokens_cumulative) as nat,
                ),
                prompt_tokens: Some(input),
                completion_tokens: Some(state.output_tokens_cumulative),
                cached_tokens: state.cache_read_input_tokens,
            },
        ),
        None => None,
    }
}

/// What an event with these readings yields: the event itself, the usage so far
/// once the message has stopped, and what the event adds to the output count
/// that was reported.
pub open spec fn outcome(
    state: AnthropicState,
    event: Seq<u8>,
    readings: Seq<AnthropicReading>,
) -> Yield {
    let next = next_state(state, readings);
    Yield {
        forward: event,
        usage: if next.seen_message_stop {
            state_usage(next)
        } else {
            None
        },
        token_delta: (next.last_reported_output_tokens - state.last_reported_output_tokens) as u64,
    }
}

/// The reported output count never falls.
pub proof fn lemma_reported_grows(state: AnthropicState, readings: Seq<AnthropicReading>)
    ensures
        next_state(state, readings).last_reported_output_tokens
            >= state.last_reported_output_tokens,
    decreases readings.len(),
{
    if readings.len() > 0 {
        lemma_reported_grows(state, readings.drop_last());
    }
}

/// Process one event of the stream.
pub fn process_event(state: &mut AnthropicState, event_bytes: &[u8]) -> (outcome: EventOutcome)
    ensures
        *final(state) == next_state(*old(state), event_readings(event_bytes@)),
        outcome@ == self::outcome(*old(state), event_bytes@, event_readings(event_bytes@)),
{
    let values = parse_documents(event_bytes, false);
    let mut readings: Vec<AnthropicReading> = Vec::new();
    for i in 0..values.len()
        invariant
            readings@ == readings_of(json::json_values(values@.take(i as int))),
    {
        let reading = read_document(&values[i]);
        readings.push(reading);
        assert(readings@ =~= readings_of(json::json_values(values@.take(i + 1))));
    }
    assert(values@.take(values@.len() as int) =~= values@);
    process_readings(state, event_bytes, readings.as_slice())
}

/// Process one event of the stream, given what was read out of it.
pub fn process_readings(
    state: &mut AnthropicState,
    event_bytes: &[u8],
    readings: &[AnthropicReading],
) -> (outcome: EventOutcome)
    ensures
        *final(state) == next_state(*old(state), readings@),
        outcome@ == self::outcome(*old(state), event_bytes@, readings@),
{
    // Anthropic never strips: pass through verbatim.
    let mut forward: Vec<u8> = Vec::new();
    forward.extend_from_slice(event_bytes);
    assert(forward@ =~= event_bytes@);

    let mut token_delta: u64 = 0;
    for i in 0..readings.len()
        invariant
            *state == next_state(*old(state), readings@.take(i as int)),
            token_delta == state.last_reported_output_tokens - old(
                state,
            ).last_reported_output_tokens,
    {
        let ghost seen = readings@.take(i + 1);
        assert(seen.drop_last() =~= readings@.take(i as int));
        match readings[i] {
            AnthropicReading::MessageStart(Some(usage)) => {
                state.input_tokens = usage.input_tokens;
                state.cache_read_input_tokens = usage.cache_read_input_tokens;
                if let Some(out) = usage.output_tokens {
                    state.output_tokens_cumulative = out;
                }
            },
            AnthropicReading::MessageDelta(Some(out)) => {
                state.output_tokens_cumulative = out;
                let delta = state.output_tokens_cumulative.saturating_sub(
                    state.last_reported_output_tokens,
                );
                if delta > 0 {
                    token_delta = token_delta.saturating_add(delta);
                    state.last_reported_output_tokens = state.output_tokens_cumulative;
                }
            },
            AnthropicReading::MessageStop => {
                state.seen_message_stop = true;
            },
            _ => {},
        }
    }
    assert(readings@.take(readings@.len() as int) =~= readings@);
    // After message_stop, finalize usage.
    let usage = if state.seen_message_stop {
        build_usage(state)
    } else {
        None
    };
    EventOutcome { forward, usage, token_delta }
}

/// Read one document.
pub fn read_document(value: &serde_json::Value) -> (reading: AnthropicReading)
    ensures
        reading == reading_of(json::json_value(*value)),
{
    let kind = match json::get_text(value, "type") {
        Some(kind) => kind,
        None => {
            return AnthropicReading::Other;
        },
    };
    if same_text(kind, "message_start") {
        let usage = match json::get(value, "message") {
            Some(message) => json::get(message, "usage"),
            None => None,
        };
        AnthropicReading::MessageStart(
            match usage {
                Some(usage) => Some(
                    StartUsage {
                        input_tokens: json::get_unsigned(usage, "input_tokens"),
                        cache_read_input_tokens: json::get_unsigned(
                            usage,
                            "cache_read_input_tokens",
                        ),
                        output_tokens: json::get_unsigned(usage, "output_tokens"),
                    },
                ),
                None => None,
            },
        )
    } else if same_text(kind, "message_delta") {
        AnthropicReading::MessageDelta(
            match json::get(value, "usage") {
                Some(usage) => json::get_unsigned(usage, "output_tokens"),
                None => None,
            },
        )
    } else if same_text(kind, "message_stop") {
        AnthropicReading::MessageStop
    } else {
        AnthropicReading::Other
    }
}

/// The usage at the end of a stream that did not report it.
pub fn finalize(state: &AnthropicState) -> (usage: Option<ParsedUsage>)
    ensures
        usage == state_usage(*state),
{
    build_usage(state)
}

/// The usage that a state amounts to, once the input count is known.
pub fn build_usage(state: &AnthropicState) -> (usage: Option<ParsedUsage>)
    ensures
        usage == state_usage(*state),
{
    let input = state.input_tokens?;
    let output = state.output_tokens_cumulative;
    Some(
        ParsedUsage {
            total_tokens: input.saturating_add(output),
            prompt_tokens: Some(input),
            completion_tokens: Some(output),
            cached_tokens: state.cache_read_input_tokens,
        },
    )
}

} // verus!
