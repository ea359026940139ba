//! OpenAI Responses (`/v1/responses`) SSE parser.
//!
//! Stream shape:
//! ```text
//! event: response.created
//! data: {"type":"response.created","response":{"id":"resp_..."}}
//!
//! event: response.output_text.delta
//! data: {"type":"response.output_text.delta","delta":"text"}
//!
//! ... many response.output_text.delta events ...
//!
//! event: response.completed
//! data: {"type":"response.completed","response":{...,"usage":{"input_tokens":10,"output_tokens":50,"total_tokens":60}}}
//! ```
//!
//! - Token delta: each `response.output_text.delta` document counts one
//! - Usage: from the first `response.completed` document's `response.usage`
//! - Strip: never (Responses clients always expect to see response.completed)

use vstd::prelude::*;

use crate::counting;
use crate::sse::documents;
use crate::sse::documents::parse_documents;
use crate::sse::extractor::{EventOutcome, ParsedUsage, Yield};
use crate::sse::json;
use crate::sse::json::Json;
use crate::text::same_text;

verus! {

#[derive(Debug, Clone, Copy)]
pub struct ResponsesState {
    pub seen_completed: bool,
    pub final_usage: Option<ParsedUsage>,
}

impl Default for ResponsesState {
    fn default() -> (state: Self)
        ensures
            state == initial_state(),
    {
        ResponsesState { seen_completed: false, final_usage: None }
    }
}

/// The state before the first event.
pub open spec fn initial_state() -> ResponsesState {
    ResponsesState { seen_completed: false, final_usage: None }
}

/// What the parser reads out of one document.
#[derive(Debug, Clone, Copy)]
pub enum ResponsesReading {
    /// `response.output_text.delta`.
    OutputTextDelta,
    /// `response.completed`, with the usage of its response.
    Completed(Option<ParsedUsage>),
    /// Any other document.
    Other,
}

/// The usage that a `response.completed` document carries: the `usage` object of
/// its response. A total that is not given is the sum of the input and output
/// counts, where a count that is not given is zero.
pub open spec fn completed_usage(document: Json) -> Option<ParsedUsage> {
    match document.member("response"@) {
        Some(response) => match response.member("usage"@) {
            Some(usage) => if usage is Object {
                let input = usage.member_unsigned("input_tokens"@);
                let output = usage.member_unsigned("output_tokens"@);
                Some(
                    ParsedUsage {
                        total_tokens: match usage.member_unsigned("total_tokens"@) {
                            Some(total) => total,
                            None => counting::saturate(
                                (input.unwrap_or(0) + output.unwrap_or(0)) as nat,
                            ),
                        },
                        prompt_tokens: input,
                        completion_tokens: output,
                        cached_tokens: match usage.member("input_tokens_details"@) {
                            Some(details) => details.member_unsigned("cached_tokens"@),
                            None => None,
                        },
                    },
                )
            } else {
                None
            },
            None => None,
        },
        None => None,
    }
}

/// What the parser reads out of a document.
pub open spec fn reading_of(document: Json) -> ResponsesReading {
    let kind = document.member_text("type"@);
    if kind == Some("response.output_text.delta"@) {
        ResponsesReading::OutputTextDelta
    } else if kind == Some("response.completed"@) {
        ResponsesReading::Completed(completed_usage(document))
    } else {
        ResponsesReading::Other
    }
}

/// What the parser reads out of each document of a row.
pub open spec fn readings_of(documents: Seq<Json>) -> Seq<ResponsesReading> {
    Seq::new(documents.len(), |i: int| reading_of(documents[i]))
}

/// What the parser reads out of an event.
pub open spec fn event_readings(event: Seq<u8>) -> Seq<ResponsesReading> {
    readings_of(documents::documents(event, false))
}

/// How many of the readings are text deltas.
pub open spec fn delta_count(readings: Seq<ResponsesReading>) -> nat
    decreases readings.len(),
{
    if readings.len() == 0 {
        0
    } else {
        delta_count(readings.drop_last()) + if readings.last() is OutputTextDelta {
            1nat
        } else {
            0nat
        }
    }
}

/// What the first completion among the readings carries; `None` where the
/// response is not completed among them.
pub open spec fn first_completed(readings: Seq<ResponsesReading>) -> Option<Option<ParsedUsage>>
    decreases readings.len(),
{
    if readings.len() == 0 {
        None
    } else {
        match first_completed(readings.drop_last()) {
            Some(usage) => Some(usage),
            None => match readings.last() {
                ResponsesReading::Completed(usage) => Some(usage),
                _ => None,
            },
        }
    }
}

/// The usage that an event with these readings reports: what the first
/// completion of the stream carries.
pub open spec fn reported_usage(
    state: ResponsesState,
    readings: Seq<ResponsesReading>,
) -> Option<ParsedUsage> {
    match first_completed(readings) {
        Some(usage) => if state.seen_completed {
            None
        } else {
            usage
        },
        None => None,
    }
}

/// The state after an event with these readings.
pub open spec fn next_state(
    state: ResponsesState,
    readings: Seq<ResponsesReading>,
) -> ResponsesState {
    ResponsesState {
        seen_completed: state.seen_completed || first_completed(readings) is Some,
        final_usage: match reported_usage(state, readings) {
            Some(usage) => Some(usage),
            None => state.final_usage,
        },
    }
}

/// What an event with these readings yields.
pub open spec fn outcome(
    state: ResponsesState,
    event: Seq<u8>,
    readings: Seq<ResponsesReading>,
) -> Yield {
    Yield {
        forward: event,
        usage: reported_usage(state, readings),
        token_delta: counting::saturate(delta_count(readings)),
    }
}

/// Process one event of the stream.
pub fn process_event(state: &mut ResponsesState, event_bytes: &[u8]) -> (outcome: EventOutcome)
    ensures
        *final(state) == next_state(*old(state), event_readings(event_bytes@)),
        outcome@ == self::outcome(*old(state), event_bytes@, event_readings(event_bytes@)),
{
    let values = parse_documents(event_bytes, false);
    let mut readings: Vec<ResponsesReading> = Vec::new();
    for i in 0..values.len()
        invariant
            readings@ == readings_of(json::json_values(values@.take(i as int))),
    {
        let reading = read_document(&values[i]);
        readings.push(reading);
        assert(readings@ =~= readings_of(json::json_values(values@.take(i + 1))));
    }
    assert(values@.take(values@.len() as int) =~= values@);
    process_readings(state, event_bytes, readings.as_slice())
}

/// Process one event of the stream, given what was read out of it.
pub fn process_readings(
    state: &mut ResponsesState,
    event_bytes: &[u8],
    readings: &[ResponsesReading],
) -> (outcome: EventOutcome)
    ensures
        *final(state) == next_state(*old(state), readings@),
        outcome@ == self::outcome(*old(state), event_bytes@, readings@),
{
    let mut forward: Vec<u8> = Vec::new();
    forward.extend_from_slice(event_bytes);
    assert(forward@ =~= event_bytes@);

    let mut usage: Option<ParsedUsage> = None;
    let mut token_delta: u64 = 0;
    for i in 0..readings.len()
        invariant
            *state == next_state(*old(state), readings@.take(i as int)),
            usage == reported_usage(*old(state), readings@.take(i as int)),
            token_delta == counting::saturate(delta_count(readings@.take(i as int))),
    {
        let ghost seen = readings@.take(i + 1);
        assert(seen.drop_last() =~= readings@.take(i as int));
        match readings[i] {
            ResponsesReading::OutputTextDelta => {
                token_delta = token_delta.saturating_add(1);
            },
            ResponsesReading::Completed(carried) => {
                if !state.seen_completed {
                    state.seen_completed = true;
                    if carried.is_some() {
                        state.final_usage = carried;
                        usage = carried;
                    }
                }
            },
            ResponsesReading::Other => {},
        }
    }
    assert(readings@.take(readings@.len() as int) =~= readings@);
    EventOutcome { forward, usage, token_delta }
}

/// Read one document.
pub fn read_document(value: &serde_json::Value) -> (reading: ResponsesReading)
    ensures
        reading == reading_of(json::json_value(*value)),
{
    let kind = match json::get_text(value, "type") {
        Some(kind) => kind,
        None => {
            return ResponsesReading::Other;
        },
    };
    if same_text(kind, "response.output_text.delta") {
        ResponsesReading::OutputTextDelta
    } else if same_text(kind, "response.completed") {
        ResponsesReading::Completed(parse_completed(value))
    } else {
        ResponsesReading::Other
    }
}

/// The usage that a `response.completed` document carries.
pub fn parse_completed(value: &serde_json::Value) -> (usage: Option<ParsedUsage>)
    ensures
        usage == completed_usage(json::json_value(*value)),
{
    let response = json::get(value, "response")?;
    let usage = json::get(response, "usage")?.as_object()?;
    let input = json::get_member_unsigned(usage, "input_tokens");
    let output = json::get_member_unsigned(usage, "output_tokens");
    let total_tokens: u64 = match json::get_member_unsigned(usage, "total_tokens") {
        Some(total) => total,
        None => input.unwrap_or(0).saturating_add(output.unwrap_or(0)),
    };
    Some(
        ParsedUsage {
            total_tokens,
            prompt_tokens: input,
            completion_tokens: output,
            cached_tokens: match json::get_member(usage, "input_tokens_details") {
                Some(details) => json::get_unsigned(details, "cached_tokens"),
                None => None,
            },
        },
    )
}

/// The usage at the end of a stream that did not report it.
pub fn finalize(state: &ResponsesState) -> (usage: Option<ParsedUsage>)
    ensures
        usage == state.final_usage,
{
    state.final_usage
}

} // verus!
