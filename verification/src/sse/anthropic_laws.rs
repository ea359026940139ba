//! What an Anthropic Messages stream comes to, document by document.

use vstd::prelude::*;

use crate::sse::anthropic;
use crate::sse::anthropic::{AnthropicReading, AnthropicState};
use crate::sse::documents;
use crate::sse::extractor;
use crate::sse::extractor::{Machine, ProtocolState};
use crate::sse::framing_laws;
use crate::sse::json::Json;
use crate::sse::laws;

verus! {

/// The three types that the parser knows are three different texts.
proof fn lemma_types_differ()
    ensures
        "message_start"@ != "message_delta"@,
        "message_start"@ != "message_stop"@,
        "message_delta"@ != "message_stop"@,
{
    reveal_strlit("message_start");
    reveal_strlit("message_delta");
    reveal_strlit("message_stop");
    assert("message_start"@[8] != "message_delta"@[8]);
    assert("message_start"@.len() == 13 && "message_delta"@.len() == 13);
    assert("message_stop"@.len() == 12);
}

/// A document of type `message_start` gives the counts of its message's usage,
/// each the number under its own key.
pub proof fn law_start_read(document: Map<Seq<char>, Json>)
    requires
        document.contains_key("type"@) && document["type"@] == Json::Text("message_start"@),
    ensures
        match anthropic::reading_of(Json::Object(document)) {
            AnthropicReading::MessageStart(None) => !({
                &&& document.contains_key("message"@)
                &&& document["message"@] matches Json::Object(message)
                &&& message.contains_key("usage"@)
            }),
            AnthropicReading::MessageStart(Some(counts)) => {
                &&& document.contains_key("message"@)
                &&& document["message"@] matches Json::Object(message)
                &&& message.contains_key("usage"@)
                &&& match message["usage"@] {
                    Json::Object(usage) => {
                        &&& counts.input_tokens == (if usage.contains_key("input_tokens"@) {
                            match usage["input_tokens"@] {
                                Json::Number(n) => n,
                                _ => None,
                            }
                        } else {
                            None
                        })
                        &&& counts.cache_read_input_tokens == (if usage.contains_key("cache_read_input_tokens"@) {
                            match usage["cache_read_input_tokens"@] {
                                Json::Number(n) => n,
                                _ => None,
                            }
                        } else {
                            None
                        })
                        &&& counts.output_tokens == (if usage.contains_key("output_tokens"@) {
                            match usage["output_tokens"@] {
                                Json::Number(n) => n,
                                _ => None,
                            }
                        } else {
                            None
                        })
                    },
                    _ => counts.input_tokens is None && counts.cache_read_input_tokens is None
                        && counts.output_tokens is None,
                }
            },
            _ => false,
        },
{
    lemma_types_differ();
}

/// A document of type `message_delta` gives the output count of its usage, as it
/// stands there.
pub proof fn law_delta_read(document: Map<Seq<char>, Json>)
    requires
        document.contains_key("type"@) && document["type"@] == Json::Text("message_delta"@),
    ensures
        anthropic::reading_of(Json::Object(document)) == AnthropicReading::MessageDelta(
            (if document.contains_key("usage"@) {
                match document["usage"@] {
                    Json::Object(usage) => if usage.contains_key("output_tokens"@) {
                        match usage["output_tokens"@] {
                            Json::Number(n) => n,
                            _ => None,
                        }
                    } else {
                        None
                    },
                    _ => None,
                }
            } else {
                None
            }),
        ),
{
    lemma_types_differ();
}

/// A document of type `message_stop` ends the message.
pub proof fn law_stop_read(document: Map<Seq<char>, Json>)
    requires
        document.contains_key("type"@) && document["type"@] == Json::Text("message_stop"@),
    ensures
        anthropic::reading_of(Json::Object(document)) == AnthropicReading::MessageStop,
{
    lemma_types_differ();
}

/// A document of any other type, or of none, says nothing.
pub proof fn law_other_read(document: Json)
    requires
        match document {
                Json::Object(members) => !(members.contains_key("type"@) && (members["type"@]
                    == Json::Text("message_start"@) || members["type"@] == Json::Text(
                    "message_delta"@,
                ) || members["type"@] == Json::Text("message_stop"@))),
                _ => true,
            },
    ensures
        anthropic::reading_of(document) == AnthropicReading::Other,
{
}

/// Every document of an event is read, in order.
pub proof fn law_every_document_read(event: Seq<u8>)
    ensures
        anthropic::event_readings(event).len() == documents::documents(event, false).len(),
        forall|i: int|
            0 <= i < anthropic::event_readings(event).len()
                ==> #[trigger] anthropic::event_readings(event)[i] == anthropic::reading_of(
                documents::documents(event, false)[i],
            ),
{
}

/// Readings act on the state in turn. A start gives the input counts and may give
/// an output count; a delta gives the output count so far, and the count that was
/// reported rises to it or stays; a stop ends the message; nothing else changes
/// anything.
pub proof fn law_readings_in_turn(
    state: AnthropicState,
    readings: Seq<AnthropicReading>,
    reading: AnthropicReading,
)
    ensures
        anthropic::next_state(state, Seq::empty()) == state,
        ({
            let before = anthropic::next_state(state, readings);
            let after = anthropic::next_state(state, readings.push(reading));
            match reading {
                AnthropicReading::MessageStart(Some(usage)) => {
                    &&& after.input_tokens == usage.input_tokens
                    &&& after.cache_read_input_tokens == usage.cache_read_input_tokens
                    &&& usage.output_tokens is Some ==> after.output_tokens_cumulative
                        == usage.output_tokens->0
                    &&& usage.output_tokens is None ==> after.output_tokens_cumulative
                        == before.output_tokens_cumulative
                    &&& after.last_reported_output_tokens == before.last_reported_output_tokens
                    &&& after.seen_message_stop == before.seen_message_stop
                },
                AnthropicReading::MessageDelta(Some(output)) => {
                    &&& after.output_tokens_cumulative == output
                    &&& output >= before.last_reported_output_tokens
                        ==> after.last_reported_output_tokens == output
                    &&& output < before.last_reported_output_tokens
                        ==> after.last_reported_output_tokens == before.last_reported_output_tokens
                    &&& after.input_tokens == before.input_tokens
                    &&& after.cache_read_input_tokens == before.cache_read_input_tokens
                    &&& after.seen_message_stop == before.seen_message_stop
                },
                AnthropicReading::MessageStop => {
                    &&& after.seen_message_stop
                    &&& after.input_tokens == before.input_tokens
                    &&& after.cache_read_input_tokens == before.cache_read_input_tokens
                    &&& after.output_tokens_cumulative == before.output_tokens_cumulative
                    &&& after.last_reported_output_tokens == before.last_reported_output_tokens
                },
                _ => after == before,
            }
        }),
{
    assert(readings.push(reading).drop_last() =~= readings);
}

/// The usage of a state is its input count, its output count, and their sum up to
/// the largest number. Without an input count there is none.
pub proof fn law_state_usage(state: AnthropicState)
    ensures
        match state.input_tokens {
            None => anthropic::state_usage(state) is None,
            Some(input) => anthropic::state_usage(state) matches Some(usage) && {
                &&& usage.prompt_tokens == Some(input)
                &&& usage.completion_tokens == Some(state.output_tokens_cumulative)
                &&& usage.cached_tokens == state.cache_read_input_tokens
                &&& input + state.output_tokens_cumulative <= u64::MAX ==> usage.total_tokens
                    == input + state.output_tokens_cumulative
                &&& input + state.output_tokens_cumulative > u64::MAX ==> usage.total_tokens
                    == u64::MAX
            },
        },
{
}

/// An event is forwarded whole. It reports the usage of the state that it leads
/// to once the message has stopped, and not before. Its tokens are what it adds
/// to the output count that was reported.
pub proof fn law_event_outcome(
    state: AnthropicState,
    event: Seq<u8>,
    readings: Seq<AnthropicReading>,
)
    ensures
        ({
            let next = anthropic::next_state(state, readings);
            let outcome = anthropic::outcome(state, event, readings);
            &&& outcome.forward == event
            &&& !next.seen_message_stop ==> outcome.usage is None
            &&& next.seen_message_stop ==> outcome.usage == anthropic::state_usage(next)
            &&& state.last_reported_output_tokens + outcome.token_delta
                == next.last_reported_output_tokens
        }),
{
    anthropic::lemma_reported_grows(state, readings);
}

/// The message has stopped only where some reading was a stop.
proof fn lemma_stop_needs_stop(state: AnthropicState, readings: Seq<AnthropicReading>)
    requires
        !state.seen_message_stop,
        forall|i: int| 0 <= i < readings.len() ==> !(#[trigger] readings[i] is MessageStop),
    ensures
        !anthropic::next_state(state, readings).seen_message_stop,
    decreases readings.len(),
{
    if readings.len() > 0 {
        lemma_stop_needs_stop(state, readings.drop_last());
        assert(!(readings[readings.len() - 1] is MessageStop));
    }
}

/// No usage is reported before a document of type `message_stop` has been read.
pub proof fn law_no_usage_before_stop(m: Machine, events: Seq<Seq<u8>>)
    requires
        m.state matches ProtocolState::AnthropicMessages(s) && !s.seen_message_stop,
        forall|i: int, j: int|
            0 <= i < events.len() && 0 <= j < documents::documents(events[i], false).len()
                ==> match #[trigger] documents::documents(events[i], false)[j] {
                Json::Object(members) => !(members.contains_key("type"@) && members["type"@]
                    == Json::Text("message_stop"@)),
                _ => true,
            },
    ensures
        m.events_yield(events).usage is None,
        m.after_events(events).state matches ProtocolState::AnthropicMessages(s)
            && !s.seen_message_stop,
        m.after_events(events).usage_extracted == m.usage_extracted,
    decreases events.len(),
{
    if events.len() > 0 {
        let before = events.drop_last();
        let last = events[events.len() - 1];
        assert forall|i: int, j: int|
            0 <= i < before.len() && 0 <= j < documents::documents(
                before[i],
                false,
            ).len() implies match #[trigger] documents::documents(before[i], false)[j] {
            Json::Object(members) => !(members.contains_key("type"@) && members["type"@]
                == Json::Text("message_stop"@)),
            _ => true,
        } by {
            assert(before[i] == events[i]);
        }
        law_no_usage_before_stop(m, before);
        let readings = anthropic::event_readings(last);
        assert forall|j: int| 0 <= j < readings.len() implies !(#[trigger] readings[j]
            is MessageStop) by {
            let document = documents::documents(events[events.len() - 1], false)[j];
            assert(readings[j] == anthropic::reading_of(document));
        }
        match m.after_events(before).state {
            ProtocolState::AnthropicMessages(s) => {
                lemma_stop_needs_stop(s, readings);
            },
            _ => {},
        }
    }
}

/// Readings that say nothing change nothing.
proof fn lemma_others_change_nothing(state: AnthropicState, readings: Seq<AnthropicReading>)
    requires
        forall|i: int| 0 <= i < readings.len() ==> #[trigger] readings[i] is Other,
    ensures
        anthropic::next_state(state, readings) == state,
    decreases readings.len(),
{
    if readings.len() > 0 {
        lemma_others_change_nothing(state, readings.drop_last());
        assert(readings[readings.len() - 1] is Other);
    }
}

/// Documents of other types leave everything as it is and yield neither usage nor
/// tokens, as long as the message has not stopped.
pub proof fn law_others_change_nothing(m: Machine, events: Seq<Seq<u8>>)
    requires
        m.state matches ProtocolState::AnthropicMessages(s) && !s.seen_message_stop,
        forall|i: int, j: int|
            0 <= i < events.len() && 0 <= j < documents::documents(events[i], false).len()
                ==> match #[trigger] documents::documents(events[i], false)[j] {
                Json::Object(members) => !(members.contains_key("type"@) && (members["type"@]
                    == Json::Text("message_start"@) || members["type"@] == Json::Text(
                    "message_delta"@,
                ) || members["type"@] == Json::Text("message_stop"@))),
                _ => true,
            },
    ensures
        m.after_events(events) == m,
        m.events_yield(events).usage is None,
        m.events_yield(events).token_delta == 0,
        m.events_yield(events).forward == events.flatten(),
    decreases events.len(),
{
    if events.len() > 0 {
        let before = events.drop_last();
        let last = events[events.len() - 1];
        assert forall|i: int, j: int|
            0 <= i < before.len() && 0 <= j < documents::documents(
                before[i],
                false,
            ).len() implies match #[trigger] documents::documents(before[i], false)[j] {
                Json::Object(members) => !(members.contains_key("type"@) && (members["type"@]
                    == Json::Text("message_start"@) || members["type"@] == Json::Text(
                    "message_delta"@,
                ) || members["type"@] == Json::Text("message_stop"@))),
                _ => true,
            } by {
            assert(before[i] == events[i]);
        }
        law_others_change_nothing(m, before);
        let readings = anthropic::event_readings(last);
        assert forall|j: int| 0 <= j < readings.len() implies #[trigger] readings[j] is Other by {
            let document = documents::documents(events[events.len() - 1], false)[j];
            assert(readings[j] == anthropic::reading_of(document));
        }
        match m.state {
            ProtocolState::AnthropicMessages(s) => {
                lemma_others_change_nothing(s, readings);
            },
            _ => {},
        }
        assert(before.push(events.last()) =~= events);
        before.lemma_flatten_push(events.last());
    }
}

/// A row of one event acts as that event.
proof fn lemma_one_event(m: Machine, event: Seq<u8>)
    ensures
        m.after_events(seq![event]) == m.after_event(event),
        m.events_yield(seq![event]).usage == m.event_yield(event).usage,
        m.events_yield(seq![event]).token_delta == m.event_yield(event).token_delta,
{
    let none = Seq::<Seq<u8>>::empty();
    assert(seq![event].drop_last() =~= none);
    assert(m.after_events(none) == m && m.events_yield(none) == extractor::nothing());
}

/// An event with one document has one reading.
proof fn lemma_one_reading(state: AnthropicState, event: Seq<u8>, document: Json)
    requires
        documents::documents(event, false) == seq![document],
    ensures
        anthropic::next_state(state, anthropic::event_readings(event)) == anthropic::step(
            state,
            anthropic::reading_of(document),
        ),
{
    let readings = anthropic::event_readings(event);
    assert(readings =~= seq![anthropic::reading_of(document)]);
    assert(readings.drop_last() =~= Seq::<AnthropicReading>::empty());
    assert(anthropic::next_state(state, Seq::<AnthropicReading>::empty()) == state);
}

/// A message is reported as it was counted: a start with an input count, any
/// documents of other types, a delta with an output count, any documents of other
/// types, and a stop. The one usage that is reported is made of those two counts,
/// their sum, and the cached count of the start; it comes with the stop, and the
/// tokens are what the output count adds to what was reported before.
pub proof fn law_message_reported(
    m: Machine,
    start_event: Seq<u8>,
    between: Seq<Seq<u8>>,
    delta_event: Seq<u8>,
    behind: Seq<Seq<u8>>,
    stop_event: Seq<u8>,
    start: Map<Seq<char>, Json>,
    message: Map<Seq<char>, Json>,
    start_usage: Map<Seq<char>, Json>,
    input: u64,
    cached: u64,
    delta: Map<Seq<char>, Json>,
    delta_usage: Map<Seq<char>, Json>,
    output: u64,
    stop: Map<Seq<char>, Json>,
)
    requires
        !m.usage_extracted,
        m.state matches ProtocolState::AnthropicMessages(s) && !s.seen_message_stop
            && s.last_reported_output_tokens <= output,
        documents::documents(start_event, false) == seq![Json::Object(start)],
        start.contains_key("type"@) && start["type"@] == Json::Text("message_start"@),
        start.contains_key("message"@) && start["message"@] == Json::Object(message),
        message.contains_key("usage"@) && message["usage"@] == Json::Object(start_usage),
        start_usage.contains_key("input_tokens"@) && start_usage["input_tokens"@] == Json::Number(
            Some(input),
        ),
        start_usage.contains_key("cache_read_input_tokens"@)
            && start_usage["cache_read_input_tokens"@] == Json::Number(Some(cached)),
        documents::documents(delta_event, false) == seq![Json::Object(delta)],
        delta.contains_key("type"@) && delta["type"@] == Json::Text("message_delta"@),
        delta.contains_key("usage"@) && delta["usage"@] == Json::Object(delta_usage),
        delta_usage.contains_key("output_tokens"@) && delta_usage["output_tokens"@]
            == Json::Number(Some(output)),
        documents::documents(stop_event, false) == seq![Json::Object(stop)],
        stop.contains_key("type"@) && stop["type"@] == Json::Text("message_stop"@),
        forall|i: int, j: int|
            0 <= i < between.len() && 0 <= j < documents::documents(between[i], false).len()
                ==> match #[trigger] documents::documents(between[i], false)[j] {
                Json::Object(members) => !(members.contains_key("type"@) && (members["type"@]
                    == Json::Text("message_start"@) || members["type"@] == Json::Text(
                    "message_delta"@,
                ) || members["type"@] == Json::Text("message_stop"@))),
                _ => true,
            },
        forall|i: int, j: int|
            0 <= i < behind.len() && 0 <= j < documents::documents(behind[i], false).len()
                ==> match #[trigger] documents::documents(behind[i], false)[j] {
                Json::Object(members) => !(members.contains_key("type"@) && (members["type"@]
                    == Json::Text("message_start"@) || members["type"@] == Json::Text(
                    "message_delta"@,
                ) || members["type"@] == Json::Text("message_stop"@))),
                _ => true,
            },
    ensures
        ({
            let before_stop = seq![start_event] + between + seq![delta_event] + behind;
            let all = m.events_yield(before_stop + seq![stop_event]);
            &&& m.events_yield(before_stop).usage is None
            &&& all.usage matches Some(usage) && {
                &&& usage.prompt_tokens == Some(input)
                &&& usage.completion_tokens == Some(output)
                &&& usage.cached_tokens == Some(cached)
                &&& input + output <= u64::MAX ==> usage.total_tokens == input + output
                &&& input + output > u64::MAX ==> usage.total_tokens == u64::MAX
            }
            &&& m.state matches ProtocolState::AnthropicMessages(s) && all.token_delta
                + s.last_reported_output_tokens == output
        }),
{
    lemma_types_differ();
    match m.state {
        ProtocolState::AnthropicMessages(s) => {
            let a = seq![start_event];
            let b = a + between;
            let c = b + seq![delta_event];
            let d = c + behind;
            // The start.
            lemma_one_event(m, start_event);
            lemma_one_reading(s, start_event, Json::Object(start));
            let m1 = m.after_events(a);
            // Other documents.
            laws::lemma_events_in_turn(m, a, between);
            law_others_change_nothing(m1, between);
            // The delta.
            laws::lemma_events_in_turn(m, b, seq![delta_event]);
            lemma_one_event(m1, delta_event);
            match m1.state {
                ProtocolState::AnthropicMessages(s1) => {
                    lemma_one_reading(s1, delta_event, Json::Object(delta));
                },
                _ => {},
            }
            let m2 = m.after_events(c);
            // Other documents.
            laws::lemma_events_in_turn(m, c, behind);
            law_others_change_nothing(m2, behind);
            // The stop.
            laws::lemma_events_in_turn(m, d, seq![stop_event]);
            lemma_one_event(m2, stop_event);
            match m2.state {
                ProtocolState::AnthropicMessages(s2) => {
                    lemma_one_reading(s2, stop_event, Json::Object(stop));
                },
                _ => {},
            }
        },
        _ => {},
    }
}

/// Two rows of readings act one after the other.
proof fn lemma_readings_join(
    state: AnthropicState,
    a: Seq<AnthropicReading>,
    b: Seq<AnthropicReading>,
)
    ensures
        anthropic::next_state(state, a + b) == anthropic::next_state(
            anthropic::next_state(state, a),
            b,
        ),
    decreases b.len(),
{
    if b.len() == 0 {
        assert(a + b =~= a);
    } else {
        assert((a + b).drop_last() =~= a + b.drop_last());
        lemma_readings_join(state, a, b.drop_last());
    }
}

/// The lines of an event act on the parser one after the other.
pub proof fn law_lines_in_turn(state: ProtocolState, line: Seq<u8>, rest: Seq<u8>)
    requires
        state is AnthropicMessages,
        forall|i: int| 0 <= i < line.len() ==> line[i] != 0x0a,
    ensures
        extractor::protocol_next(state, line.push(0x0a) + rest) == extractor::protocol_next(
            extractor::protocol_next(state, line),
            rest,
        ),
{
    framing_laws::law_documents_line_by_line(line, rest, false);
    let a = anthropic::event_readings(line);
    let b = anthropic::event_readings(rest);
    assert(anthropic::event_readings(line.push(0x0a) + rest) =~= a + b);
    match state {
        ProtocolState::AnthropicMessages(s) => {
            lemma_readings_join(s, a, b);
        },
        _ => {},
    }
}

/// A message that breaks off is reported when the stream ends, with the counts so
/// far. Without an input count nothing is reported.
pub proof fn law_flush_reports(m: Machine)
    requires
        m.state is AnthropicMessages,
    ensures
        m.state matches ProtocolState::AnthropicMessages(s) && match (
            s.input_tokens,
            m.usage_extracted,
        ) {
            (Some(input), false) => m.flush_yield(Seq::empty()).usage matches Some(usage) && {
                &&& usage.prompt_tokens == Some(input)
                &&& usage.completion_tokens == Some(s.output_tokens_cumulative)
                &&& usage.cached_tokens == s.cache_read_input_tokens
                &&& input + s.output_tokens_cumulative <= u64::MAX ==> usage.total_tokens == input
                    + s.output_tokens_cumulative
                &&& input + s.output_tokens_cumulative > u64::MAX ==> usage.total_tokens
                    == u64::MAX
            },
            _ => m.flush_yield(Seq::empty()).usage is None,
        },
{
}

} // verus!
