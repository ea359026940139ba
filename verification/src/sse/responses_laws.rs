//! What an OpenAI Responses stream comes to, document by document.

use vstd::prelude::*;

use crate::sse::documents;
use crate::sse::extractor::{Machine, ParsedUsage, ProtocolState};
use crate::sse::framing_laws;
use crate::sse::json;
use crate::sse::json::Json;
use crate::sse::responses;
use crate::sse::responses::{ResponsesReading, ResponsesState};

verus! {

/// The two types that the parser knows are two different texts.
proof fn lemma_types_differ()
    ensures
        "response.output_text.delta"@ != "response.completed"@,
{
    reveal_strlit("response.output_text.delta");
    reveal_strlit("response.completed");
    assert("response.output_text.delta"@.len() == 26);
    assert("response.completed"@.len() == 18);
}

/// The usage of a completed response is the numbers of its `usage` object, each
/// under its own key and as it stands there. A total that is given is the total,
/// whatever else is given; one that is not is the sum of the two counts up to the
/// largest number, where a count that is not given is zero.
pub proof fn law_usage_as_given(
    document: Map<Seq<char>, Json>,
    response: Map<Seq<char>, Json>,
    usage: Map<Seq<char>, Json>,
)
    requires
        document.contains_key("response"@) && document["response"@] == Json::Object(response),
        response.contains_key("usage"@) && response["usage"@] == Json::Object(usage),
    ensures
        responses::completed_usage(Json::Object(document)) matches Some(counts) && {
            &&& counts.prompt_tokens == (if usage.contains_key("input_tokens"@) {
                match usage["input_tokens"@] {
                    Json::Number(n) => n,
                    _ => None,
                }
            } else {
                None
            })
            &&& counts.completion_tokens == (if usage.contains_key("output_tokens"@) {
                match usage["output_tokens"@] {
                    Json::Number(n) => n,
                    _ => None,
                }
            } else {
                None
            })
            &&& counts.cached_tokens == (if usage.contains_key("input_tokens_details"@) {
                match usage["input_tokens_details"@] {
                    Json::Object(details) => if details.contains_key("cached_tokens"@) {
                        match details["cached_tokens"@] {
                            Json::Number(n) => n,
                            _ => None,
                        }
                    } else {
                        None
                    },
                    _ => None,
                }
            } else {
                None
            })
            &&& match (if usage.contains_key("total_tokens"@) {
                match usage["total_tokens"@] {
                    Json::Number(n) => n,
                    _ => None,
                }
            } else {
                None
            }) {
                Some(total) => counts.total_tokens == total,
                None => {
                    let input: u64 = match counts.prompt_tokens {
                        Some(n) => n,
                        None => 0,
                    };
                    let output: u64 = match counts.completion_tokens {
                        Some(n) => n,
                        None => 0,
                    };
                    if input + output <= u64::MAX {
                        counts.total_tokens == input + output
                    } else {
                        counts.total_tokens == u64::MAX
                    }
                },
            }
        },
{
}

/// Without a `usage` object in its response a document carries no usage.
pub proof fn law_usage_only(document: Json)
    ensures
        responses::completed_usage(document) is Some ==> ({
            &&& document matches Json::Object(members)
            &&& members.contains_key("response"@)
            &&& members["response"@] matches Json::Object(response)
            &&& response.contains_key("usage"@)
            &&& response["usage"@] is Object
        }),
{
}

/// Documents are told apart by their type alone.
pub proof fn law_read_by_type(document: Json)
    ensures
        responses::reading_of(document) == (match document {
            Json::Object(members) => if members.contains_key("type"@) && members["type"@]
                == Json::Text("response.output_text.delta"@) {
                ResponsesReading::OutputTextDelta
            } else if members.contains_key("type"@) && members["type"@] == Json::Text(
                "response.completed"@,
            ) {
                ResponsesReading::Completed(responses::completed_usage(document))
            } else {
                ResponsesReading::Other
            },
            _ => ResponsesReading::Other,
        }),
{
    lemma_types_differ();
}

/// Every document of an event is read, in order.
pub proof fn law_every_document_read(event: Seq<u8>)
    ensures
        responses::event_readings(event).len() == documents::documents(event, false).len(),
        forall|i: int|
            0 <= i < responses::event_readings(event).len()
                ==> #[trigger] responses::event_readings(event)[i] == responses::reading_of(
                documents::documents(event, false)[i],
            ),
{
}

/// Each text delta counts one token, up to the largest number, and no other
/// reading counts. The event is forwarded whole.
pub proof fn law_tokens_per_reading(
    state: ResponsesState,
    event: Seq<u8>,
    readings: Seq<ResponsesReading>,
    reading: ResponsesReading,
)
    ensures
        responses::outcome(state, event, readings).forward == event,
        responses::outcome(state, event, Seq::empty()).token_delta == 0,
        ({
            let before = responses::outcome(state, event, readings).token_delta;
            let after = responses::outcome(state, event, readings.push(reading)).token_delta;
            if reading is OutputTextDelta && before < u64::MAX {
                after == before + 1
            } else {
                after == before
            }
        }),
{
    assert(readings.push(reading).drop_last() =~= readings);
}

/// The first completion closes the stream: the usage that it carries is reported
/// and kept, and where it carries none, none is.
pub proof fn law_first_completion(
    state: ResponsesState,
    event: Seq<u8>,
    readings: Seq<ResponsesReading>,
    k: int,
    carried: Option<ParsedUsage>,
)
    requires
        !state.seen_completed,
        0 <= k < readings.len(),
        readings[k] == ResponsesReading::Completed(carried),
        forall|i: int| 0 <= i < k ==> !(#[trigger] readings[i] is Completed),
    ensures
        responses::outcome(state, event, readings).usage == carried,
        responses::next_state(state, readings).seen_completed,
        carried is Some ==> responses::next_state(state, readings).final_usage == carried,
        carried is None ==> responses::next_state(state, readings).final_usage
            == state.final_usage,
{
    lemma_first_completed(readings, k, carried);
}

/// The first completion among readings.
proof fn lemma_first_completed(
    readings: Seq<ResponsesReading>,
    k: int,
    carried: Option<ParsedUsage>,
)
    requires
        0 <= k < readings.len(),
        readings[k] == ResponsesReading::Completed(carried),
        forall|i: int| 0 <= i < k ==> !(#[trigger] readings[i] is Completed),
    ensures
        responses::first_completed(readings) == Some(carried),
    decreases readings.len(),
{
    let before = readings.drop_last();
    if k < before.len() {
        lemma_first_completed(before, k, carried);
    } else {
        lemma_none_completed(before);
    }
}

/// Among readings without a completion there is none.
proof fn lemma_none_completed(readings: Seq<ResponsesReading>)
    requires
        forall|i: int| 0 <= i < readings.len() ==> !(#[trigger] readings[i] is Completed),
    ensures
        responses::first_completed(readings) is None,
    decreases readings.len(),
{
    if readings.len() > 0 {
        lemma_none_completed(readings.drop_last());
        assert(!(readings[readings.len() - 1] is Completed));
    }
}

/// An event without a completion, and any event of a stream that is completed,
/// reports no usage and leaves the state as it is.
pub proof fn law_no_completion(
    state: ResponsesState,
    event: Seq<u8>,
    readings: Seq<ResponsesReading>,
)
    requires
        state.seen_completed || forall|i: int|
            0 <= i < readings.len() ==> !(#[trigger] readings[i] is Completed),
    ensures
        responses::outcome(state, event, readings).usage is None,
        responses::next_state(state, readings) == state,
{
    if !state.seen_completed {
        lemma_none_completed(readings);
    }
}

/// Text deltas count from the first reading on as from the last.
proof fn lemma_delta_first(reading: ResponsesReading, rest: Seq<ResponsesReading>)
    ensures
        responses::delta_count(seq![reading] + rest) == responses::delta_count(rest) + if reading
            is OutputTextDelta {
            1nat
        } else {
            0nat
        },
    decreases rest.len(),
{
    let all = seq![reading] + rest;
    if rest.len() == 0 {
        assert(all.drop_last() =~= Seq::<ResponsesReading>::empty());
        assert(responses::delta_count(Seq::<ResponsesReading>::empty()) == 0);
    } else {
        assert(all.drop_last() =~= seq![reading] + rest.drop_last());
        lemma_delta_first(reading, rest.drop_last());
    }
}

/// A data line counts one token if its document is of type
/// `response.output_text.delta`, whatever else the document holds, and none
/// otherwise. What follows the line counts as if the line were not there.
pub proof fn law_line_counts(
    m: Machine,
    padding: Seq<u8>,
    payload: Seq<u8>,
    rest: Seq<u8>,
    document: Map<Seq<char>, Json>,
)
    requires
        m.state is OpenAiResponses,
        forall|i: int|
            0 <= i < padding.len() ==> {
                let b = #[trigger] padding[i];
                b == 0x09 || b == 0x0c || b == 0x0d || b == 0x20 || b == 0x3a
            },
        forall|i: int| 0 <= i < payload.len() ==> payload[i] != 0x0a,
        payload.len() > 0,
        payload[0] != 0x09 && payload[0] != 0x0c && payload[0] != 0x0d && payload[0] != 0x20
            && payload[0] != 0x3a,
        json::json_document(payload) == Some(Json::Object(document)),
    ensures
        ({
            let line = seq![0x64u8, 0x61u8, 0x74u8, 0x61u8, 0x3au8] + padding + payload;
            let after = m.event_yield(rest).token_delta;
            let all = m.event_yield(line.push(0x0a) + rest).token_delta;
            if document.contains_key("type"@) && document["type"@] == Json::Text(
                "response.output_text.delta"@,
            ) && after < u64::MAX {
                all == after + 1
            } else {
                all == after
            }
        }),
{
    let line = seq![0x64u8, 0x61u8, 0x74u8, 0x61u8, 0x3au8] + padding + payload;
    assert forall|i: int| 0 <= i < line.len() implies line[i] != 0x0a by {
        if i >= 5 && i < 5 + padding.len() {
            assert(line[i] == padding[i - 5]);
        } else if i >= 5 + padding.len() {
            assert(line[i] == payload[i - 5 - padding.len()]);
        }
    }
    framing_laws::law_data_line(padding, payload, false);
    framing_laws::law_documents_line_by_line(line, rest, false);
    let read = responses::reading_of(Json::Object(document));
    assert(responses::event_readings(line.push(0x0a) + rest) =~= seq![read]
        + responses::event_readings(rest));
    lemma_delta_first(read, responses::event_readings(rest));
}

/// The first completed response of a stream is reported with the counts that its
/// `usage` object gives: the total as it stands there, whatever else is given.
pub proof fn law_completion_reported(
    m: Machine,
    event: Seq<u8>,
    document: Map<Seq<char>, Json>,
    response: Map<Seq<char>, Json>,
    usage: Map<Seq<char>, Json>,
    total: u64,
)
    requires
        m.wf(),
        m.state matches ProtocolState::OpenAiResponses(s)
            && !s.seen_completed,
        documents::documents(event, false) == seq![Json::Object(document)],
        document.contains_key("type"@) && document["type"@] == Json::Text("response.completed"@),
        document.contains_key("response"@) && document["response"@] == Json::Object(response),
        response.contains_key("usage"@) && response["usage"@] == Json::Object(usage),
        usage.contains_key("total_tokens"@) && usage["total_tokens"@] == Json::Number(Some(total)),
    ensures
        m.event_yield(event).usage matches Some(counts) && {
            &&& counts.total_tokens == total
            &&& counts.prompt_tokens == (if usage.contains_key("input_tokens"@) {
                match usage["input_tokens"@] {
                    Json::Number(n) => n,
                    _ => None,
                }
            } else {
                None
            })
            &&& counts.completion_tokens == (if usage.contains_key("output_tokens"@) {
                match usage["output_tokens"@] {
                    Json::Number(n) => n,
                    _ => None,
                }
            } else {
                None
            })
            &&& counts.cached_tokens == (if usage.contains_key("input_tokens_details"@) {
                match usage["input_tokens_details"@] {
                    Json::Object(details) => if details.contains_key("cached_tokens"@) {
                        match details["cached_tokens"@] {
                            Json::Number(n) => n,
                            _ => None,
                        }
                    } else {
                        None
                    },
                    _ => None,
                }
            } else {
                None
            })
        },
        m.after_event(event).usage_extracted,
{
    lemma_types_differ();
    let readings = responses::event_readings(event);
    let read = responses::reading_of(Json::Object(document));
    assert(readings =~= seq![read]);
    law_usage_as_given(document, response, usage);
    lemma_first_completed(readings, 0, responses::completed_usage(Json::Object(document)));
}

} // verus!
