//! What an OpenAI Chat stream comes to, document by document.

use vstd::prelude::*;

use crate::sse::documents;
use crate::sse::extractor::Machine;
use crate::sse::framing_laws;
use crate::sse::json;
use crate::sse::json::Json;
use crate::sse::openai_chat;
use crate::sse::openai_chat::{ChatReading, OpenAiChatState};

verus! {

/// A document whose first choice has a delta with a text that is not empty adds
/// content, whatever else the document, the choice and the delta hold.
pub proof fn law_content_counts(
    document: Map<Seq<char>, Json>,
    choices: Seq<Json>,
    choice: Map<Seq<char>, Json>,
    delta: Map<Seq<char>, Json>,
    content: Seq<char>,
)
    requires
        document.contains_key("choices"@) && document["choices"@] == Json::List(choices),
        choices.len() > 0 && choices[0] == Json::Object(choice),
        choice.contains_key("delta"@) && choice["delta"@] == Json::Object(delta),
        delta.contains_key("content"@) && delta["content"@] == Json::Text(content),
        content.len() > 0,
    ensures
        openai_chat::content_delta(Json::Object(document)),
        openai_chat::reading_of(Json::Object(document)).has_content,
{
}

/// Only such a document adds content.
pub proof fn law_content_only(document: Json)
    requires
        openai_chat::content_delta(document) || openai_chat::reading_of(document).has_content,
    ensures
        ({
            &&& document matches Json::Object(members)
            &&& members.contains_key("choices"@)
            &&& members["choices"@] matches Json::List(choices)
            &&& choices.len() > 0
            &&& choices[0] matches Json::Object(choice)
            &&& choice.contains_key("delta"@)
            &&& choice["delta"@] matches Json::Object(delta)
            &&& delta.contains_key("content"@)
            &&& delta["content"@] matches Json::Text(content)
            &&& content.len() > 0
        }),
{
}

/// A document has no choices exactly where they are an empty list.
pub proof fn law_no_choices(document: Json)
    ensures
        openai_chat::no_choices(document) <==> ({
            &&& document matches Json::Object(members)
            &&& members.contains_key("choices"@)
            &&& members["choices"@] matches Json::List(choices)
            &&& choices.len() == 0
        }),
{
}

/// The usage of a document is the numbers of its `usage` object, each under its
/// own key and as it stands there. A document with an empty list of choices
/// reports it.
pub proof fn law_usage_as_given(
    document: Map<Seq<char>, Json>,
    usage: Map<Seq<char>, Json>,
    total: u64,
)
    requires
        document.contains_key("usage"@) && document["usage"@] == Json::Object(usage),
        usage.contains_key("total_tokens"@) && usage["total_tokens"@] == Json::Number(Some(total)),
    ensures
        openai_chat::usage_counts(Json::Object(document)) matches Some(counts) && {
            &&& counts.total_tokens == total
            &&& counts.prompt_tokens == (if usage.contains_key("prompt_tokens"@) {
                match usage["prompt_tokens"@] {
                    Json::Number(n) => n,
                    _ => None,
                }
            } else {
                None
            })
            &&& counts.completion_tokens == (if usage.contains_key("completion_tokens"@) {
                match usage["completion_tokens"@] {
                    Json::Number(n) => n,
                    _ => None,
                }
            } else {
                None
            })
            &&& counts.cached_tokens == (if usage.contains_key("prompt_tokens_details"@) {
                match usage["prompt_tokens_details"@] {
                    Json::Object(details) => if details.contains_key("cached_tokens"@) {
                        match details["cached_tokens"@] {
                            Json::Number(n) => n,
                            _ => None,
                        }
                    } else {
                        None
                    },
                    _ => None,
                }
            } else {
                None
            })
        },
        document.contains_key("choices"@) && document["choices"@] == Json::List(Seq::empty())
            ==> openai_chat::reading_of(Json::Object(document)).usage == openai_chat::usage_counts(
            Json::Object(document),
        ),
{
}

/// Without a `usage` object that gives a total there is no usage, and a document
/// reports usage only beside an empty list of choices.
pub proof fn law_usage_only(document: Json)
    ensures
        openai_chat::usage_counts(document) is Some ==> ({
            &&& document matches Json::Object(members)
            &&& members.contains_key("usage"@)
            &&& members["usage"@] matches Json::Object(usage)
            &&& usage.contains_key("total_tokens"@)
            &&& usage["total_tokens"@] matches Json::Number(total)
            &&& total is Some
        }),
        openai_chat::reading_of(document).usage is Some ==> ({
            &&& document matches Json::Object(members)
            &&& members.contains_key("choices"@)
            &&& members["choices"@] matches Json::List(choices)
            &&& choices.len() == 0
        }),
        openai_chat::reading_of(document).usage is Some ==> openai_chat::reading_of(document).usage
            == openai_chat::usage_counts(document),
{
}

/// Every document of an event is read, in order.
pub proof fn law_every_document_read(event: Seq<u8>)
    ensures
        openai_chat::event_readings(event).len() == documents::documents(event, true).len(),
        forall|i: int|
            0 <= i < openai_chat::event_readings(event).len()
                ==> #[trigger] openai_chat::event_readings(event)[i] == openai_chat::reading_of(
                documents::documents(event, true)[i],
            ),
{
}

/// Each reading with content counts one token, up to the largest number, and no
/// other reading counts.
pub proof fn law_tokens_per_reading(
    state: OpenAiChatState,
    event: Seq<u8>,
    readings: Seq<ChatReading>,
    reading: ChatReading,
    strip: bool,
)
    ensures
        openai_chat::outcome(state, event, Seq::empty(), strip).token_delta == 0,
        ({
            let before = openai_chat::outcome(state, event, readings, strip).token_delta;
            let after = openai_chat::outcome(
                state,
                event,
                readings.push(reading),
                strip,
            ).token_delta;
            if reading.has_content && before < u64::MAX {
                after == before + 1
            } else {
                after == before
            }
        }),
{
    assert(readings.push(reading).drop_last() =~= readings);
}

/// An event reports the first usage that is read out of it, if the stream has
/// reported none. It is stripped then where usage is to be stripped, and the
/// stream has reported its usage.
pub proof fn law_first_usage_reported(
    state: OpenAiChatState,
    event: Seq<u8>,
    readings: Seq<ChatReading>,
    k: int,
    strip: bool,
)
    requires
        !state.usage_emitted,
        0 <= k < readings.len(),
        readings[k].usage is Some,
        forall|i: int| 0 <= i < k ==> (#[trigger] readings[i]).usage is None,
    ensures
        openai_chat::outcome(state, event, readings, strip).usage == readings[k].usage,
        strip ==> openai_chat::outcome(state, event, readings, strip).forward.len() == 0,
        !strip ==> openai_chat::outcome(state, event, readings, strip).forward == event,
        openai_chat::next_state(state, readings).usage_emitted,
{
    lemma_first_usage(readings, k);
}

/// The first usage among readings is that of the first reading with usage.
proof fn lemma_first_usage(readings: Seq<ChatReading>, k: int)
    requires
        0 <= k < readings.len(),
        readings[k].usage is Some,
        forall|i: int| 0 <= i < k ==> (#[trigger] readings[i]).usage is None,
    ensures
        openai_chat::first_usage(readings) == readings[k].usage,
    decreases readings.len(),
{
    let before = readings.drop_last();
    if k < before.len() {
        lemma_first_usage(before, k);
    } else {
        lemma_no_usage(before);
    }
}

/// Among readings without usage there is none.
proof fn lemma_no_usage(readings: Seq<ChatReading>)
    requires
        forall|i: int| 0 <= i < readings.len() ==> (#[trigger] readings[i]).usage is None,
    ensures
        openai_chat::first_usage(readings) is None,
    decreases readings.len(),
{
    if readings.len() > 0 {
        lemma_no_usage(readings.drop_last());
        assert(readings[readings.len() - 1].usage is None);
    }
}

/// An event without usage, and any event of a stream that has reported its
/// usage, reports none, is forwarded whole and leaves the state as it is.
pub proof fn law_no_usage_reported(
    state: OpenAiChatState,
    event: Seq<u8>,
    readings: Seq<ChatReading>,
    strip: bool,
)
    requires
        state.usage_emitted || forall|i: int|
            0 <= i < readings.len() ==> (#[trigger] readings[i]).usage is None,
    ensures
        openai_chat::outcome(state, event, readings, strip).usage is None,
        openai_chat::outcome(state, event, readings, strip).forward == event,
        openai_chat::next_state(state, readings) == state,
{
    if !state.usage_emitted {
        lemma_no_usage(readings);
    }
}

/// Content counts from the first reading on as from the last.
proof fn lemma_content_first(reading: ChatReading, rest: Seq<ChatReading>)
    ensures
        openai_chat::content_count(seq![reading] + rest) == openai_chat::content_count(rest)
            + if reading.has_content {
            1nat
        } else {
            0nat
        },
    decreases rest.len(),
{
    let all = seq![reading] + rest;
    if rest.len() == 0 {
        assert(all.drop_last() =~= Seq::<ChatReading>::empty());
        assert(openai_chat::content_count(Seq::<ChatReading>::empty()) == 0);
    } else {
        assert(all.drop_last() =~= seq![reading] + rest.drop_last());
        lemma_content_first(reading, rest.drop_last());
    }
}

/// A data line counts one token if its document has content in its first choice,
/// whatever else the document holds, and none otherwise. What follows the line
/// counts as if the line were not there.
pub proof fn law_line_counts(
    m: Machine,
    padding: Seq<u8>,
    payload: Seq<u8>,
    rest: Seq<u8>,
    document: Map<Seq<char>, Json>,
)
    requires
        m.state is OpenAiChat,
        forall|i: int|
            0 <= i < padding.len() ==> {
                let b = #[trigger] padding[i];
                b == 0x09 || b == 0x0c || b == 0x0d || b == 0x20 || b == 0x3a
            },
        forall|i: int| 0 <= i < payload.len() ==> payload[i] != 0x0a,
        payload.len() > 0,
        payload[0] != 0x09 && payload[0] != 0x0c && payload[0] != 0x0d && payload[0] != 0x20
            && payload[0] != 0x3a,
        payload != seq![0x5bu8, 0x44u8, 0x4fu8, 0x4eu8, 0x45u8, 0x5du8],
        json::json_document(payload) == Some(Json::Object(document)),
    ensures
        ({
            let line = seq![0x64u8, 0x61u8, 0x74u8, 0x61u8, 0x3au8] + padding + payload;
            let after = m.event_yield(rest).token_delta;
            let all = m.event_yield(line.push(0x0a) + rest).token_delta;
            let has_content = {
                &&& document.contains_key("choices"@)
                &&& document["choices"@] matches Json::List(choices)
                &&& choices.len() > 0
                &&& choices[0] matches Json::Object(choice)
                &&& choice.contains_key("delta"@)
                &&& choice["delta"@] matches Json::Object(delta)
                &&& delta.contains_key("content"@)
                &&& delta["content"@] matches Json::Text(content)
                &&& content.len() > 0
            };
            if has_content && after < u64::MAX {
                all == after + 1
            } else {
                all == after
            }
        }),
{
    let line = seq![0x64u8, 0x61u8, 0x74u8, 0x61u8, 0x3au8] + padding + payload;
    assert forall|i: int| 0 <= i < line.len() implies line[i] != 0x0a by {
        if i >= 5 && i < 5 + padding.len() {
            assert(line[i] == padding[i - 5]);
        } else if i >= 5 + padding.len() {
            assert(line[i] == payload[i - 5 - padding.len()]);
        }
    }
    framing_laws::law_data_line(padding, payload, true);
    framing_laws::law_documents_line_by_line(line, rest, true);
    let read = openai_chat::reading_of(Json::Object(document));
    assert(openai_chat::event_readings(line.push(0x0a) + rest) =~= seq![read]
        + openai_chat::event_readings(rest));
    lemma_content_first(read, openai_chat::event_readings(rest));
}

} // verus!
