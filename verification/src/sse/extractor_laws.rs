//! What an extractor does with each event, and with the end of the stream.

use vstd::prelude::*;

use crate::sse::anthropic;
use crate::sse::extractor;
use crate::sse::extractor::{
    EventOutcome, ExtractorView, Machine, ParsedChunk, ProtocolState, SseProtocol, Yield,
};
use crate::sse::framing;
use crate::sse::framing_laws;
use crate::sse::laws;
use crate::sse::openai_chat;
use crate::sse::responses;

verus! {

/// What a call or an event yields is what its fields hold.
pub proof fn law_yield_fields(chunk: ParsedChunk, outcome: EventOutcome)
    ensures
        chunk@.forward == chunk.forward@,
        chunk@.usage == chunk.usage,
        chunk@.token_delta == chunk.token_delta,
        outcome@.forward == outcome.forward@,
        outcome@.usage == outcome.usage,
        outcome@.token_delta == outcome.token_delta,
{
}

/// Where nothing comes of a call there are no bytes, no usage and no tokens, and a
/// call after another adds its bytes, its usage if it has one, and its tokens up
/// to the largest number.
pub proof fn law_yields_in_turn(first: Yield, second: Yield)
    ensures
        extractor::nothing().forward.len() == 0,
        extractor::nothing().usage is None,
        extractor::nothing().token_delta == 0,
        ({
            let both = extractor::then_yield(first, second);
            &&& both.forward == first.forward + second.forward
            &&& second.usage is Some ==> both.usage == second.usage
            &&& second.usage is None ==> both.usage == first.usage
            &&& first.token_delta + second.token_delta <= u64::MAX ==> both.token_delta
                == first.token_delta + second.token_delta
            &&& first.token_delta + second.token_delta > u64::MAX ==> both.token_delta == u64::MAX
        }),
{
}

/// The usage that is left for the end of a stream: none for OpenAI Chat, what the
/// counts amount to for Anthropic, and what was kept for Responses.
pub proof fn law_final_usage(state: ProtocolState)
    ensures
        match state {
            ProtocolState::OpenAiChat(_) => extractor::protocol_final_usage(state) is None,
            ProtocolState::AnthropicMessages(s) => extractor::protocol_final_usage(state)
                == anthropic::state_usage(s),
            ProtocolState::OpenAiResponses(s) => extractor::protocol_final_usage(state)
                == s.final_usage,
        },
{
}

/// A parser starts with nothing counted, nothing seen and nothing reported.
pub proof fn law_fresh_state(protocol: SseProtocol)
    ensures
        match extractor::initial_state(protocol) {
            ProtocolState::OpenAiChat(s) => protocol == SseProtocol::OpenAiChat
                && !s.usage_emitted,
            ProtocolState::AnthropicMessages(s) => {
                &&& protocol == SseProtocol::AnthropicMessages
                &&& s.input_tokens is None
                &&& s.cache_read_input_tokens is None
                &&& s.output_tokens_cumulative == 0
                &&& s.last_reported_output_tokens == 0
                &&& !s.seen_message_stop
            },
            ProtocolState::OpenAiResponses(s) => protocol == SseProtocol::OpenAiResponses
                && !s.seen_completed && s.final_usage is None,
        },
{
}

/// An event goes to the parser of the stream's protocol with all that is read out
/// of it. The extractor forwards and counts what the parser does, reports the
/// parser's usage unless usage was reported before, and remembers that.
pub proof fn law_event_by_protocol(m: Machine, event: Seq<u8>)
    ensures
        ({
            let outcome = match m.state {
                ProtocolState::OpenAiChat(s) => openai_chat::outcome(
                    s,
                    event,
                    openai_chat::event_readings(event),
                    m.strip_usage_chunk,
                ),
                ProtocolState::AnthropicMessages(s) => anthropic::outcome(
                    s,
                    event,
                    anthropic::event_readings(event),
                ),
                ProtocolState::OpenAiResponses(s) => responses::outcome(
                    s,
                    event,
                    responses::event_readings(event),
                ),
            };
            let after = m.after_event(event);
            &&& m.event_yield(event).forward == outcome.forward
            &&& m.event_yield(event).token_delta == outcome.token_delta
            &&& m.usage_extracted ==> m.event_yield(event).usage is None
            &&& !m.usage_extracted ==> m.event_yield(event).usage == outcome.usage
            &&& after.usage_extracted == (m.usage_extracted || outcome.usage is Some)
            &&& after.strip_usage_chunk == m.strip_usage_chunk
            &&& extractor::protocol_yield(m.state, event, m.strip_usage_chunk) == outcome
            &&& extractor::protocol_next(m.state, event) == after.state
            &&& match m.state {
                ProtocolState::OpenAiChat(s) => after.state == ProtocolState::OpenAiChat(
                    openai_chat::next_state(s, openai_chat::event_readings(event)),
                ),
                ProtocolState::AnthropicMessages(s) => after.state
                    == ProtocolState::AnthropicMessages(
                    anthropic::next_state(s, anthropic::event_readings(event)),
                ),
                ProtocolState::OpenAiResponses(s) => after.state == ProtocolState::OpenAiResponses(
                    responses::next_state(s, responses::event_readings(event)),
                ),
            }
        }),
{
}

/// A chunk that completes an event yields that event, then what the rest of the
/// chunk yields: the bytes one after the other, the usage of whichever has one,
/// and the sum of the tokens up to the largest number.
pub proof fn law_feed_event_first(
    v: ExtractorView,
    chunk: Seq<u8>,
    event: Seq<u8>,
    rest: Seq<u8>,
)
    requires
        v.buffer + chunk == event + rest,
        event.len() >= 2,
        event[event.len() - 2] == 0x0a,
        event[event.len() - 1] == 0x0a,
        forall|i: int|
            0 <= i < event.len() - 2 ==> !(#[trigger] event[i] == 0x0a && event[i + 1] == 0x0a),
    ensures
        ({
            let first = v.machine.event_yield(event);
            let then = ExtractorView {
                buffer: Seq::empty(),
                machine: v.machine.after_event(event),
            };
            let second = then.feed_yield(rest);
            let all = v.feed_yield(chunk);
            &&& v.after_feed(chunk) == then.after_feed(rest)
            &&& all.forward == first.forward + second.forward
            &&& second.usage is Some ==> all.usage == second.usage
            &&& second.usage is None ==> all.usage == first.usage
            &&& first.token_delta + second.token_delta <= u64::MAX ==> all.token_delta
                == first.token_delta + second.token_delta
            &&& first.token_delta + second.token_delta > u64::MAX ==> all.token_delta == u64::MAX
        }),
{
    framing_laws::law_event_first(event, rest);
    let m = v.machine;
    let one = seq![event];
    let none = Seq::<Seq<u8>>::empty();
    assert(one.drop_last() =~= none);
    assert(m.after_events(none) == m && m.events_yield(none) == extractor::nothing());
    assert(m.events_yield(one).forward =~= m.event_yield(event).forward);
    laws::lemma_events_in_turn(m, one, framing::events(rest));
    assert(Seq::<u8>::empty() + rest =~= rest);
}

/// A chunk that completes no event only waits: it yields nothing, and the parser
/// stays as it is.
pub proof fn law_feed_waits(v: ExtractorView, chunk: Seq<u8>)
    requires
        forall|i: int|
            0 <= i < (v.buffer + chunk).len() - 1 ==> !(#[trigger] (v.buffer + chunk)[i] == 0x0a
                && (v.buffer + chunk)[i + 1] == 0x0a),
    ensures
        v.after_feed(chunk).buffer == v.buffer + chunk,
        v.after_feed(chunk).machine == v.machine,
        v.feed_yield(chunk).forward.len() == 0,
        v.feed_yield(chunk).usage is None,
        v.feed_yield(chunk).token_delta == 0,
{
    framing_laws::law_no_event(v.buffer + chunk);
}

/// The end of the stream takes all that waits, and leaves nothing waiting.
pub proof fn law_flush_takes_all(v: ExtractorView)
    ensures
        v.flush_yield() == v.machine.flush_yield(v.buffer),
        v.after_flush().machine == v.machine.after_flush(v.buffer),
        v.after_flush().buffer.len() == 0,
{
}

/// At the end of the stream what waits is taken as a last event, and usage that
/// the event does not report may follow from the state that it leads to.
pub proof fn law_flush_last_event(m: Machine, rest: Seq<u8>)
    requires
        rest.len() > 0,
    ensures
        ({
            let event = m.event_yield(rest);
            let flushed = m.flush_yield(rest);
            let after = m.after_event(rest);
            &&& flushed.forward == event.forward
            &&& flushed.token_delta == event.token_delta
            &&& event.usage is Some ==> flushed.usage == event.usage
            &&& event.usage is None ==> flushed.usage == after.flush_yield(Seq::empty()).usage
            &&& m.after_flush(rest) == after.after_flush(Seq::empty())
        }),
{
    let event = m.event_yield(rest);
    let after = m.after_event(rest);
    assert(event.usage is Some ==> after.usage_extracted);
}

/// The end of a stream of which nothing waits forwards nothing, counts nothing and
/// leaves the parser as it is. Usage is reported only where none was, and that is
/// remembered. OpenAI Chat reports none then, and Responses what it has kept.
pub proof fn law_flush_nothing_waiting(m: Machine)
    ensures
        ({
            let flushed = m.flush_yield(Seq::empty());
            let after = m.after_flush(Seq::empty());
            &&& flushed.forward.len() == 0
            &&& flushed.token_delta == 0
            &&& m.usage_extracted ==> flushed.usage is None
            &&& after.state == m.state
            &&& after.strip_usage_chunk == m.strip_usage_chunk
            &&& after.usage_extracted ==> m.usage_extracted || flushed.usage is Some
            &&& m.usage_extracted || flushed.usage is Some ==> after.usage_extracted
            &&& m.state is OpenAiChat ==> flushed.usage is None
            &&& m.state matches ProtocolState::OpenAiResponses(s) ==> (!m.usage_extracted
                ==> flushed.usage == s.final_usage)
        }),
{
}

} // verus!
