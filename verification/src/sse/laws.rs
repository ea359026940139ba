//! What holds of every stream, however it is cut into chunks.

use vstd::prelude::*;

use crate::counting;
use crate::sse::anthropic;
use crate::sse::documents;
use crate::sse::extractor;
use crate::sse::extractor::{ExtractorView, Machine, ParsedUsage, ProtocolState, Yield};
use crate::sse::framing;
use crate::sse::json::Json;
use crate::sse::openai_chat;
use crate::sse::responses;

verus! {

/// The extractor after a row of chunks.
pub open spec fn after_chunks(v: ExtractorView, chunks: Seq<Seq<u8>>) -> ExtractorView
    decreases chunks.len(),
{
    if chunks.len() == 0 {
        v
    } else {
        after_chunks(v, chunks.drop_last()).after_feed(chunks.last())
    }
}

/// What the chunk at position `i` of a row yields.
pub open spec fn chunk_yield(v: ExtractorView, chunks: Seq<Seq<u8>>, i: int) -> Yield {
    after_chunks(v, chunks.take(i)).feed_yield(chunks[i])
}

/// What a row of chunks yields in all.
pub open spec fn chunks_yield(v: ExtractorView, chunks: Seq<Seq<u8>>) -> Yield
    decreases chunks.len(),
{
    if chunks.len() == 0 {
        extractor::nothing()
    } else {
        extractor::then_yield(
            chunks_yield(v, chunks.drop_last()),
            after_chunks(v, chunks.drop_last()).feed_yield(chunks.last()),
        )
    }
}

/// What a whole stream yields: its chunks, then its end.
pub open spec fn stream_yield(v: ExtractorView, chunks: Seq<Seq<u8>>) -> Yield {
    extractor::then_yield(chunks_yield(v, chunks), after_chunks(v, chunks).flush_yield())
}

/// Events are forwarded whole: the protocol never strips, or usage is not to be
/// stripped.
pub open spec fn forwards_everything(m: Machine) -> bool {
    !(m.state is OpenAiChat) || !m.strip_usage_chunk
}

/// Yields in sequence: grouping does not matter.
proof fn lemma_then_assoc(a: Yield, b: Yield, c: Yield)
    ensures
        extractor::then_yield(extractor::then_yield(a, b), c) == extractor::then_yield(
            a,
            extractor::then_yield(b, c),
        ),
{
    assert((a.forward + b.forward) + c.forward =~= a.forward + (b.forward + c.forward));
}

/// Yields in sequence: nothing adds nothing.
proof fn lemma_then_nothing(a: Yield)
    ensures
        extractor::then_yield(a, extractor::nothing()) == a,
        extractor::then_yield(extractor::nothing(), a) == a,
{
    assert(a.forward + Seq::<u8>::empty() =~= a.forward);
    assert(Seq::<u8>::empty() + a.forward =~= a.forward);
}

/// A row of events acts as its two halves do in turn.
pub proof fn lemma_events_in_turn(m: Machine, x: Seq<Seq<u8>>, y: Seq<Seq<u8>>)
    ensures
        m.after_events(x + y) == m.after_events(x).after_events(y),
        m.events_yield(x + y) == extractor::then_yield(
            m.events_yield(x),
            m.after_events(x).events_yield(y),
        ),
    decreases y.len(),
{
    if y.len() == 0 {
        assert(x + y =~= x);
        lemma_then_nothing(m.events_yield(x));
    } else {
        let y0 = y.drop_last();
        assert((x + y).drop_last() =~= x + y0);
        lemma_events_in_turn(m, x, y0);
        lemma_then_assoc(
            m.events_yield(x),
            m.after_events(x).events_yield(y0),
            m.after_events(x + y0).event_yield(y.last()),
        );
    }
}

/// Cutting a piece of the stream in two changes nothing: feeding the halves one
/// after the other leaves the extractor as feeding the whole does, and yields
/// the same bytes, the same usage and the same tokens.
pub proof fn law_chunk_split(v: ExtractorView, a: Seq<u8>, b: Seq<u8>)
    ensures
        v.after_feed(a).after_feed(b) == v.after_feed(a + b),
        extractor::then_yield(v.feed_yield(a), v.after_feed(a).feed_yield(b)) == v.feed_yield(
            a + b,
        ),
{
    framing::lemma_events_append(v.buffer + a, b);
    assert((v.buffer + a) + b =~= v.buffer + (a + b));
    lemma_events_in_turn(
        v.machine,
        framing::events(v.buffer + a),
        framing::events(framing::residue(v.buffer + a) + b),
    );
}

/// However a stream is cut into chunks, it is treated as if it came in one.
pub proof fn law_chunking(v: ExtractorView, chunks: Seq<Seq<u8>>)
    requires
        v.wf(),
    ensures
        after_chunks(v, chunks) == v.after_feed(chunks.flatten()),
        chunks_yield(v, chunks) == v.feed_yield(chunks.flatten()),
    decreases chunks.len(),
{
    if chunks.len() == 0 {
        assert(v.buffer + chunks.flatten() =~= v.buffer);
        framing::lemma_no_boundary(v.buffer);
    } else {
        let before = chunks.drop_last();
        law_chunking(v, before);
        law_chunk_split(v, before.flatten(), chunks.last());
        assert(before.push(chunks.last()) =~= chunks);
        before.lemma_flatten_push(chunks.last());
    }
}

/// Where events are forwarded whole, a row of events forwards its own bytes.
proof fn lemma_events_forward(m: Machine, events: Seq<Seq<u8>>)
    requires
        forwards_everything(m),
    ensures
        m.events_yield(events).forward == events.flatten(),
        forwards_everything(m.after_events(events)),
    decreases events.len(),
{
    if events.len() > 0 {
        let before = events.drop_last();
        lemma_events_forward(m, before);
        assert(before.push(events.last()) =~= events);
        before.lemma_flatten_push(events.last());
    }
}

/// Without stripping, and for Anthropic and Responses in any case, no byte is
/// lost, added or reordered: what was forwarded and what is still buffered are
/// together what came in.
pub proof fn law_feed_keeps_bytes(v: ExtractorView, chunk: Seq<u8>)
    requires
        forwards_everything(v.machine),
    ensures
        v.feed_yield(chunk).forward + v.after_feed(chunk).buffer == v.buffer + chunk,
{
    lemma_events_forward(v.machine, framing::events(v.buffer + chunk));
    framing::lemma_events_partition(v.buffer + chunk);
}

/// Without stripping, and for Anthropic and Responses in any case, a whole
/// stream is forwarded verbatim.
pub proof fn law_stream_verbatim(v: ExtractorView, chunks: Seq<Seq<u8>>)
    requires
        v.wf(),
        forwards_everything(v.machine),
    ensures
        stream_yield(v, chunks).forward == v.buffer + chunks.flatten(),
{
    let all = chunks.flatten();
    law_chunking(v, chunks);
    law_feed_keeps_bytes(v, all);
    lemma_events_forward(v.machine, framing::events(v.buffer + all));
    let rest = v.after_feed(all).buffer;
    assert(v.after_feed(all).flush_yield().forward =~= rest);
}

/// Events that end in a blank line, forwarded or stripped whole, leave nothing or
/// bytes that end in a blank line.
proof fn lemma_events_forward_blank(m: Machine, events: Seq<Seq<u8>>)
    requires
        forall|i: int| 0 <= i < events.len() ==> framing::ends_blank(#[trigger] events[i]),
    ensures
        m.events_yield(events).forward.len() == 0 || framing::ends_blank(
            m.events_yield(events).forward,
        ),
    decreases events.len(),
{
    if events.len() > 0 {
        let before = events.drop_last();
        assert forall|i: int| 0 <= i < before.len() implies framing::ends_blank(
            #[trigger] before[i],
        ) by {
            assert(before[i] == events[i]);
        }
        lemma_events_forward_blank(m, before);
        let last = events[events.len() - 1];
        assert(framing::ends_blank(last));
        let forwarded = m.after_events(before).event_yield(last).forward;
        assert(forwarded == last || forwarded.len() == 0);
        if forwarded.len() == 0 {
            assert(m.events_yield(before).forward + forwarded =~= m.events_yield(before).forward);
        }
    }
}

/// A feed forwards whole events: what it forwards is empty or ends in a blank
/// line, with and without stripping.
pub proof fn law_feed_forwards_whole_events(v: ExtractorView, chunk: Seq<u8>)
    ensures
        v.feed_yield(chunk).forward.len() == 0 || framing::ends_blank(
            v.feed_yield(chunk).forward,
        ),
{
    let all = v.buffer + chunk;
    assert forall|i: int| 0 <= i < framing::events(all).len() implies framing::ends_blank(
        #[trigger] framing::events(all)[i],
    ) by {
        framing::lemma_events_end_blank(all, i);
    }
    lemma_events_forward_blank(v.machine, framing::events(all));
}

/// A blank line.
pub open spec fn blank_line() -> Seq<u8> {
    seq![framing::NEWLINE, framing::NEWLINE]
}

/// The one event that a blank line makes of bytes without a complete event. It
/// carries the documents of those bytes.
proof fn lemma_blank_line_event(buffer: Seq<u8>) -> (event: Seq<u8>)
    requires
        !framing::has_boundary(buffer),
    ensures
        framing::events(buffer + blank_line()) == seq![event],
        documents::documents(event, true) == documents::documents(buffer, true),
        documents::documents(event, false) == documents::documents(buffer, false),
{
    let all = buffer + blank_line();
    let once = buffer.push(framing::NEWLINE);
    let ended = buffer.len() > 0 && buffer.last() == framing::NEWLINE;
    let at = if ended {
        buffer.len() - 1
    } else {
        buffer.len() as int
    };
    assert(framing::boundary_at(all, at));
    assert forall|j: int| j < at implies !framing::boundary_at(all, j) by {
        assert(!framing::boundary_at(buffer, j));
    }
    framing::lemma_first_boundary_unique(all, at);
    let event = all.take(at + 2);
    let rest = all.skip(at + 2);
    assert(rest.len() < 2);
    assert(!framing::has_boundary(rest));
    framing::lemma_no_boundary(rest);
    assert(framing::events(all) =~= seq![event]);
    documents::lemma_newline_adds_none(buffer, true);
    documents::lemma_newline_adds_none(buffer, false);
    if ended {
        assert(event =~= once);
    } else {
        assert(event =~= once.push(framing::NEWLINE));
        documents::lemma_newline_adds_none(once, true);
        documents::lemma_newline_adds_none(once, false);
    }
    event
}

/// An OpenAI Chat or Responses stream that breaks off is read as if a blank line
/// had ended it: its flush yields the usage and the tokens that feeding a blank
/// line would, and leaves the parser as that would. Of an Anthropic stream this
/// holds of the tokens; its flush may report usage that no event did.
pub proof fn law_flush_as_blank_line(v: ExtractorView)
    requires
        v.wf(),
    ensures
        v.flush_yield().token_delta == v.feed_yield(blank_line()).token_delta,
        !(v.machine.state is AnthropicMessages) ==> {
            &&& v.flush_yield().usage == v.feed_yield(blank_line()).usage
            &&& v.after_flush().machine == v.after_feed(blank_line()).machine
        },
{
    let m = v.machine;
    let event = lemma_blank_line_event(v.buffer);
    let events = seq![event];
    let none = Seq::<Seq<u8>>::empty();
    assert(events.drop_last() =~= none);
    assert(m.after_events(none) == m && m.events_yield(none) == extractor::nothing());
    lemma_then_nothing(m.event_yield(event));
    if v.buffer.len() == 0 {
        let lines = framing::lines(v.buffer);
        assert(lines =~= seq![Seq::<u8>::empty()]) by {
            assert(v.buffer =~= Seq::<u8>::empty());
        }
        lemma_no_documents(lines, true);
        lemma_no_documents(lines, false);
    }
}

/// Feeding and flushing keep an extractor well-formed.
pub proof fn law_wf_kept(v: ExtractorView, chunk: Seq<u8>)
    requires
        v.wf(),
    ensures
        v.after_feed(chunk).wf(),
        v.after_flush().wf(),
{
    extractor::lemma_feed_wf(v, chunk);
    extractor::lemma_flush_wf(v);
}

/// Usage marks the machine, and a marked machine reports none.
proof fn lemma_events_usage(m: Machine, events: Seq<Seq<u8>>)
    ensures
        m.after_events(events).usage_extracted == (m.usage_extracted || m.events_yield(
            events,
        ).usage is Some),
        m.usage_extracted ==> m.events_yield(events).usage is None,
    decreases events.len(),
{
    if events.len() > 0 {
        lemma_events_usage(m, events.drop_last());
    }
}

/// A call reports usage only if no call before it did, and an extractor
/// remembers that usage was reported.
pub proof fn law_usage_remembered(v: ExtractorView, chunk: Seq<u8>)
    ensures
        v.after_feed(chunk).machine.usage_extracted == (v.machine.usage_extracted || v.feed_yield(
            chunk,
        ).usage is Some),
        v.machine.usage_extracted ==> v.feed_yield(chunk).usage is None,
        v.after_flush().machine.usage_extracted == (v.machine.usage_extracted
            || v.flush_yield().usage is Some),
        v.machine.usage_extracted ==> v.flush_yield().usage is None,
{
    lemma_events_usage(v.machine, framing::events(v.buffer + chunk));
}

/// A machine that has reported usage does not forget it.
proof fn lemma_chunks_usage(v: ExtractorView, chunks: Seq<Seq<u8>>, i: int)
    requires
        0 <= i < chunks.len(),
        chunk_yield(v, chunks, i).usage is Some,
    ensures
        after_chunks(v, chunks).machine.usage_extracted,
    decreases chunks.len(),
{
    let before = chunks.drop_last();
    law_usage_remembered(after_chunks(v, before), chunks.last());
    if i == chunks.len() - 1 {
        assert(chunks.take(i) =~= before);
    } else {
        assert(chunks.take(i) =~= before.take(i));
        lemma_chunks_usage(v, before, i);
    }
}

/// Usage is reported at most once per stream: of two calls, and of a call and
/// the flush that ends the stream, at most one reports it.
pub proof fn law_usage_once(v: ExtractorView, chunks: Seq<Seq<u8>>, i: int, j: int)
    requires
        0 <= i < j <= chunks.len(),
        chunk_yield(v, chunks, i).usage is Some,
    ensures
        j < chunks.len() ==> chunk_yield(v, chunks, j).usage is None,
        after_chunks(v, chunks).flush_yield().usage is None,
{
    lemma_chunks_usage(v, chunks, i);
    law_usage_remembered(after_chunks(v, chunks), Seq::empty());
    if j < chunks.len() {
        let first = chunks.take(j);
        assert(first.take(i) =~= chunks.take(i));
        assert(first[i] == chunks[i]);
        lemma_chunks_usage(v, first, i);
        law_usage_remembered(after_chunks(v, first), chunks[j]);
    }
}

/// The machine with its strip flag set to `strip`.
pub open spec fn with_strip(m: Machine, strip: bool) -> Machine {
    Machine { strip_usage_chunk: strip, ..m }
}

/// Stripping touches only the forwarded bytes: the usage, the tokens and the
/// state of the parser are the same with and without it.
pub proof fn law_strip_only_forward(m: Machine, events: Seq<Seq<u8>>, strip: bool)
    ensures
        with_strip(m, strip).after_events(events) == with_strip(m.after_events(events), strip),
        with_strip(m, strip).events_yield(events).usage == m.events_yield(events).usage,
        with_strip(m, strip).events_yield(events).token_delta == m.events_yield(
            events,
        ).token_delta,
    decreases events.len(),
{
    if events.len() > 0 {
        law_strip_only_forward(m, events.drop_last(), strip);
    }
}

/// At the end of the stream, too, stripping touches only the forwarded bytes.
pub proof fn law_strip_only_forward_at_end(m: Machine, rest: Seq<u8>, strip: bool)
    ensures
        with_strip(m, strip).after_flush(rest) == with_strip(m.after_flush(rest), strip),
        with_strip(m, strip).flush_yield(rest).usage == m.flush_yield(rest).usage,
        with_strip(m, strip).flush_yield(rest).token_delta == m.flush_yield(rest).token_delta,
{
}

/// The usage that an OpenAI Chat event carries.
pub open spec fn chat_event_usage(event: Seq<u8>) -> Option<ParsedUsage> {
    openai_chat::first_usage(openai_chat::event_readings(event))
}

/// Events of an OpenAI Chat stream after its usage was reported, or without any
/// usage, are forwarded whole in either mode.
pub proof fn law_chat_keeps_other_events(m: Machine, events: Seq<Seq<u8>>)
    requires
        m.wf(),
        m.state is OpenAiChat,
        m.usage_extracted || forall|i: int|
            0 <= i < events.len() ==> chat_event_usage(#[trigger] events[i]) is None,
    ensures
        m.events_yield(events).forward == events.flatten(),
        m.events_yield(events).usage is None,
        m.after_events(events).usage_extracted == m.usage_extracted,
        m.after_events(events).state is OpenAiChat,
        m.after_events(events).strip_usage_chunk == m.strip_usage_chunk,
        m.after_events(events).wf(),
    decreases events.len(),
{
    if events.len() > 0 {
        let before = events.drop_last();
        assert forall|i: int| 0 <= i < before.len() && !m.usage_extracted implies chat_event_usage(
            #[trigger] before[i],
        ) is None by {
            assert(before[i] == events[i]);
        }
        law_chat_keeps_other_events(m, before);
        if !m.usage_extracted {
            assert(chat_event_usage(events[events.len() - 1]) is None);
        }
        assert(before.push(events.last()) =~= events);
        before.lemma_flatten_push(events.last());
    }
}

/// Stripping drops exactly one event from an OpenAI Chat stream, the first that
/// carries usage, and that usage is what is reported.
pub proof fn law_strip_drops_usage_event(m: Machine, events: Seq<Seq<u8>>, k: int)
    requires
        m.wf(),
        m.state is OpenAiChat,
        m.strip_usage_chunk,
        !m.usage_extracted,
        0 <= k < events.len(),
        chat_event_usage(events[k]) is Some,
        forall|i: int| 0 <= i < k ==> chat_event_usage(#[trigger] events[i]) is None,
    ensures
        m.events_yield(events).forward == events.take(k).flatten() + events.skip(k + 1).flatten(),
        m.events_yield(events).usage == chat_event_usage(events[k]),
{
    let first = events.take(k);
    let upto = events.take(k + 1);
    let rest = events.skip(k + 1);
    assert(upto.drop_last() =~= first);
    assert(upto + rest =~= events);
    law_chat_keeps_other_events(m, first);
    let at = m.after_events(first);
    assert(at.event_yield(events[k]).forward =~= Seq::<u8>::empty());
    let past = m.after_events(upto);
    law_chat_keeps_other_events(past, rest);
    lemma_events_in_turn(m, upto, rest);
    assert(first.flatten() + Seq::<u8>::empty() =~= first.flatten());
}

/// A document that reports usage adds no content to the completion.
pub proof fn law_chat_usage_without_content(document: Json)
    ensures
        openai_chat::reading_of(document).usage is Some ==> !openai_chat::reading_of(
            document,
        ).has_content,
{
}

/// The text tokens that a row of OpenAI Chat events counts.
pub open spec fn chat_tokens(events: Seq<Seq<u8>>) -> nat
    decreases events.len(),
{
    if events.len() == 0 {
        0
    } else {
        chat_tokens(events.drop_last()) + openai_chat::content_count(
            openai_chat::event_readings(events.last()),
        )
    }
}

/// The token delta of an OpenAI Chat stream is the number of its documents with
/// content, or the largest number there is.
pub proof fn law_chat_token_delta(m: Machine, events: Seq<Seq<u8>>)
    requires
        m.state is OpenAiChat,
    ensures
        m.events_yield(events).token_delta == counting::saturate(chat_tokens(events)),
        m.after_events(events).state is OpenAiChat,
    decreases events.len(),
{
    if events.len() > 0 {
        law_chat_token_delta(m, events.drop_last());
    }
}

/// The text deltas that a row of Responses events counts.
pub open spec fn responses_tokens(events: Seq<Seq<u8>>) -> nat
    decreases events.len(),
{
    if events.len() == 0 {
        0
    } else {
        responses_tokens(events.drop_last()) + responses::delta_count(
            responses::event_readings(events.last()),
        )
    }
}

/// The token delta of a Responses stream is the number of its text deltas, or
/// the largest number there is.
pub proof fn law_responses_token_delta(m: Machine, events: Seq<Seq<u8>>)
    requires
        m.state is OpenAiResponses,
    ensures
        m.events_yield(events).token_delta == counting::saturate(responses_tokens(events)),
        m.after_events(events).state is OpenAiResponses,
    decreases events.len(),
{
    if events.len() > 0 {
        law_responses_token_delta(m, events.drop_last());
    }
}

/// The output count that an Anthropic machine has reported.
pub open spec fn reported_output(m: Machine) -> u64 {
    match m.state {
        ProtocolState::AnthropicMessages(s) => s.last_reported_output_tokens,
        _ => 0,
    }
}

/// The token deltas of an Anthropic stream add up to the rise of the reported
/// output count. They never overflow, and the count never falls.
pub proof fn law_anthropic_token_delta(m: Machine, events: Seq<Seq<u8>>)
    requires
        m.state is AnthropicMessages,
    ensures
        m.after_events(events).state is AnthropicMessages,
        m.events_yield(events).token_delta == reported_output(m.after_events(events))
            - reported_output(m),
    decreases events.len(),
{
    if events.len() > 0 {
        let before = events.drop_last();
        law_anthropic_token_delta(m, before);
        match m.after_events(before).state {
            ProtocolState::AnthropicMessages(s) => {
                anthropic::lemma_reported_grows(s, anthropic::event_readings(events.last()));
            },
            _ => {},
        }
    }
}

/// At the end of a stream whose last event was complete and whose usage is
/// settled, there is nothing to flush.
pub proof fn law_flush_noop(v: ExtractorView)
    requires
        v.buffer.len() == 0,
        v.machine.usage_extracted || extractor::protocol_final_usage(v.machine.state) is None,
    ensures
        v.flush_yield() == extractor::nothing(),
        v.after_flush() == v,
{
    assert(v.buffer =~= Seq::<u8>::empty());
}

/// A second flush yields nothing.
pub proof fn law_flush_twice(v: ExtractorView)
    ensures
        v.after_flush().flush_yield() == extractor::nothing(),
        v.after_flush().after_flush() == v.after_flush(),
{
    law_flush_noop(v.after_flush());
}

/// An Anthropic stream that has given its input count has reported usage when it
/// is flushed, with or without a `message_stop`.
pub proof fn law_anthropic_usage_by_end(v: ExtractorView)
    ensures
        v.after_flush().machine.state matches ProtocolState::AnthropicMessages(s)
            && s.input_tokens is Some ==> v.after_flush().machine.usage_extracted,
{
}

/// A Responses stream reports usage in an event or not at all: its flush adds
/// none beyond what a last unfinished event carries.
pub proof fn law_responses_flush_adds_none(v: ExtractorView)
    requires
        v.wf(),
        v.machine.state is OpenAiResponses,
    ensures
        v.buffer.len() == 0 ==> v.flush_yield().usage is None,
        v.buffer.len() > 0 ==> v.flush_yield().usage == v.machine.event_yield(v.buffer).usage,
{
}

/// Lines without data carry no documents.
proof fn lemma_no_documents(lines: Seq<Seq<u8>>, skip_done: bool)
    requires
        forall|i: int|
            0 <= i < lines.len() ==> framing::data_payload(#[trigger] lines[i]) is None,
    ensures
        documents::lines_documents(lines, skip_done).len() == 0,
    decreases lines.len(),
{
    if lines.len() > 0 {
        let before = lines.drop_last();
        assert forall|i: int| 0 <= i < before.len() implies framing::data_payload(
            #[trigger] before[i],
        ) is None by {
            assert(before[i] == lines[i]);
        }
        lemma_no_documents(before, skip_done);
        assert(framing::data_payload(lines[lines.len() - 1]) is None);
    }
}

/// An event without data lines (a keepalive comment) is forwarded, and nothing
/// else comes of it.
pub proof fn law_keepalive(m: Machine, event: Seq<u8>)
    requires
        m.wf(),
        forall|i: int|
            0 <= i < framing::lines(event).len() ==> framing::data_payload(
                #[trigger] framing::lines(event)[i],
            ) is None,
    ensures
        m.after_event(event) == m,
        m.event_yield(event) == (Yield { forward: event, ..extractor::nothing() }),
{
    lemma_no_documents(framing::lines(event), true);
    lemma_no_documents(framing::lines(event), false);
}

} // verus!
