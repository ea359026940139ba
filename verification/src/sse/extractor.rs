//! Generic SSE byte-buffer state machine. Handles buffering across chunk
//! boundaries and splits the stream into events; the per-protocol parsers
//! (`openai_chat`, `anthropic`, `responses`) say what each event means.

use vstd::prelude::*;

use crate::counting;
use crate::sse::framing;
use crate::sse::framing::find_event_boundary;
use crate::sse::{anthropic, openai_chat, responses};

verus! {

#[derive(Debug, Clone, Copy, PartialEq, Eq, Structural)]
pub enum SseProtocol {
    OpenAiChat,
    AnthropicMessages,
    OpenAiResponses,
}

#[derive(Debug, Clone, Copy, PartialEq)]
pub struct ParsedUsage {
    pub total_tokens: u64,
    pub prompt_tokens: Option<u64>,
    pub completion_tokens: Option<u64>,
    /// Anthropic: `cache_read_input_tokens` (already counted toward input_tokens
    /// but to be excluded from a prefill ratio).
    pub cached_tokens: Option<u64>,
}

impl Default for ParsedUsage {
    fn default() -> (usage: Self)
        ensures
            usage == (ParsedUsage {
                total_tokens: 0,
                prompt_tokens: None,
                completion_tokens: None,
                cached_tokens: None,
            }),
    {
        ParsedUsage {
            total_tokens: 0,
            prompt_tokens: None,
            completion_tokens: None,
            cached_tokens: None,
        }
    }
}

/// What a piece of the stream yields: bytes for the client, usage, and an
/// increment of the token estimate.
pub struct Yield {
    pub forward: Seq<u8>,
    pub usage: Option<ParsedUsage>,
    pub token_delta: u64,
}

/// What one event yields.
#[derive(Debug)]
pub struct EventOutcome {
    pub forward: Vec<u8>,
    pub usage: Option<ParsedUsage>,
    pub token_delta: u64,
}

impl View for EventOutcome {
    type V = Yield;

    open spec fn view(&self) -> Yield {
        Yield { forward: self.forward@, usage: self.usage, token_delta: self.token_delta }
    }
}

/// Bytes and findings of one call of [`SseExtractor::feed`] or
/// [`SseExtractor::flush`].
#[derive(Debug)]
pub struct ParsedChunk {
    /// Bytes to forward to the client. Already stripped of the usage event if
    /// `strip_usage_chunk=true` (OpenAI Chat only).
    pub forward: Vec<u8>,
    /// `Some(...)` once per stream when usage is finalized; `None` on every other
    /// call.
    pub usage: Option<ParsedUsage>,
    /// Token estimate for this call. Routers emit a `StreamingProgressEvent` when
    /// the running total crosses `INCREMENTAL_TOKEN_INTERVAL`.
    pub token_delta: u64,
}

impl Default for ParsedChunk {
    fn default() -> (chunk: Self)
        ensures
            chunk@ == nothing(),
    {
        let forward: Vec<u8> = Vec::new();
        assert(forward@ =~= Seq::<u8>::empty());
        ParsedChunk { forward, usage: None, token_delta: 0 }
    }
}

impl View for ParsedChunk {
    type V = Yield;

    open spec fn view(&self) -> Yield {
        Yield { forward: self.forward@, usage: self.usage, token_delta: self.token_delta }
    }
}

/// No bytes, no usage, no tokens.
pub open spec fn nothing() -> Yield {
    Yield { forward: Seq::empty(), usage: None, token_delta: 0 }
}

/// What two pieces of the stream yield one after the other.
pub open spec fn then_yield(first: Yield, second: Yield) -> Yield {
    Yield {
        forward: first.forward + second.forward,
        usage: match second.usage {
            Some(usage) => Some(usage),
            None => first.usage,
        },
        token_delta: counting::saturate((first.token_delta + second.token_delta) as nat),
    }
}

/// Per-protocol parsing state.
#[derive(Debug, Clone, Copy)]
pub enum ProtocolState {
    OpenAiChat(openai_chat::OpenAiChatState),
    AnthropicMessages(anthropic::AnthropicState),
    OpenAiResponses(responses::ResponsesState),
}

/// The state of a protocol before the first event.
pub open spec fn initial_state(protocol: SseProtocol) -> ProtocolState {
    match protocol {
        SseProtocol::OpenAiChat => ProtocolState::OpenAiChat(
            openai_chat::OpenAiChatState { usage_emitted: false },
        ),
        SseProtocol::AnthropicMessages => ProtocolState::AnthropicMessages(
            anthropic::initial_state(),
        ),
        SseProtocol::OpenAiResponses => ProtocolState::OpenAiResponses(
            responses::initial_state(),
        ),
    }
}

impl ProtocolState {
    pub fn new(protocol: SseProtocol) -> (state: Self)
        ensures
            state == initial_state(protocol),
    {
        match protocol {
            SseProtocol::OpenAiChat => Self::OpenAiChat(openai_chat::OpenAiChatState::default()),
            SseProtocol::AnthropicMessages => Self::AnthropicMessages(
                anthropic::AnthropicState::default(),
            ),
            SseProtocol::OpenAiResponses => Self::OpenAiResponses(
                responses::ResponsesState::default(),
            ),
        }
    }

    /// Process one event by the rules of the protocol.
    pub fn process_event(&mut self, event_bytes: &[u8], strip_usage_chunk: bool) -> (outcome:
        EventOutcome)
        ensures
            *final(self) == protocol_next(*old(self), event_bytes@),
            outcome@ == protocol_yield(*old(self), event_bytes@, strip_usage_chunk),
    {
        match self {
            ProtocolState::OpenAiChat(s) => openai_chat::process_event(
                s,
                event_bytes,
                strip_usage_chunk,
            ),
            ProtocolState::AnthropicMessages(s) => anthropic::process_event(s, event_bytes),
            ProtocolState::OpenAiResponses(s) => responses::process_event(s, event_bytes),
        }
    }

    /// The usage at the end of a stream that did not report it.
    pub fn finalize(&self) -> (usage: Option<ParsedUsage>)
        ensures
            usage == protocol_final_usage(*self),
    {
        match self {
            ProtocolState::AnthropicMessages(s) => anthropic::finalize(s),
            ProtocolState::OpenAiResponses(s) => responses::finalize(s),
            ProtocolState::OpenAiChat(_) => None,
        }
    }
}

/// The protocol state after an event.
pub open spec fn protocol_next(state: ProtocolState, event: Seq<u8>) -> ProtocolState {
    match state {
        ProtocolState::OpenAiChat(s) => ProtocolState::OpenAiChat(
            openai_chat::next_state(s, openai_chat::event_readings(event)),
        ),
        ProtocolState::AnthropicMessages(s) => ProtocolState::AnthropicMessages(
            anthropic::next_state(s, anthropic::event_readings(event)),
        ),
        ProtocolState::OpenAiResponses(s) => ProtocolState::OpenAiResponses(
            responses::next_state(s, responses::event_readings(event)),
        ),
    }
}

/// What an event yields by the rules of its protocol.
pub open spec fn protocol_yield(
    state: ProtocolState,
    event: Seq<u8>,
    strip_usage_chunk: bool,
) -> Yield {
    match state {
        ProtocolState::OpenAiChat(s) => openai_chat::outcome(
            s,
            event,
            openai_chat::event_readings(event),
            strip_usage_chunk,
        ),
        ProtocolState::AnthropicMessages(s) => anthropic::outcome(
            s,
            event,
            anthropic::event_readings(event),
        ),
        ProtocolState::OpenAiResponses(s) => responses::outcome(
            s,
            event,
            responses::event_readings(event),
        ),
    }
}

/// The usage that a protocol state amounts to at the end of the stream. OpenAI
/// Chat reports usage in an event or not at all.
pub open spec fn protocol_final_usage(state: ProtocolState) -> Option<ParsedUsage> {
    match state {
        ProtocolState::AnthropicMessages(s) => anthropic::state_usage(s),
        ProtocolState::OpenAiResponses(s) => s.final_usage,
        ProtocolState::OpenAiChat(_) => None,
    }
}

/// The part of an extractor that events act on.
pub struct Machine {
    pub state: ProtocolState,
    pub strip_usage_chunk: bool,
    /// The stream has reported its usage.
    pub usage_extracted: bool,
}

/// An extractor as its callers see it: the bytes that wait for the rest of their
/// event, and the machine.
pub struct ExtractorView {
    pub buffer: Seq<u8>,
    pub machine: Machine,
}

impl Machine {
    /// The protocol state and the usage mark agree: the usage that a parser has
    /// given out, or was bound to give out, has been reported.
    pub open spec fn wf(self) -> bool {
        match self.state {
            ProtocolState::OpenAiChat(s) => s.usage_emitted == self.usage_extracted,
            ProtocolState::AnthropicMessages(s) => s.seen_message_stop
                && s.input_tokens is Some ==> self.usage_extracted,
            ProtocolState::OpenAiResponses(s) => s.final_usage is Some == self.usage_extracted
                && (s.final_usage is Some ==> s.seen_completed),
        }
    }

    /// The machine after an event.
    pub open spec fn after_event(self, event: Seq<u8>) -> Machine {
        Machine {
            state: protocol_next(self.state, event),
            strip_usage_chunk: self.strip_usage_chunk,
            usage_extracted: self.usage_extracted || protocol_yield(
                self.state,
                event,
                self.strip_usage_chunk,
            ).usage is Some,
        }
    }

    /// What an event yields: usage only where none was reported before.
    pub open spec fn event_yield(self, event: Seq<u8>) -> Yield {
        let outcome = protocol_yield(self.state, event, self.strip_usage_chunk);
        Yield {
            forward: outcome.forward,
            usage: if self.usage_extracted {
                None
            } else {
                outcome.usage
            },
            token_delta: outcome.token_delta,
        }
    }

    /// The machine after a row of events.
    pub open spec fn after_events(self, events: Seq<Seq<u8>>) -> Machine
        decreases events.len(),
    {
        if events.len() == 0 {
            self
        } else {
            self.after_events(events.drop_last()).after_event(events.last())
        }
    }

    /// What a row of events yields.
    pub open spec fn events_yield(self, events: Seq<Seq<u8>>) -> Yield
        decreases events.len(),
    {
        if events.len() == 0 {
            nothing()
        } else {
            then_yield(
                self.events_yield(events.drop_last()),
                self.after_events(events.drop_last()).event_yield(events.last()),
            )
        }
    }

    /// The machine at the end of the stream, with what is left of it.
    pub open spec fn after_flush(self, rest: Seq<u8>) -> Machine {
        let last = if rest.len() == 0 {
            self
        } else {
            self.after_event(rest)
        };
        Machine {
            usage_extracted: last.usage_extracted || protocol_final_usage(last.state) is Some,
            ..last
        }
    }

    /// What the end of the stream yields: the rest taken as a last event, then
    /// the usage that the state amounts to where none was reported.
    pub open spec fn flush_yield(self, rest: Seq<u8>) -> Yield {
        let last = if rest.len() == 0 {
            self
        } else {
            self.after_event(rest)
        };
        let outcome = if rest.len() == 0 {
            nothing()
        } else {
            self.event_yield(rest)
        };
        Yield {
            usage: if last.usage_extracted {
                outcome.usage
            } else {
                protocol_final_usage(last.state)
            },
            ..outcome
        }
    }
}

impl ExtractorView {
    /// Between calls no complete event waits in the buffer, and the machine is
    /// well-formed.
    pub open spec fn wf(self) -> bool {
        !framing::has_boundary(self.buffer) && self.machine.wf()
    }

    /// The extractor after a chunk.
    pub open spec fn after_feed(self, chunk: Seq<u8>) -> ExtractorView {
        ExtractorView {
            buffer: framing::residue(self.buffer + chunk),
            machine: self.machine.after_events(framing::events(self.buffer + chunk)),
        }
    }

    /// What a chunk yields: the events that it completes.
    pub open spec fn feed_yield(self, chunk: Seq<u8>) -> Yield {
        self.machine.events_yield(framing::events(self.buffer + chunk))
    }

    /// The extractor after the end of the stream.
    pub open spec fn after_flush(self) -> ExtractorView {
        ExtractorView { buffer: Seq::empty(), machine: self.machine.after_flush(self.buffer) }
    }

    /// What the end of the stream yields.
    pub open spec fn flush_yield(self) -> Yield {
        self.machine.flush_yield(self.buffer)
    }
}

/// Events keep the machine well-formed.
pub proof fn lemma_events_wf(machine: Machine, events: Seq<Seq<u8>>)
    requires
        machine.wf(),
    ensures
        machine.after_events(events).wf(),
    decreases events.len(),
{
    if events.len() > 0 {
        lemma_events_wf(machine, events.drop_last());
    }
}

/// A chunk keeps the extractor well-formed.
pub proof fn lemma_feed_wf(v: ExtractorView, chunk: Seq<u8>)
    requires
        v.machine.wf(),
    ensures
        v.after_feed(chunk).wf(),
{
    lemma_events_wf(v.machine, framing::events(v.buffer + chunk));
    framing::lemma_events_partition(v.buffer + chunk);
}

/// The end of the stream keeps the extractor well-formed.
pub proof fn lemma_flush_wf(v: ExtractorView)
    requires
        v.machine.wf(),
    ensures
        v.after_flush().wf(),
{
}

/// SSE byte-buffer state machine.
#[derive(Debug)]
pub struct SseExtractor {
    buffer: Vec<u8>,
    state: ProtocolState,
    strip_usage_chunk: bool,
    usage_extracted: bool,
}

impl View for SseExtractor {
    type V = ExtractorView;

    closed spec fn view(&self) -> ExtractorView {
        ExtractorView {
            buffer: self.buffer@,
            machine: Machine {
                state: self.state,
                strip_usage_chunk: self.strip_usage_chunk,
                usage_extracted: self.usage_extracted,
            },
        }
    }
}

impl SseExtractor {
    pub fn new(protocol: SseProtocol, strip_usage_chunk: bool) -> (extractor: Self)
        ensures
            extractor@ == (ExtractorView {
                buffer: Seq::empty(),
                machine: Machine {
                    state: initial_state(protocol),
                    strip_usage_chunk,
                    usage_extracted: false,
                },
            }),
            extractor@.wf(),
    {
        let buffer: Vec<u8> = Vec::with_capacity(4096);
        assert(buffer@ =~= Seq::<u8>::empty());
        Self {
            buffer,
            state: ProtocolState::new(protocol),
            strip_usage_chunk,
            usage_extracted: false,
        }
    }

    /// Feed the next chunk of bytes from the upstream stream. Returns the bytes
    /// for the client, the usage if it was found, and the token estimate.
    pub fn feed(&mut self, chunk: &[u8]) -> (parsed: ParsedChunk)
        ensures
            final(self)@ == old(self)@.after_feed(chunk@),
            parsed@ == old(self)@.feed_yield(chunk@),
            !framing::has_boundary(final(self)@.buffer),
            old(self)@.wf() ==> final(self)@.wf(),
    {
        self.buffer.extend_from_slice(chunk);
        assert(self.buffer@ =~= old(self)@.buffer + chunk@);
        let ghost all = self.buffer@;
        let ghost start = self@.machine;
        let ghost mut done: Seq<Seq<u8>> = Seq::empty();

        let mut forward: Vec<u8> = Vec::with_capacity(chunk.len());
        let mut usage: Option<ParsedUsage> = None;
        let mut token_delta: u64 = 0;
        assert(forward@ =~= Seq::<u8>::empty());
        assert(done + framing::events(all) =~= framing::events(all));
        // Find complete events and process them. Anything after the last one is
        // partial: keep it in the buffer for the next feed.
        loop
            invariant
                framing::events(all) == done + framing::events(self.buffer@),
                framing::residue(all) == framing::residue(self.buffer@),
                self@.machine == start.after_events(done),
                forward@ == start.events_yield(done).forward,
                usage == start.events_yield(done).usage,
                token_delta == start.events_yield(done).token_delta,
            ensures
                framing::events(all) == done,
                framing::residue(all) == self.buffer@,
                self@.machine == start.after_events(done),
                forward@ == start.events_yield(done).forward,
                usage == start.events_yield(done).usage,
                token_delta == start.events_yield(done).token_delta,
            decreases self.buffer@.len(),
        {
            let boundary = match find_event_boundary(self.buffer.as_slice()) {
                Some(boundary) => boundary,
                None => {
                    proof {
                        framing::lemma_no_boundary(self.buffer@);
                        assert(done + Seq::<Seq<u8>>::empty() =~= done);
                    }
                    break ;
                },
            };
            let ghost before = self.buffer@;
            let ghost machine = self@.machine;
            proof {
                framing::lemma_first_boundary_unique(before, boundary as int);
                assert(boundary + 2 <= self.buffer.len());
            }
            // Split: the event goes up to and with its blank line, the rest stays.
            let mut event_bytes: Vec<u8> = self.buffer.split_off(boundary + 2);
            std::mem::swap(&mut event_bytes, &mut self.buffer);
            proof {
                assert(event_bytes@ =~= before.take(boundary + 2));
                assert(self.buffer@ =~= before.skip(boundary + 2));
                assert(done + (seq![event_bytes@] + framing::events(self.buffer@)) =~= done.push(
                    event_bytes@,
                ) + framing::events(self.buffer@));
                assert(done.push(event_bytes@).drop_last() =~= done);
            }
            let outcome = self.state.process_event(event_bytes.as_slice(), self.strip_usage_chunk);
            let ghost before_forward = forward@;
            forward.extend_from_slice(outcome.forward.as_slice());
            assert(forward@ =~= before_forward + outcome.forward@);
            token_delta = token_delta.saturating_add(outcome.token_delta);
            if outcome.usage.is_some() {
                if !self.usage_extracted {
                    self.usage_extracted = true;
                    usage = outcome.usage;
                }
            }
            proof {
                done = done.push(event_bytes@);
                assert(self@.machine == machine.after_event(event_bytes@));
            }
        }
        proof {
            framing::lemma_events_partition(all);
            if old(self)@.wf() {
                lemma_feed_wf(old(self)@, chunk@);
            }
        }
        ParsedChunk { forward, usage, token_delta }
    }

    /// Flush any remaining partial buffer. Called once on stream end. For most
    /// well-formed streams this forwards nothing (everything ended in a blank
    /// line).
    pub fn flush(&mut self) -> (parsed: ParsedChunk)
        ensures
            final(self)@ == old(self)@.after_flush(),
            parsed@ == old(self)@.flush_yield(),
            old(self)@.wf() ==> final(self)@.wf(),
    {
        let mut forward: Vec<u8> = Vec::new();
        let mut usage: Option<ParsedUsage> = None;
        let mut token_delta: u64 = 0;
        assert(forward@ =~= Seq::<u8>::empty());

        if !self.buffer.is_empty() {
            // Treat the residue as a final event (no closing blank line).
            let mut event_bytes: Vec<u8> = Vec::new();
            std::mem::swap(&mut event_bytes, &mut self.buffer);
            let outcome = self.state.process_event(event_bytes.as_slice(), self.strip_usage_chunk);
            forward.extend_from_slice(outcome.forward.as_slice());
            assert(forward@ =~= outcome.forward@);
            token_delta = token_delta.saturating_add(outcome.token_delta);
            if outcome.usage.is_some() {
                if !self.usage_extracted {
                    self.usage_extracted = true;
                    usage = outcome.usage;
                }
            }
        }
        assert(self.buffer@ =~= Seq::<u8>::empty());
        // Final reconciliation (Anthropic: combine the input and output counts
        // even if no single event carried the full picture).
        if usage.is_none() && !self.usage_extracted {
            let final_usage = self.state.finalize();
            if final_usage.is_some() {
                self.usage_extracted = true;
                usage = final_usage;
            }
        }
        ParsedChunk { forward, usage, token_delta }
    }
}

} // verus!
