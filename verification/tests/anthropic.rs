use model_gateway::sse::anthropic::{
    build_usage, finalize, process_event, process_readings, read_document, AnthropicReading,
    AnthropicState, StartUsage,
};
use model_gateway::sse::{ParsedUsage, SseExtractor, SseProtocol};

fn anthropic_full_stream(cache_read: u64) -> Vec<u8> {
    let mut s = String::new();
    s.push_str(&format!(
        "event: message_start\ndata: {{\"type\":\"message_start\",\"message\":{{\"id\":\"msg_1\",\"usage\":{{\"input_tokens\":25,\"cache_read_input_tokens\":{cache_read},\"output_tokens\":1}}}}}}\n\n"
    ));
    for _ in 0..3 {
        s.push_str("event: content_block_delta\ndata: {\"type\":\"content_block_delta\",\"index\":0,\"delta\":{\"type\":\"text_delta\",\"text\":\"hi\"}}\n\n");
    }
    s.push_str("event: message_delta\ndata: {\"type\":\"message_delta\",\"delta\":{\"stop_reason\":\"end_turn\"},\"usage\":{\"output_tokens\":15}}\n\n");
    s.push_str("event: message_stop\ndata: {\"type\":\"message_stop\"}\n\n");
    s.into_bytes()
}

#[test]
fn full_stream_extracts_usage_with_cache_read() {
    let stream = anthropic_full_stream(10);
    let mut e = SseExtractor::new(SseProtocol::AnthropicMessages, false);
    let p = e.feed(&stream);
    assert_eq!(
        p.usage,
        Some(ParsedUsage {
            total_tokens: 40, // 25 input + 15 output
            prompt_tokens: Some(25),
            completion_tokens: Some(15),
            cached_tokens: Some(10),
        })
    );
}

#[test]
fn full_stream_no_cache_read_field() {
    // Some Anthropic responses don't include cache_read_input_tokens at all.
    let stream = anthropic_full_stream(0);
    let mut e = SseExtractor::new(SseProtocol::AnthropicMessages, false);
    let p = e.feed(&stream);
    // cache_read=0 in our fixture → still Some(0) (field present in JSON).
    assert_eq!(p.usage.as_ref().unwrap().cached_tokens, Some(0));
}

#[test]
fn cumulative_output_tokens_drives_token_delta() {
    // Two message_delta events: first reports 10, second reports 15. Delta should be 10 then 5.
    let mut s = String::new();
    s.push_str("event: message_start\ndata: {\"type\":\"message_start\",\"message\":{\"id\":\"m\",\"usage\":{\"input_tokens\":5,\"output_tokens\":1}}}\n\n");
    s.push_str("event: message_delta\ndata: {\"type\":\"message_delta\",\"delta\":{},\"usage\":{\"output_tokens\":10}}\n\n");
    s.push_str("event: message_delta\ndata: {\"type\":\"message_delta\",\"delta\":{},\"usage\":{\"output_tokens\":15}}\n\n");
    s.push_str("event: message_stop\ndata: {\"type\":\"message_stop\"}\n\n");
    let mut e = SseExtractor::new(SseProtocol::AnthropicMessages, false);
    let p = e.feed(s.as_bytes());
    // Total token_delta across the whole feed = 10 (first) + 5 (second) = 15.
    assert_eq!(p.token_delta, 15);
}

#[test]
fn anthropic_never_strips_events() {
    let stream = anthropic_full_stream(10);
    let mut e = SseExtractor::new(SseProtocol::AnthropicMessages, true /* strip flag ignored */);
    let p = e.feed(&stream);
    assert_eq!(
        p.forward.len(),
        stream.len(),
        "Anthropic forward bytes must match input verbatim"
    );
}

#[test]
fn partial_chunks_split_inside_event_data() {
    let stream = anthropic_full_stream(10);
    let mut e = SseExtractor::new(SseProtocol::AnthropicMessages, false);
    let mut usage = None;
    for chunk in stream.chunks(7) {
        let p = e.feed(chunk);
        if p.usage.is_some() {
            usage = p.usage;
        }
    }
    let p = e.flush();
    if usage.is_none() {
        usage = p.usage;
    }
    assert_eq!(usage.as_ref().unwrap().total_tokens, 40);
}

#[test]
fn message_start_only_no_message_delta_yields_partial_usage_on_flush() {
    let s = b"event: message_start\ndata: {\"type\":\"message_start\",\"message\":{\"id\":\"m\",\"usage\":{\"input_tokens\":42,\"output_tokens\":3}}}\n\n";
    let mut e = SseExtractor::new(SseProtocol::AnthropicMessages, false);
    let _ = e.feed(s);
    let p = e.flush();
    // No message_stop seen → flush() falls through to finalize() and
    // synthesizes usage from the message_start values.
    assert_eq!(p.usage.as_ref().unwrap().total_tokens, 45);
}

#[test]
fn token_delta_is_what_the_count_rises_by() {
    let mut state = AnthropicState::default();
    let readings = [
        AnthropicReading::MessageDelta(Some(10)),
        AnthropicReading::MessageDelta(Some(4)),
        AnthropicReading::MessageDelta(None),
        AnthropicReading::MessageDelta(Some(12)),
    ];
    let outcome = process_readings(&mut state, b"e", &readings);
    assert_eq!(outcome.token_delta, 12);
    assert_eq!(state.last_reported_output_tokens, 12);
    assert_eq!(state.output_tokens_cumulative, 12);
    let outcome = process_readings(&mut state, b"e", &[AnthropicReading::MessageDelta(Some(5))]);
    assert_eq!(outcome.token_delta, 0);
    assert_eq!(state.last_reported_output_tokens, 12);
    assert_eq!(state.output_tokens_cumulative, 5);
    let outcome = process_readings(
        &mut state,
        b"e",
        &[AnthropicReading::MessageDelta(Some(u64::MAX))],
    );
    assert_eq!(outcome.token_delta, u64::MAX - 12);
}

#[test]
fn stop_without_input_count_reports_nothing() {
    let mut state = AnthropicState::default();
    let outcome = process_readings(&mut state, b"e", &[AnthropicReading::MessageStop]);
    assert_eq!(outcome.usage, None);
    assert!(state.seen_message_stop);
    assert_eq!(finalize(&state), None);
    // The input count arrives late: usage follows at once.
    let start = AnthropicReading::MessageStart(Some(StartUsage {
        input_tokens: Some(u64::MAX),
        cache_read_input_tokens: None,
        output_tokens: Some(3),
    }));
    let outcome = process_readings(&mut state, b"e", &[start]);
    assert_eq!(
        outcome.usage,
        Some(ParsedUsage {
            total_tokens: u64::MAX,
            prompt_tokens: Some(u64::MAX),
            completion_tokens: Some(3),
            cached_tokens: None,
        })
    );
    assert_eq!(build_usage(&state), outcome.usage);
}

#[test]
fn a_start_without_usage_changes_nothing() {
    let mut state = AnthropicState::default();
    let event = b"data: {\"type\":\"message_start\",\"message\":{\"id\":\"m\"}}\n\n";
    let outcome = process_event(&mut state, event);
    assert_eq!(outcome.forward, event.to_vec());
    assert_eq!(outcome.token_delta, 0);
    assert_eq!(state.input_tokens, None);
    // A usage that lacks the input count clears it.
    state.input_tokens = Some(4);
    process_event(
        &mut state,
        b"data: {\"type\":\"message_start\",\"message\":{\"usage\":{}}}\n\n",
    );
    assert_eq!(state.input_tokens, None);
}

#[test]
fn documents_are_told_apart_by_type() {
    let read = |json: &str| read_document(&serde_json::from_str(json).unwrap());
    assert!(matches!(read(r#"{"type":"message_stop"}"#), AnthropicReading::MessageStop));
    assert!(matches!(
        read(r#"{"type":"message_delta","usage":{"output_tokens":3}}"#),
        AnthropicReading::MessageDelta(Some(3))
    ));
    assert!(matches!(
        read(r#"{"type":"message_delta","usage":{"output_tokens":-3}}"#),
        AnthropicReading::MessageDelta(None)
    ));
    assert!(matches!(
        read(r#"{"type":"message_start","message":{"usage":{"input_tokens":1,"cache_read_input_tokens":2}}}"#),
        AnthropicReading::MessageStart(Some(StartUsage {
            input_tokens: Some(1),
            cache_read_input_tokens: Some(2),
            output_tokens: None,
        }))
    ));
    assert!(matches!(
        read(r#"{"type":"message_start"}"#),
        AnthropicReading::MessageStart(None)
    ));
    assert!(matches!(read(r#"{"type":"ping"}"#), AnthropicReading::Other));
    assert!(matches!(read(r#"{"type":7}"#), AnthropicReading::Other));
    assert!(matches!(read(r#""message_stop""#), AnthropicReading::Other));
}
