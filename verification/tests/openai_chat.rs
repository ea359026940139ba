use model_gateway::sse::openai_chat::{
    has_content_delta, has_no_choices, parse_usage, process_event, process_readings, read_document,
    ChatReading, OpenAiChatState,
};
use model_gateway::sse::{ParsedUsage, SseExtractor, SseProtocol};

fn build_event(json: &str) -> Vec<u8> {
    format!("data: {json}\n\n").into_bytes()
}

fn full_stream(strip: bool) -> Vec<u8> {
    let mut s = Vec::new();
    s.extend_from_slice(&build_event(r#"{"choices":[{"delta":{"content":"Hello"}}]}"#));
    s.extend_from_slice(&build_event(r#"{"choices":[{"delta":{"content":" world"}}]}"#));
    s.extend_from_slice(&build_event(
        r#"{"choices":[{"delta":{},"finish_reason":"stop"}]}"#,
    ));
    s.extend_from_slice(&build_event(
        r#"{"choices":[],"usage":{"total_tokens":12,"prompt_tokens":3,"completion_tokens":9}}"#,
    ));
    s.extend_from_slice(b"data: [DONE]\n\n");
    let _ = strip;
    s
}

fn parse(json: &str) -> serde_json::Value {
    serde_json::from_str(json).unwrap()
}

#[test]
fn full_stream_oneshot_extracts_usage() {
    let stream = full_stream(false);
    let mut e = SseExtractor::new(SseProtocol::OpenAiChat, false);
    let parsed = e.feed(&stream);
    assert_eq!(
        parsed.usage,
        Some(ParsedUsage {
            total_tokens: 12,
            prompt_tokens: Some(3),
            completion_tokens: Some(9),
            cached_tokens: None,
        })
    );
}

#[test]
fn token_delta_counts_content_events() {
    let stream = full_stream(false);
    let mut e = SseExtractor::new(SseProtocol::OpenAiChat, false);
    let parsed = e.feed(&stream);
    // 2 events with content delta ("Hello", " world"); finish_reason and usage events have no content.
    assert_eq!(parsed.token_delta, 2);
}

#[test]
fn partial_chunks_across_event_boundary() {
    let stream = full_stream(false);
    let mut e = SseExtractor::new(SseProtocol::OpenAiChat, false);
    // Split midway through the second event.
    let mid = stream.len() / 2;
    let p1 = e.feed(&stream[..mid]);
    let p2 = e.feed(&stream[mid..]);
    let combined_forward = [p1.forward, p2.forward].concat();
    assert_eq!(
        combined_forward.len(),
        stream.len(),
        "forward bytes must equal input bytes when strip=false"
    );
    assert!(p1.usage.is_some() || p2.usage.is_some());
}

#[test]
fn partial_chunks_split_inside_json() {
    let stream = full_stream(false);
    let mut e = SseExtractor::new(SseProtocol::OpenAiChat, false);
    // Feed byte-by-byte to stress-test buffer.
    let mut got_usage = false;
    for b in &stream {
        let parsed = e.feed(&[*b]);
        if parsed.usage.is_some() {
            got_usage = true;
        }
    }
    assert!(got_usage, "byte-by-byte feed must still yield usage");
}

#[test]
fn no_usage_chunk_falls_through() {
    let mut s = Vec::new();
    s.extend_from_slice(&build_event(r#"{"choices":[{"delta":{"content":"Hello"}}]}"#));
    s.extend_from_slice(b"data: [DONE]\n\n");
    let mut e = SseExtractor::new(SseProtocol::OpenAiChat, false);
    let parsed = e.feed(&s);
    assert_eq!(parsed.usage, None);
    let flushed = e.flush();
    assert_eq!(flushed.usage, None);
}

#[test]
fn strip_usage_chunk_when_enabled() {
    let stream = full_stream(true);
    let mut e = SseExtractor::new(SseProtocol::OpenAiChat, true);
    let parsed = e.feed(&stream);
    assert_eq!(parsed.usage.as_ref().map(|u| u.total_tokens), Some(12));
    // The forward must NOT contain the usage chunk bytes.
    let forward_str = String::from_utf8_lossy(&parsed.forward);
    assert!(
        !forward_str.contains(r#""total_tokens":12"#),
        "stripped output must not contain usage payload, got: {forward_str}"
    );
    assert!(forward_str.contains("Hello"), "content delta still present");
    assert!(forward_str.contains("[DONE]"), "[DONE] still present");
}

#[test]
fn keep_usage_chunk_when_disabled() {
    let stream = full_stream(false);
    let mut e = SseExtractor::new(SseProtocol::OpenAiChat, false);
    let parsed = e.feed(&stream);
    let forward_str = String::from_utf8_lossy(&parsed.forward);
    assert!(forward_str.contains(r#""total_tokens":12"#));
}

#[test]
fn strip_drops_exactly_the_usage_event() {
    let stream = full_stream(true);
    let usage_event = build_event(
        r#"{"choices":[],"usage":{"total_tokens":12,"prompt_tokens":3,"completion_tokens":9}}"#,
    );
    let mut expected = Vec::new();
    expected.extend_from_slice(&build_event(r#"{"choices":[{"delta":{"content":"Hello"}}]}"#));
    expected.extend_from_slice(&build_event(r#"{"choices":[{"delta":{"content":" world"}}]}"#));
    expected.extend_from_slice(&build_event(
        r#"{"choices":[{"delta":{},"finish_reason":"stop"}]}"#,
    ));
    expected.extend_from_slice(b"data: [DONE]\n\n");
    assert_eq!(expected.len() + usage_event.len(), stream.len());

    let mut stripping = SseExtractor::new(SseProtocol::OpenAiChat, true);
    let mut keeping = SseExtractor::new(SseProtocol::OpenAiChat, false);
    let stripped = stripping.feed(&stream);
    let kept = keeping.feed(&stream);
    assert_eq!(stripped.forward, expected);
    assert_eq!(kept.forward, stream);
    // Stripping touches nothing but the forwarded bytes.
    assert_eq!(stripped.usage, kept.usage);
    assert_eq!(stripped.token_delta, kept.token_delta);
    // A second usage event is neither reported nor stripped.
    let again = stripping.feed(&usage_event);
    assert_eq!(again.usage, None);
    assert_eq!(again.forward, usage_event);
}

#[test]
fn unfinished_usage_event_is_read_on_flush() {
    let mut e = SseExtractor::new(SseProtocol::OpenAiChat, true);
    let p = e.feed(br#"data: {"choices":[],"usage":{"total_tokens":9}}"#);
    assert!(p.forward.is_empty());
    assert_eq!(p.usage, None);
    let p = e.flush();
    assert!(p.forward.is_empty());
    assert_eq!(p.usage.map(|u| u.total_tokens), Some(9));
}

#[test]
fn usage_beside_choices_is_not_the_usage_chunk() {
    let event = build_event(
        r#"{"choices":[{"delta":{"content":"x"}}],"usage":{"total_tokens":5}}"#,
    );
    let mut state = OpenAiChatState::default();
    let outcome = process_event(&mut state, &event, true);
    assert_eq!(outcome.usage, None);
    assert_eq!(outcome.forward, event);
    assert_eq!(outcome.token_delta, 1);
    assert!(!state.usage_emitted);
}

#[test]
fn every_data_line_of_an_event_counts() {
    let event = b"data: {\"choices\":[{\"delta\":{\"content\":\"a\"}}]}\ndata: {\"choices\":[{\"delta\":{\"content\":\"b\"}}]}\n\n";
    let mut state = OpenAiChatState::default();
    let outcome = process_event(&mut state, event, false);
    assert_eq!(outcome.token_delta, 2);
}

#[test]
fn content_needs_a_non_empty_string_in_the_first_choice() {
    assert!(has_content_delta(&parse(r#"{"choices":[{"delta":{"content":"x"}}]}"#)));
    assert!(!has_content_delta(&parse(r#"{"choices":[{"delta":{"content":""}}]}"#)));
    assert!(!has_content_delta(&parse(r#"{"choices":[{"delta":{"content":1}}]}"#)));
    assert!(!has_content_delta(&parse(r#"{"choices":[{"delta":{}}]}"#)));
    assert!(!has_content_delta(&parse(r#"{"choices":[{}]}"#)));
    assert!(!has_content_delta(&parse(
        r#"{"choices":[{},{"delta":{"content":"x"}}]}"#
    )));
    assert!(!has_content_delta(&parse(r#"{"choices":[]}"#)));
    assert!(!has_content_delta(&parse(r#"{"choices":{"0":{"delta":{"content":"x"}}}}"#)));
    assert!(!has_content_delta(&parse(r#"{}"#)));
    assert!(!has_content_delta(&parse(r#"[]"#)));
}

#[test]
fn no_choices_means_an_empty_list() {
    assert!(has_no_choices(&parse(r#"{"choices":[]}"#)));
    assert!(!has_no_choices(&parse(r#"{"choices":[1]}"#)));
    assert!(!has_no_choices(&parse(r#"{"choices":{}}"#)));
    assert!(!has_no_choices(&parse(r#"{"choices":null}"#)));
    assert!(!has_no_choices(&parse(r#"{}"#)));
}

#[test]
fn usage_counts_are_unsigned_integers() {
    assert_eq!(
        parse_usage(&parse(
            r#"{"usage":{"total_tokens":7,"prompt_tokens":-1,"completion_tokens":2.5,"prompt_tokens_details":{"cached_tokens":4}}}"#
        )),
        Some(ParsedUsage {
            total_tokens: 7,
            prompt_tokens: None,
            completion_tokens: None,
            cached_tokens: Some(4),
        })
    );
    assert_eq!(
        parse_usage(&parse(r#"{"usage":{"total_tokens":18446744073709551615}}"#))
            .map(|u| u.total_tokens),
        Some(u64::MAX)
    );
    assert_eq!(parse_usage(&parse(r#"{"usage":{"total_tokens":18446744073709551616}}"#)), None);
    assert_eq!(parse_usage(&parse(r#"{"usage":{"total_tokens":"7"}}"#)), None);
    assert_eq!(parse_usage(&parse(r#"{"usage":{"prompt_tokens":7}}"#)), None);
    assert_eq!(parse_usage(&parse(r#"{"usage":[7]}"#)), None);
    assert_eq!(parse_usage(&parse(r#"{"usage":null}"#)), None);
    assert_eq!(parse_usage(&parse(r#"{}"#)), None);
}

#[test]
fn a_usage_document_adds_no_content() {
    let reading = read_document(&parse(r#"{"choices":[],"usage":{"total_tokens":7}}"#));
    assert!(!reading.has_content);
    assert_eq!(reading.usage.map(|u| u.total_tokens), Some(7));
    let reading = read_document(&parse(
        r#"{"choices":[{"delta":{"content":"x"}}],"usage":{"total_tokens":7}}"#,
    ));
    assert!(reading.has_content);
    assert_eq!(reading.usage, None);
}

#[test]
fn readings_decide_the_outcome() {
    let usage = ParsedUsage {
        total_tokens: 12,
        prompt_tokens: Some(3),
        completion_tokens: Some(9),
        cached_tokens: None,
    };
    let other = ParsedUsage { total_tokens: 1, ..usage };
    let readings = [
        ChatReading { has_content: true, usage: None },
        ChatReading { has_content: false, usage: Some(usage) },
        ChatReading { has_content: true, usage: Some(other) },
    ];
    let mut state = OpenAiChatState::default();
    let outcome = process_readings(&mut state, b"event", &readings, true);
    assert_eq!(outcome.usage, Some(usage));
    assert_eq!(outcome.token_delta, 2);
    assert!(outcome.forward.is_empty());
    assert!(state.usage_emitted);
    let outcome = process_readings(&mut state, b"event", &readings, true);
    assert_eq!(outcome.usage, None);
    assert_eq!(outcome.forward, b"event".to_vec());
}
