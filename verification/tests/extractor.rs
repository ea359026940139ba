use model_gateway::sse::framing::{extract_data_payload, find_event_boundary};
use model_gateway::sse::{
    detect_protocol, ParsedChunk, ParsedUsage, SseExtractor, SseProtocol,
    INCREMENTAL_TOKEN_INTERVAL,
};

#[test]
fn detect_protocol_anthropic() {
    assert_eq!(detect_protocol("/v1/messages"), SseProtocol::AnthropicMessages);
    assert_eq!(
        detect_protocol("http://b1:8000/v1/messages"),
        SseProtocol::AnthropicMessages
    );
}

#[test]
fn detect_protocol_responses() {
    assert_eq!(detect_protocol("/v1/responses"), SseProtocol::OpenAiResponses);
}

#[test]
fn detect_protocol_default_openai_chat() {
    assert_eq!(detect_protocol("/v1/chat/completions"), SseProtocol::OpenAiChat);
    assert_eq!(detect_protocol("/anything-else"), SseProtocol::OpenAiChat);
}

#[test]
fn detect_protocol_prefers_messages() {
    assert_eq!(
        detect_protocol("/v1/responses/v1/messages"),
        SseProtocol::AnthropicMessages
    );
    assert_eq!(detect_protocol(""), SseProtocol::OpenAiChat);
    assert_eq!(detect_protocol("/v1/message"), SseProtocol::OpenAiChat);
    assert_eq!(
        detect_protocol("/v1/responses/resp_1"),
        SseProtocol::OpenAiResponses
    );
}

#[test]
fn find_event_boundary_basic() {
    assert_eq!(find_event_boundary(b"data: x\n\nrest"), Some(7));
    assert_eq!(find_event_boundary(b"data: x"), None);
    assert_eq!(find_event_boundary(b""), None);
}

#[test]
fn find_event_boundary_takes_the_first() {
    assert_eq!(find_event_boundary(b"\n\n\n"), Some(0));
    assert_eq!(find_event_boundary(b"a\nb\n\nc\n\n"), Some(3));
    assert_eq!(find_event_boundary(b"\n"), None);
    assert_eq!(find_event_boundary(b"a\n"), None);
    assert_eq!(find_event_boundary(b"a\r\n\r\n"), None);
}

#[test]
fn extract_data_payload_basic() {
    assert_eq!(extract_data_payload(b"data: hello"), Some(&b"hello"[..]));
    assert_eq!(extract_data_payload(b"data:hello"), Some(&b"hello"[..]));
    assert_eq!(extract_data_payload(b"data:  hello"), Some(&b"hello"[..]));
    assert_eq!(extract_data_payload(b"event: foo"), None);
    assert_eq!(extract_data_payload(b": comment"), None);
    assert_eq!(extract_data_payload(b""), None);
}

#[test]
fn extract_data_payload_padding() {
    assert_eq!(extract_data_payload(b"data:"), Some(&b""[..]));
    assert_eq!(extract_data_payload(b"data:   "), Some(&b""[..]));
    assert_eq!(extract_data_payload(b"data:\t\rx y "), Some(&b"x y "[..]));
    assert_eq!(extract_data_payload(b"data:: x: y"), Some(&b"x: y"[..]));
    assert_eq!(extract_data_payload(b"data"), None);
    assert_eq!(extract_data_payload(b" data: x"), None);
}

#[test]
fn buffers_partial_event_across_feeds() {
    let mut e = SseExtractor::new(SseProtocol::OpenAiChat, false);
    // First feed: incomplete event.
    let p1 = e.feed(b"data: {\"choices\":[{\"delta\":{\"content\":\"hi\"");
    assert_eq!(p1.usage, None);
    // Second feed: completes the event with \n\n.
    let p2 = e.feed(b"}}]}\n\n");
    // No usage chunk yet (just content delta), so usage is None.
    assert_eq!(p2.usage, None);
    // Combined output should be the concatenation of both inputs.
    let combined: Vec<u8> = p1.forward.iter().chain(p2.forward.iter()).copied().collect();
    assert!(combined.starts_with(b"data:"));
}

#[test]
fn handles_keepalive_comment_lines() {
    let mut e = SseExtractor::new(SseProtocol::OpenAiChat, false);
    let p = e.feed(b": keepalive\n\ndata: {\"choices\":[{\"delta\":{\"content\":\"ok\"}}]}\n\n");
    // No usage; both events forwarded; comment line forwarded unchanged.
    assert_eq!(p.usage, None);
    assert!(p.forward.contains(&b':'));
}

#[test]
fn keepalive_is_forwarded_and_nothing_else() {
    let protocols = [
        SseProtocol::OpenAiChat,
        SseProtocol::AnthropicMessages,
        SseProtocol::OpenAiResponses,
    ];
    for protocol in protocols {
        let mut e = SseExtractor::new(protocol, true);
        let p = e.feed(b": keepalive\n\n");
        assert_eq!(p.forward, b": keepalive\n\n".to_vec());
        assert_eq!(p.usage, None);
        assert_eq!(p.token_delta, 0);
    }
}

#[test]
fn partial_event_waits_for_its_end() {
    let mut e = SseExtractor::new(SseProtocol::OpenAiResponses, false);
    let p = e.feed(b"one\n\ntwo\n");
    assert_eq!(p.forward, b"one\n\n".to_vec());
    let p = e.feed(b"\nthree");
    assert_eq!(p.forward, b"two\n\n".to_vec());
    let p = e.flush();
    assert_eq!(p.forward, b"three".to_vec());
}

#[test]
fn flush_twice_yields_nothing() {
    let mut e = SseExtractor::new(SseProtocol::AnthropicMessages, false);
    e.feed(b"data: {\"type\":\"message_start\",\"message\":{\"usage\":{\"input_tokens\":7}}}\n\nrest");
    let first = e.flush();
    assert_eq!(first.forward, b"rest".to_vec());
    assert_eq!(first.usage.map(|u| u.total_tokens), Some(7));
    let second = e.flush();
    assert!(second.forward.is_empty());
    assert_eq!(second.usage, None);
    assert_eq!(second.token_delta, 0);
}

#[test]
fn flush_of_a_fresh_extractor_yields_nothing() {
    let mut e = SseExtractor::new(SseProtocol::OpenAiChat, true);
    let p = e.flush();
    assert!(p.forward.is_empty());
    assert_eq!(p.usage, None);
    assert_eq!(p.token_delta, 0);
}

#[test]
fn flush_of_a_finished_stream_yields_nothing() {
    let mut e = SseExtractor::new(SseProtocol::OpenAiResponses, false);
    let p = e.feed(b"data: {\"type\":\"response.completed\",\"response\":{\"usage\":{\"total_tokens\":8}}}\n\n");
    assert_eq!(p.usage.map(|u| u.total_tokens), Some(8));
    let p = e.flush();
    assert!(p.forward.is_empty());
    assert_eq!(p.usage, None);
    assert_eq!(p.token_delta, 0);
}

#[test]
fn stripping_at_the_end_touches_only_the_bytes() {
    let rest: &[u8] = b"data: {\"choices\":[{\"delta\":{\"content\":\"a\"}}]}\ndata: {\"choices\":[],\"usage\":{\"total_tokens\":4}}\n";
    let mut stripping = SseExtractor::new(SseProtocol::OpenAiChat, true);
    let mut keeping = SseExtractor::new(SseProtocol::OpenAiChat, false);
    assert!(stripping.feed(rest).forward.is_empty());
    assert!(keeping.feed(rest).forward.is_empty());
    let stripped = stripping.flush();
    let kept = keeping.flush();
    assert!(stripped.forward.is_empty());
    assert_eq!(kept.forward, rest.to_vec());
    assert_eq!(stripped.usage, kept.usage);
    assert_eq!(stripped.usage.map(|u| u.total_tokens), Some(4));
    assert_eq!(stripped.token_delta, 1);
    assert_eq!(kept.token_delta, 1);
}

#[test]
fn feeds_forward_whole_events() {
    for strip in [false, true] {
        let mut e = SseExtractor::new(SseProtocol::OpenAiChat, strip);
        let stream: &[u8] = b"one\n\ndata: {\"choices\":[],\"usage\":{\"total_tokens\":3}}\n\ntwo\n\n\nthree";
        for chunk in stream.chunks(3) {
            let p = e.feed(chunk);
            assert!(p.forward.is_empty() || p.forward.ends_with(b"\n\n"));
        }
    }
}

#[test]
fn flush_reads_as_a_blank_line_would() {
    let chat: &[u8] = b"data: {\"choices\":[{\"delta\":{\"content\":\"a\"}}]}\ndata: {\"choices\":[],\"usage\":{\"total_tokens\":3}}";
    let responses: &[u8] = b"data: {\"type\":\"response.output_text.delta\"}\ndata: {\"type\":\"response.completed\",\"response\":{\"usage\":{\"total_tokens\":3}}}";
    for (protocol, text) in [
        (SseProtocol::OpenAiChat, chat),
        (SseProtocol::OpenAiResponses, responses),
    ] {
        for end in [&b""[..], &b"\n"[..]] {
            let mut flushed = SseExtractor::new(protocol, true);
            let mut fed = SseExtractor::new(protocol, true);
            for e in [&mut flushed, &mut fed] {
                e.feed(text);
                e.feed(end);
            }
            let by_flush = flushed.flush();
            let by_feed = fed.feed(b"\n\n");
            assert_eq!(by_flush.usage, by_feed.usage);
            assert_eq!(by_flush.usage.map(|u| u.total_tokens), Some(3));
            assert_eq!(by_flush.token_delta, 1);
            assert_eq!(by_feed.token_delta, 1);
        }
        let mut e = SseExtractor::new(protocol, true);
        let p = e.feed(b"\n\n");
        assert_eq!(p.usage, None);
        assert_eq!(p.token_delta, 0);
    }
}

#[test]
fn defaults_are_empty() {
    let chunk = ParsedChunk::default();
    assert!(chunk.forward.is_empty());
    assert_eq!(chunk.usage, None);
    assert_eq!(chunk.token_delta, 0);
    assert_eq!(
        ParsedUsage::default(),
        ParsedUsage {
            total_tokens: 0,
            prompt_tokens: None,
            completion_tokens: None,
            cached_tokens: None,
        }
    );
    assert_eq!(INCREMENTAL_TOKEN_INTERVAL, 20);
}

/// Run a stream in chunks of `size` bytes and collect what it yields in all.
fn run(protocol: SseProtocol, strip: bool, stream: &[u8], size: usize) -> ParsedChunk {
    let mut e = SseExtractor::new(protocol, strip);
    let mut total = ParsedChunk::default();
    for chunk in stream.chunks(size) {
        let p = e.feed(chunk);
        total.forward.extend_from_slice(&p.forward);
        total.token_delta += p.token_delta;
        if p.usage.is_some() {
            assert_eq!(total.usage, None);
            total.usage = p.usage;
        }
    }
    let p = e.flush();
    total.forward.extend_from_slice(&p.forward);
    total.token_delta += p.token_delta;
    if p.usage.is_some() {
        assert_eq!(total.usage, None);
        total.usage = p.usage;
    }
    total
}

#[test]
fn chunking_does_not_matter() {
    let chat: &[u8] = b"data: {\"choices\":[{\"delta\":{\"content\":\"a\"}}]}\n\n: ping\n\ndata: {\"choices\":[],\"usage\":{\"total_tokens\":3}}\n\ndata: {\"choices\":[{\"delta\":{\"content\":\"b\"}}]}\n\ndata: [DONE]\n\n";
    let anthropic: &[u8] = b"event: message_start\ndata: {\"type\":\"message_start\",\"message\":{\"usage\":{\"input_tokens\":5}}}\n\ndata: {\"type\":\"message_delta\",\"usage\":{\"output_tokens\":4}}\n\ndata: {\"type\":\"message_stop\"}\n\ntail";
    let responses: &[u8] = b"data: {\"type\":\"response.output_text.delta\"}\n\ndata: {\"type\":\"response.completed\",\"response\":{\"usage\":{\"input_tokens\":1,\"output_tokens\":2}}}\n\n";
    let streams = [
        (SseProtocol::OpenAiChat, chat),
        (SseProtocol::AnthropicMessages, anthropic),
        (SseProtocol::OpenAiResponses, responses),
    ];
    for (protocol, stream) in streams {
        for strip in [false, true] {
            let whole = run(protocol, strip, stream, stream.len());
            for size in 1..stream.len() {
                let cut = run(protocol, strip, stream, size);
                assert_eq!(cut.forward, whole.forward);
                assert_eq!(cut.usage, whole.usage);
                assert_eq!(cut.token_delta, whole.token_delta);
            }
            assert!(whole.usage.is_some());
        }
    }
}

#[test]
fn unstripped_streams_are_forwarded_verbatim() {
    let stream: &[u8] = b"data: {\"choices\":[],\"usage\":{\"total_tokens\":3}}\n\nevent: x\ndata: not json\n\nhalf an event\n";
    let p = run(SseProtocol::OpenAiChat, false, stream, 5);
    assert_eq!(p.forward, stream.to_vec());
    let p = run(SseProtocol::AnthropicMessages, true, stream, 5);
    assert_eq!(p.forward, stream.to_vec());
    let p = run(SseProtocol::OpenAiResponses, true, stream, 5);
    assert_eq!(p.forward, stream.to_vec());
}
