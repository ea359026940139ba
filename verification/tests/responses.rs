use model_gateway::sse::responses::{
    finalize, parse_completed, process_event, process_readings, read_document, ResponsesReading,
    ResponsesState,
};
use model_gateway::sse::{ParsedUsage, SseExtractor, SseProtocol};

fn responses_full_stream() -> Vec<u8> {
    let mut s = String::new();
    s.push_str("event: response.created\ndata: {\"type\":\"response.created\",\"response\":{\"id\":\"resp_1\"}}\n\n");
    for _ in 0..5 {
        s.push_str("event: response.output_text.delta\ndata: {\"type\":\"response.output_text.delta\",\"delta\":\"x\"}\n\n");
    }
    s.push_str("event: response.completed\ndata: {\"type\":\"response.completed\",\"response\":{\"id\":\"resp_1\",\"usage\":{\"input_tokens\":10,\"output_tokens\":50,\"total_tokens\":60}}}\n\n");
    s.into_bytes()
}

#[test]
fn full_stream_extracts_usage() {
    let stream = responses_full_stream();
    let mut e = SseExtractor::new(SseProtocol::OpenAiResponses, false);
    let p = e.feed(&stream);
    assert_eq!(
        p.usage,
        Some(ParsedUsage {
            total_tokens: 60,
            prompt_tokens: Some(10),
            completion_tokens: Some(50),
            cached_tokens: None,
        })
    );
}

#[test]
fn token_delta_counts_output_text_delta_events() {
    let stream = responses_full_stream();
    let mut e = SseExtractor::new(SseProtocol::OpenAiResponses, false);
    let p = e.feed(&stream);
    assert_eq!(p.token_delta, 5);
}

#[test]
fn no_completed_event_yields_no_usage() {
    let mut s = String::new();
    s.push_str("event: response.created\ndata: {\"type\":\"response.created\",\"response\":{\"id\":\"r\"}}\n\n");
    s.push_str("event: response.output_text.delta\ndata: {\"type\":\"response.output_text.delta\",\"delta\":\"x\"}\n\n");
    let mut e = SseExtractor::new(SseProtocol::OpenAiResponses, false);
    let p = e.feed(s.as_bytes());
    let f = e.flush();
    assert_eq!(p.usage, None);
    assert_eq!(f.usage, None);
}

#[test]
fn forward_passes_through_unchanged() {
    let stream = responses_full_stream();
    let mut e = SseExtractor::new(SseProtocol::OpenAiResponses, false);
    let p = e.feed(&stream);
    assert_eq!(p.forward.len(), stream.len());
}

#[test]
fn handles_partial_chunks() {
    let stream = responses_full_stream();
    let mut e = SseExtractor::new(SseProtocol::OpenAiResponses, false);
    let mut usage = None;
    for chunk in stream.chunks(11) {
        let p = e.feed(chunk);
        if p.usage.is_some() {
            usage = p.usage;
        }
    }
    assert_eq!(usage.as_ref().unwrap().total_tokens, 60);
}

#[test]
fn a_missing_total_is_the_sum() {
    let read = |json: &str| parse_completed(&serde_json::from_str(json).unwrap());
    assert_eq!(
        read(r#"{"response":{"usage":{"input_tokens":2,"output_tokens":3,"input_tokens_details":{"cached_tokens":1}}}}"#),
        Some(ParsedUsage {
            total_tokens: 5,
            prompt_tokens: Some(2),
            completion_tokens: Some(3),
            cached_tokens: Some(1),
        })
    );
    assert_eq!(
        read(r#"{"response":{"usage":{}}}"#),
        Some(ParsedUsage {
            total_tokens: 0,
            prompt_tokens: None,
            completion_tokens: None,
            cached_tokens: None,
        })
    );
    assert_eq!(
        read(r#"{"response":{"usage":{"input_tokens":18446744073709551615,"output_tokens":3}}}"#)
            .map(|u| u.total_tokens),
        Some(u64::MAX)
    );
    assert_eq!(read(r#"{"response":{"usage":7}}"#), None);
    assert_eq!(read(r#"{"response":{}}"#), None);
    assert_eq!(read(r#"{}"#), None);
}

#[test]
fn only_the_first_completion_counts() {
    let first = ParsedUsage {
        total_tokens: 1,
        prompt_tokens: None,
        completion_tokens: None,
        cached_tokens: None,
    };
    let second = ParsedUsage { total_tokens: 2, ..first };
    let mut state = ResponsesState::default();
    let readings = [
        ResponsesReading::OutputTextDelta,
        ResponsesReading::Completed(Some(first)),
        ResponsesReading::Other,
        ResponsesReading::Completed(Some(second)),
    ];
    let outcome = process_readings(&mut state, b"e", &readings);
    assert_eq!(outcome.forward, b"e".to_vec());
    assert_eq!(outcome.usage, Some(first));
    assert_eq!(outcome.token_delta, 1);
    assert_eq!(finalize(&state), Some(first));
    let outcome = process_readings(&mut state, b"e", &readings);
    assert_eq!(outcome.usage, None);
    assert_eq!(finalize(&state), Some(first));

    // A completion without usage closes the stream all the same.
    let mut state = ResponsesState::default();
    let readings = [
        ResponsesReading::Completed(None),
        ResponsesReading::Completed(Some(second)),
    ];
    let outcome = process_readings(&mut state, b"e", &readings);
    assert_eq!(outcome.usage, None);
    assert!(state.seen_completed);
    assert_eq!(finalize(&state), None);
}

#[test]
fn documents_without_a_known_type_are_other() {
    let read = |json: &str| read_document(&serde_json::from_str(json).unwrap());
    assert!(matches!(
        read(r#"{"type":"response.output_text.delta"}"#),
        ResponsesReading::OutputTextDelta
    ));
    assert!(matches!(
        read(r#"{"type":"response.completed"}"#),
        ResponsesReading::Completed(None)
    ));
    assert!(matches!(read(r#"{"type":"response.created"}"#), ResponsesReading::Other));
    assert!(matches!(read(r#"{}"#), ResponsesReading::Other));
}

#[test]
fn text_that_is_no_json_is_forwarded() {
    let mut state = ResponsesState::default();
    let event = b"data: {broken\ndata:\ndata: {\"type\":\"response.output_text.delta\"}\n\n";
    let outcome = process_event(&mut state, event);
    assert_eq!(outcome.forward, event.to_vec());
    assert_eq!(outcome.token_delta, 1);
    assert_eq!(outcome.usage, None);
}
