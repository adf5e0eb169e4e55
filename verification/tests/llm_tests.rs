use llm3d_host::llm::{
    api_error_message, authorization_header, build_request, classify_sse_line, completions_url,
    done_event, ChatMessage, LlmConfig, SseDecoder, SseLine, SseOutcome, StreamChoice, StreamChunk,
    StreamDelta,
};

fn m(role: &str, content: &str) -> ChatMessage {
    ChatMessage { role: role.to_string(), content: content.to_string() }
}

fn config() -> LlmConfig {
    LlmConfig {
        api_key: "test-key".to_string(),
        endpoint: "https://api.example.com/v1".to_string(),
        model: "gpt-test".to_string(),
    }
}

fn chunk(content: Option<&str>) -> StreamChunk {
    StreamChunk {
        choices: vec![StreamChoice { delta: StreamDelta { content: content.map(|c| c.to_string()) } }],
    }
}

#[test]
fn request_puts_system_prompt_first() {
    let r = build_request(&config(), vec![m("user", "hi"), m("assistant", "yo")], Some("be brief".into()));
    assert_eq!(r.model, "gpt-test");
    assert!(r.stream);
    let pairs: Vec<(String, String)> = r.messages.into_iter().map(|x| (x.role, x.content)).collect();
    assert_eq!(
        pairs,
        vec![
            ("system".to_string(), "be brief".to_string()),
            ("user".to_string(), "hi".to_string()),
            ("assistant".to_string(), "yo".to_string()),
        ]
    );
    let r2 = build_request(&config(), vec![m("user", "hi")], None);
    assert_eq!(r2.messages.len(), 1);
    assert_eq!(r2.messages[0].role, "user");
}

#[test]
fn request_addressing() {
    assert_eq!(completions_url("https://api.example.com/v1"), "https://api.example.com/v1/chat/completions");
    assert_eq!(authorization_header("k-1"), "Bearer k-1");
    assert_eq!(api_error_message("401 Unauthorized", "bad key"), "API error 401 Unauthorized: bad key");
}

#[test]
fn sse_line_kinds() {
    assert!(matches!(classify_sse_line("data: [DONE]"), SseLine::Done));
    match classify_sse_line("data: {\"a\":1}") {
        SseLine::Data(d) => assert_eq!(d, "{\"a\":1}"),
        _ => panic!("expected data"),
    }
    match classify_sse_line("data: ") {
        SseLine::Data(d) => assert_eq!(d, ""),
        _ => panic!("expected data"),
    }
    assert!(matches!(classify_sse_line("data:[DONE]"), SseLine::Other));
    assert!(matches!(classify_sse_line(": keep-alive"), SseLine::Other));
    assert!(matches!(classify_sse_line(""), SseLine::Other));
}

#[test]
fn decoder_splits_lines_across_chunks() {
    let mut d = SseDecoder::new();
    d.push_text("data: {\"x\"");
    assert_eq!(d.next_line(), None);
    d.push_text(":1}\r\n\ndata: [DO");
    assert_eq!(d.next_line(), Some("data: {\"x\":1}".to_string()));
    assert_eq!(d.next_line(), Some("".to_string()));
    assert_eq!(d.next_line(), None);
    assert_eq!(d.buffer, "data: [DO");
    d.push_text("NE]\n");
    assert_eq!(d.next_line(), Some("data: [DONE]".to_string()));
    assert_eq!(d.buffer, "");
}

#[test]
fn decoder_assembles_the_answer() {
    let mut d = SseDecoder::new();
    let e1 = d.accept_chunk(&chunk(Some("Hel"))).unwrap();
    assert_eq!(e1.chunk, "Hel");
    assert!(!e1.done);
    assert!(d.accept_chunk(&chunk(None)).is_none());
    assert!(d.accept_chunk(&StreamChunk { choices: vec![] }).is_none());
    let e2 = d.accept_chunk(&chunk(Some("lo"))).unwrap();
    assert_eq!(e2.chunk, "lo");
    assert_eq!(d.full_response, "Hello");
    let done = done_event();
    assert_eq!(done.chunk, "");
    assert!(done.done);
}

fn drain(d: &mut SseDecoder) -> Vec<String> {
    let mut out = Vec::new();
    while let Some(l) = d.next_line() {
        out.push(l);
    }
    out
}

#[test]
fn lines_do_not_depend_on_chunking() {
    let body = "data: {\"a\"}\n\n: ping\r\ndata: [DONE]\ntrailing";
    let mut whole = SseDecoder::new();
    whole.push_text(body);
    let expected = drain(&mut whole);
    for cut in 0..=body.len() {
        let mut d = SseDecoder::new();
        d.push_text(&body[..cut]);
        let mut got = drain(&mut d);
        d.push_text(&body[cut..]);
        got.extend(drain(&mut d));
        assert_eq!(got, expected, "cut at {}", cut);
        assert_eq!(d.buffer, whole.buffer);
    }
}

#[test]
fn apply_line_follows_line_effects() {
    let mut d = SseDecoder::new();
    assert!(matches!(d.apply_line(": keep-alive", None), SseOutcome::Nothing));
    assert!(matches!(d.apply_line("data: {bad", None), SseOutcome::Nothing));
    assert!(matches!(d.apply_line("data: {}", Some(&chunk(None))), SseOutcome::Nothing));
    match d.apply_line("data: {..}", Some(&chunk(Some("Hi")))) {
        SseOutcome::Emitted(e) => {
            assert_eq!(e.chunk, "Hi");
            assert!(!e.done);
        }
        _ => panic!("expected an emitted chunk"),
    }
    // A parsed chunk on a line that is not a data line does nothing.
    assert!(matches!(d.apply_line("event: x", Some(&chunk(Some("no")))), SseOutcome::Nothing));
    match d.apply_line("data: [DONE]", None) {
        SseOutcome::Finished(e) => {
            assert_eq!(e.chunk, "");
            assert!(e.done);
        }
        _ => panic!("expected the end"),
    }
    assert_eq!(d.full_response, "Hi");
}
