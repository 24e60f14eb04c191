use std::collections::VecDeque;

use hive_core::error::HiveError;
use hive_core::model::{Role, TokenUsage};
use hive_core::provider::anthropic::{self, EventDelta, EventError, EventMessage, StreamEvent};
use hive_core::provider::ollama::{self, OllamaChunk, OllamaChunkMessage};
use hive_core::provider::openai::{self, ChoiceDelta, StreamChoice, StreamChunk};
use hive_core::provider::sse::{decode_line, drain_lines, flush_remainder, sse_payload};
use hive_core::provider::{
    error_from_status, provider_index, read_timeout_secs, ChatChunk, ChatRequest, ChatTurn,
};

fn request(reasoning: bool) -> ChatRequest {
    ChatRequest {
        model: "opus-large".into(),
        system: "You are Scout.".into(),
        turns: vec![ChatTurn::user("Hi")],
        temperature_bits: 0.9f32.to_bits(),
        max_tokens: 512,
        reasoning,
    }
}

fn event(kind: &str) -> StreamEvent {
    StreamEvent {
        kind: kind.to_string(),
        delta: None,
        message: None,
        usage: None,
        error: None,
    }
}

#[test]
fn system_turns_are_mapped_to_user_role() {
    assert_eq!(anthropic::role_name(Role::System), "user");
    assert_eq!(anthropic::role_name(Role::Assistant), "assistant");
    assert_eq!(openai::role_name(Role::System), "system");
    assert_eq!(ollama::role_name(Role::User), "user");
}

#[test]
fn body_omits_sampling_parameters() {
    let body = anthropic::build_body(&request(false), Vec::new());
    assert!(body.thinking_disabled);
    assert_eq!(body.system.as_deref(), Some("You are Scout."));
    assert_eq!(body.max_tokens, 512);
    assert!(body.stream);
}

#[test]
fn reasoning_agents_leave_thinking_at_the_default() {
    let body = anthropic::build_body(&request(true), Vec::new());
    assert!(!body.thinking_disabled);
}

#[test]
fn anthropic_messages_carry_only_the_turns() {
    let mut req = request(false);
    req.turns.push(ChatTurn::assistant("Hello"));
    let messages = anthropic::messages(&req);
    assert_eq!(messages.len(), 2);
    assert_eq!(messages[0].role, "user");
    assert_eq!(messages[1].role, "assistant");
    assert_eq!(messages[1].content, "Hello");
}

#[test]
fn openai_messages_open_with_the_system_prompt() {
    let body = openai::build_request(&request(false));
    assert_eq!(body.messages.len(), 2);
    assert_eq!(body.messages[0].role, "system");
    assert_eq!(body.messages[0].content, "You are Scout.");
    assert_eq!(body.messages[1].content, "Hi");
    assert_eq!(body.temperature_bits, 0.9f32.to_bits());
    assert!(body.include_usage);

    let mut plain = request(false);
    plain.system = String::new();
    let body = ollama::build_request(&plain);
    assert_eq!(body.messages.len(), 1);
    assert_eq!(body.num_predict, 512);
}

#[test]
fn text_deltas_are_forwarded_and_thinking_deltas_are_not() {
    let mut usage = TokenUsage::default();
    let mut text = event("content_block_delta");
    text.delta = Some(EventDelta { kind: "text_delta".into(), text: "Hi".into() });
    let line = r#"data: {"type":"content_block_delta","delta":{"type":"text_delta","text":"Hi"}}"#;
    match anthropic::parse_event("anthropic", line, &mut usage, Some(Ok(text))) {
        Some(Ok(ChatChunk::Delta(t))) => assert_eq!(t, "Hi"),
        _ => panic!("expected a text delta"),
    }
    let mut thinking = event("content_block_delta");
    thinking.delta = Some(EventDelta { kind: "thinking_delta".into(), text: String::new() });
    let line = r#"data: {"type":"content_block_delta","delta":{"type":"thinking_delta","thinking":"..."}}"#;
    assert!(anthropic::parse_event("anthropic", line, &mut usage, Some(Ok(thinking))).is_none());
}

#[test]
fn usage_is_collected_across_events() {
    let mut usage = TokenUsage::default();
    let mut start = event("message_start");
    start.message = Some(EventMessage {
        usage: Some(TokenUsage { input_tokens: 25, output_tokens: 0 }),
    });
    anthropic::parse_event("anthropic", "data: {}", &mut usage, Some(Ok(start)));
    let mut delta = event("message_delta");
    delta.usage = Some(TokenUsage { input_tokens: 0, output_tokens: 40 });
    anthropic::parse_event("anthropic", "data: {}", &mut usage, Some(Ok(delta)));
    match anthropic::parse_event("anthropic", "data: {}", &mut usage, Some(Ok(event("message_stop")))) {
        Some(Ok(ChatChunk::Done(total))) => {
            assert_eq!(total.input_tokens, 25);
            assert_eq!(total.output_tokens, 40);
        }
        _ => panic!("expected a done chunk"),
    }
}

#[test]
fn error_events_become_provider_errors() {
    let mut usage = TokenUsage::default();
    let mut failure = event("error");
    failure.error = Some(EventError { message: "Overloaded".into() });
    let line = r#"data: {"type":"error","error":{"type":"overloaded_error","message":"Overloaded"}}"#;
    match anthropic::parse_event("anthropic", line, &mut usage, Some(Ok(failure))) {
        Some(Err(HiveError::Provider { provider, message })) => {
            assert_eq!(provider, "anthropic");
            assert_eq!(message, "Overloaded");
        }
        _ => panic!("expected a provider error"),
    }
}

#[test]
fn lines_without_a_payload_are_not_events() {
    let mut usage = TokenUsage::default();
    assert!(anthropic::parse_event("anthropic", "event: ping", &mut usage, None).is_none());
    assert!(matches!(
        anthropic::parse_event("anthropic", "data: {oops", &mut usage, Some(Err("expected value".into()))),
        Some(Err(HiveError::Provider { .. }))
    ));
}

#[test]
fn content_deltas_are_forwarded() {
    let (mut usage, mut finished) = (TokenUsage::default(), false);
    let line = r#"data: {"choices":[{"delta":{"content":"Hallo"}}]}"#;
    let chunk = StreamChunk {
        choices: vec![StreamChoice { delta: Some(ChoiceDelta { content: Some("Hallo".into()) }) }],
        usage: None,
    };
    match openai::parse_line("groq", line, &mut usage, &mut finished, Some(Ok(chunk))) {
        Some(Ok(ChatChunk::Delta(text))) => assert_eq!(text, "Hallo"),
        _ => panic!("expected a delta"),
    }
}

#[test]
fn role_only_deltas_are_skipped() {
    let (mut usage, mut finished) = (TokenUsage::default(), false);
    let line = r#"data: {"choices":[{"delta":{"role":"assistant"}}]}"#;
    let chunk = StreamChunk {
        choices: vec![StreamChoice { delta: Some(ChoiceDelta { content: None }) }],
        usage: None,
    };
    assert!(openai::parse_line("groq", line, &mut usage, &mut finished, Some(Ok(chunk))).is_none());
}

#[test]
fn done_marker_emits_usage_once() {
    let (mut usage, mut finished) = (TokenUsage::default(), false);
    let chunk = StreamChunk {
        choices: Vec::new(),
        usage: Some(TokenUsage { input_tokens: 12, output_tokens: 34 }),
    };
    openai::parse_line(
        "groq",
        r#"data: {"choices":[],"usage":{"prompt_tokens":12,"completion_tokens":34}}"#,
        &mut usage,
        &mut finished,
        Some(Ok(chunk)),
    );
    match openai::parse_line("groq", "data: [DONE]", &mut usage, &mut finished, None) {
        Some(Ok(ChatChunk::Done(total))) => {
            assert_eq!(total.input_tokens, 12);
            assert_eq!(total.output_tokens, 34);
        }
        _ => panic!("expected a done chunk"),
    }
    assert!(openai::parse_line("groq", "data: [DONE]", &mut usage, &mut finished, None).is_none());
}

#[test]
fn malformed_payloads_surface_as_provider_errors() {
    let (mut usage, mut finished) = (TokenUsage::default(), false);
    assert!(matches!(
        openai::parse_line(
            "groq",
            "data: {not json}",
            &mut usage,
            &mut finished,
            Some(Err("key must be a string".into()))
        ),
        Some(Err(HiveError::Provider { .. }))
    ));
}

#[test]
fn delta_lines_yield_text() {
    let line = r#"{"message":{"role":"assistant","content":"Hallo"},"done":false}"#;
    let chunk = OllamaChunk {
        message: Some(OllamaChunkMessage { content: "Hallo".into() }),
        done: false,
        prompt_eval_count: 0,
        eval_count: 0,
        error: None,
    };
    match ollama::parse_chunk("local", line, Some(Ok(chunk))) {
        Some(Ok(ChatChunk::Delta(text))) => assert_eq!(text, "Hallo"),
        _ => panic!("expected a delta"),
    }
}

#[test]
fn final_line_carries_token_usage() {
    let line = r#"{"done":true,"prompt_eval_count":11,"eval_count":42}"#;
    let chunk = OllamaChunk {
        message: None,
        done: true,
        prompt_eval_count: 11,
        eval_count: 42,
        error: None,
    };
    match ollama::parse_chunk("local", line, Some(Ok(chunk))) {
        Some(Ok(ChatChunk::Done(usage))) => {
            assert_eq!(usage.input_tokens, 11);
            assert_eq!(usage.output_tokens, 42);
        }
        _ => panic!("expected a done chunk"),
    }
}

#[test]
fn error_lines_become_provider_errors() {
    let line = r#"{"error":"model not found"}"#;
    let chunk = OllamaChunk {
        message: None,
        done: false,
        prompt_eval_count: 0,
        eval_count: 0,
        error: Some("model not found".into()),
    };
    assert!(matches!(
        ollama::parse_chunk("local", line, Some(Ok(chunk))),
        Some(Err(HiveError::Provider { .. }))
    ));
}

#[test]
fn blank_and_empty_deltas_are_skipped() {
    assert!(ollama::parse_chunk("local", "   ", None).is_none());
    let chunk = OllamaChunk {
        message: Some(OllamaChunkMessage { content: String::new() }),
        done: false,
        prompt_eval_count: 0,
        eval_count: 0,
        error: None,
    };
    assert!(ollama::parse_chunk("local", r#"{"message":{"content":""},"done":false}"#, Some(Ok(chunk))).is_none());
}

#[test]
fn sse_control_lines_are_ignored() {
    assert_eq!(sse_payload("data: {\"a\":1}").as_deref(), Some("{\"a\":1}"));
    assert_eq!(sse_payload("data: [DONE]"), None);
    assert_eq!(sse_payload("event: message_stop"), None);
    assert_eq!(sse_payload(": keep-alive"), None);
    assert_eq!(sse_payload(""), None);
}

fn feed(parts: &[&[u8]]) -> Vec<String> {
    let mut buffer: Vec<u8> = Vec::new();
    let mut ready: VecDeque<String> = VecDeque::new();
    for part in parts {
        buffer.extend_from_slice(part);
        drain_lines(&mut buffer, &mut ready);
    }
    flush_remainder(&mut buffer, &mut ready);
    ready.into_iter().collect()
}

#[test]
fn splits_lines_across_chunk_boundaries() {
    assert_eq!(feed(&[b"one\ntw", b"o\nthree"]), vec!["one", "two", "three"]);
}

#[test]
fn multi_byte_characters_survive_a_split_chunk() {
    assert_eq!(feed(&[b"gr\xc3", b"\xbcezi\n"]), vec!["gr\u{fc}ezi"]);
}

#[test]
fn carriage_returns_are_stripped() {
    assert_eq!(feed(&[b"data: x\r\n"]), vec!["data: x"]);
    assert_eq!(decode_line(b"a\r\r"), "a");
    assert_eq!(decode_line(b"\xff"), "\u{fffd}");
}

#[test]
fn error_statuses_carry_a_hint_but_never_the_body() {
    let error = error_from_status("groq", 401, "401 Unauthorized");
    assert_eq!(
        error.message(),
        "provider 'groq' failed: HTTP 401 Unauthorized (check the credential referenced by api_key_env)"
    );
    assert_eq!(
        error_from_status("local", 500, "500 Internal Server Error").message(),
        "provider 'local' failed: HTTP 500 Internal Server Error"
    );
    assert_eq!(read_timeout_secs(1), 5);
    assert_eq!(read_timeout_secs(120), 120);
    assert_eq!(read_timeout_secs(9999), 600);
}

#[test]
fn agents_find_their_provider_among_the_configured_ones() {
    let known = vec!["local".to_string(), "anthropic-main".to_string()];
    assert_eq!(provider_index(&known, "anthropic-main").unwrap(), 1);
    assert_eq!(provider_index(&known, "local").unwrap(), 0);
    match provider_index(&known, "openai-main") {
        Err(HiveError::UnknownProvider(id)) => assert_eq!(id, "openai-main"),
        _ => panic!("an unknown provider must be reported"),
    }
    assert_eq!(
        provider_index(&known, "openai-main").unwrap_err().message(),
        "provider 'openai-main' is not registered"
    );
}
