//! The Anthropic Messages API dialect.

use vstd::prelude::*;

use crate::error::{ErrorView, HiveError};
use crate::model::{str_eq, Role, TokenUsage};
use crate::provider::{
    line_result_view, wire_messages_view, ChatChunk, ChatRequest, ChatTurn, ChunkView, WireMessage,
};
use crate::provider::sse::{payload_of, sse_payload};

verus! {

/// The version header the API is called with.
pub const API_VERSION: &'static str = "2023-06-01";

/// How the Messages API names a role.
pub open spec fn role_text(role: Role) -> Seq<char> {
    match role {
        Role::Assistant => "assistant"@,
        _ => "user"@,
    }
}

/// The Messages API knows only `user` and `assistant`; the system prompt is a
/// top-level field, so a system turn inside the history would be rejected.
pub fn role_name(role: Role) -> (name: &'static str)
    ensures
        name@ == role_text(role),
{
    match role {
        Role::System | Role::User => "user",
        Role::Assistant => "assistant",
    }
}

/// The turns of a request as the API's messages.
pub fn messages(request: &ChatRequest) -> (m: Vec<WireMessage>)
    ensures
        wire_messages_view(m@) == request.turns@.map_values(
            |t: ChatTurn| (role_text(t.role), t.content@),
        ),
{
    let mut m: Vec<WireMessage> = Vec::new();
    let mut i: usize = 0;
    while i < request.turns.len()
        invariant
            i <= request.turns@.len(),
            wire_messages_view(m@) == request.turns@.take(i as int).map_values(
                |t: ChatTurn| (role_text(t.role), t.content@),
            ),
        decreases request.turns@.len() - i,
    {
        let turn = &request.turns[i];
        let ghost before = m@;
        m.push(WireMessage { role: role_name(turn.role).to_owned(), content: turn.content.clone() });
        assert(wire_messages_view(m@) =~= wire_messages_view(before).push(
            (role_text(turn.role), turn.content@),
        ));
        assert(request.turns@.take(i + 1).map_values(|t: ChatTurn| (role_text(t.role), t.content@))
            =~= request.turns@.take(i as int).map_values(
            |t: ChatTurn| (role_text(t.role), t.content@),
        ).push((role_text(turn.role), turn.content@)));
        i = i + 1;
    }
    assert(request.turns@.take(request.turns@.len() as int) =~= request.turns@);
    m
}

/// The body of a Messages API request.
///
/// The agent's temperature is deliberately absent: current Anthropic models
/// reject the sampling parameters. Thinking is switched off unless the agent
/// asks for it, because reasoning tokens come out of the same `max_tokens`
/// budget as the answer.
#[derive(Debug)]
pub struct AnthropicBody {
    pub model: String,
    pub max_tokens: u32,
    pub stream: bool,
    pub messages: Vec<WireMessage>,
    /// Sent only when the request has a system prompt.
    pub system: Option<String>,
    /// Whether `thinking` is sent as disabled.
    pub thinking_disabled: bool,
}

/// Builds the request body.
pub fn build_body(request: &ChatRequest, messages: Vec<WireMessage>) -> (body: AnthropicBody)
    ensures
        body.model@ == request.model@,
        body.max_tokens == request.max_tokens,
        body.stream,
        body.messages@ == messages@,
        match body.system {
            Some(s) => request.system@.len() > 0 && s@ == request.system@,
            None => request.system@.len() == 0,
        },
        body.thinking_disabled == !request.reasoning,
{
    let system = if crate::text::chars_of(request.system.as_str()).len() > 0 {
        Some(request.system.clone())
    } else {
        None
    };
    AnthropicBody {
        model: request.model.clone(),
        max_tokens: request.max_tokens,
        stream: true,
        messages,
        system,
        thinking_disabled: !request.reasoning,
    }
}

/// The text of a `content_block_delta` event.
#[derive(Debug)]
pub struct EventDelta {
    pub kind: String,
    pub text: String,
}

/// The message header of a `message_start` event.
#[derive(Debug)]
pub struct EventMessage {
    pub usage: Option<TokenUsage>,
}

/// The body of an `error` event.
#[derive(Debug)]
pub struct EventError {
    pub message: String,
}

/// One decoded SSE event.
#[derive(Debug)]
pub struct StreamEvent {
    pub kind: String,
    pub delta: Option<EventDelta>,
    pub message: Option<EventMessage>,
    pub usage: Option<TokenUsage>,
    pub error: Option<EventError>,
}

/// What an event yields, and the usage it leaves behind.
pub open spec fn event_outcome(provider_id: Seq<char>, event: StreamEvent, usage: TokenUsage) -> (
    Option<Result<ChunkView, ErrorView>>,
    TokenUsage,
) {
    let kind = event.kind@;
    if kind == "message_start"@ {
        match event.message {
            Some(EventMessage { usage: Some(counts) }) => (None, counts),
            _ => (None, usage),
        }
    } else if kind == "content_block_delta"@ {
        match event.delta {
            Some(d) => if d.kind@ == "text_delta"@ && d.text@.len() > 0 {
                (Some(Ok(ChunkView::Delta(d.text@))), usage)
            } else {
                (None, usage)
            },
            None => (None, usage),
        }
    } else if kind == "message_delta"@ {
        match event.usage {
            Some(counts) => (
                None,
                TokenUsage { input_tokens: usage.input_tokens, output_tokens: counts.output_tokens },
            ),
            None => (None, usage),
        }
    } else if kind == "message_stop"@ {
        (Some(Ok(ChunkView::Done(usage))), usage)
    } else if kind == "error"@ {
        (
            Some(
                Err(
                    ErrorView::Provider {
                        provider: provider_id,
                        message: match event.error {
                            Some(e) => e.message@,
                            None => Seq::empty(),
                        },
                    },
                ),
            ),
            usage,
        )
    } else {
        (None, usage)
    }
}

/// Maps one SSE line to a chunk. `parsed` is the line's payload decoded as
/// an event, or the decoder's complaint; lines without a payload yield
/// nothing whatever it holds.
///
/// `usage` accumulates across events because the input count arrives with
/// `message_start` while the output count only appears in `message_delta`.
/// Thinking deltas are skipped: reasoning is not part of the transcript
/// other agents see.
pub fn parse_event(
    provider_id: &str,
    line: &str,
    usage: &mut TokenUsage,
    parsed: Option<Result<StreamEvent, String>>,
) -> (r: Option<Result<ChatChunk, HiveError>>)
    ensures
        payload_of(line@) is None || parsed is None ==> r is None && *final(usage) == *old(usage),
        payload_of(line@) is Some ==> match parsed {
            Some(Err(m)) => line_result_view(r) == Some(
                Err::<ChunkView, ErrorView>(ErrorView::Provider { provider: provider_id@, message: m@ }),
            ) && *final(usage) == *old(usage),
            Some(Ok(event)) => (line_result_view(r), *final(usage)) == event_outcome(
                provider_id@,
                event,
                *old(usage),
            ),
            None => true,
        },
{
    if sse_payload(line).is_none() {
        return None;
    }
    let event = match parsed {
        None => return None,
        Some(Err(message)) => return Some(Err(HiveError::provider(provider_id, message.as_str()))),
        Some(Ok(event)) => event,
    };
    proof {
        reveal_strlit("message_start");
        reveal_strlit("content_block_delta");
        reveal_strlit("message_delta");
        reveal_strlit("message_stop");
        reveal_strlit("error");
        reveal_strlit("text_delta");
    }
    let kind = event.kind.as_str();
    if str_eq(kind, "message_start") {
        if let Some(EventMessage { usage: Some(counts) }) = event.message {
            *usage = counts;
        }
        None
    } else if str_eq(kind, "content_block_delta") {
        match event.delta {
            Some(delta) => {
                if str_eq(delta.kind.as_str(), "text_delta")
                    && crate::text::chars_of(delta.text.as_str()).len() > 0 {
                    Some(Ok(ChatChunk::Delta(delta.text)))
                } else {
                    None
                }
            },
            None => None,
        }
    } else if str_eq(kind, "message_delta") {
        if let Some(counts) = event.usage {
            usage.output_tokens = counts.output_tokens;
        }
        None
    } else if str_eq(kind, "message_stop") {
        Some(Ok(ChatChunk::Done(*usage)))
    } else if str_eq(kind, "error") {
        let message = match event.error {
            Some(e) => e.message,
            None => String::new(),
        };
        Some(Err(HiveError::provider(provider_id, message.as_str())))
    } else {
        None
    }
}

} // verus!
