//! The OpenAI chat completions dialect.
//!
//! One dialect covers OpenAI, LM Studio, vLLM, llama.cpp, Groq and Together:
//! they differ only in base URL and credential, both of which come from the
//! provider entry.

use vstd::prelude::*;

use crate::error::{ErrorView, HiveError};
use crate::model::{str_eq, Role, TokenUsage};
use crate::provider::sse::{payload_of, sse_payload};
use crate::provider::{
    line_result_view, wire_messages_view, wire_views, ChatChunk, ChatRequest, ChatTurn, ChunkView,
    WireMessage,
};
use crate::text::{chars_of, trim, trimmed};

verus! {

/// How the dialect names a role.
pub open spec fn role_text(role: Role) -> Seq<char> {
    match role {
        Role::System => "system"@,
        Role::User => "user"@,
        Role::Assistant => "assistant"@,
    }
}

pub fn role_name(role: Role) -> (name: &'static str)
    ensures
        name@ == role_text(role),
{
    match role {
        Role::System => "system",
        Role::User => "user",
        Role::Assistant => "assistant",
    }
}

/// The system prompt, when there is one, and the turns as the dialect's
/// messages.
pub fn messages(request: &ChatRequest) -> (m: Vec<WireMessage>)
    ensures
        wire_messages_view(m@) == wire_views(request.system@, request.turns@, |r: Role| role_text(r)),
{
    let mut m: Vec<WireMessage> = Vec::new();
    let has_system = chars_of(request.system.as_str()).len() > 0;
    if has_system {
        m.push(WireMessage { role: "system".to_owned(), content: request.system.clone() });
    }
    let ghost head = wire_messages_view(m@);
    let mut i: usize = 0;
    while i < request.turns.len()
        invariant
            i <= request.turns@.len(),
            head == wire_messages_view(m@.take(m@.len() - i)),
            m@.len() >= i,
            has_system == (request.system@.len() > 0),
            head == if has_system {
                seq![("system"@, request.system@)]
            } else {
                Seq::<(Seq<char>, Seq<char>)>::empty()
            },
            wire_messages_view(m@) == head + request.turns@.take(i as int).map_values(
                |t: ChatTurn| (role_text(t.role), t.content@),
            ),
        decreases request.turns@.len() - i,
    {
        let turn = &request.turns[i];
        let ghost before = m@;
        m.push(WireMessage { role: role_name(turn.role).to_owned(), content: turn.content.clone() });
        assert(m@.take(m@.len() - (i + 1)) =~= before.take(before.len() - i));
        assert(wire_messages_view(m@) =~= wire_messages_view(before).push(
            (role_text(turn.role), turn.content@),
        ));
        assert(request.turns@.take(i + 1).map_values(|t: ChatTurn| (role_text(t.role), t.content@))
            =~= request.turns@.take(i as int).map_values(
            |t: ChatTurn| (role_text(t.role), t.content@),
        ).push((role_text(turn.role), turn.content@)));
        i = i + 1;
    }
    assert(request.turns@.take(request.turns@.len() as int) =~= request.turns@);
    assert(request.turns@.map_values(|t: ChatTurn| (role_text(t.role), t.content@))
        =~= request.turns@.map_values(
        |t: ChatTurn| ((|r: Role| role_text(r))(t.role), t.content@),
    ));
    if !has_system {
        assert(head + request.turns@.map_values(|t: ChatTurn| (role_text(t.role), t.content@))
            =~= request.turns@.map_values(|t: ChatTurn| (role_text(t.role), t.content@)));
    }
    m
}

/// The body of a chat completions request. The temperature travels as the
/// bit pattern of an IEEE-754 single; usage reporting is always requested.
#[derive(Debug)]
pub struct OpenAiRequest {
    pub model: String,
    pub messages: Vec<WireMessage>,
    pub stream: bool,
    pub temperature_bits: u32,
    pub max_tokens: u32,
    pub include_usage: bool,
}

/// Builds the request body.
pub fn build_request(request: &ChatRequest) -> (body: OpenAiRequest)
    ensures
        body.model@ == request.model@,
        wire_messages_view(body.messages@) == wire_views(
            request.system@,
            request.turns@,
            |r: Role| role_text(r),
        ),
        body.stream,
        body.temperature_bits == request.temperature_bits,
        body.max_tokens == request.max_tokens,
        body.include_usage,
{
    OpenAiRequest {
        model: request.model.clone(),
        messages: messages(request),
        stream: true,
        temperature_bits: request.temperature_bits,
        max_tokens: request.max_tokens,
        include_usage: true,
    }
}

/// The new text of one streamed choice.
#[derive(Debug)]
pub struct ChoiceDelta {
    pub content: Option<String>,
}

/// One streamed choice.
#[derive(Debug)]
pub struct StreamChoice {
    pub delta: Option<ChoiceDelta>,
}

/// One decoded stream chunk. `usage` holds the prompt and completion counts.
#[derive(Debug)]
pub struct StreamChunk {
    pub choices: Vec<StreamChoice>,
    pub usage: Option<TokenUsage>,
}

/// The text a run of choices carries, concatenated.
pub open spec fn choices_text(choices: Seq<StreamChoice>) -> Seq<char>
    decreases choices.len(),
{
    if choices.len() == 0 {
        seq![]
    } else {
        choices_text(choices.drop_last()) + match choices.last().delta {
            Some(ChoiceDelta { content: Some(t) }) => t@,
            _ => Seq::empty(),
        }
    }
}

/// The concatenated text of the choices.
pub fn chunk_text(choices: &Vec<StreamChoice>) -> (t: String)
    ensures
        t@ == choices_text(choices@),
{
    let mut t = String::new();
    let mut i: usize = 0;
    while i < choices.len()
        invariant
            i <= choices@.len(),
            t@ == choices_text(choices@.take(i as int)),
        decreases choices@.len() - i,
    {
        assert(choices@.take(i + 1).drop_last() =~= choices@.take(i as int));
        match &choices[i].delta {
            Some(ChoiceDelta { content: Some(text) }) => {
                t.append(text.as_str());
            },
            _ => {
                assert(t@ + Seq::<char>::empty() =~= t@);
            },
        }
        i = i + 1;
    }
    assert(choices@.take(choices@.len() as int) =~= choices@);
    t
}

/// Maps one SSE line to a chunk.
///
/// The dialect has no explicit completion event: the stream ends with
/// `data: [DONE]`. `finished` turns that marker into a single `Done` chunk
/// carrying the usage the final chunk reported; a repeated marker yields
/// nothing. `parsed` is the line's payload decoded as a chunk, or the
/// decoder's complaint; lines without a payload yield nothing whatever it
/// holds.
pub fn parse_line(
    provider_id: &str,
    line: &str,
    usage: &mut TokenUsage,
    finished: &mut bool,
    parsed: Option<Result<StreamChunk, String>>,
) -> (r: Option<Result<ChatChunk, HiveError>>)
    ensures
        trim(line@) == "data: [DONE]"@ ==> {
            &&& *final(usage) == *old(usage)
            &&& *final(finished)
            &&& *old(finished) ==> r is None
            &&& !*old(finished) ==> line_result_view(r) == Some(
                Ok::<ChunkView, ErrorView>(ChunkView::Done(*old(usage))),
            )
        },
        trim(line@) != "data: [DONE]"@ ==> *final(finished) == *old(finished) && if payload_of(
            line@,
        ) is None || parsed is None {
            r is None && *final(usage) == *old(usage)
        } else {
            match parsed {
                Some(Err(m)) => line_result_view(r) == Some(
                    Err::<ChunkView, ErrorView>(
                        ErrorView::Provider { provider: provider_id@, message: m@ },
                    ),
                ) && *final(usage) == *old(usage),
                Some(Ok(chunk)) => {
                    &&& *final(usage) == match chunk.usage {
                        Some(counts) => counts,
                        None => *old(usage),
                    }
                    &&& if choices_text(chunk.choices@).len() == 0 {
                        r is None
                    } else {
                        line_result_view(r) == Some(
                            Ok::<ChunkView, ErrorView>(
                                ChunkView::Delta(choices_text(chunk.choices@)),
                            ),
                        )
                    }
                },
                None => true,
            }
        },
{
    if str_eq(trimmed(line).as_str(), "data: [DONE]") {
        if *finished {
            return None;
        }
        *finished = true;
        return Some(Ok(ChatChunk::Done(*usage)));
    }
    if sse_payload(line).is_none() {
        return None;
    }
    let chunk = match parsed {
        None => return None,
        Some(Err(message)) => return Some(Err(HiveError::provider(provider_id, message.as_str()))),
        Some(Ok(chunk)) => chunk,
    };
    if let Some(counts) = chunk.usage {
        *usage = counts;
    }
    let text = chunk_text(&chunk.choices);
    if chars_of(text.as_str()).len() == 0 {
        return None;
    }
    Some(Ok(ChatChunk::Delta(text)))
}

} // verus!
