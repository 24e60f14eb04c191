//! The Ollama dialect: the local-first path, no credential involved.

use vstd::prelude::*;

use crate::error::{ErrorView, HiveError};
use crate::model::{Role, TokenUsage};
use crate::provider::openai::{messages, role_text};
use crate::provider::{
    line_result_view, wire_messages_view, wire_views, ChatChunk, ChatRequest, ChunkView,
    WireMessage,
};
use crate::text::{blank, chars_of, is_blank};

verus! {

/// How the dialect names a role.
pub fn role_name(role: Role) -> (name: &'static str)
    ensures
        name@ == role_text(role),
{
    crate::provider::openai::role_name(role)
}

/// The body of an Ollama chat request. The temperature travels as the bit
/// pattern of an IEEE-754 single; `num_predict` caps the answer length.
#[derive(Debug)]
pub struct OllamaRequest {
    pub model: String,
    pub messages: Vec<WireMessage>,
    pub stream: bool,
    pub temperature_bits: u32,
    pub num_predict: u32,
}

/// Builds the request body.
pub fn build_request(request: &ChatRequest) -> (body: OllamaRequest)
    ensures
        body.model@ == request.model@,
        wire_messages_view(body.messages@) == wire_views(
            request.system@,
            request.turns@,
            |r: Role| role_text(r),
        ),
        body.stream,
        body.temperature_bits == request.temperature_bits,
        body.num_predict == request.max_tokens,
{
    OllamaRequest {
        model: request.model.clone(),
        messages: messages(request),
        stream: true,
        temperature_bits: request.temperature_bits,
        num_predict: request.max_tokens,
    }
}

/// The message part of a streamed line.
#[derive(Debug)]
pub struct OllamaChunkMessage {
    pub content: String,
}

/// One decoded line of the stream.
#[derive(Debug)]
pub struct OllamaChunk {
    pub message: Option<OllamaChunkMessage>,
    pub done: bool,
    pub prompt_eval_count: u32,
    pub eval_count: u32,
    /// Present when the daemon rejects the request mid-stream.
    pub error: Option<String>,
}

/// What a decoded line yields.
pub open spec fn chunk_outcome(provider_id: Seq<char>, chunk: OllamaChunk) -> Option<
    Result<ChunkView, ErrorView>,
> {
    match chunk.error {
        Some(m) => Some(Err(ErrorView::Provider { provider: provider_id, message: m@ })),
        None => if chunk.done {
            Some(
                Ok(
                    ChunkView::Done(
                        TokenUsage {
                            input_tokens: chunk.prompt_eval_count,
                            output_tokens: chunk.eval_count,
                        },
                    ),
                ),
            )
        } else {
            match chunk.message {
                Some(m) => if m.content@.len() > 0 {
                    Some(Ok(ChunkView::Delta(m.content@)))
                } else {
                    None
                },
                None => None,
            }
        },
    }
}

/// Ollama emits one JSON object per line; blank lines are keep-alives.
/// `parsed` is the trimmed line decoded as a chunk, or the decoder's
/// complaint; blank lines yield nothing whatever it holds.
pub fn parse_chunk(provider_id: &str, line: &str, parsed: Option<Result<OllamaChunk, String>>) -> (r:
    Option<Result<ChatChunk, HiveError>>)
    ensures
        blank(line@) || parsed is None ==> r is None,
        !blank(line@) ==> match parsed {
            Some(Err(m)) => line_result_view(r) == Some(
                Err::<ChunkView, ErrorView>(ErrorView::Provider { provider: provider_id@, message: m@ }),
            ),
            Some(Ok(chunk)) => line_result_view(r) == chunk_outcome(provider_id@, chunk),
            None => true,
        },
{
    if is_blank(line) {
        return None;
    }
    let chunk = match parsed {
        None => return None,
        Some(Err(message)) => return Some(Err(HiveError::provider(provider_id, message.as_str()))),
        Some(Ok(chunk)) => chunk,
    };
    if let Some(message) = chunk.error {
        return Some(Err(HiveError::provider(provider_id, message.as_str())));
    }
    if chunk.done {
        return Some(
            Ok(
                ChatChunk::Done(
                    TokenUsage {
                        input_tokens: chunk.prompt_eval_count,
                        output_tokens: chunk.eval_count,
                    },
                ),
            ),
        );
    }
    match chunk.message {
        Some(m) => {
            if chars_of(m.content.as_str()).len() == 0 {
                None
            } else {
                Some(Ok(ChatChunk::Delta(m.content)))
            }
        },
        None => None,
    }
}

} // verus!
