//! What a model provider is handed and what it streams back.
//!
//! A provider is one configured endpoint plus the dialect it speaks. The
//! network side lives with the embedding program; this module holds the
//! request and chunk types, the per-dialect message framing and the decisions
//! taken on each streamed line.

pub mod anthropic;
pub mod ollama;
pub mod openai;
pub mod sse;

use vstd::prelude::*;

use crate::error::{ErrorView, HiveError};
use crate::model::{Role, TokenUsage};

verus! {

/// One turn handed to a model. Deliberately narrower than a transcript
/// message: providers see roles and text, never room or agent identifiers.
#[derive(Debug)]
pub struct ChatTurn {
    pub role: Role,
    pub content: String,
}

impl View for ChatTurn {
    type V = (Role, Seq<char>);

    open spec fn view(&self) -> (Role, Seq<char>) {
        (self.role, self.content@)
    }
}

impl Clone for ChatTurn {
    fn clone(&self) -> (r: Self)
        ensures
            r == *self,
    {
        ChatTurn { role: self.role, content: self.content.clone() }
    }
}

/// The views of a run of turns.
pub open spec fn turn_views(turns: Seq<ChatTurn>) -> Seq<(Role, Seq<char>)> {
    turns.map_values(|t: ChatTurn| t@)
}

impl ChatTurn {
    pub fn user(content: &str) -> (t: Self)
        ensures
            t@ == (Role::User, content@),
    {
        ChatTurn { role: Role::User, content: content.to_owned() }
    }

    pub fn assistant(content: &str) -> (t: Self)
        ensures
            t@ == (Role::Assistant, content@),
    {
        ChatTurn { role: Role::Assistant, content: content.to_owned() }
    }
}

/// Everything one model call needs.
///
/// `temperature_bits` is the IEEE-754 single-precision bit pattern of the
/// sampling temperature, carried exactly from the agent.
#[derive(Debug)]
pub struct ChatRequest {
    pub model: String,
    pub system: String,
    pub turns: Vec<ChatTurn>,
    pub temperature_bits: u32,
    pub max_tokens: u32,
    /// Whether extended thinking stays on; see the agent's `reasoning` flag.
    pub reasoning: bool,
}

/// One piece of a streamed answer.
#[derive(Debug)]
pub enum ChatChunk {
    Delta(String),
    Done(TokenUsage),
}

/// A chunk as plain values, for contracts.
pub enum ChunkView {
    Delta(Seq<char>),
    Done(TokenUsage),
}

impl View for ChatChunk {
    type V = ChunkView;

    open spec fn view(&self) -> ChunkView {
        match self {
            ChatChunk::Delta(t) => ChunkView::Delta(t@),
            ChatChunk::Done(u) => ChunkView::Done(*u),
        }
    }
}

/// One message as a dialect's wire format carries it.
#[derive(Debug)]
pub struct WireMessage {
    pub role: String,
    pub content: String,
}

/// The read timeout of a provider's client: the configured timeout held
/// between 5 and 600 seconds. It applies per request rather than per stream
/// chunk, so a slow local model streaming steadily is not cut off.
pub fn read_timeout_secs(timeout_secs: u64) -> (t: u64)
    ensures
        t == if timeout_secs < 5 {
            5
        } else if timeout_secs > 600 {
            600
        } else {
            timeout_secs
        },
{
    if timeout_secs < 5 {
        5
    } else if timeout_secs > 600 {
        600
    } else {
        timeout_secs
    }
}

/// The system prompt, when there is one, followed by the turns, each with
/// the role name its dialect uses.
pub open spec fn wire_views(
    system: Seq<char>,
    turns: Seq<ChatTurn>,
    name: spec_fn(Role) -> Seq<char>,
) -> Seq<(Seq<char>, Seq<char>)> {
    let framed = turns.map_values(|t: ChatTurn| (name(t.role), t.content@));
    if system.len() == 0 {
        framed
    } else {
        seq![("system"@, system)] + framed
    }
}

/// The views of a run of wire messages.
pub open spec fn wire_messages_view(messages: Seq<WireMessage>) -> Seq<(Seq<char>, Seq<char>)> {
    messages.map_values(|m: WireMessage| (m.role@, m.content@))
}

/// What a streamed line amounts to: nothing, a chunk, or a failure.
pub open spec fn line_result_view(r: Option<Result<ChatChunk, HiveError>>) -> Option<
    Result<ChunkView, crate::error::ErrorView>,
> {
    match r {
        None => None,
        Some(Ok(c)) => Some(Ok(c@)),
        Some(Err(e)) => Some(Err(e@)),
    }
}

/// The hint appended to an HTTP failure, chosen by status code.
pub open spec fn status_hint(status: u16) -> Seq<char> {
    if status == 401 || status == 403 {
        " (check the credential referenced by api_key_env)"@
    } else if status == 404 {
        " (check the model name and base_url)"@
    } else if status == 429 {
        " (rate limited by the provider)"@
    } else {
        Seq::empty()
    }
}

/// Whether the provider id is among the configured ones.
pub open spec fn is_known(known: Seq<String>, id: Seq<char>) -> bool {
    exists|i: int| 0 <= i < known.len() && (#[trigger] known[i])@ == id
}

/// Finds the provider an agent names among the configured ids: the position
/// of its first entry, or the unknown-provider error when none matches.
pub fn provider_index(known: &Vec<String>, provider_id: &str) -> (r: Result<usize, HiveError>)
    ensures
        match r {
            Ok(i) => i < known@.len() && known@[i as int]@ == provider_id@ && forall|j: int|
                0 <= j < i ==> (#[trigger] known@[j])@ != provider_id@,
            Err(e) => !is_known(known@, provider_id@) && e@ == ErrorView::UnknownProvider(
                provider_id@,
            ),
        },
{
    let mut k: usize = 0;
    while k < known.len()
        invariant
            k <= known@.len(),
            forall|j: int| 0 <= j < k ==> (#[trigger] known@[j])@ != provider_id@,
        decreases known@.len() - k,
    {
        if crate::model::str_eq(known[k].as_str(), provider_id) {
            return Ok(k);
        }
        k = k + 1;
    }
    Err(HiveError::UnknownProvider(provider_id.to_owned()))
}

/// Turns a non-success HTTP status into an error without echoing the body.
///
/// Provider error bodies have been observed to quote request headers, so only
/// the status line is surfaced; `status_line` is the code with its canonical
/// reason phrase, as `http::StatusCode` displays it.
pub fn error_from_status(provider_id: &str, status: u16, status_line: &str) -> (e: HiveError)
    ensures
        e@ == (crate::error::ErrorView::Provider {
            provider: provider_id@,
            message: "HTTP "@ + status_line@ + status_hint(status),
        }),
{
    let hint = if status == 401 || status == 403 {
        " (check the credential referenced by api_key_env)"
    } else if status == 404 {
        " (check the model name and base_url)"
    } else if status == 429 {
        " (rate limited by the provider)"
    } else {
        ""
    };
    let mut message = "HTTP ".to_owned();
    message.append(status_line);
    if status == 401 || status == 403 || status == 404 || status == 429 {
        message.append(hint);
    }
    HiveError::provider(provider_id, message.as_str())
}

} // verus!
