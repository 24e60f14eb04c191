//! Verified core of HiveMind Chat: rooms, agents, turn policies, prompt
//! projection, provider framing, configuration checks and the orchestration
//! state machine.
//!
//! A [`Room`] holds [`Agent`]s, each bound to a configured provider. A
//! [`Session`] runs a user prompt through the room according to its
//! [`TurnPolicy`], step by step: the embedding program performs the model
//! calls and event delivery that each [`Step`] asks for and hands the
//! outcomes back.

pub mod cli;
pub mod config;
pub mod error;
pub mod model;
pub mod platform;
pub mod policy;
pub mod prompt;
pub mod provider;
pub mod secrets;
pub mod server;
pub mod session;
pub mod stream;
pub mod text;
pub mod turn;
pub mod vote;

pub use config::{HiveConfig, ProviderConfig, ProviderKind, ServerConfig, MAX_PROVIDERS};
pub use error::HiveError;
pub use model::{
    Agent, Message, Role, Room, TokenUsage, TurnPolicy, MAX_AGENTS_PER_ROOM, MAX_PROMPT_CHARS,
};
pub use provider::{ChatChunk, ChatRequest, ChatTurn};
pub use secrets::{redact, SecretRef};
pub use session::{Session, Step};
pub use turn::{Question, SessionEvent, Speech};
