//! One agent's turn: the request it is given, and what becomes of the
//! streamed answer.

use vstd::prelude::*;

use crate::error::{error_text, ErrorView, HiveError};
use crate::model::{Agent, Message, Role, Room, TokenUsage, TurnPolicy};
use crate::prompt::{system_prompt, system_prompt_text, turns_for, turns_view};
use crate::provider::{turn_views, ChatChunk, ChatRequest, ChatTurn};
use crate::stream::{
    label_for, lemma_stream_matches_store, live_text, stored_text, streamed_text, LabelFilter,
};
use crate::text::chars_of;

verus! {

/// What the caller observes while a turn runs.
#[derive(Debug)]
pub enum SessionEvent {
    /// The prompt as it entered the transcript, so every client shows the
    /// same opening message.
    UserMessage { message: Message },
    TurnStarted { round: u32, rounds: u32, policy: TurnPolicy, speakers: Vec<String> },
    AgentStarted { agent_id: String, agent_name: String, colour: String, round: u32 },
    AgentDelta { agent_id: String, text: String },
    AgentCompleted { message: Message },
    AgentFailed { agent_id: String, agent_name: String, error: String },
    VoteCast { agent_id: String, agent_name: String, choice: String, rationale: String },
    TurnCompleted { round: u32 },
    SessionCompleted { messages: usize, usage: TokenUsage },
}

/// An optional text as its characters.
pub open spec fn opt_text(o: Option<&str>) -> Option<Seq<char>> {
    match o {
        Some(s) => Some(s@),
        None => None,
    }
}

/// Whether `req` is the request an agent gets in a room for a transcript.
pub open spec fn prepared(
    req: ChatRequest,
    room: Room,
    agent: Agent,
    transcript: Seq<Message>,
    stance: Option<Seq<char>>,
    instruction: Option<Seq<char>>,
) -> bool {
    &&& req.model@ == agent.model@
    &&& req.system@ == system_prompt_text(room, agent, stance)
    &&& turn_views(req.turns@) == match instruction {
        None => turns_view(room, agent, transcript),
        Some(i) => turns_view(room, agent, transcript).push((Role::User, i)),
    }
    &&& req.temperature_bits == agent.temperature_bits
    &&& req.max_tokens == agent.max_tokens
    &&& req.reasoning == agent.reasoning
}

/// Builds the request for one agent's turn: its view of the transcript, its
/// system prompt, and, for internal decisions, a closing instruction.
pub fn prepare(
    room: &Room,
    agent: &Agent,
    transcript: &[Message],
    stance: Option<&str>,
    instruction: Option<&str>,
) -> (req: ChatRequest)
    ensures
        prepared(req, *room, *agent, transcript@, opt_text(stance), opt_text(instruction)),
{
    let mut turns = turns_for(room, agent, transcript);
    if let Some(text) = instruction {
        let ghost before = turns@;
        turns.push(ChatTurn::user(text));
        assert(turn_views(turns@) =~= turn_views(before).push((Role::User, text@)));
    }
    ChatRequest {
        model: agent.model.clone(),
        system: system_prompt(room, agent, stance),
        turns,
        temperature_bits: agent.temperature_bits,
        max_tokens: agent.max_tokens,
        reasoning: agent.reasoning,
    }
}

/// The summed token counts of the messages that carry usage.
pub open spec fn usage_sum(messages: Seq<Message>) -> (int, int)
    decreases messages.len(),
{
    if messages.len() == 0 {
        (0, 0)
    } else {
        let (i, o) = usage_sum(messages.drop_last());
        match messages.last().usage {
            Some(u) => (i + u.input_tokens, o + u.output_tokens),
            None => (i, o),
        }
    }
}

/// The usage of a prefix of the messages is no more than that of them all.
proof fn lemma_usage_sum_grows(messages: Seq<Message>, k: int)
    requires
        0 <= k <= messages.len(),
    ensures
        0 <= usage_sum(messages.take(k)).0 <= usage_sum(messages).0,
        0 <= usage_sum(messages.take(k)).1 <= usage_sum(messages).1,
    decreases messages.len() - k,
{
    if k < messages.len() {
        lemma_usage_sum_grows(messages, k + 1);
        assert(messages.take(k + 1).drop_last() =~= messages.take(k));
    } else {
        assert(messages.take(k) =~= messages);
    }
    lemma_usage_sum_nonneg(messages.take(k));
}

/// Summed usage is never negative.
proof fn lemma_usage_sum_nonneg(messages: Seq<Message>)
    ensures
        usage_sum(messages).0 >= 0,
        usage_sum(messages).1 >= 0,
    decreases messages.len(),
{
    if messages.len() > 0 {
        lemma_usage_sum_nonneg(messages.drop_last());
    }
}

/// Sums the token usage of a run of messages.
pub fn total_usage(messages: &[Message]) -> (total: TokenUsage)
    requires
        usage_sum(messages@).0 <= u32::MAX,
        usage_sum(messages@).1 <= u32::MAX,
    ensures
        total.input_tokens == usage_sum(messages@).0,
        total.output_tokens == usage_sum(messages@).1,
{
    let mut input: u32 = 0;
    let mut output: u32 = 0;
    let mut i: usize = 0;
    while i < messages.len()
        invariant
            i <= messages@.len(),
            usage_sum(messages@).0 <= u32::MAX,
            usage_sum(messages@).1 <= u32::MAX,
            input == usage_sum(messages@.take(i as int)).0,
            output == usage_sum(messages@.take(i as int)).1,
        decreases messages@.len() - i,
    {
        proof {
            assert(messages@.take(i + 1).drop_last() =~= messages@.take(i as int));
            lemma_usage_sum_grows(messages@, i + 1);
        }
        if let Some(u) = messages[i].usage {
            input = input + u.input_tokens;
            output = output + u.output_tokens;
        }
        i = i + 1;
    }
    assert(messages@.take(messages@.len() as int) =~= messages@);
    TokenUsage { input_tokens: input, output_tokens: output }
}

/// A count held to the range of `u32`.
pub open spec fn capped(n: int) -> u32 {
    if n > u32::MAX {
        u32::MAX
    } else {
        n as u32
    }
}

/// Sums the token usage of a run of messages, holding each total at the
/// largest count a `u32` can carry.
pub fn capped_usage(messages: &[Message]) -> (total: TokenUsage)
    ensures
        total.input_tokens == capped(usage_sum(messages@).0),
        total.output_tokens == capped(usage_sum(messages@).1),
{
    let mut input: u32 = 0;
    let mut output: u32 = 0;
    let mut i: usize = 0;
    while i < messages.len()
        invariant
            i <= messages@.len(),
            input == capped(usage_sum(messages@.take(i as int)).0),
            output == capped(usage_sum(messages@.take(i as int)).1),
        decreases messages@.len() - i,
    {
        proof {
            assert(messages@.take(i + 1).drop_last() =~= messages@.take(i as int));
            lemma_usage_sum_nonneg(messages@.take(i as int));
        }
        if let Some(u) = messages[i].usage {
            input = if input > u32::MAX - u.input_tokens {
                u32::MAX
            } else {
                input + u.input_tokens
            };
            output = if output > u32::MAX - u.output_tokens {
                u32::MAX
            } else {
                output + u.output_tokens
            };
        }
        i = i + 1;
    }
    assert(messages@.take(messages@.len() as int) =~= messages@);
    TokenUsage { input_tokens: input, output_tokens: output }
}

/// Whether `m` is an answer of `agent` in `round`.
pub open spec fn spoken_by(m: Message, agent: Agent, round: u32) -> bool {
    &&& m.role == Role::Assistant
    &&& m.agent_id == Some(agent.id)
    &&& m.speaker == agent.name
    &&& m.round == round
}

/// What a finished turn left behind: whose turn it was, in which round, and
/// the message it produced, if it produced one.
pub struct Spoken {
    agent: Agent,
    round: u32,
    message: Option<Message>,
}

impl Spoken {
    #[verifier::type_invariant]
    closed spec fn inv(&self) -> bool {
        self.message matches Some(m) ==> spoken_by(m, self.agent, self.round)
    }

    /// The agent whose turn it was.
    pub closed spec fn speaker(&self) -> Agent {
        self.agent
    }

    /// The round the turn belonged to.
    pub closed spec fn turn_round(&self) -> u32 {
        self.round
    }

    /// The message the turn produced, or `None` when it failed.
    pub closed spec fn result(&self) -> Option<Message> {
        self.message
    }

    pub fn agent(&self) -> (a: &Agent)
        ensures
            *a == self.speaker(),
    {
        &self.agent
    }

    pub fn round(&self) -> (r: u32)
        ensures
            r == self.turn_round(),
    {
        self.round
    }

    pub fn message(&self) -> (m: &Option<Message>)
        ensures
            *m == self.result(),
            m matches Some(x) ==> spoken_by(*x, self.speaker(), self.turn_round()),
    {
        proof {
            use_type_invariant(self);
        }
        &self.message
    }
}

/// One streamed turn: the request, and the answer as it arrives.
pub struct Speech {
    agent: Agent,
    request: ChatRequest,
    round: u32,
    room_id: String,
    text: String,
    usage: TokenUsage,
    filter: LabelFilter,
    stance: Ghost<Option<Seq<char>>>,
}

impl Speech {
    #[verifier::type_invariant]
    closed spec fn inv(&self) -> bool {
        &&& self.filter.label() == label_for(self.agent.name@)
        &&& self.filter.seen() == self.text@
        &&& self.filter.sent() == live_text(self.text@, label_for(self.agent.name@))
    }

    /// The agent speaking.
    pub closed spec fn speaker(&self) -> Agent {
        self.agent
    }

    /// The request handed to the provider.
    pub closed spec fn prepared_request(&self) -> ChatRequest {
        self.request
    }

    /// The stance the agent was assigned.
    pub closed spec fn assigned_stance(&self) -> Option<Seq<char>> {
        self.stance@
    }

    /// The round the turn belongs to.
    pub closed spec fn turn_round(&self) -> u32 {
        self.round
    }

    /// The answer received so far.
    pub closed spec fn received(&self) -> Seq<char> {
        self.text@
    }

    /// The answer text handed out as deltas so far.
    pub closed spec fn shown(&self) -> Seq<char> {
        self.filter.sent()
    }

    /// The last usage the provider reported.
    pub closed spec fn reported_usage(&self) -> TokenUsage {
        self.usage
    }

    /// The room the turn is spoken in.
    pub closed spec fn room_id(&self) -> Seq<char> {
        self.room_id@
    }

    /// A turn of `agent` in `room`, seeing `transcript`.
    pub fn new(
        room: &Room,
        agent: &Agent,
        transcript: &[Message],
        stance: Option<&str>,
        round: u32,
    ) -> (s: Self)
        ensures
            s.speaker() == *agent,
            prepared(s.prepared_request(), *room, *agent, transcript@, opt_text(stance), None),
            s.assigned_stance() == opt_text(stance),
            s.turn_round() == round,
            s.room_id() == room.id@,
            s.received().len() == 0,
            s.shown().len() == 0,
            s.reported_usage() == (TokenUsage { input_tokens: 0, output_tokens: 0 }),
    {
        let request = prepare(room, agent, transcript, stance, None);
        let filter = LabelFilter::new(agent.name.as_str());
        let text = String::new();
        assert(filter.seen() =~= text@);
        Speech {
            agent: agent.clone(),
            request,
            round,
            room_id: room.id.clone(),
            text,
            usage: TokenUsage { input_tokens: 0, output_tokens: 0 },
            filter,
            stance: Ghost(opt_text(stance)),
        }
    }

    pub fn agent(&self) -> (a: &Agent)
        ensures
            *a == self.speaker(),
    {
        &self.agent
    }

    pub fn request(&self) -> (r: &ChatRequest)
        ensures
            *r == self.prepared_request(),
    {
        &self.request
    }

    /// The event announcing the turn.
    pub fn started(&self) -> (e: SessionEvent)
        ensures
            e == (SessionEvent::AgentStarted {
                agent_id: self.speaker().id,
                agent_name: self.speaker().name,
                colour: self.speaker().colour,
                round: self.turn_round(),
            }),
    {
        SessionEvent::AgentStarted {
            agent_id: self.agent.id.clone(),
            agent_name: self.agent.name.clone(),
            colour: self.agent.colour.clone(),
            round: self.round,
        }
    }

    /// Takes one streamed chunk. Every delta is forwarded as it arrives, as an
    /// `AgentDelta` event, empty or not, carrying the part of the answer that
    /// may be shown now. Only a label the model puts in front of its own
    /// answer is withheld: while the text so far (leading whitespace included)
    /// could still turn out to be `Name:`, it is held back and the event is
    /// empty; once that is decided, the held text is sent, without the label,
    /// together with the delta that decided it.
    pub fn on_chunk(self, chunk: ChatChunk) -> (r: (Self, Option<SessionEvent>))
        ensures
            r.0.speaker() == self.speaker(),
            r.0.prepared_request() == self.prepared_request(),
            r.0.assigned_stance() == self.assigned_stance(),
            r.0.turn_round() == self.turn_round(),
            r.0.room_id() == self.room_id(),
            r.0.shown() == live_text(r.0.received(), label_for(self.speaker().name@)),
            match chunk {
                ChatChunk::Delta(d) => {
                    &&& r.0.received() == self.received() + d@
                    &&& r.0.reported_usage() == self.reported_usage()
                    &&& r.1 matches Some(SessionEvent::AgentDelta { agent_id, text })
                        && agent_id == self.speaker().id && r.0.shown() == self.shown() + text@
                },
                ChatChunk::Done(u) => {
                    &&& r.0.received() == self.received()
                    &&& r.0.shown() == self.shown()
                    &&& r.0.reported_usage() == u
                    &&& r.1 is None
                },
            },
    {
        proof {
            use_type_invariant(&self);
        }
        match chunk {
            ChatChunk::Delta(delta) => {
                let (filter, out) = self.filter.push(delta.as_str());
                let mut text = self.text;
                text.append(delta.as_str());
                let event = Some(
                    SessionEvent::AgentDelta { agent_id: self.agent.id.clone(), text: out },
                );
                (
                    Speech {
                        agent: self.agent,
                        request: self.request,
                        round: self.round,
                        room_id: self.room_id,
                        text,
                        usage: self.usage,
                        filter,
                        stance: self.stance,
                    },
                    event,
                )
            },
            ChatChunk::Done(counts) => (
                Speech {
                    agent: self.agent,
                    request: self.request,
                    round: self.round,
                    room_id: self.room_id,
                    text: self.text,
                    usage: counts,
                    filter: self.filter,
                    stance: self.stance,
                },
                None,
            ),
        }
    }

    /// Ends the turn. A failed stream, or an answer with no text once a
    /// self-added label is removed, is reported as a failure; otherwise the
    /// answer becomes a message. Text still held back is shown first.
    pub fn finish(self, outcome: Result<(), HiveError>) -> (r: (Spoken, Vec<SessionEvent>))
        ensures
            r.0.speaker() == self.speaker(),
            r.0.turn_round() == self.turn_round(),
            match outcome {
                Err(e) => {
                    &&& r.0.result() is None
                    &&& r.1@.len() == 1
                    &&& r.1@[0] matches SessionEvent::AgentFailed { agent_id, agent_name, error }
                        && agent_id == self.speaker().id && agent_name == self.speaker().name
                        && error@ == error_text(e@)
                },
                Ok(()) => {
                    let content = stored_text(self.received(), label_for(self.speaker().name@));
                    if content.len() == 0 {
                        &&& r.0.result() is None
                        &&& r.1@.len() == 1
                        &&& r.1@[0] matches SessionEvent::AgentFailed { agent_id, agent_name, error }
                            && agent_id == self.speaker().id && agent_name == self.speaker().name
                            && error@ == error_text(
                            ErrorView::Provider {
                                provider: self.speaker().provider_id@,
                                message: "the model returned no text"@,
                            },
                        )
                    } else {
                        &&& r.0.result() matches Some(m) && m.content@ == content && m.role == Role::Assistant
                            && m.speaker == self.speaker().name && m.agent_id == Some(
                            self.speaker().id,
                        ) && m.round == self.turn_round() && m.room_id@ == self.room_id()
                            && m.usage == Some(self.reported_usage())
                        &&& r.1@.len() >= 1
                        &&& r.1@.last() == SessionEvent::AgentCompleted { message: r.0.result()->0 }
                        &&& r.1@.len() == 1 ==> self.shown() == streamed_text(
                            self.received(),
                            label_for(self.speaker().name@),
                        )
                        &&& r.1@.len() == 2 ==> (r.1@[0] matches SessionEvent::AgentDelta {
                            agent_id,
                            text,
                        } && agent_id == self.speaker().id && self.shown() + text@
                            == streamed_text(self.received(), label_for(self.speaker().name@)))
                        &&& r.1@.len() <= 2
                    }
                },
            },
    {
        proof {
            use_type_invariant(&self);
            lemma_stream_matches_store(self.text@, self.filter.label());
        }
        match outcome {
            Err(e) => {
                let failed = SessionEvent::AgentFailed {
                    agent_id: self.agent.id.clone(),
                    agent_name: self.agent.name.clone(),
                    error: e.message(),
                };
                let mut events: Vec<SessionEvent> = Vec::new();
                events.push(failed);
                (Spoken { agent: self.agent, round: self.round, message: None }, events)
            },
            Ok(()) => {
                let ghost label = self.filter.label();
                let ghost shown = self.filter.sent();
                let flushed = self.filter.finish();
                let content = stored_content(self.text.as_str(), self.agent.name.as_str());
                let mut events: Vec<SessionEvent> = Vec::new();
                if chars_of(content.as_str()).len() == 0 {
                    let e = HiveError::provider(
                        self.agent.provider_id.as_str(),
                        "the model returned no text",
                    );
                    events.push(
                        SessionEvent::AgentFailed {
                            agent_id: self.agent.id.clone(),
                            agent_name: self.agent.name.clone(),
                            error: e.message(),
                        },
                    );
                    return (Spoken { agent: self.agent, round: self.round, message: None }, events);
                }
                if chars_of(flushed.as_str()).len() > 0 {
                    events.push(
                        SessionEvent::AgentDelta { agent_id: self.agent.id.clone(), text: flushed },
                    );
                } else {
                    assert(shown + flushed@ =~= shown);
                }
                let mut message = Message::from_agent(
                    self.room_id.as_str(),
                    &self.agent,
                    content.as_str(),
                    self.round,
                );
                message.usage = Some(self.usage);
                let announced = message.clone();
                events.push(SessionEvent::AgentCompleted { message: announced });
                (Spoken { agent: self.agent, round: self.round, message: Some(message) }, events)
            },
        }
    }
}

/// The content stored for an answer of the named agent.
pub fn stored_content(text: &str, name: &str) -> (content: String)
    ensures
        content@ == stored_text(text@, label_for(name@)),
{
    let label = crate::stream::label_of(name);
    crate::stream::strip_own_label(text, label.as_slice())
}

/// A turn whose answer is read whole rather than streamed, for decisions
/// such as the moderator's choice and the closing vote.
pub struct Question {
    agent: Agent,
    request: ChatRequest,
    answer: String,
    instruction: Ghost<Seq<char>>,
}

impl Question {
    /// The agent asked.
    pub closed spec fn asked(&self) -> Agent {
        self.agent
    }

    /// The request handed to the provider.
    pub closed spec fn prepared_request(&self) -> ChatRequest {
        self.request
    }

    /// The answer received so far.
    pub closed spec fn received(&self) -> Seq<char> {
        self.answer@
    }

    /// The instruction closing the request.
    pub closed spec fn instruction(&self) -> Seq<char> {
        self.instruction@
    }

    /// Asks `agent` in `room`, seeing `transcript`, with a closing instruction.
    pub fn new(room: &Room, agent: &Agent, transcript: &[Message], instruction: &str) -> (q: Self)
        ensures
            q.asked() == *agent,
            q.instruction() == instruction@,
            prepared(q.prepared_request(), *room, *agent, transcript@, None, Some(instruction@)),
            q.received().len() == 0,
    {
        Question {
            agent: agent.clone(),
            request: prepare(room, agent, transcript, None, Some(instruction)),
            answer: String::new(),
            instruction: Ghost(instruction@),
        }
    }

    pub fn agent(&self) -> (a: &Agent)
        ensures
            *a == self.asked(),
    {
        &self.agent
    }

    pub fn request(&self) -> (r: &ChatRequest)
        ensures
            *r == self.prepared_request(),
    {
        &self.request
    }

    /// Takes one streamed chunk; only text counts.
    pub fn on_chunk(self, chunk: ChatChunk) -> (q: Self)
        ensures
            q.asked() == self.asked(),
            q.prepared_request() == self.prepared_request(),
            q.instruction() == self.instruction(),
            q.received() == match chunk {
                ChatChunk::Delta(d) => self.received() + d@,
                ChatChunk::Done(_) => self.received(),
            },
    {
        match chunk {
            ChatChunk::Delta(delta) => {
                let mut answer = self.answer;
                answer.append(delta.as_str());
                Question {
                    agent: self.agent,
                    request: self.request,
                    answer,
                    instruction: self.instruction,
                }
            },
            ChatChunk::Done(_) => self,
        }
    }

    /// The whole answer, or the failure of the stream.
    pub fn finish(self, outcome: Result<(), HiveError>) -> (r: Result<String, HiveError>)
        ensures
            match outcome {
                Ok(()) => r matches Ok(a) && a@ == self.received(),
                Err(e) => r == Err::<String, HiveError>(e),
            },
    {
        match outcome {
            Ok(()) => Ok(self.answer),
            Err(e) => Err(e),
        }
    }
}

} // verus!
