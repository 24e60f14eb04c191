//! Rooms, agents, messages and turn policies, with their validation rules.

use vstd::prelude::*;

use crate::error::{ErrorView, HiveError};
use crate::platform::{fresh_id, now_micros};
use crate::text::{blank, chars_of, is_blank, is_control, is_ctrl, trim, trimmed};

verus! {

/// Upper bound on a single user message, enforced before anything reaches a provider.
pub const MAX_PROMPT_CHARS: usize = 32000;

/// Upper bound on how many agents may share one room. Every agent in a
/// parallel turn opens its own upstream connection, so this doubles as a
/// concurrency limit against accidental fan-out.
pub const MAX_AGENTS_PER_ROOM: usize = 16;

/// Upper bound on a room's context window, counted in messages.
pub const MAX_CONTEXT_LIMIT: u32 = 1000;

/// How many recent messages a new room shows its agents.
pub const DEFAULT_CONTEXT_LIMIT: u32 = 40;

/// The IEEE-754 bit pattern of the default sampling temperature, 0.7.
pub const DEFAULT_TEMPERATURE_BITS: u32 = 0x3F33_3333;

/// The IEEE-754 bit pattern of 2.0, the highest accepted temperature.
pub const MAX_TEMPERATURE_BITS: u32 = 0x4000_0000;

/// The IEEE-754 bit pattern of negative zero.
pub const NEGATIVE_ZERO_BITS: u32 = 0x8000_0000;

pub const DEFAULT_MAX_TOKENS: u32 = 1024;

/// Compares two string slices by their characters.
pub fn str_eq(a: &str, b: &str) -> (r: bool)
    ensures
        r == (a@ == b@),
{
    let x = chars_of(a);
    let y = chars_of(b);
    if x.len() != y.len() {
        assert(x@.len() != y@.len());
        return false;
    }
    let mut i: usize = 0;
    while i < x.len()
        invariant
            x@ == a@,
            y@ == b@,
            x@.len() == y@.len(),
            i <= x@.len(),
            forall|k: int| 0 <= k < i ==> x@[k] == y@[k],
        decreases x@.len() - i,
    {
        if x[i] != y[i] {
            assert(x@[i as int] != y@[i as int]);
            return false;
        }
        i = i + 1;
    }
    assert(x@ =~= y@);
    true
}

pub fn same_text(a: &String, b: &String) -> (r: bool)
    ensures
        r == (a@ == b@),
{
    str_eq(a.as_str(), b.as_str())
}

#[derive(Debug, Clone, Copy, PartialEq, Eq, Structural)]
pub enum Role {
    System,
    User,
    Assistant,
}

pub open spec fn role_text(role: Role) -> Seq<char> {
    match role {
        Role::System => "system"@,
        Role::User => "user"@,
        Role::Assistant => "assistant"@,
    }
}

pub open spec fn role_from_text(raw: Seq<char>) -> Option<Role> {
    if raw == "system"@ {
        Some(Role::System)
    } else if raw == "user"@ {
        Some(Role::User)
    } else if raw == "assistant"@ {
        Some(Role::Assistant)
    } else {
        None
    }
}

impl Role {
    pub fn as_str(self) -> (s: &'static str)
        ensures
            s@ == role_text(self),
    {
        match self {
            Role::System => "system",
            Role::User => "user",
            Role::Assistant => "assistant",
        }
    }

    pub fn parse(raw: &str) -> (r: Result<Role, HiveError>)
        ensures
            match role_from_text(raw@) {
                Some(role) => r == Ok::<Role, HiveError>(role),
                None => r matches Err(e) && e@ == ErrorView::Validation(
                    "unknown role '"@ + raw@ + "'"@,
                ),
            },
    {
        if str_eq(raw, "system") {
            Ok(Role::System)
        } else if str_eq(raw, "user") {
            Ok(Role::User)
        } else if str_eq(raw, "assistant") {
            Ok(Role::Assistant)
        } else {
            let mut m = "unknown role '".to_owned();
            m.append(raw);
            m.append("'");
            Err(HiveError::Validation(m))
        }
    }
}

#[derive(Debug, Clone, Copy, PartialEq, Eq, Structural)]
pub struct TokenUsage {
    pub input_tokens: u32,
    pub output_tokens: u32,
}

impl Default for TokenUsage {
    fn default() -> (u: Self)
        ensures
            u.input_tokens == 0,
            u.output_tokens == 0,
    {
        TokenUsage { input_tokens: 0, output_tokens: 0 }
    }
}

impl TokenUsage {
    pub fn zero() -> (u: Self)
        ensures
            u.input_tokens == 0,
            u.output_tokens == 0,
    {
        TokenUsage { input_tokens: 0, output_tokens: 0 }
    }
}

pub fn clone_opt_string(s: &Option<String>) -> (r: Option<String>)
    ensures
        r == *s,
{
    match s {
        Some(v) => Some(v.clone()),
        None => None,
    }
}

/// One utterance in a room transcript.
///
/// `speaker` is the human-readable agent name and stays separate from `role`,
/// because every agent sees the other agents' turns as assistant content but
/// still needs to tell who said what. `created_at` counts microseconds since
/// the Unix epoch.
#[derive(Debug)]
pub struct Message {
    pub id: String,
    pub room_id: String,
    pub role: Role,
    pub speaker: String,
    pub agent_id: Option<String>,
    pub content: String,
    pub created_at: i64,
    pub round: u32,
    pub usage: Option<TokenUsage>,
}

impl Clone for Message {
    fn clone(&self) -> (r: Self)
        ensures
            r == *self,
    {
        Message {
            id: self.id.clone(),
            room_id: self.room_id.clone(),
            role: self.role,
            speaker: self.speaker.clone(),
            agent_id: clone_opt_string(&self.agent_id),
            content: self.content.clone(),
            created_at: self.created_at,
            round: self.round,
            usage: self.usage,
        }
    }
}

impl Message {
    /// The prompt a person typed into the room.
    pub fn from_user(room_id: &str, content: &str) -> (m: Message)
        ensures
            m.room_id@ == room_id@,
            m.role == Role::User,
            m.speaker@ == "user"@,
            m.agent_id is None,
            m.content@ == content@,
            m.round == 0,
            m.usage is None,
            m.id@.len() == 36,
    {
        Message {
            id: fresh_id(),
            room_id: room_id.to_owned(),
            role: Role::User,
            speaker: "user".to_owned(),
            agent_id: None,
            content: content.to_owned(),
            created_at: now_micros(),
            round: 0,
            usage: None,
        }
    }

    /// A contribution of `agent` in the given round.
    pub fn from_agent(room_id: &str, agent: &Agent, content: &str, round: u32) -> (m: Message)
        ensures
            m.room_id@ == room_id@,
            m.role == Role::Assistant,
            m.speaker == agent.name,
            m.agent_id == Some(agent.id),
            m.content@ == content@,
            m.round == round,
            m.usage is None,
            m.id@.len() == 36,
    {
        Message {
            id: fresh_id(),
            room_id: room_id.to_owned(),
            role: Role::Assistant,
            speaker: agent.name.clone(),
            agent_id: Some(agent.id.clone()),
            content: content.to_owned(),
            created_at: now_micros(),
            round,
            usage: None,
        }
    }
}

/// A participant in a room: one model behind one credential, with its own persona.
///
/// `temperature_bits` holds the IEEE-754 single-precision bit pattern of the
/// sampling temperature, so the value is carried exactly without floating
/// point. `reasoning` is off by default because reasoning tokens are drawn
/// from the same `max_tokens` budget as the answer, and a chat room wants
/// short turns.
#[derive(Debug)]
pub struct Agent {
    pub id: String,
    pub name: String,
    pub provider_id: String,
    pub model: String,
    pub persona: String,
    pub temperature_bits: u32,
    pub max_tokens: u32,
    pub colour: String,
    pub reasoning: bool,
    pub enabled: bool,
}

impl Clone for Agent {
    fn clone(&self) -> (r: Self)
        ensures
            r == *self,
    {
        Agent {
            id: self.id.clone(),
            name: self.name.clone(),
            provider_id: self.provider_id.clone(),
            model: self.model.clone(),
            persona: self.persona.clone(),
            temperature_bits: self.temperature_bits,
            max_tokens: self.max_tokens,
            colour: self.colour.clone(),
            reasoning: self.reasoning,
            enabled: self.enabled,
        }
    }
}

/// The answer budget of an agent that names none.
pub fn default_max_tokens() -> (n: u32)
    ensures
        n == DEFAULT_MAX_TOKENS,
{
    DEFAULT_MAX_TOKENS
}

/// The rounds of a room that names none.
pub fn default_rounds() -> (n: u32)
    ensures
        n == 1,
{
    1
}

pub fn default_colour() -> (s: String)
    ensures
        s@ == "#e8e8e8"@,
{
    "#e8e8e8".to_owned()
}

/// Whether an IEEE-754 single-precision bit pattern denotes a number in
/// `0.0..=2.0`. Non-negative floats order like their bit patterns, negative
/// zero compares equal to zero, and every NaN lies above the pattern of 2.0.
pub open spec fn temperature_in_range(bits: u32) -> bool {
    bits <= MAX_TEMPERATURE_BITS || bits == NEGATIVE_ZERO_BITS
}

/// The number of bytes a character takes in UTF-8.
pub open spec fn utf8_width(c: char) -> nat {
    let u = c as u32;
    if u < 0x80 {
        1
    } else if u < 0x800 {
        2
    } else if u < 0x10000 {
        3
    } else {
        4
    }
}

/// The length of a text in UTF-8 bytes, which is what `str::len` reports.
pub open spec fn utf8_len(s: Seq<char>) -> nat
    decreases s.len(),
{
    if s.len() == 0 {
        0
    } else {
        utf8_len(s.drop_last()) + utf8_width(s.last())
    }
}

pub fn char_width(c: char) -> (w: u64)
    ensures
        w == utf8_width(c),
{
    let u = c as u32;
    if u < 0x80 {
        1
    } else if u < 0x800 {
        2
    } else if u < 0x10000 {
        3
    } else {
        4
    }
}

/// The UTF-8 byte length of a run of characters, saturating at `u64::MAX`.
pub fn utf8_len_of(v: &[char]) -> (n: u64)
    ensures
        n == utf8_len(v@) || (n == u64::MAX && utf8_len(v@) >= u64::MAX),
{
    let mut n: u64 = 0;
    let mut i: usize = 0;
    while i < v.len()
        invariant
            i <= v@.len(),
            n == utf8_len(v@.take(i as int)) || (n == u64::MAX && utf8_len(v@.take(i as int))
                >= u64::MAX),
        decreases v@.len() - i,
    {
        assert(v@.take(i + 1).drop_last() =~= v@.take(i as int));
        let w = char_width(v[i]);
        if n > u64::MAX - w {
            n = u64::MAX;
        } else {
            n = n + w;
        }
        i = i + 1;
    }
    assert(v@.take(v@.len() as int) =~= v@);
    n
}

/// The first rule a name breaks, if any.
pub open spec fn name_problem(name: Seq<char>) -> Option<Seq<char>> {
    let t = trim(name);
    if t.len() == 0 || utf8_len(t) > 64 {
        Some("name must be 1 to 64 characters"@)
    } else if exists|i: int| 0 <= i < t.len() && is_ctrl(#[trigger] t[i]) {
        Some("name must not contain control characters"@)
    } else {
        None
    }
}

/// The first rule an agent breaks, if any.
pub open spec fn agent_problem(a: Agent) -> Option<Seq<char>> {
    if name_problem(a.name@) is Some {
        name_problem(a.name@)
    } else if blank(a.model@) {
        Some("agent model must not be empty"@)
    } else if !temperature_in_range(a.temperature_bits) {
        Some("temperature must be between 0.0 and 2.0"@)
    } else if a.max_tokens == 0 || a.max_tokens > 32000 {
        Some("max_tokens must be between 1 and 32000"@)
    } else {
        None
    }
}

pub open spec fn outcome_of(problem: Option<Seq<char>>, r: Result<(), HiveError>) -> bool {
    match problem {
        None => r is Ok,
        Some(m) => r matches Err(e) && e@ == ErrorView::Validation(m),
    }
}

impl Agent {
    pub fn new(name: &str, provider_id: &str, model: &str) -> (a: Agent)
        ensures
            a.name@ == name@,
            a.provider_id@ == provider_id@,
            a.model@ == model@,
            a.persona@ == Seq::<char>::empty(),
            a.temperature_bits == DEFAULT_TEMPERATURE_BITS,
            a.max_tokens == DEFAULT_MAX_TOKENS,
            a.colour@ == "#e8e8e8"@,
            !a.reasoning,
            a.enabled,
            a.id@.len() == 36,
    {
        Agent {
            id: fresh_id(),
            name: name.to_owned(),
            provider_id: provider_id.to_owned(),
            model: model.to_owned(),
            persona: String::new(),
            temperature_bits: DEFAULT_TEMPERATURE_BITS,
            max_tokens: DEFAULT_MAX_TOKENS,
            colour: default_colour(),
            reasoning: false,
            enabled: true,
        }
    }

    pub fn with_reasoning(self, reasoning: bool) -> (a: Agent)
        ensures
            a == (Agent { reasoning, ..self }),
    {
        Agent { reasoning, ..self }
    }

    pub fn with_persona(self, persona: &str) -> (a: Agent)
        ensures
            a.persona@ == persona@,
            a == (Agent { persona: a.persona, ..self }),
    {
        Agent { persona: persona.to_owned(), ..self }
    }

    pub fn with_colour(self, colour: &str) -> (a: Agent)
        ensures
            a.colour@ == colour@,
            a == (Agent { colour: a.colour, ..self }),
    {
        Agent { colour: colour.to_owned(), ..self }
    }

    pub fn validate(&self) -> (r: Result<(), HiveError>)
        ensures
            outcome_of(agent_problem(*self), r),
    {
        validate_name(self.name.as_str())?;
        if is_blank(self.model.as_str()) {
            return Err(HiveError::Validation("agent model must not be empty".to_owned()));
        }
        if !(self.temperature_bits <= MAX_TEMPERATURE_BITS || self.temperature_bits
            == NEGATIVE_ZERO_BITS) {
            return Err(
                HiveError::Validation("temperature must be between 0.0 and 2.0".to_owned()),
            );
        }
        if self.max_tokens == 0 || self.max_tokens > 32000 {
            return Err(
                HiveError::Validation("max_tokens must be between 1 and 32000".to_owned()),
            );
        }
        Ok(())
    }
}

/// How the orchestrator distributes turns among the agents of a room.
#[derive(Debug, Clone, Copy, PartialEq, Eq, Structural)]
pub enum TurnPolicy {
    /// Every agent answers the same prompt without seeing the others. The
    /// comparison mode: identical input, N independent outputs.
    Parallel,
    /// Agents speak one after another and each sees everything said before.
    RoundRobin,
    /// Like round robin, but agents are assigned alternating stances and are
    /// instructed to challenge the previous speaker.
    Debate,
    /// A designated moderator agent picks who speaks next, one speaker per round.
    Moderated,
    /// Agents discuss for the configured rounds, then each casts an explicit vote.
    Consensus,
}

pub open spec fn policy_text(p: TurnPolicy) -> Seq<char> {
    match p {
        TurnPolicy::Parallel => "parallel"@,
        TurnPolicy::RoundRobin => "round_robin"@,
        TurnPolicy::Debate => "debate"@,
        TurnPolicy::Moderated => "moderated"@,
        TurnPolicy::Consensus => "consensus"@,
    }
}

pub open spec fn policy_from_text(raw: Seq<char>) -> Option<TurnPolicy> {
    if raw == "parallel"@ {
        Some(TurnPolicy::Parallel)
    } else if raw == "round_robin"@ {
        Some(TurnPolicy::RoundRobin)
    } else if raw == "debate"@ {
        Some(TurnPolicy::Debate)
    } else if raw == "moderated"@ {
        Some(TurnPolicy::Moderated)
    } else if raw == "consensus"@ {
        Some(TurnPolicy::Consensus)
    } else {
        None
    }
}

/// Every policy, in the order the interfaces list them.
pub open spec fn all_policies() -> Seq<TurnPolicy> {
    seq![
        TurnPolicy::Parallel,
        TurnPolicy::RoundRobin,
        TurnPolicy::Debate,
        TurnPolicy::Moderated,
        TurnPolicy::Consensus,
    ]
}

impl TurnPolicy {
    /// Whether an agent's prompt should contain the other agents' contributions.
    pub fn agents_see_each_other(self) -> (b: bool)
        ensures
            b == (self != TurnPolicy::Parallel),
    {
        !matches!(self, TurnPolicy::Parallel)
    }

    pub fn as_str(self) -> (s: &'static str)
        ensures
            s@ == policy_text(self),
    {
        match self {
            TurnPolicy::Parallel => "parallel",
            TurnPolicy::RoundRobin => "round_robin",
            TurnPolicy::Debate => "debate",
            TurnPolicy::Moderated => "moderated",
            TurnPolicy::Consensus => "consensus",
        }
    }

    pub fn parse(raw: &str) -> (r: Result<TurnPolicy, HiveError>)
        ensures
            match policy_from_text(raw@) {
                Some(p) => r == Ok::<TurnPolicy, HiveError>(p),
                None => r matches Err(e) && e@ == ErrorView::Validation(
                    "unknown turn policy '"@ + raw@ + "'"@,
                ),
            },
    {
        if str_eq(raw, "parallel") {
            Ok(TurnPolicy::Parallel)
        } else if str_eq(raw, "round_robin") {
            Ok(TurnPolicy::RoundRobin)
        } else if str_eq(raw, "debate") {
            Ok(TurnPolicy::Debate)
        } else if str_eq(raw, "moderated") {
            Ok(TurnPolicy::Moderated)
        } else if str_eq(raw, "consensus") {
            Ok(TurnPolicy::Consensus)
        } else {
            let mut m = "unknown turn policy '".to_owned();
            m.append(raw);
            m.append("'");
            Err(HiveError::Validation(m))
        }
    }

    /// Every policy, in the order the interfaces list them.
    pub fn all() -> (v: Vec<TurnPolicy>)
        ensures
            v@ == all_policies(),
    {
        let v = vec![
            TurnPolicy::Parallel,
            TurnPolicy::RoundRobin,
            TurnPolicy::Debate,
            TurnPolicy::Moderated,
            TurnPolicy::Consensus,
        ];
        assert(v@ =~= all_policies());
        v
    }
}

/// Every policy survives the round trip through its text form.
pub proof fn lemma_policy_text_round_trip(p: TurnPolicy)
    ensures
        policy_from_text(policy_text(p)) == Some(p),
{
    reveal_strlit("parallel");
    reveal_strlit("round_robin");
    reveal_strlit("debate");
    reveal_strlit("moderated");
    reveal_strlit("consensus");
    assert("parallel"@.len() == 8);
    assert("round_robin"@.len() == 11);
    assert("debate"@.len() == 6);
    assert("moderated"@.len() == 9);
    assert("consensus"@.len() == 9);
    assert("moderated"@[0] != "consensus"@[0]);
}

/// A conversation space holding agents, a policy and a transcript.
///
/// `moderator_id` is required by the moderated policy and ignored otherwise.
/// `context_limit` caps how many of the most recent messages reach a model;
/// zero means the whole transcript. `created_at` counts microseconds since the
/// Unix epoch.
#[derive(Debug)]
pub struct Room {
    pub id: String,
    pub name: String,
    pub topic: String,
    pub policy: TurnPolicy,
    pub rounds: u32,
    pub context_limit: u32,
    pub moderator_id: Option<String>,
    pub agents: Vec<Agent>,
    pub created_at: i64,
}

pub fn clone_agents(agents: &Vec<Agent>) -> (r: Vec<Agent>)
    ensures
        r@ == agents@,
{
    let mut r: Vec<Agent> = Vec::new();
    let mut i: usize = 0;
    while i < agents.len()
        invariant
            i <= agents@.len(),
            r@ == agents@.take(i as int),
        decreases agents@.len() - i,
    {
        r.push(agents[i].clone());
        assert(agents@.take(i + 1) =~= agents@.take(i as int).push(agents@[i as int]));
        i = i + 1;
    }
    assert(agents@.take(agents@.len() as int) =~= agents@);
    r
}

impl Clone for Room {
    fn clone(&self) -> (r: Self)
        ensures
            r.id == self.id,
            r.name == self.name,
            r.topic == self.topic,
            r.policy == self.policy,
            r.rounds == self.rounds,
            r.context_limit == self.context_limit,
            r.moderator_id == self.moderator_id,
            r.agents@ == self.agents@,
            r.created_at == self.created_at,
    {
        let agents = clone_agents(&self.agents);
        assert(agents@ == self.agents@);
        Room {
            id: self.id.clone(),
            name: self.name.clone(),
            topic: self.topic.clone(),
            policy: self.policy,
            rounds: self.rounds,
            context_limit: self.context_limit,
            moderator_id: clone_opt_string(&self.moderator_id),
            agents,
            created_at: self.created_at,
        }
    }
}

/// The enabled agents, in their order in the room.
pub open spec fn enabled_of(agents: Seq<Agent>) -> Seq<Agent>
    decreases agents.len(),
{
    if agents.len() == 0 {
        seq![]
    } else if agents.last().enabled {
        enabled_of(agents.drop_last()).push(agents.last())
    } else {
        enabled_of(agents.drop_last())
    }
}

/// The enabled agents are enabled members of the room, and every enabled
/// member is among them.
pub proof fn lemma_enabled_of_members(agents: Seq<Agent>)
    ensures
        enabled_of(agents).len() <= agents.len(),
        forall|i: int| 0 <= i < enabled_of(agents).len() ==> (#[trigger] enabled_of(agents)[i]).enabled,
        forall|i: int| 0 <= i < enabled_of(agents).len() ==> agents.contains(#[trigger] enabled_of(agents)[i]),
        forall|i: int| 0 <= i < agents.len() && (#[trigger] agents[i]).enabled ==> enabled_of(agents).contains(agents[i]),
    decreases agents.len(),
{
    if agents.len() > 0 {
        let init = agents.drop_last();
        lemma_enabled_of_members(init);
        assert forall|i: int| 0 <= i < enabled_of(agents).len() implies agents.contains(
            #[trigger] enabled_of(agents)[i],
        ) by {
            if i < enabled_of(init).len() {
                let x = enabled_of(init)[i];
                assert(init.contains(x));
                let k = choose|k: int| 0 <= k < init.len() && init[k] == x;
                assert(agents[k] == x);
            } else {
                assert(agents[agents.len() - 1] == agents.last());
            }
        }
        assert forall|i: int| 0 <= i < agents.len() && (#[trigger] agents[i]).enabled implies enabled_of(
            agents,
        ).contains(agents[i]) by {
            if i < agents.len() - 1 {
                assert(init[i] == agents[i]);
                assert(enabled_of(init).contains(agents[i]));
                let k = choose|k: int| 0 <= k < enabled_of(init).len() && enabled_of(init)[k] == agents[i];
                assert(enabled_of(agents)[k] == agents[i]);
            } else {
                assert(enabled_of(agents).last() == agents[i]);
                assert(enabled_of(agents)[enabled_of(agents).len() - 1] == agents[i]);
            }
        }
    }
}

/// The first rule a list of agents breaks, checked from the front.
pub open spec fn agents_problem(agents: Seq<Agent>) -> Option<Seq<char>>
    decreases agents.len(),
{
    if agents.len() == 0 {
        None
    } else if agent_problem(agents[0]) is Some {
        agent_problem(agents[0])
    } else {
        agents_problem(agents.drop_first())
    }
}

/// Whether some agent carries this id.
pub open spec fn has_agent_id(agents: Seq<Agent>, id: Seq<char>) -> bool {
    exists|i: int| 0 <= i < agents.len() && (#[trigger] agents[i]).id@ == id
}

/// The first problem a room has, if any.
pub open spec fn room_problem(room: Room) -> Option<ErrorView> {
    if name_problem(room.name@) is Some {
        Some(ErrorView::Validation(name_problem(room.name@)->0))
    } else if room.agents@.len() > MAX_AGENTS_PER_ROOM {
        Some(ErrorView::Validation("a room holds at most 16 agents"@))
    } else if room.rounds < 1 || room.rounds > 20 {
        Some(ErrorView::Validation("rounds must be between 1 and 20"@))
    } else if room.context_limit > MAX_CONTEXT_LIMIT {
        Some(ErrorView::Validation("context_limit must be between 0 and 1000"@))
    } else if agents_problem(room.agents@) is Some {
        Some(ErrorView::Validation(agents_problem(room.agents@)->0))
    } else if room.policy != TurnPolicy::Moderated {
        if room.moderator_id is Some {
            Some(ErrorView::Validation("moderator_id is only accepted by the moderated policy"@))
        } else {
            None
        }
    } else {
        match room.moderator_id {
            None => Some(ErrorView::Validation("the moderated policy requires a moderator agent"@)),
            Some(id) => if has_agent_id(room.agents@, id@) {
                None
            } else {
                Some(ErrorView::UnknownAgent(id@))
            },
        }
    }
}

/// The first problem a room about to be created has, if any: those of any
/// room, then an empty line-up.
pub open spec fn new_room_problem(room: Room) -> Option<ErrorView> {
    if room_problem(room) is Some {
        room_problem(room)
    } else if room.agents@.len() == 0 {
        Some(ErrorView::Validation("a room needs at least one agent"@))
    } else {
        None
    }
}

impl Room {
    pub fn new(name: &str, policy: TurnPolicy) -> (room: Room)
        ensures
            room.name@ == name@,
            room.topic@ == Seq::<char>::empty(),
            room.policy == policy,
            room.rounds == 1,
            room.context_limit == DEFAULT_CONTEXT_LIMIT,
            room.moderator_id is None,
            room.agents@.len() == 0,
            room.id@.len() == 36,
    {
        Room {
            id: fresh_id(),
            name: name.to_owned(),
            topic: String::new(),
            policy,
            rounds: 1,
            context_limit: DEFAULT_CONTEXT_LIMIT,
            moderator_id: None,
            agents: Vec::new(),
            created_at: now_micros(),
        }
    }

    /// The agents that take part in turns, in room order.
    pub fn active_agents(&self) -> (v: Vec<Agent>)
        ensures
            v@ == enabled_of(self.agents@),
    {
        let mut v: Vec<Agent> = Vec::new();
        let mut i: usize = 0;
        while i < self.agents.len()
            invariant
                i <= self.agents@.len(),
                v@ == enabled_of(self.agents@.take(i as int)),
            decreases self.agents@.len() - i,
        {
            assert(self.agents@.take(i + 1).drop_last() =~= self.agents@.take(i as int));
            if self.agents[i].enabled {
                v.push(self.agents[i].clone());
            }
            i = i + 1;
        }
        assert(self.agents@.take(self.agents@.len() as int) =~= self.agents@);
        v
    }

    /// The first agent with the given id.
    pub fn agent(&self, agent_id: &str) -> (r: Result<&Agent, HiveError>)
        ensures
            match r {
                Ok(a) => exists|i: int|
                    0 <= i < self.agents@.len() && self.agents@[i] == *a && a.id@ == agent_id@
                        && forall|j: int| 0 <= j < i ==> (#[trigger] self.agents@[j]).id@ != agent_id@,
                Err(e) => !has_agent_id(self.agents@, agent_id@) && e@ == ErrorView::UnknownAgent(
                    agent_id@,
                ),
            },
    {
        let mut i: usize = 0;
        while i < self.agents.len()
            invariant
                i <= self.agents@.len(),
                forall|j: int| 0 <= j < i ==> (#[trigger] self.agents@[j]).id@ != agent_id@,
            decreases self.agents@.len() - i,
        {
            if str_eq(self.agents[i].id.as_str(), agent_id) {
                return Ok(&self.agents[i]);
            }
            i = i + 1;
        }
        Err(HiveError::UnknownAgent(agent_id.to_owned()))
    }

    /// Checks a room that is about to be created: a valid room with at least
    /// one agent. Rooms built up agent by agent are checked with
    /// [`Room::validate`] instead.
    pub fn validate_new(&self) -> (r: Result<(), HiveError>)
        ensures
            match new_room_problem(*self) {
                None => r is Ok,
                Some(v) => r matches Err(e) && e@ == v,
            },
    {
        self.validate()?;
        if self.agents.len() == 0 {
            return Err(HiveError::Validation("a room needs at least one agent".to_owned()));
        }
        Ok(())
    }

    pub fn validate(&self) -> (r: Result<(), HiveError>)
        ensures
            match room_problem(*self) {
                None => r is Ok,
                Some(v) => r matches Err(e) && e@ == v,
            },
    {
        validate_name(self.name.as_str())?;
        if self.agents.len() > MAX_AGENTS_PER_ROOM {
            return Err(HiveError::Validation("a room holds at most 16 agents".to_owned()));
        }
        if self.rounds < 1 || self.rounds > 20 {
            return Err(HiveError::Validation("rounds must be between 1 and 20".to_owned()));
        }
        if self.context_limit > MAX_CONTEXT_LIMIT {
            return Err(
                HiveError::Validation("context_limit must be between 0 and 1000".to_owned()),
            );
        }
        let mut i: usize = 0;
        assert(self.agents@.skip(0) =~= self.agents@);
        while i < self.agents.len()
            invariant
                i <= self.agents@.len(),
                agents_problem(self.agents@) == agents_problem(self.agents@.skip(i as int)),
                name_problem(self.name@) is None,
                self.agents@.len() <= MAX_AGENTS_PER_ROOM,
                1 <= self.rounds <= 20,
                self.context_limit <= MAX_CONTEXT_LIMIT,
            decreases self.agents@.len() - i,
        {
            assert(self.agents@.skip(i as int)[0] == self.agents@[i as int]);
            assert(self.agents@.skip(i as int).drop_first() =~= self.agents@.skip(i + 1));
            self.agents[i].validate()?;
            i = i + 1;
        }
        assert(self.agents@.skip(i as int).len() == 0);
        self.validate_moderator()
    }

    fn validate_moderator(&self) -> (r: Result<(), HiveError>)
        ensures
            self.policy != TurnPolicy::Moderated ==> match self.moderator_id {
                None => r is Ok,
                Some(_) => r matches Err(e) && e@ == ErrorView::Validation(
                    "moderator_id is only accepted by the moderated policy"@,
                ),
            },
            self.policy == TurnPolicy::Moderated ==> match self.moderator_id {
                None => r matches Err(e) && e@ == ErrorView::Validation(
                    "the moderated policy requires a moderator agent"@,
                ),
                Some(id) => if has_agent_id(self.agents@, id@) {
                    r is Ok
                } else {
                    r matches Err(e) && e@ == ErrorView::UnknownAgent(id@)
                },
            },
    {
        if self.policy != TurnPolicy::Moderated {
            return match &self.moderator_id {
                None => Ok(()),
                Some(_) => Err(
                    HiveError::Validation(
                        "moderator_id is only accepted by the moderated policy".to_owned(),
                    ),
                ),
            };
        }
        match &self.moderator_id {
            Some(id) => {
                let found = self.agent(id.as_str());
                match found {
                    Ok(_) => Ok(()),
                    Err(e) => Err(e),
                }
            },
            None => Err(
                HiveError::Validation("the moderated policy requires a moderator agent".to_owned()),
            ),
        }
    }

    /// A copy of the room's line-up under a new name: a fresh room id, fresh
    /// agent ids, the moderator remapped onto its copy, and no transcript.
    pub fn duplicate(&self, name: &str) -> (copy: Room)
        ensures
            copy.name@ == name@,
            copy.topic == self.topic,
            copy.policy == self.policy,
            copy.rounds == self.rounds,
            copy.context_limit == self.context_limit,
            copy.agents@.len() == self.agents@.len(),
            copy.id@.len() == 36,
            forall|i: int|
                0 <= i < self.agents@.len() ==> (#[trigger] copy.agents@[i]) == (Agent {
                    id: copy.agents@[i].id,
                    ..self.agents@[i]
                }) && copy.agents@[i].id@.len() == 36,
            match self.moderator_id {
                None => copy.moderator_id is None,
                Some(m) => match copy.moderator_id {
                    None => !has_agent_id(self.agents@, m@),
                    Some(c) => exists|i: int|
                        0 <= i < self.agents@.len() && (#[trigger] self.agents@[i]).id@ == m@
                            && c == copy.agents@[i].id,
                },
            },
    {
        let mut agents: Vec<Agent> = Vec::new();
        let mut moderator: Option<String> = None;
        let mut i: usize = 0;
        while i < self.agents.len()
            invariant
                i <= self.agents@.len(),
                agents@.len() == i,
                forall|k: int|
                    0 <= k < i ==> (#[trigger] agents@[k]) == (Agent {
                        id: agents@[k].id,
                        ..self.agents@[k]
                    }) && agents@[k].id@.len() == 36,
                match self.moderator_id {
                    None => moderator is None,
                    Some(m) => match moderator {
                        None => forall|k: int| 0 <= k < i ==> (#[trigger] self.agents@[k]).id@ != m@,
                        Some(c) => exists|k: int|
                            0 <= k < i && (#[trigger] self.agents@[k]).id@ == m@ && c
                                == agents@[k].id,
                    },
                },
            decreases self.agents@.len() - i,
        {
            let source = &self.agents[i];
            let fresh = Agent { id: fresh_id(), ..source.clone() };
            if moderator.is_none() {
                if let Some(m) = &self.moderator_id {
                    if same_text(&source.id, m) {
                        moderator = Some(fresh.id.clone());
                    }
                }
            }
            agents.push(fresh);
            i = i + 1;
        }
        Room {
            id: fresh_id(),
            name: name.to_owned(),
            topic: self.topic.clone(),
            policy: self.policy,
            rounds: self.rounds,
            context_limit: self.context_limit,
            moderator_id: moderator,
            agents,
            created_at: now_micros(),
        }
    }
}

/// Rejects control characters so a name cannot forge speaker labels or break
/// the transcript rendering in the web UI.
pub fn validate_name(name: &str) -> (r: Result<(), HiveError>)
    ensures
        outcome_of(name_problem(name@), r),
{
    let t = trimmed(name);
    let v = chars_of(t.as_str());
    let bytes = utf8_len_of(v.as_slice());
    if v.len() == 0 || bytes > 64 {
        return Err(HiveError::Validation("name must be 1 to 64 characters".to_owned()));
    }
    let mut i: usize = 0;
    while i < v.len()
        invariant
            v@ == trim(name@),
            v@.len() > 0,
            utf8_len(v@) <= 64,
            i <= v@.len(),
            forall|k: int| 0 <= k < i ==> !is_ctrl(#[trigger] v@[k]),
        decreases v@.len() - i,
    {
        if is_control(v[i]) {
            assert(is_ctrl(trim(name@)[i as int]));
            return Err(
                HiveError::Validation("name must not contain control characters".to_owned()),
            );
        }
        i = i + 1;
    }
    assert(!exists|k: int| 0 <= k < v@.len() && is_ctrl(#[trigger] trim(name@)[k]));
    Ok(())
}

/// The first rule a prompt breaks, if any.
pub open spec fn prompt_problem(prompt: Seq<char>) -> Option<Seq<char>> {
    if blank(prompt) {
        Some("prompt must not be empty"@)
    } else if prompt.len() > MAX_PROMPT_CHARS {
        Some("prompt exceeds the limit of 32000 characters"@)
    } else {
        None
    }
}

pub fn validate_prompt(prompt: &str) -> (r: Result<(), HiveError>)
    ensures
        outcome_of(prompt_problem(prompt@), r),
{
    if is_blank(prompt) {
        return Err(HiveError::Validation("prompt must not be empty".to_owned()));
    }
    let v = chars_of(prompt);
    if v.len() > MAX_PROMPT_CHARS {
        return Err(
            HiveError::Validation("prompt exceeds the limit of 32000 characters".to_owned()),
        );
    }
    Ok(())
}

} // verus!
