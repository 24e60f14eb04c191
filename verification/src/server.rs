//! The decisions behind the HTTP and socket API: access tokens, room claims,
//! error statuses, and the shapes the web UI is given.

use vstd::prelude::*;
use vstd::std_specs::convert::FromSpecImpl;

use crate::config::{local_url, resolved_url, ProviderConfig, ProviderKind};
use crate::error::{error_text, ErrorView, HiveError};
use crate::model::{
    policy_text, str_eq, Agent, Message, Room, TurnPolicy, DEFAULT_MAX_TOKENS,
    DEFAULT_TEMPERATURE_BITS,
};
use crate::platform::{format_utc, utc_format};
use crate::provider::is_known;
use crate::secrets::valid_var_name;
use crate::text::{
    blank, chars_of, chars_eq_ignore_ascii_case, decimal, decimal_string, eq_ignore_ascii_case,
    is_blank, join, join_strings, string_from, trim, trim_chars, vec_slice,
};

verus! {

/// Position of the first space in a text, or its length when it has none.
pub open spec fn space_index(s: Seq<char>) -> int
    decreases s.len(),
{
    if s.len() == 0 {
        0
    } else if s[0] == ' ' {
        0
    } else {
        1 + space_index(s.drop_first())
    }
}

/// The first space sits where `space_index` says, with none before it.
proof fn lemma_space_index(s: Seq<char>)
    ensures
        0 <= space_index(s) <= s.len(),
        space_index(s) < s.len() ==> s[space_index(s)] == ' ',
        forall|j: int| 0 <= j < space_index(s) ==> s[j] != ' ',
    decreases s.len(),
{
    if s.len() > 0 && s[0] != ' ' {
        lemma_space_index(s.drop_first());
        assert forall|j: int| 0 <= j < space_index(s) implies s[j] != ' ' by {
            if j > 0 {
                assert(s[j] == s.drop_first()[j - 1]);
            }
        }
    }
}

/// The credential of an `Authorization` header value whose scheme is
/// `bearer` in any letter case.
pub open spec fn bearer_of(header: Seq<char>) -> Option<Seq<char>> {
    let i = space_index(header);
    if i < header.len() && eq_ignore_ascii_case(header.take(i), "bearer"@) {
        Some(trim(header.skip(i + 1)))
    } else {
        None
    }
}

/// Extracts the credential from an `Authorization` header, case-insensitively
/// on the scheme as RFC 7235 requires.
pub fn bearer_token(header: &str) -> (r: Option<String>)
    ensures
        match bearer_of(header@) {
            Some(t) => r matches Some(s) && s@ == t,
            None => r is None,
        },
{
    let chars = chars_of(header);
    proof {
        lemma_space_index(header@);
    }
    let mut i: usize = 0;
    while i < chars.len() && chars[i] != ' '
        invariant
            chars@ == header@,
            i <= space_index(header@),
            forall|j: int| 0 <= j < space_index(header@) ==> header@[j] != ' ',
            space_index(header@) < header@.len() ==> header@[space_index(header@)] == ' ',
            space_index(header@) <= header@.len(),
        decreases chars@.len() - i,
    {
        i = i + 1;
    }
    if i >= chars.len() {
        return None;
    }
    let scheme = vec_slice(chars.as_slice(), 0, i);
    let bearer: Vec<char> = vec!['b', 'e', 'a', 'r', 'e', 'r'];
    proof {
        reveal_strlit("bearer");
        assert(bearer@ =~= "bearer"@);
        assert(scheme@ =~= header@.take(i as int));
    }
    if !chars_eq_ignore_ascii_case(scheme.as_slice(), bearer.as_slice()) {
        return None;
    }
    let rest = vec_slice(chars.as_slice(), i + 1, chars.len());
    assert(rest@ =~= header@.skip(i + 1));
    Some(string_from(trim_chars(rest.as_slice()).as_slice()))
}

/// Compares two secrets without an early exit, so a wrong token cannot be
/// discovered one byte at a time by timing the response.
pub fn constant_time_eq(left: &[u8], right: &[u8]) -> (same: bool)
    ensures
        same == (left@ == right@),
{
    if left.len() != right.len() {
        return false;
    }
    let mut acc: u8 = 0;
    let mut i: usize = 0;
    while i < left.len()
        invariant
            left@.len() == right@.len(),
            i <= left@.len(),
            (acc == 0) == (forall|j: int| 0 <= j < i ==> left@[j] == right@[j]),
        decreases left@.len() - i,
    {
        let a = left[i];
        let b = right[i];
        let next = acc | (a ^ b);
        assert((next == 0) == (acc == 0 && a == b)) by (bit_vector)
            requires
                next == acc | (a ^ b),
        ;
        acc = next;
        i = i + 1;
    }
    if acc == 0 {
        assert(left@ =~= right@);
    }
    acc == 0
}

/// Whether a presented token opens the API: always when no token is
/// configured, otherwise only when it is exactly the configured one.
pub fn token_matches(expected: &Option<String>, presented: Option<&str>) -> (open: bool)
    ensures
        open == match (expected, presented) {
            (None, _) => true,
            (Some(e), Some(g)) => e@ == g@,
            (Some(_), None) => false,
        },
{
    match (expected, presented) {
        (None, _) => true,
        (Some(e), Some(g)) => {
            let same = constant_time_eq(e.as_str().as_bytes(), g.as_bytes());
            proof {
                vstd::utf8::encode_utf8_decode_utf8(e@);
                vstd::utf8::encode_utf8_decode_utf8(g@);
            }
            same
        },
        (Some(_), None) => false,
    }
}

/// How many rooms may stream at the same time. Each active room fans out to
/// every agent in it, so this bounds the upstream connections a small
/// homelab box has to sustain.
pub const MAX_CONCURRENT_TURNS: usize = 4;

/// The rooms currently running a turn.
///
/// Two turns in one room would interleave their messages into the same
/// transcript, so a room admits one at a time, and no more than
/// [`MAX_CONCURRENT_TURNS`] rooms run at once.
pub struct RoomClaims {
    busy: Vec<String>,
}

impl View for RoomClaims {
    type V = Seq<Seq<char>>;

    closed spec fn view(&self) -> Seq<Seq<char>> {
        self.busy@.map_values(|s: String| s@)
    }
}

impl RoomClaims {
    #[verifier::type_invariant]
    closed spec fn inv(&self) -> bool {
        &&& self.busy@.len() <= MAX_CONCURRENT_TURNS
        &&& self@.no_duplicates()
    }

    pub fn new() -> (c: Self)
        ensures
            c@.len() == 0,
    {
        let c = RoomClaims { busy: Vec::new() };
        assert(c@ =~= Seq::<Seq<char>>::empty());
        c
    }

    /// Whether `room_id` is running a turn.
    pub fn is_claimed(&self, room_id: &str) -> (b: bool)
        ensures
            b == self@.contains(room_id@),
    {
        let mut i: usize = 0;
        while i < self.busy.len()
            invariant
                i <= self.busy@.len(),
                forall|j: int| 0 <= j < i ==> self.busy@[j]@ != room_id@,
            decreases self.busy@.len() - i,
        {
            if str_eq(self.busy[i].as_str(), room_id) {
                assert(self@[i as int] == room_id@);
                return true;
            }
            i = i + 1;
        }
        assert forall|j: int| 0 <= j < self@.len() implies self@[j] != room_id@ by {
            assert(self@[j] == self.busy@[j]@);
        }
        false
    }

    /// How many rooms are running a turn.
    pub fn held(&self) -> (n: usize)
        ensures
            n == self@.len(),
    {
        self.busy.len()
    }

    /// Claims the right to run a turn in `room_id`: granted when the room is
    /// idle and fewer than [`MAX_CONCURRENT_TURNS`] turns run.
    pub fn claim(&mut self, room_id: &str) -> (granted: bool)
        ensures
            granted == (old(self)@.len() < MAX_CONCURRENT_TURNS && !old(self)@.contains(room_id@)),
            granted ==> final(self)@ == old(self)@.push(room_id@),
            !granted ==> final(self)@ == old(self)@,
            final(self)@.len() <= MAX_CONCURRENT_TURNS,
            final(self)@.no_duplicates(),
    {
        proof {
            use_type_invariant(&*self);
        }
        if self.busy.len() >= MAX_CONCURRENT_TURNS {
            return false;
        }
        if self.is_claimed(room_id) {
            return false;
        }
        assert(self.busy@.len() < MAX_CONCURRENT_TURNS);
        let mut next: Vec<String> = Vec::new();
        let mut i: usize = 0;
        while i < self.busy.len()
            invariant
                i <= self.busy@.len(),
                next@ == self.busy@.take(i as int),
            decreases self.busy@.len() - i,
        {
            next.push(self.busy[i].clone());
            assert(self.busy@.take(i + 1) =~= self.busy@.take(i as int).push(self.busy@[i as int]));
            i = i + 1;
        }
        assert(self.busy@.take(self.busy@.len() as int) =~= self.busy@);
        let ghost before = self@;
        next.push(room_id.to_owned());
        assert(next@.map_values(|s: String| s@) =~= before.push(room_id@));
        self.busy = next;
        proof {
            use_type_invariant(&*self);
        }
        true
    }

    /// Ends the turn in `room_id`, if it is running one.
    pub fn release(&mut self, room_id: &str)
        ensures
            final(self)@ == old(self)@.filter(other_than(room_id@)),
            final(self)@.len() <= MAX_CONCURRENT_TURNS,
            final(self)@.no_duplicates(),
    {
        proof {
            use_type_invariant(&*self);
        }
        let ghost before = self@;
        let mut next: Vec<String> = Vec::new();
        let mut i: usize = 0;
        while i < self.busy.len()
            invariant
                i <= self.busy@.len(),
                before == self.busy@.map_values(|s: String| s@),
                next@.map_values(|s: String| s@) == before.take(i as int).filter(
                    other_than(room_id@),
                ),
                next@.len() <= i,
                self.busy@.len() <= MAX_CONCURRENT_TURNS,
            decreases self.busy@.len() - i,
        {
            reveal(Seq::filter);
            assert(before.take(i + 1).drop_last() =~= before.take(i as int));
            if !str_eq(self.busy[i].as_str(), room_id) {
                let ghost prior = next@;
                next.push(self.busy[i].clone());
                assert(next@.map_values(|s: String| s@) =~= prior.map_values(|s: String| s@).push(
                    before[i as int],
                ));
            }
            i = i + 1;
        }
        assert(before.take(before.len() as int) =~= before);
        proof {
            lemma_filter_keeps_distinct(before, room_id@);
        }
        assert(next@.map_values(|s: String| s@).no_duplicates());
        assert(next@.len() <= MAX_CONCURRENT_TURNS);
        self.busy = next;
        proof {
            use_type_invariant(&*self);
        }
    }
}

/// Dropping a room from distinct claims leaves them distinct, and what is
/// left was claimed before.
proof fn lemma_filter_keeps_distinct(held: Seq<Seq<char>>, room_id: Seq<char>)
    requires
        held.no_duplicates(),
    ensures
        held.filter(other_than(room_id)).no_duplicates(),
        forall|x: Seq<char>| held.filter(other_than(room_id)).contains(x) ==> held.contains(x),
    decreases held.len(),
{
    reveal(Seq::filter);
    if held.len() > 0 {
        let init = held.drop_last();
        assert(init.no_duplicates()) by {
            assert forall|i: int, j: int| 0 <= i < init.len() && 0 <= j < init.len() && i != j implies init[i]
                != init[j] by {
                assert(init[i] == held[i] && init[j] == held[j]);
            }
        }
        lemma_filter_keeps_distinct(init, room_id);
        let f = init.filter(other_than(room_id));
        let last = held.last();
        assert(!init.contains(last)) by {
            if init.contains(last) {
                let k = choose|k: int| 0 <= k < init.len() && init[k] == last;
                assert(held[k] == held[held.len() - 1]);
            }
        }
        assert forall|x: Seq<char>| held.filter(other_than(room_id)).contains(x) implies held.contains(x) by {
            if f.contains(x) {
                assert(init.contains(x));
                let k = choose|k: int| 0 <= k < init.len() && init[k] == x;
                assert(held[k] == init[k]);
            } else {
                assert(x == last);
                assert(held[held.len() - 1] == last);
            }
        }
        if last != room_id {
            let g = f.push(last);
            assert(held.filter(other_than(room_id)) == g);
            assert(!f.contains(last));
            assert forall|i: int, j: int| 0 <= i < g.len() && 0 <= j < g.len() && i != j implies g[i]
                != g[j] by {
                if i == g.len() - 1 && j < f.len() {
                    assert(f.contains(f[j]));
                } else if j == g.len() - 1 && i < f.len() {
                    assert(f.contains(f[i]));
                }
            }
        }
    }
}

/// Releasing a room undoes claiming it: the other claims are as before.
pub proof fn lemma_release_undoes_claim(held: Seq<Seq<char>>, room_id: Seq<char>)
    requires
        !held.contains(room_id),
    ensures
        held.push(room_id).filter(other_than(room_id)) == held,
    decreases held.len(),
{
    reveal(Seq::filter);
    assert(held.push(room_id).drop_last() =~= held);
    lemma_filter_keeps_absent(held, room_id);
}

/// Dropping a room that was never claimed changes nothing.
proof fn lemma_filter_keeps_absent(held: Seq<Seq<char>>, room_id: Seq<char>)
    requires
        !held.contains(room_id),
    ensures
        held.filter(other_than(room_id)) == held,
    decreases held.len(),
{
    reveal(Seq::filter);
    if held.len() > 0 {
        assert(!held.drop_last().contains(room_id)) by {
            if held.drop_last().contains(room_id) {
                let k = choose|k: int| 0 <= k < held.drop_last().len() && held.drop_last()[k] == room_id;
                assert(held[k] == room_id);
            }
        }
        lemma_filter_keeps_absent(held.drop_last(), room_id);
        assert(held.last() != room_id) by {
            assert(held[held.len() - 1] == held.last());
        }
        assert(held.drop_last().push(held.last()) =~= held);
    }
}

/// Keeps every room but `room_id`.
pub open spec fn other_than(room_id: Seq<char>) -> spec_fn(Seq<char>) -> bool {
    |r: Seq<char>| r != room_id
}

/// The HTTP status a core error is answered with.
pub open spec fn status_of(e: ErrorView) -> u16 {
    match e {
        ErrorView::Validation(_) | ErrorView::Config(_) => 400,
        ErrorView::UnknownRoom(_) | ErrorView::UnknownAgent(_) | ErrorView::UnknownProvider(_) => 404,
        ErrorView::MissingCredential(_) => 424,
        ErrorView::Provider { .. } | ErrorView::Network(_) => 502,
        ErrorView::Storage(_) => 500,
    }
}

/// The error shape every failing endpoint returns: a message, and the HTTP
/// status code it is sent with.
#[derive(Debug)]
pub struct ApiError {
    pub error: String,
    pub status: u16,
}

impl ApiError {
    pub fn new(status: u16, message: &str) -> (e: Self)
        ensures
            e.status == status,
            e.error@ == message@,
    {
        ApiError { error: message.to_owned(), status }
    }

    pub fn bad_request(message: &str) -> (e: Self)
        ensures
            e.status == 400,
            e.error@ == message@,
    {
        Self::new(400, message)
    }

    pub fn unauthorized() -> (e: Self)
        ensures
            e.status == 401,
            e.error@ == "a valid access token is required"@,
    {
        Self::new(401, "a valid access token is required")
    }
}

/// Maps a core error onto its status code.
///
/// Provider and storage failures keep their message: it names the provider
/// or the constraint, never the credential, because the core error already
/// leaves those out.
pub fn status_for(error: &HiveError) -> (status: u16)
    ensures
        status == status_of(error@),
{
    match error {
        HiveError::Validation(_) | HiveError::Config(_) => 400,
        HiveError::UnknownRoom(_) | HiveError::UnknownAgent(_) | HiveError::UnknownProvider(_) => 404,
        HiveError::MissingCredential(_) => 424,
        HiveError::Provider { .. } | HiveError::Network(_) => 502,
        HiveError::Storage(_) => 500,
    }
}

impl From<HiveError> for ApiError {
    fn from(error: HiveError) -> (e: Self)
        ensures
            e.status == status_of(error@),
            e.error@ == error_text(error@),
    {
        ApiError { status: status_for(&error), error: error.message() }
    }
}

impl FromSpecImpl<HiveError> for ApiError {
    open spec fn obeys_from_spec() -> bool {
        false
    }

    open spec fn from_spec(v: HiveError) -> ApiError {
        arbitrary()
    }
}

/// The service status the health endpoint reports.
#[derive(Debug)]
pub struct Health {
    pub status: &'static str,
    pub version: &'static str,
}

/// The outcome of a deletion.
#[derive(Debug)]
pub struct Deleted {
    pub deleted: bool,
}

/// The query of a transcript export.
#[derive(Debug)]
pub struct ExportQuery {
    pub limit: Option<u32>,
}

/// How many messages a room hands back by default.
pub const DEFAULT_TRANSCRIPT_LIMIT: u32 = 500;

/// How many messages an export covers: the requested count, or the default,
/// held between 1 and 5000.
pub fn export_limit(limit: Option<u32>) -> (n: u32)
    ensures
        n == ({
            let asked = match limit {
                Some(l) => l,
                None => DEFAULT_TRANSCRIPT_LIMIT,
            };
            if asked < 1 {
                1
            } else if asked > 5000 {
                5000
            } else {
                asked
            }
        }),
{
    let asked = match limit {
        Some(l) => l,
        None => DEFAULT_TRANSCRIPT_LIMIT,
    };
    if asked < 1 {
        1
    } else if asked > 5000 {
        5000
    } else {
        asked
    }
}

/// What a client sends over the room socket.
#[derive(Debug)]
pub enum ClientCommand {
    /// Presents the access token. Required as the first frame when the server
    /// was started with one.
    Auth { token: String },
    Prompt { text: String },
    Stop,
}

/// The one-line description of a policy the web UI shows.
pub open spec fn policy_summary(policy: TurnPolicy) -> Seq<char> {
    match policy {
        TurnPolicy::Parallel => "Every agent answers the same prompt independently, for side-by-side comparison."@,
        TurnPolicy::RoundRobin => "Agents speak in turn and each sees everything said before."@,
        TurnPolicy::Debate => "Agents receive alternating stances and challenge the previous speaker."@,
        TurnPolicy::Moderated => "A moderator agent picks who speaks next, one speaker per round."@,
        TurnPolicy::Consensus => "Agents discuss, then each casts an explicit final vote."@,
    }
}

/// A policy as the web UI lists it.
#[derive(Debug)]
pub struct PolicyView {
    pub id: &'static str,
    pub summary: &'static str,
}

impl PolicyView {
    pub fn of(policy: TurnPolicy) -> (v: Self)
        ensures
            v.id@ == policy_text(policy),
            v.summary@ == policy_summary(policy),
    {
        let summary = match policy {
            TurnPolicy::Parallel => "Every agent answers the same prompt independently, for side-by-side comparison.",
            TurnPolicy::RoundRobin => "Agents speak in turn and each sees everything said before.",
            TurnPolicy::Debate => "Agents receive alternating stances and challenge the previous speaker.",
            TurnPolicy::Moderated => "A moderator agent picks who speaks next, one speaker per round.",
            TurnPolicy::Consensus => "Agents discuss, then each casts an explicit final vote.",
        };
        PolicyView { id: policy.as_str(), summary }
    }
}

/// The name a provider is shown under: its label, or its id when the label
/// is blank.
pub fn display_label(provider: &ProviderConfig) -> (label: String)
    ensures
        label@ == if blank(provider.label@) {
            provider.id@
        } else {
            provider.label@
        },
{
    if is_blank(provider.label.as_str()) {
        provider.id.clone()
    } else {
        provider.label.clone()
    }
}

/// A provider as the web UI sees it: never the key, only whether it resolves.
#[derive(Debug)]
pub struct ProviderView {
    pub id: String,
    pub label: String,
    pub kind: ProviderKind,
    pub base_url: String,
    pub local: bool,
    pub credential_env: Option<String>,
    pub credential_available: bool,
}

impl ProviderView {
    /// Describes a provider. `credential` is what the environment holds under
    /// the variable the entry names, or `None` when it names none or the
    /// variable is unset. A provider that needs no credential, or whose
    /// variable name is malformed, counts as available, as the configuration
    /// check reports the name separately.
    pub fn of(provider: &ProviderConfig, credential: Option<String>) -> (v: Self)
        ensures
            v.id == provider.id,
            v.label@ == (if blank(provider.label@) {
                provider.id@
            } else {
                provider.label@
            }),
            v.kind == provider.kind,
            v.base_url@ == resolved_url(*provider),
            v.local == local_url(resolved_url(*provider)),
            v.credential_env == provider.api_key_env,
            v.credential_available == match provider.api_key_env {
                Some(n) => !valid_var_name(n@) || (credential matches Some(c) && !blank(c@)),
                None => true,
            },
    {
        let credential_available = match provider.secret_ref() {
            Ok(Some(secret)) => secret.is_available(credential),
            _ => true,
        };
        ProviderView {
            id: provider.id.clone(),
            label: display_label(provider),
            kind: provider.kind,
            base_url: provider.resolved_base_url(),
            local: provider.is_local(),
            credential_env: crate::model::clone_opt_string(&provider.api_key_env),
            credential_available,
        }
    }
}

/// An agent as a client submits it. The temperature travels as the bit
/// pattern of an IEEE-754 single.
#[derive(Debug)]
pub struct AgentInput {
    /// Present when updating an existing agent; a new agent gets a fresh id.
    pub id: Option<String>,
    pub name: String,
    pub provider_id: String,
    pub model: String,
    pub persona: String,
    pub temperature_bits: Option<u32>,
    pub max_tokens: Option<u32>,
    pub colour: Option<String>,
    pub reasoning: bool,
    pub enabled: bool,
}

/// A room as a client submits it.
#[derive(Debug)]
pub struct RoomInput {
    pub name: String,
    pub topic: String,
    pub policy: TurnPolicy,
    pub rounds: u32,
    /// Absent on creation means the default window, absent on update keeps
    /// the room's current one.
    pub context_limit: Option<u32>,
    pub moderator_id: Option<String>,
    pub agents: Vec<AgentInput>,
}

/// The number of rounds a room gets when the request names none.
pub fn one() -> (n: u32)
    ensures
        n == 1,
{
    1
}

/// Whether a submitted agent takes part when the request does not say.
pub fn enabled_by_default() -> (b: bool)
    ensures
        b,
{
    true
}

/// Whether `agent` is what `input` describes, with `fresh` as the id of an
/// agent the input gives none.
pub open spec fn agent_from_input(agent: Agent, input: AgentInput) -> bool {
    &&& agent.id@ == match input.id {
        Some(id) => id@,
        None => agent.id@,
    }
    &&& input.id is None ==> agent.id@.len() == 36
    &&& agent.name@ == input.name@
    &&& agent.provider_id@ == input.provider_id@
    &&& agent.model@ == input.model@
    &&& agent.persona@ == input.persona@
    &&& agent.temperature_bits == match input.temperature_bits {
        Some(t) => t,
        None => DEFAULT_TEMPERATURE_BITS,
    }
    &&& agent.max_tokens == match input.max_tokens {
        Some(m) => m,
        None => DEFAULT_MAX_TOKENS,
    }
    &&& agent.colour@ == match input.colour {
        Some(c) => c@,
        None => "#e8e8e8"@,
    }
    &&& agent.reasoning == input.reasoning
    &&& agent.enabled == input.enabled
}

impl AgentInput {
    /// The agent the input describes, with defaults for what it leaves out.
    pub fn into_agent(self) -> (agent: Agent)
        ensures
            agent_from_input(agent, self),
    {
        let ghost input = self;
        let mut agent = Agent::new(self.name.as_str(), self.provider_id.as_str(), self.model.as_str());
        if let Some(id) = self.id {
            agent.id = id;
        }
        agent.persona = self.persona;
        agent.reasoning = self.reasoning;
        agent.enabled = self.enabled;
        if let Some(bits) = self.temperature_bits {
            agent.temperature_bits = bits;
        }
        if let Some(max_tokens) = self.max_tokens {
            agent.max_tokens = max_tokens;
        }
        if let Some(colour) = self.colour {
            agent.colour = colour;
        }
        agent
    }
}

impl RoomInput {
    /// Builds a room, keeping `existing`'s id, creation time and, unless the
    /// input sets one, context window when updating.
    pub fn into_room(self, existing: Option<&Room>) -> (room: Room)
        ensures
            room.name@ == self.name@,
            room.topic@ == self.topic@,
            room.policy == self.policy,
            room.rounds == self.rounds,
            room.moderator_id == self.moderator_id,
            room.agents@.len() == self.agents@.len(),
            forall|i: int|
                0 <= i < self.agents@.len() ==> agent_from_input(
                    #[trigger] room.agents@[i],
                    self.agents@[i],
                ),
            match existing {
                Some(r) => {
                    &&& room.id == r.id
                    &&& room.created_at == r.created_at
                    &&& room.context_limit == match self.context_limit {
                        Some(l) => l,
                        None => r.context_limit,
                    }
                },
                None => {
                    &&& room.id@.len() == 36
                    &&& room.context_limit == match self.context_limit {
                        Some(l) => l,
                        None => crate::model::DEFAULT_CONTEXT_LIMIT,
                    }
                },
            },
    {
        let ghost input = self;
        let mut room = match existing {
            Some(r) => r.clone(),
            None => Room::new(self.name.as_str(), self.policy),
        };
        let mut agents: Vec<Agent> = Vec::new();
        let mut inputs = self.agents;
        let ghost all = inputs@;
        let mut k: usize = 0;
        let n = inputs.len();
        // Takes the inputs from the back, then restores their order.
        let mut reversed: Vec<Agent> = Vec::new();
        while inputs.len() > 0
            invariant
                inputs@ == all.take(inputs@.len() as int),
                reversed@.len() == all.len() - inputs@.len(),
                forall|j: int|
                    0 <= j < reversed@.len() ==> agent_from_input(
                        #[trigger] reversed@[j],
                        all[all.len() - 1 - j],
                    ),
            decreases inputs@.len(),
        {
            let input = inputs.pop().unwrap();
            assert(input == all[inputs@.len() as int]);
            assert(inputs@ =~= all.take(inputs@.len() as int));
            reversed.push(input.into_agent());
        }
        while reversed.len() > 0
            invariant
                n == all.len(),
                agents@.len() + reversed@.len() == all.len(),
                forall|j: int|
                    0 <= j < reversed@.len() ==> agent_from_input(
                        #[trigger] reversed@[j],
                        all[all.len() - 1 - j],
                    ),
                forall|j: int| 0 <= j < agents@.len() ==> agent_from_input(#[trigger] agents@[j], all[j]),
            decreases reversed@.len(),
        {
            let agent = reversed.pop().unwrap();
            agents.push(agent);
        }
        room.name = self.name;
        room.topic = self.topic;
        room.policy = self.policy;
        room.rounds = self.rounds;
        room.moderator_id = self.moderator_id;
        if let Some(limit) = self.context_limit {
            room.context_limit = limit;
        }
        room.agents = agents;
        room
    }
}

/// The failure for an agent whose provider this instance does not have.
pub open spec fn unknown_provider_message(agent: Agent) -> Seq<char> {
    "agent '"@ + agent.name@ + "' references the unknown provider '"@ + agent.provider_id@ + "'"@
}


/// Rejects agents pointing at providers this instance does not have, which
/// would otherwise only fail once the room is already mid-turn. `known` is
/// the ids of the configured providers.
pub fn validate_providers(known: &Vec<String>, room: &Room) -> (r: Result<(), ApiError>)
    ensures
        match r {
            Ok(()) => forall|i: int|
                0 <= i < room.agents@.len() ==> is_known(known@, (#[trigger] room.agents@[i]).provider_id@),
            Err(e) => e.status == 400 && exists|i: int|
                0 <= i < room.agents@.len() && !is_known(known@, (#[trigger] room.agents@[i]).provider_id@)
                    && e.error@ == unknown_provider_message(room.agents@[i]) && forall|j: int|
                    0 <= j < i ==> is_known(known@, (#[trigger] room.agents@[j]).provider_id@),
        },
{
    let mut i: usize = 0;
    while i < room.agents.len()
        invariant
            i <= room.agents@.len(),
            forall|j: int| 0 <= j < i ==> is_known(known@, (#[trigger] room.agents@[j]).provider_id@),
        decreases room.agents@.len() - i,
    {
        let agent = &room.agents[i];
        let mut found = false;
        let mut k: usize = 0;
        while k < known.len()
            invariant
                k <= known@.len(),
                found ==> is_known(known@, agent.provider_id@),
                !found ==> forall|j: int| 0 <= j < k ==> (#[trigger] known@[j])@ != agent.provider_id@,
            decreases known@.len() - k,
        {
            if str_eq(known[k].as_str(), agent.provider_id.as_str()) {
                found = true;
            }
            k = k + 1;
        }
        if !found {
            let mut message = "agent '".to_owned();
            message.append(agent.name.as_str());
            message.append("' references the unknown provider '");
            message.append(agent.provider_id.as_str());
            message.append("'");
            return Err(ApiError::bad_request(message.as_str()));
        }
        i = i + 1;
    }
    Ok(())
}

/// The timestamp a transcript export shows for a message.
pub open spec fn stamp(micros: i64) -> Seq<char> {
    match utc_format(micros, "%Y-%m-%d %H:%M:%S UTC"@) {
        Some(s) => s,
        None => Seq::empty(),
    }
}

/// The Markdown export of a transcript.
pub open spec fn markdown_of(room: Room, messages: Seq<Message>) -> Seq<char> {
    markdown_header(room) + markdown_turns(messages)
}

/// The heading block of an export.
pub open spec fn markdown_header(room: Room) -> Seq<char> {
    "# "@ + room.name@ + "\n\n"@ + (if blank(room.topic@) {
        Seq::empty()
    } else {
        "**Topic:** "@ + room.topic@ + "\n\n"@
    }) + "**Policy:** "@ + policy_text(room.policy) + " · **Rounds:** "@ + decimal(
        room.rounds as nat,
    ) + " · **Agents:** "@ + join(room.agents@.map_values(|a: Agent| a.name@), ", "@)
        + "\n\n---\n\n"@
}

/// The turns of an export, one section each.
pub open spec fn markdown_turns(messages: Seq<Message>) -> Seq<char>
    decreases messages.len(),
{
    if messages.len() == 0 {
        seq![]
    } else {
        let m = messages.last();
        markdown_turns(messages.drop_last()) + "### "@ + m.speaker@ + " · "@ + stamp(m.created_at)
            + "\n\n"@ + m.content@ + "\n\n"@
    }
}

/// The export of two runs of messages one after the other is the export of
/// the first followed by that of the second.
pub proof fn lemma_export_concatenates(a: Seq<Message>, b: Seq<Message>)
    ensures
        markdown_turns(a + b) == markdown_turns(a) + markdown_turns(b),
    decreases b.len(),
{
    if b.len() == 0 {
        assert(a + b =~= a);
        assert(markdown_turns(a) + Seq::<char>::empty() =~= markdown_turns(a));
    } else {
        lemma_export_concatenates(a, b.drop_last());
        assert((a + b).drop_last() =~= a + b.drop_last());
        assert((a + b).last() == b.last());
        let m = b.last();
        let tail = "### "@ + m.speaker@ + " · "@ + stamp(m.created_at) + "\n\n"@ + m.content@
            + "\n\n"@;
        assert(markdown_turns(a + b) =~= markdown_turns(a + b.drop_last()) + tail);
        assert(markdown_turns(b) =~= markdown_turns(b.drop_last()) + tail);
    }
}

/// Every message of the transcript, whatever its role or author, gets its
/// own section in transcript order: a `### speaker · time` heading followed
/// by its content, between the sections of the messages before and after it.
pub proof fn lemma_export_has_a_section_per_message(messages: Seq<Message>, i: int)
    requires
        0 <= i < messages.len(),
    ensures
        markdown_turns(messages) == markdown_turns(messages.take(i)) + ("### "@
            + messages[i].speaker@ + " · "@ + stamp(messages[i].created_at) + "\n\n"@
            + messages[i].content@ + "\n\n"@) + markdown_turns(messages.skip(i + 1)),
{
    let m = messages[i];
    let one = seq![m];
    assert(messages =~= messages.take(i) + one + messages.skip(i + 1));
    lemma_export_concatenates(messages.take(i) + one, messages.skip(i + 1));
    lemma_export_concatenates(messages.take(i), one);
    assert(one.drop_last() =~= Seq::<Message>::empty());
    assert(one.last() == m);
    assert(markdown_turns(Seq::<Message>::empty()) == Seq::<char>::empty());
    assert(markdown_turns(one) == markdown_turns(one.drop_last()) + "### "@ + m.speaker@ + " · "@
        + stamp(m.created_at) + "\n\n"@ + m.content@ + "\n\n"@);
    assert(markdown_turns(one) =~= "### "@ + m.speaker@ + " · "@ + stamp(m.created_at) + "\n\n"@
        + m.content@ + "\n\n"@);
}

/// Renders the transcript as Markdown for archiving outside the app.
pub fn render_markdown(room: &Room, messages: &[Message]) -> (out: String)
    ensures
        out@ == markdown_of(*room, messages@),
{
    let mut out = "# ".to_owned();
    out.append(room.name.as_str());
    out.append("\n\n");
    if !is_blank(room.topic.as_str()) {
        out.append("**Topic:** ");
        out.append(room.topic.as_str());
        out.append("\n\n");
    } else {
        assert(out@ + Seq::<char>::empty() =~= out@);
    }
    out.append("**Policy:** ");
    out.append(room.policy.as_str());
    out.append(" · **Rounds:** ");
    out.append(decimal_string(room.rounds as u64).as_str());
    out.append(" · **Agents:** ");
    let names = agent_names(&room.agents);
    out.append(join_strings(&names, ", ").as_str());
    out.append("\n\n---\n\n");
    let ghost header = out@;
    let mut i: usize = 0;
    while i < messages.len()
        invariant
            i <= messages@.len(),
            out@ == header + markdown_turns(messages@.take(i as int)),
        decreases messages@.len() - i,
    {
        assert(messages@.take(i + 1).drop_last() =~= messages@.take(i as int));
        let m = &messages[i];
        out.append("### ");
        out.append(m.speaker.as_str());
        out.append(" · ");
        match format_utc(m.created_at, "%Y-%m-%d %H:%M:%S UTC") {
            Some(s) => out.append(s.as_str()),
            None => {},
        }
        out.append("\n\n");
        out.append(m.content.as_str());
        out.append("\n\n");
        i = i + 1;
    }
    assert(messages@.take(messages@.len() as int) =~= messages@);
    out
}

/// The names of the agents, in room order.
fn agent_names(agents: &Vec<Agent>) -> (names: Vec<String>)
    ensures
        names@.map_values(|n: String| n@) == agents@.map_values(|a: Agent| a.name@),
{
    let mut names: Vec<String> = Vec::new();
    let mut i: usize = 0;
    while i < agents.len()
        invariant
            i <= agents@.len(),
            names@.map_values(|n: String| n@) == agents@.take(i as int).map_values(
                |a: Agent| a.name@,
            ),
        decreases agents@.len() - i,
    {
        let ghost before = names@;
        names.push(agents[i].name.clone());
        assert(names@.map_values(|n: String| n@) =~= before.map_values(|n: String| n@).push(
            agents@[i as int].name@,
        ));
        assert(agents@.take(i + 1).map_values(|a: Agent| a.name@) =~= agents@.take(
            i as int,
        ).map_values(|a: Agent| a.name@).push(agents@[i as int].name@));
        i = i + 1;
    }
    assert(agents@.take(agents@.len() as int) =~= agents@);
    names
}

} // verus!
