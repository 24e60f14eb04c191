//! Turns a room transcript into the per-agent view of the conversation.
//!
//! Every agent sees the same events but from its own perspective: its own
//! turns are assistant turns, everyone else's are user turns prefixed with the
//! speaker name. Without that prefix a model cannot tell two peers apart, since
//! the chat dialects have no concept of a named third participant.

use vstd::prelude::*;

use crate::model::{enabled_of, str_eq, Agent, Message, Role, Room, TurnPolicy};
use crate::provider::{turn_views, ChatTurn};
use crate::text::{blank, is_blank, join, join_strings, trim, trimmed};

verus! {

/// House rules every agent receives, regardless of policy.
pub const ROOM_RULES: &'static str = "Rules of this room:
- Other participants are labelled `Name:` in the conversation. Address them by name.
- Speak only for yourself. Never write a turn on behalf of another participant.
- Do not prefix your own reply with your name; the room adds it.
- Be substantive and concise. Add something the previous speakers did not.";

/// The names of the enabled agents other than the one with id `id`.
pub open spec fn peer_names(active: Seq<Agent>, id: Seq<char>) -> Seq<Seq<char>>
    decreases active.len(),
{
    if active.len() == 0 {
        seq![]
    } else if active.last().id@ == id {
        peer_names(active.drop_last(), id)
    } else {
        peer_names(active.drop_last(), id).push(active.last().name@)
    }
}

/// How the system prompt lists the other participants.
pub open spec fn peer_text(agents: Seq<Agent>, id: Seq<char>) -> Seq<char> {
    let names = peer_names(enabled_of(agents), id);
    if names.len() == 0 {
        "none, you are answering alone"@
    } else {
        join(names, ", "@)
    }
}

/// Whether an agent of the room is another participant for the agent with
/// id `id`: enabled, and not that agent.
pub open spec fn is_peer(a: Agent, id: Seq<char>) -> bool {
    a.enabled && a.id@ != id
}

/// The other participants are the room's enabled agents besides the one
/// addressed, named in room order: every name listed is that of an enabled
/// agent other than the addressed one, and a disabled agent is never listed.
pub proof fn lemma_peers_are_the_enabled_others(agents: Seq<Agent>, id: Seq<char>)
    ensures
        peer_text(agents, id) == ({
            let others = agents.filter(|a: Agent| is_peer(a, id)).map_values(|a: Agent| a.name@);
            if others.len() == 0 {
                "none, you are answering alone"@
            } else {
                join(others, ", "@)
            }
        }),
{
    lemma_peer_names_filter(agents, id);
}

proof fn lemma_peer_names_filter(agents: Seq<Agent>, id: Seq<char>)
    ensures
        peer_names(enabled_of(agents), id) == agents.filter(|a: Agent| is_peer(a, id)).map_values(
            |a: Agent| a.name@,
        ),
    decreases agents.len(),
{
    reveal(Seq::filter);
    if agents.len() > 0 {
        let rest = agents.drop_last();
        let last = agents.last();
        lemma_peer_names_filter(rest, id);
        let f = agents.filter(|a: Agent| is_peer(a, id));
        let g = rest.filter(|a: Agent| is_peer(a, id));
        if last.enabled {
            assert(enabled_of(agents) == enabled_of(rest).push(last));
            assert(enabled_of(agents).drop_last() =~= enabled_of(rest));
            if last.id@ == id {
                assert(f == g);
            } else {
                assert(f == g.push(last));
                assert(f.map_values(|a: Agent| a.name@) =~= g.map_values(|a: Agent| a.name@).push(
                    last.name@,
                ));
            }
        } else {
            assert(f == g);
        }
    }
}

/// A block of the system prompt that is present only for non-blank text.
pub open spec fn optional_block(label: Seq<char>, text: Seq<char>) -> Seq<char> {
    if blank(text) {
        Seq::empty()
    } else {
        label + trim(text) + "\n"@
    }
}

/// The system prompt for one agent's turn.
pub open spec fn system_prompt_text(room: Room, agent: Agent, stance: Option<Seq<char>>) -> Seq<
    char,
> {
    "You are "@ + agent.name@ + ", a participant in the group chat \""@ + room.name@ + "\".\n"@
        + optional_block("\nYour role: "@, agent.persona@) + optional_block(
        "\nTopic of the room: "@,
        room.topic@,
    ) + "\nOther participants: "@ + peer_text(room.agents@, agent.id@) + "\n"@ + match stance {
        Some(s) => "\nYour assigned stance: "@ + s + "\n"@,
        None => Seq::empty(),
    } + "\n"@ + ROOM_RULES@ + "\n"@
}

/// Builds the system prompt for one agent's turn.
pub fn system_prompt(room: &Room, agent: &Agent, stance: Option<&str>) -> (prompt: String)
    ensures
        prompt@ == system_prompt_text(
            *room,
            *agent,
            match stance {
                Some(s) => Some(s@),
                None => None,
            },
        ),
{
    let mut prompt = "You are ".to_owned();
    prompt.append(agent.name.as_str());
    prompt.append(", a participant in the group chat \"");
    prompt.append(room.name.as_str());
    prompt.append("\".\n");
    let role = block("\nYour role: ", agent.persona.as_str());
    prompt.append(role.as_str());
    let topic = block("\nTopic of the room: ", room.topic.as_str());
    prompt.append(topic.as_str());
    prompt.append("\nOther participants: ");
    prompt.append(peer_list(room, agent).as_str());
    prompt.append("\n");
    let mut assigned = String::new();
    if let Some(s) = stance {
        assigned.append("\nYour assigned stance: ");
        assigned.append(s);
        assigned.append("\n");
    }
    prompt.append(assigned.as_str());
    prompt.append("\n");
    prompt.append(ROOM_RULES);
    prompt.append("\n");
    prompt
}

/// A labelled block holding trimmed text, or nothing for blank text.
fn block(label: &str, text: &str) -> (b: String)
    ensures
        b@ == optional_block(label@, text@),
{
    let mut b = String::new();
    if !is_blank(text) {
        b.append(label);
        b.append(trimmed(text).as_str());
        b.append("\n");
        assert(b@ =~= label@ + trim(text@) + "\n"@);
    }
    b
}

/// The other enabled participants, joined by commas.
pub fn peer_list(room: &Room, agent: &Agent) -> (list: String)
    ensures
        list@ == peer_text(room.agents@, agent.id@),
        list@ == ({
            let others = room.agents@.filter(|a: Agent| is_peer(a, agent.id@)).map_values(
                |a: Agent| a.name@,
            );
            if others.len() == 0 {
                "none, you are answering alone"@
            } else {
                join(others, ", "@)
            }
        }),
{
    proof {
        lemma_peers_are_the_enabled_others(room.agents@, agent.id@);
    }
    let active = room.active_agents();
    let ghost id = agent.id@;
    let mut names: Vec<String> = Vec::new();
    let mut i: usize = 0;
    while i < active.len()
        invariant
            i <= active@.len(),
            id == agent.id@,
            names@.map_values(|p: String| p@) == peer_names(active@.take(i as int), id),
        decreases active@.len() - i,
    {
        assert(active@.take(i + 1).drop_last() =~= active@.take(i as int));
        if !str_eq(active[i].id.as_str(), agent.id.as_str()) {
            names.push(active[i].name.clone());
            assert(names@.map_values(|p: String| p@) =~= peer_names(active@.take(i as int), id).push(
                active@[i as int].name@,
            ));
        }
        i = i + 1;
    }
    assert(active@.take(active@.len() as int) =~= active@);
    if names.len() == 0 {
        return "none, you are answering alone".to_owned();
    }
    join_strings(&names, ", ")
}

/// Whether an agent sees a message of the transcript under a policy.
pub open spec fn sees(policy: TurnPolicy, agent_id: Seq<char>, m: Message) -> bool {
    ||| policy != TurnPolicy::Parallel
    ||| m.agent_id is None
    ||| (m.agent_id matches Some(id) && id@ == agent_id)
}

/// One message from the point of view of the agent with id `agent_id`.
pub open spec fn projected(m: Message, agent_id: Seq<char>) -> (Role, Seq<char>) {
    let own = m.agent_id matches Some(id) && id@ == agent_id;
    if m.role == Role::Assistant && own {
        (Role::Assistant, m.content@)
    } else if m.role == Role::Assistant {
        (Role::User, m.speaker@ + ": "@ + m.content@)
    } else {
        (Role::User, m.content@)
    }
}

/// The visible messages of a transcript, each projected.
pub open spec fn projection(history: Seq<Message>, policy: TurnPolicy, agent_id: Seq<char>) -> Seq<
    (Role, Seq<char>),
>
    decreases history.len(),
{
    if history.len() == 0 {
        seq![]
    } else if sees(policy, agent_id, history.last()) {
        projection(history.drop_last(), policy, agent_id).push(projected(history.last(), agent_id))
    } else {
        projection(history.drop_last(), policy, agent_id)
    }
}

/// Neighbouring turns of the same role merged into one, joined by a blank line.
pub open spec fn merged(turns: Seq<(Role, Seq<char>)>) -> Seq<(Role, Seq<char>)>
    decreases turns.len(),
{
    if turns.len() == 0 {
        seq![]
    } else {
        let m = merged(turns.drop_last());
        let t = turns.last();
        if m.len() > 0 && m.last().0 == t.0 {
            m.drop_last().push((t.0, m.last().1 + "\n\n"@ + t.1))
        } else {
            m.push(t)
        }
    }
}

/// The merged turns, opened by a user turn when they would not be.
pub open spec fn collapsed(turns: Seq<(Role, Seq<char>)>) -> Seq<(Role, Seq<char>)> {
    let m = merged(turns);
    if m.len() > 0 && m[0].0 != Role::User {
        seq![(Role::User, "(the conversation so far)"@)] + m
    } else {
        m
    }
}

/// Where the context window of a transcript of `len` messages starts: the
/// most recent `limit` messages, or all of them when `limit` is zero.
pub open spec fn window_start(len: int, limit: u32) -> int {
    if limit == 0 || limit >= len {
        0
    } else {
        len - limit
    }
}

/// The context window keeps the newest messages and drops only the oldest:
/// it is a suffix of the transcript, as long as the limit allows, and the
/// whole transcript when the limit is zero.
pub proof fn lemma_window_keeps_newest(history: Seq<Message>, limit: u32)
    ensures
        ({
            let w = history.skip(window_start(history.len() as int, limit));
            &&& w.len() == if limit == 0 || limit >= history.len() {
                history.len() as int
            } else {
                limit as int
            }
            &&& forall|i: int|
                0 <= i < w.len() ==> #[trigger] w[i] == history[history.len() - w.len() + i]
        }),
{
}

/// What the agent is shown of the transcript.
pub open spec fn turns_view(room: Room, agent: Agent, history: Seq<Message>) -> Seq<
    (Role, Seq<char>),
> {
    collapsed(
        projection(
            history.skip(window_start(history.len() as int, room.context_limit)),
            room.policy,
            agent.id@,
        ),
    )
}

/// The first message of the context window.
///
/// The transcript keeps everything; only what reaches the model is trimmed,
/// and always from the oldest end.
pub fn context_start(len: usize, limit: u32) -> (start: usize)
    ensures
        start == window_start(len as int, limit),
{
    if limit == 0 || limit as usize >= len {
        0
    } else {
        len - limit as usize
    }
}

/// Projects the transcript into turns for one agent.
///
/// Under the parallel policy the other agents' contributions are withheld, so
/// every model answers the same input and the outputs stay comparable.
pub fn turns_for(room: &Room, agent: &Agent, history: &[Message]) -> (turns: Vec<ChatTurn>)
    ensures
        turn_views(turns@) == turns_view(*room, *agent, history@),
{
    let start = context_start(history.len(), room.context_limit);
    let ghost window = history@.skip(start as int);
    let see_all = room.policy.agents_see_each_other();
    let mut raw: Vec<ChatTurn> = Vec::new();
    let mut i = start;
    while i < history.len()
        invariant
            start <= i <= history@.len(),
            window == history@.skip(start as int),
            see_all == (room.policy != TurnPolicy::Parallel),
            turn_views(raw@) == projection(
                history@.subrange(start as int, i as int),
                room.policy,
                agent.id@,
            ),
        decreases history@.len() - i,
    {
        let message = &history[i];
        assert(history@.subrange(start as int, i + 1).drop_last() =~= history@.subrange(
            start as int,
            i as int,
        ));
        assert(history@.subrange(start as int, i + 1).last() == history@[i as int]);
        let own = match &message.agent_id {
            Some(id) => str_eq(id.as_str(), agent.id.as_str()),
            None => false,
        };
        if see_all || message.agent_id.is_none() || own {
            let turn = project(message, agent);
            raw.push(turn);
            assert(turn_views(raw@) =~= projection(
                history@.subrange(start as int, i as int),
                room.policy,
                agent.id@,
            ).push(projected(history@[i as int], agent.id@)));
        }
        i = i + 1;
    }
    assert(history@.subrange(start as int, history@.len() as int) =~= window);
    collapse(raw)
}

/// One message as the given agent sees it.
fn project(message: &Message, agent: &Agent) -> (turn: ChatTurn)
    ensures
        turn@ == projected(*message, agent.id@),
{
    let own = match &message.agent_id {
        Some(id) => str_eq(id.as_str(), agent.id.as_str()),
        None => false,
    };
    match message.role {
        Role::Assistant => {
            if own {
                ChatTurn::assistant(message.content.as_str())
            } else {
                let mut labelled = message.speaker.clone();
                labelled.append(": ");
                labelled.append(message.content.as_str());
                ChatTurn { role: Role::User, content: labelled }
            }
        },
        _ => ChatTurn::user(message.content.as_str()),
    }
}

/// Merges neighbouring turns of the same role and guarantees the conversation
/// opens with a user turn, which the Messages API requires.
pub fn collapse(turns: Vec<ChatTurn>) -> (out: Vec<ChatTurn>)
    ensures
        turn_views(out@) == collapsed(turn_views(turns@)),
{
    let ghost views = turn_views(turns@);
    let mut out: Vec<ChatTurn> = Vec::new();
    let mut i: usize = 0;
    while i < turns.len()
        invariant
            i <= turns@.len(),
            views == turn_views(turns@),
            turn_views(out@) == merged(views.take(i as int)),
        decreases turns@.len() - i,
    {
        let turn = turns[i].clone();
        assert(views.take(i + 1).drop_last() =~= views.take(i as int));
        assert(views.take(i + 1).last() == turn@);
        let n = out.len();
        if n > 0 && out[n - 1].role == turn.role {
            let ghost before = out@;
            let last = out.pop().unwrap();
            assert(out@ == before.drop_last());
            let mut content = last.content;
            content.append("\n\n");
            content.append(turn.content.as_str());
            out.push(ChatTurn { role: last.role, content });
            assert(turn_views(out@) =~= turn_views(before).drop_last().push(
                (turn.role, turn_views(before).last().1 + "\n\n"@ + turn.content@),
            ));
        } else {
            out.push(turn);
            assert(turn_views(out@) =~= merged(views.take(i as int)).push(views[i as int]));
        }
        i = i + 1;
    }
    assert(views.take(turns@.len() as int) =~= views);
    if out.len() > 0 && out[0].role != Role::User {
        let ghost before = out@;
        out.insert(0, ChatTurn::user("(the conversation so far)"));
        assert(turn_views(out@) =~= seq![(Role::User, "(the conversation so far)"@)] + turn_views(
            before,
        ));
    }
    out
}

/// Merged turns never repeat a role twice in a row.
proof fn lemma_merged_alternates(turns: Seq<(Role, Seq<char>)>)
    ensures
        forall|i: int| 0 <= i < merged(turns).len() - 1 ==> #[trigger] merged(turns)[i].0 != merged(
            turns,
        )[i + 1].0,
        merged(turns).len() <= turns.len(),
        turns.len() > 0 ==> merged(turns).len() > 0,
    decreases turns.len(),
{
    if turns.len() > 0 {
        lemma_merged_alternates(turns.drop_last());
        let m = merged(turns.drop_last());
        assert forall|i: int| 0 <= i < merged(turns).len() - 1 implies #[trigger] merged(turns)[i].0
            != merged(turns)[i + 1].0 by {
            assert(m[i].0 != m[i + 1].0 || i + 1 >= m.len());
        }
    }
}

/// The turns an agent receives alternate between user and model, and a
/// non-empty conversation always opens with a user turn.
pub proof fn lemma_collapsed_alternates(turns: Seq<(Role, Seq<char>)>)
    ensures
        forall|i: int|
            0 <= i < collapsed(turns).len() - 1 ==> #[trigger] collapsed(turns)[i].0 != collapsed(
                turns,
            )[i + 1].0,
        turns.len() > 0 ==> collapsed(turns).len() > 0 && collapsed(turns)[0].0 == Role::User,
{
    lemma_merged_alternates(turns);
    let m = merged(turns);
    if m.len() > 0 && m[0].0 != Role::User {
        let c = collapsed(turns);
        assert forall|i: int| 0 <= i < c.len() - 1 implies #[trigger] c[i].0 != c[i + 1].0 by {
            if i > 0 {
                assert(c[i] == m[i - 1]);
                assert(c[i + 1] == m[i]);
            }
        }
    }
}

/// The transcript with the other agents' contributions removed.
pub open spec fn without_peers(history: Seq<Message>, agent_id: Seq<char>) -> Seq<Message> {
    history.filter(|m: Message| m.agent_id is None || (m.agent_id matches Some(id) && id@ == agent_id))
}

/// Under the parallel policy an agent is shown exactly what it would see of
/// the transcript if no other agent had spoken.
pub proof fn lemma_parallel_withholds_peers(history: Seq<Message>, agent_id: Seq<char>)
    ensures
        projection(history, TurnPolicy::Parallel, agent_id) == projection(
            without_peers(history, agent_id),
            TurnPolicy::RoundRobin,
            agent_id,
        ),
    decreases history.len(),
{
    reveal(Seq::filter);
    if history.len() > 0 {
        lemma_parallel_withholds_peers(history.drop_last(), agent_id);
        let f = without_peers(history, agent_id);
        let g = without_peers(history.drop_last(), agent_id);
        if sees(TurnPolicy::Parallel, agent_id, history.last()) {
            assert(f == g.push(history.last()));
            assert(f.drop_last() =~= g);
        } else {
            assert(f == g);
        }
    }
}

/// Under the parallel policy, the peers' messages of a transcript make no
/// difference to what an agent sees of it.
proof fn lemma_parallel_projection_ignores_peers(history: Seq<Message>, agent_id: Seq<char>)
    ensures
        projection(history, TurnPolicy::Parallel, agent_id) == projection(
            without_peers(history, agent_id),
            TurnPolicy::Parallel,
            agent_id,
        ),
    decreases history.len(),
{
    reveal(Seq::filter);
    if history.len() > 0 {
        lemma_parallel_projection_ignores_peers(history.drop_last(), agent_id);
        let f = without_peers(history, agent_id);
        let g = without_peers(history.drop_last(), agent_id);
        if sees(TurnPolicy::Parallel, agent_id, history.last()) {
            assert(f == g.push(history.last()));
            assert(f.drop_last() =~= g);
        } else {
            assert(f == g);
        }
    }
}

/// Under the parallel policy no other agent's contribution, nor its name
/// label, reaches an agent: the turns it receives are those it would receive
/// if the other agents had not spoken. This holds while the context window
/// takes the whole transcript; a window that cuts it counts the peers'
/// messages among the newest, and then keeps fewer of the agent's own.
pub proof fn lemma_parallel_turns_withhold_peers(room: Room, agent: Agent, history: Seq<Message>)
    requires
        room.policy == TurnPolicy::Parallel,
        room.context_limit == 0 || history.len() <= room.context_limit,
    ensures
        turns_view(room, agent, history) == turns_view(
            room,
            agent,
            without_peers(history, agent.id@),
        ),
{
    let f = without_peers(history, agent.id@);
    history.lemma_filter_len(
        |m: Message| m.agent_id is None || (m.agent_id matches Some(id) && id@ == agent.id@),
    );
    assert(f.len() <= history.len());
    assert(history.skip(0) =~= history);
    assert(f.skip(0) =~= f);
    lemma_parallel_projection_ignores_peers(history, agent.id@);
}

/// Instruction appended when an agent is asked to cast its final vote.
pub open spec fn vote_instruction_text(options: Seq<char>) -> Seq<char> {
    "The discussion is over. State your final position in exactly two lines:\nLine 1: `VOTE: <your choice>`, where the choice is one of: "@
        + options + "\nLine 2: `WHY: <one sentence>`"@
}

/// Instruction appended when an agent is asked to cast its final vote.
pub fn vote_instruction(options: &str) -> (s: String)
    ensures
        s@ == vote_instruction_text(options@),
{
    let mut s = "The discussion is over. State your final position in exactly two lines:\nLine 1: `VOTE: <your choice>`, where the choice is one of: ".to_owned();
    s.append(options);
    s.append("\nLine 2: `WHY: <one sentence>`");
    s
}

/// Instruction for the moderator's speaker selection.
pub open spec fn moderator_instruction_text(candidates: Seq<Seq<char>>) -> Seq<char> {
    "You are moderating. Decide who should speak next and answer with that name and nothing else. Choose one of: "@
        + join(candidates, ", "@)
}

/// Instruction for the moderator's speaker selection.
pub fn moderator_instruction(candidates: &Vec<String>) -> (s: String)
    ensures
        s@ == moderator_instruction_text(candidates@.map_values(|c: String| c@)),
{
    let mut s = "You are moderating. Decide who should speak next and answer with that name and nothing else. Choose one of: ".to_owned();
    s.append(join_strings(candidates, ", ").as_str());
    s
}

} // verus!
