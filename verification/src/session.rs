//! Runs a room's conversation according to its turn policy.
//!
//! A [`Session`] takes a room and a transcript and decides, step by step, what
//! happens next: an event to report, a turn to stream, a question whose answer
//! it needs, or the end. The caller performs each step (the model calls, the
//! event delivery) and hands the outcome back. Persistence and transport live
//! elsewhere.

use std::collections::VecDeque;

use vstd::prelude::*;

use crate::error::{error_text, ErrorView, HiveError};
use crate::model::{
    enabled_of, lemma_enabled_of_members, prompt_problem, room_problem, str_eq, validate_prompt,
    Agent, Message, Role, Room, TurnPolicy,
};
use crate::platform::lowercase;
use crate::policy::{
    discussion_rounds, lemma_order_is_permutation, order_for, rounds_of, speaking_order, stance_for,
    stance_of,
};
use crate::prompt::{
    moderator_instruction, moderator_instruction_text, vote_instruction, vote_instruction_text,
};
use crate::text::{blank, is_blank, trim};
use crate::turn::{
    capped, capped_usage, prepared, spoken_by, usage_sum, Question, SessionEvent, Speech, Spoken,
};
use crate::vote::{choose_speaker, lowered_names, parse_vote, picked, vote_of};

verus! {

/// Where the conversation stands.
pub enum Phase {
    /// The round is about to be announced.
    RoundStart(u32),
    /// A round in which the agents speak one after another; `position` is
    /// the place in `order` of the next speaker.
    Sequential { round: u32, order: Vec<Agent>, position: usize },
    /// The turn at `position` of `order` is being streamed.
    AwaitSpeech { round: u32, order: Vec<Agent>, position: usize },
    /// A round in which every agent answers the same input.
    Parallel { round: u32, order: Vec<Agent> },
    /// The turns of `order` are being streamed side by side.
    AwaitBatch { round: u32, order: Vec<Agent> },
    /// A moderated round is about to ask its moderator.
    Moderate(u32),
    /// The moderator is choosing among `candidates`.
    AwaitModerator { round: u32, candidates: Vec<Agent> },
    /// The moderator chose who speaks this round.
    SpeakChosen { round: u32, chosen: Agent },
    /// The chosen agent's turn is being streamed.
    AwaitChosen { round: u32, chosen: Agent },
    /// The round is over and about to be closed.
    RoundEnd(u32),
    /// The closing vote, about to ask the enabled agent at this position.
    Votes(usize),
    /// The vote of the enabled agent at this position is awaited.
    AwaitVote(usize),
    /// The run is about to report its totals.
    Closing,
    /// The totals are reported; the result comes next.
    Done,
    /// The run has ended.
    Over,
}

/// What the caller is asked to do next.
pub enum Step {
    /// Deliver this event.
    Emit(SessionEvent),
    /// Stream this turn, then report the outcome with [`Session::spoke`].
    Speak(Speech),
    /// Stream these turns side by side, then report their outcomes, in the
    /// same order, with [`Session::spoke_all`].
    SpeakAll(Vec<Speech>),
    /// Ask this question, then report the answer with [`Session::answered`].
    Ask(Question),
    /// An outcome is still outstanding.
    Waiting,
    /// The run is over: the messages it produced, or why it stopped.
    Finished(Result<Vec<Message>, HiveError>),
}

/// Two rooms that agree in every field.
pub open spec fn same_room(a: Room, b: Room) -> bool {
    &&& a.id == b.id
    &&& a.name == b.name
    &&& a.topic == b.topic
    &&& a.policy == b.policy
    &&& a.rounds == b.rounds
    &&& a.context_limit == b.context_limit
    &&& a.moderator_id == b.moderator_id
    &&& a.agents@ == b.agents@
    &&& a.created_at == b.created_at
}

/// The events that wait in the queue: the opening announcement, and the
/// outcomes of votes.
pub open spec fn queued_event(e: SessionEvent, opening: Message) -> bool {
    match e {
        SessionEvent::UserMessage { message } => message == opening,
        SessionEvent::VoteCast { .. } => true,
        SessionEvent::AgentFailed { .. } => true,
        _ => false,
    }
}

/// What the closing vote asks every agent for.
pub open spec fn vote_options() -> Seq<char> {
    "the positions discussed above"@
}

/// The agents among `agents` whose id is not `id`, in order.
pub open spec fn others(agents: Seq<Agent>, id: Seq<char>) -> Seq<Agent>
    decreases agents.len(),
{
    if agents.len() == 0 {
        seq![]
    } else if agents.last().id@ == id {
        others(agents.drop_last(), id)
    } else {
        others(agents.drop_last(), id).push(agents.last())
    }
}

/// Whom the moderator of a moderated room chooses from: the enabled agents
/// other than the moderator, in room order.
pub open spec fn moderator_candidates(room: Room) -> Seq<Agent> {
    match room.moderator_id {
        Some(id) => others(enabled_of(room.agents@), id@),
        None => seq![],
    }
}

/// How a round opens under the room's policy: side by side for a parallel
/// room, with the moderator's choice for a moderated one, and otherwise one
/// agent after another in the round's speaking order.
pub open spec fn opens_round(room: Room, round: u32, next: Phase) -> bool {
    let order = order_for(room.agents@, (round - 1) as u32);
    match room.policy {
        TurnPolicy::Parallel => next matches Phase::Parallel { round: r, order: o } && r == round
            && o@ == order,
        TurnPolicy::Moderated => next == Phase::Moderate(round),
        _ => next matches Phase::Sequential { round: r, order: o, position } && r == round && o@
            == order && position == 0,
    }
}

/// What follows the end of a round: the next round while rounds remain,
/// then the closing vote of a consensus room, or else the close.
pub open spec fn follows_round(room: Room, round: u32, next: Phase) -> bool {
    if round < rounds_of(room) {
        next == Phase::RoundStart((round + 1) as u32)
    } else if room.policy == TurnPolicy::Consensus {
        next == Phase::Votes(0)
    } else {
        next == Phase::Closing
    }
}

/// A turn not yet streamed: `agent` speaks in `room`, seeing `transcript`,
/// with the stance given, in `round`.
pub open spec fn fresh_speech(
    s: Speech,
    room: Room,
    agent: Agent,
    transcript: Seq<Message>,
    stance: Option<Seq<char>>,
    round: u32,
) -> bool {
    &&& s.speaker() == agent
    &&& s.assigned_stance() == stance
    &&& s.turn_round() == round
    &&& s.room_id() == room.id@
    &&& s.received().len() == 0
    &&& s.shown().len() == 0
    &&& prepared(s.prepared_request(), room, agent, transcript, stance, None)
}

/// A question not yet answered: `agent` is asked in `room`, seeing
/// `transcript`, with `instruction` closing the request.
pub open spec fn fresh_question(
    q: Question,
    room: Room,
    agent: Agent,
    transcript: Seq<Message>,
    instruction: Seq<char>,
) -> bool {
    &&& q.asked() == agent
    &&& q.instruction() == instruction
    &&& q.received().len() == 0
    &&& prepared(q.prepared_request(), room, agent, transcript, None, Some(instruction))
}

/// The report that closes a run: how many messages it produced and their
/// summed usage.
pub open spec fn completion(step: Step, produced: Seq<Message>) -> bool {
    step matches Step::Emit(SessionEvent::SessionCompleted { messages, usage }) && messages
        == produced.len() && usage.input_tokens == capped(usage_sum(produced).0)
        && usage.output_tokens == capped(usage_sum(produced).1)
}

/// What one step does once no event waits in the queue, phase by phase.
pub open spec fn advances(before: Session, after: Session, step: Step) -> bool {
    let room = before.room();
    let active = enabled_of(room.agents@);
    let unchanged = after.produced() == before.produced() && after.pending_votes()
        == before.pending_votes();
    &&& after.queued().len() == 0
    &&& match before.phase() {
        Phase::RoundStart(round) => {
            &&& step matches Step::Emit(SessionEvent::TurnStarted { round: r, rounds, policy, speakers })
                && r == round && rounds == rounds_of(room) && policy == room.policy
                && speakers@.map_values(|n: String| n@) == order_for(
                room.agents@,
                (round - 1) as u32,
            ).map_values(|a: Agent| a.name@)
            &&& opens_round(room, round, after.phase())
            &&& unchanged
        },
        Phase::Sequential { round, order, position } => {
            &&& unchanged
            &&& if position < order@.len() {
                &&& step matches Step::Speak(s) && fresh_speech(
                    s,
                    room,
                    order@[position as int],
                    before.transcript(),
                    stance_of(room.policy, position as int),
                    round,
                )
                &&& after.phase() matches Phase::AwaitSpeech { round: r, order: o, position: p }
                    && r == round && o@ == order@ && p == position
            } else {
                &&& step matches Step::Emit(SessionEvent::TurnCompleted { round: r }) && r == round
                &&& follows_round(room, round, after.phase())
            }
        },
        Phase::Parallel { round, order } => {
            &&& step matches Step::SpeakAll(v) && v@.len() == order@.len() && forall|i: int|
                0 <= i < v@.len() ==> fresh_speech(
                    #[trigger] v@[i],
                    room,
                    order@[i],
                    before.transcript(),
                    None,
                    round,
                )
            &&& after.phase() matches Phase::AwaitBatch { round: r, order: o } && r == round && o@
                == order@
            &&& unchanged
        },
        Phase::Moderate(round) => {
            &&& unchanged
            &&& if moderator_candidates(room).len() > 0 {
                &&& step matches Step::Ask(q) && room.moderator_id matches Some(m) && q.asked().id@
                    == m@ && room.agents@.contains(q.asked()) && fresh_question(
                    q,
                    room,
                    q.asked(),
                    before.transcript(),
                    moderator_instruction_text(
                        moderator_candidates(room).map_values(|a: Agent| a.name@),
                    ),
                )
                &&& after.phase() matches Phase::AwaitModerator { round: r, candidates } && r
                    == round && candidates@ == moderator_candidates(room)
            } else {
                &&& step matches Step::Finished(Err(e)) && e@ == ErrorView::Validation(
                    "a moderated room needs at least one agent besides the moderator"@,
                )
                &&& after.phase() == Phase::Over
            }
        },
        Phase::SpeakChosen { round, chosen } => {
            &&& step matches Step::Speak(s) && fresh_speech(
                s,
                room,
                chosen,
                before.transcript(),
                None,
                round,
            )
            &&& after.phase() == Phase::AwaitChosen { round, chosen }
            &&& unchanged
        },
        Phase::RoundEnd(round) => {
            &&& step matches Step::Emit(SessionEvent::TurnCompleted { round: r }) && r == round
            &&& follows_round(room, round, after.phase())
            &&& unchanged
        },
        Phase::Votes(i) => if i < active.len() {
            &&& step matches Step::Ask(q) && fresh_question(
                q,
                room,
                active[i as int],
                before.transcript(),
                vote_instruction_text(vote_options()),
            )
            &&& after.phase() == Phase::AwaitVote(i)
            &&& unchanged
        } else {
            &&& after.produced() == before.produced() + before.pending_votes()
            &&& after.pending_votes().len() == 0
            &&& completion(step, after.produced())
            &&& after.phase() == Phase::Done
        },
        Phase::Closing => {
            &&& completion(step, before.produced())
            &&& after.phase() == Phase::Done
            &&& unchanged
        },
        Phase::Done => {
            &&& step matches Step::Finished(Ok(v)) && v@ == before.produced()
            &&& after.phase() == Phase::Over
            &&& unchanged
        },
        _ => {
            &&& step is Waiting
            &&& after.phase() == before.phase()
            &&& unchanged
        },
    }
}

/// The outcomes of finished turns, in order.
pub open spec fn results(spoken: Seq<Spoken>) -> Seq<Option<Message>> {
    spoken.map_values(|t: Spoken| t.result())
}

/// Whether finished turns are those of `order` in `round`, one each, in order.
pub open spec fn answers_batch(spoken: Seq<Spoken>, order: Seq<Agent>, round: u32) -> bool {
    &&& spoken.len() == order.len()
    &&& forall|i: int|
        0 <= i < spoken.len() ==> (#[trigger] spoken[i]).speaker().id@ == order[i].id@
            && spoken[i].turn_round() == round
}

/// One prompt's run through a room.
pub struct Session {
    room: Room,
    transcript: Vec<Message>,
    produced: Vec<Message>,
    votes: Vec<Message>,
    queue: VecDeque<SessionEvent>,
    phase: Phase,
    history: Ghost<Seq<Message>>,
    opening: Ghost<Message>,
}

impl Session {
    #[verifier::type_invariant]
    closed spec fn inv(&self) -> bool {
        let rounds = rounds_of(self.room);
        let active = enabled_of(self.room.agents@).len();
        &&& room_problem(self.room) is None
        &&& active > 0
        &&& self.transcript@ == self.history@ + self.produced@
        &&& self.produced@.len() >= 1
        &&& self.produced@[0] == self.opening@
        &&& forall|i: int|
            0 <= i < self.queue@.len() ==> queued_event(#[trigger] self.queue@[i], self.opening@)
        &&& match self.phase {
            Phase::Votes(_) => true,
            Phase::AwaitVote(_) => true,
            _ => self.votes@.len() == 0,
        }
        &&& match self.phase {
            Phase::RoundStart(r) => 1 <= r <= rounds,
            Phase::Sequential { round, order, position } => 1 <= round <= rounds && position
                <= order@.len() && order@ == order_for(self.room.agents@, (round - 1) as u32),
            Phase::AwaitSpeech { round, order, position } => 1 <= round <= rounds && position
                < order@.len() && order@ == order_for(self.room.agents@, (round - 1) as u32),
            Phase::Parallel { round, order } => 1 <= round <= rounds && order@ == order_for(
                self.room.agents@,
                (round - 1) as u32,
            ),
            Phase::AwaitBatch { round, order } => 1 <= round <= rounds && order@ == order_for(
                self.room.agents@,
                (round - 1) as u32,
            ),
            Phase::Moderate(round) => 1 <= round <= rounds && self.room.policy
                == TurnPolicy::Moderated,
            Phase::AwaitModerator { round, candidates } => 1 <= round <= rounds
                && candidates@.len() > 0 && forall|i: int|
                0 <= i < candidates@.len() ==> enabled_of(self.room.agents@).contains(
                    #[trigger] candidates@[i],
                ),
            Phase::SpeakChosen { round, chosen } => 1 <= round <= rounds && enabled_of(
                self.room.agents@,
            ).contains(chosen),
            Phase::AwaitChosen { round, chosen } => 1 <= round <= rounds && enabled_of(
                self.room.agents@,
            ).contains(chosen),
            Phase::RoundEnd(round) => 1 <= round <= rounds,
            Phase::Votes(i) => i <= active,
            Phase::AwaitVote(i) => i < active,
            _ => true,
        }
    }

    /// The room being run.
    pub closed spec fn room(&self) -> Room {
        self.room
    }

    /// The transcript before the prompt.
    pub closed spec fn history(&self) -> Seq<Message> {
        self.history@
    }

    /// The transcript the agents see: the history and what this run added.
    pub closed spec fn transcript(&self) -> Seq<Message> {
        self.transcript@
    }

    /// The messages this run produced, starting with the prompt itself.
    pub closed spec fn produced(&self) -> Seq<Message> {
        self.produced@
    }

    /// The prompt as it entered the transcript.
    pub closed spec fn opening(&self) -> Message {
        self.opening@
    }

    /// The events waiting to be delivered, oldest first.
    pub closed spec fn queued(&self) -> Seq<SessionEvent> {
        self.queue@
    }

    /// The votes collected so far, which join the transcript once every
    /// agent has voted.
    pub closed spec fn pending_votes(&self) -> Seq<Message> {
        self.votes@
    }

    /// Where the conversation stands.
    pub closed spec fn phase(&self) -> Phase {
        self.phase
    }

    /// Opens a run of `prompt` through `room`, whose transcript so far is
    /// `history`. The room and the prompt are checked before anything else,
    /// and a room without enabled agents is refused. The run opens by
    /// announcing the prompt, then the first round.
    pub fn start(room: &Room, history: &[Message], prompt: &str) -> (r: Result<Session, HiveError>)
        ensures
            match r {
                Ok(s) => {
                    &&& room_problem(*room) is None
                    &&& prompt_problem(prompt@) is None
                    &&& enabled_of(room.agents@).len() > 0
                    &&& same_room(s.room(), *room)
                    &&& s.history() == history@
                    &&& s.produced() == seq![s.opening()]
                    &&& s.transcript() == history@.push(s.opening())
                    &&& s.opening().content@ == prompt@
                    &&& s.opening().role == Role::User
                    &&& s.opening().agent_id is None
                    &&& s.opening().room_id@ == room.id@
                    &&& s.queued() == seq![SessionEvent::UserMessage { message: s.opening() }]
                    &&& s.pending_votes().len() == 0
                    &&& s.phase() == Phase::RoundStart(1)
                },
                Err(e) => match room_problem(*room) {
                    Some(v) => e@ == v,
                    None => match prompt_problem(prompt@) {
                        Some(m) => e@ == ErrorView::Validation(m),
                        None => enabled_of(room.agents@).len() == 0 && e@ == ErrorView::Validation(
                            "the room has no enabled agents"@,
                        ),
                    },
                },
            },
    {
        room.validate()?;
        validate_prompt(prompt)?;
        let active = room.active_agents();
        if active.len() == 0 {
            return Err(HiveError::Validation("the room has no enabled agents".to_owned()));
        }
        let mut transcript = clone_messages(history);
        let opening = Message::from_user(room.id.as_str(), prompt);
        let ghost o = opening;
        transcript.push(opening.clone());
        let mut produced: Vec<Message> = Vec::new();
        produced.push(opening.clone());
        let mut queue: VecDeque<SessionEvent> = VecDeque::new();
        queue.push_back(SessionEvent::UserMessage { message: opening });
        let copy = room.clone();
        assert(room_problem(copy) == room_problem(*room));
        assert(enabled_of(copy.agents@) == enabled_of(room.agents@));
        assert(rounds_of(copy) >= 1);
        assert(produced@ =~= seq![o]);
        assert(transcript@ =~= history@ + produced@);
        assert(queue@ =~= seq![SessionEvent::UserMessage { message: o }]);
        Ok(
            Session {
                room: copy,
                transcript,
                produced,
                votes: Vec::new(),
                queue,
                phase: Phase::RoundStart(1),
                history: Ghost(history@),
                opening: Ghost(o),
            },
        )
    }

    /// Decides what happens next: the oldest waiting event is delivered
    /// first; otherwise the phase decides (see [`advances`]).
    #[verifier::rlimit(100)]
    pub fn next_step(self) -> (r: (Session, Step))
        ensures
            same_room(r.0.room(), self.room()),
            r.0.history() == self.history(),
            r.0.opening() == self.opening(),
            r.0.transcript() == r.0.history() + r.0.produced(),
            r.0.produced()[0] == r.0.opening(),
            self.queued().len() > 0 ==> {
                &&& r.1 matches Step::Emit(e) && e == self.queued()[0]
                &&& r.0.queued() == self.queued().drop_first()
                &&& r.0.phase() == self.phase()
                &&& r.0.produced() == self.produced()
                &&& r.0.pending_votes() == self.pending_votes()
            },
            self.queued().len() == 0 ==> advances(self, r.0, r.1),
    {
        proof {
            use_type_invariant(&self);
        }
        let ghost old_self = self;
        let Session { room, mut transcript, mut produced, mut votes, mut queue, phase, history, opening } =
            self;
        if queue.len() > 0 {
            let ghost q = queue@;
            let event = queue.pop_front().unwrap();
            assert(queue@ =~= q.drop_first());
            return (
                Session { room, transcript, produced, votes, queue, phase, history, opening },
                Step::Emit(event),
            );
        }
        proof {
            lemma_enabled_of_members(room.agents@);
        }
        let (next, step): (Phase, Step) = match phase {
            Phase::RoundStart(round) => {
                let order = speaking_order(&room, round - 1);
                let speakers = names_of(&order);
                let event = SessionEvent::TurnStarted {
                    round,
                    rounds: discussion_rounds(&room),
                    policy: room.policy,
                    speakers,
                };
                let next = match room.policy {
                    TurnPolicy::Parallel => Phase::Parallel { round, order },
                    TurnPolicy::Moderated => Phase::Moderate(round),
                    _ => Phase::Sequential { round, order, position: 0 },
                };
                (next, Step::Emit(event))
            },
            Phase::Sequential { round, order, position } => {
                if position < order.len() {
                    proof {
                        lemma_order_is_permutation(room.agents@, (round - 1) as u32);
                        assert(order@.contains(order@[position as int]));
                    }
                    let stance = stance_for(room.policy, position);
                    let speech = Speech::new(
                        &room,
                        &order[position],
                        transcript.as_slice(),
                        stance,
                        round,
                    );
                    (Phase::AwaitSpeech { round, order, position }, Step::Speak(speech))
                } else {
                    (after_round(&room, round), Step::Emit(SessionEvent::TurnCompleted { round }))
                }
            },
            Phase::Parallel { round, order } => {
                let mut speeches: Vec<Speech> = Vec::new();
                let mut i: usize = 0;
                while i < order.len()
                    invariant
                        i <= order@.len(),
                        speeches@.len() == i,
                        forall|k: int|
                            0 <= k < i ==> fresh_speech(
                                #[trigger] speeches@[k],
                                room,
                                order@[k],
                                transcript@,
                                None,
                                round,
                            ),
                    decreases order@.len() - i,
                {
                    speeches.push(Speech::new(&room, &order[i], transcript.as_slice(), None, round));
                    i = i + 1;
                }
                (Phase::AwaitBatch { round, order }, Step::SpeakAll(speeches))
            },
            Phase::Moderate(round) => {
                match moderation(&room, transcript.as_slice()) {
                    Ok((question, candidates)) => (
                        Phase::AwaitModerator { round, candidates },
                        Step::Ask(question),
                    ),
                    Err(e) => (Phase::Over, Step::Finished(Err(e))),
                }
            },
            Phase::SpeakChosen { round, chosen } => {
                let speech = Speech::new(&room, &chosen, transcript.as_slice(), None, round);
                (Phase::AwaitChosen { round, chosen }, Step::Speak(speech))
            },
            Phase::RoundEnd(round) => {
                (after_round(&room, round), Step::Emit(SessionEvent::TurnCompleted { round }))
            },
            Phase::Votes(index) => {
                let active = room.active_agents();
                if index < active.len() {
                    proof {
                        assert(enabled_of(room.agents@).contains(active@[index as int]));
                        assert(room.agents@.contains(active@[index as int]));
                    }
                    let instruction = vote_instruction("the positions discussed above");
                    let question = Question::new(
                        &room,
                        &active[index],
                        transcript.as_slice(),
                        instruction.as_str(),
                    );
                    (Phase::AwaitVote(index), Step::Ask(question))
                } else {
                    let ghost before = produced@;
                    let mut k: usize = 0;
                    while k < votes.len()
                        invariant
                            k <= votes@.len(),
                            produced@ == before + votes@.take(k as int),
                            transcript@ == history@ + produced@,
                        decreases votes@.len() - k,
                    {
                        produced.push(votes[k].clone());
                        transcript.push(votes[k].clone());
                        assert(votes@.take(k + 1) =~= votes@.take(k as int).push(votes@[k as int]));
                        k = k + 1;
                    }
                    assert(votes@.take(votes@.len() as int) =~= votes@);
                    votes = Vec::new();
                    assert((before + old_self.votes@).take(before.len() as int) =~= before);
                    let usage = capped_usage(produced.as_slice());
                    let event = SessionEvent::SessionCompleted { messages: produced.len(), usage };
                    (Phase::Done, Step::Emit(event))
                }
            },
            Phase::Closing => {
                let usage = capped_usage(produced.as_slice());
                let event = SessionEvent::SessionCompleted { messages: produced.len(), usage };
                (Phase::Done, Step::Emit(event))
            },
            Phase::Done => {
                let all = clone_messages(produced.as_slice());
                (Phase::Over, Step::Finished(Ok(all)))
            },
            other => (other, Step::Waiting),
        };
        let s = Session { room, transcript, produced, votes, queue, phase: next, history, opening };
        proof {
            match old_self.phase {
                Phase::RoundStart(_) => { assert(advances(old_self, s, step)); },
                Phase::Sequential { .. } => { assert(advances(old_self, s, step)); },
                Phase::Parallel { .. } => { assert(advances(old_self, s, step)); },
                Phase::Moderate(_) => { assert(advances(old_self, s, step)); },
                Phase::SpeakChosen { .. } => { assert(advances(old_self, s, step)); },
                Phase::RoundEnd(_) => { assert(advances(old_self, s, step)); },
                Phase::Votes(_) => { assert(advances(old_self, s, step)); },
                Phase::Closing => { assert(advances(old_self, s, step)); },
                Phase::Done => { assert(advances(old_self, s, step)); },
                _ => { assert(advances(old_self, s, step)); },
            }
        }
        (s, step)
    }

    /// Reports a finished turn asked for by [`Step::Speak`]. A turn of the
    /// awaited agent in the awaited round is taken: its message, if it
    /// produced one, joins the transcript, and the next speaker comes up
    /// whether or not it did. Any other report is ignored.
    pub fn spoke(self, spoken: Spoken) -> (s: Session)
        ensures
            same_room(s.room(), self.room()),
            s.history() == self.history(),
            s.opening() == self.opening(),
            s.transcript() == s.history() + s.produced(),
            s.produced()[0] == s.opening(),
            s.queued() == self.queued(),
            s.pending_votes() == self.pending_votes(),
            match self.phase() {
                Phase::AwaitSpeech { round, order, position } => if spoken.speaker().id@
                    == order@[position as int].id@ && spoken.turn_round() == round {
                    &&& s.produced() == match spoken.result() {
                        Some(m) => self.produced().push(m),
                        None => self.produced(),
                    }
                    &&& spoken.result() matches Some(m) ==> spoken_by(m, spoken.speaker(), round)
                    &&& s.phase() matches Phase::Sequential { round: r, order: o, position: p }
                        && r == round && o@ == order@ && p == position + 1
                } else {
                    s.produced() == self.produced() && s.phase() == self.phase()
                },
                Phase::AwaitChosen { round, chosen } => if spoken.speaker().id@ == chosen.id@
                    && spoken.turn_round() == round {
                    &&& s.produced() == match spoken.result() {
                        Some(m) => self.produced().push(m),
                        None => self.produced(),
                    }
                    &&& spoken.result() matches Some(m) ==> spoken_by(m, spoken.speaker(), round)
                    &&& s.phase() == Phase::RoundEnd(round)
                } else {
                    s.produced() == self.produced() && s.phase() == self.phase()
                },
                _ => s.produced() == self.produced() && s.phase() == self.phase(),
            },
    {
        proof {
            use_type_invariant(&self);
        }
        let Session { room, mut transcript, mut produced, votes, queue, phase, history, opening } =
            self;
        let next = match phase {
            Phase::AwaitSpeech { round, order, position } => {
                let n = order.len();
                assert(position < n);
                if str_eq(spoken.agent().id.as_str(), order[position].id.as_str())
                    && spoken.round() == round {
                    if let Some(message) = spoken.message() {
                        transcript.push(message.clone());
                        produced.push(message.clone());
                    }
                    Phase::Sequential { round, order, position: position + 1 }
                } else {
                    Phase::AwaitSpeech { round, order, position }
                }
            },
            Phase::AwaitChosen { round, chosen } => {
                if str_eq(spoken.agent().id.as_str(), chosen.id.as_str()) && spoken.round()
                    == round {
                    if let Some(message) = spoken.message() {
                        transcript.push(message.clone());
                        produced.push(message.clone());
                    }
                    Phase::RoundEnd(round)
                } else {
                    Phase::AwaitChosen { round, chosen }
                }
            },
            other => other,
        };
        Session { room, transcript, produced, votes, queue, phase: next, history, opening }
    }

    /// Reports the finished turns asked for by [`Step::SpeakAll`], in the
    /// order they were handed out. When they are the awaited turns, one for
    /// each speaker of the round, the messages they produced join the
    /// transcript and the round ends. Any other report is ignored.
    pub fn spoke_all(self, spoken: Vec<Spoken>) -> (s: Session)
        ensures
            same_room(s.room(), self.room()),
            s.history() == self.history(),
            s.opening() == self.opening(),
            s.transcript() == s.history() + s.produced(),
            s.produced()[0] == s.opening(),
            s.queued() == self.queued(),
            s.pending_votes() == self.pending_votes(),
            match self.phase() {
                Phase::AwaitBatch { round, order } => if answers_batch(spoken@, order@, round) {
                    &&& s.produced() == self.produced() + successes(results(spoken@))
                    &&& forall|i: int|
                        0 <= i < spoken@.len() ==> ((#[trigger] spoken@[i]).result() matches Some(m)
                            ==> spoken_by(m, spoken@[i].speaker(), round))
                    &&& s.phase() == Phase::RoundEnd(round)
                } else {
                    s.produced() == self.produced() && s.phase() == self.phase()
                },
                _ => s.produced() == self.produced() && s.phase() == self.phase(),
            },
    {
        proof {
            use_type_invariant(&self);
        }
        let Session { room, mut transcript, mut produced, votes, queue, phase, history, opening } =
            self;
        let ghost before = produced@;
        let next = match phase {
            Phase::AwaitBatch { round, order } => {
                let mut matches = spoken.len() == order.len();
                let mut j: usize = 0;
                while matches && j < spoken.len()
                    invariant
                        j <= spoken@.len(),
                        matches ==> spoken@.len() == order@.len(),
                        matches ==> forall|i: int|
                            0 <= i < j ==> (#[trigger] spoken@[i]).speaker().id@ == order@[i].id@
                                && spoken@[i].turn_round() == round,
                        !matches ==> !answers_batch(spoken@, order@, round),
                    decreases spoken@.len() - j,
                {
                    if !(str_eq(spoken[j].agent().id.as_str(), order[j].id.as_str())
                        && spoken[j].round() == round) {
                        matches = false;
                    }
                    j = j + 1;
                }
                if matches {
                    let mut i: usize = 0;
                    while i < spoken.len()
                        invariant
                            i <= spoken@.len(),
                            produced@ == before + successes(results(spoken@.take(i as int))),
                            transcript@ == history@ + produced@,
                            forall|k: int|
                                0 <= k < spoken@.len() ==> (#[trigger] spoken@[k]).turn_round()
                                    == round,
                            forall|k: int|
                                0 <= k < i ==> ((#[trigger] spoken@[k]).result() matches Some(m)
                                    ==> spoken_by(m, spoken@[k].speaker(), round)),
                        decreases spoken@.len() - i,
                    {
                        assert(results(spoken@.take(i + 1)).drop_last() =~= results(
                            spoken@.take(i as int),
                        ));
                        if let Some(message) = spoken[i].message() {
                            transcript.push(message.clone());
                            produced.push(message.clone());
                        }
                        i = i + 1;
                    }
                    assert(spoken@.take(spoken@.len() as int) =~= spoken@);
                    Phase::RoundEnd(round)
                } else {
                    Phase::AwaitBatch { round, order }
                }
            },
            other => other,
        };
        Session { room, transcript, produced, votes, queue, phase: next, history, opening }
    }

    /// Reports the answer to the question asked by [`Step::Ask`]. A moderator
    /// that fails or names nobody does not stall the room: the turn falls to
    /// the candidate whose turn it would be in rotation. A vote with text is
    /// announced and kept, a failed one is reported, and the next agent is
    /// asked to vote. Outside those waits the report is ignored.
    pub fn answered(self, reply: Result<String, HiveError>) -> (s: Session)
        ensures
            same_room(s.room(), self.room()),
            s.history() == self.history(),
            s.opening() == self.opening(),
            s.transcript() == s.history() + s.produced(),
            s.produced() == self.produced(),
            match self.phase() {
                Phase::AwaitVote(i) => {
                    let agent = enabled_of(self.room().agents@)[i as int];
                    &&& s.phase() == Phase::Votes((i + 1) as usize)
                    &&& match reply {
                        Ok(answer) => if blank(answer@) {
                            s.queued() == self.queued() && s.pending_votes()
                                == self.pending_votes()
                        } else {
                            &&& s.queued().len() == self.queued().len() + 1
                            &&& s.queued().take(self.queued().len() as int) == self.queued()
                            &&& s.queued().last() matches SessionEvent::VoteCast {
                                agent_id,
                                agent_name,
                                choice,
                                rationale,
                            } && agent_id == agent.id && agent_name == agent.name && (
                            choice@,
                            rationale@,
                            ) == vote_of(answer@)
                            &&& s.pending_votes().len() == self.pending_votes().len() + 1
                            &&& s.pending_votes().take(self.pending_votes().len() as int)
                                == self.pending_votes()
                            &&& s.pending_votes().last().content@ == trim(answer@)
                            &&& s.pending_votes().last().role == Role::Assistant
                            &&& s.pending_votes().last().speaker == agent.name
                            &&& s.pending_votes().last().agent_id == Some(agent.id)
                            &&& s.pending_votes().last().round == self.room().rounds
                            &&& s.pending_votes().last().room_id@ == self.room().id@
                        },
                        Err(e) => {
                            &&& s.pending_votes() == self.pending_votes()
                            &&& s.queued().len() == self.queued().len() + 1
                            &&& s.queued().take(self.queued().len() as int) == self.queued()
                            &&& s.queued().last() matches SessionEvent::AgentFailed {
                                agent_id,
                                agent_name,
                                error,
                            } && agent_id == agent.id && agent_name == agent.name && error@
                                == error_text(e@)
                        },
                    }
                },
                Phase::AwaitModerator { round, candidates } => {
                    let text = match reply {
                        Ok(t) => t@,
                        Err(_) => Seq::<char>::empty(),
                    };
                    let c = candidates@;
                    &&& s.phase() == Phase::SpeakChosen {
                        round,
                        chosen: c[picked(lowercase(text), lowered_names(c), round)],
                    }
                    &&& s.queued() == self.queued()
                    &&& s.pending_votes() == self.pending_votes()
                },
                _ => s.phase() == self.phase() && s.queued() == self.queued() && s.pending_votes()
                    == self.pending_votes(),
            },
    {
        proof {
            use_type_invariant(&self);
            lemma_enabled_of_members(self.room.agents@);
        }
        let Session { room, transcript, produced, mut votes, mut queue, phase, history, opening } =
            self;
        let next = match phase {
            Phase::AwaitModerator { round, candidates } => {
                let answer = match reply {
                    Ok(text) => text,
                    Err(_) => String::new(),
                };
                let index = choose_speaker(answer.as_str(), &candidates, round);
                let chosen = candidates[index].clone();
                Phase::SpeakChosen { round, chosen }
            },
            Phase::AwaitVote(index) => {
                let active = room.active_agents();
                let agent = &active[index];
                match reply {
                    Ok(answer) => {
                        if !is_blank(answer.as_str()) {
                            let (choice, rationale) = parse_vote(answer.as_str());
                            queue.push_back(
                                SessionEvent::VoteCast {
                                    agent_id: agent.id.clone(),
                                    agent_name: agent.name.clone(),
                                    choice,
                                    rationale,
                                },
                            );
                            let content = crate::text::trimmed(answer.as_str());
                            votes.push(
                                Message::from_agent(
                                    room.id.as_str(),
                                    agent,
                                    content.as_str(),
                                    room.rounds,
                                ),
                            );
                        }
                    },
                    Err(e) => {
                        queue.push_back(
                            SessionEvent::AgentFailed {
                                agent_id: agent.id.clone(),
                                agent_name: agent.name.clone(),
                                error: e.message(),
                            },
                        );
                    },
                }
                Phase::Votes(index + 1)
            },
            other => other,
        };
        Session { room, transcript, produced, votes, queue, phase: next, history, opening }
    }
}

/// The messages among the outcomes, in order.
pub open spec fn successes(outcomes: Seq<Option<Message>>) -> Seq<Message>
    decreases outcomes.len(),
{
    if outcomes.len() == 0 {
        seq![]
    } else {
        match outcomes.last() {
            Some(m) => successes(outcomes.drop_last()).push(m),
            None => successes(outcomes.drop_last()),
        }
    }
}

/// What follows the end of a round.
fn after_round(room: &Room, round: u32) -> (phase: Phase)
    requires
        1 <= round <= rounds_of(*room),
        room_problem(*room) is None,
    ensures
        follows_round(*room, round, phase),
        match phase {
            Phase::RoundStart(r) => r == round + 1 && r <= rounds_of(*room),
            Phase::Votes(i) => i == 0,
            Phase::Closing => true,
            _ => false,
        },
{
    if round < discussion_rounds(room) {
        Phase::RoundStart(round + 1)
    } else if room.policy == TurnPolicy::Consensus {
        Phase::Votes(0)
    } else {
        Phase::Closing
    }
}

/// The moderator's question and the candidates it chooses from, or why the
/// room cannot be moderated.
fn moderation(room: &Room, transcript: &[Message]) -> (r: Result<(Question, Vec<Agent>), HiveError>)
    requires
        room_problem(*room) is None,
        room.policy == TurnPolicy::Moderated,
    ensures
        match r {
            Ok((q, c)) => {
                &&& c@.len() > 0
                &&& c@ == moderator_candidates(*room)
                &&& prepared(q.prepared_request(), *room, q.asked(), transcript@, None, Some(q.instruction()))
                &&& room.agents@.contains(q.asked())
                &&& q.received().len() == 0
                &&& room.moderator_id matches Some(m) && q.asked().id@ == m@
                &&& q.instruction() == moderator_instruction_text(c@.map_values(|a: Agent| a.name@))
                &&& forall|i: int| 0 <= i < c@.len() ==> enabled_of(room.agents@).contains(#[trigger] c@[i])
            },
            Err(e) => {
                &&& moderator_candidates(*room).len() == 0
                &&& e@ == ErrorView::Validation("a moderated room needs at least one agent besides the moderator"@)
            },
        },
{
    let moderator = match &room.moderator_id {
        Some(id) => {
            let found = room.agent(id.as_str())?;
            proof {
                let k = choose|k: int| 0 <= k < room.agents@.len() && room.agents@[k] == *found;
                assert(room.agents@.contains(room.agents@[k]));
            }
            found
        },
        None => {
            return Err(HiveError::Validation("the moderated policy requires a moderator".to_owned()));
        },
    };
    let active = room.active_agents();
    let mut candidates: Vec<Agent> = Vec::new();
    let mut names: Vec<String> = Vec::new();
    let mut i: usize = 0;
    let ghost id = moderator.id@;
    while i < active.len()
        invariant
            i <= active@.len(),
            active@ == enabled_of(room.agents@),
            moderator.id@ == id,
            candidates@ == others(active@.take(i as int), id),
            names@.map_values(|n: String| n@) == candidates@.map_values(|a: Agent| a.name@),
            forall|k: int|
                0 <= k < candidates@.len() ==> enabled_of(room.agents@).contains(
                    #[trigger] candidates@[k],
                ),
        decreases active@.len() - i,
    {
        assert(active@.take(i + 1).drop_last() =~= active@.take(i as int));
        if !str_eq(active[i].id.as_str(), moderator.id.as_str()) {
            assert(enabled_of(room.agents@).contains(active@[i as int]));
            let ghost before_c = candidates@;
            let ghost before_n = names@;
            candidates.push(active[i].clone());
            names.push(active[i].name.clone());
            assert(names@.map_values(|n: String| n@) =~= before_n.map_values(|n: String| n@).push(
                active@[i as int].name@,
            ));
            assert(candidates@.map_values(|a: Agent| a.name@) =~= before_c.map_values(
                |a: Agent| a.name@,
            ).push(active@[i as int].name@));
        }
        i = i + 1;
    }
    assert(active@.take(active@.len() as int) =~= active@);
    if candidates.len() == 0 {
        return Err(
            HiveError::Validation(
                "a moderated room needs at least one agent besides the moderator".to_owned(),
            ),
        );
    }
    let instruction = moderator_instruction(&names);
    let question = Question::new(room, moderator, transcript, instruction.as_str());
    Ok((question, candidates))
}

/// The names of the agents, in order.
fn names_of(agents: &Vec<Agent>) -> (names: Vec<String>)
    ensures
        names@.map_values(|n: String| n@) == agents@.map_values(|a: Agent| a.name@),
{
    let mut names: Vec<String> = Vec::new();
    let mut i: usize = 0;
    while i < agents.len()
        invariant
            i <= agents@.len(),
            names@.map_values(|n: String| n@) == agents@.take(i as int).map_values(
                |a: Agent| a.name@,
            ),
        decreases agents@.len() - i,
    {
        let ghost before = names@;
        names.push(agents[i].name.clone());
        assert(names@.map_values(|n: String| n@) =~= before.map_values(|n: String| n@).push(
            agents@[i as int].name@,
        ));
        assert(agents@.take(i + 1).map_values(|a: Agent| a.name@) =~= agents@.take(
            i as int,
        ).map_values(|a: Agent| a.name@).push(agents@[i as int].name@));
        i = i + 1;
    }
    assert(agents@.take(agents@.len() as int) =~= agents@);
    names
}

/// A copy of a run of messages.
pub fn clone_messages(messages: &[Message]) -> (r: Vec<Message>)
    ensures
        r@ == messages@,
{
    let mut r: Vec<Message> = Vec::new();
    let mut i: usize = 0;
    while i < messages.len()
        invariant
            i <= messages@.len(),
            r@ == messages@.take(i as int),
        decreases messages@.len() - i,
    {
        r.push(messages[i].clone());
        assert(messages@.take(i + 1) =~= messages@.take(i as int).push(messages@[i as int]));
        i = i + 1;
    }
    assert(messages@.take(messages@.len() as int) =~= messages@);
    r
}

} // verus!
