//! Drives the session state machine against scripted models, so the speaking
//! order, the prompt each agent receives, the transcript and the event stream
//! are all exercised without a network.

use std::collections::HashMap;

use hive_core::error::HiveError;
use hive_core::model::{Agent, Message, Room, TokenUsage, TurnPolicy};
use hive_core::provider::{ChatChunk, ChatRequest};
use hive_core::session::{Session, Step};
use hive_core::turn::{SessionEvent, Speech, Spoken};

/// What one call to a scripted model produces.
#[derive(Clone)]
enum Reply {
    /// Streams this text back, split into several deltas.
    Text(String),
    /// Fails the turn.
    Failure(String),
    /// Streams nothing.
    Empty,
}

/// One recorded request.
#[derive(Clone)]
struct Seen {
    model: String,
    system: String,
    transcript: String,
}

struct Script {
    /// Replies per provider id, handed out in order; the last one repeats.
    replies: HashMap<String, Vec<Reply>>,
    seen: HashMap<String, Vec<Seen>>,
}

impl Script {
    fn new(entries: &[(&str, Vec<Reply>)]) -> Self {
        Script {
            replies: entries
                .iter()
                .map(|(id, r)| (id.to_string(), r.clone()))
                .collect(),
            seen: HashMap::new(),
        }
    }

    fn always(entries: &[(&str, &str)]) -> Self {
        let list: Vec<(&str, Vec<Reply>)> = entries
            .iter()
            .map(|(id, text)| (*id, vec![Reply::Text(text.to_string())]))
            .collect();
        Self::new(&list)
    }

    fn call(&mut self, provider: &str, request: &ChatRequest) -> Result<Vec<ChatChunk>, HiveError> {
        self.seen.entry(provider.to_string()).or_default().push(Seen {
            model: request.model.clone(),
            system: request.system.clone(),
            transcript: request
                .turns
                .iter()
                .map(|t| t.content.as_str())
                .collect::<Vec<_>>()
                .join("\n"),
        });
        let Some(list) = self.replies.get_mut(provider) else {
            return Err(HiveError::UnknownProvider(provider.to_string()));
        };
        let reply = match list.len() {
            0 => Reply::Empty,
            1 => list[0].clone(),
            _ => list.remove(0),
        };
        match reply {
            Reply::Failure(message) => Err(HiveError::provider(provider, &message)),
            Reply::Empty => Ok(Vec::new()),
            Reply::Text(text) => {
                let mut chunks: Vec<ChatChunk> = text
                    .split_inclusive(' ')
                    .map(|part| ChatChunk::Delta(part.to_string()))
                    .collect();
                chunks.push(ChatChunk::Done(TokenUsage {
                    input_tokens: 10,
                    output_tokens: 20,
                }));
                Ok(chunks)
            }
        }
    }

    fn requests(&self, provider: &str) -> Vec<Seen> {
        self.seen.get(provider).cloned().unwrap_or_default()
    }

    fn call_count(&self, provider: &str) -> usize {
        self.requests(provider).len()
    }
}

fn speak(
    script: &mut Script,
    speech: hive_core::turn::Speech,
    events: &mut Vec<SessionEvent>,
) -> Spoken {
    events.push(speech.started());
    let provider = speech.agent().provider_id.clone();
    let outcome = script.call(&provider, speech.request());
    let mut speech = speech;
    let (spoken, closing) = match outcome {
        Ok(chunks) => {
            for chunk in chunks {
                let (next, event) = speech.on_chunk(chunk);
                speech = next;
                if let Some(event) = event {
                    events.push(event);
                }
            }
            speech.finish(Ok(()))
        }
        Err(error) => speech.finish(Err(error)),
    };
    events.extend(closing);
    spoken
}

fn run(
    room: &Room,
    script: &mut Script,
    prompt: &str,
) -> (Result<Vec<Message>, HiveError>, Vec<SessionEvent>) {
    let mut events = Vec::new();
    let mut session = match Session::start(room, &[], prompt) {
        Ok(session) => session,
        Err(error) => return (Err(error), events),
    };
    loop {
        let (next, step) = session.next_step();
        session = next;
        match step {
            Step::Emit(event) => events.push(event),
            Step::Speak(speech) => {
                let spoken = speak(script, speech, &mut events);
                session = session.spoke(spoken);
            }
            Step::SpeakAll(speeches) => {
                let mut outcomes = Vec::new();
                for speech in speeches {
                    outcomes.push(speak(script, speech, &mut events));
                }
                session = session.spoke_all(outcomes);
            }
            Step::Ask(question) => {
                let provider = question.agent().provider_id.clone();
                let reply = match script.call(&provider, question.request()) {
                    Ok(chunks) => {
                        let mut question = question;
                        for chunk in chunks {
                            question = question.on_chunk(chunk);
                        }
                        question.finish(Ok(()))
                    }
                    Err(error) => question.finish(Err(error)),
                };
                session = session.answered(reply);
            }
            Step::Waiting => panic!("the session waits for an outcome it was given"),
            Step::Finished(result) => return (result, events),
        }
    }
}

fn room_with(policy: TurnPolicy, agents: Vec<Agent>) -> Room {
    let mut room = Room::new("Lab", policy);
    room.topic = "Storage layer".to_string();
    room.agents = agents;
    room
}

fn speakers(messages: &[Message]) -> Vec<&str> {
    messages.iter().map(|m| m.speaker.as_str()).collect()
}

#[test]
fn round_robin_lets_each_agent_see_what_came_before() {
    let mut script = Script::always(&[("alpha", "Alpha says use SQLite."), ("beta", "Beta disagrees.")]);
    let room = room_with(
        TurnPolicy::RoundRobin,
        vec![Agent::new("Ada", "alpha", "m1"), Agent::new("Ben", "beta", "m2")],
    );
    let (messages, _) = run(&room, &mut script, "Which store?");
    let messages = messages.unwrap();
    assert_eq!(speakers(&messages), vec!["user", "Ada", "Ben"]);
    let bens_view = &script.requests("beta")[0].transcript;
    assert!(bens_view.contains("Ada: Alpha says use SQLite."), "{bens_view}");
    assert!(!script.requests("alpha")[0].transcript.contains("Ben:"));
}

#[test]
fn parallel_withholds_the_other_answers() {
    let mut script = Script::always(&[("alpha", "Alpha answer."), ("beta", "Beta answer.")]);
    let room = room_with(
        TurnPolicy::Parallel,
        vec![Agent::new("Ada", "alpha", "m1"), Agent::new("Ben", "beta", "m2")],
    );
    let (messages, _) = run(&room, &mut script, "Which store?");
    assert_eq!(messages.unwrap().len(), 3);
    for provider in ["alpha", "beta"] {
        let view = &script.requests(provider)[0].transcript;
        assert!(view.contains("Which store?"));
        assert!(!view.contains("Ada:"));
        assert!(!view.contains("Ben:"));
    }
}

#[test]
fn parallel_runs_one_round_regardless_of_the_configured_count() {
    let mut script = Script::always(&[("alpha", "Answer.")]);
    let mut room = room_with(TurnPolicy::Parallel, vec![Agent::new("Ada", "alpha", "m1")]);
    room.rounds = 5;
    let (messages, _) = run(&room, &mut script, "Which store?");
    assert!(messages.is_ok());
    assert_eq!(script.call_count("alpha"), 1);
}

#[test]
fn debate_assigns_opposing_stances() {
    let mut script = Script::always(&[("alpha", "In favour."), ("beta", "Against.")]);
    let room = room_with(
        TurnPolicy::Debate,
        vec![Agent::new("Ada", "alpha", "m1"), Agent::new("Ben", "beta", "m2")],
    );
    let _ = run(&room, &mut script, "Which store?");
    assert!(script.requests("alpha")[0].system.contains("in favour"));
    assert!(script.requests("beta")[0].system.contains("against"));
}

#[test]
fn several_rounds_rotate_who_opens() {
    let mut script = Script::always(&[("alpha", "A."), ("beta", "B.")]);
    let mut room = room_with(
        TurnPolicy::RoundRobin,
        vec![Agent::new("Ada", "alpha", "m1"), Agent::new("Ben", "beta", "m2")],
    );
    room.rounds = 2;
    let (messages, _) = run(&room, &mut script, "Which store?");
    assert_eq!(
        speakers(&messages.unwrap()),
        vec!["user", "Ada", "Ben", "Ben", "Ada"]
    );
}

#[test]
fn consensus_collects_a_vote_from_every_agent() {
    let mut script = Script::new(&[
        (
            "alpha",
            vec![
                Reply::Text("I favour SQLite.".into()),
                Reply::Text("VOTE: SQLite\nWHY: fewer moving parts.".into()),
            ],
        ),
        (
            "beta",
            vec![
                Reply::Text("I favour Postgres.".into()),
                Reply::Text("VOTE: Postgres\nWHY: it scales.".into()),
            ],
        ),
    ]);
    let room = room_with(
        TurnPolicy::Consensus,
        vec![Agent::new("Ada", "alpha", "m1"), Agent::new("Ben", "beta", "m2")],
    );
    let (messages, events) = run(&room, &mut script, "Which store?");
    let messages = messages.unwrap();
    let votes: Vec<(&str, &str)> = events
        .iter()
        .filter_map(|event| match event {
            SessionEvent::VoteCast { agent_name, choice, .. } => {
                Some((agent_name.as_str(), choice.as_str()))
            }
            _ => None,
        })
        .collect();
    assert_eq!(votes, vec![("Ada", "SQLite"), ("Ben", "Postgres")]);
    assert_eq!(messages.len(), 5);
    assert!(messages.iter().any(|m| m.content.starts_with("VOTE: SQLite")));
    assert!(!events.iter().any(|event| matches!(
        event,
        SessionEvent::AgentDelta { text, .. } if text.contains("VOTE")
    )));
}

#[test]
fn a_moderator_picks_the_next_speaker() {
    let mut script = Script::always(&[("mod", "Ben"), ("alpha", "Ada speaks."), ("beta", "Ben speaks.")]);
    let mods = Agent::new("Mia", "mod", "m0");
    let mut room = room_with(
        TurnPolicy::Moderated,
        vec![mods.clone(), Agent::new("Ada", "alpha", "m1"), Agent::new("Ben", "beta", "m2")],
    );
    room.moderator_id = Some(mods.id.clone());
    let (messages, _) = run(&room, &mut script, "Which store?");
    assert_eq!(speakers(&messages.unwrap()), vec!["user", "Ben"]);
    assert_eq!(script.call_count("beta"), 1);
    assert_eq!(script.call_count("alpha"), 0);
}

#[test]
fn an_unusable_moderator_answer_falls_back_to_rotation() {
    let mut script = Script::always(&[("mod", "I am not sure, perhaps nobody."), ("alpha", "Ada speaks.")]);
    let mods = Agent::new("Mia", "mod", "m0");
    let mut room = room_with(
        TurnPolicy::Moderated,
        vec![mods.clone(), Agent::new("Ada", "alpha", "m1")],
    );
    room.moderator_id = Some(mods.id.clone());
    let (messages, _) = run(&room, &mut script, "Which store?");
    assert_eq!(speakers(&messages.unwrap()), vec!["user", "Ada"]);
}

#[test]
fn a_moderator_alone_cannot_run_a_room() {
    let mut script = Script::always(&[("mod", "Mia")]);
    let mods = Agent::new("Mia", "mod", "m0");
    let mut room = room_with(TurnPolicy::Moderated, vec![mods.clone()]);
    room.moderator_id = Some(mods.id.clone());
    let (result, _) = run(&room, &mut script, "Which store?");
    let error = result.unwrap_err();
    assert_eq!(
        error.message(),
        "invalid input: a moderated room needs at least one agent besides the moderator"
    );
}

#[test]
fn a_failing_agent_is_reported_and_the_room_continues() {
    let mut script = Script::new(&[
        ("broken", vec![Reply::Failure("upstream is down".into())]),
        ("healthy", vec![Reply::Text("I can still answer.".into())]),
    ]);
    let room = room_with(
        TurnPolicy::RoundRobin,
        vec![Agent::new("Ada", "broken", "m1"), Agent::new("Ben", "healthy", "m2")],
    );
    let (messages, events) = run(&room, &mut script, "Which store?");
    assert_eq!(speakers(&messages.unwrap()), vec!["user", "Ben"]);
    let failures: Vec<(&str, &str)> = events
        .iter()
        .filter_map(|event| match event {
            SessionEvent::AgentFailed { agent_name, error, .. } => {
                Some((agent_name.as_str(), error.as_str()))
            }
            _ => None,
        })
        .collect();
    assert_eq!(
        failures,
        vec![("Ada", "provider 'broken' failed: upstream is down")]
    );
}

#[test]
fn an_empty_answer_counts_as_a_failure() {
    let mut script = Script::new(&[("silent", vec![Reply::Empty])]);
    let room = room_with(TurnPolicy::RoundRobin, vec![Agent::new("Ada", "silent", "m1")]);
    let (messages, events) = run(&room, &mut script, "Which store?");
    assert_eq!(speakers(&messages.unwrap()), vec!["user"]);
    assert!(events.iter().any(|event| matches!(
        event,
        SessionEvent::AgentFailed { error, .. } if error == "provider 'silent' failed: the model returned no text"
    )));
}

#[test]
fn disabled_agents_are_skipped() {
    let mut script = Script::always(&[("alpha", "A."), ("beta", "B.")]);
    let mut agents = vec![Agent::new("Ada", "alpha", "m1"), Agent::new("Ben", "beta", "m2")];
    agents[1].enabled = false;
    let room = room_with(TurnPolicy::RoundRobin, agents);
    let (messages, _) = run(&room, &mut script, "Which store?");
    assert_eq!(speakers(&messages.unwrap()), vec!["user", "Ada"]);
    assert_eq!(script.call_count("beta"), 0);
}

#[test]
fn the_system_prompt_carries_persona_topic_and_peers() {
    let mut script = Script::always(&[("alpha", "A.")]);
    let room = room_with(
        TurnPolicy::RoundRobin,
        vec![
            Agent::new("Ada", "alpha", "m1").with_persona("You favour simplicity."),
            Agent::new("Ben", "alpha", "m2"),
        ],
    );
    let _ = run(&room, &mut script, "Which store?");
    let system = &script.requests("alpha")[0].system;
    assert!(system.contains("You are Ada"));
    assert!(system.contains("You favour simplicity."));
    assert!(system.contains("Storage layer"));
    assert!(system.contains("Other participants: Ben"));
}

#[test]
fn deltas_are_streamed_and_add_up_to_the_stored_message() {
    let mut script = Script::always(&[("alpha", "One two three four.")]);
    let room = room_with(TurnPolicy::RoundRobin, vec![Agent::new("Ada", "alpha", "m1")]);
    let (messages, events) = run(&room, &mut script, "Which store?");
    let messages = messages.unwrap();
    let streamed: String = events
        .iter()
        .filter_map(|event| match event {
            SessionEvent::AgentDelta { text, .. } => Some(text.as_str()),
            _ => None,
        })
        .collect();
    assert_eq!(streamed.trim(), "One two three four.");
    assert_eq!(messages[1].content, "One two three four.");
    assert!(
        events
            .iter()
            .filter(|e| matches!(e, SessionEvent::AgentDelta { .. }))
            .count()
            > 1
    );
}

#[test]
fn a_model_that_labels_its_own_answer_is_corrected() {
    let mut script = Script::always(&[("alpha", "Ada: I favour SQLite.")]);
    let room = room_with(TurnPolicy::RoundRobin, vec![Agent::new("Ada", "alpha", "m1")]);
    let (messages, events) = run(&room, &mut script, "Which store?");
    let messages = messages.unwrap();
    assert_eq!(messages[1].content, "I favour SQLite.");
    assert_eq!(messages[1].speaker, "Ada");
    let streamed: String = events
        .iter()
        .filter_map(|event| match event {
            SessionEvent::AgentDelta { text, .. } => Some(text.as_str()),
            _ => None,
        })
        .collect();
    assert_eq!(streamed, "I favour SQLite.");
}

#[test]
fn a_short_answer_that_could_be_a_label_is_still_shown() {
    let mut script = Script::always(&[("alpha", "Ad")]);
    let room = room_with(TurnPolicy::RoundRobin, vec![Agent::new("Ada", "alpha", "m1")]);
    let (messages, events) = run(&room, &mut script, "Which store?");
    assert_eq!(messages.unwrap()[1].content, "Ad");
    let streamed: String = events
        .iter()
        .filter_map(|event| match event {
            SessionEvent::AgentDelta { text, .. } => Some(text.as_str()),
            _ => None,
        })
        .collect();
    assert_eq!(streamed, "Ad");
}

#[test]
fn the_session_reports_the_summed_token_usage() {
    let mut script = Script::always(&[("alpha", "A."), ("beta", "B.")]);
    let room = room_with(
        TurnPolicy::RoundRobin,
        vec![Agent::new("Ada", "alpha", "m1"), Agent::new("Ben", "beta", "m2")],
    );
    let (_, events) = run(&room, &mut script, "Which store?");
    let completed = events
        .iter()
        .find_map(|event| match event {
            SessionEvent::SessionCompleted { usage, messages } => Some((*usage, *messages)),
            _ => None,
        })
        .expect("no session_completed event");
    assert_eq!(completed.1, 3);
    assert_eq!(completed.0.input_tokens, 20);
    assert_eq!(completed.0.output_tokens, 40);
}

#[test]
fn the_user_prompt_is_announced_before_any_agent_speaks() {
    let mut script = Script::always(&[("alpha", "A.")]);
    let room = room_with(TurnPolicy::RoundRobin, vec![Agent::new("Ada", "alpha", "m1")]);
    let (_, events) = run(&room, &mut script, "Which store?");
    match events.first().expect("no events") {
        SessionEvent::UserMessage { message } => assert_eq!(message.content, "Which store?"),
        _ => panic!("the first event was not the user message"),
    }
}

#[test]
fn requests_carry_the_agent_model_rather_than_the_provider_default() {
    let mut script = Script::always(&[("alpha", "A.")]);
    let room = room_with(TurnPolicy::RoundRobin, vec![Agent::new("Ada", "alpha", "llama3:8b")]);
    let _ = run(&room, &mut script, "Which store?");
    assert_eq!(script.requests("alpha")[0].model, "llama3:8b");
}

#[test]
fn empty_rooms_are_rejected_before_any_provider_call() {
    let mut script = Script::always(&[]);
    let room = Room::new("Empty", TurnPolicy::RoundRobin);
    let (result, events) = run(&room, &mut script, "Hello");
    assert!(matches!(result, Err(HiveError::Validation(_))));
    assert!(events.is_empty());
}

#[test]
fn blank_prompts_are_rejected() {
    let mut script = Script::always(&[("local", "A.")]);
    let mut room = Room::new("Lab", TurnPolicy::RoundRobin);
    room.agents.push(Agent::new("Scout", "local", "llama3:8b"));
    let (result, _) = run(&room, &mut script, "   ");
    assert!(result.is_err());
    assert_eq!(script.call_count("local"), 0);
}

#[test]
fn the_event_stream_frames_every_round() {
    let mut script = Script::always(&[("alpha", "A.")]);
    let mut room = room_with(TurnPolicy::RoundRobin, vec![Agent::new("Ada", "alpha", "m1")]);
    room.rounds = 2;
    let (_, events) = run(&room, &mut script, "Which store?");
    let kinds: Vec<&str> = events
        .iter()
        .map(|event| match event {
            SessionEvent::UserMessage { .. } => "user",
            SessionEvent::TurnStarted { .. } => "turn_started",
            SessionEvent::AgentStarted { .. } => "agent_started",
            SessionEvent::AgentDelta { .. } => "delta",
            SessionEvent::AgentCompleted { .. } => "agent_completed",
            SessionEvent::AgentFailed { .. } => "agent_failed",
            SessionEvent::VoteCast { .. } => "vote",
            SessionEvent::TurnCompleted { .. } => "turn_completed",
            SessionEvent::SessionCompleted { .. } => "session_completed",
        })
        .collect();
    assert_eq!(
        kinds,
        vec![
            "user",
            "turn_started",
            "agent_started",
            "delta",
            "agent_completed",
            "turn_completed",
            "turn_started",
            "agent_started",
            "delta",
            "agent_completed",
            "turn_completed",
            "session_completed",
        ]
    );
}

#[test]
fn a_report_of_another_agents_turn_is_ignored() {
    let ada = Agent::new("Ada", "alpha", "m1");
    let ben = Agent::new("Ben", "beta", "m2");
    let room = room_with(TurnPolicy::RoundRobin, vec![ada, ben.clone()]);
    let session = Session::start(&room, &[], "Which store?").unwrap();
    let (session, step) = session.next_step();
    assert!(matches!(step, Step::Emit(SessionEvent::UserMessage { .. })));
    let (session, step) = session.next_step();
    assert!(matches!(step, Step::Emit(SessionEvent::TurnStarted { round: 1, .. })));
    let (session, step) = session.next_step();
    let asked = match step {
        Step::Speak(speech) => speech,
        _ => panic!("the first speaker is asked"),
    };
    assert_eq!(asked.agent().name, "Ada");

    let intruder = Speech::new(&room, &ben, &[], None, 1);
    let (intruder, _) = intruder.on_chunk(ChatChunk::Delta("I answer for Ada.".to_string()));
    let (spoken, _) = intruder.finish(Ok(()));
    let session = session.spoke(spoken);
    let (session, step) = session.next_step();
    assert!(matches!(step, Step::Waiting));

    let (asked, _) = asked.on_chunk(ChatChunk::Delta("SQLite.".to_string()));
    let (spoken, _) = asked.finish(Ok(()));
    let session = session.spoke(spoken);
    let (_, step) = session.next_step();
    match step {
        Step::Speak(speech) => assert_eq!(speech.agent().name, "Ben"),
        _ => panic!("the second speaker is asked next"),
    }
}

#[test]
fn every_delta_is_forwarded_as_it_arrives() {
    let ada = Agent::new("Ada", "alpha", "m1");
    let room = room_with(TurnPolicy::RoundRobin, vec![ada.clone()]);
    let speech = Speech::new(&room, &ada, &[], None, 1);
    let mut shown = Vec::new();
    let mut speech = speech;
    for delta in ["", "Ad", "a: I", "", " favour SQLite."] {
        let (next, event) = speech.on_chunk(ChatChunk::Delta(delta.to_string()));
        speech = next;
        match event {
            Some(SessionEvent::AgentDelta { agent_id, text }) => {
                assert_eq!(agent_id, ada.id);
                shown.push(text);
            }
            _ => panic!("every delta is forwarded"),
        }
    }
    assert_eq!(shown, vec!["", "", "I", "", " favour SQLite."]);
}
