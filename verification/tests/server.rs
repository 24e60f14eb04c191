use hive_core::cli::{colour_for, copy_title, describe_window, parse_policy, suffix, Renderer};
use hive_core::config::{ProviderConfig, ProviderKind};
use hive_core::error::HiveError;
use hive_core::model::{Message, Room, TokenUsage, TurnPolicy};
use hive_core::server::{
    bearer_token, constant_time_eq, display_label, export_limit, token_matches, validate_providers,
    AgentInput, ApiError, PolicyView, ProviderView, RoomClaims, RoomInput, MAX_CONCURRENT_TURNS,
};
use hive_core::server::render_markdown;
use hive_core::turn::SessionEvent;

#[test]
fn bearer_tokens_are_extracted_regardless_of_scheme_case() {
    assert_eq!(bearer_token("Bearer abc123").as_deref(), Some("abc123"));
    assert_eq!(bearer_token("bearer  abc123 ").as_deref(), Some("abc123"));
    assert_eq!(bearer_token("BEARER abc123").as_deref(), Some("abc123"));
}

#[test]
fn other_schemes_are_ignored() {
    assert_eq!(bearer_token("Basic abc123"), None);
    assert_eq!(bearer_token("abc123"), None);
}

#[test]
fn token_check_is_open_when_no_token_is_configured() {
    assert!(token_matches(&None, None));
}

#[test]
fn token_check_rejects_wrong_and_missing_tokens() {
    let expected = Some("s3cret".to_string());
    assert!(token_matches(&expected, Some("s3cret")));
    assert!(!token_matches(&expected, Some("s3cre")));
    assert!(!token_matches(&expected, Some("wrong!")));
    assert!(!token_matches(&expected, None));
    assert!(constant_time_eq(b"abc", b"abc"));
    assert!(!constant_time_eq(b"abc", b"abd"));
}

#[test]
fn a_room_admits_only_one_turn_at_a_time() {
    let mut claims = RoomClaims::new();
    assert!(claims.claim("room-a"));
    assert!(!claims.claim("room-a"));
    assert!(claims.claim("room-b"));
}

#[test]
fn releasing_a_claim_lets_the_next_turn_in() {
    let mut claims = RoomClaims::new();
    assert!(claims.claim("room-a"));
    claims.release("room-a");
    assert!(!claims.is_claimed("room-a"));
    assert!(claims.claim("room-a"));
}

#[test]
fn concurrent_turns_are_capped() {
    let mut claims = RoomClaims::new();
    for index in 0..MAX_CONCURRENT_TURNS {
        assert!(claims.claim(&format!("room-{index}")));
    }
    assert!(!claims.claim("one-too-many"));
    assert_eq!(claims.held(), MAX_CONCURRENT_TURNS);
}

#[test]
fn core_errors_map_onto_meaningful_status_codes() {
    let cases = [
        (HiveError::Validation("bad".into()), 400),
        (HiveError::UnknownRoom("r".into()), 404),
        (HiveError::MissingCredential("K".into()), 424),
        (HiveError::Network("timeout".into()), 502),
        (HiveError::Storage("disk".into()), 500),
    ];
    for (error, expected) in cases {
        assert_eq!(ApiError::from(error).status, expected);
    }
}

#[test]
fn missing_credential_errors_do_not_leak_the_value() {
    let message = ApiError::from(HiveError::MissingCredential("HIVEMIND_KEY_X".into())).error;
    assert!(message.contains("HIVEMIND_KEY_X"));
    assert!(!message.contains("sk-"));
    assert_eq!(ApiError::unauthorized().status, 401);
}

fn input() -> RoomInput {
    RoomInput {
        name: "Lab".into(),
        topic: "Databases".into(),
        policy: TurnPolicy::Debate,
        rounds: 2,
        context_limit: None,
        moderator_id: None,
        agents: vec![AgentInput {
            id: None,
            name: "Scout".into(),
            provider_id: "local".into(),
            model: "llama3:8b".into(),
            persona: "You favour simplicity.".into(),
            temperature_bits: Some(0.4f32.to_bits()),
            max_tokens: Some(256),
            colour: Some("#8ab4f8".into()),
            reasoning: false,
            enabled: true,
        }],
    }
}

#[test]
fn room_input_applies_defaults_and_overrides() {
    let room = input().into_room(None);
    assert_eq!(room.policy, TurnPolicy::Debate);
    assert_eq!(room.rounds, 2);
    assert_eq!(f32::from_bits(room.agents[0].temperature_bits), 0.4);
    assert_eq!(room.agents[0].max_tokens, 256);
    assert_eq!(room.agents[0].colour, "#8ab4f8");
    assert_eq!(room.context_limit, 40);
}

#[test]
fn updating_a_room_keeps_its_identity() {
    let existing = input().into_room(None);
    let mut changed = input();
    changed.name = "Lab v2".into();
    changed.context_limit = Some(0);
    let updated = changed.into_room(Some(&existing));
    assert_eq!(updated.id, existing.id);
    assert_eq!(updated.created_at, existing.created_at);
    assert_eq!(updated.name, "Lab v2");
    assert_eq!(updated.context_limit, 0);
}

#[test]
fn agents_referencing_unknown_providers_are_rejected() {
    let known = vec!["local".to_string()];
    let mut room = input().into_room(None);
    assert!(validate_providers(&known, &room).is_ok());

    room.agents[0].provider_id = "does-not-exist".into();
    let error = validate_providers(&known, &room).unwrap_err();
    assert_eq!(error.status, 400);
    assert!(error.error.contains("does-not-exist"));
}

#[test]
fn provider_view_reports_credential_availability_without_the_value() {
    let cloud = ProviderConfig::new("anthropic-main", ProviderKind::Anthropic)
        .with_key_env("HIVEMIND_TEST_UNSET_KEY");
    let view = ProviderView::of(&cloud, None);
    assert_eq!(view.credential_env.as_deref(), Some("HIVEMIND_TEST_UNSET_KEY"));
    assert!(!view.credential_available);
    assert!(!view.local);
    assert_eq!(view.label, "anthropic-main");
    let local = ProviderView::of(&ProviderConfig::new("local", ProviderKind::Ollama), None);
    assert!(local.credential_available);
    assert!(local.local);
}

#[test]
fn blank_labels_fall_back_to_the_id() {
    let mut provider = ProviderConfig::new("local", ProviderKind::Ollama);
    assert_eq!(display_label(&provider), "local");
    provider.label = "Ollama (local)".into();
    assert_eq!(display_label(&provider), "Ollama (local)");
}

#[test]
fn markdown_export_contains_the_header_and_every_turn() {
    let room = input().into_room(None);
    let messages = vec![
        Message::from_user(&room.id, "Which database?"),
        Message::from_agent(&room.id, &room.agents[0], "SQLite.", 1),
    ];
    let markdown = render_markdown(&room, &messages);
    assert!(markdown.starts_with("# Lab"));
    assert!(markdown.contains("**Topic:** Databases"));
    assert!(markdown.contains("**Policy:** debate · **Rounds:** 2 · **Agents:** Scout"));
    assert!(markdown.contains("### Scout"));
    assert!(markdown.contains("SQLite."));
    assert!(markdown.contains(" UTC\n\n"));
}

#[test]
fn every_policy_is_described_for_the_ui() {
    let policies: Vec<PolicyView> = TurnPolicy::all().into_iter().map(PolicyView::of).collect();
    assert_eq!(policies.len(), 5);
    assert!(policies.iter().all(|p| !p.summary.is_empty()));
    assert_eq!(policies[1].id, "round_robin");
}

#[test]
fn export_limits_are_held_in_range() {
    assert_eq!(export_limit(None), 500);
    assert_eq!(export_limit(Some(0)), 1);
    assert_eq!(export_limit(Some(9000)), 5000);
}

#[test]
fn known_policies_parse() {
    assert_eq!(parse_policy("debate").unwrap(), TurnPolicy::Debate);
    assert_eq!(parse_policy("round_robin").unwrap(), TurnPolicy::RoundRobin);
}

#[test]
fn an_unknown_policy_lists_the_valid_ones() {
    let error = parse_policy("shouting_match").unwrap_err();
    assert!(error.contains("shouting_match"));
    assert!(error.contains("consensus"));
    assert_eq!(
        error,
        "unknown policy 'shouting_match'. Valid policies: parallel, round_robin, debate, moderated, consensus"
    );
}

#[test]
fn a_rationale_is_appended_only_when_present() {
    assert_eq!(suffix("  "), "");
    assert_eq!(suffix(" it is simpler "), " (it is simpler)");
}

#[test]
fn the_renderer_tracks_whether_a_line_is_open() {
    let mut renderer = Renderer::default();
    assert!(!renderer.is_speaking());

    let out = renderer.handle(&SessionEvent::AgentStarted {
        agent_id: "a".into(),
        agent_name: "Scout".into(),
        colour: "#fff".into(),
        round: 1,
    });
    assert_eq!(out, "\x1b[1mScout:\x1b[0m ");
    assert!(renderer.is_speaking());

    let out = renderer.handle(&SessionEvent::TurnCompleted { round: 1 });
    assert_eq!(out, "\n");
    assert!(!renderer.is_speaking());
}

#[test]
fn every_event_kind_is_handled_without_panicking() {
    let mut renderer = Renderer::default();
    let events = [
        SessionEvent::TurnStarted {
            round: 1,
            rounds: 2,
            policy: TurnPolicy::Debate,
            speakers: vec!["Scout".into(), "Vera".into()],
        },
        SessionEvent::AgentDelta { agent_id: "a".into(), text: "hello".into() },
        SessionEvent::AgentFailed {
            agent_id: "a".into(),
            agent_name: "Scout".into(),
            error: "timeout".into(),
        },
        SessionEvent::VoteCast {
            agent_id: "a".into(),
            agent_name: "Scout".into(),
            choice: "SQLite".into(),
            rationale: String::new(),
        },
        SessionEvent::SessionCompleted { messages: 3, usage: TokenUsage::default() },
    ];
    let printed: Vec<String> = events.iter().map(|e| renderer.handle(e)).collect();
    assert_eq!(printed[0], "\x1b[2mround 1/2 · debate · Scout → Vera\x1b[0m\n");
    assert_eq!(printed[1], "hello");
    assert_eq!(printed[2], "\x1b[31mScout could not answer: timeout\x1b[0m\n");
    assert_eq!(printed[3], "\x1b[1mScout votes:\x1b[0m SQLite\n");
    assert_eq!(
        printed[4],
        "\x1b[2m3 messages · 0 input tokens · 0 output tokens\x1b[0m\n"
    );
}

#[test]
fn room_subcommand_defaults() {
    assert_eq!(colour_for(0), "#e8b339");
    assert_eq!(colour_for(2), "#59c08a");
    assert_eq!(colour_for(6), "#e8b339");
    assert_eq!(describe_window(0), "whole transcript");
    assert_eq!(describe_window(25), "last 25 messages");
    assert_eq!(copy_title("Lab", None), "Lab (copy)");
    assert_eq!(copy_title("Lab", Some("Fork")), "Fork");
    let room = Room::new("Lab", TurnPolicy::RoundRobin);
    assert_eq!(room.context_limit, 40);
}
