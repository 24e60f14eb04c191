//! The terminal client's decisions: how events read as a transcript, how a
//! policy name is understood, and the small defaults of its subcommands.

use vstd::prelude::*;

use crate::model::{all_policies, policy_from_text, policy_text, TurnPolicy};
use crate::text::{blank, decimal, decimal_string, is_blank, join, join_strings, trim, trimmed};
use crate::turn::SessionEvent;

verus! {

/// Starts bold text on an ANSI terminal.
pub const BOLD: &'static str = "\x1b[1m";

/// Starts dim text.
pub const DIM: &'static str = "\x1b[2m";

/// Starts red text.
pub const RED: &'static str = "\x1b[31m";

/// Ends the styling.
pub const RESET: &'static str = "\x1b[0m";

/// The rationale of a vote as shown after the choice: trimmed and in
/// parentheses, or nothing when there is none.
pub open spec fn suffix_text(rationale: Seq<char>) -> Seq<char> {
    if blank(rationale) {
        Seq::empty()
    } else {
        " ("@ + trim(rationale) + ")"@
    }
}

pub fn suffix(rationale: &str) -> (s: String)
    ensures
        s@ == suffix_text(rationale@),
{
    if is_blank(rationale) {
        String::new()
    } else {
        let mut s = " (".to_owned();
        s.append(trimmed(rationale).as_str());
        s.append(")");
        s
    }
}

/// What closing an open speaker line prints.
pub open spec fn close_text(speaking: bool) -> Seq<char> {
    if speaking {
        "\n"@
    } else {
        Seq::empty()
    }
}

/// What an event prints, and whether a speaker's line is open afterwards.
pub open spec fn rendered(speaking: bool, event: SessionEvent) -> (Seq<char>, bool) {
    match event {
        SessionEvent::UserMessage { message } => (
            close_text(speaking) + BOLD@ + "you:"@ + RESET@ + " "@ + message.content@ + "\n"@,
            false,
        ),
        SessionEvent::TurnStarted { round, rounds, policy, speakers } => (
            close_text(speaking) + DIM@ + "round "@ + decimal(round as nat) + "/"@ + decimal(
                rounds as nat,
            ) + " · "@ + policy_text(policy) + " · "@ + join(
                speakers@.map_values(|s: String| s@),
                " → "@,
            ) + RESET@ + "\n"@,
            false,
        ),
        SessionEvent::AgentStarted { agent_name, .. } => (
            close_text(speaking) + BOLD@ + agent_name@ + ":"@ + RESET@ + " "@,
            true,
        ),
        SessionEvent::AgentDelta { text, .. } => (text@, speaking),
        SessionEvent::AgentCompleted { .. } => (close_text(speaking), false),
        SessionEvent::AgentFailed { agent_name, error, .. } => (
            close_text(speaking) + RED@ + agent_name@ + " could not answer: "@ + error@ + RESET@
                + "\n"@,
            false,
        ),
        SessionEvent::VoteCast { agent_name, choice, rationale, .. } => (
            close_text(speaking) + BOLD@ + agent_name@ + " votes:"@ + RESET@ + " "@ + choice@
                + suffix_text(rationale@) + "\n"@,
            false,
        ),
        SessionEvent::TurnCompleted { .. } => (close_text(speaking), false),
        SessionEvent::SessionCompleted { messages, usage } => (
            close_text(speaking) + DIM@ + decimal(messages as nat) + " messages · "@ + decimal(
                usage.input_tokens as nat,
            ) + " input tokens · "@ + decimal(usage.output_tokens as nat)
                + " output tokens"@ + RESET@ + "\n"@,
            false,
        ),
    }
}

/// Renders orchestrator events as a readable terminal transcript.
pub struct Renderer {
    /// Whether the current speaker's line is still open, so the next event
    /// knows if it has to break the line first.
    speaking: bool,
}

impl Default for Renderer {
    fn default() -> (r: Self)
        ensures
            !r.line_open(),
    {
        Renderer { speaking: false }
    }
}

impl Renderer {
    /// Whether a speaker's line is open.
    pub closed spec fn line_open(&self) -> bool {
        self.speaking
    }

    pub fn is_speaking(&self) -> (b: bool)
        ensures
            b == self.line_open(),
    {
        self.speaking
    }

    /// The text an event prints.
    pub fn handle(&mut self, event: &SessionEvent) -> (out: String)
        ensures
            (out@, final(self).line_open()) == rendered(old(self).line_open(), *event),
    {
        match event {
            SessionEvent::UserMessage { message } => {
                let mut out = self.close_line();
                out.append(BOLD);
                out.append("you:");
                out.append(RESET);
                out.append(" ");
                out.append(message.content.as_str());
                out.append("\n");
                out
            },
            SessionEvent::TurnStarted { round, rounds, policy, speakers } => {
                let mut out = self.close_line();
                out.append(DIM);
                out.append("round ");
                out.append(decimal_string(*round as u64).as_str());
                out.append("/");
                out.append(decimal_string(*rounds as u64).as_str());
                out.append(" · ");
                out.append(policy.as_str());
                out.append(" · ");
                out.append(join_strings(speakers, " → ").as_str());
                out.append(RESET);
                out.append("\n");
                out
            },
            SessionEvent::AgentStarted { agent_name, .. } => {
                let mut out = self.close_line();
                out.append(BOLD);
                out.append(agent_name.as_str());
                out.append(":");
                out.append(RESET);
                out.append(" ");
                self.speaking = true;
                out
            },
            SessionEvent::AgentDelta { text, .. } => text.clone(),
            SessionEvent::AgentCompleted { .. } => self.close_line(),
            SessionEvent::AgentFailed { agent_name, error, .. } => {
                let mut out = self.close_line();
                out.append(RED);
                out.append(agent_name.as_str());
                out.append(" could not answer: ");
                out.append(error.as_str());
                out.append(RESET);
                out.append("\n");
                out
            },
            SessionEvent::VoteCast { agent_name, choice, rationale, .. } => {
                let mut out = self.close_line();
                out.append(BOLD);
                out.append(agent_name.as_str());
                out.append(" votes:");
                out.append(RESET);
                out.append(" ");
                out.append(choice.as_str());
                out.append(suffix(rationale.as_str()).as_str());
                out.append("\n");
                out
            },
            SessionEvent::TurnCompleted { .. } => self.close_line(),
            SessionEvent::SessionCompleted { messages, usage } => {
                let mut out = self.close_line();
                out.append(DIM);
                out.append(decimal_string(*messages as u64).as_str());
                out.append(" messages · ");
                out.append(decimal_string(usage.input_tokens as u64).as_str());
                out.append(" input tokens · ");
                out.append(decimal_string(usage.output_tokens as u64).as_str());
                out.append(" output tokens");
                out.append(RESET);
                out.append("\n");
                out
            },
        }
    }

    /// Breaks an open speaker line.
    fn close_line(&mut self) -> (out: String)
        ensures
            out@ == close_text(old(self).speaking),
            !final(self).speaking,
    {
        if self.speaking {
            self.speaking = false;
            "\n".to_owned()
        } else {
            String::new()
        }
    }
}

/// The error for a policy name that matches none.
pub open spec fn unknown_policy_text(raw: Seq<char>) -> Seq<char> {
    "unknown policy '"@ + raw + "'. Valid policies: "@ + join(
        all_policies().map_values(|p: TurnPolicy| policy_text(p)),
        ", "@,
    )
}

/// Parses a policy name, listing the valid ones when it does not match.
pub fn parse_policy(raw: &str) -> (r: Result<TurnPolicy, String>)
    ensures
        match policy_from_text(raw@) {
            Some(p) => r == Ok::<TurnPolicy, String>(p),
            None => r matches Err(m) && m@ == unknown_policy_text(raw@),
        },
{
    match TurnPolicy::parse(raw) {
        Ok(policy) => Ok(policy),
        Err(_) => {
            let all = TurnPolicy::all();
            let mut known: Vec<String> = Vec::new();
            let mut i: usize = 0;
            while i < all.len()
                invariant
                    i <= all@.len(),
                    all@ == all_policies(),
                    known@.map_values(|s: String| s@) == all@.take(i as int).map_values(
                        |p: TurnPolicy| policy_text(p),
                    ),
                decreases all@.len() - i,
            {
                let ghost before = known@;
                known.push(all[i].as_str().to_owned());
                assert(known@.map_values(|s: String| s@) =~= before.map_values(|s: String| s@).push(
                    policy_text(all@[i as int]),
                ));
                assert(all@.take(i + 1).map_values(|p: TurnPolicy| policy_text(p)) =~= all@.take(
                    i as int,
                ).map_values(|p: TurnPolicy| policy_text(p)).push(policy_text(all@[i as int])));
                i = i + 1;
            }
            assert(all@.take(all@.len() as int) =~= all@);
            let mut message = "unknown policy '".to_owned();
            message.append(raw);
            message.append("'. Valid policies: ");
            message.append(join_strings(&known, ", ").as_str());
            Err(message)
        },
    }
}

/// The colour handed to the agent joining a room that already holds
/// `count` agents, so the web UI can tell them apart.
pub open spec fn palette_colour(count: nat) -> Seq<char> {
    let i = count % 6;
    if i == 0 {
        "#e8b339"@
    } else if i == 1 {
        "#4f9dde"@
    } else if i == 2 {
        "#59c08a"@
    } else if i == 3 {
        "#d97757"@
    } else if i == 4 {
        "#b07be0"@
    } else {
        "#5bc0be"@
    }
}

pub fn colour_for(count: usize) -> (c: &'static str)
    ensures
        c@ == palette_colour(count as nat),
{
    let i = count % 6;
    if i == 0 {
        "#e8b339"
    } else if i == 1 {
        "#4f9dde"
    } else if i == 2 {
        "#59c08a"
    } else if i == 3 {
        "#d97757"
    } else if i == 4 {
        "#b07be0"
    } else {
        "#5bc0be"
    }
}

/// How the room overview describes a context window.
pub open spec fn window_text(limit: u32) -> Seq<char> {
    if limit == 0 {
        "whole transcript"@
    } else {
        "last "@ + decimal(limit as nat) + " messages"@
    }
}

pub fn describe_window(limit: u32) -> (s: String)
    ensures
        s@ == window_text(limit),
{
    if limit == 0 {
        "whole transcript".to_owned()
    } else {
        let mut s = "last ".to_owned();
        s.append(decimal_string(limit as u64).as_str());
        s.append(" messages");
        s
    }
}

/// The name of a duplicated room: the one given, or the original's with
/// " (copy)" appended.
pub fn copy_title(source: &str, name: Option<&str>) -> (title: String)
    ensures
        title@ == match name {
            Some(n) => n@,
            None => source@ + " (copy)"@,
        },
{
    match name {
        Some(n) => n.to_owned(),
        None => {
            let mut t = source.to_owned();
            t.append(" (copy)");
            t
        },
    }
}

} // verus!
