//! The terminal protocol spoken over a WebSocket: which connections are let
//! in, what a command is answered with, and when a silent connection is
//! dropped.
//!
//! Times are milliseconds (see `clock`).
use vstd::prelude::*;
use vstd::string::StringExecFns;

use crate::auth_middleware::{accepts, first_accepted, first_token_param, form_pairs, TokenParam};
use crate::token_manager::{text_accepted, TokenEntry, TokenManager};
use crate::text::starts_with;

verus! {

/// Time after which a connection without a heartbeat is closed (60 s).
pub const HEARTBEAT_TIMEOUT_MILLIS: u128 = 60000;

/// A command sent by the terminal.
pub struct TerminalCommand {
    pub command: String,
    pub args: Vec<String>,
    pub working_dir: Option<String>,
}

/// Output sent back to the terminal.
pub struct TerminalOutput {
    pub output: String,
    pub is_error: bool,
    pub exit_code: Option<i32>,
}

/// Each of `parts` after a space.
pub open spec fn spaced(parts: Seq<String>) -> Seq<char>
    decreases parts.len(),
{
    if parts.len() == 0 {
        Seq::empty()
    } else {
        spaced(parts.drop_last()) + " "@ + parts.last()@
    }
}

/// The command line of a command: the command, then its arguments, each
/// after a space.
pub open spec fn command_line_text(command: Seq<char>, args: Seq<String>) -> Seq<char> {
    command + spaced(args)
}

/// The messages a command is answered with, in order.
pub open spec fn command_replies(command: Seq<char>, args: Seq<String>) -> Seq<Seq<char>> {
    seq![
        "stdout:Executing: "@ + command_line_text(command, args) + "\n"@,
        "stdout:Command '"@ + command + "' completed successfully\n"@,
        "exit:0"@,
    ]
}

impl TerminalCommand {
    /// The command line: the command followed by its arguments.
    pub fn command_line(&self) -> (line: String)
        ensures
            line@ == command_line_text(self.command@, self.args@),
    {
        let mut line = self.command.clone();
        let n = self.args.len();
        let mut i: usize = 0;
        while i < n
            invariant
                n == self.args@.len(),
                i <= n,
                line@ == self.command@ + spaced(self.args@.take(i as int)),
            decreases n - i,
        {
            line.append(" ");
            line.append(self.args[i].as_str());
            proof {
                let next = self.args@.take(i + 1);
                assert(next.drop_last() =~= self.args@.take(i as int));
                assert(next.last() == self.args@[i as int]);
            }
            i = i + 1;
        }
        assert(self.args@.take(n as int) =~= self.args@);
        line
    }

    /// The messages the command is answered with.
    pub fn replies(&self) -> (messages: Vec<String>)
        ensures
            messages@.len() == 3,
            forall|k: int| 0 <= k < 3 ==> #[trigger] messages@[k]@ == command_replies(
                self.command@,
                self.args@,
            )[k],
    {
        let mut executing = String::from_str("stdout:Executing: ");
        executing.append(self.command_line().as_str());
        executing.append("\n");
        let mut completed = String::from_str("stdout:Command '");
        completed.append(self.command.as_str());
        completed.append("' completed successfully\n");
        let exit = String::from_str("exit:0");
        vec![executing, completed, exit]
    }
}

/// The reply to terminal input that is not a command.
pub fn echo_reply(text: &str) -> (reply: String)
    ensures
        reply@ == "echo:"@ + text@,
{
    let mut reply = String::from_str("echo:");
    reply.append(text);
    reply
}

/// Whether a connection whose last heartbeat came at `last_beat` has timed
/// out at `now`: more than a minute has passed.
pub fn heartbeat_timed_out(last_beat: u128, now: u128) -> (timed_out: bool)
    ensures
        timed_out == (now > last_beat + HEARTBEAT_TIMEOUT_MILLIS),
{
    now > last_beat && now - last_beat > HEARTBEAT_TIMEOUT_MILLIS
}

/// Whether a header value is `Bearer ` followed by the token.
pub open spec fn bearer_of(header: Seq<char>) -> Option<Seq<char>> {
    if header.len() >= 7 && header.subrange(0, 7) == "Bearer "@ {
        Some(header.subrange(7, header.len() as int))
    } else {
        None
    }
}

/// Whether a WebSocket connection is let in at time `now`: the bearer token
/// of its Authorization header, or else the first `token` parameter of its
/// query string, opens it.
pub open spec fn connection_allowed(
    tokens: Map<u128, TokenEntry>,
    authorization: Option<Seq<char>>,
    query: Option<Seq<char>>,
    now: u128,
) -> bool {
    ||| (authorization matches Some(h) && bearer_of(h) matches Some(t) && text_accepted(
        tokens,
        t,
        now,
    ))
    ||| (query matches Some(q) && first_accepted(form_pairs(q), accepts(TokenParam::Key)) matches Some(
        t,
    ) && text_accepted(tokens, t, now))
}

/// Decides at time `now` whether a WebSocket connection is let in.
pub fn websocket_allowed_at(
    manager: &TokenManager,
    authorization: Option<&str>,
    query: Option<&str>,
    now: u128,
) -> (allowed: bool)
    requires
        manager.wf(),
    ensures
        allowed == connection_allowed(
            manager.tokens(),
            crate::text::str_text(authorization),
            crate::text::str_text(query),
            now,
        ),
{
    proof {
        reveal_strlit("Bearer ");
    }
    if let Some(header) = authorization {
        if starts_with(header, "Bearer ") {
            let n = header.unicode_len();
            let token = header.substring_char(7, n);
            if manager.accepts_text_at(token, now).is_some() {
                return true;
            }
        }
    }
    if let Some(q) = query {
        if let Some(token) = first_token_param(q, TokenParam::Key) {
            return manager.accepts_text_at(token.as_str(), now).is_some();
        }
    }
    false
}

/// A message that arrives on a terminal connection, once read.
pub enum SocketEvent {
    Ping(Vec<u8>),
    Pong,
    /// A text message that reads as a command.
    Command(TerminalCommand),
    /// A text message that does not.
    Text(String),
    Binary(usize),
    Close,
    /// Any other frame.
    Other,
}

/// What the connection does in answer.
pub enum SocketAction {
    /// Answer a ping with the same payload.
    Pong(Vec<u8>),
    /// Send these messages, in order.
    Send(Vec<String>),
    /// Close the connection.
    Close,
    /// Nothing.
    Nothing,
}

/// Handles one message at time `now` on a connection whose last heartbeat
/// came at `last_beat`: what to do, and the time of the last heartbeat
/// afterwards. Pings and pongs count as heartbeats; a command is run and
/// answered, other text is echoed.
pub fn handle_event(event: SocketEvent, last_beat: u128, now: u128) -> (answer: (SocketAction, u128))
    ensures
        match event {
            SocketEvent::Ping(p) => answer.0 matches SocketAction::Pong(q) && q@ == p@ && answer.1
                == now,
            SocketEvent::Pong => answer.0 is Nothing && answer.1 == now,
            SocketEvent::Command(c) => answer.0 matches SocketAction::Send(m) && m@.len() == 3
                && (forall|k: int|
                0 <= k < 3 ==> #[trigger] m@[k]@ == command_replies(c.command@, c.args@)[k])
                && answer.1 == last_beat,
            SocketEvent::Text(t) => answer.0 matches SocketAction::Send(m) && m@.len() == 1
                && m@[0]@ == "echo:"@ + t@ && answer.1 == last_beat,
            SocketEvent::Binary(_) => answer.0 is Nothing && answer.1 == last_beat,
            SocketEvent::Close => answer.0 is Close && answer.1 == last_beat,
            SocketEvent::Other => answer.0 is Nothing && answer.1 == last_beat,
        },
{
    match event {
        SocketEvent::Ping(payload) => (SocketAction::Pong(payload), now),
        SocketEvent::Pong => (SocketAction::Nothing, now),
        SocketEvent::Command(command) => (SocketAction::Send(command.replies()), last_beat),
        SocketEvent::Text(text) => (SocketAction::Send(vec![echo_reply(text.as_str())]), last_beat),
        SocketEvent::Binary(_) => (SocketAction::Nothing, last_beat),
        SocketEvent::Close => (SocketAction::Close, last_beat),
        SocketEvent::Other => (SocketAction::Nothing, last_beat),
    }
}


/// A WebSocket connection is let in only with a token that is valid at the
/// time of the request: the bearer token of the Authorization header, or the
/// first `token` parameter of the query string, names a stored token whose
/// expiry has not passed by `now`. In particular, when every stored token has expired by `now`, no
/// connection is let in.
pub proof fn law_connection_needs_live_token(
    tokens: Map<u128, TokenEntry>,
    authorization: Option<Seq<char>>,
    query: Option<Seq<char>>,
    now: u128,
)
    requires
        connection_allowed(tokens, authorization, query, now),
    ensures
        ({
            let live = |text: Seq<char>|
                crate::ids::uuid_parse(text) is Some && tokens.contains_key(
                    crate::ids::uuid_parse(text)->Some_0,
                ) && now <= tokens[crate::ids::uuid_parse(text)->Some_0].expires_at;
            ||| (authorization matches Some(h) && bearer_of(h) matches Some(t) && live(t))
            ||| (query matches Some(q) && first_accepted(form_pairs(q), accepts(TokenParam::Key))
                matches Some(t) && live(t))
        }),
{
    if authorization matches Some(h) && bearer_of(h) matches Some(t) && text_accepted(tokens, t, now) {
        let t = bearer_of(authorization->Some_0)->Some_0;
        assert(crate::ids::uuid_parse(t) is Some);
    } else {
        let t = first_accepted(form_pairs(query->Some_0), accepts(TokenParam::Key))->Some_0;
        assert(crate::ids::uuid_parse(t) is Some);
    }
}

} // verus!
