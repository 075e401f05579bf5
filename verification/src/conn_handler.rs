//! The per-connection protocol state machine.
//!
//! Each inbound frame is classified against the connection's state and
//! answered with a single status reply and, where the frame asks for work
//! that touches the outside world, an action for the caller to perform:
//! verifying credentials with the oracle, registering the user, fetching
//! stored messages, running a command, or relaying a message. The whole
//! transition is pinned down by [`step_spec`].

use vstd::prelude::*;
use vstd::utf8::encode_utf8;
use crate::auth::SessionVerdict;
use crate::auth::SessionVerdictView;
use crate::commands::CommandTable;
use crate::commands::table_contains;
use crate::config::ServerConfig;
use crate::config::ServerConfigView;
use crate::textutils::contains_char;
use crate::textutils::find_char;
use crate::textutils::first_index_of;
use crate::textutils::format_outgoing_message;
use crate::textutils::has_prefix;
use crate::textutils::spec_outgoing_message;
use crate::textutils::spec_trim;
use crate::textutils::split_whitespace_tokens;
use crate::textutils::split_ws;
use crate::textutils::str_equal;
use crate::textutils::str_starts_with;
use crate::textutils::trim;
use crate::validators::spec_valid_token;
use crate::validators::spec_valid_username;
use crate::validators::validate_session_token;
use crate::validators::validate_username;

verus! {

/// How many stored messages one `GET_MESSAGES` request streams back,
/// newest first.
pub const MESSAGE_PAGE_SIZE: i64 = 100;

/// How far a connection has come: waiting for the server password,
/// waiting for credentials, or authenticated as a user. Strictly
/// forward-moving; the server-password stage is skipped when that
/// protection is disabled.
#[derive(Debug, PartialEq, Eq)]
pub enum ConnState {
    AwaitingServerPassword,
    AwaitingAuth,
    Authenticated(String),
}

/// Abstract value of a [`ConnState`].
#[verifier::ext_equal]
pub enum ConnStateView {
    AwaitingServerPassword,
    AwaitingAuth,
    Authenticated(Seq<char>),
}

impl View for ConnState {
    type V = ConnStateView;

    open spec fn view(&self) -> ConnStateView {
        match self {
            ConnState::AwaitingServerPassword => ConnStateView::AwaitingServerPassword,
            ConnState::AwaitingAuth => ConnStateView::AwaitingAuth,
            ConnState::Authenticated(u) => ConnStateView::Authenticated(u@),
        }
    }
}

impl ConnState {
    /// The state of a freshly accepted connection: awaiting the server
    /// password when that protection is on, else awaiting credentials.
    pub fn initial(protect_server: bool) -> (r: ConnState)
        ensures
            r@ == (if protect_server {
                ConnStateView::AwaitingServerPassword
            } else {
                ConnStateView::AwaitingAuth
            }),
    {
        if protect_server {
            ConnState::AwaitingServerPassword
        } else {
            ConnState::AwaitingAuth
        }
    }
}

/// The single-line status replies of the wire protocol.
#[derive(Debug, PartialEq, Eq)]
pub enum Reply {
    Disconnected,
    ServerPassRequired,
    ServerPassCorrect,
    ServerPassIncorrect,
    AuthInvalid,
    AuthFailed,
    AuthSuccess,
    AuthError(String),
    AlreadyAuthenticated,
    NotAuthenticated,
    InvalidUsername,
    InvalidSessionToken,
    MessageTooLong,
    EmptyMessage,
    InvalidMessageFormat,
    ServerShutdown,
}

/// Abstract value of a [`Reply`].
#[verifier::ext_equal]
pub enum ReplyView {
    Disconnected,
    ServerPassRequired,
    ServerPassCorrect,
    ServerPassIncorrect,
    AuthInvalid,
    AuthFailed,
    AuthSuccess,
    AuthError(Seq<char>),
    AlreadyAuthenticated,
    NotAuthenticated,
    InvalidUsername,
    InvalidSessionToken,
    MessageTooLong,
    EmptyMessage,
    InvalidMessageFormat,
    ServerShutdown,
}

impl View for Reply {
    type V = ReplyView;

    open spec fn view(&self) -> ReplyView {
        match self {
            Reply::Disconnected => ReplyView::Disconnected,
            Reply::ServerPassRequired => ReplyView::ServerPassRequired,
            Reply::ServerPassCorrect => ReplyView::ServerPassCorrect,
            Reply::ServerPassIncorrect => ReplyView::ServerPassIncorrect,
            Reply::AuthInvalid => ReplyView::AuthInvalid,
            Reply::AuthFailed => ReplyView::AuthFailed,
            Reply::AuthSuccess => ReplyView::AuthSuccess,
            Reply::AuthError(m) => ReplyView::AuthError(m@),
            Reply::AlreadyAuthenticated => ReplyView::AlreadyAuthenticated,
            Reply::NotAuthenticated => ReplyView::NotAuthenticated,
            Reply::InvalidUsername => ReplyView::InvalidUsername,
            Reply::InvalidSessionToken => ReplyView::InvalidSessionToken,
            Reply::MessageTooLong => ReplyView::MessageTooLong,
            Reply::EmptyMessage => ReplyView::EmptyMessage,
            Reply::InvalidMessageFormat => ReplyView::InvalidMessageFormat,
            Reply::ServerShutdown => ReplyView::ServerShutdown,
        }
    }
}

/// The newline-terminated wire form of a reply.
pub open spec fn spec_reply_line(r: ReplyView) -> Seq<char> {
    match r {
        ReplyView::Disconnected => "DISCONNECTED\n"@,
        ReplyView::ServerPassRequired => "SERVER_PASS_REQUIRED\n"@,
        ReplyView::ServerPassCorrect => "SERVER_PASS_CORRECT\n"@,
        ReplyView::ServerPassIncorrect => "SERVER_PASS_INCORRECT\n"@,
        ReplyView::AuthInvalid => "AUTH_INVALID\n"@,
        ReplyView::AuthFailed => "AUTH_FAILED\n"@,
        ReplyView::AuthSuccess => "AUTH_SUCCESS\n"@,
        ReplyView::AuthError(m) => "AUTH_ERROR:"@ + m + "\n"@,
        ReplyView::AlreadyAuthenticated => "ALREADY_AUTHENTICATED\n"@,
        ReplyView::NotAuthenticated => "NOT_AUTHENTICATED\n"@,
        ReplyView::InvalidUsername => "INVALID_USERNAME\n"@,
        ReplyView::InvalidSessionToken => "INVALID_SESSION_TOKEN\n"@,
        ReplyView::MessageTooLong => "MESSAGE_TOO_LONG\n"@,
        ReplyView::EmptyMessage => "EMPTY_MESSAGE\n"@,
        ReplyView::InvalidMessageFormat => "INVALID_MESSAGE_FORMAT\n"@,
        ReplyView::ServerShutdown => "SERVER_SHUTDOWN\n"@,
    }
}

impl Reply {
    /// Renders the reply as its newline-terminated status line.
    pub fn line(&self) -> (r: String)
        ensures
            r@ == spec_reply_line(self@),
    {
        match self {
            Reply::Disconnected => String::from_str("DISCONNECTED\n"),
            Reply::ServerPassRequired => String::from_str("SERVER_PASS_REQUIRED\n"),
            Reply::ServerPassCorrect => String::from_str("SERVER_PASS_CORRECT\n"),
            Reply::ServerPassIncorrect => String::from_str("SERVER_PASS_INCORRECT\n"),
            Reply::AuthInvalid => String::from_str("AUTH_INVALID\n"),
            Reply::AuthFailed => String::from_str("AUTH_FAILED\n"),
            Reply::AuthSuccess => String::from_str("AUTH_SUCCESS\n"),
            Reply::AuthError(m) => {
                let mut s = String::from_str("AUTH_ERROR:");
                s.append(m.as_str());
                s.append("\n");
                s
            },
            Reply::AlreadyAuthenticated => String::from_str("ALREADY_AUTHENTICATED\n"),
            Reply::NotAuthenticated => String::from_str("NOT_AUTHENTICATED\n"),
            Reply::InvalidUsername => String::from_str("INVALID_USERNAME\n"),
            Reply::InvalidSessionToken => String::from_str("INVALID_SESSION_TOKEN\n"),
            Reply::MessageTooLong => String::from_str("MESSAGE_TOO_LONG\n"),
            Reply::EmptyMessage => String::from_str("EMPTY_MESSAGE\n"),
            Reply::InvalidMessageFormat => String::from_str("INVALID_MESSAGE_FORMAT\n"),
            Reply::ServerShutdown => String::from_str("SERVER_SHUTDOWN\n"),
        }
    }
}

/// The outside work a step asks its caller to perform.
#[derive(Debug, PartialEq, Eq)]
pub enum Action {
    /// Nothing beyond sending the reply.
    NoAction,
    /// Ask the identity oracle whether the credentials are valid, then
    /// feed the verdict to [`apply_auth_verdict`].
    VerifySession { username: String, session_token: String },
    /// Record the freshly authenticated user: registry entry and presence.
    RegisterUser { username: String },
    /// Stream the recently stored messages for `recipient` back.
    FetchMessages { recipient: String },
    /// Run the registered command `name` with the given arguments.
    RunCommand { name: String, args: Vec<String> },
    /// Deliver `full_message` as the recipient demands and persist the
    /// message regardless of the delivery outcome.
    Relay { recipient: String, body: String, full_message: String, timestamp: i64, sender: String },
}

/// Abstract value of an [`Action`].
#[verifier::ext_equal]
pub enum ActionView {
    NoAction,
    VerifySession { username: Seq<char>, session_token: Seq<char> },
    RegisterUser { username: Seq<char> },
    FetchMessages { recipient: Seq<char> },
    RunCommand { name: Seq<char>, args: Seq<Seq<char>> },
    Relay {
        recipient: Seq<char>,
        body: Seq<char>,
        full_message: Seq<char>,
        timestamp: int,
        sender: Seq<char>,
    },
}

impl View for Action {
    type V = ActionView;

    open spec fn view(&self) -> ActionView {
        match self {
            Action::NoAction => ActionView::NoAction,
            Action::VerifySession { username, session_token } => ActionView::VerifySession {
                username: username@,
                session_token: session_token@,
            },
            Action::RegisterUser { username } => ActionView::RegisterUser { username: username@ },
            Action::FetchMessages { recipient } => ActionView::FetchMessages {
                recipient: recipient@,
            },
            Action::RunCommand { name, args } => ActionView::RunCommand {
                name: name@,
                args: args.deep_view(),
            },
            Action::Relay { recipient, body, full_message, timestamp, sender } => ActionView::Relay {
                recipient: recipient@,
                body: body@,
                full_message: full_message@,
                timestamp: *timestamp as int,
                sender: sender@,
            },
        }
    }
}

/// The outcome of one frame: the successor state, the reply owed to the
/// sender (if any), the outside work to perform, and whether the
/// connection's loop ends.
#[derive(Debug, PartialEq, Eq)]
pub struct Step {
    pub next: ConnState,
    pub reply: Option<Reply>,
    pub action: Action,
    pub close: bool,
}

/// Abstract value of a [`Step`].
#[verifier::ext_equal]
pub struct StepView {
    pub next: ConnStateView,
    pub reply: Option<ReplyView>,
    pub action: ActionView,
    pub close: bool,
}

impl View for Step {
    type V = StepView;

    open spec fn view(&self) -> StepView {
        StepView {
            next: self.next@,
            reply: match &self.reply {
                Some(r) => Some(r@),
                None => None,
            },
            action: self.action@,
            close: self.close,
        }
    }
}

/// A step that stays in `st`, answers `r` and asks for nothing.
pub open spec fn reject_step(st: ConnStateView, r: ReplyView) -> StepView {
    StepView { next: st, reply: Some(r), action: ActionView::NoAction, close: false }
}

/// One frame at the server-password stage. Only `SERVER_PASS:<value>`
/// frames are considered; an exact match against the configured password
/// lets the connection proceed, with unlimited retries otherwise.
pub open spec fn gate_step_spec(frame: Seq<char>, cfg: ServerConfigView) -> StepView {
    if has_prefix(frame, "SERVER_PASS:"@) {
        let value = spec_trim(frame.skip("SERVER_PASS:"@.len() as int));
        if value == cfg.server_password {
            StepView {
                next: ConnStateView::AwaitingAuth,
                reply: Some(ReplyView::ServerPassCorrect),
                action: ActionView::NoAction,
                close: false,
            }
        } else {
            reject_step(ConnStateView::AwaitingServerPassword, ReplyView::ServerPassIncorrect)
        }
    } else {
        reject_step(ConnStateView::AwaitingServerPassword, ReplyView::ServerPassRequired)
    }
}

/// One frame while awaiting credentials. Only `AUTH:<username>:<token>`
/// advances; the token may itself embed colons and is trimmed. In online
/// mode the oracle decides, so the step asks for a verification; in
/// offline mode a syntactically valid pair authenticates at once.
pub open spec fn auth_step_spec(frame: Seq<char>, cfg: ServerConfigView) -> StepView {
    let st = ConnStateView::AwaitingAuth;
    if has_prefix(frame, "AUTH:"@) {
        let rest = frame.skip("AUTH:"@.len() as int);
        if !contains_char(rest, ':') {
            reject_step(st, ReplyView::AuthInvalid)
        } else {
            let username = rest.subrange(0, first_index_of(rest, ':'));
            let token = spec_trim(rest.skip(first_index_of(rest, ':') + 1));
            if !spec_valid_username(username) {
                reject_step(st, ReplyView::InvalidUsername)
            } else if !spec_valid_token(token) {
                reject_step(st, ReplyView::InvalidSessionToken)
            } else if cfg.online_mode {
                StepView {
                    next: st,
                    reply: None,
                    action: ActionView::VerifySession { username, session_token: token },
                    close: false,
                }
            } else {
                StepView {
                    next: ConnStateView::Authenticated(username),
                    reply: Some(ReplyView::AuthSuccess),
                    action: ActionView::RegisterUser { username },
                    close: false,
                }
            }
        }
    } else {
        reject_step(st, ReplyView::NotAuthenticated)
    }
}

/// One frame of an authenticated user. A further `AUTH` is rejected;
/// frames over 256 bytes and empty frames or bodies are rejected;
/// `GET_MESSAGES:<recipient>` asks for a replay; a body led by the `!`
/// sigil whose first whitespace token is a registered command name runs
/// that command; every other `<recipient>:<body>` frame is relayed and
/// persisted, with no reply to the sender.
pub open spec fn message_step_spec(
    user: Seq<char>,
    frame: Seq<char>,
    commands: Seq<Seq<char>>,
    now: int,
) -> StepView {
    let st = ConnStateView::Authenticated(user);
    if has_prefix(frame, "AUTH:"@) {
        reject_step(st, ReplyView::AlreadyAuthenticated)
    } else if encode_utf8(frame).len() > 256 {
        reject_step(st, ReplyView::MessageTooLong)
    } else if frame.len() == 0 {
        reject_step(st, ReplyView::EmptyMessage)
    } else if has_prefix(frame, "GET_MESSAGES:"@) {
        let recipient = spec_trim(frame.skip("GET_MESSAGES:"@.len() as int));
        StepView {
            next: st,
            reply: None,
            action: ActionView::FetchMessages { recipient },
            close: false,
        }
    } else if !contains_char(frame, ':') {
        reject_step(st, ReplyView::InvalidMessageFormat)
    } else {
        let recipient = frame.subrange(0, first_index_of(frame, ':'));
        let body = frame.skip(first_index_of(frame, ':') + 1);
        if body.len() == 0 {
            reject_step(st, ReplyView::EmptyMessage)
        } else if body[0] == '!' && table_contains(commands, split_ws(body)[0]) {
            StepView {
                next: st,
                reply: None,
                action: ActionView::RunCommand {
                    name: split_ws(body)[0],
                    args: split_ws(body).drop_first(),
                },
                close: false,
            }
        } else {
            StepView {
                next: st,
                reply: None,
                action: ActionView::Relay {
                    recipient,
                    body,
                    full_message: spec_outgoing_message(user, recipient, body, now),
                    timestamp: now,
                    sender: user,
                },
                close: false,
            }
        }
    }
}

/// One frame in any state. A trimmed `DISCONNECT` ends the loop
/// gracefully from every state; otherwise the state decides.
pub open spec fn step_spec(
    st: ConnStateView,
    frame: Seq<char>,
    cfg: ServerConfigView,
    commands: Seq<Seq<char>>,
    now: int,
) -> StepView {
    if spec_trim(frame) == "DISCONNECT"@ {
        StepView {
            next: st,
            reply: Some(ReplyView::Disconnected),
            action: ActionView::NoAction,
            close: true,
        }
    } else {
        match st {
            ConnStateView::AwaitingServerPassword => gate_step_spec(frame, cfg),
            ConnStateView::AwaitingAuth => auth_step_spec(frame, cfg),
            ConnStateView::Authenticated(user) => message_step_spec(user, frame, commands, now),
        }
    }
}

/// Classifies one inbound frame against the connection's state and the
/// configuration, with `now` as the timestamp given to a relayed message.
pub fn process_frame(
    st: &ConnState,
    frame: &str,
    cfg: &ServerConfig,
    commands: &CommandTable,
    now: i64,
) -> (s: Step)
    ensures
        s@ == step_spec(st@, frame@, cfg@, commands@, now as int),
{
    let trimmed = trim(frame);
    if str_equal(trimmed, "DISCONNECT") {
        let next = match st {
            ConnState::AwaitingServerPassword => ConnState::AwaitingServerPassword,
            ConnState::AwaitingAuth => ConnState::AwaitingAuth,
            ConnState::Authenticated(u) => ConnState::Authenticated(u.clone()),
        };
        return Step { next, reply: Some(Reply::Disconnected), action: Action::NoAction, close: true };
    }
    match st {
        ConnState::AwaitingServerPassword => process_gate_frame(frame, cfg),
        ConnState::AwaitingAuth => process_auth_frame(frame, cfg),
        ConnState::Authenticated(u) => process_message_frame(u, frame, commands, now),
    }
}

fn process_gate_frame(frame: &str, cfg: &ServerConfig) -> (s: Step)
    ensures
        s@ == gate_step_spec(frame@, cfg@),
{
    if str_starts_with(frame, "SERVER_PASS:") {
        let plen = "SERVER_PASS:".unicode_len();
        let n = frame.unicode_len();
        let value = trim(frame.substring_char(plen, n));
        proof {
            assert(frame@.subrange("SERVER_PASS:"@.len() as int, frame@.len() as int) =~= frame@.skip(
                "SERVER_PASS:"@.len() as int,
            ));
        }
        if str_equal(value, cfg.server_password.as_str()) {
            Step {
                next: ConnState::AwaitingAuth,
                reply: Some(Reply::ServerPassCorrect),
                action: Action::NoAction,
                close: false,
            }
        } else {
            Step {
                next: ConnState::AwaitingServerPassword,
                reply: Some(Reply::ServerPassIncorrect),
                action: Action::NoAction,
                close: false,
            }
        }
    } else {
        Step {
            next: ConnState::AwaitingServerPassword,
            reply: Some(Reply::ServerPassRequired),
            action: Action::NoAction,
            close: false,
        }
    }
}

fn process_auth_frame(frame: &str, cfg: &ServerConfig) -> (s: Step)
    ensures
        s@ == auth_step_spec(frame@, cfg@),
{
    if !str_starts_with(frame, "AUTH:") {
        return Step {
            next: ConnState::AwaitingAuth,
            reply: Some(Reply::NotAuthenticated),
            action: Action::NoAction,
            close: false,
        };
    }
    let plen = "AUTH:".unicode_len();
    let n = frame.unicode_len();
    let rest = frame.substring_char(plen, n);
    proof {
        assert(rest@ =~= frame@.skip("AUTH:"@.len() as int));
    }
    match find_char(rest, ':') {
        None => Step {
            next: ConnState::AwaitingAuth,
            reply: Some(Reply::AuthInvalid),
            action: Action::NoAction,
            close: false,
        },
        Some(i) => {
            let m = rest.unicode_len();
            let username = rest.substring_char(0, i);
            let token = trim(rest.substring_char(i + 1, m));
            proof {
                assert(rest@.subrange(i + 1, m as int) =~= rest@.skip(i + 1));
            }
            if !validate_username(username) {
                Step {
                    next: ConnState::AwaitingAuth,
                    reply: Some(Reply::InvalidUsername),
                    action: Action::NoAction,
                    close: false,
                }
            } else if !validate_session_token(token) {
                Step {
                    next: ConnState::AwaitingAuth,
                    reply: Some(Reply::InvalidSessionToken),
                    action: Action::NoAction,
                    close: false,
                }
            } else if cfg.online_mode {
                Step {
                    next: ConnState::AwaitingAuth,
                    reply: None,
                    action: Action::VerifySession {
                        username: String::from_str(username),
                        session_token: String::from_str(token),
                    },
                    close: false,
                }
            } else {
                Step {
                    next: ConnState::Authenticated(String::from_str(username)),
                    reply: Some(Reply::AuthSuccess),
                    action: Action::RegisterUser { username: String::from_str(username) },
                    close: false,
                }
            }
        },
    }
}

fn process_message_frame(user: &String, frame: &str, commands: &CommandTable, now: i64) -> (s: Step)
    ensures
        s@ == message_step_spec(user@, frame@, commands@, now as int),
{
    if str_starts_with(frame, "AUTH:") {
        return Step {
            next: ConnState::Authenticated(user.clone()),
            reply: Some(Reply::AlreadyAuthenticated),
            action: Action::NoAction,
            close: false,
        };
    }
    if frame.as_bytes().len() > 256 {
        return Step {
            next: ConnState::Authenticated(user.clone()),
            reply: Some(Reply::MessageTooLong),
            action: Action::NoAction,
            close: false,
        };
    }
    if frame.is_empty() {
        return Step {
            next: ConnState::Authenticated(user.clone()),
            reply: Some(Reply::EmptyMessage),
            action: Action::NoAction,
            close: false,
        };
    }
    if str_starts_with(frame, "GET_MESSAGES:") {
        let plen = "GET_MESSAGES:".unicode_len();
        let n = frame.unicode_len();
        let recipient = trim(frame.substring_char(plen, n));
        proof {
            assert(frame@.subrange("GET_MESSAGES:"@.len() as int, frame@.len() as int)
                =~= frame@.skip("GET_MESSAGES:"@.len() as int));
        }
        return Step {
            next: ConnState::Authenticated(user.clone()),
            reply: None,
            action: Action::FetchMessages { recipient: String::from_str(recipient) },
            close: false,
        };
    }
    let n = frame.unicode_len();
    match find_char(frame, ':') {
        None => Step {
            next: ConnState::Authenticated(user.clone()),
            reply: Some(Reply::InvalidMessageFormat),
            action: Action::NoAction,
            close: false,
        },
        Some(i) => {
            let recipient = frame.substring_char(0, i);
            let body = frame.substring_char(i + 1, n);
            proof {
                assert(body@ =~= frame@.skip(i + 1));
            }
            if body.is_empty() {
                return Step {
                    next: ConnState::Authenticated(user.clone()),
                    reply: Some(Reply::EmptyMessage),
                    action: Action::NoAction,
                    close: false,
                };
            }
            let is_command = if body.get_char(0) == '!' {
                proof {
                    crate::textutils::lemma_split_ws_nonempty(body@);
                }
                let toks = split_whitespace_tokens(body);
                proof {
                    assert(toks.deep_view()[0] == toks@[0]@);
                }
                commands.contains_name(toks[0].as_str())
            } else {
                false
            };
            if is_command {
                let mut toks = split_whitespace_tokens(body);
                proof {
                    crate::textutils::lemma_split_ws_nonempty(body@);
                    assert(toks.deep_view()[0] == toks@[0]@);
                }
                let name = toks.remove(0);
                proof {
                    assert(toks.deep_view() =~~= split_ws(body@).drop_first());
                }
                Step {
                    next: ConnState::Authenticated(user.clone()),
                    reply: None,
                    action: Action::RunCommand { name, args: toks },
                    close: false,
                }
            } else {
                let full = format_outgoing_message(user.as_str(), recipient, body, now);
                Step {
                    next: ConnState::Authenticated(user.clone()),
                    reply: None,
                    action: Action::Relay {
                        recipient: String::from_str(recipient),
                        body: String::from_str(body),
                        full_message: full,
                        timestamp: now,
                        sender: user.clone(),
                    },
                    close: false,
                }
            }
        },
    }
}

/// The step taken when the oracle's verdict for `username` comes back: a
/// valid verdict authenticates and registers the user, an invalid one is
/// rejected, and an oracle error is reported distinctly, the connection
/// staying open for retry in both failure cases.
pub open spec fn verdict_step_spec(
    st: ConnStateView,
    username: Seq<char>,
    v: SessionVerdictView,
) -> StepView {
    match v {
        SessionVerdictView::Valid => StepView {
            next: ConnStateView::Authenticated(username),
            reply: Some(ReplyView::AuthSuccess),
            action: ActionView::RegisterUser { username },
            close: false,
        },
        SessionVerdictView::Invalid => reject_step(st, ReplyView::AuthFailed),
        SessionVerdictView::OracleError(m) => reject_step(st, ReplyView::AuthError(m)),
    }
}

/// Applies the oracle's verdict for the pending `username` to the
/// connection's state.
pub fn apply_auth_verdict(st: &ConnState, username: &str, verdict: &SessionVerdict) -> (s: Step)
    ensures
        s@ == verdict_step_spec(st@, username@, verdict@),
{
    match verdict {
        SessionVerdict::Valid => Step {
            next: ConnState::Authenticated(String::from_str(username)),
            reply: Some(Reply::AuthSuccess),
            action: Action::RegisterUser { username: String::from_str(username) },
            close: false,
        },
        SessionVerdict::Invalid => Step {
            next: match st {
                ConnState::AwaitingServerPassword => ConnState::AwaitingServerPassword,
                ConnState::AwaitingAuth => ConnState::AwaitingAuth,
                ConnState::Authenticated(u) => ConnState::Authenticated(u.clone()),
            },
            reply: Some(Reply::AuthFailed),
            action: Action::NoAction,
            close: false,
        },
        SessionVerdict::OracleError(m) => Step {
            next: match st {
                ConnState::AwaitingServerPassword => ConnState::AwaitingServerPassword,
                ConnState::AwaitingAuth => ConnState::AwaitingAuth,
                ConnState::Authenticated(u) => ConnState::Authenticated(u.clone()),
            },
            reply: Some(Reply::AuthError(m.clone())),
            action: Action::NoAction,
            close: false,
        },
    }
}

/// Relies on std::time::SystemTime::now and chrono's conversion from
/// it: the current Unix timestamp in seconds. The conversion handles a
/// clock set before the epoch, which `chrono::Utc::now` would not.
#[verifier::external_body]
fn current_timestamp() -> (r: i64) {
    chrono::DateTime::<chrono::Utc>::from(std::time::SystemTime::now()).timestamp()
}

/// Classifies one inbound frame with the current time as the relayed
/// message's timestamp. Returns the timestamp used beside the step.
pub fn process_frame_now(
    st: &ConnState,
    frame: &str,
    cfg: &ServerConfig,
    commands: &CommandTable,
) -> (r: (i64, Step))
    ensures
        r.1@ == step_spec(st@, frame@, cfg@, commands@, r.0 as int),
{
    let now = current_timestamp();
    let step = process_frame(st, frame, cfg, commands, now);
    (now, step)
}

} // verus!
