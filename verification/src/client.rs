//! The client's side of a session: the requests it sends, what it makes of
//! the answers, and the stages that a session goes through.

use vstd::prelude::*;
use vstd::string::StringExecFns;
use crate::codec::{read_server_message, server_read};
use crate::message::{
    AuthMessage, AuthResponse, ClientMessage, ClientMessageView, Error, ServerMessage,
    ServerMessageView,
};

verus! {

/// The request to log in. The password is handed over encrypted.
pub fn auth_request(login: &str, encrypted_password: String) -> (r: ClientMessage)
    ensures
        r@ == (ClientMessageView::Auth { login: login@, password: encrypted_password@ }),
{
    ClientMessage::Auth(AuthMessage { login: String::from_str(login), password: encrypted_password })
}

/// What is reported when the answer to a log-in is of another kind.
pub open spec fn auth_not_found() -> Seq<char> {
    "Auth not found"@
}

/// What a log-in came to: the identity and the token if the server gave
/// them, the server's message if it refused, and a fixed message for an
/// answer of any other kind.
pub fn auth_outcome(answer: ServerMessage) -> (r: Result<AuthResponse, Error>)
    ensures
        match answer {
            ServerMessage::Auth(auth) => r == Ok::<AuthResponse, Error>(auth),
            ServerMessage::Error(error) => r == Err::<AuthResponse, Error>(error),
            _ => r matches Err(error) && error.msg@ == auth_not_found(),
        },
{
    match answer {
        ServerMessage::Auth(auth) => Ok(auth),
        ServerMessage::Error(error) => Err(error),
        _ => Err(Error { msg: String::from_str("Auth not found") }),
    }
}

/// What is reported when the connection ended before an answer came.
pub open spec fn no_answer() -> Seq<char> {
    "what"@
}

/// What is reported when a frame came that is no answer.
pub open spec fn malformed_answer() -> Seq<char> {
    "Malformed answer"@
}

/// The answer that a request got: the one that the frame which arrived is
/// read as; an error where it is read as no answer, and an error where the
/// connection ended first.
pub fn received_answer(frame: Option<&str>) -> (r: ServerMessage)
    ensures
        match frame {
            Some(text) => match server_read(text@) {
                Some(answer) => r@ == answer,
                None => r@ == (ServerMessageView::Error { msg: malformed_answer() }),
            },
            None => r@ == (ServerMessageView::Error { msg: no_answer() }),
        },
{
    match frame {
        Some(text) => match read_server_message(text) {
            Some(answer) => answer,
            None => ServerMessage::Error(Error { msg: String::from_str("Malformed answer") }),
        },
        None => ServerMessage::Error(Error { msg: String::from_str("what") }),
    }
}

/// The stage of a session.
#[derive(Clone, Copy, Debug, PartialEq, Eq, Structural, Hash)]
pub enum SessionState {
    Disconnected,
    Connecting,
    Authenticating,
    Authenticated,
    FetchingProfile,
    Resolving,
    ReadyToLaunch,
}

/// What happens to a session.
#[derive(Clone, Copy, Debug, PartialEq, Eq, Structural, Hash)]
pub enum SessionEvent {
    /// The caller asks for a connection.
    Connect,
    /// The connection stands and the log-in is sent.
    Opened,
    /// The server accepted the log-in.
    LoggedIn,
    /// The request for the profile is sent.
    ProfileRequested,
    /// The profile and its files are there.
    ProfileReceived,
    /// The optional features are resolved and the configuration is assembled.
    Resolved,
    /// The transport failed, or a frame could not be read.
    Failed,
}

/// The stage that follows `state` on `event`. A failure ends the session at
/// every stage; every other event moves the session on from the one stage
/// that it belongs to and changes nothing elsewhere.
pub open spec fn next_state(state: SessionState, event: SessionEvent) -> SessionState {
    match (state, event) {
        (_, SessionEvent::Failed) => SessionState::Disconnected,
        (SessionState::Disconnected, SessionEvent::Connect) => SessionState::Connecting,
        (SessionState::Connecting, SessionEvent::Opened) => SessionState::Authenticating,
        (SessionState::Authenticating, SessionEvent::LoggedIn) => SessionState::Authenticated,
        (SessionState::Authenticated, SessionEvent::ProfileRequested) => SessionState::FetchingProfile,
        (SessionState::FetchingProfile, SessionEvent::ProfileReceived) => SessionState::Resolving,
        (SessionState::Resolving, SessionEvent::Resolved) => SessionState::ReadyToLaunch,
        _ => state,
    }
}

/// A request is under way and its answer has not come: no other request
/// may be sent.
pub open spec fn awaits_answer(state: SessionState) -> bool {
    state == SessionState::Authenticating || state == SessionState::FetchingProfile
}

/// A session: its stage and the last failure that ended it.
#[derive(Clone, Debug)]
pub struct Session {
    pub state: SessionState,
    pub last_error: Option<String>,
}

impl Session {
    /// A session that was never connected.
    pub fn new() -> (r: Session)
        ensures
            r.state == SessionState::Disconnected,
            r.last_error is None,
    {
        Session { state: SessionState::Disconnected, last_error: None }
    }

    /// Whether a request may be sent now: the session is connected and no
    /// answer is outstanding.
    pub fn may_send(&self) -> (r: bool)
        ensures
            r == (self.state != SessionState::Disconnected && self.state
                != SessionState::Connecting && !awaits_answer(self.state)),
    {
        match self.state {
            SessionState::Authenticated | SessionState::Resolving | SessionState::ReadyToLaunch => true,
            _ => false,
        }
    }

    /// Moves the session on an event other than a failure. What the session
    /// remembers of an earlier failure stays.
    pub fn advance(&mut self, event: SessionEvent)
        requires
            event != SessionEvent::Failed,
        ensures
            final(self).state == next_state(old(self).state, event),
            final(self).last_error == old(self).last_error,
    {
        let next = match (self.state, event) {
            (SessionState::Disconnected, SessionEvent::Connect) => SessionState::Connecting,
            (SessionState::Connecting, SessionEvent::Opened) => SessionState::Authenticating,
            (SessionState::Authenticating, SessionEvent::LoggedIn) => SessionState::Authenticated,
            (SessionState::Authenticated, SessionEvent::ProfileRequested) => SessionState::FetchingProfile,
            (SessionState::FetchingProfile, SessionEvent::ProfileReceived) => SessionState::Resolving,
            (SessionState::Resolving, SessionEvent::Resolved) => SessionState::ReadyToLaunch,
            (state, _) => state,
        };
        self.state = next;
    }

    /// Ends the session on a failure and keeps its message for the caller.
    /// Nothing connects again by itself.
    pub fn fail(&mut self, message: String)
        ensures
            final(self).state == next_state(old(self).state, SessionEvent::Failed),
            final(self).state == SessionState::Disconnected,
            final(self).last_error == Some(message),
    {
        self.state = SessionState::Disconnected;
        self.last_error = Some(message);
    }
}

/// The origin of a connection: `https` where the scheme is `wss`, `http` for
/// every other scheme, then `://` and the host, as far as there is one.
pub open spec fn origin_of(scheme: Seq<char>, host: Option<Seq<char>>) -> Seq<char> {
    (if scheme == "wss"@ {
        "https"@
    } else {
        "http"@
    }) + "://"@ + (match host {
        Some(name) => name,
        None => Seq::empty(),
    })
}

/// The origin that a client names when it connects to an address with this
/// scheme and this host.
pub fn get_origin(scheme: &str, host: Option<&str>) -> (r: String)
    ensures
        r@ == origin_of(
            scheme@,
            match host {
                Some(name) => Some(name@),
                None => None,
            },
        ),
{
    let secure = String::from_str(scheme) == String::from_str("wss");
    let mut origin = if secure {
        String::from_str("https")
    } else {
        String::from_str("http")
    };
    origin.append("://");
    match host {
        Some(name) => {
            origin.append(name);
        },
        None => {
            assert(origin@ + Seq::<char>::empty() =~= origin@);
        },
    }
    origin
}

} // verus!
