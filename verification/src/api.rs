//! The bodies of the HTTP API and the status each outcome is answered with.
//!
//! Our endpoints
//!
//!  - /login [POST]: Get the login token
//!  - /info [GET]:  Get the server info (name, max players, connected players)
//!  - /clients/<id> [GET]: Get more information about a specific client
//!  - /chat [GET]: Load the chat websocket
//!
//!  - /start [POST]: Request a match start
//!  - /connect [POST]: Start the match, and forward the client to the
//!                     port of the game server itself
use vstd::prelude::*;

use crate::messages::QueryError;

verus! {

/// The body of a login request.
pub struct LoginBody {
    pub name: String,
}

/// The body of a request that only carries the client's token.
pub struct AuthBody {
    pub token: String,
}

/// The body of an answer that carries a message, most often an error.
pub struct BasicError {
    pub message: String,
}

/// The body of the answer to a logout.
pub struct LogoutBody {
    pub id: u64,
}

/// A chat message sent over the chat websocket.
pub struct ChatMessageBody {
    pub receiver: String,
    pub content: String,
}

/// HTTP 200.
pub const STATUS_OK: u16 = 200;

/// HTTP 201.
pub const STATUS_CREATED: u16 = 201;

/// HTTP 400.
pub const STATUS_BAD_REQUEST: u16 = 400;

/// HTTP 401.
pub const STATUS_UNAUTHORIZED: u16 = 401;

/// HTTP 404.
pub const STATUS_NOT_FOUND: u16 = 404;

/// HTTP 500.
pub const STATUS_INTERNAL_SERVER_ERROR: u16 = 500;

/// The status and message that answer a failed query: an unknown token is
/// unauthorized, an unknown client is not found. A query that found not
/// every client ready has no answer of its own.
pub open spec fn error_reply(e: QueryError) -> (u16, Seq<char>) {
    match e {
        QueryError::InvalidToken => (401, "Invalid token"@),
        _ => (404, "Client not found"@),
    }
}

/// The answer to a failed query.
pub fn query_error_reply(e: QueryError) -> (r: (u16, BasicError))
    requires
        e != QueryError::NotAllClientsReady,
    ensures
        (r.0, r.1.message@) == error_reply(e),
{
    match e {
        QueryError::InvalidToken => (
            STATUS_UNAUTHORIZED,
            BasicError { message: "Invalid token".to_string() },
        ),
        _ => (STATUS_NOT_FOUND, BasicError { message: "Client not found".to_string() }),
    }
}

/// The answer to a failed login: a bad request.
pub fn login_failure_reply() -> (r: (u16, BasicError))
    ensures
        r.0 == 400,
        r.1.message@ == "Login failure"@,
{
    (STATUS_BAD_REQUEST, BasicError { message: "Login failure".to_string() })
}

/// The answer to a request for a change of the ready state: success with
/// an empty message when the change was made, else an internal error
/// saying the state change was invalid.
pub fn ready_change_reply(changed: bool) -> (r: (u16, BasicError))
    ensures
        changed ==> r.0 == 200 && r.1.message@ == Seq::<char>::empty(),
        !changed ==> r.0 == 500 && r.1.message@ == "Invalid state change"@,
{
    if changed {
        (STATUS_OK, BasicError { message: String::new() })
    } else {
        (STATUS_INTERNAL_SERVER_ERROR, BasicError { message: "Invalid state change".to_string() })
    }
}

/// Where a chat connection stands: the token the client authenticated
/// with, once it has.
pub struct ChatSession {
    token: Option<String>,
}

/// The view of an optional string.
pub open spec fn opt_chars(o: Option<String>) -> Option<Seq<char>> {
    match o {
        Some(s) => Some(s@),
        None => None,
    }
}

impl ChatSession {
    /// The token of the session, once authenticated.
    pub closed spec fn spec_token(&self) -> Option<Seq<char>> {
        opt_chars(self.token)
    }

    /// A connection that has not authenticated yet.
    pub fn new() -> (r: ChatSession)
        ensures
            r.spec_token() is None,
    {
        ChatSession { token: None }
    }

    /// Whether the client has authenticated.
    pub fn is_authenticated(&self) -> (r: bool)
        ensures
            r == self.spec_token() is Some,
    {
        self.token.is_some()
    }

    /// Takes one message of the connection, read both as an authentication
    /// body (`auth`) and as a chat body (`body`), each `None` where it does
    /// not read as one. First, the client authenticates: until it has, a
    /// message sets the token to the one it carries (none if it carries
    /// none) and nothing is sent. Afterwards each chat body is answered by
    /// sending it with the token; other messages are skipped.
    pub fn receive(&mut self, auth: Option<AuthBody>, body: Option<ChatMessageBody>) -> (r: Option<
        (ChatMessageBody, String),
    >)
        ensures
            old(self).spec_token() is None ==> r is None && final(self).spec_token() == (match auth {
                Some(a) => Some(a.token@),
                None => None::<Seq<char>>,
            }),
            old(self).spec_token() is Some ==> final(self).spec_token() == old(self).spec_token()
                && match body {
                None => r is None,
                Some(b) => r matches Some(x) && x.0 == b && Some(x.1@) == old(self).spec_token(),
            },
    {
        match &self.token {
            None => {
                self.token = match auth {
                    Some(a) => Some(a.token),
                    None => None,
                };
                None
            },
            Some(t) => match body {
                Some(b) => Some((b, t.clone())),
                None => None,
            },
        }
    }
}

} // verus!
