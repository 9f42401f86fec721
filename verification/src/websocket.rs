//! The development socket: with which identity a session is opened, and
//! when it ends.

use crate::text::{option_text, text_or};
use vstd::prelude::*;
use vstd::string::StringExecFns;

verus! {

/// The parameters with which a client opens a socket.
#[derive(Debug)]
pub struct WebSocketParams {
    pub room_id: Option<String>,
    pub user_id: Option<String>,
    pub username: Option<String>,
}

/// The identity of an open session.
#[derive(Debug)]
pub struct Session {
    pub room_id: String,
    pub user_id: String,
    pub username: String,
}

/// Opens a session. A client that names no room joins `general`; one that
/// does not say who it is is the user `dev-user` named `Developer`.
pub fn open_session(params: WebSocketParams) -> (session: Session)
    ensures
        session.room_id@ == text_or(option_text(params.room_id), "general"@),
        session.user_id@ == text_or(option_text(params.user_id), "dev-user"@),
        session.username@ == text_or(option_text(params.username), "Developer"@),
{
    Session {
        room_id: match params.room_id {
            Some(text) => text,
            None => String::from_str("general"),
        },
        user_id: match params.user_id {
            Some(text) => text,
            None => String::from_str("dev-user"),
        },
        username: match params.username {
            Some(text) => text,
            None => String::from_str("Developer"),
        },
    }
}

/// What a socket reports.
#[derive(Debug, Clone, Copy, PartialEq, Eq, Structural)]
pub enum SocketEvent {
    /// A text frame arrived.
    Text,
    /// The client closed the socket.
    Close,
    /// The socket failed.
    Error,
    /// A frame of another kind arrived: binary, ping or pong.
    Other,
    /// The socket has nothing more to report.
    Ended,
}

/// What a session does next.
#[derive(Debug, Clone, Copy, PartialEq, Eq, Structural)]
pub enum SessionStep {
    /// It waits for the next report.
    Continue,
    /// It ends.
    Stop,
}

/// What a session does when its socket reports `event`: it goes on after a
/// frame and ends when the socket is closed, fails or has ended.
pub open spec fn session_step(event: SocketEvent) -> SessionStep {
    match event {
        SocketEvent::Text => SessionStep::Continue,
        SocketEvent::Other => SessionStep::Continue,
        SocketEvent::Close => SessionStep::Stop,
        SocketEvent::Error => SessionStep::Stop,
        SocketEvent::Ended => SessionStep::Stop,
    }
}

/// Decides what a session does when its socket reports `event`.
pub fn handle_websocket(event: SocketEvent) -> (step: SessionStep)
    ensures
        step == session_step(event),
{
    match event {
        SocketEvent::Text => SessionStep::Continue,
        SocketEvent::Other => SessionStep::Continue,
        SocketEvent::Close => SessionStep::Stop,
        SocketEvent::Error => SessionStep::Stop,
        SocketEvent::Ended => SessionStep::Stop,
    }
}

} // verus!
