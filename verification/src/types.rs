//! The values that cross the service's interfaces.

use vstd::prelude::*;

verus! {

/// A point in time, in milliseconds since 1970-01-01T00:00:00Z, leap seconds
/// not counted.
pub type Millis = i64;

/// How the service is doing.
#[derive(Debug, Clone, Copy, PartialEq, Eq, Structural)]
pub enum HealthStatus {
    Healthy,
    Degraded,
    Unhealthy,
}

/// The answer of the health endpoint.
#[derive(Debug, Clone)]
pub struct HealthCheck {
    pub status: HealthStatus,
    pub version: String,
    pub timestamp: Millis,
}

/// A chat room.
#[derive(Debug, Clone)]
pub struct Room {
    pub id: String,
    pub name: String,
    pub created_at: Millis,
}

/// A chat message as it is stored and as it is sent to the subscribers of
/// its room.
#[derive(Debug, Clone)]
pub struct Message {
    pub id: String,
    pub room_id: String,
    pub username: String,
    pub message_text: String,
    pub created_at: Millis,
}

/// A chat message as contracts speak of it.
pub struct MessageView {
    pub id: Seq<char>,
    pub room_id: Seq<char>,
    pub username: Seq<char>,
    pub message_text: Seq<char>,
    pub created_at: Millis,
}

impl View for Message {
    type V = MessageView;

    open spec fn view(&self) -> MessageView {
        MessageView {
            id: self.id@,
            room_id: self.room_id@,
            username: self.username@,
            message_text: self.message_text@,
            created_at: self.created_at,
        }
    }
}

/// A chat message as the request/response interface returns it.
#[derive(Debug, Clone)]
pub struct ChatMessage {
    pub id: String,
    pub room_id: String,
    pub username: String,
    pub message_text: String,
    pub created_at: Millis,
}

impl View for ChatMessage {
    type V = MessageView;

    open spec fn view(&self) -> MessageView {
        MessageView {
            id: self.id@,
            room_id: self.room_id@,
            username: self.username@,
            message_text: self.message_text@,
            created_at: self.created_at,
        }
    }
}

/// What a client sends to post a message.
#[derive(Debug, Clone)]
pub struct SendMessageRequest {
    pub room_id: String,
    pub username: String,
    pub message_text: String,
}

/// The messages of one room, oldest first.
#[derive(Debug, Clone)]
pub struct GetMessagesResponse {
    pub room_id: String,
    pub messages: Vec<Message>,
}

} // verus!
