//! The wire payload: one JSON object per message, serialised once and sent
//! to every subscriber of the message's room.
//!
//! Two things come from outside crates: how `chrono` writes an instant as
//! RFC 3339 text, which is named here and not defined, and how `serde_json`
//! writes a string as a JSON string literal, which is stated in full.

use crate::clock::read_clock;
use crate::types::{Message, MessageView, Millis};
use vstd::prelude::*;
use vstd::string::StringExecFns;

verus! {

/// `serde_json`'s error type.
#[verifier::external_type_specification]
#[verifier::external_body]
pub struct ExJsonError(serde_json::Error);

/// The first instant that `chrono` represents: the start of the year -262143.
pub const CHRONO_MIN_MILLIS: Millis = -8_334_601_228_800_000;

/// The last instant of whole milliseconds that `chrono` represents: the end
/// of the year 262142.
pub const CHRONO_MAX_MILLIS: Millis = 8_210_266_876_799_999;

/// Whether `chrono` can hold the instant.
pub open spec fn chrono_represents(at: Millis) -> bool {
    CHRONO_MIN_MILLIS <= at <= CHRONO_MAX_MILLIS
}

/// The RFC 3339 text of an instant in UTC, as `chrono`'s
/// `DateTime::to_rfc3339` writes it: date, `T`, time of day, the fraction of
/// the second where it is not zero, and the offset `+00:00`.
pub uninterp spec fn rfc3339_text(at: Millis) -> Seq<char>;

/// The digit of a number below sixteen in base sixteen, in lower case.
pub open spec fn hex_digit(value: int) -> char {
    if value < 10 {
        ('0' as u8 + value) as u8 as char
    } else {
        ('a' as u8 + (value - 10)) as u8 as char
    }
}

/// How one character stands inside a JSON string literal. The quote and the
/// backslash are preceded by a backslash; backspace, tab, line feed, form
/// feed and carriage return have their letters; every other control below
/// the space is written as `\u00` and its two hexadecimal digits; every other
/// character stands for itself.
pub open spec fn json_escape(c: char) -> Seq<char> {
    if c == '"' {
        seq!['\\', '"']
    } else if c == '\\' {
        seq!['\\', '\\']
    } else if c == '\u{8}' {
        seq!['\\', 'b']
    } else if c == '\t' {
        seq!['\\', 't']
    } else if c == '\n' {
        seq!['\\', 'n']
    } else if c == '\u{c}' {
        seq!['\\', 'f']
    } else if c == '\r' {
        seq!['\\', 'r']
    } else if (c as int) < 0x20 {
        seq!['\\', 'u', '0', '0', hex_digit(c as int / 16), hex_digit(c as int % 16)]
    } else {
        seq![c]
    }
}

/// A text with each of its characters as it stands inside a JSON string
/// literal.
pub open spec fn json_escaped(text: Seq<char>) -> Seq<char>
    decreases text.len(),
{
    if text.len() == 0 {
        Seq::empty()
    } else {
        json_escaped(text.drop_last()) + json_escape(text.last())
    }
}

/// The JSON string literal for a text, as `serde_json` writes it: the
/// escaped text between double quotes.
pub open spec fn json_string_literal(text: Seq<char>) -> Seq<char> {
    seq!['"'] + json_escaped(text) + seq!['"']
}

/// What the encoder made of a text, as contracts speak of it: the literal's
/// characters, or nothing where it reported an error.
pub open spec fn encoding_view(literal: Result<String, serde_json::Error>) -> Option<Seq<char>> {
    match literal {
        Ok(l) => Some(l@),
        Err(_) => None,
    }
}

/// Calls `chrono::DateTime::from_timestamp_millis` and, where that gives an
/// instant, `DateTime::to_rfc3339` on it. The first returns `None` exactly
/// where the day of the instant lies outside the years -262143 to 262142;
/// the second cannot fail.
#[verifier::external_body]
fn rfc3339_of_millis(at: Millis) -> (text: Option<String>)
    ensures
        text is Some <==> chrono_represents(at),
        text matches Some(t) ==> t@ == rfc3339_text(at),
{
    match chrono::DateTime::from_timestamp_millis(at) {
        Some(instant) => Some(instant.to_rfc3339()),
        None => None,
    }
}

/// Calls `serde_json::to_string` on a string slice. For a string the call
/// cannot fail: it writes into a vector of bytes, and neither of the two
/// causes of failure that its documentation names, a `Serialize` that fails
/// and a map whose keys are no strings, can arise. What it writes is the
/// JSON string literal of the slice.
#[verifier::external_body]
fn json_string(text: &str) -> (literal: Result<String, serde_json::Error>)
    ensures
        literal is Ok,
        encoding_view(literal) == Some(json_string_literal(text@)),
{
    serde_json::to_string(text)
}

/// Whether `chrono` can hold the instant.
pub fn is_representable(at: Millis) -> (yes: bool)
    ensures
        yes == chrono_represents(at),
{
    rfc3339_of_millis(at).is_some()
}

/// Why a message could not be turned into a payload.
#[derive(Debug, Clone, Copy, PartialEq, Eq, Structural)]
pub enum WireError {
    /// The JSON encoder reported an error.
    Encoding,
}

/// The payload that is made of five JSON values: an object with the members
/// `id`, `room_id`, `username`, `message_text` and `created_at`, in this
/// order and without white space.
pub open spec fn payload_of_literals(
    id: Seq<char>,
    room_id: Seq<char>,
    username: Seq<char>,
    message_text: Seq<char>,
    created_at: Seq<char>,
) -> Seq<char> {
    "{\"id\":"@ + id + ",\"room_id\":"@ + room_id + ",\"username\":"@ + username
        + ",\"message_text\":"@ + message_text + ",\"created_at\":"@ + created_at + "}"@
}

/// The payload that is made of what the encoder made of five texts: the
/// object of the five literals where it made a literal of each, and an
/// encoding error where it did not.
pub open spec fn payload_of_encodings(
    id: Option<Seq<char>>,
    room_id: Option<Seq<char>>,
    username: Option<Seq<char>>,
    message_text: Option<Seq<char>>,
    created_at: Option<Seq<char>>,
) -> Result<Seq<char>, WireError> {
    if id is Some && room_id is Some && username is Some && message_text is Some
        && created_at is Some {
        Ok(payload_of_literals(id->0, room_id->0, username->0, message_text->0, created_at->0))
    } else {
        Err(WireError::Encoding)
    }
}

/// The payload of a message whose time of creation is written as
/// `created_at`: the payload object whose members are the JSON string
/// literals of the message's identifier, room, author and text and of
/// `created_at`.
pub open spec fn message_payload(message: MessageView, created_at: Seq<char>) -> Seq<char> {
    payload_of_literals(
        json_string_literal(message.id),
        json_string_literal(message.room_id),
        json_string_literal(message.username),
        json_string_literal(message.message_text),
        json_string_literal(created_at),
    )
}

/// The characters of a payload, or the error in its place.
pub open spec fn payload_result_view(payload: Result<String, WireError>) -> Result<
    Seq<char>,
    WireError,
> {
    match payload {
        Ok(text) => Ok(text@),
        Err(error) => Err(error),
    }
}

/// Whether `text` may stand for the time of creation `at` in a payload: it
/// is the RFC 3339 text of `at` wherever `chrono` represents `at`. Outside
/// that range the time of serialisation is written instead, of which nothing
/// is known beforehand.
pub open spec fn stands_for_instant(text: Seq<char>, at: Millis) -> bool {
    chrono_represents(at) ==> text == rfc3339_text(at)
}

/// Whether `text` is a payload of the message: the payload with a text that
/// may stand for the message's time of creation.
pub open spec fn is_payload_of(text: Seq<char>, message: MessageView) -> bool {
    exists|created_at: Seq<char>|
        stands_for_instant(created_at, message.created_at) && text == #[trigger] message_payload(
            message,
            created_at,
        )
}

/// Puts five JSON values together into the payload object.
pub fn assemble_payload(
    id: &str,
    room_id: &str,
    username: &str,
    message_text: &str,
    created_at: &str,
) -> (payload: String)
    ensures
        payload@ == payload_of_literals(id@, room_id@, username@, message_text@, created_at@),
{
    let mut payload = String::from_str("{\"id\":");
    payload.append(id);
    payload.append(",\"room_id\":");
    payload.append(room_id);
    payload.append(",\"username\":");
    payload.append(username);
    payload.append(",\"message_text\":");
    payload.append(message_text);
    payload.append(",\"created_at\":");
    payload.append(created_at);
    payload.append("}");
    payload
}

/// The text that stands for an instant in a payload: its RFC 3339 text, or,
/// where `chrono` cannot represent the instant, that of the present moment.
pub fn instant_text(at: Millis) -> (text: String)
    ensures
        stands_for_instant(text@, at),
{
    match rfc3339_of_millis(at) {
        Some(text) => text,
        None => read_clock().rfc3339,
    }
}

/// Puts together what the encoder made of the five texts of a payload: the
/// payload object where it made a literal of each, and an encoding error
/// where it reported an error for any.
pub fn assemble_encodings(
    id: Result<String, serde_json::Error>,
    room_id: Result<String, serde_json::Error>,
    username: Result<String, serde_json::Error>,
    message_text: Result<String, serde_json::Error>,
    created_at: Result<String, serde_json::Error>,
) -> (payload: Result<String, WireError>)
    ensures
        payload_result_view(payload) == payload_of_encodings(
            encoding_view(id),
            encoding_view(room_id),
            encoding_view(username),
            encoding_view(message_text),
            encoding_view(created_at),
        ),
{
    match (id, room_id, username, message_text, created_at) {
        (Ok(id), Ok(room_id), Ok(username), Ok(message_text), Ok(created_at)) => Ok(
            assemble_payload(
                id.as_str(),
                room_id.as_str(),
                username.as_str(),
                message_text.as_str(),
                created_at.as_str(),
            ),
        ),
        _ => Err(WireError::Encoding),
    }
}

/// Serialises a message with a given text for its time of creation. The
/// identifier, the room, the author, the text and the time of creation are
/// each handed to the encoder, and the five literals are put together into
/// the payload object. This always succeeds.
pub fn encode_message(message: &Message, created_at: &str) -> (payload: Result<String, WireError>)
    ensures
        payload_result_view(payload) == Ok::<Seq<char>, WireError>(
            message_payload(message@, created_at@),
        ),
{
    let id = json_string(message.id.as_str());
    let room_id = json_string(message.room_id.as_str());
    let username = json_string(message.username.as_str());
    let message_text = json_string(message.message_text.as_str());
    let created = json_string(created_at);
    assemble_encodings(id, room_id, username, message_text, created)
}

/// Serialises a message into the payload that is sent to each subscriber.
/// The time of creation is written as RFC 3339 text; where `chrono` cannot
/// represent it, the present moment is written in its place. This always
/// succeeds.
pub fn serialize_message(message: &Message) -> (payload: Result<String, WireError>)
    ensures
        payload is Ok,
        chrono_represents(message.created_at) ==> payload->Ok_0@ == message_payload(
            message@,
            rfc3339_text(message.created_at),
        ),
        is_payload_of(payload->Ok_0@, message@),
{
    let created_at = instant_text(message.created_at);
    let payload = encode_message(message, created_at.as_str());
    proof {
        assert(stands_for_instant(created_at@, message.created_at) && payload->Ok_0@
            == message_payload(message@, created_at@));
    }
    payload
}

} // verus!
