//! The change feed consumer: from a batch of change events to the messages
//! that are to be broadcast.
//!
//! Every event is decoded by itself. An event that is no insert is skipped;
//! an insert whose new image lacks a required attribute is reported as
//! malformed and dropped. Neither affects the events beside it, and the batch
//! as a whole is always acknowledged.

use crate::item::{get_number, get_string, number_of, string_of, Item, ItemView};
use crate::text::{decimal_i64, parse_i64, same_text};
use crate::types::{Message, MessageView};
use vstd::prelude::*;
use vstd::string::StringExecFns;

verus! {

/// What a change event did to the row it is about.
#[derive(Debug, Clone, Copy, PartialEq, Eq, Structural)]
pub enum OperationKind {
    Insert,
    Update,
    Delete,
    Unknown,
}

/// The part of a change event that carries the row.
#[derive(Debug)]
pub struct StreamRecord {
    /// The row as it is after the change, where the feed sends it.
    pub new_image: Option<Item>,
}

/// One event of the change feed.
#[derive(Debug)]
pub struct ChangeEvent {
    /// The feed's name for the operation: `INSERT`, `MODIFY` or `REMOVE`.
    pub event_name: String,
    pub dynamodb: Option<StreamRecord>,
}

/// A change event as contracts speak of it: the operation's name and the new
/// image, where the event has the part that carries it and that part has it.
pub struct ChangeEventView {
    pub event_name: Seq<char>,
    pub has_stream_data: bool,
    pub new_image: Option<ItemView>,
}

impl View for ChangeEvent {
    type V = ChangeEventView;

    open spec fn view(&self) -> ChangeEventView {
        ChangeEventView {
            event_name: self.event_name@,
            has_stream_data: self.dynamodb is Some,
            new_image: match self.dynamodb {
                Some(record) => match record.new_image {
                    Some(image) => Some(image@),
                    None => None,
                },
                None => None,
            },
        }
    }
}

/// Why an insert event could not be turned into a message.
#[derive(Debug, Clone, Copy, PartialEq, Eq, Structural)]
pub enum DecodeError {
    /// The event has no part that carries the row.
    NoStreamData,
    /// That part has no new image.
    NoNewImage,
    /// The image has no string `room_id`.
    MissingRoomId,
    /// The image has no string `id`.
    MissingId,
    /// The image has no string `username`.
    MissingUsername,
    /// The image has no string `message_text`.
    MissingMessageText,
    /// The image has no number `ts`, or it is no integer of 64 bits.
    InvalidTimestamp,
}

/// What is said of a decoding error where it is logged.
pub open spec fn error_text(error: DecodeError) -> Seq<char> {
    match error {
        DecodeError::NoStreamData => "No dynamodb data in record"@,
        DecodeError::NoNewImage => "No NewImage in record"@,
        DecodeError::MissingRoomId => "Missing room_id"@,
        DecodeError::MissingId => "Missing id"@,
        DecodeError::MissingUsername => "Missing username"@,
        DecodeError::MissingMessageText => "Missing message_text"@,
        DecodeError::InvalidTimestamp => "Missing or invalid ts"@,
    }
}

impl DecodeError {
    /// What is said of the error where it is logged.
    pub fn message(&self) -> (text: String)
        ensures
            text@ == error_text(*self),
    {
        match self {
            DecodeError::NoStreamData => String::from_str("No dynamodb data in record"),
            DecodeError::NoNewImage => String::from_str("No NewImage in record"),
            DecodeError::MissingRoomId => String::from_str("Missing room_id"),
            DecodeError::MissingId => String::from_str("Missing id"),
            DecodeError::MissingUsername => String::from_str("Missing username"),
            DecodeError::MissingMessageText => String::from_str("Missing message_text"),
            DecodeError::InvalidTimestamp => String::from_str("Missing or invalid ts"),
        }
    }
}

/// What became of one change event.
#[derive(Debug)]
pub enum Decoded {
    /// The event is no insert; nothing is broadcast for it.
    Skipped(OperationKind),
    /// The event is an insert that cannot be decoded; it is dropped.
    Malformed(DecodeError),
    /// The event is an insert of this message.
    Insert(Message),
}

/// The outcome of decoding as contracts speak of it.
pub enum DecodedView {
    Skipped(OperationKind),
    Malformed(DecodeError),
    Insert(MessageView),
}

impl View for Decoded {
    type V = DecodedView;

    open spec fn view(&self) -> DecodedView {
        match self {
            Decoded::Skipped(kind) => DecodedView::Skipped(*kind),
            Decoded::Malformed(error) => DecodedView::Malformed(*error),
            Decoded::Insert(message) => DecodedView::Insert(message@),
        }
    }
}

/// The operation that a feed's event name stands for.
pub open spec fn kind_of_name(event_name: Seq<char>) -> OperationKind {
    if event_name == "INSERT"@ {
        OperationKind::Insert
    } else if event_name == "MODIFY"@ {
        OperationKind::Update
    } else if event_name == "REMOVE"@ {
        OperationKind::Delete
    } else {
        OperationKind::Unknown
    }
}

/// The message that a new image holds, or the first attribute, in the order
/// `room_id`, `id`, `username`, `message_text`, `ts`, that it lacks.
pub open spec fn image_message(image: ItemView) -> Result<MessageView, DecodeError> {
    if string_of(image, "room_id"@) is None {
        Err(DecodeError::MissingRoomId)
    } else if string_of(image, "id"@) is None {
        Err(DecodeError::MissingId)
    } else if string_of(image, "username"@) is None {
        Err(DecodeError::MissingUsername)
    } else if string_of(image, "message_text"@) is None {
        Err(DecodeError::MissingMessageText)
    } else if number_of(image, "ts"@) is None || decimal_i64(number_of(image, "ts"@)->0) is None {
        Err(DecodeError::InvalidTimestamp)
    } else {
        Ok(
            MessageView {
                id: string_of(image, "id"@)->0,
                room_id: string_of(image, "room_id"@)->0,
                username: string_of(image, "username"@)->0,
                message_text: string_of(image, "message_text"@)->0,
                created_at: decimal_i64(number_of(image, "ts"@)->0)->0,
            },
        )
    }
}

/// What becomes of a change event.
pub open spec fn decoded(event: ChangeEventView) -> DecodedView {
    let kind = kind_of_name(event.event_name);
    if kind != OperationKind::Insert {
        DecodedView::Skipped(kind)
    } else if !event.has_stream_data {
        DecodedView::Malformed(DecodeError::NoStreamData)
    } else if event.new_image is None {
        DecodedView::Malformed(DecodeError::NoNewImage)
    } else {
        match image_message(event.new_image->0) {
            Ok(message) => DecodedView::Insert(message),
            Err(error) => DecodedView::Malformed(error),
        }
    }
}

/// Tells which operation an event name stands for.
pub fn operation_kind(event_name: &str) -> (kind: OperationKind)
    ensures
        kind == kind_of_name(event_name@),
{
    if same_text(event_name, "INSERT") {
        OperationKind::Insert
    } else if same_text(event_name, "MODIFY") {
        OperationKind::Update
    } else if same_text(event_name, "REMOVE") {
        OperationKind::Delete
    } else {
        OperationKind::Unknown
    }
}

/// Decodes the new image of an insert event into a message.
pub fn decode_image(image: &Item) -> (result: Result<Message, DecodeError>)
    ensures
        result is Ok <==> image_message(image@) is Ok,
        result matches Ok(message) ==> image_message(image@) == Ok::<MessageView, DecodeError>(
            message@,
        ),
        result matches Err(error) ==> image_message(image@) == Err::<MessageView, DecodeError>(
            error,
        ),
{
    let room_id = match get_string(image, "room_id") {
        Some(text) => text,
        None => { return Err(DecodeError::MissingRoomId); },
    };
    let id = match get_string(image, "id") {
        Some(text) => text,
        None => { return Err(DecodeError::MissingId); },
    };
    let username = match get_string(image, "username") {
        Some(text) => text,
        None => { return Err(DecodeError::MissingUsername); },
    };
    let message_text = match get_string(image, "message_text") {
        Some(text) => text,
        None => { return Err(DecodeError::MissingMessageText); },
    };
    let ts = match get_number(image, "ts") {
        Some(text) => match parse_i64(text.as_str()) {
            Some(ts) => ts,
            None => { return Err(DecodeError::InvalidTimestamp); },
        },
        None => { return Err(DecodeError::InvalidTimestamp); },
    };
    Ok(
        Message {
            id: id.clone(),
            room_id: room_id.clone(),
            username: username.clone(),
            message_text: message_text.clone(),
            created_at: ts,
        },
    )
}

/// Decodes one change event.
pub fn decode_event(event: &ChangeEvent) -> (outcome: Decoded)
    ensures
        outcome@ == decoded(event@),
{
    let kind = operation_kind(event.event_name.as_str());
    if kind != OperationKind::Insert {
        return Decoded::Skipped(kind);
    }
    let record = match &event.dynamodb {
        Some(record) => record,
        None => { return Decoded::Malformed(DecodeError::NoStreamData); },
    };
    let image = match &record.new_image {
        Some(image) => image,
        None => { return Decoded::Malformed(DecodeError::NoNewImage); },
    };
    match decode_image(image) {
        Ok(message) => Decoded::Insert(message),
        Err(error) => Decoded::Malformed(error),
    }
}

/// The views of a batch of change events.
pub open spec fn events_view(events: Seq<ChangeEvent>) -> Seq<ChangeEventView> {
    events.map_values(|e: ChangeEvent| e@)
}

/// The views of the outcomes of a batch.
pub open spec fn outcomes_view(outcomes: Seq<Decoded>) -> Seq<DecodedView> {
    outcomes.map_values(|d: Decoded| d@)
}

/// What becomes of each event of a batch: every event is decoded by itself.
pub open spec fn decoded_batch(events: Seq<ChangeEventView>) -> Seq<DecodedView> {
    events.map_values(|e: ChangeEventView| decoded(e))
}

/// The messages that a batch of outcomes asks to broadcast, in the order of
/// their events.
pub open spec fn messages_of(outcomes: Seq<DecodedView>) -> Seq<MessageView>
    decreases outcomes.len(),
{
    if outcomes.len() == 0 {
        Seq::empty()
    } else {
        match outcomes.last() {
            DecodedView::Insert(message) => messages_of(outcomes.drop_last()).push(message),
            _ => messages_of(outcomes.drop_last()),
        }
    }
}

/// Whether an event is an insert.
pub open spec fn is_insert(event: ChangeEventView) -> bool {
    kind_of_name(event.event_name) == OperationKind::Insert
}

/// Decodes a batch of change events, each by itself and in the order of the
/// feed.
pub fn decode_batch(events: &Vec<ChangeEvent>) -> (outcomes: Vec<Decoded>)
    ensures
        outcomes_view(outcomes@) == decoded_batch(events_view(events@)),
{
    let mut outcomes: Vec<Decoded> = Vec::new();
    let mut i: usize = 0;
    while i < events.len()
        invariant
            i <= events.len(),
            outcomes@.len() == i,
            forall|j: int| 0 <= j < i ==> (#[trigger] outcomes@[j])@ == decoded(events@[j]@),
        decreases events.len() - i,
    {
        outcomes.push(decode_event(&events[i]));
        i = i + 1;
    }
    proof {
        assert(outcomes_view(outcomes@) =~= decoded_batch(events_view(events@)));
    }
    outcomes
}

/// The status with which a batch is acknowledged: success, whatever became
/// of its events. The feed sends a batch again until it is acknowledged, so
/// one bad event must not hold up the feed.
pub fn batch_status(_outcomes: &Vec<Decoded>) -> (status_code: i32)
    ensures
        status_code == 200,
{
    200
}

/// Non-insert filtering, for one event. A message is broadcast only for an
/// insert, and an event that is no insert is skipped whatever it carries.
pub proof fn lemma_only_inserts_are_broadcast(event: ChangeEventView)
    ensures
        decoded(event) is Insert ==> is_insert(event),
        !is_insert(event) ==> decoded(event) == DecodedView::Skipped(
            kind_of_name(event.event_name),
        ),
{
}

/// The messages of a batch are those of its first events followed by those
/// of the rest: what one event is does not change what becomes of another.
pub proof fn lemma_messages_of_concat(first: Seq<DecodedView>, rest: Seq<DecodedView>)
    ensures
        messages_of(first + rest) == messages_of(first) + messages_of(rest),
    decreases rest.len(),
{
    if rest.len() == 0 {
        assert(first + rest =~= first);
        assert(messages_of(first) + messages_of(rest) =~= messages_of(first));
    } else {
        lemma_messages_of_concat(first, rest.drop_last());
        assert((first + rest).drop_last() =~= first + rest.drop_last());
        assert((first + rest).last() == rest.last());
        match rest.last() {
            DecodedView::Insert(message) => {
                assert(messages_of(first + rest) =~= messages_of(first) + messages_of(
                    rest.drop_last(),
                ).push(message));
            },
            _ => {},
        }
    }
}

/// Non-insert filtering, for a batch. The messages that are broadcast for a
/// batch are those that are broadcast for its insert events alone: updates,
/// deletes and unknown operations may stand anywhere in the batch, in any
/// number, and change nothing.
pub proof fn lemma_batch_ignores_non_inserts(events: Seq<ChangeEventView>)
    ensures
        messages_of(decoded_batch(events)) == messages_of(
            decoded_batch(events.filter(|e: ChangeEventView| is_insert(e))),
        ),
    decreases events.len(),
{
    reveal(Seq::filter);
    let inserts = events.filter(|e: ChangeEventView| is_insert(e));
    if events.len() == 0 {
        assert(inserts =~= Seq::<ChangeEventView>::empty());
    } else {
        let init = events.drop_last();
        let last = events.last();
        lemma_batch_ignores_non_inserts(init);
        let init_inserts = init.filter(|e: ChangeEventView| is_insert(e));
        assert(decoded_batch(events).drop_last() =~= decoded_batch(init));
        assert(decoded_batch(events).last() == decoded(last));
        if is_insert(last) {
            assert(inserts =~= init_inserts.push(last));
            assert(decoded_batch(inserts).drop_last() =~= decoded_batch(init_inserts));
            assert(decoded_batch(inserts).last() == decoded(last));
        } else {
            assert(inserts =~= init_inserts);
        }
    }
}

/// Every event of a batch has exactly one outcome, and at most as many
/// messages are broadcast as the batch has events.
pub proof fn lemma_batch_is_accounted_for(events: Seq<ChangeEventView>)
    ensures
        decoded_batch(events).len() == events.len(),
        messages_of(decoded_batch(events)).len() <= events.len(),
{
    lemma_messages_of_len(decoded_batch(events));
}

/// No more messages than outcomes.
pub proof fn lemma_messages_of_len(outcomes: Seq<DecodedView>)
    ensures
        messages_of(outcomes).len() <= outcomes.len(),
    decreases outcomes.len(),
{
    if outcomes.len() > 0 {
        lemma_messages_of_len(outcomes.drop_last());
    }
}

} // verus!
