//! The request/response interface: what a posted message must look like,
//! what is stored for it, and what is read back.
//!
//! The functions here decide and compute. Reading and writing the store is
//! the caller's part: it reports what the store said and is told what to do
//! next.

use crate::clock::{read_clock, Now};
use crate::item::{
    get_number, get_string, items_view, number_attribute, number_of, string_attribute, string_of,
    AttributeValue, AttributeValueView, Item, ItemView,
};
use crate::metrics::{
    message_sent_metrics, records_view, MetricRecord, MetricRecordView, MetricsHelper,
};
use crate::string_map::StringMap;
use crate::text::{
    decimal_i64, decimal_text, i64_to_text, is_whitespace, lemma_decimal_round_trip,
    lemma_trimmed, lowercase, parse_i64, same_text, trimmed, utf8_len,
};
use crate::types::{
    ChatMessage, GetMessagesResponse, HealthCheck, HealthStatus, Message, MessageView, Millis,
    SendMessageRequest,
};
use crate::wire::{chrono_represents, is_representable};
use vstd::prelude::*;
use vstd::string::StringExecFns;

verus! {

/// An error as the interface reports it: a message for the client and the
/// status of the response.
#[derive(Debug)]
pub struct AppError {
    pub message: String,
    pub status_code: u16,
}

/// An error as contracts speak of it.
pub struct AppErrorView {
    pub message: Seq<char>,
    pub status_code: int,
}

impl View for AppError {
    type V = AppErrorView;

    open spec fn view(&self) -> AppErrorView {
        AppErrorView { message: self.message@, status_code: self.status_code as int }
    }
}

/// The error that says a request is not acceptable.
pub open spec fn bad_request(message: Seq<char>) -> AppErrorView {
    AppErrorView { message, status_code: 400 }
}

/// The error that stands for every failure of the store: the client is told
/// no more than that the failure is not its own.
pub open spec fn internal_error() -> AppErrorView {
    AppErrorView { message: "Internal server error"@, status_code: 500 }
}

impl AppError {
    /// The error that says a request is not acceptable.
    fn bad_request(message: &str) -> (error: AppError)
        ensures
            error@ == bad_request(message@),
    {
        AppError { message: String::from_str(message), status_code: 400 }
    }

    /// The error that stands for every failure of the store.
    fn internal() -> (error: AppError)
        ensures
            error@ == internal_error(),
    {
        AppError { message: String::from_str("Internal server error"), status_code: 500 }
    }

    /// The error reported for a failure of the store, whatever the failure
    /// was: the cause is for the log, not for the client.
    pub fn from_error<E>(_cause: E) -> (error: AppError)
        ensures
            error@ == internal_error(),
    {
        AppError::internal()
    }
}

/// The most bytes that a user name may have.
pub const MAX_USERNAME_BYTES: usize = 50;

/// The most bytes that the text of a message may have.
pub const MAX_MESSAGE_BYTES: usize = 500;

/// The most messages that are read back for a room.
pub const MESSAGES_PAGE_SIZE: i32 = 25;

/// What becomes of a text that must not be empty nor longer than `limit`
/// bytes once the white space around it is gone.
pub open spec fn checked_text(
    text: Seq<char>,
    limit: usize,
    when_empty: Seq<char>,
    when_long: Seq<char>,
) -> Result<Seq<char>, AppErrorView> {
    if trimmed(text).len() == 0 {
        Err(bad_request(when_empty))
    } else if utf8_len(trimmed(text)) > limit {
        Err(bad_request(when_long))
    } else {
        Ok(trimmed(text))
    }
}

/// What becomes of a user name.
pub open spec fn checked_username(username: Seq<char>) -> Result<Seq<char>, AppErrorView> {
    checked_text(
        username,
        MAX_USERNAME_BYTES,
        "Username cannot be empty"@,
        "Username cannot be longer than 50 characters"@,
    )
}

/// What becomes of the text of a message.
pub open spec fn checked_message_text(message_text: Seq<char>) -> Result<Seq<char>, AppErrorView> {
    checked_text(
        message_text,
        MAX_MESSAGE_BYTES,
        "Message text cannot be empty"@,
        "Message text cannot be longer than 500 characters"@,
    )
}

/// What becomes of the name of a room: it is trimmed and put in lower case.
pub open spec fn checked_room_id(room_id: Seq<char>) -> Result<Seq<char>, AppErrorView> {
    if trimmed(room_id).len() == 0 {
        Err(bad_request("Room ID cannot be empty"@))
    } else {
        Ok(lowercase(trimmed(room_id)))
    }
}

/// A text that passes the check is not empty, is within the limit, neither
/// begins nor ends with white space, and passes the check again as it is.
pub proof fn lemma_checked_text_is_stable(
    text: Seq<char>,
    limit: usize,
    when_empty: Seq<char>,
    when_long: Seq<char>,
)
    ensures
        checked_text(text, limit, when_empty, when_long) matches Ok(accepted) ==> {
            &&& accepted.len() > 0
            &&& utf8_len(accepted) <= limit
            &&& !is_whitespace(accepted.first())
            &&& !is_whitespace(accepted.last())
            &&& checked_text(accepted, limit, when_empty, when_long) == Ok::<
                Seq<char>,
                AppErrorView,
            >(accepted)
        },
        checked_text(text, limit, when_empty, when_long) matches Err(error) ==> error.status_code
            == 400,
{
    lemma_trimmed(text);
}

/// The view of the outcome of a check.
pub open spec fn checked_view(outcome: Result<String, AppError>) -> Result<Seq<char>, AppErrorView> {
    match outcome {
        Ok(text) => Ok(text@),
        Err(error) => Err(error@),
    }
}

/// Checks a text that must not be empty nor too long.
fn validate_text(text: &str, limit: usize, when_empty: &str, when_long: &str) -> (outcome: Result<
    String,
    AppError,
>)
    ensures
        checked_view(outcome) == checked_text(text@, limit, when_empty@, when_long@),
{
    let rest = text.trim();
    if rest.is_empty() {
        return Err(AppError::bad_request(when_empty));
    }
    if rest.len() > limit {
        return Err(AppError::bad_request(when_long));
    }
    Ok(String::from_str(rest))
}

/// Checks a user name: trimmed, it must have between 1 and 50 bytes.
pub fn validate_username(username: &str) -> (outcome: Result<String, AppError>)
    ensures
        checked_view(outcome) == checked_username(username@),
{
    validate_text(
        username,
        MAX_USERNAME_BYTES,
        "Username cannot be empty",
        "Username cannot be longer than 50 characters",
    )
}

/// Checks the text of a message: trimmed, it must have between 1 and 500
/// bytes.
pub fn validate_message_text(message_text: &str) -> (outcome: Result<String, AppError>)
    ensures
        checked_view(outcome) == checked_message_text(message_text@),
{
    validate_text(
        message_text,
        MAX_MESSAGE_BYTES,
        "Message text cannot be empty",
        "Message text cannot be longer than 500 characters",
    )
}

/// Checks the name of a room: trimmed, it must not be empty. Names differ
/// by more than case.
pub fn validate_room_id(room_id: &str) -> (outcome: Result<String, AppError>)
    ensures
        checked_view(outcome) == checked_room_id(room_id@),
{
    let rest = room_id.trim();
    if rest.is_empty() {
        return Err(AppError::bad_request("Room ID cannot be empty"));
    }
    Ok(rest.to_lowercase())
}

/// What the store said when it was asked for a room.
#[derive(Debug, Clone, Copy, PartialEq, Eq, Structural)]
pub enum RoomLookup {
    /// The room is there.
    Found,
    /// There is no such room.
    Missing,
    /// The store could not be read.
    Unavailable,
}

/// What is to be done about a room before a message is posted to it.
#[derive(Debug)]
pub enum RoomStep {
    /// Nothing: the room is there.
    Ready,
    /// The room is to be created with this row, on condition that no row
    /// has its `id` yet.
    Create { item: Item },
    /// The request fails.
    Fail { error: AppError },
}

/// A step about a room as contracts speak of it.
pub enum RoomStepView {
    Ready,
    Create { item: ItemView },
    Fail { error: AppErrorView },
}

impl View for RoomStep {
    type V = RoomStepView;

    open spec fn view(&self) -> RoomStepView {
        match self {
            RoomStep::Ready => RoomStepView::Ready,
            RoomStep::Create { item } => RoomStepView::Create { item: item@ },
            RoomStep::Fail { error } => RoomStepView::Fail { error: error@ },
        }
    }
}

/// The name under which a room is shown: the room `general` is `General`,
/// every other room goes by its identifier.
pub open spec fn room_name(room_id: Seq<char>) -> Seq<char> {
    if room_id == "general"@ {
        "General"@
    } else {
        room_id
    }
}

/// The row of a room that is created at the instant whose RFC 3339 text is
/// `created_at_iso` and whose second is `created_at_epoch`.
pub open spec fn room_item(
    room_id: Seq<char>,
    created_at_iso: Seq<char>,
    created_at_epoch: i64,
) -> ItemView {
    Map::<Seq<char>, AttributeValueView>::empty().insert("id"@, string_attribute(room_id)).insert(
        "name"@,
        string_attribute(room_name(room_id)),
    ).insert("created_at_iso"@, string_attribute(created_at_iso)).insert(
        "created_at_epoch"@,
        number_attribute(decimal_text(created_at_epoch as int)),
    )
}

/// What is to be done about a room, given what the store said of it.
pub open spec fn room_step(
    room_id: Seq<char>,
    lookup: RoomLookup,
    created_at_iso: Seq<char>,
    created_at_epoch: i64,
) -> RoomStepView {
    match lookup {
        RoomLookup::Found => RoomStepView::Ready,
        RoomLookup::Missing => RoomStepView::Create {
            item: room_item(room_id, created_at_iso, created_at_epoch),
        },
        RoomLookup::Unavailable => RoomStepView::Fail { error: internal_error() },
    }
}

/// Decides what is to be done about a room, with the present moment given.
pub fn plan_room(room_id: &str, lookup: RoomLookup, now: &Now) -> (step: RoomStep)
    ensures
        step@ == room_step(room_id@, lookup, now.rfc3339@, now.seconds),
{
    match lookup {
        RoomLookup::Found => RoomStep::Ready,
        RoomLookup::Missing => {
            let name = if same_text(room_id, "general") {
                String::from_str("General")
            } else {
                String::from_str(room_id)
            };
            let mut item: Item = StringMap::new();
            item.insert(String::from_str("id"), AttributeValue::string(String::from_str(room_id)));
            item.insert(String::from_str("name"), AttributeValue::string(name));
            item.insert(
                String::from_str("created_at_iso"),
                AttributeValue::string(now.rfc3339.clone()),
            );
            item.insert(
                String::from_str("created_at_epoch"),
                AttributeValue::number(i64_to_text(now.seconds)),
            );
            RoomStep::Create { item }
        },
        RoomLookup::Unavailable => RoomStep::Fail { error: AppError::internal() },
    }
}

/// Decides what is to be done about a room before a message is posted to
/// it: nothing where it is there, its creation where it is missing, and
/// failure where the store could not be read.
pub fn ensure_room_exists(room_id: &str, lookup: RoomLookup) -> (step: RoomStep)
    ensures
        lookup == RoomLookup::Found ==> step@ == RoomStepView::Ready,
        lookup == RoomLookup::Unavailable ==> step@ == (RoomStepView::Fail {
            error: internal_error(),
        }),
        lookup == RoomLookup::Missing ==> exists|created_at_iso: Seq<char>, created_at_epoch: i64|
            step@ == #[trigger] room_step(room_id@, lookup, created_at_iso, created_at_epoch),
{
    let now = read_clock();
    let step = plan_room(room_id, lookup, &now);
    proof {
        assert(step@ == room_step(room_id@, lookup, now.rfc3339@, now.seconds));
    }
    step
}

/// What follows the attempt to create a room: the request goes on where
/// the row was written and fails where it was not.
pub fn room_created(stored: bool) -> (outcome: Result<(), AppError>)
    ensures
        stored ==> outcome is Ok,
        !stored ==> outcome is Err && outcome->Err_0@ == internal_error(),
{
    if stored {
        Ok(())
    } else {
        Err(AppError::internal())
    }
}

/// A request to post a message whose fields have been checked.
#[derive(Debug)]
pub struct ValidPost {
    pub room_id: String,
    pub username: String,
    pub message_text: String,
}

/// A checked request as contracts speak of it.
pub struct ValidPostView {
    pub room_id: Seq<char>,
    pub username: Seq<char>,
    pub message_text: Seq<char>,
}

impl View for ValidPost {
    type V = ValidPostView;

    open spec fn view(&self) -> ValidPostView {
        ValidPostView {
            room_id: self.room_id@,
            username: self.username@,
            message_text: self.message_text@,
        }
    }
}

impl View for SendMessageRequest {
    type V = ValidPostView;

    open spec fn view(&self) -> ValidPostView {
        ValidPostView {
            room_id: self.room_id@,
            username: self.username@,
            message_text: self.message_text@,
        }
    }
}

/// What becomes of a request to post a message: the room, the user name and
/// the text are checked in this order, and the first that fails decides.
pub open spec fn checked_post(request: ValidPostView) -> Result<ValidPostView, AppErrorView> {
    match checked_room_id(request.room_id) {
        Err(error) => Err(error),
        Ok(room_id) => match checked_username(request.username) {
            Err(error) => Err(error),
            Ok(username) => match checked_message_text(request.message_text) {
                Err(error) => Err(error),
                Ok(message_text) => Ok(ValidPostView { room_id, username, message_text }),
            },
        },
    }
}

/// Checks a request to post a message.
pub fn validate_post(request: &SendMessageRequest) -> (outcome: Result<ValidPost, AppError>)
    ensures
        match outcome {
            Ok(valid) => checked_post(request@) == Ok::<ValidPostView, AppErrorView>(valid@),
            Err(error) => checked_post(request@) == Err::<ValidPostView, AppErrorView>(error@),
        },
{
    let room_id = match validate_room_id(request.room_id.as_str()) {
        Ok(text) => text,
        Err(error) => { return Err(error); },
    };
    let username = match validate_username(request.username.as_str()) {
        Ok(text) => text,
        Err(error) => { return Err(error); },
    };
    let message_text = match validate_message_text(request.message_text.as_str()) {
        Ok(text) => text,
        Err(error) => { return Err(error); },
    };
    Ok(ValidPost { room_id, username, message_text })
}

/// What is stored and what is answered for a posted message.
#[derive(Debug)]
pub struct PostPlan {
    /// The row of the message.
    pub item: Item,
    /// The message as the client is told of it once the row is written.
    pub message: ChatMessage,
}

/// The row of a message.
pub open spec fn message_item(message: MessageView, created_at_iso: Seq<char>) -> ItemView {
    Map::<Seq<char>, AttributeValueView>::empty().insert("id"@, string_attribute(message.id)).insert(
        "room_id"@,
        string_attribute(message.room_id),
    ).insert("username"@, string_attribute(message.username)).insert(
        "message_text"@,
        string_attribute(message.message_text),
    ).insert("ts"@, number_attribute(decimal_text(message.created_at as int))).insert(
        "created_at_iso"@,
        string_attribute(created_at_iso),
    )
}

/// The row of a message holds the message: its strings can be read off it,
/// and its time of creation reads back as the same instant.
pub proof fn lemma_message_item(message: MessageView, created_at_iso: Seq<char>)
    ensures
        string_of(message_item(message, created_at_iso), "id"@) == Some(message.id),
        string_of(message_item(message, created_at_iso), "room_id"@) == Some(message.room_id),
        string_of(message_item(message, created_at_iso), "username"@) == Some(message.username),
        string_of(message_item(message, created_at_iso), "message_text"@) == Some(
            message.message_text,
        ),
        number_of(message_item(message, created_at_iso), "ts"@) == Some(
            decimal_text(message.created_at as int),
        ),
        decimal_i64(decimal_text(message.created_at as int)) == Some(message.created_at),
{
    reveal_strlit("id");
    reveal_strlit("room_id");
    reveal_strlit("username");
    reveal_strlit("message_text");
    reveal_strlit("ts");
    reveal_strlit("created_at_iso");
    assert("id"@.len() != "room_id"@.len());
    assert("id"@.len() != "username"@.len());
    assert("id"@.len() != "message_text"@.len());
    assert("id"@[0] != "ts"@[0]);
    assert("id"@.len() != "created_at_iso"@.len());
    assert("room_id"@.len() != "username"@.len());
    assert("room_id"@.len() != "message_text"@.len());
    assert("room_id"@.len() != "ts"@.len());
    assert("room_id"@.len() != "created_at_iso"@.len());
    assert("username"@.len() != "message_text"@.len());
    assert("username"@.len() != "ts"@.len());
    assert("username"@.len() != "created_at_iso"@.len());
    assert("message_text"@.len() != "ts"@.len());
    assert("message_text"@.len() != "created_at_iso"@.len());
    assert("ts"@.len() != "created_at_iso"@.len());
    lemma_decimal_round_trip(message.created_at);
}

/// What is posted is broadcast. The row that is stored for a posted message
/// is decoded by the change feed consumer into that very message, whatever
/// the message is.
pub proof fn lemma_posted_message_is_broadcast(message: MessageView, created_at_iso: Seq<char>)
    ensures
        crate::feed::image_message(message_item(message, created_at_iso)) == Ok::<
            MessageView,
            crate::feed::DecodeError,
        >(message),
{
    lemma_message_item(message, created_at_iso);
}

/// What is posted is read back. The row that is stored for a posted message
/// is read back, for the room of the message, as that very message, provided
/// that its time of creation is one that `chrono` represents.
pub proof fn lemma_posted_message_is_read_back(message: MessageView, created_at_iso: Seq<char>)
    requires
        chrono_represents(message.created_at),
    ensures
        stored_message(message_item(message, created_at_iso), message.room_id) == Some(message),
{
    lemma_message_item(message, created_at_iso);
}

/// The message that a checked request posts under the identifier `id` at
/// the instant `at`.
pub open spec fn posted_message(valid: ValidPostView, id: Seq<char>, at: Millis) -> MessageView {
    MessageView {
        id,
        room_id: valid.room_id,
        username: valid.username,
        message_text: valid.message_text,
        created_at: at,
    }
}

/// Plans the posting of a checked request, with the message's identifier
/// and the present moment given.
pub fn plan_post(valid: &ValidPost, message_id: String, now: &Now) -> (plan: PostPlan)
    ensures
        plan.message@ == posted_message(valid@, message_id@, now.millis),
        plan.item@ == message_item(plan.message@, now.rfc3339@),
{
    let mut item: Item = StringMap::new();
    item.insert(String::from_str("id"), AttributeValue::string(message_id.clone()));
    item.insert(String::from_str("room_id"), AttributeValue::string(valid.room_id.clone()));
    item.insert(String::from_str("username"), AttributeValue::string(valid.username.clone()));
    item.insert(
        String::from_str("message_text"),
        AttributeValue::string(valid.message_text.clone()),
    );
    item.insert(String::from_str("ts"), AttributeValue::number(i64_to_text(now.millis)));
    item.insert(String::from_str("created_at_iso"), AttributeValue::string(now.rfc3339.clone()));
    PostPlan {
        item,
        message: ChatMessage {
            id: message_id,
            room_id: valid.room_id.clone(),
            username: valid.username.clone(),
            message_text: valid.message_text.clone(),
            created_at: now.millis,
        },
    }
}

/// Calls `uuid::Uuid::new_v4` and writes the identifier in its usual form
/// of 32 hexadecimal digits in five groups. The identifier is random, so
/// nothing is claimed of it.
#[verifier::external_body]
fn new_message_id() -> String {
    uuid::Uuid::new_v4().to_string()
}

/// Plans the posting of a checked request: the message gets a fresh random
/// identifier and the present moment as its time of creation.
pub fn post_message(valid: &ValidPost) -> (plan: PostPlan)
    ensures
        exists|id: Seq<char>, at: Millis| plan.message@ == #[trigger] posted_message(valid@, id, at),
        exists|created_at_iso: Seq<char>|
            plan.item@ == #[trigger] message_item(plan.message@, created_at_iso),
{
    let now = read_clock();
    let id = new_message_id();
    let ghost shown = id@;
    let plan = plan_post(valid, id, &now);
    proof {
        assert(plan.message@ == posted_message(valid@, shown, now.millis));
        assert(plan.item@ == message_item(plan.message@, now.rfc3339@));
    }
    plan
}

/// The answer to a request to post a message, once the store has been
/// written to.
#[derive(Debug)]
pub enum PostReply {
    /// The message was created: status 201, the message, and the metrics of
    /// a posted message.
    Created { message: ChatMessage, metrics: Vec<MetricRecord> },
    /// The store could not be written to.
    Failed { error: AppError },
}

/// The answer to a posted message as contracts speak of it.
pub enum PostReplyView {
    Created { message: MessageView, metrics: Seq<MetricRecordView> },
    Failed { error: AppErrorView },
}

impl View for PostReply {
    type V = PostReplyView;

    open spec fn view(&self) -> PostReplyView {
        match self {
            PostReply::Created { message, metrics } => PostReplyView::Created {
                message: message@,
                metrics: records_view(metrics@),
            },
            PostReply::Failed { error } => PostReplyView::Failed { error: error@ },
        }
    }
}

/// The status of the answer to a posted message.
pub open spec fn post_status(reply: PostReplyView) -> int {
    match reply {
        PostReplyView::Created { .. } => 201,
        PostReplyView::Failed { error } => error.status_code,
    }
}

/// Answers a request to post a message, once the store has been written to.
pub fn post_reply(metrics: &MetricsHelper, message: ChatMessage, stored: bool) -> (reply: PostReply)
    ensures
        stored ==> reply@ == (PostReplyView::Created {
            message: message@,
            metrics: message_sent_metrics(
                metrics@,
                message@.room_id,
                utf8_len(message@.message_text) as int,
            ),
        }),
        !stored ==> reply@ == (PostReplyView::Failed { error: internal_error() }),
{
    if stored {
        let records = metrics.emit_message_sent(
            message.room_id.as_str(),
            message.message_text.as_str().len(),
        );
        PostReply::Created { message, metrics: records }
    } else {
        PostReply::Failed { error: AppError::internal() }
    }
}

/// The message that a row of the store holds, read for the room `room_id`:
/// its `id`, `username` and `message_text` are strings and its `ts` is the
/// decimal of an instant that `chrono` represents. A row that lacks any of
/// these holds no message.
pub open spec fn stored_message(item: ItemView, room_id: Seq<char>) -> Option<MessageView> {
    if string_of(item, "id"@) is Some && string_of(item, "username"@) is Some && string_of(
        item,
        "message_text"@,
    ) is Some && number_of(item, "ts"@) is Some && decimal_i64(number_of(item, "ts"@)->0) is Some
        && chrono_represents(decimal_i64(number_of(item, "ts"@)->0)->0) {
        Some(
            MessageView {
                id: string_of(item, "id"@)->0,
                room_id,
                username: string_of(item, "username"@)->0,
                message_text: string_of(item, "message_text"@)->0,
                created_at: decimal_i64(number_of(item, "ts"@)->0)->0,
            },
        )
    } else {
        None
    }
}

/// The messages that a list of rows holds, in the rows' order; rows that
/// hold none are left out.
pub open spec fn stored_messages(items: Seq<ItemView>, room_id: Seq<char>) -> Seq<MessageView>
    decreases items.len(),
{
    if items.len() == 0 {
        Seq::empty()
    } else {
        match stored_message(items.last(), room_id) {
            Some(message) => stored_messages(items.drop_last(), room_id).push(message),
            None => stored_messages(items.drop_last(), room_id),
        }
    }
}

/// The views of a list of messages.
pub open spec fn messages_view(messages: Seq<Message>) -> Seq<MessageView> {
    messages.map_values(|m: Message| m@)
}

/// Reads the message that a row holds.
pub fn read_message(item: &Item, room_id: &str) -> (found: Option<Message>)
    ensures
        match found {
            Some(message) => stored_message(item@, room_id@) == Some(message@),
            None => stored_message(item@, room_id@) is None,
        },
{
    let id = match get_string(item, "id") {
        Some(text) => text,
        None => { return None; },
    };
    let username = match get_string(item, "username") {
        Some(text) => text,
        None => { return None; },
    };
    let message_text = match get_string(item, "message_text") {
        Some(text) => text,
        None => { return None; },
    };
    let ts = match get_number(item, "ts") {
        Some(text) => match parse_i64(text.as_str()) {
            Some(ts) => ts,
            None => { return None; },
        },
        None => { return None; },
    };
    if !is_representable(ts) {
        return None;
    }
    Some(
        Message {
            id: id.clone(),
            room_id: String::from_str(room_id),
            username: username.clone(),
            message_text: message_text.clone(),
            created_at: ts,
        },
    )
}

/// Answers a request for the messages of a room from the rows that the
/// store returned for it.
pub fn messages_response(room_id: String, items: &Vec<Item>) -> (response: GetMessagesResponse)
    ensures
        response.room_id@ == room_id@,
        messages_view(response.messages@) == stored_messages(
            items_view(items@),
            room_id@,
        ),
        forall|i: int|
            0 <= i < response.messages@.len() ==> chrono_represents(
                (#[trigger] response.messages@[i]).created_at,
            ),
{
    let mut messages: Vec<Message> = Vec::new();
    let mut i: usize = 0;
    let ghost rows = items_view(items@);
    proof {
        assert(rows.take(0) =~= Seq::<ItemView>::empty());
        assert(messages_view(messages@) =~= Seq::<MessageView>::empty());
    }
    while i < items.len()
        invariant
            i <= items.len(),
            rows == items_view(items@),
            messages_view(messages@) == stored_messages(rows.take(i as int), room_id@),
            forall|k: int|
                0 <= k < messages@.len() ==> chrono_represents(
                    (#[trigger] messages@[k]).created_at,
                ),
        decreases items.len() - i,
    {
        let ghost before = messages_view(messages@);
        proof {
            let upto = rows.take(i + 1);
            assert(upto.drop_last() =~= rows.take(i as int));
            assert(upto.last() == items@[i as int]@);
        }
        match read_message(&items[i], room_id.as_str()) {
            Some(message) => {
                messages.push(message);
                proof {
                    assert(messages_view(messages@) =~= before.push(message@));
                }
            },
            None => {},
        }
        i = i + 1;
    }
    proof {
        assert(rows.take(i as int) =~= rows);
    }
    GetMessagesResponse { room_id, messages }
}

/// The answer of the health endpoint at the instant `at`.
pub fn health_check_at(version: String, at: Millis) -> (health: HealthCheck)
    ensures
        health.status == HealthStatus::Healthy,
        health.version@ == version@,
        health.timestamp == at,
{
    HealthCheck { status: HealthStatus::Healthy, version, timestamp: at }
}

/// The answer of the health endpoint: the service is healthy, and says so
/// with its version and the present moment.
pub fn health_check(version: String) -> (health: HealthCheck)
    ensures
        health.status == HealthStatus::Healthy,
        health.version@ == version@,
{
    let now = read_clock();
    health_check_at(version, now.millis)
}

} // verus!
