//! The connection lifecycle handlers: what is registered when a subscriber
//! connects, and what is answered when it connects or disconnects.
//!
//! The handlers decide; the caller writes to the registry and reports how
//! that went.

use crate::clock::read_clock;
use crate::item::{get_string, string_of, Item, ItemView};
use crate::metrics::{
    connection_event_metrics, metric, records_view, Dimensions, MetricRecord, MetricRecordView,
    MetricUnit, MetricsHelper, MetricsHelperView,
};
use crate::registry::{Connection, ConnectionView};
use crate::string_map::StringMap;
use crate::text::{option_ref_text, option_text, text_or};
use crate::types::Millis;
use vstd::prelude::*;
use vstd::string::StringExecFns;

verus! {

/// What the transport tells of the connection that an event is about.
#[derive(Debug)]
pub struct RequestContext {
    pub connection_id: String,
    pub domain_name: Option<String>,
    pub stage: Option<String>,
}

/// The event of a subscriber connecting.
#[derive(Debug)]
pub struct ConnectEvent {
    pub request_context: RequestContext,
    /// The parameters of the query string with which the subscriber
    /// connected, where it gave any.
    pub query_string_parameters: Option<StringMap<String>>,
}

/// A connect event as contracts speak of it.
pub struct ConnectEventView {
    pub connection_id: Seq<char>,
    pub domain_name: Option<Seq<char>>,
    pub stage: Option<Seq<char>>,
    pub query_string_parameters: Option<Map<Seq<char>, Seq<char>>>,
}

impl View for ConnectEvent {
    type V = ConnectEventView;

    open spec fn view(&self) -> ConnectEventView {
        ConnectEventView {
            connection_id: self.request_context.connection_id@,
            domain_name: option_text(self.request_context.domain_name),
            stage: option_text(self.request_context.stage),
            query_string_parameters: match self.query_string_parameters {
                Some(parameters) => Some(parameters@),
                None => None,
            },
        }
    }
}

/// The answer of a handler to the transport.
#[derive(Debug, Clone, Copy, PartialEq, Eq, Structural)]
pub struct LambdaResponse {
    pub status_code: i32,
}

/// What a handler answers and what it records.
#[derive(Debug)]
pub struct HandlerReply {
    pub response: LambdaResponse,
    pub metrics: Vec<MetricRecord>,
}

/// A handler's reply as contracts speak of it.
pub struct HandlerReplyView {
    pub status_code: int,
    pub metrics: Seq<MetricRecordView>,
}

impl View for HandlerReply {
    type V = HandlerReplyView;

    open spec fn view(&self) -> HandlerReplyView {
        HandlerReplyView {
            status_code: self.response.status_code as int,
            metrics: records_view(self.metrics@),
        }
    }
}

/// The parameter of a name, where parameters were given and it is among them.
pub open spec fn parameter(
    parameters: Option<Map<Seq<char>, Seq<char>>>,
    name: Seq<char>,
) -> Option<Seq<char>> {
    match parameters {
        Some(given) => if given.contains_key(name) {
            Some(given[name])
        } else {
            None
        },
        None => None,
    }
}

/// The whole seconds of an instant, rounded towards 1970.
pub open spec fn whole_seconds(at: Millis) -> int {
    if at >= 0 {
        at / 1000
    } else {
        -((-at) / 1000)
    }
}

/// A row expires a day after the connection was made.
pub open spec fn expiry(connected_at: Millis) -> int {
    whole_seconds(connected_at) + 86_400
}

/// The connection that is registered for a connect event at the instant
/// `now`. A subscriber that names no room joins `general`, one that gives no
/// name is `anon`, and what the transport does not tell is `unknown`.
pub open spec fn connection_for(event: ConnectEventView, now: Millis) -> ConnectionView {
    ConnectionView {
        connection_id: event.connection_id,
        room_id: text_or(parameter(event.query_string_parameters, "room_id"@), "general"@),
        username: text_or(parameter(event.query_string_parameters, "username"@), "anon"@),
        connected_at: now,
        domain: text_or(event.domain_name, "unknown"@),
        stage: text_or(event.stage, "unknown"@),
        ttl: expiry(now) as i64,
    }
}

/// A text, or a default in its place.
fn text_or_default(text: Option<&String>, default: &str) -> (chosen: String)
    ensures
        chosen@ == text_or(option_ref_text(text), default@),
{
    match text {
        Some(t) => t.clone(),
        None => String::from_str(default),
    }
}

/// Reads one parameter of the query string.
fn query_parameter<'a>(parameters: &'a Option<StringMap<String>>, name: &str) -> (found: Option<
    &'a String,
>)
    ensures
        option_ref_text(found) == parameter(
            match parameters {
                Some(given) => Some(given@),
                None => None,
            },
            name@,
        ),
{
    match parameters {
        Some(given) => given.get(name),
        None => None,
    }
}

/// The connection to register for a connect event that arrives at `now`.
pub fn plan_connect(event: &ConnectEvent, now: Millis) -> (connection: Connection)
    ensures
        connection@ == connection_for(event@, now),
{
    let seconds: i64 = if now >= 0 {
        now / 1000
    } else if now == i64::MIN {
        -9_223_372_036_854_775
    } else {
        -((-now) / 1000)
    };
    Connection {
        connection_id: event.request_context.connection_id.clone(),
        room_id: text_or_default(
            query_parameter(&event.query_string_parameters, "room_id"),
            "general",
        ),
        username: text_or_default(
            query_parameter(&event.query_string_parameters, "username"),
            "anon",
        ),
        connected_at: now,
        domain: text_or_default(event.request_context.domain_name.as_ref(), "unknown"),
        stage: text_or_default(event.request_context.stage.as_ref(), "unknown"),
        ttl: seconds + 86_400,
    }
}

/// The connection to register for a connect event that arrives now.
pub fn connect(event: &ConnectEvent) -> (connection: Connection)
    ensures
        exists|now: Millis| connection@ == #[trigger] connection_for(event@, now),
{
    let now = read_clock();
    plan_connect(event, now.millis)
}

/// The dimensions of the record of a failed write to the registry.
pub open spec fn database_error_dimensions(room_id: Seq<char>) -> Map<Seq<char>, Seq<char>> {
    Map::<Seq<char>, Seq<char>>::empty().insert("ErrorType"@, "DatabaseError"@).insert(
        "RoomId"@,
        room_id,
    )
}

/// The reply to a connect event: always success. One connection event is
/// recorded where the connection was stored, one connection error where it
/// was not; the failed write shows in the metrics and nowhere else.
pub open spec fn connect_reply(
    helper: MetricsHelperView,
    room_id: Seq<char>,
    stored: bool,
) -> HandlerReplyView {
    if stored {
        HandlerReplyView {
            status_code: 200,
            metrics: connection_event_metrics(helper, "connect"@, room_id, None),
        }
    } else {
        HandlerReplyView {
            status_code: 200,
            metrics: seq![
                metric(
                    helper,
                    "ConnectionErrors"@,
                    MetricUnit::Count,
                    1,
                    database_error_dimensions(room_id),
                ),
            ],
        }
    }
}

/// The reply to a disconnect event: always success, so that the transport
/// does not repeat the event; a row that could not be deleted expires by
/// itself. One connection event is recorded where the row was deleted, one
/// disconnection error where it was not.
pub open spec fn disconnect_reply(
    helper: MetricsHelperView,
    room_id: Seq<char>,
    deleted: bool,
) -> HandlerReplyView {
    if deleted {
        HandlerReplyView {
            status_code: 200,
            metrics: connection_event_metrics(helper, "disconnect"@, room_id, None),
        }
    } else {
        HandlerReplyView {
            status_code: 200,
            metrics: seq![
                metric(
                    helper,
                    "DisconnectionErrors"@,
                    MetricUnit::Count,
                    1,
                    database_error_dimensions(room_id),
                ),
            ],
        }
    }
}

/// The dimensions of the record of a failed write to the registry.
fn database_error_dimension_list(room_id: &str) -> (dimensions: Dimensions)
    ensures
        dimensions@ == database_error_dimensions(room_id@),
{
    let mut dimensions: Dimensions = StringMap::new();
    dimensions.insert(String::from_str("ErrorType"), String::from_str("DatabaseError"));
    dimensions.insert(String::from_str("RoomId"), String::from_str(room_id));
    dimensions
}

/// Answers a connect event, once the registry has been written to. The
/// subscriber is told of success whether or not the write succeeded.
pub fn connect_response(metrics: &MetricsHelper, room_id: &str, stored: bool) -> (reply:
    HandlerReply)
    ensures
        reply@ == connect_reply(metrics@, room_id@, stored),
        reply.response.status_code == 200,
{
    if stored {
        HandlerReply {
            response: LambdaResponse { status_code: 200 },
            metrics: metrics.emit_connection_event("connect", room_id, None),
        }
    } else {
        let mut records: Vec<MetricRecord> = Vec::new();
        records.push(
            metrics.emit_count(
                "ConnectionErrors",
                1,
                Some(database_error_dimension_list(room_id)),
            ),
        );
        proof {
            assert(records_view(records@) =~= connect_reply(metrics@, room_id@, stored).metrics);
        }
        HandlerReply { response: LambdaResponse { status_code: 200 }, metrics: records }
    }
}

/// The room of a connection that is about to be deleted, for the metrics:
/// the room of its row, or `unknown` where the row could not be read, is
/// not there, or names no room.
pub open spec fn room_for_metrics(row: Option<ItemView>) -> Seq<char> {
    match row {
        Some(item) => text_or(string_of(item, "room_id"@), "unknown"@),
        None => "unknown"@,
    }
}

/// Finds the room of a connection that is about to be deleted.
pub fn disconnect_room(row: Option<&Item>) -> (room_id: String)
    ensures
        room_id@ == room_for_metrics(
            match row {
                Some(item) => Some(item@),
                None => None,
            },
        ),
{
    match row {
        Some(item) => text_or_default(get_string(item, "room_id"), "unknown"),
        None => String::from_str("unknown"),
    }
}

/// Answers a disconnect event, once the registry has been written to.
pub fn disconnect_response(metrics: &MetricsHelper, room_id: &str, deleted: bool) -> (reply:
    HandlerReply)
    ensures
        reply@ == disconnect_reply(metrics@, room_id@, deleted),
        reply.response.status_code == 200,
{
    if deleted {
        HandlerReply {
            response: LambdaResponse { status_code: 200 },
            metrics: metrics.emit_connection_event("disconnect", room_id, None),
        }
    } else {
        let mut records: Vec<MetricRecord> = Vec::new();
        records.push(
            metrics.emit_count(
                "DisconnectionErrors",
                1,
                Some(database_error_dimension_list(room_id)),
            ),
        );
        proof {
            assert(records_view(records@) =~= disconnect_reply(
                metrics@,
                room_id@,
                deleted,
            ).metrics);
        }
        HandlerReply { response: LambdaResponse { status_code: 200 }, metrics: records }
    }
}

} // verus!
