use backend::item::{AttributeValue, Item};
use backend::lifecycle::{
    connect, connect_response, disconnect_response, disconnect_room, plan_connect, ConnectEvent,
    RequestContext,
};
use backend::metrics::{MetricRecord, MetricUnit, MetricsHelper};
use backend::string_map::StringMap;

fn dimensions(record: &MetricRecord) -> Vec<(String, String)> {
    let mut listed: Vec<(String, String)> = (0..record.dimensions.len())
        .map(|i| {
            let (name, value) = record.dimensions.entry_at(i);
            (name.clone(), value.clone())
        })
        .collect();
    listed.sort();
    listed
}

fn event(parameters: Option<&[(&str, &str)]>) -> ConnectEvent {
    ConnectEvent {
        request_context: RequestContext {
            connection_id: "abc=".to_string(),
            domain_name: Some("ws.example.org".to_string()),
            stage: Some("beta".to_string()),
        },
        query_string_parameters: parameters.map(|given| {
            let mut map = StringMap::new();
            for (name, value) in given {
                map.insert(name.to_string(), value.to_string());
            }
            map
        }),
    }
}

#[test]
fn connect_takes_room_and_name_from_the_query() {
    let connection =
        plan_connect(&event(Some(&[("room_id", "rust"), ("username", "bob")])), 1_700_000_000_999);
    assert_eq!(connection.connection_id, "abc=");
    assert_eq!(connection.room_id, "rust");
    assert_eq!(connection.username, "bob");
    assert_eq!(connection.connected_at, 1_700_000_000_999);
    assert_eq!(connection.domain, "ws.example.org");
    assert_eq!(connection.stage, "beta");
    assert_eq!(connection.ttl, 1_700_000_000 + 86_400);
}

#[test]
fn connect_falls_back_to_defaults() {
    let mut bare = event(None);
    bare.request_context.domain_name = None;
    bare.request_context.stage = None;
    let connection = plan_connect(&bare, 0);
    assert_eq!(connection.room_id, "general");
    assert_eq!(connection.username, "anon");
    assert_eq!(connection.domain, "unknown");
    assert_eq!(connection.stage, "unknown");
    assert_eq!(connection.ttl, 86_400);

    let partial = plan_connect(&event(Some(&[("username", "bob"), ("other", "x")])), 0);
    assert_eq!(partial.room_id, "general");
    assert_eq!(partial.username, "bob");
}

#[test]
fn expiry_rounds_towards_the_epoch() {
    assert_eq!(plan_connect(&event(None), 1_999).ttl, 1 + 86_400);
    assert_eq!(plan_connect(&event(None), -1).ttl, 86_400);
    assert_eq!(plan_connect(&event(None), -1_999).ttl, -1 + 86_400);
    assert_eq!(plan_connect(&event(None), i64::MIN).ttl, i64::MIN / 1000 + 86_400);
    assert_eq!(plan_connect(&event(None), i64::MAX).ttl, i64::MAX / 1000 + 86_400);
}

#[test]
fn connect_reads_the_clock() {
    let before = chrono::Utc::now().timestamp_millis();
    let connection = connect(&event(None));
    let after = chrono::Utc::now().timestamp_millis();
    assert!(before <= connection.connected_at && connection.connected_at <= after);
    assert_eq!(connection.ttl, connection.connected_at / 1000 + 86_400);
}

#[test]
fn connect_always_answers_with_success() {
    let metrics = MetricsHelper::new(None);
    let stored = connect_response(&metrics, "rust", true);
    assert_eq!(stored.response.status_code, 200);
    assert_eq!(stored.metrics.len(), 1);
    assert_eq!(stored.metrics[0].name, "ConnectionEvents");
    assert_eq!(stored.metrics[0].value, 1);
    assert_eq!(stored.metrics[0].unit, MetricUnit::Count);
    assert_eq!(stored.metrics[0].namespace, "SwflcodersChat/unknown");
    assert_eq!(
        dimensions(&stored.metrics[0]),
        vec![
            ("EventType".to_string(), "connect".to_string()),
            ("RoomId".to_string(), "rust".to_string())
        ]
    );

    let failed = connect_response(&metrics, "rust", false);
    assert_eq!(failed.response.status_code, 200);
    assert_eq!(failed.metrics.len(), 1);
    assert_eq!(failed.metrics[0].name, "ConnectionErrors");
    assert_eq!(
        dimensions(&failed.metrics[0]),
        vec![
            ("ErrorType".to_string(), "DatabaseError".to_string()),
            ("RoomId".to_string(), "rust".to_string())
        ]
    );
}

#[test]
fn disconnect_always_answers_with_success() {
    let metrics = MetricsHelper::new(Some("prod".to_string()));
    let deleted = disconnect_response(&metrics, "rust", true);
    assert_eq!(deleted.response.status_code, 200);
    assert_eq!(deleted.metrics[0].name, "ConnectionEvents");
    assert_eq!(deleted.metrics[0].dimensions.get("EventType"), Some(&"disconnect".to_string()));
    let failed = disconnect_response(&metrics, "unknown", false);
    assert_eq!(failed.response.status_code, 200);
    assert_eq!(failed.metrics[0].name, "DisconnectionErrors");
    assert_eq!(failed.metrics[0].dimensions.get("RoomId"), Some(&"unknown".to_string()));
    assert_eq!(failed.metrics[0].dimensions.get("ErrorType"), Some(&"DatabaseError".to_string()));
}

#[test]
fn disconnect_finds_the_room_or_says_unknown() {
    let mut row = Item::new();
    row.insert("room_id".to_string(), AttributeValue::string("rust".to_string()));
    assert_eq!(disconnect_room(Some(&row)), "rust");
    assert_eq!(disconnect_room(None), "unknown");
    assert_eq!(disconnect_room(Some(&Item::new())), "unknown");
    let mut odd = Item::new();
    odd.insert("room_id".to_string(), AttributeValue::number("5".to_string()));
    assert_eq!(disconnect_room(Some(&odd)), "unknown");
}
