use backend::api::{messages_response, plan_post, validate_post, ValidPost};
use backend::clock::Now;
use backend::item::Item;
use backend::types::{GetMessagesResponse, HealthCheck, HealthStatus, Message, SendMessageRequest};
use backend::wire::serialize_message;
use chrono::Utc;

fn row_of(message: &Message) -> Item {
    let valid = ValidPost {
        room_id: message.room_id.clone(),
        username: message.username.clone(),
        message_text: message.message_text.clone(),
    };
    let now = Now {
        millis: message.created_at,
        seconds: message.created_at / 1000,
        rfc3339: String::new(),
    };
    plan_post(&valid, message.id.clone(), &now).item
}

#[test]
fn test_health_check() {
    let health = HealthCheck {
        status: HealthStatus::Healthy,
        version: "0.1.0".to_string(),
        timestamp: Utc::now().timestamp_millis(),
    };

    assert_eq!(health.status, HealthStatus::Healthy);
    assert_eq!(health.version, "0.1.0");
}

#[test]
fn test_message_serialization() {
    let message = Message {
        id: "msg123".to_string(),
        room_id: "general".to_string(),
        username: "alice".to_string(),
        message_text: "Hello world!".to_string(),
        created_at: Utc::now().timestamp_millis(),
    };

    let json = serialize_message(&message).unwrap();
    let deserialized: serde_json::Value = serde_json::from_str(&json).unwrap();

    assert_eq!(message.id, deserialized["id"]);
    assert_eq!(message.room_id, deserialized["room_id"]);
    assert_eq!(message.username, deserialized["username"]);
    assert_eq!(message.message_text, deserialized["message_text"]);
}

#[test]
fn test_send_message_request_validation() {
    let request = SendMessageRequest {
        room_id: "general".to_string(),
        username: "alice".to_string(),
        message_text: "Hello!".to_string(),
    };

    let checked = validate_post(&request).unwrap();

    assert_eq!(request.room_id, checked.room_id);
    assert_eq!(request.username, checked.username);
    assert_eq!(request.message_text, checked.message_text);
}

#[test]
fn test_get_messages_response() {
    let messages = vec![
        Message {
            id: "msg1".to_string(),
            room_id: "general".to_string(),
            username: "alice".to_string(),
            message_text: "Hello!".to_string(),
            created_at: Utc::now().timestamp_millis(),
        },
        Message {
            id: "msg2".to_string(),
            room_id: "general".to_string(),
            username: "bob".to_string(),
            message_text: "Hi Alice!".to_string(),
            created_at: Utc::now().timestamp_millis(),
        },
    ];

    let response = GetMessagesResponse { room_id: "general".to_string(), messages };

    let rows: Vec<Item> = response.messages.iter().map(row_of).collect();
    let read_back = messages_response(response.room_id.clone(), &rows);

    assert_eq!(response.room_id, read_back.room_id);
    assert_eq!(response.messages.len(), read_back.messages.len());
    assert_eq!(response.messages[0].username, "alice");
    assert_eq!(response.messages[1].username, "bob");
    assert_eq!(read_back.messages[0].username, "alice");
    assert_eq!(read_back.messages[1].username, "bob");
    assert_eq!(read_back.messages[0].created_at, response.messages[0].created_at);
}
