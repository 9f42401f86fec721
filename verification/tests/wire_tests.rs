use backend::types::Message;
use backend::wire::{
    assemble_encodings, assemble_payload, encode_message, instant_text, serialize_message,
    WireError, CHRONO_MAX_MILLIS, CHRONO_MIN_MILLIS,
};

fn sample() -> Message {
    Message {
        id: "m1".to_string(),
        room_id: "general".to_string(),
        username: "alice".to_string(),
        message_text: "hi".to_string(),
        created_at: 1_700_000_000_000,
    }
}

#[test]
fn payload_of_sample_message_is_exact() {
    let payload = serialize_message(&sample()).unwrap();
    assert_eq!(
        payload,
        "{\"id\":\"m1\",\"room_id\":\"general\",\"username\":\"alice\",\"message_text\":\"hi\",\"created_at\":\"2023-11-14T22:13:20+00:00\"}"
    );
}

#[test]
fn payload_parses_back_to_the_fields() {
    let mut message = sample();
    message.message_text = "say \"hi\"\n\\ to all \u{1F600}".to_string();
    let payload = serialize_message(&message).unwrap();
    let value: serde_json::Value = serde_json::from_str(&payload).unwrap();
    assert_eq!(value["id"], "m1");
    assert_eq!(value["room_id"], "general");
    assert_eq!(value["username"], "alice");
    assert_eq!(value["message_text"], "say \"hi\"\n\\ to all \u{1F600}");
    assert_eq!(value["created_at"], "2023-11-14T22:13:20+00:00");
    assert_eq!(value.as_object().unwrap().len(), 5);
}

#[test]
fn encode_message_escapes_each_field() {
    let mut message = sample();
    message.id = "a\"b".to_string();
    let payload = encode_message(&message, "then").unwrap();
    assert_eq!(
        payload,
        "{\"id\":\"a\\\"b\",\"room_id\":\"general\",\"username\":\"alice\",\"message_text\":\"hi\",\"created_at\":\"then\"}"
    );
}

#[test]
fn assemble_payload_frames_the_values() {
    assert_eq!(
        assemble_payload("1", "2", "3", "4", "5"),
        "{\"id\":1,\"room_id\":2,\"username\":3,\"message_text\":4,\"created_at\":5}"
    );
}

#[test]
fn instant_text_writes_milliseconds_where_there_are_any() {
    assert_eq!(instant_text(0), "1970-01-01T00:00:00+00:00");
    assert_eq!(instant_text(947_638_923_004), "2000-01-12T01:02:03.004+00:00");
    assert_eq!(instant_text(-1), "1969-12-31T23:59:59.999+00:00");
}

#[test]
fn instant_text_reaches_the_ends_of_the_calendar() {
    assert_eq!(instant_text(CHRONO_MAX_MILLIS), "+262142-12-31T23:59:59.999+00:00");
    assert_eq!(instant_text(CHRONO_MIN_MILLIS), "-262143-01-01T00:00:00+00:00");
    assert!(chrono::DateTime::from_timestamp_millis(CHRONO_MAX_MILLIS).is_some());
    assert!(chrono::DateTime::from_timestamp_millis(CHRONO_MAX_MILLIS + 1).is_none());
    assert!(chrono::DateTime::from_timestamp_millis(CHRONO_MIN_MILLIS).is_some());
    assert!(chrono::DateTime::from_timestamp_millis(CHRONO_MIN_MILLIS - 1).is_none());
}

#[test]
fn instant_text_falls_back_to_the_present_moment() {
    let before = chrono::Utc::now();
    let text = instant_text(i64::MAX);
    let after = chrono::Utc::now();
    let written = chrono::DateTime::parse_from_rfc3339(&text).unwrap();
    assert!(before <= written && written <= after);
}

fn encoder_error() -> serde_json::Error {
    serde_json::from_str::<i32>("no number").unwrap_err()
}

#[test]
fn encodings_are_put_together_where_all_are_there() {
    let literal = |text: &str| Ok(text.to_string());
    assert_eq!(
        assemble_encodings(literal("1"), literal("2"), literal("3"), literal("4"), literal("5")),
        Ok("{\"id\":1,\"room_id\":2,\"username\":3,\"message_text\":4,\"created_at\":5}"
            .to_string())
    );
}

#[test]
fn one_failed_encoding_fails_the_payload() {
    for failing in 0..5 {
        let part = |index: usize| {
            if index == failing {
                Err(encoder_error())
            } else {
                Ok("\"x\"".to_string())
            }
        };
        assert_eq!(
            assemble_encodings(part(0), part(1), part(2), part(3), part(4)),
            Err(WireError::Encoding)
        );
    }
    assert_eq!(
        assemble_encodings(
            Err(encoder_error()),
            Err(encoder_error()),
            Err(encoder_error()),
            Err(encoder_error()),
            Err(encoder_error())
        ),
        Err(WireError::Encoding)
    );
}

#[test]
fn serialisation_succeeds_for_unusual_texts() {
    let mut message = sample();
    message.id = String::new();
    message.username = "\u{0}\u{1f}\u{7f}\u{2028}".to_string();
    message.message_text = "\\\"/\t\r\n".repeat(100);
    let payload = serialize_message(&message).unwrap();
    let value: serde_json::Value = serde_json::from_str(&payload).unwrap();
    assert_eq!(value["id"], "");
    assert_eq!(value["username"], message.username);
    assert_eq!(value["message_text"], message.message_text);
    assert_eq!(encode_message(&message, "").unwrap().ends_with("\"created_at\":\"\"}"), true);
}

fn expected_literal(text: &str) -> String {
    let mut literal = String::from("\"");
    for c in text.chars() {
        match c {
            '"' => literal.push_str("\\\""),
            '\\' => literal.push_str("\\\\"),
            '\u{8}' => literal.push_str("\\b"),
            '\t' => literal.push_str("\\t"),
            '\n' => literal.push_str("\\n"),
            '\u{c}' => literal.push_str("\\f"),
            '\r' => literal.push_str("\\r"),
            c if (c as u32) < 0x20 => literal.push_str(&format!("\\u00{:02x}", c as u32)),
            c => literal.push(c),
        }
    }
    literal.push('"');
    literal
}

fn payload_with_text(text: &str) -> String {
    let mut message = sample();
    message.message_text = text.to_string();
    encode_message(&message, "then").unwrap()
}

#[test]
fn every_character_is_escaped_as_stated() {
    let mut probes: Vec<char> = (0u32..0x100).filter_map(char::from_u32).collect();
    probes.extend(['\u{2028}', '\u{2029}', '\u{fffd}', '\u{1f600}', '\u{10ffff}', '\u{d7ff}']);
    for c in probes {
        let text = format!("a{}b", c);
        let expected = format!(
            "{{\"id\":\"m1\",\"room_id\":\"general\",\"username\":\"alice\",\"message_text\":{},\"created_at\":\"then\"}}",
            expected_literal(&text)
        );
        assert_eq!(payload_with_text(&text), expected, "character {:?}", c);
    }
}

#[test]
fn control_characters_have_their_escapes() {
    assert_eq!(expected_literal("\u{0}"), "\"\\u0000\"");
    assert_eq!(expected_literal("\u{b}"), "\"\\u000b\"");
    assert_eq!(expected_literal("\u{1f}"), "\"\\u001f\"");
    assert_eq!(expected_literal("\u{7f}"), "\"\u{7f}\"");
    assert!(payload_with_text("\u{b}").contains("\"message_text\":\"\\u000b\""));
    assert!(payload_with_text("\u{1e}").contains("\"message_text\":\"\\u001e\""));
    assert!(payload_with_text("a\"b\\c").contains("\"message_text\":\"a\\\"b\\\\c\""));
    assert!(payload_with_text("/").contains("\"message_text\":\"/\""));
    assert!(payload_with_text("").contains("\"message_text\":\"\""));
}
