use backend::feed::{
    batch_status, decode_batch, decode_event, decode_image, operation_kind, ChangeEvent,
    DecodeError, Decoded, OperationKind, StreamRecord,
};
use backend::item::{AttributeValue, Item};

fn image(fields: &[(&str, &str)], ts: Option<&str>) -> Item {
    let mut item = Item::new();
    for (name, value) in fields {
        item.insert(name.to_string(), AttributeValue::string(value.to_string()));
    }
    if let Some(ts) = ts {
        item.insert("ts".to_string(), AttributeValue::number(ts.to_string()));
    }
    item
}

fn full_image(id: &str) -> Item {
    image(
        &[("room_id", "general"), ("id", id), ("username", "alice"), ("message_text", "hi")],
        Some("1700000000000"),
    )
}

fn event(name: &str, image: Option<Item>) -> ChangeEvent {
    ChangeEvent { event_name: name.to_string(), dynamodb: Some(StreamRecord { new_image: image }) }
}

fn message_id(outcome: &Decoded) -> Option<String> {
    match outcome {
        Decoded::Insert(message) => Some(message.id.clone()),
        _ => None,
    }
}

#[test]
fn operation_kind_knows_the_feeds_names() {
    assert_eq!(operation_kind("INSERT"), OperationKind::Insert);
    assert_eq!(operation_kind("MODIFY"), OperationKind::Update);
    assert_eq!(operation_kind("REMOVE"), OperationKind::Delete);
    assert_eq!(operation_kind("insert"), OperationKind::Unknown);
    assert_eq!(operation_kind(""), OperationKind::Unknown);
}

#[test]
fn insert_with_all_fields_decodes_to_the_message() {
    match decode_event(&event("INSERT", Some(full_image("m1")))) {
        Decoded::Insert(message) => {
            assert_eq!(message.id, "m1");
            assert_eq!(message.room_id, "general");
            assert_eq!(message.username, "alice");
            assert_eq!(message.message_text, "hi");
            assert_eq!(message.created_at, 1_700_000_000_000);
        }
        _ => panic!("the insert was not decoded"),
    }
}

#[test]
fn each_missing_field_has_its_error() {
    let all = [("room_id", "general"), ("id", "m1"), ("username", "alice"), ("message_text", "hi")];
    let expected = [
        DecodeError::MissingRoomId,
        DecodeError::MissingId,
        DecodeError::MissingUsername,
        DecodeError::MissingMessageText,
    ];
    for (skip, error) in expected.iter().enumerate() {
        let fields: Vec<(&str, &str)> =
            all.iter().enumerate().filter(|(i, _)| *i != skip).map(|(_, f)| *f).collect();
        let result = decode_image(&image(&fields, Some("1")));
        assert_eq!(result.err(), Some(*error));
    }
    assert_eq!(decode_image(&image(&all, None)).err(), Some(DecodeError::InvalidTimestamp));
    assert_eq!(decode_image(&image(&all, Some("soon"))).err(), Some(DecodeError::InvalidTimestamp));
    assert_eq!(decode_image(&image(&all, Some("1.5"))).err(), Some(DecodeError::InvalidTimestamp));
    assert_eq!(decode_image(&Item::new()).err(), Some(DecodeError::MissingRoomId));
}

#[test]
fn a_field_of_the_wrong_kind_counts_as_missing() {
    let mut item = full_image("m1");
    item.insert("room_id".to_string(), AttributeValue::number("7".to_string()));
    assert_eq!(decode_image(&item).err(), Some(DecodeError::MissingRoomId));
    let mut item = full_image("m1");
    item.insert("ts".to_string(), AttributeValue::string("1700000000000".to_string()));
    assert_eq!(decode_image(&item).err(), Some(DecodeError::InvalidTimestamp));
}

#[test]
fn insert_without_stream_data_or_image_is_malformed() {
    let bare = ChangeEvent { event_name: "INSERT".to_string(), dynamodb: None };
    assert!(matches!(decode_event(&bare), Decoded::Malformed(DecodeError::NoStreamData)));
    assert!(matches!(
        decode_event(&event("INSERT", None)),
        Decoded::Malformed(DecodeError::NoNewImage)
    ));
}

#[test]
fn non_inserts_are_skipped_even_when_malformed() {
    let bare = ChangeEvent { event_name: "REMOVE".to_string(), dynamodb: None };
    assert!(matches!(decode_event(&bare), Decoded::Skipped(OperationKind::Delete)));
    assert!(matches!(
        decode_event(&event("MODIFY", Some(full_image("m1")))),
        Decoded::Skipped(OperationKind::Update)
    ));
    assert!(matches!(
        decode_event(&event("TRUNCATE", Some(full_image("m1")))),
        Decoded::Skipped(OperationKind::Unknown)
    ));
}

#[test]
fn malformed_event_is_skipped_and_the_batch_succeeds() {
    let mut events = Vec::new();
    for i in 1..=5 {
        if i == 3 {
            let broken = image(
                &[("id", "m3"), ("username", "alice"), ("message_text", "hi")],
                Some("1700000000000"),
            );
            events.push(event("INSERT", Some(broken)));
        } else {
            events.push(event("INSERT", Some(full_image(&format!("m{}", i)))));
        }
    }
    let outcomes = decode_batch(&events);
    assert_eq!(outcomes.len(), 5);
    let decoded: Vec<String> = outcomes.iter().filter_map(message_id).collect();
    assert_eq!(decoded, vec!["m1", "m2", "m4", "m5"]);
    let skipped = outcomes.iter().filter(|o| matches!(o, Decoded::Malformed(_))).count();
    assert_eq!(skipped, 1);
    assert!(matches!(outcomes[2], Decoded::Malformed(DecodeError::MissingRoomId)));
    assert_eq!(batch_status(&outcomes), 200);
}

#[test]
fn only_inserts_of_a_mixed_batch_are_broadcast() {
    let events = vec![
        event("MODIFY", Some(full_image("u1"))),
        event("INSERT", Some(full_image("i1"))),
        event("REMOVE", None),
        event("REMOVE", Some(full_image("d1"))),
        event("INSERT", Some(full_image("i2"))),
        event("MODIFY", Some(full_image("u2"))),
        event("INSERT", Some(full_image("i3"))),
    ];
    let outcomes = decode_batch(&events);
    let broadcast: Vec<String> = outcomes.iter().filter_map(message_id).collect();
    assert_eq!(broadcast, vec!["i1", "i2", "i3"]);
    assert_eq!(batch_status(&outcomes), 200);

    let none = decode_batch(&vec![event("MODIFY", Some(full_image("u1"))), event("REMOVE", None)]);
    assert!(none.iter().all(|o| matches!(o, Decoded::Skipped(_))));
    assert_eq!(decode_batch(&Vec::new()).len(), 0);
}

#[test]
fn each_decode_error_says_what_is_wrong() {
    assert_eq!(DecodeError::NoStreamData.message(), "No dynamodb data in record");
    assert_eq!(DecodeError::NoNewImage.message(), "No NewImage in record");
    assert_eq!(DecodeError::MissingRoomId.message(), "Missing room_id");
    assert_eq!(DecodeError::MissingId.message(), "Missing id");
    assert_eq!(DecodeError::MissingUsername.message(), "Missing username");
    assert_eq!(DecodeError::MissingMessageText.message(), "Missing message_text");
    assert_eq!(DecodeError::InvalidTimestamp.message(), "Missing or invalid ts");
}
