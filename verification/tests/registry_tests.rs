use backend::item::AttributeValue;
use backend::registry::{Connection, Registry};

fn connection(id: &str, room: &str) -> Connection {
    Connection {
        connection_id: id.to_string(),
        room_id: room.to_string(),
        username: "someone".to_string(),
        connected_at: 1_700_000_000_123,
        domain: "example.org".to_string(),
        stage: "beta".to_string(),
        ttl: 1_700_086_400,
    }
}

fn ids(registry: &Registry, room: &str) -> Vec<String> {
    let mut ids: Vec<String> =
        registry.query_by_room(room).iter().map(|c| c.connection_id.clone()).collect();
    ids.sort();
    ids
}

#[test]
fn deleting_twice_succeeds_both_times() {
    let mut registry = Registry::new();
    registry.put(connection("A", "general"));
    registry.put(connection("B", "general"));
    assert!(registry.delete("A"));
    assert_eq!(ids(&registry, "general"), vec!["B"]);
    assert!(!registry.delete("A"));
    assert_eq!(ids(&registry, "general"), vec!["B"]);
    assert!(registry.get("A").is_none());
}

#[test]
fn deleting_what_was_never_inserted_changes_nothing() {
    let mut registry = Registry::new();
    assert!(!registry.delete("ghost"));
    assert!(!registry.delete(""));
    registry.put(connection("A", "general"));
    assert!(!registry.delete("ghost"));
    assert!(!registry.delete("ghost"));
    assert_eq!(ids(&registry, "general"), vec!["A"]);
}

#[test]
fn a_connection_has_one_room_at_a_time() {
    let mut registry = Registry::new();
    registry.put(connection("A", "general"));
    registry.put(connection("A", "random"));
    assert_eq!(ids(&registry, "general"), Vec::<String>::new());
    assert_eq!(ids(&registry, "random"), vec!["A"]);
    assert_eq!(registry.get("A").unwrap().room_id, "random");
}

#[test]
fn query_by_room_returns_the_rooms_connections() {
    let mut registry = Registry::new();
    for (id, room) in [("A", "general"), ("B", "random"), ("C", "general"), ("D", "general")] {
        registry.put(connection(id, room));
    }
    assert_eq!(ids(&registry, "general"), vec!["A", "C", "D"]);
    assert_eq!(ids(&registry, "random"), vec!["B"]);
    assert_eq!(ids(&registry, "empty"), Vec::<String>::new());
}

#[test]
fn a_connections_row_has_seven_attributes() {
    let item = connection("A", "general").to_item();
    assert_eq!(item.len(), 7);
    let text = |name: &str| item.get(name).unwrap().s.clone();
    let number = |name: &str| item.get(name).unwrap().n.clone();
    assert_eq!(text("connection_id"), Some("A".to_string()));
    assert_eq!(text("room_id"), Some("general".to_string()));
    assert_eq!(text("username"), Some("someone".to_string()));
    assert_eq!(text("domain"), Some("example.org".to_string()));
    assert_eq!(text("stage"), Some("beta".to_string()));
    assert_eq!(number("connected_at"), Some("1700000000123".to_string()));
    assert_eq!(number("ttl"), Some("1700086400".to_string()));
    assert_eq!(number("room_id"), None);
    assert_eq!(text("ttl"), None);
    assert!(item.get("other").is_none());
    let _ = AttributeValue::string(String::new());
}

#[test]
fn pruning_takes_out_the_listed_connections_only() {
    let mut registry = Registry::new();
    for id in ["A", "B", "C", "D"] {
        registry.put(connection(id, "general"));
    }
    let stale = vec!["B".to_string(), "ghost".to_string(), "D".to_string(), "B".to_string()];
    registry.prune(&stale);
    assert_eq!(ids(&registry, "general"), vec!["A", "C"]);
    registry.prune(&stale);
    assert_eq!(ids(&registry, "general"), vec!["A", "C"]);
    registry.prune(&Vec::new());
    assert_eq!(ids(&registry, "general"), vec!["A", "C"]);
}
