use backend::metrics::{Dimensions, MetricRecord, MetricUnit, MetricsHelper};

fn names(record: &MetricRecord) -> Vec<String> {
    let mut names = record.dimension_names();
    names[1..].sort();
    names
}

fn given(pairs: &[(&str, &str)]) -> Option<Dimensions> {
    let mut dimensions = Dimensions::new();
    for (name, value) in pairs {
        dimensions.insert(name.to_string(), value.to_string());
    }
    Some(dimensions)
}

fn dimensions(record: &MetricRecord) -> Vec<(String, String)> {
    let mut listed: Vec<(String, String)> = (0..record.dimensions.len())
        .map(|i| {
            let (name, value) = record.dimensions.entry_at(i);
            (name.clone(), value.clone())
        })
        .collect();
    listed.sort();
    listed
}


#[test]
fn helper_files_its_records_under_the_stage() {
    let helper = MetricsHelper::new(Some("beta".to_string()));
    assert_eq!(helper.namespace(), "SwflcodersChat/beta");
    assert_eq!(helper.stage(), "beta");
    let helper = MetricsHelper::new(None);
    assert_eq!(helper.namespace(), "SwflcodersChat/unknown");
    assert_eq!(helper.stage(), "unknown");
}

#[test]
fn each_kind_of_record_has_its_unit() {
    let helper = MetricsHelper::new(Some("beta".to_string()));
    let count = helper.emit_count("Hits", 3, None);
    assert_eq!(count.name, "Hits");
    assert_eq!(count.value, 3);
    assert_eq!(count.unit, MetricUnit::Count);
    assert_eq!(count.unit.name(), "Count");
    assert_eq!(count.namespace, "SwflcodersChat/beta");
    assert_eq!(count.stage, "beta");
    assert_eq!(count.dimensions.len(), 0);
    assert_eq!(names(&count), vec!["Stage"]);

    let gauge = helper.emit_gauge("Open", -2, given(&[("RoomId", "rust")]));
    assert_eq!(gauge.unit, MetricUnit::Unitless);
    assert_eq!(gauge.unit.name(), "None");
    assert_eq!(gauge.value, -2);
    assert_eq!(names(&gauge), vec!["Stage", "RoomId"]);

    let duration = helper.emit_duration_ms("Latency", 250, given(&[("B", "2"), ("A", "1")]));
    assert_eq!(duration.unit, MetricUnit::Milliseconds);
    assert_eq!(duration.unit.name(), "Milliseconds");
    assert_eq!(names(&duration), vec!["Stage", "A", "B"]);
    assert_eq!(duration.dimensions.get("B"), Some(&"2".to_string()));
    let twice = helper.emit_count("Hits", 1, given(&[("A", "1"), ("A", "2")]));
    assert_eq!(twice.dimension_names(), vec!["Stage", "A"]);
    assert_eq!(twice.dimensions.get("A"), Some(&"2".to_string()));
}

#[test]
fn message_sent_records_one_post_and_its_length() {
    let helper = MetricsHelper::new(Some("beta".to_string()));
    let records = helper.emit_message_sent("rust", 12);
    assert_eq!(records.len(), 2);
    assert_eq!((records[0].name.as_str(), records[0].value), ("MessagesPosted", 1));
    assert_eq!(records[0].unit, MetricUnit::Count);
    assert_eq!((records[1].name.as_str(), records[1].value), ("MessageLength", 12));
    assert_eq!(records[1].unit, MetricUnit::Unitless);
    for record in &records {
        assert_eq!(dimensions(record), vec![("RoomId".to_string(), "rust".to_string())]);
    }
    let huge = helper.emit_message_sent("rust", usize::MAX);
    assert_eq!(huge[1].value, usize::MAX as i128);
}

#[test]
fn connection_event_records_the_gauge_only_when_known() {
    let helper = MetricsHelper::new(Some("beta".to_string()));
    let without = helper.emit_connection_event("connect", "rust", None);
    assert_eq!(without.len(), 1);
    assert_eq!((without[0].name.as_str(), without[0].value), ("ConnectionEvents", 1));
    let with = helper.emit_connection_event("disconnect", "rust", Some(7));
    assert_eq!(with.len(), 2);
    assert_eq!((with[1].name.as_str(), with[1].value), ("ActiveConnections", 7));
    assert_eq!(with[1].unit, MetricUnit::Unitless);
    assert_eq!(
        dimensions(&with[1]),
        vec![
            ("EventType".to_string(), "disconnect".to_string()),
            ("RoomId".to_string(), "rust".to_string())
        ]
    );
}

#[test]
fn broadcast_records_attempts_successes_and_failures() {
    let helper = MetricsHelper::new(Some("beta".to_string()));
    let records = helper.emit_message_broadcast("rust", 10, 7);
    let values: Vec<(&str, i128)> = records.iter().map(|r| (r.name.as_str(), r.value)).collect();
    assert_eq!(
        values,
        vec![("BroadcastAttempts", 10), ("BroadcastSuccesses", 7), ("BroadcastFailures", 3)]
    );
    let extreme = helper.emit_message_broadcast("rust", i32::MIN, i32::MAX);
    assert_eq!(extreme[2].value, i32::MIN as i128 - i32::MAX as i128);
}
