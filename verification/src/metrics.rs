//! The delivery metrics emitter: which counters and gauges are recorded for
//! each event, with which value and along which dimensions.
//!
//! The emitter holds no state besides its namespace. It computes the records;
//! writing them out is left to the caller, so that no failure to write can
//! reach the component that asked for the record.

use crate::string_map::{has_key, StringMap};
use vstd::prelude::*;
use vstd::string::StringExecFns;

verus! {

/// The unit of a recorded value.
#[derive(Debug, Clone, Copy, PartialEq, Eq, Structural)]
pub enum MetricUnit {
    /// A number of occurrences.
    Count,
    /// A plain value, such as a length or a number of connections.
    Unitless,
    /// A duration in milliseconds.
    Milliseconds,
}

/// The name under which the metrics backend knows a unit.
pub open spec fn unit_name(unit: MetricUnit) -> Seq<char> {
    match unit {
        MetricUnit::Count => "Count"@,
        MetricUnit::Unitless => "None"@,
        MetricUnit::Milliseconds => "Milliseconds"@,
    }
}

impl MetricUnit {
    /// The name under which the metrics backend knows the unit.
    pub fn name(&self) -> (name: String)
        ensures
            name@ == unit_name(*self),
    {
        match self {
            MetricUnit::Count => String::from_str("Count"),
            MetricUnit::Unitless => String::from_str("None"),
            MetricUnit::Milliseconds => String::from_str("Milliseconds"),
        }
    }
}

/// The dimensions of a record besides its stage: values by name.
pub type Dimensions = StringMap<String>;

/// Dimensions as contracts speak of them.
pub type DimensionsView = Map<Seq<char>, Seq<char>>;

/// One recorded value.
#[derive(Debug, Clone)]
pub struct MetricRecord {
    /// The namespace of the emitter that made the record.
    pub namespace: String,
    /// The deployment stage, which is a dimension of every record.
    pub stage: String,
    /// The metric's name.
    pub name: String,
    pub unit: MetricUnit,
    pub value: i128,
    /// The dimensions besides the stage.
    pub dimensions: Dimensions,
}

/// A record as contracts speak of it.
pub struct MetricRecordView {
    pub namespace: Seq<char>,
    pub stage: Seq<char>,
    pub name: Seq<char>,
    pub unit: MetricUnit,
    pub value: int,
    pub dimensions: DimensionsView,
}

impl View for MetricRecord {
    type V = MetricRecordView;

    open spec fn view(&self) -> MetricRecordView {
        MetricRecordView {
            namespace: self.namespace@,
            stage: self.stage@,
            name: self.name@,
            unit: self.unit,
            value: self.value as int,
            dimensions: self.dimensions@,
        }
    }
}

/// The views of a list of records.
pub open spec fn records_view(records: Seq<MetricRecord>) -> Seq<MetricRecordView> {
    records.map_values(|r: MetricRecord| r@)
}

/// Whether `names` lists the dimensions of a record: the stage first, then
/// each of the others once, in any order.
pub open spec fn lists_dimensions(names: Seq<Seq<char>>, dimensions: DimensionsView) -> bool {
    &&& names.len() == dimensions.dom().len() + 1
    &&& names[0] == "Stage"@
    &&& forall|i: int| 1 <= i < names.len() ==> dimensions.contains_key(#[trigger] names[i])
    &&& forall|i: int, j: int| 1 <= i < j < names.len() ==> names[i] != names[j]
    &&& forall|name: Seq<char>|
        dimensions.contains_key(name) ==> exists|i: int|
            1 <= i < names.len() && #[trigger] names[i] == name
}

impl MetricRecord {
    /// The names of the record's dimensions, the stage first.
    pub fn dimension_names(&self) -> (names: Vec<String>)
        ensures
            lists_dimensions(crate::text::texts_view(names@), self@.dimensions),
    {
        let mut names: Vec<String> = Vec::new();
        names.push(String::from_str("Stage"));
        let count = self.dimensions.len();
        let ghost entries = self.dimensions.entries_view();
        let mut i: usize = 0;
        while i < count
            invariant
                i <= count,
                count == entries.len(),
                entries == self.dimensions.entries_view(),
                names@.len() == i + 1,
                names@[0]@ == "Stage"@,
                forall|j: int| 0 <= j < i ==> (#[trigger] names@[j + 1])@ == entries[j].0@,
            decreases count - i,
        {
            let (name, _) = self.dimensions.entry_at(i);
            names.push(name.clone());
            i = i + 1;
        }
        proof {
            let listed = crate::text::texts_view(names@);
            let dimensions = self@.dimensions;
            assert forall|k: int| 1 <= k < listed.len() implies dimensions.contains_key(
                #[trigger] listed[k],
            ) by {
                assert(names@[(k - 1) + 1]@ == entries[k - 1].0@);
                crate::string_map::lemma_entries_map_value(entries, k - 1);
            }
            assert forall|k: int, l: int| 1 <= k < l < listed.len() implies listed[k]
                != listed[l] by {
                assert(names@[(k - 1) + 1]@ == entries[k - 1].0@);
                assert(names@[(l - 1) + 1]@ == entries[l - 1].0@);
            }
            assert forall|name: Seq<char>| dimensions.contains_key(name) implies exists|k: int|
                1 <= k < listed.len() && #[trigger] listed[k] == name by {
                assert(has_key(entries, name));
                let e = choose|e: int| 0 <= e < entries.len() && (#[trigger] entries[e]).0@ == name;
                assert(names@[e + 1]@ == entries[e].0@);
                assert(listed[e + 1] == name);
            }
        }
        names
    }
}

/// The emitter: it knows the namespace under which its records are filed.
#[derive(Debug, Clone)]
pub struct MetricsHelper {
    namespace: String,
    stage: String,
}

/// An emitter as contracts speak of it.
pub struct MetricsHelperView {
    pub namespace: Seq<char>,
    pub stage: Seq<char>,
}

impl View for MetricsHelper {
    type V = MetricsHelperView;

    closed spec fn view(&self) -> MetricsHelperView {
        MetricsHelperView { namespace: self.namespace@, stage: self.stage@ }
    }
}

/// The stage that an emitter is made for: the one configured, or `unknown`.
pub open spec fn stage_or_unknown(stage: Option<Seq<char>>) -> Seq<char> {
    match stage {
        Some(s) => s,
        None => "unknown"@,
    }
}

/// The namespace of the emitter of a stage.
pub open spec fn namespace_of(stage: Seq<char>) -> Seq<char> {
    "SwflcodersChat/"@ + stage
}

/// The record of `value` for the metric `name`, made by `helper`.
pub open spec fn metric(
    helper: MetricsHelperView,
    name: Seq<char>,
    unit: MetricUnit,
    value: int,
    dimensions: DimensionsView,
) -> MetricRecordView {
    MetricRecordView {
        namespace: helper.namespace,
        stage: helper.stage,
        name,
        unit,
        value,
        dimensions,
    }
}

/// The dimensions handed to an emitter: none is the same as an empty map.
pub open spec fn given_dimensions(dimensions: Option<Dimensions>) -> DimensionsView {
    match dimensions {
        Some(d) => d@,
        None => Map::empty(),
    }
}

/// The one dimension of the metrics of a room.
pub open spec fn room_dimensions(room_id: Seq<char>) -> DimensionsView {
    Map::<Seq<char>, Seq<char>>::empty().insert("RoomId"@, room_id)
}

/// The dimensions of a connection event.
pub open spec fn connection_dimensions(event_type: Seq<char>, room_id: Seq<char>) -> DimensionsView {
    Map::<Seq<char>, Seq<char>>::empty().insert("EventType"@, event_type).insert("RoomId"@, room_id)
}

/// The records of a posted message: one occurrence, and the length of its
/// body.
pub open spec fn message_sent_metrics(
    helper: MetricsHelperView,
    room_id: Seq<char>,
    message_length: int,
) -> Seq<MetricRecordView> {
    seq![
        metric(helper, "MessagesPosted"@, MetricUnit::Count, 1, room_dimensions(room_id)),
        metric(
            helper,
            "MessageLength"@,
            MetricUnit::Unitless,
            message_length,
            room_dimensions(room_id),
        ),
    ]
}

/// The records of a connection event: one occurrence and, where the number
/// of active connections is known, that number.
pub open spec fn connection_event_metrics(
    helper: MetricsHelperView,
    event_type: Seq<char>,
    room_id: Seq<char>,
    total_connections: Option<i32>,
) -> Seq<MetricRecordView> {
    let event = metric(
        helper,
        "ConnectionEvents"@,
        MetricUnit::Count,
        1,
        connection_dimensions(event_type, room_id),
    );
    match total_connections {
        Some(count) => seq![
            event,
            metric(
                helper,
                "ActiveConnections"@,
                MetricUnit::Unitless,
                count as int,
                connection_dimensions(event_type, room_id),
            ),
        ],
        None => seq![event],
    }
}

/// The records of a broadcast: the attempts, the successes, and the failures,
/// which are the attempts that did not succeed.
pub open spec fn message_broadcast_metrics(
    helper: MetricsHelperView,
    room_id: Seq<char>,
    connection_count: int,
    successful_sends: int,
) -> Seq<MetricRecordView> {
    seq![
        metric(
            helper,
            "BroadcastAttempts"@,
            MetricUnit::Count,
            connection_count,
            room_dimensions(room_id),
        ),
        metric(
            helper,
            "BroadcastSuccesses"@,
            MetricUnit::Count,
            successful_sends,
            room_dimensions(room_id),
        ),
        metric(
            helper,
            "BroadcastFailures"@,
            MetricUnit::Count,
            connection_count - successful_sends,
            room_dimensions(room_id),
        ),
    ]
}

impl MetricsHelper {
    /// The emitter of a deployment stage. Where no stage is configured, the
    /// stage is `unknown`.
    pub fn new(stage: Option<String>) -> (helper: Self)
        ensures
            helper@.stage == stage_or_unknown(crate::text::option_text(stage)),
            helper@.namespace == namespace_of(helper@.stage),
    {
        let stage = match stage {
            Some(s) => s,
            None => String::from_str("unknown"),
        };
        let mut namespace = String::from_str("SwflcodersChat/");
        namespace.append(stage.as_str());
        MetricsHelper { namespace, stage }
    }

    /// The namespace under which the emitter's records are filed.
    pub fn namespace(&self) -> (namespace: &String)
        ensures
            namespace@ == self@.namespace,
    {
        &self.namespace
    }

    /// The deployment stage of the emitter.
    pub fn stage(&self) -> (stage: &String)
        ensures
            stage@ == self@.stage,
    {
        &self.stage
    }

    /// Records a number of occurrences.
    pub fn emit_count(
        &self,
        metric_name: &str,
        value: i128,
        dimensions: Option<Dimensions>,
    ) -> (record: MetricRecord)
        ensures
            record@ == metric(
                self@,
                metric_name@,
                MetricUnit::Count,
                value as int,
                given_dimensions(dimensions),
            ),
    {
        self.emit_emf_metric(metric_name, value, MetricUnit::Count, dimensions)
    }

    /// Records a plain value, such as a number of connections.
    pub fn emit_gauge(
        &self,
        metric_name: &str,
        value: i128,
        dimensions: Option<Dimensions>,
    ) -> (record: MetricRecord)
        ensures
            record@ == metric(
                self@,
                metric_name@,
                MetricUnit::Unitless,
                value as int,
                given_dimensions(dimensions),
            ),
    {
        self.emit_emf_metric(metric_name, value, MetricUnit::Unitless, dimensions)
    }

    /// Records a duration in milliseconds.
    pub fn emit_duration_ms(
        &self,
        metric_name: &str,
        duration_ms: i128,
        dimensions: Option<Dimensions>,
    ) -> (record: MetricRecord)
        ensures
            record@ == metric(
                self@,
                metric_name@,
                MetricUnit::Milliseconds,
                duration_ms as int,
                given_dimensions(dimensions),
            ),
    {
        self.emit_emf_metric(metric_name, duration_ms, MetricUnit::Milliseconds, dimensions)
    }

    fn emit_emf_metric(
        &self,
        metric_name: &str,
        value: i128,
        unit: MetricUnit,
        dimensions: Option<Dimensions>,
    ) -> (record: MetricRecord)
        ensures
            record@ == metric(self@, metric_name@, unit, value as int, given_dimensions(dimensions)),
    {
        let dimensions = match dimensions {
            Some(d) => d,
            None => StringMap::new(),
        };
        MetricRecord {
            namespace: self.namespace.clone(),
            stage: self.stage.clone(),
            name: String::from_str(metric_name),
            unit,
            value,
            dimensions,
        }
    }

    /// The records of a message posted to a room.
    pub fn emit_message_sent(&self, room_id: &str, message_length: usize) -> (records: Vec<
        MetricRecord,
    >)
        ensures
            records_view(records@) == message_sent_metrics(self@, room_id@, message_length as int),
    {
        let mut records: Vec<MetricRecord> = Vec::new();
        records.push(self.emit_count("MessagesPosted", 1, Some(room_dimension_list(room_id))));
        records.push(
            self.emit_gauge(
                "MessageLength",
                message_length as i128,
                Some(room_dimension_list(room_id)),
            ),
        );
        proof {
            assert(records_view(records@) =~= message_sent_metrics(
                self@,
                room_id@,
                message_length as int,
            ));
        }
        records
    }

    /// The records of a connection event of the given type (`connect` or
    /// `disconnect`) in a room.
    pub fn emit_connection_event(
        &self,
        event_type: &str,
        room_id: &str,
        total_connections: Option<i32>,
    ) -> (records: Vec<MetricRecord>)
        ensures
            records_view(records@) == connection_event_metrics(
                self@,
                event_type@,
                room_id@,
                total_connections,
            ),
    {
        let mut records: Vec<MetricRecord> = Vec::new();
        records.push(
            self.emit_count(
                "ConnectionEvents",
                1,
                Some(connection_dimension_list(event_type, room_id)),
            ),
        );
        if let Some(count) = total_connections {
            records.push(
                self.emit_gauge(
                    "ActiveConnections",
                    count as i128,
                    Some(connection_dimension_list(event_type, room_id)),
                ),
            );
        }
        proof {
            assert(records_view(records@) =~= connection_event_metrics(
                self@,
                event_type@,
                room_id@,
                total_connections,
            ));
        }
        records
    }

    /// The records of one broadcast to a room with `connection_count`
    /// targets, `successful_sends` of which were reached.
    pub fn emit_message_broadcast(
        &self,
        room_id: &str,
        connection_count: i32,
        successful_sends: i32,
    ) -> (records: Vec<MetricRecord>)
        ensures
            records_view(records@) == message_broadcast_metrics(
                self@,
                room_id@,
                connection_count as int,
                successful_sends as int,
            ),
    {
        let mut records: Vec<MetricRecord> = Vec::new();
        records.push(
            self.emit_count(
                "BroadcastAttempts",
                connection_count as i128,
                Some(room_dimension_list(room_id)),
            ),
        );
        records.push(
            self.emit_count(
                "BroadcastSuccesses",
                successful_sends as i128,
                Some(room_dimension_list(room_id)),
            ),
        );
        records.push(
            self.emit_count(
                "BroadcastFailures",
                connection_count as i128 - successful_sends as i128,
                Some(room_dimension_list(room_id)),
            ),
        );
        proof {
            assert(records_view(records@) =~= message_broadcast_metrics(
                self@,
                room_id@,
                connection_count as int,
                successful_sends as int,
            ));
        }
        records
    }
}

/// The dimensions of the metrics of a room.
fn room_dimension_list(room_id: &str) -> (dimensions: Dimensions)
    ensures
        dimensions@ == room_dimensions(room_id@),
{
    let mut dimensions: Dimensions = StringMap::new();
    dimensions.insert(String::from_str("RoomId"), String::from_str(room_id));
    dimensions
}

/// The dimensions of a connection event.
fn connection_dimension_list(event_type: &str, room_id: &str) -> (dimensions: Dimensions)
    ensures
        dimensions@ == connection_dimensions(event_type@, room_id@),
{
    let mut dimensions: Dimensions = StringMap::new();
    dimensions.insert(String::from_str("EventType"), String::from_str(event_type));
    dimensions.insert(String::from_str("RoomId"), String::from_str(room_id));
    dimensions
}

} // verus!
