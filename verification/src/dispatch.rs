//! The fan-out dispatcher: delivers one message to every live connection of
//! its room and prunes the connections that turn out to be gone.
//!
//! The dispatcher performs no input or output itself. It is a state machine:
//! each step takes what the outside reported (the rows of the registry, the
//! replies of the transport) and answers with what is to be done next. All
//! deliveries of one broadcast are handed out together, so that the caller
//! can make them side by side; a delivery that does not report in time counts
//! as a transient error and holds up no other.

use crate::item::{get_string, items_view, string_of, Item, ItemView};
use crate::metrics::{
    message_broadcast_metrics, message_sent_metrics, records_view, MetricRecord,
    MetricRecordView, MetricsHelper, MetricsHelperView,
};
use crate::registry::{
    are_listeners, connection_item, lemma_connection_item, lemma_pruned, listens_to, pruned,
    ConnectionView, RegistryView,
};
use crate::text::{texts_view, utf8_len};
use crate::types::{Message, MessageView};
use crate::wire::{message_payload, serialize_message, stands_for_instant, WireError};
use vstd::prelude::*;

verus! {

/// How long one delivery attempt may take, in milliseconds. An attempt that
/// takes longer is reported as timed out.
pub const DELIVERY_TIMEOUT_MILLIS: u64 = 5_000;

/// What the connection transport reported for one delivery attempt.
#[derive(Debug, Clone, Copy, PartialEq, Eq, Structural)]
pub enum TransportReply {
    /// The payload was accepted for the connection.
    Accepted,
    /// The transport knows of no such connection any more.
    Gone,
    /// The attempt failed in another way.
    Failed,
    /// The attempt did not end within its time limit.
    TimedOut,
}

/// How one delivery attempt is classified.
#[derive(Debug, Clone, Copy, PartialEq, Eq, Structural)]
pub enum DeliveryOutcome {
    Delivered,
    /// The connection no longer exists; its entry in the registry is pruned.
    Stale,
    /// Any other failure. The attempt is not repeated within the broadcast.
    TransientError,
}

/// The class of a transport reply.
pub open spec fn outcome_of(reply: TransportReply) -> DeliveryOutcome {
    match reply {
        TransportReply::Accepted => DeliveryOutcome::Delivered,
        TransportReply::Gone => DeliveryOutcome::Stale,
        TransportReply::Failed => DeliveryOutcome::TransientError,
        TransportReply::TimedOut => DeliveryOutcome::TransientError,
    }
}

/// Classifies a transport reply.
pub fn classify(reply: TransportReply) -> (outcome: DeliveryOutcome)
    ensures
        outcome == outcome_of(reply),
{
    match reply {
        TransportReply::Accepted => DeliveryOutcome::Delivered,
        TransportReply::Gone => DeliveryOutcome::Stale,
        TransportReply::Failed => DeliveryOutcome::TransientError,
        TransportReply::TimedOut => DeliveryOutcome::TransientError,
    }
}

/// The counts of one broadcast.
#[derive(Debug, Clone, Copy, PartialEq, Eq, Structural)]
pub struct BroadcastResult {
    /// The rows that the registry returned for the room.
    pub total_targets: usize,
    /// The targets that were reached.
    pub successful: usize,
    /// The targets that were not.
    pub failed: usize,
}

/// The counts of one broadcast as contracts speak of them.
pub struct Tally {
    pub total_targets: int,
    pub successful: int,
    pub failed: int,
}

impl View for BroadcastResult {
    type V = Tally;

    open spec fn view(&self) -> Tally {
        Tally {
            total_targets: self.total_targets as int,
            successful: self.successful as int,
            failed: self.failed as int,
        }
    }
}

/// Why a broadcast was given up.
#[derive(Debug, Clone, Copy, PartialEq, Eq, Structural)]
pub enum BroadcastError {
    /// The registry could not be asked for the room's connections.
    RegistryUnavailable,
    /// The message could not be serialised.
    Serialization,
    /// The event does not answer what the dispatcher last asked for.
    UnexpectedEvent,
}

/// The connection identifiers of the rows that have one, in the rows' order.
/// A row without a string `connection_id` is counted as a target but cannot
/// be delivered to.
pub open spec fn target_ids(rows: Seq<ItemView>) -> Seq<Seq<char>>
    decreases rows.len(),
{
    if rows.len() == 0 {
        Seq::empty()
    } else {
        match string_of(rows.last(), "connection_id"@) {
            Some(id) => target_ids(rows.drop_last()).push(id),
            None => target_ids(rows.drop_last()),
        }
    }
}

/// The outcome of the attempt at `index`. An attempt for which no reply was
/// reported counts as a transient error.
pub open spec fn outcome_at(replies: Seq<TransportReply>, index: int) -> DeliveryOutcome {
    if 0 <= index < replies.len() {
        outcome_of(replies[index])
    } else {
        DeliveryOutcome::TransientError
    }
}

/// How many of the first `attempts` attempts had the given outcome.
pub open spec fn count_outcome(
    replies: Seq<TransportReply>,
    attempts: nat,
    outcome: DeliveryOutcome,
) -> nat
    decreases attempts,
{
    if attempts == 0 {
        0
    } else {
        count_outcome(replies, (attempts - 1) as nat, outcome) + if outcome_at(
            replies,
            attempts - 1,
        ) == outcome {
            1nat
        } else {
            0nat
        }
    }
}

/// Those of the first `attempts` targets whose attempt found the connection
/// gone, in the targets' order.
pub open spec fn stale_targets(
    targets: Seq<Seq<char>>,
    replies: Seq<TransportReply>,
    attempts: nat,
) -> Seq<Seq<char>>
    decreases attempts,
{
    if attempts == 0 {
        Seq::empty()
    } else if outcome_at(replies, attempts - 1) == DeliveryOutcome::Stale {
        stale_targets(targets, replies, (attempts - 1) as nat).push(targets[attempts - 1])
    } else {
        stale_targets(targets, replies, (attempts - 1) as nat)
    }
}

/// The counts of a broadcast to `rows` rows of which `attempts` could be
/// tried: a target counts as failed unless it was reached.
pub open spec fn tally(rows: nat, attempts: nat, replies: Seq<TransportReply>) -> Tally {
    let successful = count_outcome(replies, attempts, DeliveryOutcome::Delivered);
    Tally { total_targets: rows as int, successful: successful as int, failed: rows - successful }
}

/// No more attempts have an outcome than were made.
pub proof fn lemma_count_outcome_bound(
    replies: Seq<TransportReply>,
    attempts: nat,
    outcome: DeliveryOutcome,
)
    ensures
        count_outcome(replies, attempts, outcome) <= attempts,
    decreases attempts,
{
    if attempts > 0 {
        lemma_count_outcome_bound(replies, (attempts - 1) as nat, outcome);
    }
}

/// As many targets are pruned as attempts found their connection gone.
pub proof fn lemma_stale_targets_len(
    targets: Seq<Seq<char>>,
    replies: Seq<TransportReply>,
    attempts: nat,
)
    ensures
        stale_targets(targets, replies, attempts).len() == count_outcome(
            replies,
            attempts,
            DeliveryOutcome::Stale,
        ),
    decreases attempts,
{
    if attempts > 0 {
        lemma_stale_targets_len(targets, replies, (attempts - 1) as nat);
    }
}

/// A target is pruned exactly if one of the attempts for it found its
/// connection gone.
pub proof fn lemma_stale_targets_contains(
    targets: Seq<Seq<char>>,
    replies: Seq<TransportReply>,
    attempts: nat,
    id: Seq<char>,
)
    requires
        attempts <= targets.len(),
    ensures
        stale_targets(targets, replies, attempts).contains(id) <==> exists|i: int|
            0 <= i < attempts && #[trigger] targets[i] == id && outcome_at(replies, i)
                == DeliveryOutcome::Stale,
    decreases attempts,
{
    if attempts > 0 {
        let before = stale_targets(targets, replies, (attempts - 1) as nat);
        let now = stale_targets(targets, replies, attempts);
        lemma_stale_targets_contains(targets, replies, (attempts - 1) as nat, id);
        if now.contains(id) {
            let k = choose|k: int| 0 <= k < now.len() && now[k] == id;
            if k < before.len() {
                assert(before[k] == id);
                assert(before.contains(id));
                let i = choose|i: int|
                    0 <= i < attempts - 1 && #[trigger] targets[i] == id && outcome_at(replies, i)
                        == DeliveryOutcome::Stale;
                assert(0 <= i < attempts && targets[i] == id && outcome_at(replies, i)
                    == DeliveryOutcome::Stale);
            } else {
                assert(targets[attempts - 1] == id);
            }
        }
        if exists|i: int|
            0 <= i < attempts && #[trigger] targets[i] == id && outcome_at(replies, i)
                == DeliveryOutcome::Stale {
            let i = choose|i: int|
                0 <= i < attempts && #[trigger] targets[i] == id && outcome_at(replies, i)
                    == DeliveryOutcome::Stale;
            if i < attempts - 1 {
                assert(before.contains(id));
                let k = choose|k: int| 0 <= k < before.len() && before[k] == id;
                assert(now[k] == id);
            } else {
                assert(now[now.len() - 1] == id);
            }
        }
    }
}

/// No more rows have a connection identifier than there are rows, and where
/// every row has one, there are as many identifiers as rows.
pub proof fn lemma_target_ids_len(rows: Seq<ItemView>)
    ensures
        target_ids(rows).len() <= rows.len(),
        (forall|i: int| 0 <= i < rows.len() ==> string_of(#[trigger] rows[i], "connection_id"@)
            is Some) ==> target_ids(rows).len() == rows.len(),
    decreases rows.len(),
{
    if rows.len() > 0 {
        lemma_target_ids_len(rows.drop_last());
        if forall|i: int|
            0 <= i < rows.len() ==> string_of(#[trigger] rows[i], "connection_id"@) is Some {
            assert forall|i: int| 0 <= i < rows.drop_last().len() implies string_of(
                #[trigger] rows.drop_last()[i],
                "connection_id"@,
            ) is Some by {
                assert(rows.drop_last()[i] == rows[i]);
            }
            assert(rows.last() == rows[rows.len() - 1]);
        }
    }
}

/// Reads the connection identifiers off the rows of the registry.
pub fn connection_ids(rows: &Vec<Item>) -> (ids: Vec<String>)
    ensures
        texts_view(ids@) == target_ids(items_view(rows@)),
        ids@.len() <= rows@.len(),
{
    let mut ids: Vec<String> = Vec::new();
    let mut i: usize = 0;
    proof {
        assert(items_view(rows@).take(0) =~= Seq::<ItemView>::empty());
        assert(texts_view(ids@) =~= Seq::<Seq<char>>::empty());
    }
    while i < rows.len()
        invariant
            i <= rows.len(),
            ids@.len() <= i,
            texts_view(ids@) == target_ids(items_view(rows@).take(i as int)),
        decreases rows.len() - i,
    {
        let ghost before = texts_view(ids@);
        proof {
            let upto = items_view(rows@).take(i + 1);
            assert(upto.drop_last() =~= items_view(rows@).take(i as int));
            assert(upto.last() == rows@[i as int]@);
        }
        match get_string(&rows[i], "connection_id") {
            Some(id) => {
                ids.push(id.clone());
                proof {
                    assert(texts_view(ids@) =~= before.push(id@));
                }
            },
            None => {},
        }
        i = i + 1;
    }
    proof {
        assert(items_view(rows@).take(i as int) =~= items_view(rows@));
    }
    ids
}

/// Counts the outcomes of the attempts and collects the targets to prune.
fn settle(rows: usize, targets: &Vec<String>, replies: &Vec<TransportReply>) -> (settled: (
    BroadcastResult,
    Vec<String>,
))
    requires
        targets@.len() <= rows,
    ensures
        settled.0@ == tally(rows as nat, targets@.len(), replies@),
        texts_view(settled.1@) == stale_targets(texts_view(targets@), replies@, targets@.len()),
{
    let mut successful: usize = 0;
    let mut stale: Vec<String> = Vec::new();
    let mut i: usize = 0;
    proof {
        assert(texts_view(stale@) =~= Seq::<Seq<char>>::empty());
    }
    while i < targets.len()
        invariant
            i <= targets.len(),
            targets@.len() <= rows,
            successful == count_outcome(replies@, i as nat, DeliveryOutcome::Delivered),
            successful <= i,
            texts_view(stale@) == stale_targets(texts_view(targets@), replies@, i as nat),
        decreases targets.len() - i,
    {
        let ghost before = texts_view(stale@);
        let outcome = if i < replies.len() {
            classify(replies[i])
        } else {
            DeliveryOutcome::TransientError
        };
        match outcome {
            DeliveryOutcome::Delivered => {
                successful = successful + 1;
            },
            DeliveryOutcome::Stale => {
                stale.push(targets[i].clone());
                proof {
                    assert(texts_view(stale@) =~= before.push(targets@[i as int]@));
                }
            },
            DeliveryOutcome::TransientError => {},
        }
        i = i + 1;
    }
    (BroadcastResult { total_targets: rows, successful, failed: rows - successful }, stale)
}

/// The counts of a broadcast add up: every target either was reached or
/// counts as failed.
pub proof fn lemma_tally_adds_up(rows: nat, attempts: nat, replies: Seq<TransportReply>)
    requires
        attempts <= rows,
    ensures
        tally(rows, attempts, replies).successful + tally(rows, attempts, replies).failed == rows,
        0 <= tally(rows, attempts, replies).successful <= attempts,
        0 <= tally(rows, attempts, replies).failed <= rows,
{
    lemma_count_outcome_bound(replies, attempts, DeliveryOutcome::Delivered);
}

/// Where every attempt either delivered or found the connection gone, the
/// attempts that delivered are those that did not find it gone.
pub proof fn lemma_delivered_or_stale(replies: Seq<TransportReply>, attempts: nat)
    requires
        attempts <= replies.len(),
        forall|i: int|
            0 <= i < attempts ==> #[trigger] replies[i] == TransportReply::Accepted || replies[i]
                == TransportReply::Gone,
    ensures
        count_outcome(replies, attempts, DeliveryOutcome::Delivered) + count_outcome(
            replies,
            attempts,
            DeliveryOutcome::Stale,
        ) == attempts,
    decreases attempts,
{
    if attempts > 0 {
        lemma_delivered_or_stale(replies, (attempts - 1) as nat);
        assert(replies[attempts - 1] == TransportReply::Accepted || replies[attempts - 1]
            == TransportReply::Gone);
    }
}

/// What the outside reports to a broadcast.
#[derive(Debug)]
pub enum Event {
    /// The rows that the registry holds for the room.
    Rows(Vec<Item>),
    /// The registry could not be read.
    RegistryUnavailable,
    /// The replies of the transport, one for each target and in the targets'
    /// order.
    Replies(Vec<TransportReply>),
}

/// An event as contracts speak of it.
pub enum EventView {
    Rows(Seq<ItemView>),
    RegistryUnavailable,
    Replies(Seq<TransportReply>),
}

impl View for Event {
    type V = EventView;

    open spec fn view(&self) -> EventView {
        match self {
            Event::Rows(rows) => EventView::Rows(items_view(rows@)),
            Event::RegistryUnavailable => EventView::RegistryUnavailable,
            Event::Replies(replies) => EventView::Replies(replies@),
        }
    }
}

/// What a broadcast asks the outside to do.
#[derive(Debug)]
pub enum Action {
    /// Ask the registry for the rows of the room.
    QueryRoom { room_id: String },
    /// Record the metrics, then send the payload to each target, all at the
    /// same time, and report the replies.
    Deliver { targets: Vec<String>, payload: String, metrics: Vec<MetricRecord> },
    /// Delete each stale connection from the registry, once and without
    /// regard to whether the deletion succeeds, and record the metrics. The
    /// broadcast is over.
    Finish { result: BroadcastResult, stale: Vec<String>, metrics: Vec<MetricRecord> },
    /// Give the broadcast of this message up. The broadcast is over.
    Abort { error: BroadcastError },
}

/// An action as contracts speak of it.
pub enum ActionView {
    QueryRoom { room_id: Seq<char> },
    Deliver { targets: Seq<Seq<char>>, payload: Seq<char>, metrics: Seq<MetricRecordView> },
    Finish { result: Tally, stale: Seq<Seq<char>>, metrics: Seq<MetricRecordView> },
    Abort { error: BroadcastError },
}

impl View for Action {
    type V = ActionView;

    open spec fn view(&self) -> ActionView {
        match self {
            Action::QueryRoom { room_id } => ActionView::QueryRoom { room_id: room_id@ },
            Action::Deliver { targets, payload, metrics } => ActionView::Deliver {
                targets: texts_view(targets@),
                payload: payload@,
                metrics: records_view(metrics@),
            },
            Action::Finish { result, stale, metrics } => ActionView::Finish {
                result: result@,
                stale: texts_view(stale@),
                metrics: records_view(metrics@),
            },
            Action::Abort { error } => ActionView::Abort { error: *error },
        }
    }
}

/// Where a broadcast stands.
#[derive(Debug)]
enum Phase {
    Resolving { message: Message },
    Delivering { room_id: String, rows: usize, targets: Vec<String> },
    Finished,
}

/// Where a broadcast stands, as contracts speak of it.
pub enum PhaseView {
    /// The registry has been asked for the rows of the message's room.
    Resolving { message: MessageView },
    /// The payload is on its way to the targets, which are those of the
    /// `rows` rows that have a connection identifier.
    Delivering { room_id: Seq<char>, rows: nat, targets: Seq<Seq<char>> },
    /// The broadcast is over.
    Finished,
}

/// The broadcast of one message.
#[derive(Debug)]
pub struct Broadcast {
    metrics: MetricsHelper,
    phase: Phase,
}

/// A broadcast as contracts speak of it.
pub struct BroadcastView {
    pub metrics: MetricsHelperView,
    pub phase: PhaseView,
}

impl View for Broadcast {
    type V = BroadcastView;

    closed spec fn view(&self) -> BroadcastView {
        BroadcastView {
            metrics: self.metrics@,
            phase: match self.phase {
                Phase::Resolving { message } => PhaseView::Resolving { message: message@ },
                Phase::Delivering { room_id, rows, targets } => PhaseView::Delivering {
                    room_id: room_id@,
                    rows: rows as nat,
                    targets: texts_view(targets@),
                },
                Phase::Finished => PhaseView::Finished,
            },
        }
    }
}

/// A count as the metrics take it: numbers above the largest `i32` are
/// recorded as the largest `i32`.
pub open spec fn metric_count(count: int) -> int {
    if count > i32::MAX {
        i32::MAX as int
    } else {
        count
    }
}

/// The broadcast that has ended.
pub open spec fn finished(state: BroadcastView) -> BroadcastView {
    BroadcastView { metrics: state.metrics, phase: PhaseView::Finished }
}

/// Whether the step that `event` causes in `state` serialises the message.
pub open spec fn serialises(state: BroadcastView, event: EventView) -> bool {
    state.phase is Resolving && event is Rows
}

/// The step of a broadcast: the state that follows `state` when `event` is
/// reported, and what is to be done then. `payload` is the serialised
/// message; it is read only in a step that serialises.
///
/// - While the rows are awaited: rows lead to the delivery of the payload to
///   the rows' connections, or to giving up where the message cannot be
///   serialised; an unavailable registry leads to giving up.
/// - While the replies are awaited: replies lead to the end, with the counts,
///   the connections to prune and the metrics of the broadcast.
/// - Any other event ends the broadcast.
pub open spec fn next(
    state: BroadcastView,
    event: EventView,
    payload: Result<Seq<char>, WireError>,
) -> (BroadcastView, ActionView) {
    match (state.phase, event) {
        (PhaseView::Resolving { message }, EventView::Rows(rows)) => match payload {
            Ok(text) => (
                BroadcastView {
                    metrics: state.metrics,
                    phase: PhaseView::Delivering {
                        room_id: message.room_id,
                        rows: rows.len(),
                        targets: target_ids(rows),
                    },
                },
                ActionView::Deliver {
                    targets: target_ids(rows),
                    payload: text,
                    metrics: message_sent_metrics(
                        state.metrics,
                        message.room_id,
                        utf8_len(message.message_text) as int,
                    ),
                },
            ),
            Err(_) => (
                finished(state),
                ActionView::Abort { error: BroadcastError::Serialization },
            ),
        },
        (PhaseView::Resolving { message }, EventView::RegistryUnavailable) => (
            finished(state),
            ActionView::Abort { error: BroadcastError::RegistryUnavailable },
        ),
        (PhaseView::Delivering { room_id, rows, targets }, EventView::Replies(replies)) => (
            finished(state),
            ActionView::Finish {
                result: tally(rows, targets.len(), replies),
                stale: stale_targets(targets, replies, targets.len()),
                metrics: message_broadcast_metrics(
                    state.metrics,
                    room_id,
                    metric_count(rows as int),
                    metric_count(tally(rows, targets.len(), replies).successful),
                ),
            },
        ),
        _ => (finished(state), ActionView::Abort { error: BroadcastError::UnexpectedEvent }),
    }
}

/// The characters of a payload, or the error in its place.
pub open spec fn payload_view(payload: Result<String, WireError>) -> Result<Seq<char>, WireError> {
    match payload {
        Ok(text) => Ok(text@),
        Err(error) => Err(error),
    }
}

/// Copies a list of texts.
fn clone_texts(texts: &Vec<String>) -> (copy: Vec<String>)
    ensures
        texts_view(copy@) == texts_view(texts@),
{
    let mut copy: Vec<String> = Vec::new();
    let mut i: usize = 0;
    while i < texts.len()
        invariant
            i <= texts.len(),
            copy@.len() == i,
            forall|j: int| 0 <= j < i ==> (#[trigger] copy@[j])@ == texts@[j]@,
        decreases texts.len() - i,
    {
        copy.push(texts[i].clone());
        i = i + 1;
    }
    proof {
        assert(texts_view(copy@) =~= texts_view(texts@));
    }
    copy
}

/// A count as the metrics take it.
fn count_for_metrics(count: usize) -> (value: i32)
    ensures
        value == metric_count(count as int),
{
    if count > i32::MAX as usize {
        i32::MAX
    } else {
        count as i32
    }
}

impl Broadcast {
    #[verifier::type_invariant]
    spec fn targets_are_rows(self) -> bool {
        match self.phase {
            Phase::Delivering { room_id, rows, targets } => targets@.len() <= rows,
            _ => true,
        }
    }

    /// Begins the broadcast of a message: the registry is to be asked for the
    /// rows of the message's room.
    pub fn begin(metrics: MetricsHelper, message: Message) -> (out: (Broadcast, Action))
        ensures
            out.0@ == (BroadcastView {
                metrics: metrics@,
                phase: PhaseView::Resolving { message: message@ },
            }),
            out.1@ == (ActionView::QueryRoom { room_id: message@.room_id }),
    {
        let room_id = message.room_id.clone();
        (Broadcast { metrics, phase: Phase::Resolving { message } }, Action::QueryRoom { room_id })
    }

    /// Whether the broadcast is over.
    pub fn is_finished(&self) -> (over: bool)
        ensures
            over == (self@.phase is Finished),
    {
        match &self.phase {
            Phase::Finished => true,
            _ => false,
        }
    }

    /// Takes one step, with the serialised message given.
    pub fn step_with_payload(self, event: Event, payload: Result<String, WireError>) -> (out: (
        Broadcast,
        Action,
    ))
        ensures
            (out.0@, out.1@) == next(self@, event@, payload_view(payload)),
    {
        proof {
            use_type_invariant(&self);
        }
        let Broadcast { metrics, phase } = self;
        match (phase, event) {
            (Phase::Resolving { message }, Event::Rows(rows)) => match payload {
                Ok(text) => {
                    let targets = connection_ids(&rows);
                    let records = metrics.emit_message_sent(
                        message.room_id.as_str(),
                        message.message_text.as_str().len(),
                    );
                    let to_deliver = clone_texts(&targets);
                    (
                        Broadcast {
                            metrics,
                            phase: Phase::Delivering {
                                room_id: message.room_id,
                                rows: rows.len(),
                                targets,
                            },
                        },
                        Action::Deliver { targets: to_deliver, payload: text, metrics: records },
                    )
                },
                Err(_) => (
                    Broadcast { metrics, phase: Phase::Finished },
                    Action::Abort { error: BroadcastError::Serialization },
                ),
            },
            (Phase::Resolving { message }, Event::RegistryUnavailable) => (
                Broadcast { metrics, phase: Phase::Finished },
                Action::Abort { error: BroadcastError::RegistryUnavailable },
            ),
            (Phase::Delivering { room_id, rows, targets }, Event::Replies(replies)) => {
                let (result, stale) = settle(rows, &targets, &replies);
                let records = metrics.emit_message_broadcast(
                    room_id.as_str(),
                    count_for_metrics(result.total_targets),
                    count_for_metrics(result.successful),
                );
                (
                    Broadcast { metrics, phase: Phase::Finished },
                    Action::Finish { result, stale, metrics: records },
                )
            },
            _ => (
                Broadcast { metrics, phase: Phase::Finished },
                Action::Abort { error: BroadcastError::UnexpectedEvent },
            ),
        }
    }

    /// Takes one step. Where the step serialises the message, the payload is
    /// made here, with the message's time of creation as RFC 3339 text, or
    /// with the present moment where the calendar does not reach that far.
    /// So a step on rows always hands out the deliveries.
    pub fn step(self, event: Event) -> (out: (Broadcast, Action))
        ensures
            !serialises(self@, event@) ==> (out.0@, out.1@) == next(
                self@,
                event@,
                Err(WireError::Encoding),
            ),
            serialises(self@, event@) ==> exists|created_at: Seq<char>|
                stands_for_instant(created_at, self@.phase->message.created_at) && (out.0@, out.1@)
                    == next(
                    self@,
                    event@,
                    Ok(#[trigger] message_payload(self@.phase->message, created_at)),
                ),
            serialises(self@, event@) ==> out.1@ is Deliver,
    {
        let payload = match (&self.phase, &event) {
            (Phase::Resolving { message }, Event::Rows(_)) => serialize_message(message),
            _ => Err(WireError::Encoding),
        };
        self.step_with_payload(event, payload)
    }
}

/// Partial-failure isolation. A room has `rows.len()` live connections; the
/// attempt for each either delivers or finds the connection gone, and
/// `gone` of them find it gone. Then the broadcast tries every connection,
/// counts all of them as targets, those that were not gone as successful
/// and the `gone` others as failed, and asks for exactly `gone` deletions,
/// whatever the two numbers are.
pub proof fn lemma_partial_failure_isolation(
    state: BroadcastView,
    rows: Seq<ItemView>,
    payload: Seq<char>,
    replies: Seq<TransportReply>,
    gone: nat,
)
    requires
        state.phase is Resolving,
        forall|i: int|
            0 <= i < rows.len() ==> string_of(#[trigger] rows[i], "connection_id"@) is Some,
        replies.len() == rows.len(),
        forall|i: int|
            0 <= i < replies.len() ==> #[trigger] replies[i] == TransportReply::Accepted
                || replies[i] == TransportReply::Gone,
        count_outcome(replies, rows.len(), DeliveryOutcome::Stale) == gone,
    ensures
        gone <= rows.len(),
        ({
            let (delivering, deliver) = next(state, EventView::Rows(rows), Ok(payload));
            let (over, finish) = next(delivering, EventView::Replies(replies), Ok(payload));
            &&& deliver is Deliver
            &&& deliver->Deliver_targets.len() == rows.len()
            &&& finish is Finish
            &&& finish->result == (Tally {
                total_targets: rows.len() as int,
                successful: rows.len() - gone,
                failed: gone as int,
            })
            &&& finish->stale.len() == gone
            &&& finish->stale == stale_targets(target_ids(rows), replies, rows.len())
            &&& over.phase is Finished
        }),
{
    lemma_target_ids_len(rows);
    lemma_delivered_or_stale(replies, rows.len());
    lemma_stale_targets_len(target_ids(rows), replies, rows.len());
    lemma_count_outcome_bound(replies, rows.len(), DeliveryOutcome::Stale);
}

/// The rows under which connections are stored, in the connections' order.
pub open spec fn rows_of(connections: Seq<ConnectionView>) -> Seq<ItemView> {
    connections.map_values(|c: ConnectionView| connection_item(c))
}

/// Every stored connection can be delivered to: the targets that are read
/// off the rows of connections are the identifiers of those connections.
pub proof fn lemma_connections_are_targets(connections: Seq<ConnectionView>)
    ensures
        target_ids(rows_of(connections)) == connections.map_values(
            |c: ConnectionView| c.connection_id,
        ),
    decreases connections.len(),
{
    let ids = connections.map_values(|c: ConnectionView| c.connection_id);
    if connections.len() == 0 {
        assert(target_ids(rows_of(connections)) =~= ids);
    } else {
        let init = connections.drop_last();
        lemma_connections_are_targets(init);
        lemma_connection_item(connections.last());
        assert(rows_of(connections).drop_last() =~= rows_of(init));
        assert(rows_of(connections).last() == connection_item(connections.last()));
        assert(target_ids(rows_of(connections)) =~= ids);
    }
}

/// Delivery to every live subscriber. When the registry's answer to the
/// query for the message's room is what the registry holds for that room,
/// the payload is handed out for exactly the connections that are registered
/// for the room, each once.
pub proof fn lemma_every_listener_is_a_target(
    state: BroadcastView,
    registry: RegistryView,
    listeners: Seq<ConnectionView>,
    payload: Seq<char>,
)
    requires
        state.phase is Resolving,
        are_listeners(registry, state.phase->message.room_id, listeners),
    ensures
        ({
            let deliver = next(state, EventView::Rows(rows_of(listeners)), Ok(payload)).1;
            &&& deliver is Deliver
            &&& deliver->payload == payload
            &&& deliver->Deliver_targets.len() == listeners.len()
            &&& deliver->Deliver_targets.no_duplicates()
            &&& forall|id: Seq<char>|
                deliver->Deliver_targets.contains(id) ==> #[trigger] registry.contains_key(id)
                    && registry[id].room_id == state.phase->message.room_id
            &&& forall|id: Seq<char>|
                registry.contains_key(id) && (#[trigger] registry[id]).room_id
                    == state.phase->message.room_id ==> deliver->Deliver_targets.contains(id)
        }),
{
    lemma_connections_are_targets(listeners);
    let targets = listeners.map_values(|c: ConnectionView| c.connection_id);
    let room_id = state.phase->message.room_id;
    assert forall|i: int, j: int| 0 <= i < targets.len() && 0 <= j < targets.len() && i
        != j implies targets[i] != targets[j] by {
        if i < j {
            assert(listeners[i].connection_id != listeners[j].connection_id);
        } else {
            assert(listeners[j].connection_id != listeners[i].connection_id);
        }
    }
    assert forall|id: Seq<char>| targets.contains(id) implies #[trigger] registry.contains_key(id)
        && registry[id].room_id == room_id by {
        let k = choose|k: int| 0 <= k < targets.len() && targets[k] == id;
        assert(listens_to(registry, listeners[k], room_id));
    }
    assert forall|id: Seq<char>|
        registry.contains_key(id) && (#[trigger] registry[id]).room_id
            == room_id implies targets.contains(id) by {
        let k = choose|k: int|
            0 <= k < listeners.len() && (#[trigger] listeners[k]).connection_id == id;
        assert(targets[k] == id);
    }
}

/// Reconciliation of the registry. A broadcast is made to the connections
/// that the registry holds for the message's room, and afterwards the
/// connections that the dispatcher lists as stale are pruned. Then a
/// connection of the room is still registered exactly if its delivery did
/// not find it gone; the connections of other rooms are all still there; and
/// no connection was added or changed.
pub proof fn lemma_broadcast_reconciles_registry(
    state: BroadcastView,
    registry: RegistryView,
    listeners: Seq<ConnectionView>,
    payload: Seq<char>,
    replies: Seq<TransportReply>,
)
    requires
        state.phase is Resolving,
        are_listeners(registry, state.phase->message.room_id, listeners),
    ensures
        ({
            let delivering = next(state, EventView::Rows(rows_of(listeners)), Ok(payload)).0;
            let finish = next(delivering, EventView::Replies(replies), Ok(payload)).1;
            let after = pruned(registry, finish->stale);
            &&& finish is Finish
            &&& forall|i: int|
                0 <= i < listeners.len() ==> (after.contains_key(
                    (#[trigger] listeners[i]).connection_id,
                ) <==> outcome_at(replies, i) != DeliveryOutcome::Stale)
            &&& forall|id: Seq<char>|
                registry.contains_key(id) && (#[trigger] registry[id]).room_id
                    != state.phase->message.room_id ==> after.contains_key(id)
            &&& forall|id: Seq<char>| #[trigger]
                after.contains_key(id) ==> registry.contains_key(id) && after[id] == registry[id]
        }),
{
    let room_id = state.phase->message.room_id;
    let targets = listeners.map_values(|c: ConnectionView| c.connection_id);
    lemma_connections_are_targets(listeners);
    let stale = stale_targets(targets, replies, targets.len());
    let after = pruned(registry, stale);
    lemma_pruned(registry, stale);
    assert forall|i: int| 0 <= i < listeners.len() implies (after.contains_key(
        (#[trigger] listeners[i]).connection_id,
    ) <==> outcome_at(replies, i) != DeliveryOutcome::Stale) by {
        let id = listeners[i].connection_id;
        lemma_stale_targets_contains(targets, replies, targets.len(), id);
        assert(listens_to(registry, listeners[i], room_id));
        assert(targets[i] == id);
        if stale.contains(id) {
            let k = choose|k: int|
                0 <= k < targets.len() && #[trigger] targets[k] == id && outcome_at(replies, k)
                    == DeliveryOutcome::Stale;
            if k < i {
                assert(listeners[k].connection_id != listeners[i].connection_id);
            } else if i < k {
                assert(listeners[i].connection_id != listeners[k].connection_id);
            }
        }
    }
    assert forall|id: Seq<char>|
        registry.contains_key(id) && (#[trigger] registry[id]).room_id
            != room_id implies after.contains_key(id) by {
        lemma_stale_targets_contains(targets, replies, targets.len(), id);
        if stale.contains(id) {
            let k = choose|k: int|
                0 <= k < targets.len() && #[trigger] targets[k] == id && outcome_at(replies, k)
                    == DeliveryOutcome::Stale;
            assert(listens_to(registry, listeners[k], room_id));
        }
    }
}

/// Empty-room no-op. The broadcast to a room without connections hands out
/// no delivery, counts nothing and asks for no deletion, whatever is
/// reported as replies.
pub proof fn lemma_empty_room(
    state: BroadcastView,
    payload: Seq<char>,
    replies: Seq<TransportReply>,
)
    requires
        state.phase is Resolving,
    ensures
        ({
            let (delivering, deliver) = next(
                state,
                EventView::Rows(Seq::<ItemView>::empty()),
                Ok(payload),
            );
            let (over, finish) = next(delivering, EventView::Replies(replies), Ok(payload));
            &&& deliver is Deliver
            &&& deliver->Deliver_targets.len() == 0
            &&& finish is Finish
            &&& finish->result == (Tally { total_targets: 0, successful: 0, failed: 0 })
            &&& finish->stale.len() == 0
            &&& over.phase is Finished
        }),
{
}

/// A broadcast ends after at most two reports, and what is reported after
/// its end changes nothing.
pub proof fn lemma_broadcast_ends(
    state: BroadcastView,
    first: EventView,
    second: EventView,
    third: EventView,
    payload: Result<Seq<char>, WireError>,
)
    ensures
        next(next(state, first, payload).0, second, payload).0.phase is Finished,
        state.phase is Finished ==> next(state, third, payload) == (
            state,
            ActionView::Abort { error: BroadcastError::UnexpectedEvent },
        ),
{
}

} // verus!
