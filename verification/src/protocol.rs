//! Messages and records exchanged between the shell and remote introspection actors.

use vstd::prelude::*;

use crate::introspection::ActorStatus;
use crate::text::{all_ascii, ascii_lower_char, lowercase, str_eq, to_lowercase};
use crate::time::{receive_timestamp, rfc3339_fields, Timestamp};
use crate::trace::{event_type_name, level_name, Level, TraceEvent, TraceEventType};

verus! {

/// Unique identifier for a trace subscription.
pub type SubscriptionId = u64;

/// Result of a dynamic message send operation.
#[derive(Debug, Clone)]
pub enum DynamicSendResult {
    /// Message was sent successfully
    Success,
    /// Actor was not found
    ActorNotFound,
    /// Actor doesn't support dynamic messages
    NotDynamic,
    /// Failed to send the message
    SendFailed(String),
}

/// Batch of trace events with dropped count.
#[derive(Debug, Clone)]
pub struct TraceEventBatch {
    /// Trace events since last poll
    pub events: Vec<SerializableTraceEvent>,
    /// Number of events dropped due to buffer overflow since last poll
    pub dropped_count: usize,
}

/// Serializable trace event for network transmission.
#[derive(Debug, Clone)]
pub struct SerializableTraceEvent {
    /// Timestamp as RFC3339 string
    pub timestamp: String,
    /// Actor ID (e.g., "0.1")
    pub actor_id: Option<String>,
    /// Actor name (if registered)
    pub actor_name: Option<String>,
    /// Event type (span enter, exit, or event)
    pub event_type: String,
    /// Event level (trace, debug, info, warn, error)
    pub level: String,
    /// Span/event target
    pub target: String,
    /// Event message or span name
    pub message: String,
    /// Additional fields
    pub fields: Vec<(String, String)>,
}

/// A lifecycle event of a monitored actor, in serializable form.
#[derive(Debug, Clone)]
pub struct SerializableMonitorEvent {
    /// Timestamp as RFC3339 string
    pub timestamp: String,
    /// Actor ID (e.g., "0.1"), or "unknown"
    pub actor_id: String,
    /// Actor name
    pub actor_name: Option<String>,
    /// "STARTED", "STOPPING" or "STOPPED"
    pub event_type: String,
    /// Why the actor stopped, if it did
    pub reason: Option<String>,
    /// The failure, if the actor failed
    pub error: Option<String>,
}

/// The mathematical value of a monitor event: its texts as character sequences.
pub struct MonitorEventView {
    pub timestamp: Seq<char>,
    pub actor_id: Seq<char>,
    pub actor_name: Option<Seq<char>>,
    pub event_type: Seq<char>,
    pub reason: Option<Seq<char>>,
    pub error: Option<Seq<char>>,
}

impl View for SerializableMonitorEvent {
    type V = MonitorEventView;

    open spec fn view(&self) -> MonitorEventView {
        MonitorEventView {
            timestamp: self.timestamp@,
            actor_id: self.actor_id@,
            actor_name: crate::trace::opt_view(self.actor_name),
            event_type: self.event_type@,
            reason: crate::trace::opt_view(self.reason),
            error: crate::trace::opt_view(self.error),
        }
    }
}

/// The views of a sequence of monitor events.
pub open spec fn monitor_views(s: Seq<SerializableMonitorEvent>) -> Seq<MonitorEventView> {
    s.map_values(|e: SerializableMonitorEvent| e@)
}

/// Batch of monitor events with dropped count.
#[derive(Debug, Clone)]
pub struct MonitorEventBatch {
    /// Monitor events since last poll
    pub events: Vec<SerializableMonitorEvent>,
    /// Number of events dropped due to buffer overflow since last poll
    pub dropped_count: usize,
}

/// Information about an actor (serializable across network).
#[derive(Debug, Clone)]
pub struct ActorInfo {
    /// Actor's unique identifier
    pub id: String,
    /// Actor's registered name, if any
    pub name: Option<String>,
    /// Current actor status (e.g., "Running", "Stopped")
    pub status: String,
    /// Whether this actor is on the local node
    pub is_local: bool,
}

/// Supervision tree node (serializable for remote queries).
#[derive(Debug)]
pub struct SupervisionTreeNode {
    /// Information about this actor
    pub actor: ActorInfo,
    /// Number of children
    pub child_count: usize,
    /// Child actors in the supervision tree
    pub children: Vec<SupervisionTreeNode>,
}

/// Cluster topology information.
#[derive(Debug, Clone)]
pub struct ClusterTopology {
    /// All known nodes in the cluster
    pub nodes: Vec<NodeInfo>,
    /// Process groups and their members across the cluster, each group named once
    pub process_groups: Vec<(String, Vec<ActorLocation>)>,
}

/// Information about a node in the cluster.
#[derive(Debug, Clone)]
pub struct NodeInfo {
    /// Node ID (e.g., "0", "1", "2")
    pub id: String,
    /// Node name (e.g., "node_a", "node_b")
    pub name: String,
    /// Number of registered actors on this node
    pub actor_count: usize,
    /// Whether this is the local node
    pub is_local: bool,
}

/// Location of an actor in the cluster.
#[derive(Debug, Clone)]
pub struct ActorLocation {
    /// Actor's unique identifier
    pub actor_id: String,
    /// Actor's registered name, if any
    pub actor_name: Option<String>,
    /// ID of the node hosting this actor
    pub node_id: String,
    /// Name of the node hosting this actor
    pub node_name: String,
}

/// Information about a schema-enabled actor.
#[derive(Debug, Clone)]
pub struct SchemaActorInfo {
    /// Actor's registered name
    pub name: String,
    /// The JSON schema string describing the message type
    pub schema: String,
}

/// A copy of an optional string.
pub fn copy_opt(o: &Option<String>) -> (r: Option<String>)
    ensures
        r == *o,
{
    match o {
        Some(s) => Some(s.clone()),
        None => None,
    }
}

/// A copy of a list of key/value fields.
pub fn copy_fields(v: &Vec<(String, String)>) -> (r: Vec<(String, String)>)
    ensures
        r@ == v@,
{
    let mut r: Vec<(String, String)> = Vec::new();
    let mut i: usize = 0;
    while i < v.len()
        invariant
            i <= v.len(),
            r@ == v@.take(i as int),
        decreases v.len() - i,
    {
        let (a, b) = &v[i];
        r.push((a.clone(), b.clone()));
        assert(v@.take(i + 1) =~= v@.take(i as int).push(v@[i as int]));
        i = i + 1;
    }
    assert(v@.take(v.len() as int) =~= v@);
    r
}


/// Whether `s` is the serializable form of `event`: its timestamp in RFC 3339 form, its kind and
/// level by name, and every other field unchanged.
pub open spec fn serialized_as(event: TraceEvent, s: SerializableTraceEvent) -> bool {
    &&& s.timestamp@ == crate::time::rfc3339_text(
        event.timestamp.unix_secs,
        event.timestamp.nanos,
        event.timestamp.offset_secs,
    )
    &&& s.actor_id == event.actor_id
    &&& s.actor_name == event.actor_name
    &&& s.event_type@ == event_type_name(event.event_type)
    &&& s.level@ == level_name(event.level)
    &&& s.target == event.target
    &&& s.message == event.message
    &&& s.fields@ == event.fields@
    &&& crate::time::rfc3339_exact(event.timestamp) ==> rfc3339_fields(s.timestamp@) == Some(
        (event.timestamp.unix_secs, event.timestamp.nanos, event.timestamp.offset_secs),
    )
}

impl SerializableTraceEvent {
    /// The serializable form of `event`: its timestamp in RFC 3339 form, its kind and level by
    /// name, and every other field unchanged.
    pub fn from_trace_event(event: &TraceEvent) -> (s: Self)
        requires
            event.timestamp.valid(),
        ensures
            s.timestamp@ == crate::time::rfc3339_text(
                event.timestamp.unix_secs,
                event.timestamp.nanos,
                event.timestamp.offset_secs,
            ),
            s.actor_id == event.actor_id,
            s.actor_name == event.actor_name,
            s.event_type@ == event_type_name(event.event_type),
            s.level@ == level_name(event.level),
            s.target == event.target,
            s.message == event.message,
            s.fields@ == event.fields@,
            crate::time::rfc3339_exact(event.timestamp) ==> rfc3339_fields(s.timestamp@) == Some(
                (event.timestamp.unix_secs, event.timestamp.nanos, event.timestamp.offset_secs),
            ),
    {
        SerializableTraceEvent {
            timestamp: event.timestamp.to_rfc3339(),
            actor_id: copy_opt(&event.actor_id),
            actor_name: copy_opt(&event.actor_name),
            event_type: event.event_type.as_str().to_owned(),
            level: event.level.as_str().to_owned(),
            target: event.target.clone(),
            message: event.message.clone(),
            fields: copy_fields(&event.fields),
        }
    }
}

/// The level that a received level name stands for, once lower-cased: `trace`, `debug`,
/// `info`, `warn` and `error` name their levels, and any other name stands for `Info`.
pub open spec fn level_from_name(lower: Seq<char>) -> Level {
    if lower == "trace"@ {
        Level::Trace
    } else if lower == "debug"@ {
        Level::Debug
    } else if lower == "info"@ {
        Level::Info
    } else if lower == "warn"@ {
        Level::Warn
    } else if lower == "error"@ {
        Level::Error
    } else {
        Level::Info
    }
}

/// The kind of event that a received kind name stands for: `ENTER` and `EXIT` name span
/// entries and exits, and any other name stands for a standalone event.
pub open spec fn event_type_from_name(name: Seq<char>) -> TraceEventType {
    if name == "ENTER"@ {
        TraceEventType::SpanEnter
    } else if name == "EXIT"@ {
        TraceEventType::SpanExit
    } else {
        TraceEventType::Event
    }
}

fn level_from_lowercase(lower: &str) -> (l: Level)
    ensures
        l == level_from_name(lower@),
{
    if str_eq(lower, "trace") {
        Level::Trace
    } else if str_eq(lower, "debug") {
        Level::Debug
    } else if str_eq(lower, "info") {
        Level::Info
    } else if str_eq(lower, "warn") {
        Level::Warn
    } else if str_eq(lower, "error") {
        Level::Error
    } else {
        Level::Info
    }
}

/// Whether `r` is the trace event that the received `ev` describes: its timestamp is one that can
/// be written out and, where `ev`'s timestamp can be read as such, the instant it names; its kind
/// and level are read back from their names (the level lower-cased); every other field is
/// unchanged.
pub open spec fn received_as(ev: SerializableTraceEvent, r: TraceEvent) -> bool {
    &&& r.timestamp.valid()
    &&& match rfc3339_fields(ev.timestamp@) {
        Some(f) => (Timestamp { unix_secs: f.0, nanos: f.1, offset_secs: 0 }).valid() ==> (
        r.timestamp.unix_secs == f.0 && r.timestamp.nanos == f.1),
        None => true,
    }
    &&& r.actor_id == ev.actor_id
    &&& r.actor_name == ev.actor_name
    &&& r.event_type == event_type_from_name(ev.event_type@)
    &&& r.level == level_from_name(lowercase(ev.level@))
    &&& all_ascii(ev.level@) ==> r.level == level_from_name(
        ev.level@.map_values(|c: char| ascii_lower_char(c)),
    )
    &&& r.target == ev.target
    &&& r.message == ev.message
    &&& r.fields@ == ev.fields@
}

impl TraceEvent {
    /// The trace event that a received serializable event describes, its timestamp shown in the
    /// local time zone (the current time where the timestamp cannot be read), its kind and level
    /// read back from their names, and every other field unchanged.
    pub fn from_serializable(ev: &SerializableTraceEvent) -> (r: TraceEvent)
        ensures
            received_as(*ev, r),
    {
        let event_type = if str_eq(ev.event_type.as_str(), "ENTER") {
            TraceEventType::SpanEnter
        } else if str_eq(ev.event_type.as_str(), "EXIT") {
            TraceEventType::SpanExit
        } else {
            TraceEventType::Event
        };
        let lower = to_lowercase(ev.level.as_str());
        TraceEvent {
            timestamp: receive_timestamp(ev.timestamp.as_str()),
            actor_id: copy_opt(&ev.actor_id),
            actor_name: copy_opt(&ev.actor_name),
            event_type,
            level: level_from_lowercase(lower.as_str()),
            target: ev.target.clone(),
            message: ev.message.clone(),
            fields: copy_fields(&ev.fields),
        }
    }
}

/// A level's name, sent and read back, gives the same level.
pub proof fn lemma_level_name_round_trip(l: Level)
    ensures
        all_ascii(level_name(l)),
        level_from_name(level_name(l).map_values(|c: char| ascii_lower_char(c))) == l,
{
    reveal_strlit("TRACE");
    reveal_strlit("DEBUG");
    reveal_strlit("INFO");
    reveal_strlit("WARN");
    reveal_strlit("ERROR");
    reveal_strlit("trace");
    reveal_strlit("debug");
    reveal_strlit("info");
    reveal_strlit("warn");
    reveal_strlit("error");
    let lowered = level_name(l).map_values(|c: char| ascii_lower_char(c));
    assert("trace"@.len() == 5 && "debug"@.len() == 5 && "info"@.len() == 4);
    assert("warn"@.len() == 4 && "error"@.len() == 5);
    assert("trace"@[0] == 't' && "debug"@[0] == 'd' && "info"@[0] == 'i');
    assert("warn"@[0] == 'w' && "error"@[0] == 'e');
    match l {
        Level::Trace => assert(lowered =~= "trace"@),
        Level::Debug => assert(lowered =~= "debug"@),
        Level::Info => assert(lowered =~= "info"@),
        Level::Warn => assert(lowered =~= "warn"@),
        Level::Error => assert(lowered =~= "error"@),
    }
}

/// An event kind's name, sent and read back, gives the same kind.
pub proof fn lemma_event_type_name_round_trip(t: TraceEventType)
    ensures
        event_type_from_name(event_type_name(t)) == t,
{
    reveal_strlit("ENTER");
    reveal_strlit("EXIT");
    reveal_strlit("EVENT");
    match t {
        TraceEventType::SpanEnter => {},
        TraceEventType::SpanExit => assert("EXIT"@.len() != "ENTER"@.len()),
        TraceEventType::Event => {
            assert("EVENT"@[1] != "ENTER"@[1]);
            assert("EVENT"@.len() != "EXIT"@.len());
        },
    }
}

/// The name of an actor status, as its `Debug` form writes it.
pub open spec fn status_text(s: ActorStatus) -> Seq<char> {
    match s {
        ActorStatus::Unstarted => "Unstarted"@,
        ActorStatus::Starting => "Starting"@,
        ActorStatus::Running => "Running"@,
        ActorStatus::Upgrading => "Upgrading"@,
        ActorStatus::Draining => "Draining"@,
        ActorStatus::Stopping => "Stopping"@,
        ActorStatus::Stopped => "Stopped"@,
    }
}

/// The name of an actor status.
pub fn status_name(s: ActorStatus) -> (r: &'static str)
    ensures
        r@ == status_text(s),
{
    match s {
        ActorStatus::Unstarted => "Unstarted",
        ActorStatus::Starting => "Starting",
        ActorStatus::Running => "Running",
        ActorStatus::Upgrading => "Upgrading",
        ActorStatus::Draining => "Draining",
        ActorStatus::Stopping => "Stopping",
        ActorStatus::Stopped => "Stopped",
    }
}

impl ActorInfo {
    /// The information shown of an actor with the given ID, name, status and locality.
    pub fn from_parts(id: String, name: Option<String>, status: ActorStatus, is_local: bool) -> (a: Self)
        ensures
            a.id == id,
            a.name == name,
            a.status@ == status_text(status),
            a.is_local == is_local,
    {
        ActorInfo { id, name, status: status_name(status).to_string(), is_local }
    }
}

impl SupervisionTreeNode {
    /// A tree node for `actor` with the given child trees.
    pub fn new(actor: ActorInfo, children: Vec<SupervisionTreeNode>) -> (n: Self)
        ensures
            n.actor == actor,
            n.child_count == children@.len(),
            n.children == children,
    {
        let child_count = children.len();
        SupervisionTreeNode { actor, child_count, children }
    }
}

/// A trace event sent to a remote shell and read back there keeps its actor, kind, level,
/// target, message and fields, and, where its RFC 3339 text carries it exactly, its instant.
pub proof fn lemma_trace_event_round_trip(
    event: TraceEvent,
    sent: SerializableTraceEvent,
    received: TraceEvent,
)
    requires
        event.timestamp.valid(),
        serialized_as(event, sent),
        received_as(sent, received),
    ensures
        received.actor_id == event.actor_id,
        received.actor_name == event.actor_name,
        received.event_type == event.event_type,
        received.level == event.level,
        received.target == event.target,
        received.message == event.message,
        received.fields@ == event.fields@,
        crate::time::rfc3339_exact(event.timestamp) ==> received.timestamp.unix_secs
            == event.timestamp.unix_secs && received.timestamp.nanos == event.timestamp.nanos,
{
    lemma_level_name_round_trip(event.level);
    lemma_event_type_name_round_trip(event.event_type);
}

} // verus!
