//! The state of an introspection actor: trace subscriptions with bounded buffers, remote
//! monitoring of actors, and the helpers that serve remote shell queries.

use std::collections::{HashMap, VecDeque};

use vstd::prelude::*;
use vstd::std_specs::iter::IteratorSpec;

use crate::buffer::{bounded_push, bounded_push_all, drain_all, lemma_bounded_push_all, lemma_bounded_push_map, overflow, push_bounded};
use crate::protocol::{monitor_views, received_as, serialized_as, MonitorEventBatch, MonitorEventView, SerializableMonitorEvent, SerializableTraceEvent, TraceEventBatch};
use crate::text::{chars_of, push_str, str_eq};
use crate::time::{local_now, rfc3339_text, Timestamp};
use crate::trace::{event_matches, event_views, matches_pattern, TraceEvent, TraceEventView};

verus! {

broadcast use {vstd::std_specs::vecdeque::group_vec_dequeue_axioms, vstd::std_specs::hash::group_hash_axioms};

/// Well-known process group for shell introspection actors.
pub const INTROSPECTION_GROUP: &'static str = "ractor_shell_introspection";

/// Maximum number of trace events to buffer per subscription before discarding.
pub const MAX_TRACE_BUFFER_SIZE: usize = 1000;

/// Maximum number of monitor events to buffer before discarding.
pub const MAX_MONITOR_BUFFER_SIZE: usize = 100;

/// A trace subscription with bounded buffer.
#[derive(Debug)]
pub struct TraceSubscription {
    /// Pattern for filtering trace events (e.g., "raft_*" or "*")
    pub pattern: String,
    /// Buffered trace events (bounded queue)
    pub buffer: VecDeque<TraceEvent>,
    /// Number of events dropped due to buffer overflow since last poll
    pub dropped_count: usize,
}

impl TraceSubscription {
    /// A subscription for `pattern` with an empty buffer.
    pub fn new(pattern: String) -> (s: Self)
        ensures
            s.pattern == pattern,
            s.buffer@ == Seq::<TraceEvent>::empty(),
            s.dropped_count == 0,
    {
        TraceSubscription {
            pattern,
            buffer: VecDeque::with_capacity(MAX_TRACE_BUFFER_SIZE),
            dropped_count: 0,
        }
    }

    /// Add an event to the buffer, dropping the oldest if full.
    pub fn push_event(&mut self, event: TraceEvent)
        requires
            old(self).buffer@.len() >= MAX_TRACE_BUFFER_SIZE ==> old(self).dropped_count
                < usize::MAX,
        ensures
            final(self).pattern == old(self).pattern,
            (final(self).buffer@, final(self).dropped_count as nat) == bounded_push(
                old(self).buffer@,
                old(self).dropped_count as nat,
                MAX_TRACE_BUFFER_SIZE as nat,
                event,
            ),
    {
        push_bounded(&mut self.buffer, &mut self.dropped_count, MAX_TRACE_BUFFER_SIZE, event);
    }

    /// Take all buffered events and reset the dropped count.
    pub fn take_events(&mut self) -> (r: (Vec<TraceEvent>, usize))
        ensures
            r.0@ == old(self).buffer@,
            r.1 == old(self).dropped_count,
            final(self).pattern == old(self).pattern,
            final(self).buffer@ == Seq::<TraceEvent>::empty(),
            final(self).dropped_count == 0,
    {
        let events = drain_all(&mut self.buffer);
        let dropped = self.dropped_count;
        self.dropped_count = 0;
        (events, dropped)
    }
}

/// Lifecycle status of an actor.
#[derive(Debug, Clone, Copy, PartialEq, Eq, Structural)]
pub enum ActorStatus {
    /// Created, but not yet started
    Unstarted,
    /// Starting
    Starting,
    /// Executing (or waiting on messages)
    Running,
    /// Upgrading
    Upgrading,
    /// Draining
    Draining,
    /// Stopping
    Stopping,
    /// Dead
    Stopped,
}

/// Tracking state for a monitored actor.
#[derive(Debug, Clone, Copy, PartialEq, Eq, Structural)]
pub struct MonitoredActor {
    /// Last known status of the actor
    pub last_status: Option<ActorStatus>,
}

/// State for remote monitoring.
#[derive(Debug)]
pub struct MonitoringState {
    /// Actors being monitored, by name, each name at most once
    pub monitored: Vec<(String, MonitoredActor)>,
    /// Buffered monitor events
    pub event_buffer: VecDeque<SerializableMonitorEvent>,
    /// Number of events dropped due to buffer overflow
    pub dropped_count: usize,
}

/// The names in a list of monitored actors.
pub open spec fn monitored_names(m: Seq<(String, MonitoredActor)>) -> Seq<Seq<char>> {
    m.map_values(|e: (String, MonitoredActor)| e.0@)
}

impl MonitoringState {
    /// No name is monitored twice, and the event buffer keeps its bound.
    pub open spec fn wf(self) -> bool {
        &&& monitored_names(self.monitored@).no_duplicates()
        &&& self.event_buffer@.len() <= MAX_MONITOR_BUFFER_SIZE
    }

    /// An empty monitoring state.
    pub fn new() -> (s: Self)
        ensures
            s.wf(),
            s.monitored@ == Seq::<(String, MonitoredActor)>::empty(),
            s.event_buffer@ == Seq::<SerializableMonitorEvent>::empty(),
            s.dropped_count == 0,
    {
        let s = MonitoringState {
            monitored: Vec::new(),
            event_buffer: VecDeque::with_capacity(MAX_MONITOR_BUFFER_SIZE),
            dropped_count: 0,
        };
        assert(monitored_names(s.monitored@) =~= Seq::<Seq<char>>::empty());
        s
    }

    /// Add an event to the buffer, dropping the oldest if full.
    pub fn push_event(&mut self, event: SerializableMonitorEvent)
        requires
            old(self).event_buffer@.len() >= MAX_MONITOR_BUFFER_SIZE ==> old(self).dropped_count
                < usize::MAX,
        ensures
            final(self).monitored == old(self).monitored,
            (final(self).event_buffer@, final(self).dropped_count as nat) == bounded_push(
                old(self).event_buffer@,
                old(self).dropped_count as nat,
                MAX_MONITOR_BUFFER_SIZE as nat,
                event,
            ),
    {
        push_bounded(
            &mut self.event_buffer,
            &mut self.dropped_count,
            MAX_MONITOR_BUFFER_SIZE,
            event,
        );
    }

    /// Take all buffered events and reset the dropped count.
    pub fn take_events(&mut self) -> (r: (Vec<SerializableMonitorEvent>, usize))
        ensures
            r.0@ == old(self).event_buffer@,
            r.1 == old(self).dropped_count,
            final(self).monitored == old(self).monitored,
            final(self).event_buffer@ == Seq::<SerializableMonitorEvent>::empty(),
            final(self).dropped_count == 0,
    {
        let events = drain_all(&mut self.event_buffer);
        let dropped = self.dropped_count;
        self.dropped_count = 0;
        (events, dropped)
    }
}

/// Arguments for spawning an introspection actor, with the tracing handle type `H` of the
/// program that spawns it.
pub struct IntrospectionArgs<H> {
    /// Name of this node in the cluster
    pub node_name: String,
    /// Optional tracing handle to enable remote tracing subscriptions
    pub tracing_handle: Option<H>,
}

impl<H> From<String> for IntrospectionArgs<H> {
    fn from(node_name: String) -> (r: Self) {
        IntrospectionArgs { node_name, tracing_handle: None }
    }
}

impl<H> vstd::std_specs::convert::FromSpecImpl<String> for IntrospectionArgs<H> {
    open spec fn obeys_from_spec() -> bool {
        true
    }

    open spec fn from_spec(node_name: String) -> Self {
        IntrospectionArgs { node_name, tracing_handle: None }
    }
}

/// The position of the first `c` in `s`, or `s.len()` if there is none.
pub open spec fn first_index_of(s: Seq<char>, c: char) -> int
    decreases s.len(),
{
    if s.len() == 0 {
        0
    } else if s[0] == c {
        0
    } else {
        1 + first_index_of(s.drop_first(), c)
    }
}

pub proof fn lemma_first_index_bounds(s: Seq<char>, c: char)
    ensures
        0 <= first_index_of(s, c) <= s.len(),
        forall|i: int| 0 <= i < first_index_of(s, c) ==> s[i] != c,
        first_index_of(s, c) < s.len() ==> s[first_index_of(s, c)] == c,
    decreases s.len(),
{
    if s.len() > 0 && s[0] != c {
        lemma_first_index_bounds(s.drop_first(), c);
        assert forall|i: int| 0 <= i < first_index_of(s, c) implies s[i] != c by {
            if i > 0 {
                assert(s[i] == s.drop_first()[i - 1]);
            }
        }
    }
}

/// Extract the node ID from an actor ID string: the text before its first `.` (e.g. "1.0" gives
/// "1"), or the whole string if it has none.
pub fn extract_node_id(actor_id: &str) -> (r: String)
    ensures
        r@ == actor_id@.take(first_index_of(actor_id@, '.')),
{
    let cs = chars_of(actor_id);
    let mut r = String::new();
    let mut i: usize = 0;
    proof {
        lemma_first_index_bounds(cs@, '.');
    }
    while i < cs.len() && cs[i] != '.'
        invariant
            i <= cs@.len(),
            cs@ == actor_id@,
            i <= first_index_of(cs@, '.'),
            first_index_of(cs@, '.') <= cs@.len(),
            forall|j: int| 0 <= j < first_index_of(cs@, '.') ==> cs@[j] != '.',
            first_index_of(cs@, '.') < cs@.len() ==> cs@[first_index_of(cs@, '.')] == '.',
            r@ == cs@.take(i as int),
        decreases cs.len() - i,
    {
        crate::text::push_char(&mut r, cs[i]);
        assert(cs@.take(i + 1) =~= cs@.take(i as int).push(cs@[i as int]));
        i = i + 1;
    }
    r
}

/// What the owner of the tracing handle is asked to do after a change of subscriptions.
#[derive(Debug)]
pub enum TracingRequest {
    /// Enable tracing for the pattern.
    Trace(String),
    /// Disable tracing for the pattern.
    Untrace(String),
    /// Leave tracing as it is.
    Nothing,
}

/// State for the introspection actor, with the tracing handle type `H` of the program that runs
/// it.
pub struct IntrospectionState<H> {
    /// Name of this node in the cluster
    pub node_name: String,
    /// Active trace subscriptions
    pub subscriptions: HashMap<u64, TraceSubscription>,
    /// Tracing handle for controlling remote tracing
    pub tracing_handle: Option<H>,
    /// Remote monitoring state
    pub monitoring: MonitoringState,
}

/// Every buffered event of the subscription can be written out, and the buffer keeps its bound.
pub open spec fn subscription_wf(s: TraceSubscription) -> bool {
    &&& s.buffer@.len() <= MAX_TRACE_BUFFER_SIZE
    &&& forall|i: int| 0 <= i < s.buffer@.len() ==> (#[trigger] s.buffer@[i]).timestamp.valid()
}

/// A subscription for `pattern` that holds no event yet.
pub open spec fn fresh_subscription(s: TraceSubscription, pattern: Seq<char>) -> bool {
    &&& s.pattern@ == pattern
    &&& s.buffer@.len() == 0
    &&& s.dropped_count == 0
}

/// The request that a change to `pattern` makes of a tracing handle: `Trace` or `Untrace` of the
/// pattern where there is a handle, `Nothing` where there is none.
pub open spec fn request_for<H>(handle: Option<H>, trace: bool, pattern: Seq<char>, r: TracingRequest) -> bool {
    match handle {
        Some(_) => if trace {
            r matches TracingRequest::Trace(p) && p@ == pattern
        } else {
            r matches TracingRequest::Untrace(p) && p@ == pattern
        },
        None => r is Nothing,
    }
}

impl<H> IntrospectionState<H> {
    /// The state keeps its bounds: the monitored names are distinct, and each subscription's
    /// buffer is bounded and holds events that can be written out.
    pub open spec fn wf(&self) -> bool {
        &&& self.monitoring.wf()
        &&& forall|id: u64| #[trigger]
            self.subscriptions@.contains_key(id) ==> subscription_wf(self.subscriptions@[id])
    }

    /// The state an introspection actor starts in: no subscriptions, nothing monitored.
    pub fn new(args: IntrospectionArgs<H>) -> (s: Self)
        ensures
            s.wf(),
            s.node_name == args.node_name,
            s.subscriptions@ == Map::<u64, TraceSubscription>::empty(),
            s.tracing_handle == args.tracing_handle,
            s.monitoring.monitored@.len() == 0,
            s.monitoring.event_buffer@.len() == 0,
            s.monitoring.dropped_count == 0,
    {
        IntrospectionState {
            node_name: args.node_name,
            subscriptions: HashMap::new(),
            tracing_handle: args.tracing_handle,
            monitoring: MonitoringState::new(),
        }
    }

    /// The answer to a ping: `pong from ` and the node's name.
    pub fn ping_reply(&self) -> (r: String)
        ensures
            r@ == "pong from "@ + self.node_name@,
    {
        let mut r = String::new();
        push_str(&mut r, "pong from ");
        push_str(&mut r, self.node_name.as_str());
        proof {
            assert(Seq::<char>::empty() + "pong from "@ =~= "pong from "@);
        }
        r
    }

    /// Open subscription `sub_id` for `pattern`, and ask for tracing of the pattern.
    pub fn subscribe(&mut self, sub_id: u64, pattern: String) -> (req: TracingRequest)
        requires
            old(self).wf(),
        ensures
            final(self).wf(),
            request_for(old(self).tracing_handle, true, pattern@, req),
            final(self).subscriptions@.dom() == old(self).subscriptions@.dom().insert(sub_id),
            fresh_subscription(final(self).subscriptions@[sub_id], pattern@),
            trace_step(
                old(self).subscriptions@,
                TraceOp::Subscribe { id: sub_id, pattern: Ghost(pattern@) },
                final(self).subscriptions@,
            ),
            forall|id: u64| #[trigger]
                old(self).subscriptions@.contains_key(id) && id != sub_id
                    ==> final(self).subscriptions@[id] == old(self).subscriptions@[id],
            final(self).node_name == old(self).node_name,
            final(self).tracing_handle == old(self).tracing_handle,
            final(self).monitoring == old(self).monitoring,
    {
        let req = match &self.tracing_handle {
            Some(_) => TracingRequest::Trace(pattern.clone()),
            None => TracingRequest::Nothing,
        };
        self.subscriptions.insert(sub_id, TraceSubscription::new(pattern));
        req
    }

    /// Take the buffered events of subscription `sub_id`, in serializable form, with the number
    /// of events it dropped since the last poll; an empty batch if there is no such subscription.
    pub fn poll_traces(&mut self, sub_id: u64) -> (batch: TraceEventBatch)
        requires
            old(self).wf(),
        ensures
            final(self).wf(),
            final(self).subscriptions@.dom() == old(self).subscriptions@.dom(),
            forall|id: u64| #[trigger]
                old(self).subscriptions@.contains_key(id) && id != sub_id
                    ==> final(self).subscriptions@[id] == old(self).subscriptions@[id],
            old(self).subscriptions@.contains_key(sub_id) ==> polled(
                old(self).subscriptions@[sub_id],
                final(self).subscriptions@[sub_id],
                batch,
            ),
            !old(self).subscriptions@.contains_key(sub_id) ==> batch.events@.len() == 0
                && batch.dropped_count == 0,
            trace_step(old(self).subscriptions@, TraceOp::Poll { id: sub_id }, final(self).subscriptions@),
            final(self).node_name == old(self).node_name,
            final(self).tracing_handle == old(self).tracing_handle,
            final(self).monitoring == old(self).monitoring,
    {
        match self.subscriptions.remove(&sub_id) {
            Some(mut sub) => {
                proof {
                    assert(subscription_wf(old(self).subscriptions@[sub_id]));
                }
                let (events, dropped_count) = sub.take_events();
                let mut out: Vec<SerializableTraceEvent> = Vec::new();
                let mut i: usize = 0;
                while i < events.len()
                    invariant
                        i <= events.len(),
                        events@ == old(self).subscriptions@[sub_id].buffer@,
                        subscription_wf(old(self).subscriptions@[sub_id]),
                        out@.len() == i,
                        forall|j: int|
                            0 <= j < i ==> serialized_as(events@[j], #[trigger] out@[j]),
                    decreases events.len() - i,
                {
                    assert(events@[i as int].timestamp.valid());
                    out.push(SerializableTraceEvent::from_trace_event(&events[i]));
                    i = i + 1;
                }
                self.subscriptions.insert(sub_id, sub);
                proof {
                    assert(self.subscriptions@ =~= old(self).subscriptions@.insert(
                        sub_id,
                        self.subscriptions@[sub_id],
                    ));
                }
                TraceEventBatch { events: out, dropped_count }
            },
            None => TraceEventBatch { events: Vec::new(), dropped_count: 0 },
        }
    }
}

/// Whether `batch` is what a poll of subscription `before` answers and `after` what it leaves:
/// every buffered event in serializable form, in order, with the drop count, and an emptied
/// buffer with the count reset.
pub open spec fn polled(before: TraceSubscription, after: TraceSubscription, batch: TraceEventBatch) -> bool {
    &&& batch.events@.len() == before.buffer@.len()
    &&& forall|i: int|
        0 <= i < batch.events@.len() ==> serialized_as(before.buffer@[i], #[trigger] batch.events@[i])
    &&& batch.dropped_count == before.dropped_count
    &&& after.pattern == before.pattern
    &&& after.buffer@.len() == 0
    &&& after.dropped_count == 0
}

/// Whether `after` is what subscription `before` holds once `event` was offered to it: the
/// events its pattern selects are added to its bounded buffer, others leave it as it was.
pub open spec fn delivered(before: TraceSubscription, after: TraceSubscription, event: TraceEvent) -> bool {
    &&& after.pattern == before.pattern
    &&& if event_matches(before.pattern@, event) {
        (event_views(after.buffer@), after.dropped_count as nat) == bounded_push(
            event_views(before.buffer@),
            before.dropped_count as nat,
            MAX_TRACE_BUFFER_SIZE as nat,
            event@,
        )
    } else {
        after.buffer@ == before.buffer@ && after.dropped_count == before.dropped_count
    }
}

/// Every subscription can count one more dropped event.
pub open spec fn room_to_drop(m: Map<u64, TraceSubscription>) -> bool {
    forall|id: u64| #[trigger] m.contains_key(id) ==> m[id].dropped_count < usize::MAX
}

impl<H> IntrospectionState<H> {
    /// Close subscription `sub_id`. Returns whether it existed, and asks to stop tracing its
    /// pattern when no other subscription uses that pattern.
    pub fn unsubscribe(&mut self, sub_id: u64) -> (r: (bool, TracingRequest))
        requires
            old(self).wf(),
        ensures
            final(self).wf(),
            r.0 == old(self).subscriptions@.contains_key(sub_id),
            final(self).subscriptions@ == old(self).subscriptions@.remove(sub_id),
            trace_step(old(self).subscriptions@, TraceOp::Unsubscribe { id: sub_id }, final(self).subscriptions@),
            r.0 && !pattern_in_use(
                final(self).subscriptions@,
                old(self).subscriptions@[sub_id].pattern@,
            ) ==> request_for(
                old(self).tracing_handle,
                false,
                old(self).subscriptions@[sub_id].pattern@,
                r.1,
            ),
            !(r.0 && !pattern_in_use(
                final(self).subscriptions@,
                old(self).subscriptions@[sub_id].pattern@,
            )) ==> r.1 is Nothing,
            final(self).node_name == old(self).node_name,
            final(self).tracing_handle == old(self).tracing_handle,
            final(self).monitoring == old(self).monitoring,
    {
        match self.subscriptions.remove(&sub_id) {
            Some(removed) => {
                let still_used = any_uses_pattern(&self.subscriptions, removed.pattern.as_str());
                let req = if still_used {
                    TracingRequest::Nothing
                } else {
                    match &self.tracing_handle {
                        Some(_) => TracingRequest::Untrace(removed.pattern),
                        None => TracingRequest::Nothing,
                    }
                };
                (true, req)
            },
            None => {
                proof {
                    assert(self.subscriptions@ =~= old(self).subscriptions@.remove(sub_id));
                }
                (false, TracingRequest::Nothing)
            },
        }
    }

    /// Offer `event` to every subscription: each whose pattern selects it buffers it.
    pub fn deliver(&mut self, event: &TraceEvent)
        requires
            old(self).wf(),
            event.timestamp.valid(),
            room_to_drop(old(self).subscriptions@),
        ensures
            final(self).wf(),
            final(self).subscriptions@.dom() == old(self).subscriptions@.dom(),
            forall|id: u64| #[trigger]
                old(self).subscriptions@.contains_key(id) ==> delivered(
                    old(self).subscriptions@[id],
                    final(self).subscriptions@[id],
                    *event,
                ),
            trace_step(old(self).subscriptions@, TraceOp::Deliver { event: *event }, final(self).subscriptions@),
            final(self).node_name == old(self).node_name,
            final(self).tracing_handle == old(self).tracing_handle,
            final(self).monitoring == old(self).monitoring,
    {
        let ids = subscription_ids(&self.subscriptions);
        let ghost start = self.subscriptions@;
        let mut i: usize = 0;
        while i < ids.len()
            invariant
                i <= ids.len(),
                ids@.to_set() == start.dom(),
                ids@.no_duplicates(),
                start == old(self).subscriptions@,
                room_to_drop(start),
                event.timestamp.valid(),
                self.wf(),
                self.subscriptions@.dom() == start.dom(),
                forall|j: int| #![trigger ids@[j]]
                    0 <= j < i ==> delivered(start[ids@[j]], self.subscriptions@[ids@[j]], *event),
                forall|j: int| #![trigger ids@[j]]
                    i <= j < ids@.len() ==> self.subscriptions@[ids@[j]] == start[ids@[j]],
                self.node_name == old(self).node_name,
                self.tracing_handle == old(self).tracing_handle,
                self.monitoring == old(self).monitoring,
            decreases ids.len() - i,
        {
            let id = ids[i];
            assert(ids@.to_set().contains(id));
            let ghost before_loop = self.subscriptions@;
            match self.subscriptions.remove(&id) {
                Some(mut sub) => {
                    assert(sub == start[id]);
                    assert(subscription_wf(sub));
                    if matches_pattern(sub.pattern.as_str(), event) {
                        let copy = event.copy();
                        let ghost b = sub.buffer@;
                        sub.push_event(copy);
                        proof {
                            lemma_bounded_push_map(
                                b,
                                start[id].dropped_count as nat,
                                MAX_TRACE_BUFFER_SIZE as nat,
                                copy,
                                |e: TraceEvent| e@,
                            );
                            assert forall|k: int| 0 <= k < sub.buffer@.len() implies (
                            #[trigger] sub.buffer@[k]).timestamp.valid() by {
                                if b.len() >= MAX_TRACE_BUFFER_SIZE && b.len() > 0 {
                                    if k < sub.buffer@.len() - 1 {
                                        assert(sub.buffer@[k] == b[k + 1]);
                                    }
                                } else {
                                    if k < b.len() {
                                        assert(sub.buffer@[k] == b[k]);
                                    }
                                }
                            }
                        }
                    }
                    self.subscriptions.insert(id, sub);
                    proof {
                        assert forall|j: int| #![trigger ids@[j]]
                            0 <= j < ids@.len() && j != i implies ids@[j] != id by {
                            assert(ids@[j] != ids@[i as int]);
                        }
                    }
                },
                None => {},
            }
            i = i + 1;
        }
        proof {
            assert forall|id: u64| #[trigger] old(self).subscriptions@.contains_key(id) implies delivered(
                old(self).subscriptions@[id],
                self.subscriptions@[id],
                *event,
            ) by {
                assert(ids@.to_set().contains(id));
                let j = ids@.index_of(id);
                assert(ids@[j] == id);
            }
        }
    }
}

impl<H> IntrospectionState<H> {
    /// A trace event arrived from the tracing layer: read it back and offer it to every
    /// subscription.
    pub fn notify(&mut self, ev: &SerializableTraceEvent)
        requires
            old(self).wf(),
            room_to_drop(old(self).subscriptions@),
        ensures
            final(self).wf(),
            final(self).subscriptions@.dom() == old(self).subscriptions@.dom(),
            exists|e: TraceEvent|
                received_as(*ev, e) && trace_step(
                    old(self).subscriptions@,
                    TraceOp::Deliver { event: e },
                    final(self).subscriptions@,
                ),
            final(self).node_name == old(self).node_name,
            final(self).tracing_handle == old(self).tracing_handle,
            final(self).monitoring == old(self).monitoring,
    {
        let event = TraceEvent::from_serializable(ev);
        self.deliver(&event);
    }
}

/// What a registry lookup saw of a monitored actor: its status and its ID.
#[derive(Debug)]
pub struct ActorSighting {
    /// Current status of the actor
    pub status: ActorStatus,
    /// The actor's ID (e.g., "0.1")
    pub actor_id: String,
}

/// A monitor event of kind `kind` about the actor `name`, stamped `ts`.
pub open spec fn monitor_event(
    ts: Seq<char>,
    actor_id: Seq<char>,
    name: Seq<char>,
    kind: Seq<char>,
    reason: Option<Seq<char>>,
) -> MonitorEventView {
    MonitorEventView {
        timestamp: ts,
        actor_id,
        actor_name: Some(name),
        event_type: kind,
        reason,
        error: None,
    }
}

/// The monitored list once `name` is monitored with last status `st`: its entry is updated, or
/// added at the end if it had none.
pub open spec fn set_status(m: Seq<(String, MonitoredActor)>, name: String, st: ActorStatus) -> Seq<
    (String, MonitoredActor),
> {
    let names = monitored_names(m);
    if names.contains(name@) {
        let i = names.index_of(name@);
        m.update(i, (m[i].0, MonitoredActor { last_status: Some(st) }))
    } else {
        m.push((name, MonitoredActor { last_status: Some(st) }))
    }
}

/// The monitored list without the entry of `name`, if it has one.
pub open spec fn without_name(m: Seq<(String, MonitoredActor)>, name: Seq<char>) -> Seq<
    (String, MonitoredActor),
> {
    let names = monitored_names(m);
    if names.contains(name) {
        m.remove(names.index_of(name))
    } else {
        m
    }
}

/// What one poll does with one monitored entry, given what the registry shows of the actor: the
/// entry it keeps (if any) and the event it reports (if any). A changed status is recorded; a
/// change to `Stopped` is reported and ends the monitoring, a change to `Stopping` is reported;
/// an actor that left the registry is reported stopped (if its status was known) and dropped.
pub open spec fn poll_entry(e: (String, MonitoredActor), obs: Option<ActorSighting>, ts: Seq<char>) -> (
    Option<(String, MonitoredActor)>,
    Option<MonitorEventView>,
) {
    match obs {
        Some(s) => if e.1.last_status != Some(s.status) {
            let updated = (e.0, MonitoredActor { last_status: Some(s.status) });
            match s.status {
                ActorStatus::Stopped => (
                    None,
                    Some(
                        monitor_event(
                            ts,
                            s.actor_id@,
                            e.0@,
                            "STOPPED"@,
                            Some("Actor stopped"@),
                        ),
                    ),
                ),
                ActorStatus::Stopping => (
                    Some(updated),
                    Some(
                        monitor_event(
                            ts,
                            s.actor_id@,
                            e.0@,
                            "STOPPING"@,
                            Some("Actor stopping"@),
                        ),
                    ),
                ),
                _ => (Some(updated), None),
            }
        } else {
            (Some(e), None)
        },
        None => (
            None,
            if e.1.last_status is Some {
                Some(
                    monitor_event(
                        ts,
                        "unknown"@,
                        e.0@,
                        "STOPPED"@,
                        Some("Actor no longer in registry"@),
                    ),
                )
            } else {
                None
            },
        ),
    }
}

/// The empty sequence, or the one value that `o` holds.
pub open spec fn opt_seq<T>(o: Option<T>) -> Seq<T> {
    match o {
        Some(v) => seq![v],
        None => Seq::empty(),
    }
}

/// A poll over every monitored entry, in order, each with the registry's view of its actor: the
/// entries kept and the events reported.
pub open spec fn poll_all(
    m: Seq<(String, MonitoredActor)>,
    obs: Seq<Option<ActorSighting>>,
    ts: Seq<char>,
) -> (Seq<(String, MonitoredActor)>, Seq<MonitorEventView>)
    decreases m.len(),
{
    if m.len() == 0 || obs.len() == 0 {
        (Seq::empty(), Seq::empty())
    } else {
        let r = poll_all(m.drop_last(), obs.drop_last(), ts);
        let step = poll_entry(m.last(), obs.last(), ts);
        (r.0 + opt_seq(step.0), r.1 + opt_seq(step.1))
    }
}

/// A poll keeps only entries it was given, so their names stay distinct.
pub proof fn lemma_poll_keeps_names(
    m: Seq<(String, MonitoredActor)>,
    obs: Seq<Option<ActorSighting>>,
    ts: Seq<char>,
)
    requires
        monitored_names(m).no_duplicates(),
        obs.len() == m.len(),
    ensures
        monitored_names(poll_all(m, obs, ts).0).no_duplicates(),
        forall|n: Seq<char>| #[trigger]
            monitored_names(poll_all(m, obs, ts).0).contains(n) ==> monitored_names(m).contains(n),
    decreases m.len(),
{
    if m.len() == 0 {
        assert(monitored_names(poll_all(m, obs, ts).0) =~= Seq::<Seq<char>>::empty());
    } else {
        let prev = m.drop_last();
        assert(monitored_names(prev) =~= monitored_names(m).drop_last());
        lemma_poll_keeps_names(prev, obs.drop_last(), ts);
        let r = poll_all(prev, obs.drop_last(), ts);
        let step = poll_entry(m.last(), obs.last(), ts);
        let kept = r.0 + opt_seq(step.0);
        assert(poll_all(m, obs, ts).0 == kept);
        let last_name = m.last().0@;
        assert(monitored_names(m)[m.len() - 1] == last_name);
        assert(!monitored_names(prev).contains(last_name)) by {
            if monitored_names(prev).contains(last_name) {
                let j = monitored_names(prev).index_of(last_name);
                assert(monitored_names(m)[j] == last_name);
            }
        }
        assert(!monitored_names(r.0).contains(last_name));
        match step.0 {
            Some(e) => {
                assert(e.0@ == last_name);
                assert(monitored_names(kept) =~= monitored_names(r.0).push(last_name));
                assert forall|a: int, b: int|
                    0 <= a < b < monitored_names(kept).len() implies monitored_names(kept)[a]
                    != monitored_names(kept)[b] by {
                    if b == monitored_names(kept).len() - 1 {
                        assert(monitored_names(r.0)[a] == monitored_names(kept)[a]);
                    }
                }
            },
            None => {
                assert(monitored_names(kept) =~= monitored_names(r.0));
            },
        }
        assert forall|n: Seq<char>| #[trigger] monitored_names(kept).contains(n) implies monitored_names(
            m,
        ).contains(n) by {
            let j = monitored_names(kept).index_of(n);
            if j < r.0.len() {
                assert(monitored_names(r.0)[j] == n);
                assert(monitored_names(r.0).contains(n));
                let k = monitored_names(prev).index_of(n);
                assert(monitored_names(m)[k] == n);
            } else {
                assert(monitored_names(m)[m.len() - 1] == n);
            }
        }
    }
}

fn find_monitored(m: &Vec<(String, MonitoredActor)>, name: &str) -> (r: Option<usize>)
    requires
        monitored_names(m@).no_duplicates(),
    ensures
        match r {
            Some(i) => i < m@.len() && m@[i as int].0@ == name@ && monitored_names(m@).contains(
                name@,
            ) && monitored_names(m@).index_of(name@) == i,
            None => !monitored_names(m@).contains(name@),
        },
{
    let mut i: usize = 0;
    while i < m.len()
        invariant
            i <= m@.len(),
            monitored_names(m@).no_duplicates(),
            forall|j: int| 0 <= j < i ==> m@[j].0@ != name@,
        decreases m.len() - i,
    {
        if str_eq(m[i].0.as_str(), name) {
            proof {
                let names = monitored_names(m@);
                assert(names[i as int] == name@);
                assert(names.contains(name@));
                let k = names.index_of(name@);
                assert(names[k] == name@);
            }
            return Some(i);
        }
        i = i + 1;
    }
    proof {
        let names = monitored_names(m@);
        if names.contains(name@) {
            let k = names.index_of(name@);
            assert(m@[k].0@ == name@);
        }
    }
    None
}

/// The event buffer can count as dropped every one of `n` more events.
pub open spec fn room_for_events(st: MonitoringState, n: nat) -> bool {
    st.dropped_count + n < usize::MAX
}

impl<H> IntrospectionState<H> {
    /// Start monitoring `name`, given what the registry shows of it (`None`: no such actor) and
    /// the current time. A found actor is recorded with its status and a `STARTED` event is
    /// buffered; returns whether the actor was found.
    pub fn start_monitoring_at(&mut self, name: String, found: Option<ActorSighting>, now: Timestamp) -> (r: bool)
        requires
            old(self).wf(),
            now.valid(),
            room_for_events(old(self).monitoring, 1),
        ensures
            final(self).wf(),
            r == found is Some,
            match found {
                Some(s) => {
                    &&& final(self).monitoring.monitored@ == set_status(
                        old(self).monitoring.monitored@,
                        name,
                        s.status,
                    )
                    &&& (
                        monitor_views(final(self).monitoring.event_buffer@),
                        final(self).monitoring.dropped_count as nat,
                    ) == bounded_push(
                        monitor_views(old(self).monitoring.event_buffer@),
                        old(self).monitoring.dropped_count as nat,
                        MAX_MONITOR_BUFFER_SIZE as nat,
                        monitor_event(
                            rfc3339_text(now.unix_secs, now.nanos, now.offset_secs),
                            s.actor_id@,
                            name@,
                            "STARTED"@,
                            None,
                        ),
                    )
                },
                None => final(self).monitoring == old(self).monitoring,
            },
            monitoring_step(
                old(self).monitoring,
                MonitoringOp::Start {
                    name,
                    found,
                    ts: Ghost(rfc3339_text(now.unix_secs, now.nanos, now.offset_secs)),
                },
                final(self).monitoring,
            ),
            final(self).subscriptions == old(self).subscriptions,
            final(self).node_name == old(self).node_name,
            final(self).tracing_handle == old(self).tracing_handle,
    {
        match found {
            Some(sighting) => {
                let entry = MonitoredActor { last_status: Some(sighting.status) };
                match find_monitored(&self.monitoring.monitored, name.as_str()) {
                    Some(i) => {
                        let key = self.monitoring.monitored[i].0.clone();
                        self.monitoring.monitored.set(i, (key, entry));
                        proof {
                            assert(monitored_names(self.monitoring.monitored@) =~= monitored_names(
                                old(self).monitoring.monitored@,
                            ));
                        }
                    },
                    None => {
                        let ghost names = monitored_names(self.monitoring.monitored@);
                        self.monitoring.monitored.push((name.clone(), entry));
                        proof {
                            assert(monitored_names(self.monitoring.monitored@) =~= names.push(
                                name@,
                            ));
                            assert forall|a: int, b: int|
                                0 <= a < b < names.len() + 1 implies names.push(name@)[a]
                                != names.push(name@)[b] by {
                                if b == names.len() {
                                    assert(names[a] != name@);
                                }
                            }
                        }
                    },
                }
                let event = SerializableMonitorEvent {
                    timestamp: now.to_rfc3339(),
                    actor_id: sighting.actor_id,
                    actor_name: Some(name),
                    event_type: "STARTED".to_string(),
                    reason: None,
                    error: None,
                };
                let ghost b = self.monitoring.event_buffer@;
                self.monitoring.push_event(event);
                proof {
                    lemma_bounded_push_map(
                        b,
                        old(self).monitoring.dropped_count as nat,
                        MAX_MONITOR_BUFFER_SIZE as nat,
                        event,
                        |e: SerializableMonitorEvent| e@,
                    );
                }
                true
            },
            None => false,
        }
    }

    /// Start monitoring `name` at the current time; see [`Self::start_monitoring_at`].
    pub fn start_monitoring(&mut self, name: String, found: Option<ActorSighting>) -> (r: bool)
        requires
            old(self).wf(),
            room_for_events(old(self).monitoring, 1),
        ensures
            final(self).wf(),
            r == found is Some,
            match found {
                Some(s) => exists|now: Timestamp|
                    #![trigger now.valid()]
                    {
                        &&& now.valid()
                        &&& final(self).monitoring.monitored@ == set_status(
                            old(self).monitoring.monitored@,
                            name,
                            s.status,
                        )
                        &&& (
                            monitor_views(final(self).monitoring.event_buffer@),
                            final(self).monitoring.dropped_count as nat,
                        ) == bounded_push(
                            monitor_views(old(self).monitoring.event_buffer@),
                            old(self).monitoring.dropped_count as nat,
                            MAX_MONITOR_BUFFER_SIZE as nat,
                            monitor_event(
                                rfc3339_text(now.unix_secs, now.nanos, now.offset_secs),
                                s.actor_id@,
                                name@,
                                "STARTED"@,
                                None,
                            ),
                        )
                    },
                None => final(self).monitoring == old(self).monitoring,
            },
            exists|now: Timestamp|
                #![trigger now.valid()]
                now.valid() && monitoring_step(
                    old(self).monitoring,
                    MonitoringOp::Start {
                        name,
                        found,
                        ts: Ghost(rfc3339_text(now.unix_secs, now.nanos, now.offset_secs)),
                    },
                    final(self).monitoring,
                ),
            final(self).subscriptions == old(self).subscriptions,
            final(self).node_name == old(self).node_name,
            final(self).tracing_handle == old(self).tracing_handle,
    {
        let now = local_now();
        let r = self.start_monitoring_at(name, found, now);
        assert(now.valid());
        r
    }

    /// Stop monitoring `name`; returns whether it was monitored.
    pub fn stop_monitoring(&mut self, name: &str) -> (r: bool)
        requires
            old(self).wf(),
        ensures
            final(self).wf(),
            r == monitored_names(old(self).monitoring.monitored@).contains(name@),
            final(self).monitoring.monitored@ == without_name(
                old(self).monitoring.monitored@,
                name@,
            ),
            final(self).monitoring.event_buffer == old(self).monitoring.event_buffer,
            final(self).monitoring.dropped_count == old(self).monitoring.dropped_count,
            monitoring_step(
                old(self).monitoring,
                MonitoringOp::Stop { name: Ghost(name@) },
                final(self).monitoring,
            ),
            final(self).subscriptions == old(self).subscriptions,
            final(self).node_name == old(self).node_name,
            final(self).tracing_handle == old(self).tracing_handle,
    {
        match find_monitored(&self.monitoring.monitored, name) {
            Some(i) => {
                let ghost names = monitored_names(self.monitoring.monitored@);
                let _ = self.monitoring.monitored.remove(i);
                proof {
                    assert(monitored_names(self.monitoring.monitored@) =~= names.remove(i as int));
                    assert forall|a: int, b: int|
                        0 <= a < b < names.len() - 1 implies names.remove(i as int)[a]
                        != names.remove(i as int)[b] by {
                        let a2 = if a < i { a } else { a + 1 };
                        let b2 = if b < i { b } else { b + 1 };
                        assert(names.remove(i as int)[a] == names[a2]);
                        assert(names.remove(i as int)[b] == names[b2]);
                    }
                }
                true
            },
            None => false,
        }
    }

    /// The names of the monitored actors.
    pub fn monitored_actors(&self) -> (v: Vec<String>)
        ensures
            crate::text::views(v@) == monitored_names(self.monitoring.monitored@),
    {
        let mut v: Vec<String> = Vec::new();
        let mut i: usize = 0;
        while i < self.monitoring.monitored.len()
            invariant
                i <= self.monitoring.monitored@.len(),
                crate::text::views(v@) == monitored_names(self.monitoring.monitored@).take(i as int),
            decreases self.monitoring.monitored.len() - i,
        {
            let ghost before = v@;
            let name = self.monitoring.monitored[i].0.clone();
            assert(name@ == monitored_names(self.monitoring.monitored@)[i as int]);
            v.push(name);
            proof {
                assert(crate::text::views(v@) =~= crate::text::views(before).push(name@));
                assert(crate::text::views(v@) =~= monitored_names(self.monitoring.monitored@).take(
                    i + 1,
                ));
            }
            i = i + 1;
        }
        proof {
            assert(monitored_names(self.monitoring.monitored@).take(i as int) =~= monitored_names(
                self.monitoring.monitored@,
            ));
        }
        v
    }
}

/// A monitor event with the given texts.
fn make_monitor_event(ts: &String, actor_id: String, name: String, kind: &str, reason: &str) -> (e: SerializableMonitorEvent)
    ensures
        e@ == monitor_event(ts@, actor_id@, name@, kind@, Some(reason@)),
{
    SerializableMonitorEvent {
        timestamp: ts.clone(),
        actor_id,
        actor_name: Some(name),
        event_type: kind.to_string(),
        reason: Some(reason.to_string()),
        error: None,
    }
}

impl<H> IntrospectionState<H> {
    /// Poll the monitored actors, given what the registry shows of each (in the order of
    /// `monitoring.monitored`) and the current time: record status changes, buffer the events
    /// they cause, stop monitoring actors that stopped or left the registry, and take every
    /// buffered event with the number dropped since the last poll.
    pub fn poll_monitor_events_at(&mut self, observed: Vec<Option<ActorSighting>>, now: Timestamp) -> (batch:
        MonitorEventBatch)
        requires
            old(self).wf(),
            now.valid(),
            observed@.len() == old(self).monitoring.monitored@.len(),
            room_for_events(old(self).monitoring, observed@.len()),
        ensures
            final(self).wf(),
            ({
                let ts = rfc3339_text(now.unix_secs, now.nanos, now.offset_secs);
                let r = poll_all(old(self).monitoring.monitored@, observed@, ts);
                &&& final(self).monitoring.monitored@ == r.0
                &&& (monitor_views(batch.events@), batch.dropped_count as nat) == bounded_push_all(
                    monitor_views(old(self).monitoring.event_buffer@),
                    old(self).monitoring.dropped_count as nat,
                    MAX_MONITOR_BUFFER_SIZE as nat,
                    r.1,
                )
            }),
            final(self).monitoring.event_buffer@.len() == 0,
            final(self).monitoring.dropped_count == 0,
            ({
                let ts = rfc3339_text(now.unix_secs, now.nanos, now.offset_secs);
                &&& monitoring_step(
                    old(self).monitoring,
                    MonitoringOp::Poll { observed: Ghost(observed@), ts: Ghost(ts) },
                    final(self).monitoring,
                )
                &&& (monitor_views(batch.events@), batch.dropped_count as nat) == poll_batch(
                    monitoring_view(old(self).monitoring),
                    observed@,
                    ts,
                )
            }),
            final(self).subscriptions == old(self).subscriptions,
            final(self).node_name == old(self).node_name,
            final(self).tracing_handle == old(self).tracing_handle,
    {
        let ts = now.to_rfc3339();
        let ghost m0 = self.monitoring.monitored@;
        let ghost buf0 = monitor_views(self.monitoring.event_buffer@);
        let ghost d0 = self.monitoring.dropped_count as nat;
        let mut kept: Vec<(String, MonitoredActor)> = Vec::new();
        let mut i: usize = 0;
        while i < self.monitoring.monitored.len()
            invariant
                i <= m0.len(),
                self.monitoring.monitored@ == m0,
                m0 == old(self).monitoring.monitored@,
                observed@.len() == m0.len(),
                d0 == old(self).monitoring.dropped_count,
                buf0 == monitor_views(old(self).monitoring.event_buffer@),
                d0 + observed@.len() < usize::MAX,
                kept@ == poll_all(m0.take(i as int), observed@.take(i as int), ts@).0,
                poll_all(m0.take(i as int), observed@.take(i as int), ts@).1.len() <= i,
                (monitor_views(self.monitoring.event_buffer@), self.monitoring.dropped_count as nat)
                    == bounded_push_all(
                    buf0,
                    d0,
                    MAX_MONITOR_BUFFER_SIZE as nat,
                    poll_all(m0.take(i as int), observed@.take(i as int), ts@).1,
                ),
                self.monitoring.dropped_count <= d0 + poll_all(
                    m0.take(i as int),
                    observed@.take(i as int),
                    ts@,
                ).1.len(),
                self.subscriptions == old(self).subscriptions,
                self.node_name == old(self).node_name,
                self.tracing_handle == old(self).tracing_handle,
            decreases m0.len() - i,
        {
            let ghost prev = poll_all(m0.take(i as int), observed@.take(i as int), ts@);
            proof {
                assert(m0.take(i + 1).drop_last() =~= m0.take(i as int));
                assert(observed@.take(i + 1).drop_last() =~= observed@.take(i as int));
            }
            let ghost step = poll_entry(m0[i as int], observed@[i as int], ts@);
            let name = self.monitoring.monitored[i].0.clone();
            let last = self.monitoring.monitored[i].1.last_status;
            let mut event: Option<SerializableMonitorEvent> = None;
            match &observed[i] {
                Some(seen) => {
                    let changed = match last {
                        Some(st) => st != seen.status,
                        None => true,
                    };
                    if changed {
                        let updated = MonitoredActor { last_status: Some(seen.status) };
                        match seen.status {
                            ActorStatus::Stopped => {
                                event = Some(make_monitor_event(&ts, seen.actor_id.clone(), name, "STOPPED", "Actor stopped"));
                            },
                            ActorStatus::Stopping => {
                                event = Some(make_monitor_event(&ts, seen.actor_id.clone(), name.clone(), "STOPPING", "Actor stopping"));
                                kept.push((name, updated));
                            },
                            _ => {
                                kept.push((name, updated));
                            },
                        }
                    } else {
                        kept.push((name, MonitoredActor { last_status: last }));
                    }
                },
                None => {
                    if last.is_some() {
                        event = Some(make_monitor_event(&ts, "unknown".to_string(), name, "STOPPED", "Actor no longer in registry"));
                    }
                },
            }
            proof {
                reveal_strlit("unknown");
                assert(kept@ =~= prev.0 + opt_seq(step.0));
            }
            match event {
                Some(e) => {
                    let ghost b = self.monitoring.event_buffer@;
                    let ghost d = self.monitoring.dropped_count as nat;
                    push_bounded(&mut self.monitoring.event_buffer, &mut self.monitoring.dropped_count, MAX_MONITOR_BUFFER_SIZE, e);
                    proof {
                        lemma_bounded_push_map(b, d, MAX_MONITOR_BUFFER_SIZE as nat, e, |x: SerializableMonitorEvent| x@);
                        let evs = prev.1 + opt_seq(step.1);
                        assert(evs.drop_last() =~= prev.1);
                    }
                },
                None => {
                    proof {
                        assert(prev.1 + opt_seq(step.1) =~= prev.1);
                    }
                },
            }
            i = i + 1;
        }
        proof {
            assert(m0.take(m0.len() as int) =~= m0);
            assert(observed@.take(m0.len() as int) =~= observed@);
            lemma_poll_keeps_names(m0, observed@, ts@);
        }
        self.monitoring.monitored = kept;
        let (events, dropped_count) = self.monitoring.take_events();
        assert(monitor_views(self.monitoring.event_buffer@) =~= Seq::<MonitorEventView>::empty());
        MonitorEventBatch { events, dropped_count }
    }

    /// Poll the monitored actors at the current time; see [`Self::poll_monitor_events_at`].
    pub fn poll_monitor_events(&mut self, observed: Vec<Option<ActorSighting>>) -> (batch: MonitorEventBatch)
        requires
            old(self).wf(),
            observed@.len() == old(self).monitoring.monitored@.len(),
            room_for_events(old(self).monitoring, observed@.len()),
        ensures
            final(self).wf(),
            exists|now: Timestamp|
                #![trigger now.valid()]
                {
                    let ts = rfc3339_text(now.unix_secs, now.nanos, now.offset_secs);
                    let r = poll_all(old(self).monitoring.monitored@, observed@, ts);
                    &&& now.valid()
                    &&& monitoring_step(
                        old(self).monitoring,
                        MonitoringOp::Poll { observed: Ghost(observed@), ts: Ghost(ts) },
                        final(self).monitoring,
                    )
                    &&& (monitor_views(batch.events@), batch.dropped_count as nat) == poll_batch(
                        monitoring_view(old(self).monitoring),
                        observed@,
                        ts,
                    )
                    &&& final(self).monitoring.monitored@ == r.0
                    &&& (monitor_views(batch.events@), batch.dropped_count as nat)
                        == bounded_push_all(
                        monitor_views(old(self).monitoring.event_buffer@),
                        old(self).monitoring.dropped_count as nat,
                        MAX_MONITOR_BUFFER_SIZE as nat,
                        r.1,
                    )
                },
            final(self).monitoring.event_buffer@.len() == 0,
            final(self).monitoring.dropped_count == 0,
            final(self).subscriptions == old(self).subscriptions,
            final(self).node_name == old(self).node_name,
            final(self).tracing_handle == old(self).tracing_handle,
    {
        let now = local_now();
        self.poll_monitor_events_at(observed, now)
    }
}

/// The identifiers of the subscriptions, each once.
fn subscription_ids(m: &HashMap<u64, TraceSubscription>) -> (v: Vec<u64>)
    ensures
        v@.to_set() == m@.dom(),
        v@.no_duplicates(),
{
    let mut v: Vec<u64> = Vec::new();
    let ghost all: Seq<u64> = vstd::std_specs::hash::spec_keys_iter(m).remaining().unref();
    for k in it: m.keys()
        invariant
            all.to_set() == m@.dom(),
            all.no_duplicates(),
            it.seq().unref() == all,
            v@ == all.take(it.index()),
    {
        v.push(*k);
        proof {
            assert(all.take(it.index() + 1) =~= all.take(it.index() as int).push(*k));
        }
    }
    proof {
        assert(all.take(all.len() as int) =~= all);
    }
    v
}

/// Whether some subscription of `m` has the pattern `pattern`.
pub open spec fn pattern_in_use(m: Map<u64, TraceSubscription>, pattern: Seq<char>) -> bool {
    exists|id: u64| #[trigger] m.contains_key(id) && m[id].pattern@ == pattern
}

fn any_uses_pattern(m: &HashMap<u64, TraceSubscription>, pattern: &str) -> (b: bool)
    ensures
        b == pattern_in_use(m@, pattern@),
{
    let ids = subscription_ids(m);
    let mut i: usize = 0;
    while i < ids.len()
        invariant
            i <= ids.len(),
            ids@.to_set() == m@.dom(),
            forall|j: int| 0 <= j < i ==> m@[#[trigger] ids@[j]].pattern@ != pattern@,
        decreases ids.len() - i,
    {
        let id = ids[i];
        assert(ids@.to_set().contains(id));
        match m.get(&id) {
            Some(sub) => {
                if str_eq(sub.pattern.as_str(), pattern) {
                    return true;
                }
            },
            None => {},
        }
        i = i + 1;
    }
    proof {
        assert forall|id: u64| #[trigger] m@.contains_key(id) implies m@[id].pattern@ != pattern@ by {
            assert(ids@.to_set().contains(id));
            let j = ids@.index_of(id);
        }
    }
    false
}

/// Subscribing under a fresh identifier and then unsubscribing it leaves the subscriptions as
/// they were.
pub proof fn lemma_unsubscribe_undoes_subscribe(
    subs: Map<u64, TraceSubscription>,
    sub_id: u64,
    fresh: TraceSubscription,
)
    requires
        !subs.contains_key(sub_id),
    ensures
        subs.insert(sub_id, fresh).remove(sub_id) == subs,
{
    assert(subs.insert(sub_id, fresh).remove(sub_id) =~= subs);
}

/// A subscription to `*` buffers every event offered to it.
pub proof fn lemma_star_subscription_gets_everything(
    before: TraceSubscription,
    after: TraceSubscription,
    event: TraceEvent,
)
    requires
        before.pattern@ == "*"@,
        delivered(before, after, event),
    ensures
        (event_views(after.buffer@), after.dropped_count as nat) == bounded_push(
            event_views(before.buffer@),
            before.dropped_count as nat,
            MAX_TRACE_BUFFER_SIZE as nat,
            event@,
        ),
{
}

/// Once an actor is monitored its name is in the monitored list, once, with the status seen.
pub proof fn lemma_start_monitoring_records(
    m: Seq<(String, MonitoredActor)>,
    name: String,
    st: ActorStatus,
)
    requires
        monitored_names(m).no_duplicates(),
    ensures
        monitored_names(set_status(m, name, st)).no_duplicates(),
        monitored_names(set_status(m, name, st)).contains(name@),
        set_status(m, name, st)[monitored_names(set_status(m, name, st)).index_of(name@)].1
            == (MonitoredActor { last_status: Some(st) }),
{
    let names = monitored_names(m);
    let r = set_status(m, name, st);
    if names.contains(name@) {
        let i = names.index_of(name@);
        assert(monitored_names(r) =~= names);
        assert(monitored_names(r)[i] == name@);
        let k = monitored_names(r).index_of(name@);
        assert(names[k] == name@);
    } else {
        assert(monitored_names(r) =~= names.push(name@));
        assert forall|a: int, b: int| 0 <= a < b < names.len() + 1 implies names.push(name@)[a]
            != names.push(name@)[b] by {
            if b == names.len() {
                assert(names[a] != name@);
            }
        }
        assert(monitored_names(r)[names.len() as int] == name@);
        let k = monitored_names(r).index_of(name@);
        if k < names.len() {
            assert(names[k] == name@);
        }
    }
}

/// Once an actor's monitoring is stopped its name is no longer in the monitored list, and every
/// other monitored name stays.
pub proof fn lemma_stop_monitoring_forgets(m: Seq<(String, MonitoredActor)>, name: Seq<char>)
    requires
        monitored_names(m).no_duplicates(),
    ensures
        !monitored_names(without_name(m, name)).contains(name),
        forall|n: Seq<char>|
            n != name && #[trigger] monitored_names(m).contains(n) ==> monitored_names(
                without_name(m, name),
            ).contains(n),
{
    let names = monitored_names(m);
    if names.contains(name) {
        let i = names.index_of(name);
        assert(monitored_names(without_name(m, name)) =~= names.remove(i));
        if names.remove(i).contains(name) {
            let j = names.remove(i).index_of(name);
            let j2 = if j < i { j } else { j + 1 };
            assert(names[j2] == name);
        }
        assert forall|n: Seq<char>|
            n != name && #[trigger] names.contains(n) implies names.remove(i).contains(n) by {
            let j = names.index_of(n);
            if j < i {
                assert(names.remove(i)[j] == n);
            } else {
                assert(j != i);
                assert(names.remove(i)[j - 1] == n);
            }
        }
    }
}

/// A poll keeps monitoring an actor only if the registry still shows it, and not one it sees
/// newly stopped: every kept entry comes from an entry whose actor was seen, with the status seen
/// (when the status changed) and that status is not `Stopped` unless it was so already.
pub proof fn lemma_poll_drops_gone_actors(
    m: Seq<(String, MonitoredActor)>,
    obs: Seq<Option<ActorSighting>>,
    ts: Seq<char>,
)
    requires
        obs.len() == m.len(),
    ensures
        forall|k: int|
            0 <= k < poll_all(m, obs, ts).0.len() ==> exists|i: int|
                0 <= i < m.len() && #[trigger] m[i].0 == (#[trigger] poll_all(m, obs, ts).0[k]).0
                    && obs[i] is Some && poll_all(m, obs, ts).0[k].1.last_status == Some(
                    obs[i]->0.status,
                ) && (obs[i]->0.status != ActorStatus::Stopped || m[i].1.last_status == Some(
                    ActorStatus::Stopped,
                )),
    decreases m.len(),
{
    if m.len() > 0 {
        let pm = m.drop_last();
        let po = obs.drop_last();
        lemma_poll_drops_gone_actors(pm, po, ts);
        let r = poll_all(pm, po, ts);
        let step = poll_entry(m.last(), obs.last(), ts);
        let kept = poll_all(m, obs, ts).0;
        assert(kept == r.0 + opt_seq(step.0));
        assert forall|k: int| 0 <= k < kept.len() implies exists|i: int|
            0 <= i < m.len() && #[trigger] m[i].0 == (#[trigger] kept[k]).0 && obs[i] is Some
                && kept[k].1.last_status == Some(obs[i]->0.status) && (obs[i]->0.status
                != ActorStatus::Stopped || m[i].1.last_status == Some(ActorStatus::Stopped)) by {
            if k < r.0.len() {
                assert(kept[k] == r.0[k]);
                let i = choose|i: int|
                    0 <= i < pm.len() && #[trigger] pm[i].0 == (#[trigger] r.0[k]).0 && po[i] is Some
                        && r.0[k].1.last_status == Some(po[i]->0.status) && (po[i]->0.status
                        != ActorStatus::Stopped || pm[i].1.last_status == Some(ActorStatus::Stopped));
                assert(m[i] == pm[i] && obs[i] == po[i]);
            } else {
                let i = m.len() - 1;
                assert(m[i] == m.last() && obs[i] == obs.last());
            }
        }
    }
}


/// The views of the events of `es` that `pattern` selects, in order.
pub open spec fn selected_views(pattern: Seq<char>, es: Seq<TraceEvent>) -> Seq<TraceEventView>
    decreases es.len(),
{
    if es.len() == 0 {
        Seq::empty()
    } else {
        let r = selected_views(pattern, es.drop_last());
        if event_matches(pattern, es.last()) {
            r.push(es.last()@)
        } else {
            r
        }
    }
}

/// Whether the subscriptions `after` are what `before` become once `event` is offered to every
/// one of them (the effect that [`IntrospectionState::deliver`] and
/// [`IntrospectionState::notify`] state).
pub open spec fn delivered_to_all(
    before: Map<u64, TraceSubscription>,
    after: Map<u64, TraceSubscription>,
    event: TraceEvent,
) -> bool {
    &&& after.dom() == before.dom()
    &&& forall|id: u64| #[trigger]
        before.contains_key(id) ==> delivered(before[id], after[id], event)
}

/// The life of a trace subscription: opened fresh for `pattern` (state `states[0]`), then
/// offered the events `es` one by one (state `states[i + 1]` after `es[i]`), then polled. The
/// subscription holds exactly the newest `MAX_TRACE_BUFFER_SIZE` of the events its pattern
/// selects and counts the others as dropped; the poll answers those events in order with that
/// count, and leaves the subscription empty with the count reset.
pub proof fn lemma_trace_subscription_lifecycle(
    states: Seq<Map<u64, TraceSubscription>>,
    id: u64,
    pattern: Seq<char>,
    es: Seq<TraceEvent>,
    batch: TraceEventBatch,
    drained: TraceSubscription,
)
    requires
        states.len() == es.len() + 1,
        states[0].contains_key(id),
        fresh_subscription(states[0][id], pattern),
        forall|i: int|
            0 <= i < es.len() ==> #[trigger] delivered_to_all(states[i], states[i + 1], es[i]),
        polled(states.last()[id], drained, batch),
    ensures
        ({
            let last = states.last()[id];
            let kept = selected_views(pattern, es);
            let dropped = overflow(kept.len(), MAX_TRACE_BUFFER_SIZE as nat);
            &&& states.last().contains_key(id)
            &&& last.pattern@ == pattern
            &&& event_views(last.buffer@) == kept.skip(dropped as int)
            &&& last.dropped_count == dropped
            &&& batch.events@.len() == kept.len() - dropped
            &&& forall|k: int|
                0 <= k < batch.events@.len() ==> last.buffer@[k]@ == kept[k + dropped] && serialized_as(
                    last.buffer@[k],
                    #[trigger] batch.events@[k],
                )
            &&& batch.dropped_count == dropped
            &&& drained.pattern@ == pattern
            &&& drained.buffer@.len() == 0
            &&& drained.dropped_count == 0
        }),
{
    lemma_subscription_after_events(states, id, pattern, es, es.len() as int);
    assert(es.take(es.len() as int) =~= es);
    let kept = selected_views(pattern, es);
    lemma_bounded_push_all(Seq::empty(), 0, MAX_TRACE_BUFFER_SIZE as nat, kept);
    assert(Seq::<TraceEventView>::empty() + kept =~= kept);
    assert(states.last() == states[es.len() as int]);
    let last = states.last()[id];
    let dropped = overflow(kept.len(), MAX_TRACE_BUFFER_SIZE as nat);
    assert(event_views(last.buffer@) == kept.skip(dropped as int));
    assert(dropped <= kept.len());
    assert(kept.skip(dropped as int).len() == kept.len() - dropped);
    assert(event_views(last.buffer@).len() == last.buffer@.len());
    assert(batch.events@.len() == last.buffer@.len());
    assert(batch.events@.len() == kept.len() - dropped);
    assert forall|k: int| 0 <= k < batch.events@.len() implies last.buffer@[k]@ == kept[k
        + dropped] by {
        assert(event_views(last.buffer@)[k] == last.buffer@[k]@);
        assert(kept.skip(dropped as int)[k] == kept[k + dropped]);
    }
}

proof fn lemma_subscription_after_events(
    states: Seq<Map<u64, TraceSubscription>>,
    id: u64,
    pattern: Seq<char>,
    es: Seq<TraceEvent>,
    j: int,
)
    requires
        states.len() == es.len() + 1,
        0 <= j <= es.len(),
        states[0].contains_key(id),
        fresh_subscription(states[0][id], pattern),
        forall|i: int|
            0 <= i < es.len() ==> #[trigger] delivered_to_all(states[i], states[i + 1], es[i]),
    ensures
        states[j].contains_key(id),
        states[j][id].pattern@ == pattern,
        (event_views(states[j][id].buffer@), states[j][id].dropped_count as nat) == bounded_push_all(
            Seq::empty(),
            0,
            MAX_TRACE_BUFFER_SIZE as nat,
            selected_views(pattern, es.take(j)),
        ),
    decreases j,
{
    if j == 0 {
        assert(es.take(0) =~= Seq::<TraceEvent>::empty());
        assert(event_views(states[0][id].buffer@) =~= Seq::<TraceEventView>::empty());
    } else {
        lemma_subscription_after_events(states, id, pattern, es, j - 1);
        let i = j - 1;
        assert(delivered_to_all(states[i], states[i + 1], es[i]));
        assert(states[i + 1] == states[j]);
        assert(es.take(j).drop_last() =~= es.take(j - 1));
        assert(es.take(j).last() == es[j - 1]);
        let prev = selected_views(pattern, es.take(j - 1));
        if event_matches(pattern, es[j - 1]) {
            assert(selected_views(pattern, es.take(j)) == prev.push(es[j - 1]@));
            assert(prev.push(es[j - 1]@).drop_last() =~= prev);
        } else {
            assert(selected_views(pattern, es.take(j)) == prev);
        }
    }
}


proof fn lemma_poll_events_len(
    m: Seq<(String, MonitoredActor)>,
    obs: Seq<Option<ActorSighting>>,
    ts: Seq<char>,
)
    ensures
        poll_all(m, obs, ts).1.len() <= m.len(),
    decreases m.len(),
{
    if m.len() > 0 && obs.len() > 0 {
        lemma_poll_events_len(m.drop_last(), obs.drop_last(), ts);
    }
}

proof fn lemma_poll_reports_entry(
    m: Seq<(String, MonitoredActor)>,
    obs: Seq<Option<ActorSighting>>,
    ts: Seq<char>,
    i: int,
)
    requires
        obs.len() == m.len(),
        0 <= i < m.len(),
        poll_entry(m[i], obs[i], ts).1 is Some,
    ensures
        poll_all(m, obs, ts).1.contains(poll_entry(m[i], obs[i], ts).1->0),
    decreases m.len(),
{
    let r = poll_all(m.drop_last(), obs.drop_last(), ts);
    let step = poll_entry(m.last(), obs.last(), ts);
    assert(poll_all(m, obs, ts).1 == r.1 + opt_seq(step.1));
    if i == m.len() - 1 {
        let e = step.1->0;
        assert((r.1 + opt_seq(step.1))[r.1.len() as int] == e);
    } else {
        lemma_poll_reports_entry(m.drop_last(), obs.drop_last(), ts, i);
        assert(m.drop_last()[i] == m[i] && obs.drop_last()[i] == obs[i]);
        let e = poll_entry(m[i], obs[i], ts).1->0;
        let k = r.1.index_of(e);
        assert((r.1 + opt_seq(step.1))[k] == e);
    }
}

/// A buffer of at most `MAX_MONITOR_BUFFER_SIZE` events that receives at most that many more
/// keeps every event it receives, after those it already held that still fit.
proof fn lemma_batch_keeps_arrivals(buf: Seq<MonitorEventView>, d: nat, evs: Seq<MonitorEventView>, k: int)
    requires
        buf.len() <= MAX_MONITOR_BUFFER_SIZE,
        evs.len() <= MAX_MONITOR_BUFFER_SIZE,
        0 <= k < evs.len(),
    ensures
        bounded_push_all(buf, d, MAX_MONITOR_BUFFER_SIZE as nat, evs).0.contains(evs[k]),
        bounded_push_all(buf, d, MAX_MONITOR_BUFFER_SIZE as nat, evs).0.len() <= MAX_MONITOR_BUFFER_SIZE,
{
    lemma_bounded_push_all(buf, d, MAX_MONITOR_BUFFER_SIZE as nat, evs);
    let all = buf + evs;
    let o = overflow(buf.len() + evs.len(), MAX_MONITOR_BUFFER_SIZE as nat);
    assert(o <= buf.len());
    let b = all.skip(o as int);
    assert(b[buf.len() + k - o] == all[buf.len() + k]);
    assert(all[buf.len() + k] == evs[k]);
}

/// Starting to monitor a found actor records it among the monitored actors, and the next poll's
/// batch, which holds at most `MAX_MONITOR_BUFFER_SIZE` events, reports its `STARTED` event.
/// (With `MAX_MONITOR_BUFFER_SIZE` or more monitored actors a poll can report enough events to
/// push the `STARTED` event out of the buffer, so the law is stated for fewer.)
pub proof fn lemma_monitoring_start_reported(
    m0: Seq<(String, MonitoredActor)>,
    buf0: Seq<MonitorEventView>,
    d0: nat,
    name: String,
    found: ActorSighting,
    ts: Seq<char>,
    m1: Seq<(String, MonitoredActor)>,
    buf1: Seq<MonitorEventView>,
    d1: nat,
    obs: Seq<Option<ActorSighting>>,
    ts_poll: Seq<char>,
    batch: Seq<MonitorEventView>,
    batch_dropped: nat,
)
    requires
        monitored_names(m0).no_duplicates(),
        buf0.len() <= MAX_MONITOR_BUFFER_SIZE,
        m1 == set_status(m0, name, found.status),
        (buf1, d1) == bounded_push(
            buf0,
            d0,
            MAX_MONITOR_BUFFER_SIZE as nat,
            monitor_event(ts, found.actor_id@, name@, "STARTED"@, None),
        ),
        obs.len() == m1.len(),
        m1.len() < MAX_MONITOR_BUFFER_SIZE,
        (batch, batch_dropped) == bounded_push_all(
            buf1,
            d1,
            MAX_MONITOR_BUFFER_SIZE as nat,
            poll_all(m1, obs, ts_poll).1,
        ),
    ensures
        monitored_names(m1).contains(name@),
        batch.contains(monitor_event(ts, found.actor_id@, name@, "STARTED"@, None)),
        batch.len() <= MAX_MONITOR_BUFFER_SIZE,
{
    lemma_start_monitoring_records(m0, name, found.status);
    let started = monitor_event(ts, found.actor_id@, name@, "STARTED"@, None);
    let evs = poll_all(m1, obs, ts_poll).1;
    lemma_poll_events_len(m1, obs, ts_poll);
    assert(buf1.len() <= MAX_MONITOR_BUFFER_SIZE && buf1.len() > 0);
    assert(buf1[buf1.len() - 1] == started);
    lemma_bounded_push_all(buf1, d1, MAX_MONITOR_BUFFER_SIZE as nat, evs);
    let all = buf1 + evs;
    let o = overflow(buf1.len() + evs.len(), MAX_MONITOR_BUFFER_SIZE as nat);
    assert(o <= buf1.len() - 1);
    assert(all[buf1.len() - 1] == started);
    assert(batch[buf1.len() - 1 - o] == all[buf1.len() - 1]);
}

/// A poll that sees a monitored actor newly stopped, or no longer in the registry after its
/// status was known, ends its monitoring and reports a `STOPPED` event for it in the batch,
/// which holds at most `MAX_MONITOR_BUFFER_SIZE` events. (With more than
/// `MAX_MONITOR_BUFFER_SIZE` monitored actors a poll can report enough events to push that one
/// out of the buffer, so the law is stated for at most that many.)
pub proof fn lemma_monitoring_stop_reported(
    m: Seq<(String, MonitoredActor)>,
    buf: Seq<MonitorEventView>,
    d: nat,
    obs: Seq<Option<ActorSighting>>,
    ts: Seq<char>,
    i: int,
    batch: Seq<MonitorEventView>,
    batch_dropped: nat,
)
    requires
        monitored_names(m).no_duplicates(),
        buf.len() <= MAX_MONITOR_BUFFER_SIZE,
        obs.len() == m.len(),
        m.len() <= MAX_MONITOR_BUFFER_SIZE,
        0 <= i < m.len(),
        match obs[i] {
            Some(seen) => seen.status == ActorStatus::Stopped && m[i].1.last_status != Some(
                ActorStatus::Stopped,
            ),
            None => m[i].1.last_status is Some,
        },
        (batch, batch_dropped) == bounded_push_all(
            buf,
            d,
            MAX_MONITOR_BUFFER_SIZE as nat,
            poll_all(m, obs, ts).1,
        ),
    ensures
        !monitored_names(poll_all(m, obs, ts).0).contains(m[i].0@),
        poll_entry(m[i], obs[i], ts).1 matches Some(e) && e.event_type == "STOPPED"@
            && e.actor_name == Some(m[i].0@) && batch.contains(e),
        batch.len() <= MAX_MONITOR_BUFFER_SIZE,
{
    let evs = poll_all(m, obs, ts).1;
    let kept = poll_all(m, obs, ts).0;
    lemma_poll_events_len(m, obs, ts);
    lemma_poll_reports_entry(m, obs, ts, i);
    let e = poll_entry(m[i], obs[i], ts).1->0;
    let k = evs.index_of(e);
    lemma_batch_keeps_arrivals(buf, d, evs, k);
    lemma_poll_drops_gone_actors(m, obs, ts);
    if monitored_names(kept).contains(m[i].0@) {
        let j = monitored_names(kept).index_of(m[i].0@);
        assert(kept[j].0@ == m[i].0@);
        let i2 = choose|i2: int|
            0 <= i2 < m.len() && #[trigger] m[i2].0 == (#[trigger] kept[j]).0 && obs[i2] is Some
                && kept[j].1.last_status == Some(obs[i2]->0.status) && (obs[i2]->0.status
                != ActorStatus::Stopped || m[i2].1.last_status == Some(ActorStatus::Stopped));
        assert(monitored_names(m)[i2] == monitored_names(m)[i]);
        assert(i2 == i);
    }
}


/// One operation on the trace subscriptions, as the introspection actor performs one per
/// message: open subscription `id` for a pattern, offer an event to every subscription, poll
/// subscription `id`, or close it.
pub enum TraceOp {
    /// Open subscription `id` for the pattern
    Subscribe { id: u64, pattern: Ghost<Seq<char>> },
    /// Offer `event` to every subscription
    Deliver { event: TraceEvent },
    /// Take the buffered events of subscription `id`
    Poll { id: u64 },
    /// Close subscription `id`
    Unsubscribe { id: u64 },
}

/// Whether the subscriptions `after` are what the operation `op` makes of `before`, as the
/// operation's function states it.
pub open spec fn trace_step(
    before: Map<u64, TraceSubscription>,
    op: TraceOp,
    after: Map<u64, TraceSubscription>,
) -> bool {
    match op {
        TraceOp::Subscribe { id, pattern } => {
            &&& after.dom() == before.dom().insert(id)
            &&& fresh_subscription(after[id], pattern@)
            &&& forall|k: u64| #[trigger]
                before.contains_key(k) && k != id ==> after[k] == before[k]
        },
        TraceOp::Deliver { event } => delivered_to_all(before, after, event),
        TraceOp::Poll { id } => {
            &&& after.dom() == before.dom()
            &&& forall|k: u64| #[trigger]
                before.contains_key(k) && k != id ==> after[k] == before[k]
            &&& before.contains_key(id) ==> {
                &&& after[id].pattern == before[id].pattern
                &&& after[id].buffer@.len() == 0
                &&& after[id].dropped_count == 0
            }
        },
        TraceOp::Unsubscribe { id } => after == before.remove(id),
    }
}

/// What a subscription holds, as values: its pattern, the views of its buffered events and its
/// drop count.
pub open spec fn subscription_view(s: TraceSubscription) -> (Seq<char>, Seq<TraceEventView>, nat) {
    (s.pattern@, event_views(s.buffer@), s.dropped_count as nat)
}

/// What subscription `id` of `m` holds, if `m` has it.
pub open spec fn subscription_at(m: Map<u64, TraceSubscription>, id: u64) -> Option<
    (Seq<char>, Seq<TraceEventView>, nat),
> {
    if m.contains_key(id) {
        Some(subscription_view(m[id]))
    } else {
        None
    }
}

/// What subscription `id` holds after the operations `ops`, starting from `init`: opened
/// empty, each offered event its pattern selects added to its bounded buffer, emptied by a
/// poll, gone once closed.
pub open spec fn subscription_after(
    init: Option<(Seq<char>, Seq<TraceEventView>, nat)>,
    id: u64,
    ops: Seq<TraceOp>,
) -> Option<(Seq<char>, Seq<TraceEventView>, nat)>
    decreases ops.len(),
{
    if ops.len() == 0 {
        init
    } else {
        let prev = subscription_after(init, id, ops.drop_last());
        match ops.last() {
            TraceOp::Subscribe { id: k, pattern } => if k == id {
                Some((pattern@, Seq::empty(), 0))
            } else {
                prev
            },
            TraceOp::Deliver { event } => match prev {
                Some(v) => if event_matches(v.0, event) {
                    let pushed = bounded_push(v.1, v.2, MAX_TRACE_BUFFER_SIZE as nat, event@);
                    Some((v.0, pushed.0, pushed.1))
                } else {
                    prev
                },
                None => None,
            },
            TraceOp::Poll { id: k } => match prev {
                Some(v) => if k == id {
                    Some((v.0, Seq::empty(), 0))
                } else {
                    prev
                },
                None => None,
            },
            TraceOp::Unsubscribe { id: k } => if k == id {
                None
            } else {
                prev
            },
        }
    }
}

/// The trace subscriptions across any sequence of messages (`states[i + 1]` is what `ops[i]`
/// makes of `states[i]`): at every point, each subscription holds exactly what the operations so
/// far leave in it — opened empty by its subscribe, every offered event its pattern selects
/// added to its bounded buffer (the oldest dropped and counted when full), emptied with the
/// count reset by each poll, and gone after its unsubscribe.
pub proof fn lemma_trace_messages(states: Seq<Map<u64, TraceSubscription>>, ops: Seq<TraceOp>)
    requires
        states.len() == ops.len() + 1,
        forall|i: int| 0 <= i < ops.len() ==> #[trigger] trace_step(states[i], ops[i], states[i + 1]),
    ensures
        forall|j: int, id: u64|
            0 <= j <= ops.len() ==> #[trigger] subscription_at(states[j], id) == subscription_after(
                subscription_at(states[0], id),
                id,
                ops.take(j),
            ),
{
    assert forall|j: int, id: u64|
        0 <= j <= ops.len() implies #[trigger] subscription_at(states[j], id) == subscription_after(
        subscription_at(states[0], id),
        id,
        ops.take(j),
    ) by {
        lemma_trace_prefix(states, ops, id, j);
    }
}

proof fn lemma_trace_prefix(states: Seq<Map<u64, TraceSubscription>>, ops: Seq<TraceOp>, id: u64, j: int)
    requires
        states.len() == ops.len() + 1,
        0 <= j <= ops.len(),
        forall|i: int| 0 <= i < ops.len() ==> #[trigger] trace_step(states[i], ops[i], states[i + 1]),
    ensures
        subscription_at(states[j], id) == subscription_after(
            subscription_at(states[0], id),
            id,
            ops.take(j),
        ),
    decreases j,
{
    if j == 0 {
        assert(ops.take(0) =~= Seq::<TraceOp>::empty());
    } else {
        lemma_trace_prefix(states, ops, id, j - 1);
        let i = j - 1;
        assert(trace_step(states[i], ops[i], states[i + 1]));
        assert(states[i + 1] == states[j]);
        assert(ops.take(j).drop_last() =~= ops.take(i));
        assert(ops.take(j).last() == ops[i]);
        let b = states[i];
        let a = states[j];
        match ops[i] {
            TraceOp::Subscribe { id: k, pattern } => {
                if k == id {
                    assert(event_views(a[id].buffer@) =~= Seq::<TraceEventView>::empty());
                } else if b.contains_key(id) {
                    assert(a[id] == b[id]);
                }
            },
            TraceOp::Deliver { event } => {
                if b.contains_key(id) {
                    assert(delivered(b[id], a[id], event));
                }
            },
            TraceOp::Poll { id: k } => {
                if b.contains_key(id) {
                    if k == id {
                        assert(event_views(a[id].buffer@) =~= Seq::<TraceEventView>::empty());
                    } else {
                        assert(a[id] == b[id]);
                    }
                }
            },
            TraceOp::Unsubscribe { id: k } => {
                if k != id && b.contains_key(id) {
                    assert(a[id] == b[id]);
                }
            },
        }
    }
}


/// One operation on the monitoring state, as the introspection actor performs one per message:
/// start monitoring a name (with what the registry shows of it and the time's text), stop
/// monitoring a name, or poll (with what the registry shows of each monitored actor and the
/// time's text). Listing the monitored names changes nothing.
pub enum MonitoringOp {
    /// Start monitoring `name`
    Start { name: String, found: Option<ActorSighting>, ts: Ghost<Seq<char>> },
    /// Stop monitoring the name
    Stop { name: Ghost<Seq<char>> },
    /// Poll the monitored actors
    Poll { observed: Ghost<Seq<Option<ActorSighting>>>, ts: Ghost<Seq<char>> },
}

/// The monitoring state as values: the monitored entries, the views of the buffered events and
/// the drop count.
pub open spec fn monitoring_view(m: MonitoringState) -> (
    Seq<(String, MonitoredActor)>,
    Seq<MonitorEventView>,
    nat,
) {
    (m.monitored@, monitor_views(m.event_buffer@), m.dropped_count as nat)
}

/// What the operation `op` makes of the monitoring state `v`: a found actor is recorded and its
/// `STARTED` event buffered; a stopped name is forgotten; a poll keeps the entries it keeps and
/// empties the buffer (its batch is [`poll_batch`]).
pub open spec fn monitoring_apply(
    v: (Seq<(String, MonitoredActor)>, Seq<MonitorEventView>, nat),
    op: MonitoringOp,
) -> (Seq<(String, MonitoredActor)>, Seq<MonitorEventView>, nat) {
    match op {
        MonitoringOp::Start { name, found, ts } => match found {
            Some(s) => {
                let pushed = bounded_push(
                    v.1,
                    v.2,
                    MAX_MONITOR_BUFFER_SIZE as nat,
                    monitor_event(ts@, s.actor_id@, name@, "STARTED"@, None),
                );
                (set_status(v.0, name, s.status), pushed.0, pushed.1)
            },
            None => v,
        },
        MonitoringOp::Stop { name } => (without_name(v.0, name@), v.1, v.2),
        MonitoringOp::Poll { observed, ts } => (
            poll_all(v.0, observed@, ts@).0,
            Seq::empty(),
            0,
        ),
    }
}

/// The batch a poll of the monitoring state `v` answers: the buffered events and those the poll
/// reports, the newest `MAX_MONITOR_BUFFER_SIZE` of them, with the drop count.
pub open spec fn poll_batch(
    v: (Seq<(String, MonitoredActor)>, Seq<MonitorEventView>, nat),
    observed: Seq<Option<ActorSighting>>,
    ts: Seq<char>,
) -> (Seq<MonitorEventView>, nat) {
    bounded_push_all(v.1, v.2, MAX_MONITOR_BUFFER_SIZE as nat, poll_all(v.0, observed, ts).1)
}

/// Whether the monitoring state `after` is what the operation `op` makes of `before`, keeping
/// its bounds.
pub open spec fn monitoring_step(before: MonitoringState, op: MonitoringOp, after: MonitoringState) -> bool {
    &&& monitoring_view(after) == monitoring_apply(monitoring_view(before), op)
    &&& before.wf() ==> after.wf()
}

/// The monitoring state after the operations `ops`, starting from `v`.
pub open spec fn monitoring_after(
    v: (Seq<(String, MonitoredActor)>, Seq<MonitorEventView>, nat),
    ops: Seq<MonitoringOp>,
) -> (Seq<(String, MonitoredActor)>, Seq<MonitorEventView>, nat)
    decreases ops.len(),
{
    if ops.len() == 0 {
        v
    } else {
        monitoring_apply(monitoring_after(v, ops.drop_last()), ops.last())
    }
}

/// Remote monitoring across any sequence of messages (`states[i + 1]` is what `ops[i]` makes
/// of `states[i]`): at every point the monitored entries, the buffered events and the drop count
/// are exactly what the operations so far make of the first state, and every state keeps its
/// bounds (distinct names, at most `MAX_MONITOR_BUFFER_SIZE` buffered events).
pub proof fn lemma_monitoring_messages(states: Seq<MonitoringState>, ops: Seq<MonitoringOp>)
    requires
        states.len() == ops.len() + 1,
        states[0].wf(),
        forall|i: int|
            0 <= i < ops.len() ==> #[trigger] monitoring_step(states[i], ops[i], states[i + 1]),
    ensures
        forall|j: int|
            #![trigger states[j]]
            0 <= j <= ops.len() ==> states[j].wf() && monitoring_view(states[j]) == monitoring_after(
                monitoring_view(states[0]),
                ops.take(j),
            ),
{
    assert forall|j: int|
        #![trigger states[j]]
        0 <= j <= ops.len() implies states[j].wf() && monitoring_view(states[j]) == monitoring_after(
        monitoring_view(states[0]),
        ops.take(j),
    ) by {
        lemma_monitoring_prefix(states, ops, j);
    }
}

proof fn lemma_monitoring_prefix(states: Seq<MonitoringState>, ops: Seq<MonitoringOp>, j: int)
    requires
        states.len() == ops.len() + 1,
        0 <= j <= ops.len(),
        states[0].wf(),
        forall|i: int|
            0 <= i < ops.len() ==> #[trigger] monitoring_step(states[i], ops[i], states[i + 1]),
    ensures
        monitoring_view(states[j]) == monitoring_after(monitoring_view(states[0]), ops.take(j)),
        states[j].wf(),
    decreases j,
{
    if j == 0 {
        assert(ops.take(0) =~= Seq::<MonitoringOp>::empty());
    } else {
        lemma_monitoring_prefix(states, ops, j - 1);
        let i = j - 1;
        assert(monitoring_step(states[i], ops[i], states[i + 1]));
        assert(states[i + 1] == states[j]);
        assert(ops.take(j).drop_last() =~= ops.take(i));
        assert(ops.take(j).last() == ops[i]);
    }
}

} // verus!
