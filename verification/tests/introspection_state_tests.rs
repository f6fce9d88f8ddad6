use ractor_shell::introspection::{
    ActorSighting, ActorStatus, IntrospectionArgs, IntrospectionState, TracingRequest,
    MAX_MONITOR_BUFFER_SIZE, MAX_TRACE_BUFFER_SIZE,
};
use ractor_shell::protocol::SerializableTraceEvent;
use ractor_shell::time::Timestamp;
use ractor_shell::trace::{Level, TraceEvent, TraceEventType};

fn state_with_handle() -> IntrospectionState<()> {
    IntrospectionState::new(IntrospectionArgs { node_name: "node_a".to_string(), tracing_handle: Some(()) })
}

fn event(actor_name: &str) -> TraceEvent {
    TraceEvent {
        timestamp: Timestamp { unix_secs: 1_704_067_200, nanos: 0, offset_secs: 0 },
        actor_id: Some("0.1".to_string()),
        actor_name: Some(actor_name.to_string()),
        event_type: TraceEventType::SpanEnter,
        level: Level::Warn,
        target: "app::worker".to_string(),
        message: "hello".to_string(),
        fields: vec![("k".to_string(), "v".to_string())],
    }
}

fn sighting(status: ActorStatus) -> Option<ActorSighting> {
    Some(ActorSighting { status, actor_id: "0.7".to_string() })
}

#[test]
fn ping_reply_names_the_node() {
    let state = state_with_handle();
    assert_eq!(state.ping_reply(), "pong from node_a");
}

#[test]
fn subscribe_asks_for_tracing_only_with_a_handle() {
    let mut with = state_with_handle();
    assert!(matches!(with.subscribe(1, "raft_*".to_string()), TracingRequest::Trace(p) if p == "raft_*"));
    let mut without: IntrospectionState<()> = IntrospectionState::new(IntrospectionArgs::from("n".to_string()));
    assert!(matches!(without.subscribe(1, "raft_*".to_string()), TracingRequest::Nothing));
    assert_eq!(without.subscriptions.len(), 1);
}

#[test]
fn delivered_events_are_polled_once_in_serializable_form() {
    let mut state = state_with_handle();
    state.subscribe(7, "work*".to_string());
    state.subscribe(8, "other".to_string());
    state.deliver(&event("worker_1"));
    state.deliver(&event("worker_2"));
    let batch = state.poll_traces(7);
    assert_eq!(batch.events.len(), 2);
    assert_eq!(batch.dropped_count, 0);
    assert_eq!(batch.events[0].actor_name.as_deref(), Some("worker_1"));
    assert_eq!(batch.events[0].event_type, "ENTER");
    assert_eq!(batch.events[0].level, "WARN");
    assert_eq!(batch.events[0].fields, vec![("k".to_string(), "v".to_string())]);
    assert!(batch.events[0].timestamp.starts_with("2024-01-01T00:00:00"));
    assert!(state.poll_traces(7).events.is_empty());
    assert!(state.poll_traces(8).events.is_empty());
    let missing = state.poll_traces(99);
    assert!(missing.events.is_empty());
    assert_eq!(missing.dropped_count, 0);
}

#[test]
fn full_subscription_drops_oldest_and_reports_the_count() {
    let mut state = state_with_handle();
    state.subscribe(1, "*".to_string());
    for _ in 0..MAX_TRACE_BUFFER_SIZE + 5 {
        state.deliver(&event("a"));
    }
    let batch = state.poll_traces(1);
    assert_eq!(batch.events.len(), MAX_TRACE_BUFFER_SIZE);
    assert_eq!(batch.dropped_count, 5);
}

#[test]
fn unsubscribe_untraces_only_when_the_pattern_is_unused() {
    let mut state = state_with_handle();
    state.subscribe(1, "a*".to_string());
    state.subscribe(2, "a*".to_string());
    let (found, req) = state.unsubscribe(1);
    assert!(found);
    assert!(matches!(req, TracingRequest::Nothing));
    let (found, req) = state.unsubscribe(2);
    assert!(found);
    assert!(matches!(req, TracingRequest::Untrace(p) if p == "a*"));
    let (found, req) = state.unsubscribe(2);
    assert!(!found);
    assert!(matches!(req, TracingRequest::Nothing));
}

#[test]
fn notify_reads_back_a_sent_event() {
    let mut state = state_with_handle();
    state.subscribe(3, "*".to_string());
    let sent = SerializableTraceEvent::from_trace_event(&event("w"));
    state.notify(&sent);
    let batch = state.poll_traces(3);
    assert_eq!(batch.events.len(), 1);
    let got = &batch.events[0];
    assert_eq!(got.actor_name, sent.actor_name);
    assert_eq!(got.actor_id, sent.actor_id);
    assert_eq!(got.level, "WARN");
    assert_eq!(got.event_type, "ENTER");
    assert_eq!(got.message, "hello");
}

#[test]
fn notify_reads_unknown_level_as_info_and_bad_time_as_now() {
    let mut state = state_with_handle();
    state.subscribe(3, "*".to_string());
    let ev = SerializableTraceEvent {
        timestamp: "not a time".to_string(),
        actor_id: None,
        actor_name: None,
        event_type: "SOMETHING".to_string(),
        level: "loud".to_string(),
        target: "t".to_string(),
        message: "m".to_string(),
        fields: vec![],
    };
    state.notify(&ev);
    let batch = state.poll_traces(3);
    assert_eq!(batch.events[0].level, "INFO");
    assert_eq!(batch.events[0].event_type, "EVENT");
}

#[test]
fn notify_reads_levels_in_any_case() {
    let received = TraceEvent::from_serializable(&SerializableTraceEvent {
        timestamp: "2024-01-01T00:00:00Z".to_string(),
        actor_id: None,
        actor_name: None,
        event_type: "EXIT".to_string(),
        level: "Debug".to_string(),
        target: "t".to_string(),
        message: "m".to_string(),
        fields: vec![],
    });
    assert_eq!(received.level, Level::Debug);
    assert_eq!(received.event_type, TraceEventType::SpanExit);
    assert_eq!(received.timestamp.unix_secs, 1_704_067_200);
}

#[test]
fn monitoring_reports_start_stopping_and_stop() {
    let mut state = state_with_handle();
    assert!(state.start_monitoring("w".to_string(), sighting(ActorStatus::Running)));
    assert!(!state.start_monitoring("ghost".to_string(), None));
    assert_eq!(state.monitored_actors(), vec!["w".to_string()]);

    let batch = state.poll_monitor_events(vec![sighting(ActorStatus::Stopping)]);
    assert_eq!(batch.events.len(), 2);
    assert_eq!(batch.events[0].event_type, "STARTED");
    assert_eq!(batch.events[0].actor_id, "0.7");
    assert_eq!(batch.events[1].event_type, "STOPPING");
    assert_eq!(batch.events[1].reason.as_deref(), Some("Actor stopping"));

    let batch = state.poll_monitor_events(vec![sighting(ActorStatus::Stopping)]);
    assert!(batch.events.is_empty());

    let batch = state.poll_monitor_events(vec![sighting(ActorStatus::Stopped)]);
    assert_eq!(batch.events.len(), 1);
    assert_eq!(batch.events[0].event_type, "STOPPED");
    assert_eq!(batch.events[0].reason.as_deref(), Some("Actor stopped"));
    assert!(state.monitored_actors().is_empty());
}

#[test]
fn monitoring_reports_actors_that_left_the_registry() {
    let mut state = state_with_handle();
    state.start_monitoring("a".to_string(), sighting(ActorStatus::Running));
    state.start_monitoring("b".to_string(), sighting(ActorStatus::Running));
    let _ = state.poll_monitor_events(vec![sighting(ActorStatus::Running), sighting(ActorStatus::Running)]);
    let batch = state.poll_monitor_events(vec![None, sighting(ActorStatus::Running)]);
    assert_eq!(batch.events.len(), 1);
    assert_eq!(batch.events[0].actor_id, "unknown");
    assert_eq!(batch.events[0].actor_name.as_deref(), Some("a"));
    assert_eq!(batch.events[0].reason.as_deref(), Some("Actor no longer in registry"));
    assert_eq!(state.monitored_actors(), vec!["b".to_string()]);
}

#[test]
fn stop_monitoring_forgets_the_actor() {
    let mut state = state_with_handle();
    state.start_monitoring("a".to_string(), sighting(ActorStatus::Running));
    assert!(state.stop_monitoring("a"));
    assert!(!state.stop_monitoring("a"));
    assert!(state.monitored_actors().is_empty());
}

#[test]
fn monitor_buffer_keeps_the_newest_events() {
    let mut state = state_with_handle();
    for i in 0..MAX_MONITOR_BUFFER_SIZE + 3 {
        state.start_monitoring(format!("a{}", i), sighting(ActorStatus::Running));
    }
    let observed = state.monitored_actors().iter().map(|_| sighting(ActorStatus::Running)).collect();
    let batch = state.poll_monitor_events(observed);
    assert_eq!(batch.events.len(), MAX_MONITOR_BUFFER_SIZE);
    assert_eq!(batch.dropped_count, 3);
    assert_eq!(batch.events[0].actor_name.as_deref(), Some("a3"));
}

#[test]
fn subscription_sequence_polls_only_events_since_last_poll() {
    let mut state = state_with_handle();
    state.subscribe(1, "w*".to_string());
    state.deliver(&event("w1"));
    state.deliver(&event("x1"));
    assert_eq!(state.poll_traces(1).events.len(), 1);
    state.deliver(&event("w2"));
    state.deliver(&event("w3"));
    let batch = state.poll_traces(1);
    assert_eq!(batch.events.len(), 2);
    assert_eq!(batch.events[0].actor_name.as_deref(), Some("w2"));
    let (found, _) = state.unsubscribe(1);
    assert!(found);
    state.deliver(&event("w4"));
    assert!(state.poll_traces(1).events.is_empty());
    state.subscribe(1, "*".to_string());
    assert!(state.poll_traces(1).events.is_empty());
}
