#![allow(non_snake_case)]

use ractor_shell::introspection::{
    extract_node_id, IntrospectionArgs, MonitoringState, TraceSubscription,
    MAX_MONITOR_BUFFER_SIZE, MAX_TRACE_BUFFER_SIZE,
};
use ractor_shell::protocol::SerializableMonitorEvent;
use ractor_shell::time::Timestamp;
use ractor_shell::trace::{matches_pattern, wildcard_match, Level, TraceEvent, TraceEventType};

fn create_test_event(actor_name: &str, message: &str) -> TraceEvent {
    TraceEvent {
        timestamp: Timestamp { unix_secs: 1_704_067_200, nanos: 0, offset_secs: 0 },
        actor_id: Some("0.1".to_string()),
        actor_name: Some(actor_name.to_string()),
        event_type: TraceEventType::Event,
        level: Level::Info,
        target: "test::module".to_string(),
        message: message.to_string(),
        fields: vec![],
    }
}

// ============================================================================
// TraceSubscription Tests
// ============================================================================

#[test]
fn TraceSubscription_new___with_pattern___creates_empty_subscription() {
    let sub = TraceSubscription::new("test_*".to_string());

    assert_eq!(sub.pattern, "test_*");
    assert!(sub.buffer.is_empty());
    assert_eq!(sub.dropped_count, 0);
}

#[test]
fn TraceSubscription_push_event___single_event___adds_to_buffer() {
    let mut sub = TraceSubscription::new("*".to_string());
    let event = create_test_event("test_actor", "test message");

    sub.push_event(event);

    assert_eq!(sub.buffer.len(), 1);
    assert_eq!(sub.dropped_count, 0);
}

#[test]
fn TraceSubscription_push_event___exceeds_max_buffer___drops_oldest() {
    let mut sub = TraceSubscription::new("*".to_string());

    // Fill buffer to max
    for i in 0..MAX_TRACE_BUFFER_SIZE {
        let event = create_test_event("actor", &format!("message {}", i));
        sub.push_event(event);
    }
    assert_eq!(sub.buffer.len(), MAX_TRACE_BUFFER_SIZE);
    assert_eq!(sub.dropped_count, 0);

    // Add one more - should drop oldest
    let event = create_test_event("actor", "overflow message");
    sub.push_event(event);

    assert_eq!(sub.buffer.len(), MAX_TRACE_BUFFER_SIZE);
    assert_eq!(sub.dropped_count, 1);
    // First message should be "message 1" (not "message 0" which was dropped)
    assert_eq!(sub.buffer.front().unwrap().message, "message 1");
    // Last message should be our overflow message
    assert_eq!(sub.buffer.back().unwrap().message, "overflow message");
}

#[test]
fn TraceSubscription_take_events___with_events___returns_all_and_clears() {
    let mut sub = TraceSubscription::new("*".to_string());
    sub.push_event(create_test_event("actor1", "msg1"));
    sub.push_event(create_test_event("actor2", "msg2"));

    let (events, dropped) = sub.take_events();

    assert_eq!(events.len(), 2);
    assert_eq!(dropped, 0);
    assert!(sub.buffer.is_empty());
}

#[test]
fn TraceSubscription_take_events___with_dropped___returns_dropped_count_and_resets() {
    let mut sub = TraceSubscription::new("*".to_string());

    // Fill and overflow
    for i in 0..MAX_TRACE_BUFFER_SIZE + 5 {
        sub.push_event(create_test_event("actor", &format!("msg {}", i)));
    }
    assert_eq!(sub.dropped_count, 5);

    let (events, dropped) = sub.take_events();

    assert_eq!(events.len(), MAX_TRACE_BUFFER_SIZE);
    assert_eq!(dropped, 5);
    assert_eq!(sub.dropped_count, 0); // Reset after take
}

// ============================================================================
// IntrospectionArgs Tests
// ============================================================================

#[test]
fn IntrospectionArgs_from_string___converts_correctly() {
    let args: IntrospectionArgs<()> = "my_node".to_string().into();

    assert_eq!(args.node_name, "my_node");
    assert!(args.tracing_handle.is_none());
}

// ============================================================================
// matches_pattern Tests
// ============================================================================

#[test]
fn matches_pattern___star_pattern___matches_everything() {
    let event = create_test_event("any_actor", "any message");

    assert!(matches_pattern("*", &event));
}

#[test]
fn matches_pattern___actor_name_match___returns_true() {
    let event = create_test_event("worker_1", "message");

    assert!(matches_pattern("worker_*", &event));
    assert!(matches_pattern("worker_1", &event));
}

#[test]
fn matches_pattern___actor_id_match___returns_true() {
    let mut event = create_test_event("named", "message");
    event.actor_name = None;
    event.actor_id = Some("0.42".to_string());

    assert!(matches_pattern("0.*", &event));
    assert!(matches_pattern("0.42", &event));
}

#[test]
fn matches_pattern___target_match___returns_true() {
    let mut event = create_test_event("actor", "message");
    event.target = "ractor_shell::raft::election".to_string();

    assert!(matches_pattern("*raft*", &event));
    assert!(matches_pattern("ractor_shell::raft*", &event));
}

#[test]
fn matches_pattern___no_match___returns_false() {
    let event = create_test_event("supervisor", "message");

    assert!(!matches_pattern("worker_*", &event));
    assert!(!matches_pattern("unknown", &event));
}

// ============================================================================
// wildcard_match Tests
// ============================================================================

#[test]
fn wildcard_match___exact_match___returns_true() {
    assert!(wildcard_match("hello", "hello"));
}

#[test]
fn wildcard_match___star_wildcard___matches_any_sequence() {
    assert!(wildcard_match("hello*", "hello_world"));
    assert!(wildcard_match("*world", "hello_world"));
    assert!(wildcard_match("*llo*", "hello_world"));
    assert!(wildcard_match("*", "anything"));
}

#[test]
fn wildcard_match___question_mark___matches_single_char() {
    assert!(wildcard_match("hell?", "hello"));
    assert!(wildcard_match("h?llo", "hello"));
    assert!(!wildcard_match("hell?", "hellooo"));
}

#[test]
fn wildcard_match___no_match___returns_false() {
    assert!(!wildcard_match("hello", "world"));
    assert!(!wildcard_match("hello*", "world"));
}

// ============================================================================
// extract_node_id Tests
// ============================================================================

#[test]
fn extract_node_id___standard_format___extracts_first_part() {
    assert_eq!(extract_node_id("1.42"), "1");
    assert_eq!(extract_node_id("0.1"), "0");
    assert_eq!(extract_node_id("123.456"), "123");
}

#[test]
fn extract_node_id___no_dot___returns_whole_string() {
    assert_eq!(extract_node_id("42"), "42");
}

#[test]
fn extract_node_id___empty_string___returns_empty() {
    // split('.') on "" returns iterator with one "" element, so .next() is Some("")
    assert_eq!(extract_node_id(""), "");
}

#[test]
fn extract_node_id___multiple_dots___returns_first_part() {
    assert_eq!(extract_node_id("1.2.3"), "1");
}

// ============================================================================
// MonitoringState Tests
// ============================================================================

fn monitor_event(timestamp: String, actor_id: String, actor_name: String, event_type: &str) -> SerializableMonitorEvent {
    SerializableMonitorEvent {
        timestamp,
        actor_id,
        actor_name: Some(actor_name),
        event_type: event_type.to_string(),
        reason: None,
        error: None,
    }
}

#[test]
fn MonitoringState___new___creates_empty_state() {
    let state = MonitoringState::new();

    assert!(state.monitored.is_empty());
    assert!(state.event_buffer.is_empty());
    assert_eq!(state.dropped_count, 0);
}

#[test]
fn MonitoringState___push_event___adds_event_to_buffer() {
    let mut state = MonitoringState::new();
    let event = monitor_event(
        "2024-01-01T00:00:00Z".to_string(),
        "0.1".to_string(),
        "test_actor".to_string(),
        "STARTED",
    );

    state.push_event(event);

    assert_eq!(state.event_buffer.len(), 1);
    assert_eq!(state.dropped_count, 0);
}

#[test]
fn MonitoringState___push_event___exceeds_max_buffer___drops_oldest() {
    let mut state = MonitoringState::new();

    // Fill buffer to max (MAX_MONITOR_BUFFER_SIZE = 100)
    for i in 0..MAX_MONITOR_BUFFER_SIZE {
        let event = monitor_event(
            format!("2024-01-01T00:00:{:02}Z", i % 60),
            format!("0.{}", i),
            format!("actor_{}", i),
            "STARTED",
        );
        state.push_event(event);
    }
    assert_eq!(state.event_buffer.len(), MAX_MONITOR_BUFFER_SIZE);
    assert_eq!(state.dropped_count, 0);

    // Add one more - should drop oldest
    let overflow_event = monitor_event(
        "2024-01-01T01:00:00Z".to_string(),
        "0.999".to_string(),
        "overflow_actor".to_string(),
        "STOPPED",
    );
    state.push_event(overflow_event);

    assert_eq!(state.event_buffer.len(), MAX_MONITOR_BUFFER_SIZE);
    assert_eq!(state.dropped_count, 1);
    // First event should be "actor_1" (not "actor_0" which was dropped)
    assert_eq!(
        state.event_buffer.front().unwrap().actor_name,
        Some("actor_1".to_string())
    );
    // Last event should be our overflow actor
    assert_eq!(
        state.event_buffer.back().unwrap().actor_name,
        Some("overflow_actor".to_string())
    );
}

#[test]
fn MonitoringState___take_events___returns_all_and_clears() {
    let mut state = MonitoringState::new();

    for i in 0..5 {
        let event = monitor_event(
            format!("2024-01-01T00:00:{:02}Z", i),
            format!("0.{}", i),
            format!("actor_{}", i),
            "STARTED",
        );
        state.push_event(event);
    }

    let (events, dropped) = state.take_events();

    assert_eq!(events.len(), 5);
    assert_eq!(dropped, 0);
    assert!(state.event_buffer.is_empty());
}

#[test]
fn MonitoringState___take_events___with_dropped___returns_dropped_count_and_resets() {
    let mut state = MonitoringState::new();

    // Fill and overflow
    for i in 0..MAX_MONITOR_BUFFER_SIZE + 10 {
        let event = monitor_event(
            format!("2024-01-01T00:00:{:02}Z", i % 60),
            format!("0.{}", i),
            format!("actor_{}", i),
            "STARTED",
        );
        state.push_event(event);
    }
    assert_eq!(state.dropped_count, 10);

    let (events, dropped) = state.take_events();

    assert_eq!(events.len(), MAX_MONITOR_BUFFER_SIZE);
    assert_eq!(dropped, 10);
    assert_eq!(state.dropped_count, 0); // Reset after take
}
