#![allow(non_snake_case)]

use ractor_shell::monitor::{
    is_monitoring_supported, MonitorArgs, MonitorEvent, MonitorState,
};
use ractor_shell::time::Timestamp;

#[test]
fn is_monitoring_supported___returns_true() {
    assert!(is_monitoring_supported());
}

#[test]
fn format___actor_started___contains_expected_output() {
    let event = MonitorEvent::ActorStarted {
        actor_id: "1.0".to_string(),
        actor_name: Some("test_actor".to_string()),
        timestamp: Timestamp::now(),
    };

    let formatted = event.format();

    assert!(formatted.contains("STARTED"));
    assert!(formatted.contains("test_actor"));
    assert!(formatted.contains("1.0"));
}

#[test]
fn format___actor_started___unnamed_actor___shows_unnamed() {
    let event = MonitorEvent::ActorStarted {
        actor_id: "0.42".to_string(),
        actor_name: None,
        timestamp: Timestamp::now(),
    };

    let formatted = event.format();

    assert!(formatted.contains("STARTED"));
    assert!(formatted.contains("unnamed"));
    assert!(formatted.contains("0.42"));
}

#[test]
fn format___actor_stopped___contains_expected_output() {
    let event = MonitorEvent::ActorStopped {
        actor_id: "0.5".to_string(),
        actor_name: Some("worker_actor".to_string()),
        reason: "Normal shutdown".to_string(),
        timestamp: Timestamp::now(),
    };

    let formatted = event.format();

    assert!(formatted.contains("STOPPED"));
    assert!(formatted.contains("worker_actor"));
    assert!(formatted.contains("0.5"));
    assert!(formatted.contains("Normal shutdown"));
}

#[test]
fn format___actor_stopped___unnamed_actor___shows_unnamed() {
    let event = MonitorEvent::ActorStopped {
        actor_id: "0.10".to_string(),
        actor_name: None,
        reason: "Terminated".to_string(),
        timestamp: Timestamp::now(),
    };

    let formatted = event.format();

    assert!(formatted.contains("STOPPED"));
    assert!(formatted.contains("unnamed"));
    assert!(formatted.contains("Terminated"));
}

#[test]
fn format___actor_panicked___contains_expected_output() {
    let event = MonitorEvent::ActorPanicked {
        actor_id: "0.7".to_string(),
        actor_name: Some("panicking_actor".to_string()),
        error: "panic message: something went wrong".to_string(),
        timestamp: Timestamp::now(),
    };

    let formatted = event.format();

    assert!(formatted.contains("PANICKED"));
    assert!(formatted.contains("panicking_actor"));
    assert!(formatted.contains("0.7"));
    assert!(formatted.contains("something went wrong"));
}

#[test]
fn format___actor_panicked___unnamed_actor___shows_unnamed() {
    let event = MonitorEvent::ActorPanicked {
        actor_id: "0.99".to_string(),
        actor_name: None,
        error: "assertion failed".to_string(),
        timestamp: Timestamp::now(),
    };

    let formatted = event.format();

    assert!(formatted.contains("PANICKED"));
    assert!(formatted.contains("unnamed"));
    assert!(formatted.contains("assertion failed"));
}

#[test]
fn format___actor_killed___contains_expected_output() {
    let event = MonitorEvent::ActorKilled {
        actor_id: "0.15".to_string(),
        actor_name: Some("killed_actor".to_string()),
        timestamp: Timestamp::now(),
    };

    let formatted = event.format();

    assert!(formatted.contains("KILLED"));
    assert!(formatted.contains("killed_actor"));
    assert!(formatted.contains("0.15"));
}

#[test]
fn format___actor_killed___unnamed_actor___shows_unnamed() {
    let event = MonitorEvent::ActorKilled {
        actor_id: "0.20".to_string(),
        actor_name: None,
        timestamp: Timestamp::now(),
    };

    let formatted = event.format();

    assert!(formatted.contains("KILLED"));
    assert!(formatted.contains("unnamed"));
    assert!(formatted.contains("0.20"));
}

#[test]
fn MonitorState___new___initializes_with_empty_collections() {
    let state = MonitorState::new(false);

    assert!(state.monitored.is_empty());
    assert!(state.event_history.is_empty());
    assert_eq!(state.max_history, 100);
}

#[test]
fn MonitorState___new___with_quiet_mode___sets_quiet_flag() {
    let state = MonitorState::new(true);

    assert!(state.monitored.is_empty());
}

#[test]
fn MonitorArgs___default___quiet_is_false() {
    let args = MonitorArgs::default();

    assert!(!args.quiet);
}

#[test]
fn MonitorEvent___clone___all_variants___clones_correctly() {
    let started = MonitorEvent::ActorStarted {
        actor_id: "0.1".to_string(),
        actor_name: Some("actor1".to_string()),
        timestamp: Timestamp::now(),
    };
    let started_clone = started.clone();
    assert!(started_clone.format().contains("actor1"));

    let stopped = MonitorEvent::ActorStopped {
        actor_id: "0.2".to_string(),
        actor_name: Some("actor2".to_string()),
        reason: "done".to_string(),
        timestamp: Timestamp::now(),
    };
    let stopped_clone = stopped.clone();
    assert!(stopped_clone.format().contains("actor2"));

    let panicked = MonitorEvent::ActorPanicked {
        actor_id: "0.3".to_string(),
        actor_name: Some("actor3".to_string()),
        error: "oops".to_string(),
        timestamp: Timestamp::now(),
    };
    let panicked_clone = panicked.clone();
    assert!(panicked_clone.format().contains("actor3"));

    let killed = MonitorEvent::ActorKilled {
        actor_id: "0.4".to_string(),
        actor_name: Some("actor4".to_string()),
        timestamp: Timestamp::now(),
    };
    let killed_clone = killed.clone();
    assert!(killed_clone.format().contains("actor4"));
}

#[test]
fn format_shows_time_in_brackets_and_reason_after_dash() {
    let event = MonitorEvent::ActorStopped {
        actor_id: "0.5".to_string(),
        actor_name: Some("w".to_string()),
        reason: "bye".to_string(),
        timestamp: Timestamp { unix_secs: 3_723, nanos: 4_000_000, offset_secs: 0 },
    };
    let formatted = event.format();
    assert!(formatted.contains("01:02:03.004"));
    assert!(formatted.contains("(0.5)"));
    assert!(formatted.contains("bye"));
    assert!(formatted.contains(" - "));
}

#[test]
fn monitor_state_records_start_and_bounds_history() {
    let mut state = MonitorState::new(true);
    assert!(state.monitor("a".to_string(), Some("0.1".to_string()), Timestamp::now()));
    assert!(!state.monitor("b".to_string(), None, Timestamp::now()));
    assert_eq!(state.monitored_names(), vec!["a".to_string()]);
    assert_eq!(state.event_history.len(), 1);
    assert!(state.is_monitored(&Some("a".to_string())));
    assert!(!state.is_monitored(&None));
    for i in 0..150 {
        state.record(MonitorEvent::ActorKilled {
            actor_id: format!("0.{}", i),
            actor_name: None,
            timestamp: Timestamp::now(),
        });
    }
    assert_eq!(state.event_history.len(), 100);
    assert!(state.unmonitor("a"));
    assert!(!state.unmonitor("a"));
    assert_eq!(state.clear_all(), 0);
}

#[test]
fn monitor_state_monitoring_twice_keeps_one_entry() {
    let mut state = MonitorState::default();
    assert!(state.monitor("a".to_string(), Some("0.1".to_string()), Timestamp::now()));
    assert!(state.monitor("a".to_string(), Some("0.2".to_string()), Timestamp::now()));
    assert_eq!(state.monitored.len(), 1);
    assert_eq!(state.monitored[0].1, "0.2");
    assert_eq!(state.clear_all(), 1);
    assert!(state.monitored.is_empty());
}

#[test]
fn timestamp_now_is_after_epoch_without_leap_second() {
    let t = Timestamp::now();
    assert!(t.unix_secs >= 0);
    assert!(t.nanos < 1_000_000_000);
    assert!(t.is_valid());
}

#[test]
fn format_shows_local_clock_with_milliseconds() {
    let event = MonitorEvent::ActorKilled {
        actor_id: "0.9".to_string(),
        actor_name: Some("w".to_string()),
        timestamp: Timestamp { unix_secs: 1_704_112_496, nanos: 789_000_000, offset_secs: 3600 },
    };
    assert!(event.format().contains("[13:34:56.789]"));
}

#[test]
fn monitor_messages_keep_newest_history_in_order() {
    let mut state = MonitorState::new(true);
    state.monitor("a".to_string(), Some("0.1".to_string()), Timestamp::now());
    state.monitor("b".to_string(), Some("0.2".to_string()), Timestamp::now());
    state.unmonitor("a");
    for i in 0..120 {
        state.record(MonitorEvent::ActorKilled {
            actor_id: format!("k{}", i),
            actor_name: None,
            timestamp: Timestamp::now(),
        });
    }
    assert_eq!(state.monitored_names(), vec!["b".to_string()]);
    assert_eq!(state.event_history.len(), 100);
    match &state.event_history[0] {
        MonitorEvent::ActorKilled { actor_id, .. } => assert_eq!(actor_id, "k20"),
        other => panic!("unexpected {:?}", other),
    }
    state.clear_all();
    assert!(state.monitored_names().is_empty());
    assert_eq!(state.event_history.len(), 100);
}
