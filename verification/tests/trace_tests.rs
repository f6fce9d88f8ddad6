use ractor_shell::protocol::SerializableTraceEvent;
use ractor_shell::time::{receive_timestamp, Timestamp};
use ractor_shell::trace::{actor_label, remote_event_visible, MinLevel};

fn ev(level: &str, name: Option<&str>, id: Option<&str>) -> SerializableTraceEvent {
    SerializableTraceEvent {
        timestamp: "2024-01-01T00:00:00Z".to_string(),
        actor_id: id.map(String::from),
        actor_name: name.map(String::from),
        event_type: "EVENT".to_string(),
        level: level.to_string(),
        target: "t".to_string(),
        message: "m".to_string(),
        fields: vec![],
    }
}

#[test]
fn min_level_names_parse_in_any_case() {
    assert_eq!(MinLevel::parse_name("INFO"), Some(MinLevel::Info));
    assert_eq!(MinLevel::parse_name("warn"), Some(MinLevel::Warn));
    assert_eq!(MinLevel::parse_name("Error"), Some(MinLevel::Error));
    assert_eq!(MinLevel::parse_name("verbose"), None);
    assert_eq!(MinLevel::Debug.name(), "DEBUG");
}

#[test]
fn remote_events_below_the_minimum_are_hidden() {
    assert!(!remote_event_visible(&ev("DEBUG", None, None), MinLevel::Info));
    assert!(remote_event_visible(&ev("ERROR", None, None), MinLevel::Info));
    assert!(remote_event_visible(&ev("weird", None, None), MinLevel::Error));
}

#[test]
fn actor_labels_show_name_and_id() {
    assert_eq!(actor_label(&ev("INFO", Some("w"), Some("0.3"))), "w(0.3)");
    assert_eq!(actor_label(&ev("INFO", Some("w"), None)), "w(?)");
    assert_eq!(actor_label(&ev("INFO", None, Some("0.3"))), "0.3");
    assert_eq!(actor_label(&ev("INFO", None, None)), "?");
}

#[test]
fn timestamps_are_written_and_read_back() {
    let t = Timestamp { unix_secs: 1_704_067_200, nanos: 500_000_000, offset_secs: 3600 };
    assert!(t.is_valid());
    assert_eq!(t.to_rfc3339(), "2024-01-01T01:00:00.500+01:00");
    let back = receive_timestamp(&t.to_rfc3339());
    assert_eq!(back.unix_secs, 1_704_067_200);
    assert_eq!(back.nanos, 500_000_000);
    assert!(!Timestamp { unix_secs: 0, nanos: 1_500_000_000, offset_secs: 0 }.is_valid());
    assert!(Timestamp { unix_secs: -1, nanos: 1_500_000_000, offset_secs: 0 }.is_valid());
}
