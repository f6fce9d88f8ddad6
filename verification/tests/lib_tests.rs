#![allow(non_snake_case)]

use ractor_shell::should_display_level;
use ractor_shell::trace::MinLevel;

#[test]
fn should_display_level___trace_event_with_trace_min___returns_true() {
    assert!(should_display_level(&MinLevel::Trace, &MinLevel::Trace));
}

#[test]
fn should_display_level___debug_event_with_info_min___returns_false() {
    assert!(!should_display_level(&MinLevel::Debug, &MinLevel::Info));
}

#[test]
fn should_display_level___info_event_with_info_min___returns_true() {
    assert!(should_display_level(&MinLevel::Info, &MinLevel::Info));
}

#[test]
fn should_display_level___warn_event_with_info_min___returns_true() {
    assert!(should_display_level(&MinLevel::Warn, &MinLevel::Info));
}

#[test]
fn should_display_level___error_event_with_error_min___returns_true() {
    assert!(should_display_level(&MinLevel::Error, &MinLevel::Error));
}

#[test]
fn should_display_level___info_event_with_error_min___returns_false() {
    assert!(!should_display_level(&MinLevel::Info, &MinLevel::Error));
}

#[test]
fn rpc_timeout_error_carries_the_default_timeout() {
    match ractor_shell::ShellError::rpc_timeout() {
        ractor_shell::ShellError::RpcTimeout(d) => assert_eq!(d, std::time::Duration::from_secs(5)),
        other => panic!("unexpected error {:?}", other),
    }
}

#[test]
fn messaging_error_carries_ractor_debug_text() {
    let texts = [
        (ractor::MessagingErr::SendErr(5u32), "SendErr"),
        (ractor::MessagingErr::ChannelClosed, "RecvErr"),
        (ractor::MessagingErr::InvalidActorType, "InvalidActorType"),
    ];
    for (err, want) in texts {
        let expected = format!("{:?}", err);
        assert_eq!(expected, want);
        match ractor_shell::ShellError::messaging(err) {
            ractor_shell::ShellError::MessagingError(m) => assert_eq!(m, want),
            other => panic!("unexpected error {:?}", other),
        }
    }
}
