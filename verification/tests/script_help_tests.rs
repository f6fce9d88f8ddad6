use ractor_shell::help::{help_topic, HelpTopic};
use ractor_shell::script::script_commands;

#[test]
fn script_skips_blank_lines_and_comments() {
    let content = "# setup\n  actors  \n\n\tpg list\r\n   # indented comment\ninfo ping";
    assert_eq!(
        script_commands(content),
        vec!["actors".to_string(), "pg list".to_string(), "info ping".to_string()]
    );
}

#[test]
fn empty_script_has_no_commands() {
    assert!(script_commands("").is_empty());
    assert!(script_commands("\n\n   \n").is_empty());
}

#[test]
fn help_topics_accept_alternative_spellings() {
    assert_eq!(help_topic("send-file"), Some(HelpTopic::SendFile));
    assert_eq!(help_topic("sendfile"), Some(HelpTopic::SendFile));
    assert_eq!(help_topic("tracefile"), Some(HelpTopic::TraceToFile));
    assert_eq!(help_topic("trace-remote"), Some(HelpTopic::TraceRemote));
    assert_eq!(help_topic("ping"), Some(HelpTopic::Ping));
    assert_eq!(help_topic("frobnicate"), None);
}
