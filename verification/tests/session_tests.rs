use ractor_shell::error::ShellErrorOf;
use ractor_shell::session::{local_node_name_for, RemoteTraceSubscription, ShellState};

fn session() -> ShellState<u32> {
    ShellState::with_name("shell@box".to_string(), false)
}

fn sub(node: &str, id: u64) -> RemoteTraceSubscription {
    RemoteTraceSubscription { node: node.to_string(), subscription_id: id, pattern: "*".to_string() }
}

#[test]
fn prompt_shows_the_context() {
    let mut s = session();
    assert_eq!(s.build_prompt(), "ractor@local > ");
    s.record_connection("127.0.0.1:9001".to_string(), 1);
    assert_eq!(s.build_prompt(), "ractor@127.0.0.1:9001 > ");
}

#[test]
fn local_node_name_uses_the_host_name() {
    assert_eq!(local_node_name_for(Some("box".to_string())), "shell@box");
    assert_eq!(local_node_name_for(None), "shell@localhost");
    let s: ShellState<u32> = ShellState::with_options(true);
    assert!(s.local_node_name.starts_with("shell@"));
    assert!(s.quiet);
}

#[test]
fn use_switches_only_to_connected_nodes() {
    let mut s = session();
    s.record_connection("n1".to_string(), 1);
    assert!(s.use_node("local".to_string()).is_ok());
    assert_eq!(s.current_node, None);
    assert!(s.use_node("n1".to_string()).is_ok());
    assert_eq!(s.current_node.as_deref(), Some("n1"));
    match s.use_node("n2".to_string()) {
        Err(ShellErrorOf::NodeNotConnected(n)) => assert_eq!(n, "n2"),
        _ => panic!("expected NodeNotConnected"),
    }
    assert_eq!(s.current_node.as_deref(), Some("n1"));
}

#[test]
fn disconnect_returns_to_local_when_current() {
    let mut s = session();
    s.record_connection("n1".to_string(), 1);
    s.record_connection("n2".to_string(), 2);
    assert_eq!(s.disconnect("n1".to_string()).unwrap(), false);
    assert_eq!(s.current_node.as_deref(), Some("n2"));
    assert_eq!(s.disconnect("n2".to_string()).unwrap(), true);
    assert_eq!(s.current_node, None);
    assert!(matches!(s.disconnect("n2".to_string()), Err(ShellErrorOf::NodeNotConnected(_))));
}

#[test]
fn reconnect_drops_the_stale_connection() {
    let mut s = session();
    s.record_connection("n1".to_string(), 1);
    assert_eq!(s.begin_reconnect("n1"), (true, true));
    assert!(s.connection("n1").is_none());
    assert_eq!(s.begin_reconnect("n1"), (true, false));
    s.record_connection("n1".to_string(), 5);
    assert_eq!(s.connection("n1"), Some(&5));
}

#[test]
fn recording_a_connection_twice_replaces_it() {
    let mut s = session();
    s.record_connection("n1".to_string(), 1);
    s.record_connection("n2".to_string(), 2);
    s.record_connection("n1".to_string(), 3);
    assert_eq!(s.connected_nodes.len(), 2);
    assert_eq!(s.connection("n1"), Some(&3));
    let list = s.node_list();
    assert_eq!(list, vec![("n1".to_string(), true), ("n2".to_string(), false)]);
}

#[test]
fn remote_subscriptions_are_kept_and_dropped() {
    let mut s = session();
    s.add_remote_subscription(sub("n1", 1));
    s.add_remote_subscription(sub("n2", 2));
    s.add_remote_subscription(sub("n1", 3));
    s.drop_remote_subscription(2);
    let ids: Vec<u64> = s.remote_trace_subscriptions.iter().map(|x| x.subscription_id).collect();
    assert_eq!(ids, vec![1, 3]);
    let all = s.take_remote_subscriptions();
    assert_eq!(all.len(), 2);
    assert!(s.remote_trace_subscriptions.is_empty());
}

#[test]
fn exit_marks_the_session() {
    let mut s = session();
    assert!(!s.should_exit);
    s.exit();
    assert!(s.should_exit);
}
