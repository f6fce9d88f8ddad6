#![allow(non_snake_case)]

use ractor_shell::config::ShellConfig;
use std::time::Duration;

#[test]
fn ShellConfig___default___returns_none_values() {
    let config = ShellConfig::default();

    assert!(config.rpc_timeout_secs.is_none());
    assert!(config.node_server_port.is_none());
    assert!(config.cluster_cookie.is_none());
    assert!(config.auto_connect.is_none());
}

#[test]
fn ShellConfig___rpc_timeout___uses_default_when_not_set() {
    let config = ShellConfig::default();

    let timeout = config.rpc_timeout();

    assert_eq!(timeout, Duration::from_secs(5));
}

#[test]
fn ShellConfig___rpc_timeout___uses_configured_value() {
    let config = ShellConfig {
        rpc_timeout_secs: Some(10),
        ..Default::default()
    };

    let timeout = config.rpc_timeout();

    assert_eq!(timeout, Duration::from_secs(10));
}

#[test]
fn ShellConfig___get_node_server_port___uses_default_when_not_set() {
    let config = ShellConfig::default();

    let port = config.get_node_server_port();

    assert_eq!(port, 9100); // Default port for local NodeServer
}

#[test]
fn ShellConfig___get_node_server_port___uses_configured_value() {
    let config = ShellConfig {
        node_server_port: Some(8080),
        ..Default::default()
    };

    let port = config.get_node_server_port();

    assert_eq!(port, 8080);
}

#[test]
fn ShellConfig___get_cluster_cookie___uses_default_when_not_set() {
    let config = ShellConfig::default();

    let cookie = config.get_cluster_cookie();

    assert_eq!(cookie, "secret_cookie"); // Default cluster cookie
}

#[test]
fn ShellConfig___get_cluster_cookie___uses_configured_value() {
    let config = ShellConfig {
        cluster_cookie: Some("my_cookie".to_string()),
        ..Default::default()
    };

    let cookie = config.get_cluster_cookie();

    assert_eq!(cookie, "my_cookie");
}

#[test]
fn ShellConfig___get_max_history___uses_default_when_not_set() {
    let config = ShellConfig::default();

    let max = config.get_max_history();

    assert_eq!(max, 1000);
}

#[test]
fn ShellConfig___parse_toml___parses_valid_config() {
    let toml_content = r#"
        rpc_timeout_secs = 15
        node_server_port = 9200
        cluster_cookie = "test_cookie"
        auto_connect = "localhost:9000"
        max_history = 500
    "#;

    let config: ShellConfig = parse_config(toml_content).unwrap();

    assert_eq!(config.rpc_timeout_secs, Some(15));
    assert_eq!(config.node_server_port, Some(9200));
    assert_eq!(config.cluster_cookie, Some("test_cookie".to_string()));
    assert_eq!(config.auto_connect, Some("localhost:9000".to_string()));
    assert_eq!(config.max_history, Some(500));
}

#[test]
fn ShellConfig___parse_toml___handles_partial_config() {
    let toml_content = r#"
        rpc_timeout_secs = 20
    "#;

    let config: ShellConfig = parse_config(toml_content).unwrap();

    assert_eq!(config.rpc_timeout_secs, Some(20));
    assert!(config.node_server_port.is_none());
    assert!(config.cluster_cookie.is_none());
}

#[test]
fn ShellConfig___sample_config___is_valid_toml() {
    let sample = ShellConfig::sample_config();

    let result = parse_config(sample);

    assert!(result.is_ok(), "Sample config should be valid TOML");
}

/// Reads a configuration from TOML text into the library's type.
fn parse_config(text: &str) -> Result<ShellConfig, toml::de::Error> {
    let table: toml::Table = toml::from_str(text)?;
    let text_of = |key: &str| table.get(key).and_then(|v| v.as_str()).map(|s| s.to_string());
    let int_of = |key: &str| table.get(key).and_then(|v| v.as_integer());
    Ok(ShellConfig {
        rpc_timeout_secs: int_of("rpc_timeout_secs").map(|v| v as u64),
        node_server_port: int_of("node_server_port").map(|v| v as u16),
        cluster_cookie: text_of("cluster_cookie"),
        auto_connect: text_of("auto_connect"),
        history_file: text_of("history_file"),
        max_history: int_of("max_history").map(|v| v as usize),
        color: text_of("color"),
    })
}
