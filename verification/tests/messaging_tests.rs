#![allow(non_snake_case)]

use ractor_shell::error::ShellErrorOf;
use ractor_shell::messaging::{
    looks_like_typed_message, parse_json_input, parse_typed_message, route_call, route_send,
    MessageRoute,
};

fn json(s: &str) -> serde_json::Value {
    serde_json::from_str(s).unwrap()
}

#[test]
fn looks_like_typed_message___variant_with_json___returns_true() {
    assert!(looks_like_typed_message("Ping {}"));
    assert!(looks_like_typed_message("GetStatus {}"));
    assert!(looks_like_typed_message("DoSomething {\"arg\": 1}"));
}

#[test]
fn looks_like_typed_message___plain_json___returns_false() {
    assert!(!looks_like_typed_message(r#"{"command": "ping"}"#));
    assert!(!looks_like_typed_message("123"));
    assert!(!looks_like_typed_message("lowercase {}"));
}

#[test]
fn parse_typed_message___valid_variant_with_empty_object___returns_parts() {
    let result = parse_typed_message("Ping {}");

    assert!(result.is_ok());
    let (variant, args) = result.unwrap();
    assert_eq!(variant, "Ping");
    assert_eq!(args, json("{}"));
}

#[test]
fn parse_typed_message___valid_variant_with_args___returns_parts() {
    let result = parse_typed_message("GetValue {\"key\": \"test\"}");

    assert!(result.is_ok());
    let (variant, args) = result.unwrap();
    assert_eq!(variant, "GetValue");
    assert_eq!(args, json(r#"{"key": "test"}"#));
}

#[test]
fn parse_typed_message___invalid_json_args___returns_error() {
    let result = parse_typed_message("Variant {invalid json}");

    assert!(result.is_err());
}

#[test]
fn parse_typed_message_without_braces_takes_empty_args() {
    let (variant, args) = parse_typed_message("  Ping  ").unwrap();
    assert_eq!(variant, "Ping");
    assert_eq!(args, json("{}"));
}

#[test]
fn parse_typed_message_without_variant_is_an_error() {
    match parse_typed_message("  {\"a\": 1}") {
        Err(ShellErrorOf::ParseError(m)) => {
            assert_eq!(m, "Missing variant name. Use format: VariantName {}")
        }
        _ => panic!("expected a parse error"),
    }
}

#[test]
fn parse_typed_message_invalid_args_message_names_the_format() {
    match parse_typed_message("Variant {nope") {
        Err(ShellErrorOf::ParseError(m)) => {
            assert!(m.starts_with("Invalid JSON args: "));
            assert!(m.ends_with(". Use format: VariantName {}"));
        }
        _ => panic!("expected a parse error"),
    }
}

#[test]
fn looks_like_typed_message_trims_and_needs_a_brace() {
    assert!(looks_like_typed_message("   Ping {}  "));
    assert!(!looks_like_typed_message("Ping"));
    assert!(!looks_like_typed_message(""));
}

#[test]
fn parse_json_input___valid_json_object___returns_ok() {
    let input = r#"{"Ping": ["node_a", 5]}"#;

    let result = parse_json_input(input);

    assert!(result.is_ok());
}

#[test]
fn parse_json_input___valid_json_string___returns_ok() {
    let input = r#""hello""#;

    let result = parse_json_input(input);

    assert!(result.is_ok());
}

#[test]
fn test_parse_json_object() {
    let input = r#"{"Ping": ["node_a", 5]}"#;
    let result = parse_json_input(input);
    assert!(result.is_ok());
}

#[test]
fn test_parse_json_string() {
    let input = r#""hello""#;
    let result = parse_json_input(input);
    assert!(result.is_ok());
}

#[test]
fn parse_json_input_rejects_non_json() {
    let result = parse_json_input("Ping node_a");
    assert_eq!(
        result.unwrap_err(),
        "Invalid JSON. Message must be valid JSON or a simple string."
    );
}

#[test]
fn calls_route_typed_messages_and_json() {
    assert!(matches!(route_call("Ping {}", true, false), MessageRoute::Typed));
    assert!(matches!(route_call("{\"a\":1}", false, true), MessageRoute::Typed));
    assert!(matches!(route_call("Ping {}", false, false), MessageRoute::Invalid(_)));
    assert!(matches!(route_call("{\"a\":1}", false, false), MessageRoute::Local(_)));
    assert!(matches!(route_send("{\"a\":1}", true), MessageRoute::Remote(_)));
    assert!(matches!(route_send("oops", true), MessageRoute::Invalid(_)));
}

#[test]
fn parse_typed_message_error_carries_serde_message() {
    let serde_text = serde_json::from_str::<serde_json::Value>("{bad")
        .unwrap_err()
        .to_string();
    match parse_typed_message("Ping {bad") {
        Err(ShellErrorOf::ParseError(m)) => {
            assert_eq!(m, format!("Invalid JSON args: {}. Use format: VariantName {{}}", serde_text));
        },
        other => panic!("unexpected {:?}", other),
    }
}

#[test]
fn parse_typed_message_returns_the_arguments_value() {
    let (name, value) = parse_typed_message("SetKey {\"key\": \"test\"}").unwrap();
    assert_eq!(name, "SetKey");
    let expected: serde_json::Value = serde_json::from_str("{\"key\": \"test\"}").unwrap();
    assert_eq!(value, expected);
}
