use ractor_shell::schema::{
    build_schema_json, get_field_key, replace, type_to_string, VariantFields, VariantInfo,
};

#[test]
fn field_keys_use_names_then_indices() {
    let names = Some(vec!["key".to_string()]);
    assert_eq!(get_field_key(0, &names), "key");
    assert_eq!(get_field_key(1, &names), "1");
    assert_eq!(get_field_key(12, &None), "12");
}

#[test]
fn type_text_drops_spaces_and_crate_prefixes() {
    assert_eq!(type_to_string("Vec < crate :: Foo >"), "Vec<Foo>");
    assert_eq!(type_to_string("ractor :: RpcReplyPort < u64 >"), "RpcReplyPort<u64>");
    assert_eq!(replace("aXbXc", "X", "--"), "a--b--c");
    assert_eq!(replace("aaa", "aa", "b"), "ba");
}

#[test]
fn schema_lists_variants_fields_and_replies() {
    let variants = vec![
        VariantInfo {
            name: "Ping".to_string(),
            is_rpc: false,
            fields: VariantFields::Unit,
            field_names: None,
            reply_type: None,
        },
        VariantInfo {
            name: "Get".to_string(),
            is_rpc: true,
            fields: VariantFields::Unnamed(vec!["String".to_string(), "RpcReplyPort < u64 >".to_string()]),
            field_names: Some(vec!["key".to_string()]),
            reply_type: Some("u64".to_string()),
        },
        VariantInfo {
            name: "Set".to_string(),
            is_rpc: false,
            fields: VariantFields::Named(vec![("value".to_string(), "crate :: Value".to_string())]),
            field_names: None,
            reply_type: None,
        },
    ];
    assert_eq!(
        build_schema_json(&variants).unwrap(),
        r#"{"variants":{"Ping":{"fields":{},"rpc":false},"Get":{"fields":{"key":"String"},"rpc":true,"reply_type":"u64"},"Set":{"fields":{"value":"Value"},"rpc":false}}}"#
    );
}

#[test]
fn schema_rejects_mismatched_field_names() {
    let variants = vec![VariantInfo {
        name: "Get".to_string(),
        is_rpc: true,
        fields: VariantFields::Unnamed(vec!["String".to_string(), "RpcReplyPort<u64>".to_string()]),
        field_names: Some(vec!["a".to_string(), "b".to_string()]),
        reply_type: Some("u64".to_string()),
    }];
    assert_eq!(
        build_schema_json(&variants).unwrap_err(),
        "#[fields(...)] has 2 names but variant 'Get' has 1 fields (excluding RpcReplyPort)"
    );
}
