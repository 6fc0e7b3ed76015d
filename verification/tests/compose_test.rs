use ucp_schema::{
    compose_from_payload, compose_schema, detect_direction, extract_capabilities,
    extract_url_path, load_schema_str, parse_capabilities_object, reaches_root, Capability,
    ComposeError, DetectedDirection, DocStore, Json, SchemaBaseConfig,
};

fn parse(s: &str) -> Json {
    load_schema_str(s).unwrap()
}

fn cap(name: &str, schema_url: &str, extends: Option<Vec<&str>>) -> Capability {
    Capability {
        name: name.to_string(),
        version: "2026-01-11".to_string(),
        schema_url: schema_url.to_string(),
        extends: extends.map(|ps| ps.into_iter().map(|p| p.to_string()).collect()),
    }
}

#[test]
fn detect_direction_response() {
    let payload = parse(
        r##"{
        "ucp": {
            "capabilities": {
                "dev.ucp.shopping.checkout": [{"version": "2026-01-11", "schema": "..."}]
            }
        }
    }"##,
    );
    assert_eq!(detect_direction(&payload), Some(DetectedDirection::Response));
}

#[test]
fn detect_direction_request() {
    let payload = parse(
        r##"{
        "ucp": {
            "meta": {
                "profile": "https://example.com/.well-known/ucp"
            }
        }
    }"##,
    );
    assert_eq!(detect_direction(&payload), Some(DetectedDirection::Request));
}

#[test]
fn detect_direction_neither() {
    let payload = parse(r##"{"ucp": {"version": "2026-01-11"}}"##);
    assert_eq!(detect_direction(&payload), None);
}

#[test]
fn detect_direction_no_ucp() {
    let payload = parse(r##"{"id": "123", "status": "incomplete"}"##);
    assert_eq!(detect_direction(&payload), None);
}

#[test]
fn parse_capabilities_single_root() {
    let caps = parse(
        r##"{
        "dev.ucp.shopping.checkout": [{
            "version": "2026-01-11",
            "schema": "https://ucp.dev/schemas/shopping/checkout.json"
        }]
    }"##,
    );
    let result = parse_capabilities_object(&caps).unwrap();
    assert_eq!(result.len(), 1);
    assert_eq!(result[0].name, "dev.ucp.shopping.checkout");
    assert_eq!(result[0].version, "2026-01-11");
    assert!(result[0].extends.is_none());
}

#[test]
fn parse_capabilities_with_extension() {
    let caps = parse(
        r##"{
        "dev.ucp.shopping.checkout": [{
            "version": "2026-01-11",
            "schema": "https://ucp.dev/schemas/shopping/checkout.json"
        }],
        "dev.ucp.shopping.discount": [{
            "version": "2026-01-11",
            "schema": "https://ucp.dev/schemas/shopping/discount.json",
            "extends": "dev.ucp.shopping.checkout"
        }]
    }"##,
    );
    let result = parse_capabilities_object(&caps).unwrap();
    assert_eq!(result.len(), 2);

    let discount = result.iter().find(|c| c.name == "dev.ucp.shopping.discount").unwrap();
    assert_eq!(discount.extends, Some(vec!["dev.ucp.shopping.checkout".to_string()]));
}

#[test]
fn parse_capabilities_multi_parent() {
    let caps = parse(
        r##"{
        "dev.ucp.shopping.checkout": [{
            "version": "2026-01-11",
            "schema": "https://ucp.dev/schemas/shopping/checkout.json"
        }],
        "dev.ucp.shopping.discount": [{
            "version": "2026-01-11",
            "schema": "https://ucp.dev/schemas/shopping/discount.json",
            "extends": "dev.ucp.shopping.checkout"
        }],
        "dev.ucp.shopping.fulfillment": [{
            "version": "2026-01-11",
            "schema": "https://ucp.dev/schemas/shopping/fulfillment.json",
            "extends": "dev.ucp.shopping.checkout"
        }],
        "dev.ucp.shopping.combo": [{
            "version": "2026-01-11",
            "schema": "https://ucp.dev/schemas/shopping/combo.json",
            "extends": ["dev.ucp.shopping.discount", "dev.ucp.shopping.fulfillment"]
        }]
    }"##,
    );
    let result = parse_capabilities_object(&caps).unwrap();
    assert_eq!(result.len(), 4);

    let combo = result.iter().find(|c| c.name == "dev.ucp.shopping.combo").unwrap();
    assert_eq!(
        combo.extends,
        Some(vec![
            "dev.ucp.shopping.discount".to_string(),
            "dev.ucp.shopping.fulfillment".to_string(),
        ])
    );
}

#[test]
fn parse_capabilities_empty() {
    let caps = parse("{}");
    let result = parse_capabilities_object(&caps);
    assert!(matches!(result, Err(ComposeError::EmptyCapabilities)));
}

#[test]
fn extract_url_path_https() {
    let path = extract_url_path("https://ucp.dev/schemas/shopping/checkout.json").unwrap();
    assert_eq!(path, "/schemas/shopping/checkout.json");
}

#[test]
fn extract_url_path_http() {
    let path = extract_url_path("http://localhost:8080/schemas/test.json").unwrap();
    assert_eq!(path, "/schemas/test.json");
}

#[test]
fn extract_url_path_local() {
    let path = extract_url_path("./schemas/checkout.json").unwrap();
    assert_eq!(path, "./schemas/checkout.json");
}

#[test]
fn compose_no_extensions() {
    let checkout = cap("dev.ucp.shopping.checkout", "checkout.json", None);
    let config = SchemaBaseConfig { local_base: Some("/nonexistent"), remote_base: None };
    let store = DocStore::new();
    let result = compose_schema(&vec![checkout], &config, &store);
    assert!(matches!(result, Err(ComposeError::SchemaFetch { .. })));
}

#[test]
fn compose_no_root_error() {
    let discount = cap(
        "dev.ucp.shopping.discount",
        "discount.json",
        Some(vec!["dev.ucp.shopping.checkout"]),
    );
    let config = SchemaBaseConfig::default();
    let store = DocStore::new();
    let result = compose_schema(&vec![discount], &config, &store);
    assert!(matches!(result, Err(ComposeError::NoRootCapability)));
}

#[test]
fn compose_multiple_roots_error() {
    let checkout = cap("dev.ucp.shopping.checkout", "checkout.json", None);
    let fulfillment = cap("dev.ucp.shopping.fulfillment", "fulfillment.json", None);
    let config = SchemaBaseConfig::default();
    let store = DocStore::new();
    let result = compose_schema(&vec![checkout, fulfillment], &config, &store);
    assert!(matches!(result, Err(ComposeError::MultipleRootCapabilities { .. })));
}

#[test]
fn compose_unknown_parent_error() {
    let checkout = cap("dev.ucp.shopping.checkout", "checkout.json", None);
    let discount = cap(
        "dev.ucp.shopping.discount",
        "discount.json",
        Some(vec!["dev.ucp.shopping.nonexistent"]),
    );
    let config = SchemaBaseConfig::default();
    let store = DocStore::new();
    let result = compose_schema(&vec![checkout, discount], &config, &store);
    assert!(matches!(result, Err(ComposeError::UnknownParent { .. })));
}

#[test]
fn reaches_root_direct() {
    let checkout = cap("dev.ucp.shopping.checkout", "checkout.json", None);
    let discount = cap(
        "dev.ucp.shopping.discount",
        "discount.json",
        Some(vec!["dev.ucp.shopping.checkout"]),
    );
    let caps = vec![checkout, discount];
    assert!(reaches_root(&caps[1], &caps, "dev.ucp.shopping.checkout"));
}

#[test]
fn reaches_root_transitive_diamond() {
    let checkout = cap("dev.ucp.shopping.checkout", "checkout.json", None);
    let discount = cap(
        "dev.ucp.shopping.discount",
        "discount.json",
        Some(vec!["dev.ucp.shopping.checkout"]),
    );
    let fulfillment = cap(
        "dev.ucp.shopping.fulfillment",
        "fulfillment.json",
        Some(vec!["dev.ucp.shopping.checkout"]),
    );
    let combo = cap(
        "dev.ucp.shopping.combo",
        "combo.json",
        Some(vec!["dev.ucp.shopping.discount", "dev.ucp.shopping.fulfillment"]),
    );
    let caps = vec![checkout, discount, fulfillment, combo];

    assert!(reaches_root(&caps[3], &caps, "dev.ucp.shopping.checkout"));
    assert!(reaches_root(&caps[1], &caps, "dev.ucp.shopping.checkout"));
    assert!(reaches_root(&caps[2], &caps, "dev.ucp.shopping.checkout"));
}

#[test]
fn reaches_root_orphan() {
    let checkout = cap("dev.ucp.shopping.checkout", "checkout.json", None);
    let discount = cap(
        "dev.ucp.shopping.discount",
        "discount.json",
        Some(vec!["dev.ucp.shopping.nonexistent"]),
    );
    let caps = vec![checkout, discount];
    assert!(!reaches_root(&caps[1], &caps, "dev.ucp.shopping.checkout"));
}

#[test]
fn compose_with_extension_builds_all_of() {
    let root = cap("dev.ucp.shopping.checkout", "https://ucp.dev/draft/checkout.json", None);
    let discount = cap(
        "dev.ucp.shopping.discount",
        "https://ucp.dev/draft/discount.json",
        Some(vec!["dev.ucp.shopping.checkout"]),
    );
    let mut store = DocStore::new();
    store.insert(
        "site/checkout.json".to_string(),
        parse(r##"{"type": "object", "properties": {"id": {"type": "string"}}}"##),
    );
    store.insert(
        "site/discount.json".to_string(),
        parse(
            r##"{
            "$defs": {
                "dev.ucp.shopping.checkout": {
                    "type": "object",
                    "properties": {
                        "discount": {"$ref": "#/$defs/amount"}
                    }
                },
                "amount": {"type": "number"}
            }
        }"##,
        ),
    );
    let config =
        SchemaBaseConfig { local_base: Some("site"), remote_base: Some("https://ucp.dev/draft") };
    let out = compose_schema(&vec![root, discount], &config, &store).unwrap();
    let branches = match out.get("allOf") {
        Some(Json::Arr(items)) => items,
        other => panic!("expected allOf array, got {:?}", other),
    };
    assert_eq!(branches.len(), 1);
    let discount_prop = branches[0]
        .get("properties")
        .unwrap()
        .get("discount")
        .unwrap();
    assert_eq!(discount_prop.get("type"), Some(&Json::Str("number".to_string())));
}

#[test]
fn compose_missing_def_entry() {
    let root = cap("dev.ucp.shopping.checkout", "https://ucp.dev/draft/checkout.json", None);
    let discount = cap(
        "dev.ucp.shopping.discount",
        "https://ucp.dev/draft/discount.json",
        Some(vec!["dev.ucp.shopping.checkout"]),
    );
    let mut store = DocStore::new();
    store.insert("site/checkout.json".to_string(), parse(r##"{"type": "object"}"##));
    store.insert("site/discount.json".to_string(), parse(r##"{"$defs": {}}"##));
    let config =
        SchemaBaseConfig { local_base: Some("site"), remote_base: Some("https://ucp.dev/draft") };
    let result = compose_schema(&vec![root, discount], &config, &store);
    assert!(matches!(result, Err(ComposeError::MissingDefEntry { .. })));
}

#[test]
fn extract_capabilities_response_pattern() {
    let payload = parse(
        r##"{
        "ucp": {
            "capabilities": {
                "dev.ucp.shopping.checkout": [{
                    "version": "2026-01-11",
                    "schema": "checkout.json"
                }]
            }
        }
    }"##,
    );
    let config = SchemaBaseConfig::default();
    let store = DocStore::new();
    let caps = extract_capabilities(&payload, &config, &store).unwrap();
    assert_eq!(caps.len(), 1);
    assert_eq!(caps[0].schema_url, "checkout.json");
}

#[test]
fn extract_capabilities_not_self_describing() {
    let payload = parse(r##"{"id": "x"}"##);
    let config = SchemaBaseConfig::default();
    let store = DocStore::new();
    let result = extract_capabilities(&payload, &config, &store);
    assert!(matches!(result, Err(ComposeError::NotSelfDescribing)));
}

#[test]
fn compose_from_payload_root_only() {
    let payload = parse(
        r##"{
        "ucp": {
            "capabilities": {
                "dev.ucp.shopping.checkout": [{
                    "version": "2026-01-11",
                    "schema": "https://ucp.dev/draft/checkout.json"
                }]
            }
        }
    }"##,
    );
    let mut store = DocStore::new();
    store.insert(
        "site/checkout.json".to_string(),
        parse(r##"{"type": "object", "properties": {"id": {"type": "string"}}}"##),
    );
    let config =
        SchemaBaseConfig { local_base: Some("site"), remote_base: Some("https://ucp.dev/draft") };
    let out = compose_from_payload(&payload, &config, &store).unwrap();
    assert_eq!(out.get("type"), Some(&Json::Str("object".to_string())));
}

#[test]
fn compose_orphan_extension_error() {
    let checkout = cap("dev.ucp.shopping.checkout", "checkout.json", None);
    let a = cap("dev.ucp.shopping.a", "a.json", Some(vec!["dev.ucp.shopping.b"]));
    let b = cap("dev.ucp.shopping.b", "b.json", Some(vec!["dev.ucp.shopping.a"]));
    let config = SchemaBaseConfig::default();
    let store = DocStore::new();
    let result = compose_schema(&vec![checkout, a, b], &config, &store);
    assert!(matches!(result, Err(ComposeError::OrphanExtension { .. })));
}

#[test]
fn parse_capabilities_non_array_entry() {
    let caps = parse(r##"{"dev.ucp.shopping.checkout": {"version": "2026-01-11"}}"##);
    let result = parse_capabilities_object(&caps);
    assert!(matches!(
        result,
        Err(ComposeError::InvalidCapability { message, .. })
            if message == "expected array of capability entries"
    ));
}

#[test]
fn parse_capabilities_missing_version() {
    let caps = parse(r##"{"dev.ucp.shopping.checkout": [{"schema": "x.json"}]}"##);
    let result = parse_capabilities_object(&caps);
    assert!(matches!(
        result,
        Err(ComposeError::InvalidCapability { message, .. }) if message == "missing version field"
    ));
}

#[test]
fn parse_capabilities_bad_extends_item() {
    let caps = parse(
        r##"{
        "dev.ucp.shopping.discount": [{
            "version": "2026-01-11",
            "schema": "x.json",
            "extends": ["dev.ucp.shopping.checkout", 7]
        }]
    }"##,
    );
    let result = parse_capabilities_object(&caps);
    assert!(matches!(
        result,
        Err(ComposeError::InvalidCapability { message, .. })
            if message == "extends array must contain strings"
    ));
}

#[test]
fn extract_capabilities_profile_from_store() {
    let payload = parse(
        r##"{
        "ucp": {
            "meta": {
                "profile": "profiles/agent.json"
            }
        }
    }"##,
    );
    let mut store = DocStore::new();
    store.insert(
        "site/profiles/agent.json".to_string(),
        parse(
            r##"{
            "ucp": {
                "capabilities": {
                    "dev.ucp.shopping.checkout": [{
                        "version": "2026-01-11",
                        "schema": "checkout.json"
                    }]
                }
            }
        }"##,
        ),
    );
    let config = SchemaBaseConfig { local_base: Some("site"), remote_base: None };
    let caps = extract_capabilities(&payload, &config, &store).unwrap();
    assert_eq!(caps.len(), 1);
    assert_eq!(caps[0].name, "dev.ucp.shopping.checkout");
}

#[test]
fn extract_capabilities_profile_missing_capabilities() {
    let payload = parse(
        r##"{
        "ucp": {
            "meta": {
                "profile": "profiles/agent.json"
            }
        }
    }"##,
    );
    let mut store = DocStore::new();
    store.insert("site/profiles/agent.json".to_string(), parse(r##"{"ucp": {}}"##));
    let config = SchemaBaseConfig { local_base: Some("site"), remote_base: None };
    let result = extract_capabilities(&payload, &config, &store);
    assert!(matches!(result, Err(ComposeError::ProfileFetch { .. })));
}

#[test]
fn extract_capabilities_non_object_capabilities() {
    let payload = parse(r##"{"ucp": {"capabilities": "yes"}}"##);
    let config = SchemaBaseConfig::default();
    let store = DocStore::new();
    let result = extract_capabilities(&payload, &config, &store);
    assert!(matches!(result, Err(ComposeError::NotSelfDescribing)));
}

#[test]
fn detect_direction_non_object_capabilities() {
    let payload = parse(r##"{"ucp": {"capabilities": "yes"}}"##);
    assert_eq!(detect_direction(&payload), None);
}

#[test]
fn detect_direction_non_string_profile() {
    let payload = parse(r##"{"ucp": {"meta": {"profile": 7}}}"##);
    assert_eq!(detect_direction(&payload), None);
}
