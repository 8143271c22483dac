use apcore_cli::json::{to_json_text, Json, JsonNumber};
use apcore_cli::ref_resolver::{resolve_refs, RefResolverError};

fn to_json(v: &serde_json::Value) -> Json {
    match v {
        serde_json::Value::Null => Json::Null,
        serde_json::Value::Bool(b) => Json::Bool(*b),
        serde_json::Value::Number(n) => {
            if let Some(u) = n.as_u64() {
                Json::Number(JsonNumber::PosInt(u))
            } else if let Some(i) = n.as_i64() {
                Json::Number(JsonNumber::NegInt(i))
            } else {
                Json::Number(JsonNumber::Float(n.to_string()))
            }
        }
        serde_json::Value::String(s) => Json::Str(s.clone()),
        serde_json::Value::Array(a) => Json::Array(a.iter().map(to_json).collect()),
        serde_json::Value::Object(o) => {
            Json::Object(o.iter().map(|(k, v)| (k.clone(), to_json(v))).collect())
        }
    }
}

fn j(text: &str) -> Json {
    to_json(&serde_json::from_str::<serde_json::Value>(text).unwrap())
}

#[test]
fn refs_are_inlined_and_defs_dropped() {
    let s = j(r##"{"$defs": {"N": {"type": "integer"}}, "properties": {"n": {"$ref": "#/$defs/N"}}}"##);
    let r = resolve_refs(&s, 32, "m").unwrap();
    assert_eq!(to_json_text(&r), r#"{"properties":{"n":{"type":"integer"}}}"#);
}

#[test]
fn missing_and_circular_refs_fail() {
    let missing = j(r##"{"properties": {"n": {"$ref": "#/$defs/X"}}}"##);
    match resolve_refs(&missing, 32, "m") {
        Err(e @ RefResolverError::Unresolvable { .. }) => {
            assert_eq!(e.message(), "unresolvable $ref '#/$defs/X' in module 'm' (exit 45)")
        }
        other => panic!("unexpected {other:?}"),
    }
    let circ = j(r##"{"$defs": {"A": {"$ref": "#/$defs/A"}}, "properties": {"a": {"$ref": "#/$defs/A"}}}"##);
    assert!(resolve_refs(&circ, 32, "m").is_err());
}

#[test]
fn schema_without_refs_is_unchanged() {
    let s = j(r#"{"type": "object", "properties": {"a": {"type": "string"}}, "required": ["a"]}"#);
    let r = resolve_refs(&s, 32, "m").unwrap();
    assert_eq!(to_json_text(&r), to_json_text(&s));
}

fn from_json(v: &Json) -> serde_json::Value {
    match v {
        Json::Null => serde_json::Value::Null,
        Json::Bool(b) => serde_json::Value::Bool(*b),
        Json::Number(JsonNumber::PosInt(u)) => serde_json::Value::from(*u),
        Json::Number(JsonNumber::NegInt(i)) => serde_json::Value::from(*i),
        Json::Number(JsonNumber::Float(t)) => serde_json::from_str(t).unwrap(),
        Json::Str(s) => serde_json::Value::String(s.clone()),
        Json::Array(a) => serde_json::Value::Array(a.iter().map(from_json).collect()),
        Json::Object(o) => serde_json::Value::Object(
            o.iter().map(|(k, v)| (k.clone(), from_json(v))).collect(),
        ),
        Json::Tagged(_, b) => from_json(b),
    }
}

fn resolved(text: &str, depth: usize, module: &str) -> Result<serde_json::Value, RefResolverError> {
    resolve_refs(&j(text), depth, module).map(|v| from_json(&v))
}

fn required_names(v: &serde_json::Value) -> Vec<String> {
    v["required"]
        .as_array()
        .unwrap()
        .iter()
        .filter_map(|x| x.as_str().map(str::to_string))
        .collect()
}

#[test]
fn test_resolve_refs_no_refs_unchanged() {
    let result = resolved(r#"{"type": "object", "properties": {"name": {"type": "string"}}}"#, 32, "test.module");
    assert!(result.is_ok());
    assert_eq!(result.unwrap()["properties"]["name"]["type"], "string");
}

#[test]
fn test_resolve_refs_simple_ref() {
    let result = resolved(
        r##"{"$defs": {"MyString": {"type": "string", "description": "A name"}}, "type": "object", "properties": {"name": {"$ref": "#/$defs/MyString"}}}"##,
        32,
        "test.module",
    );
    assert!(result.is_ok());
    let r = result.unwrap();
    assert_eq!(r["properties"]["name"]["type"], "string");
    assert_eq!(r["properties"]["name"]["description"], "A name");
    assert!(r.get("$defs").is_none());
}

#[test]
fn test_resolve_refs_definitions_key_also_supported() {
    let result = resolved(
        r##"{"definitions": {"Addr": {"type": "string"}}, "properties": {"city": {"$ref": "#/definitions/Addr"}}}"##,
        32,
        "test.module",
    );
    assert!(result.is_ok());
    let r = result.unwrap();
    assert_eq!(r["properties"]["city"]["type"], "string");
    assert!(r.get("definitions").is_none());
}

#[test]
fn test_resolve_refs_unresolvable_returns_error() {
    let result = resolve_refs(
        &j(r##"{"type": "object", "properties": {"x": {"$ref": "#/$defs/DoesNotExist"}}}"##),
        32,
        "test.module",
    );
    assert!(
        matches!(result, Err(RefResolverError::Unresolvable { .. })),
        "expected Unresolvable, got: {result:?}"
    );
}

#[test]
fn test_resolve_refs_circular_returns_error() {
    let result = resolve_refs(
        &j(r##"{"$defs": {"A": {"$ref": "#/$defs/B"}, "B": {"$ref": "#/$defs/A"}}, "properties": {"x": {"$ref": "#/$defs/A"}}}"##),
        32,
        "test.module",
    );
    assert!(
        matches!(
            result,
            Err(RefResolverError::Circular { .. }) | Err(RefResolverError::MaxDepthExceeded { .. })
        ),
        "expected Circular or MaxDepthExceeded, got: {result:?}"
    );
}

#[test]
fn test_resolve_refs_max_depth_exceeded() {
    let result = resolve_refs(
        &j(r##"{"$defs": {"Inner": {"type": "string"}}, "properties": {"x": {"$ref": "#/$defs/Inner"}}}"##),
        0,
        "test.module",
    );
    assert!(
        matches!(result, Err(RefResolverError::MaxDepthExceeded { .. })),
        "expected MaxDepthExceeded, got: {result:?}"
    );
}

#[test]
fn test_resolve_refs_nested_defs() {
    let result = resolved(
        r##"{"$defs": {"City": {"type": "string"}}, "properties": {"address": {"type": "object", "properties": {"city": {"$ref": "#/$defs/City"}}}}}"##,
        32,
        "test.module",
    );
    assert!(result.is_ok());
    assert_eq!(result.unwrap()["properties"]["address"]["properties"]["city"]["type"], "string");
}

#[test]
fn test_resolve_refs_does_not_mutate_input() {
    let schema = j(r##"{"$defs": {"T": {"type": "integer"}}, "properties": {"x": {"$ref": "#/$defs/T"}}}"##);
    let _ = resolve_refs(&schema, 32, "test.module");
    assert_eq!(from_json(&schema)["properties"]["x"]["$ref"], "#/$defs/T");
}

#[test]
fn test_resolve_refs_sibling_refs_same_def() {
    let result = resolved(
        r##"{"$defs": {"Str": {"type": "string"}}, "properties": {"a": {"$ref": "#/$defs/Str"}, "b": {"$ref": "#/$defs/Str"}}}"##,
        32,
        "test.module",
    );
    assert!(result.is_ok(), "sibling refs failed: {result:?}");
    let r = result.unwrap();
    assert_eq!(r["properties"]["a"]["type"], "string");
    assert_eq!(r["properties"]["b"]["type"], "string");
}

#[test]
fn test_allof_merges_properties() {
    let r = resolved(
        r#"{"allOf": [{"properties": {"a": {"type": "string"}}, "required": ["a"]}, {"properties": {"b": {"type": "integer"}}, "required": ["b"]}]}"#,
        32,
        "mod",
    )
    .unwrap();
    assert_eq!(r["properties"]["a"]["type"], "string");
    assert_eq!(r["properties"]["b"]["type"], "integer");
    let required = required_names(&r);
    assert!(required.contains(&"a".to_string()));
    assert!(required.contains(&"b".to_string()));
}

#[test]
fn test_allof_later_schema_wins_on_conflict() {
    let r = resolved(
        r#"{"allOf": [{"properties": {"x": {"type": "string"}}}, {"properties": {"x": {"type": "integer"}}}]}"#,
        32,
        "mod",
    )
    .unwrap();
    assert_eq!(r["properties"]["x"]["type"], "integer");
}

#[test]
fn test_allof_copies_non_composition_keys() {
    let r = resolved(
        r#"{"description": "My type", "allOf": [{"properties": {"a": {"type": "string"}}}]}"#,
        32,
        "mod",
    )
    .unwrap();
    assert_eq!(r["description"], "My type");
}

#[test]
fn test_anyof_unions_properties() {
    let r = resolved(
        r#"{"anyOf": [{"properties": {"a": {"type": "string"}}, "required": ["a"]}, {"properties": {"b": {"type": "integer"}}, "required": ["b"]}]}"#,
        32,
        "mod",
    )
    .unwrap();
    assert!(r["properties"].get("a").is_some());
    assert!(r["properties"].get("b").is_some());
}

#[test]
fn test_anyof_required_is_intersection() {
    let r = resolved(
        r#"{"anyOf": [{"properties": {"a": {"type": "string"}, "b": {"type": "string"}}, "required": ["a", "b"]}, {"properties": {"a": {"type": "string"}, "c": {"type": "string"}}, "required": ["a", "c"]}]}"#,
        32,
        "mod",
    )
    .unwrap();
    let required = required_names(&r);
    assert!(required.contains(&"a".to_string()), "a must be required (in both branches)");
    assert!(!required.contains(&"b".to_string()), "b must not be required (only in first branch)");
    assert!(!required.contains(&"c".to_string()), "c must not be required (only in second branch)");
}

#[test]
fn test_anyof_empty_required_when_no_overlap() {
    let r = resolved(
        r#"{"anyOf": [{"properties": {"a": {"type": "string"}}, "required": ["a"]}, {"properties": {"b": {"type": "integer"}}, "required": ["b"]}]}"#,
        32,
        "mod",
    )
    .unwrap();
    assert!(r["required"].as_array().unwrap().is_empty(), "no fields are required in both branches");
}

#[test]
fn test_oneof_behaves_like_anyof() {
    let r = resolved(
        r#"{"oneOf": [{"properties": {"x": {"type": "string"}}, "required": ["x"]}, {"properties": {"y": {"type": "integer"}}, "required": ["y"]}]}"#,
        32,
        "mod",
    )
    .unwrap();
    assert!(r["properties"].get("x").is_some());
    assert!(r["properties"].get("y").is_some());
    assert!(r["required"].as_array().unwrap().is_empty());
}

#[test]
fn test_allof_with_nested_ref() {
    let r = resolved(
        r##"{"$defs": {"Base": {"properties": {"id": {"type": "integer"}}, "required": ["id"]}}, "allOf": [{"$ref": "#/$defs/Base"}, {"properties": {"name": {"type": "string"}}}]}"##,
        32,
        "mod",
    )
    .unwrap();
    assert_eq!(r["properties"]["id"]["type"], "integer");
    assert_eq!(r["properties"]["name"]["type"], "string");
    assert!(required_names(&r).contains(&"id".to_string()));
}

#[test]
fn refs_inside_arrays_are_inlined() {
    let s = j(r##"{"$defs": {"N": {"type": "integer"}}, "prefixItems": [{"$ref": "#/$defs/N"}, {"type": "string"}]}"##);
    let r = resolve_refs(&s, 32, "m").unwrap();
    assert_eq!(to_json_text(&r), r#"{"prefixItems":[{"type":"integer"},{"type":"string"}]}"#);
    let bad = j(r##"{"prefixItems": [{"$ref": "#/$defs/X"}]}"##);
    assert!(matches!(resolve_refs(&bad, 32, "m"), Err(RefResolverError::Unresolvable { .. })));
}

#[test]
fn errors_name_the_module_and_the_limit() {
    let chain = j(r##"{"$defs": {"A": {"$ref": "#/$defs/B"}, "B": {"type": "string"}}, "properties": {"a": {"$ref": "#/$defs/A"}}}"##);
    match resolve_refs(&chain, 1, "mod.x") {
        Err(RefResolverError::MaxDepthExceeded { max_depth, module_id }) => {
            assert_eq!(max_depth, 1);
            assert_eq!(module_id, "mod.x");
        }
        other => panic!("unexpected {other:?}"),
    }
    let circ = j(r##"{"$defs": {"A": {"$ref": "#/$defs/A"}}, "properties": {"a": {"$ref": "#/$defs/A"}}}"##);
    match resolve_refs(&circ, 32, "mod.y") {
        Err(e @ RefResolverError::Circular { .. }) => {
            assert_eq!(e.message(), "circular $ref detected in module 'mod.y' (exit 48)")
        }
        other => panic!("unexpected {other:?}"),
    }
}
