use apcore_cli::json::{Json, JsonNumber};
use apcore_cli::schema_parser::{
    extract_help, map_type, prop_name_to_flag_name, reconvert_enum_values, schema_to_clap_args,
    ArgAction, ArgSpec, SchemaArgs, SchemaParserError, ValueParser,
};

fn to_json(v: &serde_json::Value) -> Json {
    match v {
        serde_json::Value::Null => Json::Null,
        serde_json::Value::Bool(b) => Json::Bool(*b),
        serde_json::Value::Number(n) => {
            if let Some(u) = n.as_u64() {
                Json::Number(JsonNumber::PosInt(u))
            } else if let Some(i) = n.as_i64() {
                Json::Number(JsonNumber::NegInt(i))
            } else {
                Json::Number(JsonNumber::Float(n.to_string()))
            }
        }
        serde_json::Value::String(s) => Json::Str(s.clone()),
        serde_json::Value::Array(a) => Json::Array(a.iter().map(to_json).collect()),
        serde_json::Value::Object(o) => {
            Json::Object(o.iter().map(|(k, v)| (k.clone(), to_json(v))).collect())
        }
    }
}

fn j(text: &str) -> Json {
    to_json(&serde_json::from_str::<serde_json::Value>(text).unwrap())
}

#[test]
fn test_prop_name_to_flag_name() {
    assert_eq!(prop_name_to_flag_name("my_val"), "my-val");
    assert_eq!(prop_name_to_flag_name("simple"), "simple");
    assert_eq!(prop_name_to_flag_name("a_b_c"), "a-b-c");
}

#[test]
fn help_prefers_llm_description_and_truncates() {
    assert_eq!(
        extract_help(&j(r#"{"x-llm-description": "llm", "description": "plain"}"#)).as_deref(),
        Some("llm")
    );
    assert_eq!(
        extract_help(&j(r#"{"x-llm-description": "", "description": "plain"}"#)).as_deref(),
        Some("plain")
    );
    assert_eq!(extract_help(&j(r#"{"type": "string"}"#)), None);
    let long = "x".repeat(250);
    let h = extract_help(&j(&format!(r#"{{"description": "{long}"}}"#))).unwrap();
    assert_eq!(h.len(), 200);
    assert!(h.ends_with("..."));
}

#[test]
fn map_type_value_kinds() {
    let a = map_type("count", &j(r#"{"type": "integer"}"#)).unwrap();
    assert!(matches!(a.value_parser, ValueParser::Integer));
    assert_eq!(a.long, "count");
    let p = map_type("in_file", &j(r#"{"type": "string"}"#)).unwrap();
    assert!(matches!(p.value_parser, ValueParser::Path));
    assert_eq!(p.long, "in-file");
    let n = map_type("ratio", &j(r#"{"type": "number"}"#)).unwrap();
    assert!(matches!(n.value_parser, ValueParser::Number));
}

#[test]
fn schema_args_cover_bools_enums_and_required() {
    let schema = j(r#"{
        "properties": {
            "dry_run": {"type": "boolean", "default": true, "description": "Try"},
            "mode": {"type": "string", "enum": ["a", "b"]},
            "name": {"type": "string"}
        },
        "required": ["mode", "name"]
    }"#);
    let sa = schema_to_clap_args(&schema).unwrap();
    let ids: Vec<&str> = sa.args.iter().map(|a| a.id.as_str()).collect();
    assert_eq!(ids, vec!["dry_run", "no-dry_run", "mode", "name"]);
    assert_eq!(sa.args[0].long, "dry-run");
    assert_eq!(sa.args[0].action, ArgAction::SetTrue);
    assert_eq!(sa.args[1].long, "no-dry-run");
    assert_eq!(sa.args[1].help.as_deref(), Some("Disable --dry-run"));
    assert_eq!(sa.bool_pairs.len(), 1);
    assert!(sa.bool_pairs[0].default_val);
    assert!(!sa.args[2].required);
    assert_eq!(sa.args[2].help.as_deref(), Some("[required]"));
    assert!(sa.args[3].required);
    assert_eq!(sa.enum_maps.len(), 1);
}

#[test]
fn colliding_flags_are_refused() {
    let schema = j(r#"{"properties": {"a_b": {"type": "string"}, "a-b": {"type": "string"}}}"#);
    match schema_to_clap_args(&schema) {
        Err(e @ SchemaParserError::FlagCollision { .. }) => {
            assert_eq!(
                e.message(),
                "Flag name collision: properties 'a-b' and 'a_b' both map to 'a-b'"
            );
        }
        Ok(_) => panic!("expected a collision"),
    }
    assert!(schema_to_clap_args(&j("{}")).unwrap().args.is_empty());
}

#[test]
fn enum_values_regain_their_types() {
    let schema = j(r#"{"properties": {
        "n": {"enum": [1, -2, 3.5]},
        "b": {"enum": [true, false]},
        "s": {"enum": ["x"]}
    }}"#);
    let sa = schema_to_clap_args(&schema).unwrap();
    let kw = vec![
        ("n".to_string(), j("\"-2\"")),
        ("b".to_string(), j("\"true\"")),
        ("s".to_string(), j("\"x\"")),
    ];
    let out = reconvert_enum_values(kw, &sa);
    assert!(matches!(out[0].1, Json::Number(JsonNumber::NegInt(-2))));
    assert!(matches!(out[1].1, Json::Bool(true)));
    assert!(matches!(&out[2].1, Json::Str(s) if s == "x"));
    let f = reconvert_enum_values(vec![("n".to_string(), j("\"3.5\""))], &sa);
    assert!(matches!(&f[0].1, Json::Number(JsonNumber::Float(t)) if t == "3.5"));
    let none = reconvert_enum_values(vec![("n".to_string(), j("\"9\""))], &sa);
    assert!(matches!(&none[0].1, Json::Str(s) if s == "9"));
}

fn find_arg<'a>(args: &'a [ArgSpec], long: &str) -> Option<&'a ArgSpec> {
    args.iter().find(|a| a.long == long)
}

fn possible(a: &ArgSpec) -> Vec<&str> {
    match &a.value_parser {
        ValueParser::Choices(c) => c.iter().map(|s| s.as_str()).collect(),
        _ => Vec::new(),
    }
}

fn enum_map<'a>(sa: &'a SchemaArgs, name: &str) -> Option<&'a Vec<Json>> {
    sa.enum_maps.iter().find(|(k, _)| k == name).map(|(_, v)| v)
}

fn kw<'a>(out: &'a [(String, Json)], key: &str) -> &'a Json {
    &out.iter().find(|(k, _)| k == key).expect("key present").1
}

fn make_kwargs(pairs: &[(&str, &str)]) -> Vec<(String, Json)> {
    pairs
        .iter()
        .map(|(k, v)| (k.to_string(), Json::Str(v.to_string())))
        .collect()
}

#[test]
fn test_schema_to_clap_args_empty_schema() {
    let result = schema_to_clap_args(&j("{}")).unwrap();
    assert!(result.args.is_empty());
    assert!(result.bool_pairs.is_empty());
    assert!(result.enum_maps.is_empty());
}

#[test]
fn test_schema_to_clap_args_string_property() {
    let schema = j(r#"{"properties": {"text": {"type": "string", "description": "Some text"}}, "required": []}"#);
    let result = schema_to_clap_args(&schema).unwrap();
    assert_eq!(result.args.len(), 1);
    let arg = find_arg(&result.args, "text").expect("--text must exist");
    assert_eq!(arg.id, "text");
    assert!(!arg.required);
}

#[test]
fn test_schema_to_clap_args_integer_property() {
    let schema = j(r#"{"properties": {"count": {"type": "integer"}}, "required": ["count"]}"#);
    let result = schema_to_clap_args(&schema).unwrap();
    let arg = find_arg(&result.args, "count").expect("--count must exist");
    assert!(arg.required);
}

#[test]
fn test_schema_to_clap_args_number_property() {
    let result = schema_to_clap_args(&j(r#"{"properties": {"rate": {"type": "number"}}}"#)).unwrap();
    assert!(find_arg(&result.args, "rate").is_some());
}

#[test]
fn test_schema_to_clap_args_object_and_array_as_string() {
    let schema = j(r#"{"properties": {"data": {"type": "object"}, "items": {"type": "array"}}}"#);
    let result = schema_to_clap_args(&schema).unwrap();
    assert!(find_arg(&result.args, "data").is_some());
    assert!(find_arg(&result.args, "items").is_some());
}

#[test]
fn test_schema_to_clap_args_underscore_to_hyphen() {
    let result = schema_to_clap_args(&j(r#"{"properties": {"input_file": {"type": "string"}}}"#)).unwrap();
    assert!(find_arg(&result.args, "input-file").is_some());
    let arg = find_arg(&result.args, "input-file").unwrap();
    assert_eq!(arg.id, "input_file");
}

#[test]
fn test_schema_to_clap_args_file_convention_suffix() {
    let result = schema_to_clap_args(&j(r#"{"properties": {"config_file": {"type": "string"}}}"#)).unwrap();
    let arg = find_arg(&result.args, "config-file").expect("must exist");
    let _ = arg;
}

#[test]
fn test_schema_to_clap_args_x_cli_file_flag() {
    let schema = j(r#"{"properties": {"report": {"type": "string", "x-cli-file": true}}}"#);
    let result = schema_to_clap_args(&schema).unwrap();
    assert!(find_arg(&result.args, "report").is_some());
}

#[test]
fn test_schema_to_clap_args_unknown_type_defaults_to_string() {
    let result = schema_to_clap_args(&j(r#"{"properties": {"x": {"type": "foobar"}}}"#)).unwrap();
    assert!(find_arg(&result.args, "x").is_some());
}

#[test]
fn test_schema_to_clap_args_missing_type_defaults_to_string() {
    let result =
        schema_to_clap_args(&j(r#"{"properties": {"x": {"description": "no type field"}}}"#)).unwrap();
    assert!(find_arg(&result.args, "x").is_some());
}

#[test]
fn test_schema_to_clap_args_default_value_set() {
    let schema = j(r#"{"properties": {"timeout": {"type": "integer", "default": 30}}}"#);
    let result = schema_to_clap_args(&schema).unwrap();
    let arg = find_arg(&result.args, "timeout").unwrap();
    assert_eq!(arg.default_value.as_deref(), Some("30"));
}

#[test]
fn test_extract_help_uses_description() {
    let prop = j(r#"{"description": "A plain description"}"#);
    assert_eq!(extract_help(&prop), Some("A plain description".to_string()));
}

#[test]
fn test_extract_help_prefers_x_llm_description() {
    let prop = j(r#"{"description": "Plain description", "x-llm-description": "LLM description"}"#);
    assert_eq!(extract_help(&prop), Some("LLM description".to_string()));
}

#[test]
fn test_extract_help_truncates_at_200() {
    let long_text = "a".repeat(250);
    let prop = j(&format!(r#"{{"description": "{long_text}"}}"#));
    let result = extract_help(&prop).unwrap();
    assert_eq!(result.len(), 200);
    assert!(result.ends_with("..."));
}

#[test]
fn test_extract_help_no_truncation_at_200_exactly() {
    let text = "b".repeat(200);
    let prop = j(&format!(r#"{{"description": "{text}"}}"#));
    let result = extract_help(&prop).unwrap();
    assert_eq!(result, text);
    assert!(!result.ends_with("..."));
}

#[test]
fn test_extract_help_returns_none_when_absent() {
    assert_eq!(extract_help(&j(r#"{"type": "string"}"#)), None);
}

#[test]
fn test_map_type_string() {
    let arg = map_type("name", &j(r#"{"type": "string"}"#)).unwrap();
    assert_eq!(arg.long, "name");
    assert_eq!(arg.id, "name");
}

#[test]
fn test_map_type_integer() {
    let arg = map_type("count", &j(r#"{"type": "integer"}"#)).unwrap();
    assert_eq!(arg.long, "count");
}

#[test]
fn test_map_type_number() {
    let arg = map_type("rate", &j(r#"{"type": "number"}"#)).unwrap();
    assert_eq!(arg.long, "rate");
}

#[test]
fn test_map_type_file_suffix() {
    let arg = map_type("config_file", &j(r#"{"type": "string"}"#)).unwrap();
    assert_eq!(arg.long, "config-file");
}

#[test]
fn test_map_type_x_cli_file() {
    let arg = map_type("report", &j(r#"{"type": "string", "x-cli-file": true}"#)).unwrap();
    assert_eq!(arg.long, "report");
}

#[test]
fn test_map_type_object_as_string() {
    let arg = map_type("data", &j(r#"{"type": "object"}"#)).unwrap();
    assert_eq!(arg.long, "data");
}

#[test]
fn test_map_type_array_as_string() {
    let arg = map_type("items", &j(r#"{"type": "array"}"#)).unwrap();
    assert_eq!(arg.long, "items");
}

#[test]
fn test_map_type_unknown_defaults_to_string() {
    let arg = map_type("x", &j(r#"{"type": "foobar"}"#)).unwrap();
    assert_eq!(arg.long, "x");
}

#[test]
fn test_boolean_flag_pair_produced() {
    let result = schema_to_clap_args(&j(r#"{"properties": {"verbose": {"type": "boolean"}}}"#)).unwrap();
    assert!(find_arg(&result.args, "verbose").is_some(), "--verbose must be present");
    assert!(find_arg(&result.args, "no-verbose").is_some(), "--no-verbose must be present");
}

#[test]
fn test_boolean_pair_actions() {
    let result = schema_to_clap_args(&j(r#"{"properties": {"verbose": {"type": "boolean"}}}"#)).unwrap();
    let pos_arg = find_arg(&result.args, "verbose").unwrap();
    let neg_arg = find_arg(&result.args, "no-verbose").unwrap();
    assert!(matches!(pos_arg.action, ArgAction::SetTrue));
    assert!(matches!(neg_arg.action, ArgAction::SetFalse));
}

#[test]
fn test_boolean_default_false() {
    let result = schema_to_clap_args(&j(r#"{"properties": {"debug": {"type": "boolean"}}}"#)).unwrap();
    let pair = result.bool_pairs.iter().find(|p| p.prop_name == "debug");
    assert!(pair.is_some());
    assert!(!pair.unwrap().default_val, "default must be false when not specified");
}

#[test]
fn test_boolean_default_true() {
    let schema = j(r#"{"properties": {"enabled": {"type": "boolean", "default": true}}}"#);
    let result = schema_to_clap_args(&schema).unwrap();
    let pair = result
        .bool_pairs
        .iter()
        .find(|p| p.prop_name == "enabled")
        .expect("BoolFlagPair must be recorded");
    assert!(pair.default_val, "default must be true when schema says true");
}

#[test]
fn test_boolean_pair_recorded_in_bool_pairs() {
    let result = schema_to_clap_args(&j(r#"{"properties": {"dry_run": {"type": "boolean"}}}"#)).unwrap();
    let pair = result.bool_pairs.iter().find(|p| p.prop_name == "dry_run");
    assert!(pair.is_some(), "BoolFlagPair must be recorded for dry_run");
    assert_eq!(pair.unwrap().flag_long, "dry-run", "flag_long must use hyphen form");
}

#[test]
fn test_boolean_underscore_to_hyphen() {
    let result = schema_to_clap_args(&j(r#"{"properties": {"dry_run": {"type": "boolean"}}}"#)).unwrap();
    assert!(find_arg(&result.args, "dry-run").is_some(), "--dry-run");
    assert!(find_arg(&result.args, "no-dry-run").is_some(), "--no-dry-run");
}

#[test]
fn test_boolean_with_enum_true_treated_as_flag() {
    let schema = j(r#"{"properties": {"strict": {"type": "boolean", "enum": [true]}}}"#);
    let result = schema_to_clap_args(&schema).unwrap();
    assert!(find_arg(&result.args, "strict").is_some());
    assert!(find_arg(&result.args, "no-strict").is_some());
    assert!(enum_map(&result, "strict").is_none());
}

#[test]
fn test_boolean_not_counted_as_required_arg() {
    let schema = j(r#"{"properties": {"active": {"type": "boolean"}}, "required": ["active"]}"#);
    let result = schema_to_clap_args(&schema).unwrap();
    let pos = find_arg(&result.args, "active").unwrap();
    let neg = find_arg(&result.args, "no-active").unwrap();
    assert!(!pos.required);
    assert!(!neg.required);
}

#[test]
fn test_enum_string_choices() {
    let schema = j(r#"{"properties": {"format": {"type": "string", "enum": ["json", "csv", "xml"]}}}"#);
    let result = schema_to_clap_args(&schema).unwrap();
    let arg = find_arg(&result.args, "format").expect("--format must exist");
    assert_eq!(possible(arg), vec!["json", "csv", "xml"]);
}

#[test]
fn test_enum_integer_choices_as_strings() {
    let schema = j(r#"{"properties": {"level": {"type": "integer", "enum": [1, 2, 3]}}}"#);
    let result = schema_to_clap_args(&schema).unwrap();
    let arg = find_arg(&result.args, "level").expect("--level must exist");
    assert_eq!(possible(arg), vec!["1", "2", "3"]);
    let map = enum_map(&result, "level").expect("enum_maps must have 'level'");
    assert!(matches!(map[0], Json::Number(JsonNumber::PosInt(1))));
}

#[test]
fn test_enum_float_choices_as_strings() {
    let schema = j(r#"{"properties": {"ratio": {"type": "number", "enum": [0.5, 1.0, 1.5]}}}"#);
    let result = schema_to_clap_args(&schema).unwrap();
    let arg = find_arg(&result.args, "ratio").unwrap();
    assert!(possible(arg).contains(&"0.5"));
}

#[test]
fn test_enum_bool_choices_as_strings() {
    let schema = j(r#"{"properties": {"flag": {"type": "string", "enum": [true, false]}}}"#);
    let result = schema_to_clap_args(&schema).unwrap();
    let arg = find_arg(&result.args, "flag").expect("--flag must exist");
    assert!(possible(arg).contains(&"true"));
    assert!(possible(arg).contains(&"false"));
}

#[test]
fn test_enum_empty_array_falls_through_to_string() {
    let schema = j(r#"{"properties": {"x": {"type": "string", "enum": []}}}"#);
    let result = schema_to_clap_args(&schema).unwrap();
    let arg = find_arg(&result.args, "x").expect("--x must exist");
    assert!(possible(arg).is_empty());
    assert!(enum_map(&result, "x").is_none());
}

#[test]
fn test_enum_with_default() {
    let schema = j(r#"{"properties": {"format": {"type": "string", "enum": ["json", "table"], "default": "json"}}}"#);
    let result = schema_to_clap_args(&schema).unwrap();
    let arg = find_arg(&result.args, "format").unwrap();
    assert_eq!(arg.default_value.as_deref(), Some("json"));
}

#[test]
fn test_enum_required_property() {
    let schema = j(r#"{"properties": {"mode": {"type": "string", "enum": ["a", "b"]}}, "required": ["mode"]}"#);
    let result = schema_to_clap_args(&schema).unwrap();
    let arg = find_arg(&result.args, "mode").unwrap();
    assert!(!arg.required, "required enforced post-parse, not at clap level");
}

#[test]
fn test_enum_stored_in_enum_maps() {
    let schema = j(r#"{"properties": {"priority": {"type": "integer", "enum": [1, 2, 3]}}}"#);
    let result = schema_to_clap_args(&schema).unwrap();
    assert!(enum_map(&result, "priority").is_some());
    assert_eq!(enum_map(&result, "priority").unwrap().len(), 3);
}

#[test]
fn test_help_prefers_x_llm_description() {
    let schema = j(r#"{"properties": {"q": {"type": "string", "description": "plain description", "x-llm-description": "LLM-optimised description"}}}"#);
    let result = schema_to_clap_args(&schema).unwrap();
    let arg = find_arg(&result.args, "q").unwrap();
    let help = arg.help.clone().unwrap_or_default();
    assert!(help.contains("LLM-optimised"), "help must come from x-llm-description, got: {help}");
    assert!(
        !help.contains("plain description"),
        "help must NOT come from description when x-llm-description is present"
    );
}

#[test]
fn test_help_falls_back_to_description() {
    let schema = j(r#"{"properties": {"q": {"type": "string", "description": "fallback text"}}}"#);
    let result = schema_to_clap_args(&schema).unwrap();
    let arg = find_arg(&result.args, "q").unwrap();
    assert!(arg.help.clone().unwrap_or_default().contains("fallback text"));
}

#[test]
fn test_help_truncated_at_200_chars() {
    let long_desc = "A".repeat(210);
    let schema = j(&format!(r#"{{"properties": {{"q": {{"type": "string", "description": "{long_desc}"}}}}}}"#));
    let result = schema_to_clap_args(&schema).unwrap();
    let help = find_arg(&result.args, "q").unwrap().help.clone().unwrap_or_default();
    assert_eq!(help.len(), 200, "truncated help must be exactly 200 chars");
    assert!(help.ends_with("..."), "truncated help must end with '...'");
}

#[test]
fn test_help_exactly_200_chars_not_truncated() {
    let desc = "B".repeat(200);
    let schema = j(&format!(r#"{{"properties": {{"q": {{"type": "string", "description": "{desc}"}}}}}}"#));
    let result = schema_to_clap_args(&schema).unwrap();
    let help = find_arg(&result.args, "q").unwrap().help.clone().unwrap_or_default();
    assert_eq!(help.len(), 200);
    assert!(!help.ends_with("..."));
}

#[test]
fn test_help_none_when_no_description_fields() {
    let result = schema_to_clap_args(&j(r#"{"properties": {"q": {"type": "string"}}}"#)).unwrap();
    assert!(find_arg(&result.args, "q").unwrap().help.is_none());
}

#[test]
fn test_flag_collision_detection() {
    let schema = j(r#"{"properties": {"foo_bar": {"type": "string"}, "foo-bar": {"type": "string"}}}"#);
    let result = schema_to_clap_args(&schema);
    assert!(
        matches!(result, Err(SchemaParserError::FlagCollision { .. })),
        "expected FlagCollision, got: {result:?}"
    );
}

#[test]
fn test_flag_collision_error_message_contains_both_names() {
    let schema = j(r#"{"properties": {"my_flag": {"type": "string"}, "my-flag": {"type": "string"}}}"#);
    let err = schema_to_clap_args(&schema).unwrap_err();
    let msg = err.message();
    assert!(msg.contains("my_flag") || msg.contains("my-flag"));
    assert!(msg.contains("my-flag") || msg.contains("--my-flag"));
}

#[test]
fn test_no_collision_for_distinct_flags() {
    let schema = j(r#"{"properties": {"alpha": {"type": "string"}, "beta": {"type": "string"}}}"#);
    assert!(schema_to_clap_args(&schema).is_ok());
}

#[test]
fn test_reconvert_string_enum_passthrough() {
    let schema = j(r#"{"properties": {"format": {"type": "string", "enum": ["json", "csv"]}}}"#);
    let schema_args = schema_to_clap_args(&schema).unwrap();
    let result = reconvert_enum_values(make_kwargs(&[("format", "json")]), &schema_args);
    assert!(matches!(kw(&result, "format"), Json::Str(s) if s == "json"));
}

#[test]
fn test_reconvert_integer_enum() {
    let schema = j(r#"{"properties": {"level": {"type": "integer", "enum": [1, 2, 3]}}}"#);
    let schema_args = schema_to_clap_args(&schema).unwrap();
    let result = reconvert_enum_values(make_kwargs(&[("level", "2")]), &schema_args);
    assert!(matches!(kw(&result, "level"), Json::Number(JsonNumber::PosInt(2))));
}

#[test]
fn test_reconvert_float_enum() {
    let schema = j(r#"{"properties": {"ratio": {"type": "number", "enum": [0.5, 1.0, 1.5]}}}"#);
    let schema_args = schema_to_clap_args(&schema).unwrap();
    let result = reconvert_enum_values(make_kwargs(&[("ratio", "1.5")]), &schema_args);
    match kw(&result, "ratio") {
        Json::Number(JsonNumber::Float(t)) => assert_eq!(t.parse::<f64>().ok(), Some(1.5)),
        other => panic!("expected a number, got {other:?}"),
    }
}

#[test]
fn test_reconvert_bool_enum() {
    let schema = j(r#"{"properties": {"strict": {"type": "string", "enum": [true, false]}}}"#);
    let schema_args = schema_to_clap_args(&schema).unwrap();
    let result = reconvert_enum_values(make_kwargs(&[("strict", "true")]), &schema_args);
    assert!(matches!(kw(&result, "strict"), Json::Bool(true)));
}

#[test]
fn test_reconvert_non_enum_field_unchanged() {
    let schema = j(r#"{"properties": {"name": {"type": "string"}}}"#);
    let schema_args = schema_to_clap_args(&schema).unwrap();
    let result = reconvert_enum_values(make_kwargs(&[("name", "alice")]), &schema_args);
    assert!(matches!(kw(&result, "name"), Json::Str(s) if s == "alice"));
}

#[test]
fn test_reconvert_null_value_unchanged() {
    let schema = j(r#"{"properties": {"mode": {"type": "string", "enum": ["a", "b"]}}}"#);
    let schema_args = schema_to_clap_args(&schema).unwrap();
    let result = reconvert_enum_values(vec![("mode".to_string(), Json::Null)], &schema_args);
    assert!(matches!(kw(&result, "mode"), Json::Null));
}

#[test]
fn test_reconvert_preserves_non_enum_keys() {
    let schema = j(r#"{"properties": {"format": {"type": "string", "enum": ["json"]}}}"#);
    let schema_args = schema_to_clap_args(&schema).unwrap();
    let mut kwargs = make_kwargs(&[("format", "json")]);
    kwargs.push(("extra".to_string(), Json::Str("untouched".to_string())));
    let result = reconvert_enum_values(kwargs, &schema_args);
    assert!(matches!(kw(&result, "extra"), Json::Str(s) if s == "untouched"));
}

#[test]
fn help_is_cut_by_characters() {
    let e150 = "\u{e9}".repeat(150);
    let prop = j(&format!(r#"{{"description": "{e150}"}}"#));
    assert_eq!(extract_help(&prop), Some(e150.clone()));
    let long = format!("{}{}", "a".repeat(196), "\u{e9}".repeat(10));
    let h = extract_help(&j(&format!(r#"{{"description": "{long}"}}"#))).unwrap();
    assert_eq!(h, format!("{}\u{e9}...", "a".repeat(196)));
    assert_eq!(h.chars().count(), 200);
    let colliding = format!(
        r#"{{"properties": {{"foo_bar": {{"type": "string"}}, "foo-bar": {{"type": "string", "description": "{}"}}}}}}"#,
        "\u{e9}".repeat(300)
    );
    assert!(matches!(schema_to_clap_args(&j(&colliding)), Err(SchemaParserError::FlagCollision { .. })));
}
