use apcore_cli::json::{to_json_text, Json, JsonNumber};
use apcore_cli::exposure::ExposureFilter;
use apcore_cli::output::{
    apply_field_selection, dependency_count, exec_result_to_print, extract_str, extract_tags,
    format_exec_result, format_module_detail, format_module_list, format_module_list_with_options,
    key_value_grid, module_list_grid, render_section, resolve_format_inner, rows_for_tabular, truncate,
    ListDisplayOptions,
};

fn to_json(v: &serde_json::Value) -> Json {
    match v {
        serde_json::Value::Null => Json::Null,
        serde_json::Value::Bool(b) => Json::Bool(*b),
        serde_json::Value::Number(n) => {
            if let Some(u) = n.as_u64() {
                Json::Number(JsonNumber::PosInt(u))
            } else if let Some(i) = n.as_i64() {
                Json::Number(JsonNumber::NegInt(i))
            } else {
                Json::Number(JsonNumber::Float(n.to_string()))
            }
        }
        serde_json::Value::String(s) => Json::Str(s.clone()),
        serde_json::Value::Array(a) => Json::Array(a.iter().map(to_json).collect()),
        serde_json::Value::Object(o) => {
            Json::Object(o.iter().map(|(k, v)| (k.clone(), to_json(v))).collect())
        }
    }
}

fn j(text: &str) -> Json {
    to_json(&serde_json::from_str::<serde_json::Value>(text).unwrap())
}

#[test]
fn test_resolve_format_explicit_json_tty() {
    assert_eq!(resolve_format_inner(Some("json"), true), "json");
}

#[test]
fn test_resolve_format_explicit_table_non_tty() {
    assert_eq!(resolve_format_inner(Some("table"), false), "table");
}

#[test]
fn test_resolve_format_none_tty() {
    assert_eq!(resolve_format_inner(None, true), "table");
}

#[test]
fn test_resolve_format_none_non_tty() {
    assert_eq!(resolve_format_inner(None, false), "json");
}

#[test]
fn unknown_format_falls_back_to_json() {
    assert_eq!(resolve_format_inner(Some("xml"), true), "json");
    assert_eq!(resolve_format_inner(Some("skill"), true), "skill");
}

#[test]
fn test_truncate_short_string() {
    let s = "hello";
    assert_eq!(truncate(s, 80), "hello");
}

#[test]
fn test_truncate_exact_length() {
    let s = "a".repeat(80);
    assert_eq!(truncate(&s, 80), s);
}

#[test]
fn test_truncate_over_limit() {
    let s = "a".repeat(100);
    let result = truncate(&s, 80);
    assert_eq!(result.len(), 80);
    assert!(result.ends_with("..."));
    assert_eq!(&result[..77], &"a".repeat(77));
}

#[test]
fn test_truncate_exactly_81_chars() {
    let s = "b".repeat(81);
    let result = truncate(&s, 80);
    assert_eq!(result.len(), 80);
    assert!(result.ends_with("..."));
}

#[test]
fn truncate_respects_char_boundaries() {
    // 'é' is two bytes: the cut at 7 bytes falls inside the fourth 'é'.
    let s = "éééééé";
    let r = truncate(s, 10);
    assert_eq!(r, "ééé...");
    assert!(r.len() <= 10);
    assert_eq!(truncate("abcdef", 2), "..");
    assert_eq!(truncate("hello", 2).chars().count(), 2);
    assert_eq!(truncate("hello", 0), "");
}

#[test]
fn descriptor_fields() {
    let m = j(r#"{"id": 5, "canonical_id": "c.x", "tags": ["a", 2, "b"], "dependencies": [1, 2, 3]}"#);
    assert_eq!(extract_str(&m, &["module_id", "id", "canonical_id", "name"]), "c.x");
    assert_eq!(extract_str(&m, &["description"]), "");
    assert_eq!(extract_tags(&m), vec!["a".to_string(), "b".to_string()]);
    assert_eq!(dependency_count(&m), 3);
    assert_eq!(dependency_count(&j("{}")), 0);
}

#[test]
fn tabular_rows_shapes() {
    assert_eq!(rows_for_tabular(&j(r#"{"a": 1}"#)).unwrap().len(), 1);
    assert_eq!(rows_for_tabular(&j(r#"[{"a": 1}, {"b": 2}]"#)).unwrap().len(), 2);
    assert!(rows_for_tabular(&j("[]")).is_none());
    assert!(rows_for_tabular(&j(r#"[{"a": 1}, 3]"#)).is_none());
    assert!(rows_for_tabular(&j("3")).is_none());
    assert!(rows_for_tabular(&Json::Null).is_none());
}

#[test]
fn field_selection_follows_dot_paths() {
    let r = j(r#"{"status": "ok", "data": {"count": 3}, "x": 1}"#);
    let sel = apply_field_selection(&r, "status, data.count,,missing.path");
    assert_eq!(
        to_json_text(&sel),
        r#"{"status":"ok","data.count":3,"missing.path":null}"#
    );
    let arr = j("[1, 2]");
    assert_eq!(to_json_text(&apply_field_selection(&arr, "a")), "[1,2]");
}

#[test]
fn exec_results_render() {
    assert_eq!(format_exec_result(&Json::Null, "json", None, None), "");
    assert_eq!(format_exec_result(&j("\"hi\""), "table", None, None), "hi");
    assert_eq!(format_exec_result(&j("42"), "json", None, None), "42");
    assert_eq!(format_exec_result(&j("true"), "table", None, None), "true");
    assert_eq!(
        format_exec_result(&j(r#"{"a": [1]}"#), "json", None, None),
        "{\n  \"a\": [\n    1\n  ]\n}"
    );
    assert_eq!(format_exec_result(&j(r#"{"a": 1}"#), "csv", None, None), "a\r\n1");
    assert!(format_exec_result(&j(r#"{"a": 1}"#), "table", None, None).contains("Key"));
    assert_eq!(
        format_exec_result(&j(r#"{"a": 1, "b": 2}"#), "json", Some("b"), None),
        "{\n  \"b\": 2\n}"
    );
}

#[test]
fn sections() {
    assert!(render_section("Tags", "").is_none());
    assert_eq!(render_section("Tags", "  a").unwrap(), "\nTags:\n  a");
}

fn list(modules: &[&str], format: &str, tags: &[&str]) -> String {
    let ms: Vec<Json> = modules.iter().map(|t| j(t)).collect();
    let tags: Vec<String> = tags.iter().map(|t| t.to_string()).collect();
    format_module_list(&ms, format, &tags, None)
}

fn exec(text: &str, format: &str) -> String {
    format_exec_result(&j(text), format, None, None)
}

fn detail(text: &str, format: &str) -> String {
    format_module_detail(&j(text), format)
}

#[test]
fn test_format_module_list_json_two_modules() {
    let output = list(
        &[
            r#"{"module_id": "math.add", "description": "Add numbers", "tags": ["math"]}"#,
            r#"{"module_id": "text.upper", "description": "Uppercase", "tags": []}"#,
        ],
        "json",
        &[],
    );
    let parsed: serde_json::Value = serde_json::from_str(&output).expect("must be valid JSON");
    let arr = parsed.as_array().expect("must be array");
    assert_eq!(arr.len(), 2);
    assert_eq!(arr[0]["id"], "math.add");
    assert_eq!(arr[1]["id"], "text.upper");
}

#[test]
fn test_format_module_list_json_empty() {
    assert_eq!(list(&[], "json", &[]).trim(), "[]");
}

#[test]
fn test_format_module_list_table_two_modules() {
    let output = list(&[r#"{"module_id": "math.add", "description": "Add numbers", "tags": ["math"]}"#], "table", &[]);
    assert!(output.contains("math.add"), "table must contain module ID");
    assert!(output.contains("Add numbers"), "table must contain description");
}

#[test]
fn test_format_module_list_table_columns() {
    let output = list(&[r#"{"module_id": "math.add", "description": "Add numbers", "tags": []}"#], "table", &[]);
    assert!(output.contains("ID"), "table must have ID column");
    assert!(output.contains("Description"), "table must have Description column");
    assert!(output.contains("Tags"), "table must have Tags column");
}

#[test]
fn test_format_module_list_with_options_deps_column_table() {
    let modules = vec![j(r#"{"module_id": "a.b", "description": "Desc", "tags": [], "dependencies": ["x", "y"]}"#)];
    let opts = ListDisplayOptions { show_deps: true, exposure_filter: None };
    let output = format_module_list_with_options(&modules, "table", &Vec::new(), &opts, None);
    assert!(output.contains("Deps"), "table must have Deps column header");
    assert!(output.contains('2'), "table must show the dependency count, got:\n{output}");
}

#[test]
fn test_format_module_list_default_wrapper_has_no_deps_column() {
    let output = list(
        &[r#"{"module_id": "a.b", "description": "Desc", "tags": [], "dependencies": ["x", "y", "z"]}"#],
        "table",
        &[],
    );
    assert!(!output.contains("Deps"), "got:\n{output}");
}

#[test]
fn test_format_module_list_with_options_exposure_column_table() {
    let modules = vec![
        j(r#"{"module_id": "admin.users", "description": "Admin", "tags": []}"#),
        j(r#"{"module_id": "public.ping", "description": "Ping", "tags": []}"#),
    ];
    let filter = ExposureFilter::new("exclude", &Vec::new(), &vec!["admin.*".to_string()]);
    let opts = ListDisplayOptions { show_deps: false, exposure_filter: Some(&filter) };
    let output = format_module_list_with_options(&modules, "table", &Vec::new(), &opts, None);
    assert!(output.contains("Exposure"), "table must have Exposure column header, got:\n{output}");
}

#[test]
fn test_format_module_list_table_empty_no_tags() {
    assert_eq!(list(&[], "table", &[]).trim(), "No modules found.");
}

#[test]
fn test_format_module_list_table_empty_with_filter_tags() {
    let output = list(&[], "table", &["math", "text"]);
    assert!(output.contains("No modules found matching tags:"), "must contain tag-filter message");
    assert!(output.contains("math"), "must contain tag name");
    assert!(output.contains("text"), "must contain tag name");
}

#[test]
fn test_format_module_list_table_description_truncated() {
    let long_desc = "a".repeat(100);
    let m = format!(r#"{{"module_id": "x.y", "description": "{long_desc}", "tags": []}}"#);
    let output = list(&[m.as_str()], "table", &[]);
    assert!(output.contains("..."), "long description must be truncated with '...'");
    assert!(!output.contains(&"a".repeat(100)), "full description must not appear");
}

#[test]
fn test_format_module_list_json_tags_present() {
    let output = list(&[r#"{"module_id": "a.b", "description": "desc", "tags": ["x", "y"]}"#], "json", &[]);
    let parsed: serde_json::Value = serde_json::from_str(&output).unwrap();
    let tags = parsed[0]["tags"].as_array().unwrap();
    assert_eq!(tags.len(), 2);
    assert_eq!(tags[0], "x");
}

#[test]
fn test_format_exec_result_null_returns_empty() {
    assert_eq!(format_exec_result(&Json::Null, "json", None, None), "", "Null result must produce empty string");
}

#[test]
fn test_format_exec_result_string_plain() {
    assert_eq!(exec("\"hello world\"", "json"), "hello world");
}

#[test]
fn test_format_exec_result_string_table_mode_also_plain() {
    assert_eq!(exec("\"hello\"", "table"), "hello");
}

#[test]
fn test_format_exec_result_object_json_mode() {
    let output = exec(r#"{"sum": 42, "status": "ok"}"#, "json");
    let parsed: serde_json::Value = serde_json::from_str(&output).expect("must be valid JSON");
    assert_eq!(parsed["sum"], 42);
    assert_eq!(parsed["status"], "ok");
}

#[test]
fn test_format_exec_result_object_table_mode() {
    let output = exec(r#"{"key": "value", "count": 3}"#, "table");
    assert!(output.contains("key"), "table must contain 'key'");
    assert!(output.contains("value"), "table must contain 'value'");
    assert!(output.contains("count"), "table must contain 'count'");
    assert!(output.contains('3'), "table must contain '3'");
}

#[test]
fn test_format_exec_result_array_is_json() {
    let parsed: serde_json::Value = serde_json::from_str(&exec("[1, 2, 3]", "json")).expect("must be valid JSON");
    assert!(parsed.is_array());
    assert_eq!(parsed.as_array().unwrap().len(), 3);
}

#[test]
fn test_format_exec_result_array_table_mode_is_json() {
    let parsed: serde_json::Value =
        serde_json::from_str(&exec(r#"[{"a": 1}, {"b": 2}]"#, "table")).expect("array must produce JSON");
    assert!(parsed.is_array());
}

#[test]
fn test_format_exec_result_number_scalar() {
    assert_eq!(exec("42", "json"), "42");
}

#[test]
fn test_format_exec_result_bool_scalar() {
    assert_eq!(exec("true", "json"), "true");
}

#[test]
fn test_format_exec_result_float_scalar() {
    assert!(exec("3.15", "json").starts_with("3.15"), "float must stringify correctly");
}

#[test]
fn test_exec_result_to_print_null_is_none() {
    assert_eq!(
        exec_result_to_print(&Json::Null, "json", None, None),
        None,
        "a null result must produce nothing to print, not an empty-but-Some string"
    );
}

#[test]
fn test_exec_result_to_print_object_is_some() {
    let printed = exec_result_to_print(&j(r#"{"sum": 42}"#), "json", None, None);
    assert!(printed.is_some(), "a non-null result must be printed");
    assert!(printed.unwrap().contains("42"));
}

#[test]
fn test_exec_result_to_print_empty_string_result_is_none() {
    assert_eq!(exec_result_to_print(&j("\"\""), "json", None, None), None);
}

#[test]
fn test_format_module_detail_json_full() {
    let output = detail(
        r#"{"module_id": "math.add", "description": "Add two numbers",
            "input_schema": {"type": "object", "properties": {"a": {"type": "integer"}}},
            "output_schema": {"type": "object", "properties": {"result": {"type": "integer"}}},
            "tags": ["math"], "annotations": {"author": "test"}}"#,
        "json",
    );
    let parsed: serde_json::Value = serde_json::from_str(&output).expect("must be valid JSON");
    assert_eq!(parsed["id"], "math.add");
    assert_eq!(parsed["description"], "Add two numbers");
    assert!(parsed.get("input_schema").is_some(), "input_schema must be present");
    assert!(parsed.get("output_schema").is_some(), "output_schema must be present");
    assert_eq!(parsed["tags"].as_array().unwrap()[0], "math");
}

#[test]
fn test_format_module_detail_json_no_output_schema() {
    let output = detail(r#"{"module_id": "text.upper", "description": "Uppercase"}"#, "json");
    let parsed: serde_json::Value = serde_json::from_str(&output).unwrap();
    assert!(parsed.get("output_schema").is_none(), "output_schema must be absent when not set");
}

#[test]
fn test_format_module_detail_json_no_none_fields() {
    let output = detail(
        r#"{"module_id": "a.b", "description": "desc", "input_schema": null, "output_schema": null, "tags": null}"#,
        "json",
    );
    let parsed: serde_json::Value = serde_json::from_str(&output).unwrap();
    assert!(parsed.get("input_schema").is_none(), "null input_schema must be absent");
    assert!(parsed.get("tags").is_none(), "null tags must be absent");
}

#[test]
fn test_format_module_detail_table_contains_description() {
    let output = detail(r#"{"module_id": "math.add", "description": "Add two numbers"}"#, "table");
    assert!(output.contains("Add two numbers"), "table must contain description");
}

#[test]
fn test_format_module_detail_table_contains_module_id() {
    let output = detail(r#"{"module_id": "math.add", "description": "desc"}"#, "table");
    assert!(output.contains("math.add"), "table must contain module ID");
}

#[test]
fn test_format_module_detail_table_input_schema_section() {
    let output = detail(r#"{"module_id": "math.add", "description": "desc", "input_schema": {"type": "object"}}"#, "table");
    assert!(output.contains("Input Schema"), "table must contain Input Schema section");
}

#[test]
fn test_format_module_detail_table_no_output_schema_section_when_absent() {
    let output = detail(r#"{"module_id": "text.upper", "description": "desc"}"#, "table");
    assert!(!output.contains("Output Schema"), "Output Schema section must be absent when not set");
}

#[test]
fn test_format_module_detail_table_tags_section() {
    let output = detail(r#"{"module_id": "math.add", "description": "desc", "tags": ["math", "arithmetic"]}"#, "table");
    assert!(output.contains("Tags"), "table must contain Tags section");
    assert!(output.contains("math"), "table must contain tag value");
}

#[test]
fn test_format_module_detail_table_annotations_section() {
    let output = detail(
        r#"{"module_id": "a.b", "description": "desc", "annotations": {"author": "alice", "version": "1.0"}}"#,
        "table",
    );
    assert!(output.contains("Annotations"), "table must contain Annotations section");
    assert!(output.contains("author"), "table must contain annotation key");
    assert!(output.contains("alice"), "table must contain annotation value");
}

#[test]
fn test_format_module_detail_table_extension_metadata() {
    let output = detail(r#"{"module_id": "a.b", "description": "desc", "x-category": "utility"}"#, "table");
    assert!(output.contains("Extension Metadata"), "must contain Extension Metadata section");
    assert!(output.contains("x-category"), "must contain x- key");
    assert!(output.contains("utility"), "must contain x- value");
}

#[test]
fn markdown_and_skill_go_through_the_toolkit() {
    let m = j(r#"{"module_id": "math.add", "description": "Adds numbers"}"#);
    let md = format_module_detail(&m, "markdown");
    assert!(md.contains("math.add"));
    assert!(!md.starts_with("---"));
    let skill = format_module_detail(&m, "skill");
    assert!(skill.starts_with("---\nname: "));
    assert!(skill.contains("Adds numbers"));
    let listed = format_module_list(&vec![m], "skill", &Vec::new(), None);
    assert!(listed.contains("math.add"));
}

#[test]
fn list_json_keeps_only_modules_with_every_tag() {
    let out = list(
        &[
            r#"{"module_id": "math.add", "description": "Add numbers", "tags": ["math"]}"#,
            r#"{"module_id": "text.upper", "description": "Uppercase", "tags": []}"#,
        ],
        "json",
        &["math"],
    );
    let parsed: serde_json::Value = serde_json::from_str(&out).unwrap();
    let items = parsed.as_array().unwrap();
    assert_eq!(items.len(), 1);
    assert_eq!(items[0]["id"], "math.add");
}

#[test]
fn exec_results_in_yaml_and_jsonl() {
    let yaml = exec(r#"{"a": 1}"#, "yaml");
    assert_eq!(yaml.trim_end(), "a: 1");
    let jsonl = exec(r#"[{"a": 1}, {"a": 2}]"#, "jsonl");
    assert_eq!(jsonl.trim_end(), "{\"a\":1}\n{\"a\":2}");
}

#[test]
fn sized_tables_differ_from_free_ones() {
    let wide = format_exec_result(&j(r#"{"key": "a fairly long value that will need wrapping"}"#), "table", None, None);
    let narrow = format_exec_result(&j(r#"{"key": "a fairly long value that will need wrapping"}"#), "table", None, Some(20));
    assert!(wide.contains("a fairly long value that will need wrapping"));
    assert_ne!(wide, narrow);
}

#[test]
fn table_rows_are_exact() {
    let long = "y".repeat(90);
    let text = format!(
        r#"[{{"module_id": "admin.users", "description": "{long}", "tags": ["a", "b"], "dependencies": ["x"]}},
            {{"id": "public.ping", "description": "Ping"}}]"#
    );
    let modules = match j(&text) {
        Json::Array(items) => items,
        _ => panic!("array expected"),
    };
    let filter = ExposureFilter::new("exclude", &vec![], &vec!["admin.*".to_string()]);
    let opts = ListDisplayOptions { show_deps: true, exposure_filter: Some(&filter) };
    let (headers, rows) = module_list_grid(&modules, &opts);
    assert_eq!(headers, vec!["ID", "Description", "Tags", "Deps", "Exposure"]);
    assert_eq!(rows[0], vec!["admin.users".to_string(), format!("{}...", "y".repeat(77)), "a, b".to_string(), "1".to_string(), "\u{2014}".to_string()]);
    assert_eq!(rows[1], vec!["public.ping", "Ping", "", "0", "\u{2713}"]);
    let plain = ListDisplayOptions { show_deps: false, exposure_filter: None };
    let (headers, _) = module_list_grid(&modules, &plain);
    assert_eq!(headers, vec!["ID", "Description", "Tags"]);
    let kv = key_value_grid(&vec![("a".to_string(), j("1")), ("b".to_string(), j("\"x\"")), ("c".to_string(), j("[true]"))]);
    assert_eq!(kv, vec![vec!["a", "1"], vec!["b", "x"], vec!["c", "[true]"]]);
}
