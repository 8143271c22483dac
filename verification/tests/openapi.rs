use apcore_cli::openapi::{
    detect_proxy_hazards, map_load_error, parse_headers, planned_binding_names, planned_paths,
    query_parameter_names, render_diagnostics, render_scan_table, sanitize_binding_filename,
    scan_header, scan_payload, Hazard, HeaderParseError, LoadFailure, OpenApiSourceError,
    scan_grid, ScanRecord,
};
use std::path::PathBuf;
use apcore_cli::json::{Json, JsonNumber};

fn to_json(v: &serde_json::Value) -> Json {
    match v {
        serde_json::Value::Null => Json::Null,
        serde_json::Value::Bool(b) => Json::Bool(*b),
        serde_json::Value::Number(n) => {
            if let Some(u) = n.as_u64() {
                Json::Number(JsonNumber::PosInt(u))
            } else if let Some(i) = n.as_i64() {
                Json::Number(JsonNumber::NegInt(i))
            } else {
                Json::Number(JsonNumber::Float(n.to_string()))
            }
        }
        serde_json::Value::String(s) => Json::Str(s.clone()),
        serde_json::Value::Array(a) => Json::Array(a.iter().map(to_json).collect()),
        serde_json::Value::Object(o) => {
            Json::Object(o.iter().map(|(k, v)| (k.clone(), to_json(v))).collect())
        }
    }
}

fn j(text: &str) -> Json {
    to_json(&serde_json::from_str::<serde_json::Value>(text).unwrap())
}

#[test]
fn headers_split_on_the_first_colon() {
    let parsed = parse_headers(&["Authorization: Bearer a:b".to_string()]).expect("parses");
    assert_eq!(
        parsed.get("Authorization").map(String::as_str),
        Some("Bearer a:b")
    );
}

#[test]
fn header_without_a_colon_is_rejected() {
    assert!(parse_headers(&["nonsense".to_string()]).is_err());
    assert!(parse_headers(&[": value".to_string()]).is_err());
}

#[test]
fn empty_header_list_yields_an_empty_map() {
    assert!(parse_headers(&[]).expect("parses").is_empty());
}

#[test]
fn repeated_header_keeps_last_value_and_reports_the_bad_one() {
    let parsed = parse_headers(&["X: 1".to_string(), " X :2 ".to_string()]).unwrap();
    assert_eq!(parsed.len(), 1);
    assert_eq!(parsed.get("X").map(String::as_str), Some("2"));
    match parse_headers(&["A: b".to_string(), "oops".to_string()]) {
        Err(HeaderParseError(s)) => assert_eq!(s, "oops"),
        Ok(_) => panic!("expected error"),
    }
    assert_eq!(
        HeaderParseError("oops".into()).message(),
        "Invalid --header value 'oops': expected \"Key: Value\"."
    );
}

#[test]
fn binding_filenames_mirror_the_toolkit_sanitizer() {
    assert_eq!(sanitize_binding_filename("pets.petid.get"), "pets.petid.get");
    assert_eq!(sanitize_binding_filename("a/b"), "a_b");
    assert_eq!(sanitize_binding_filename("../evil"), "__evil");
    assert_eq!(sanitize_binding_filename("a..b"), "a_b");
    assert_eq!(sanitize_binding_filename("a...b"), "a_b");
    assert_eq!(sanitize_binding_filename("Pet-1_2"), "Pet-1_2");
}

#[test]
fn sanitizer_edge_cases() {
    assert_eq!(sanitize_binding_filename(""), "");
    assert_eq!(sanitize_binding_filename("."), ".");
    assert_eq!(sanitize_binding_filename(".."), "_");
    assert_eq!(sanitize_binding_filename("a.é"), "a._");
    assert_eq!(sanitize_binding_filename("x.."), "x_");
}

#[test]
fn hazard_summary_pluralises() {
    let one = Hazard {
        module_id: "m".into(),
        http_method: "POST".into(),
        url_path: "/p".into(),
        parameters: vec!["q".into()],
    };
    assert_eq!(one.summary(), "POST with 1 'in: query' parameter: q");
    let two = Hazard {
        module_id: "m".into(),
        http_method: "PUT".into(),
        url_path: "/p".into(),
        parameters: vec!["a".into(), "b".into()],
    };
    assert_eq!(two.summary(), "PUT with 2 'in: query' parameters: a, b");
}

#[test]
fn query_parameters_in_document_order() {
    let op = j(r##"{"parameters": [
        {"in": "query", "name": "a"},
        {"in": "path", "name": "id"},
        {"$ref": "#/components/parameters/x"},
        {"in": "query", "name": "b"},
        {"in": "query"}
    ]}"##);
    assert_eq!(query_parameter_names(&op), vec!["a".to_string(), "b".to_string()]);
    assert!(query_parameter_names(&j("{}")).is_empty());
}

#[test]
fn load_errors_are_classified() {
    let e = map_load_error("spec.yaml", LoadFailure::Http { status: Some(404), text: "x".into() });
    assert_eq!(e.message(), "Cannot read OpenAPI source 'spec.yaml': HTTP 404");
    assert_eq!(e.exit_code(), 47);
    let e = map_load_error("s", LoadFailure::Yaml("bad".into()));
    assert!(matches!(e, OpenApiSourceError::Unparseable { .. }));
    assert_eq!(e.message(), "Cannot parse OpenAPI source 's': bad");
}

fn module(id: &str, method: &str, path: &str) -> ScanRecord {
    ScanRecord {
        module_id: id.to_string(),
        description: "desc".to_string(),
        tags: vec!["pets".to_string()],
        target: format!("{method} {path}"),
        http_method: Some(method.to_string()),
        url_path: Some(path.to_string()),
        warnings: Vec::new(),
    }
}

fn from_json(v: &Json) -> serde_json::Value {
    match v {
        Json::Null => serde_json::Value::Null,
        Json::Bool(b) => serde_json::Value::Bool(*b),
        Json::Number(JsonNumber::PosInt(u)) => serde_json::Value::from(*u),
        Json::Number(JsonNumber::NegInt(i)) => serde_json::Value::from(*i),
        Json::Number(JsonNumber::Float(t)) => serde_json::from_str(t).unwrap(),
        Json::Str(s) => serde_json::Value::String(s.clone()),
        Json::Array(a) => serde_json::Value::Array(a.iter().map(from_json).collect()),
        Json::Object(o) => serde_json::Value::Object(
            o.iter().map(|(k, v)| (k.clone(), from_json(v))).collect(),
        ),
        Json::Tagged(_, b) => from_json(b),
    }
}

#[test]
fn post_with_query_parameters_is_a_hazard() {
    let spec = j(r#"{
        "openapi": "3.1.0",
        "paths": {
            "/pets": {
                "post": {
                    "operationId": "createPets",
                    "parameters": [
                        {"name": "dry_run", "in": "query"},
                        {"name": "trace", "in": "query"},
                        {"name": "X-Tenant", "in": "header"}
                    ]
                }
            }
        }
    }"#);
    let modules = vec![module("createPets", "POST", "/pets")];
    let hazards = detect_proxy_hazards(&spec, &modules);
    assert_eq!(hazards.len(), 1);
    assert_eq!(hazards[0].module_id, "createPets");
    assert_eq!(hazards[0].http_method, "POST");
    assert_eq!(hazards[0].url_path, "/pets");
    assert_eq!(hazards[0].parameters, vec!["dry_run", "trace"]);
    assert!(hazards[0].summary().contains("2 'in: query' parameters"));
}

#[test]
fn get_with_query_parameters_is_not_a_hazard() {
    let spec = j(r#"{
        "paths": {
            "/pets": {
                "get": {"parameters": [{"name": "limit", "in": "query"}]}
            }
        }
    }"#);
    let modules = vec![module("listPets", "GET", "/pets")];
    assert!(detect_proxy_hazards(&spec, &modules).is_empty());
}

#[test]
fn put_and_patch_are_body_methods_too() {
    let spec = j(r#"{
        "paths": {
            "/pets/{id}": {
                "put": {"parameters": [{"name": "force", "in": "query"}]},
                "patch": {"parameters": [{"name": "force", "in": "query"}]}
            }
        }
    }"#);
    let modules = vec![
        module("replacePet", "PUT", "/pets/{id}"),
        module("patchPet", "PATCH", "/pets/{id}"),
    ];
    let hazards = detect_proxy_hazards(&spec, &modules);
    assert_eq!(hazards.len(), 2);
    assert_eq!(hazards[0].module_id, "patchPet");
    assert_eq!(hazards[1].module_id, "replacePet");
}

#[test]
fn path_and_body_parameters_are_not_hazards() {
    let spec = j(r#"{
        "paths": {
            "/pets/{id}": {
                "post": {"parameters": [
                    {"name": "id", "in": "path"},
                    {"name": "X-Trace", "in": "header"},
                    {"name": "session", "in": "cookie"}
                ]}
            }
        }
    }"#);
    let modules = vec![module("createPet", "POST", "/pets/{id}")];
    assert!(detect_proxy_hazards(&spec, &modules).is_empty());
}

#[test]
fn malformed_documents_yield_no_hazard_and_no_panic() {
    for text in [
        r#"{}"#,
        r#"{"paths": "not-an-object"}"#,
        r#"{"paths": {"/x": 7}}"#,
        r#"{"paths": {"/x": {"post": {"parameters": "nope"}}}}"#,
        r#"{"paths": {"/x": {"post": {"parameters": [7, null, {"in": "query"}]}}}}"#,
        r##"{"paths": {"/x": {"post": {"parameters": [{"$ref": "#/c/p/Q"}]}}}}"##,
    ] {
        let spec = j(text);
        assert!(
            detect_proxy_hazards(&spec, &vec![module("m", "POST", "/x")]).is_empty(),
            "spec must not produce a hazard: {text}"
        );
    }
}

#[test]
fn hazards_correlate_by_routing_metadata_not_by_re_derivation() {
    let spec = j(r#"{
        "paths": {"/pets": {"post": {"parameters": [{"name": "q", "in": "query"}]}}}
    }"#);
    let modules = vec![module("api.createPets", "POST", "/pets")];
    let hazards = detect_proxy_hazards(&spec, &modules);
    assert_eq!(hazards.len(), 1);
    assert_eq!(hazards[0].module_id, "api.createPets");
}

#[test]
fn hazard_json_shape() {
    let h = Hazard {
        module_id: "createPets".to_string(),
        http_method: "POST".to_string(),
        url_path: "/pets".to_string(),
        parameters: vec!["q".to_string()],
    };
    let v = from_json(&h.to_json());
    assert_eq!(v["module_id"], "createPets");
    assert_eq!(v["http_method"], "POST");
    assert_eq!(v["url_path"], "/pets");
    assert_eq!(v["parameters"][0], "q");
}

#[test]
fn hazards_sort_stably_and_skip_modules_without_routes() {
    let spec = j(r#"{
        "paths": {
            "/b": {"POST": {"parameters": [{"name": "q", "in": "query"}]}},
            "/a": {"post": {"parameters": [{"name": "r", "in": "query"}]}}
        }
    }"#);
    let mut unrouted = module("aaa", "POST", "/a");
    unrouted.http_method = None;
    let modules = vec![
        module("zeta", "POST", "/b"),
        module("alpha", "POST", "/a"),
        module("alpha", "POST", "/b"),
        unrouted,
    ];
    let hazards = detect_proxy_hazards(&spec, &modules);
    let seen: Vec<(&str, &str)> = hazards
        .iter()
        .map(|h| (h.module_id.as_str(), h.url_path.as_str()))
        .collect();
    assert_eq!(seen, vec![("alpha", "/b"), ("alpha", "/a"), ("zeta", "/b")]);
    assert_eq!(hazards[0].http_method, "POST");
}

#[test]
fn planned_yaml_paths_suffix_in_batch_collisions() {
    let modules = vec![module("a/b", "GET", "/x"), module("a:b", "GET", "/y")];
    let paths = planned_paths(&modules, "/out");
    assert_eq!(PathBuf::from(&paths[0]), PathBuf::from("/out/a_b.binding.yaml"));
    assert_eq!(PathBuf::from(&paths[1]), PathBuf::from("/out/a_b_1.binding.yaml"));
}

#[test]
fn planned_paths_use_the_binding_suffix() {
    let modules = vec![module("pets.petid.get", "GET", "/pets/{petId}")];
    let paths = planned_paths(&modules, "/out");
    assert_eq!(
        PathBuf::from(&paths[0]),
        PathBuf::from("/out/pets.petid.get.binding.yaml")
    );
}

#[test]
fn planned_names_never_collide_within_a_batch() {
    let modules = vec![
        module("a/b", "GET", "/1"),
        module("a_b", "GET", "/2"),
        module("a_b_1", "GET", "/3"),
        module("a:b", "GET", "/4"),
    ];
    let names = planned_binding_names(&modules);
    assert_eq!(
        names,
        vec![
            "a_b.binding.yaml",
            "a_b_1.binding.yaml",
            "a_b_1_1.binding.yaml",
            "a_b_2.binding.yaml"
        ]
    );
    let paths = planned_paths(&modules, "out/");
    assert_eq!(paths[0], "out/a_b.binding.yaml");
    assert_eq!(planned_paths(&modules, "")[3], "a_b_2.binding.yaml");
}

#[test]
fn scan_payload_carries_warnings_per_module_and_hazards_at_the_top() {
    let spec = j(r#"{
        "openapi": "3.1.0",
        "info": {"title": "Petstore", "version": "1.0.0"},
        "paths": {}
    }"#);
    let mut m = apcore_toolkit::ScannedModule::new(
        "createPets".to_string(),
        "desc".to_string(),
        serde_json::from_str(r#"{"type": "object"}"#).unwrap(),
        serde_json::from_str(r#"{"type": "object"}"#).unwrap(),
        vec!["pets".to_string()],
        "POST /pets".to_string(),
    );
    m.warnings
        .push("no 2xx response defined; output_schema is empty".to_string());
    let dict = to_json(&apcore_toolkit::serializers::module_to_dict(&m));
    let hazards = vec![Hazard {
        module_id: "createPets".to_string(),
        http_method: "POST".to_string(),
        url_path: "/pets".to_string(),
        parameters: vec!["q".to_string()],
    }];
    let payload = from_json(&scan_payload("./petstore.yaml", &spec, vec![dict], &hazards));
    assert_eq!(payload["source"], "./petstore.yaml");
    assert_eq!(payload["openapi"], "3.1.0");
    assert_eq!(payload["title"], "Petstore");
    assert_eq!(
        payload["modules"][0]["warnings"][0],
        "no 2xx response defined; output_schema is empty"
    );
    assert_eq!(payload["hazards"][0]["module_id"], "createPets");
    assert!(
        payload["modules"][0].get("hazards").is_none(),
        "hazards are a top-level key, not a module field"
    );
}

#[test]
fn scan_payload_uses_null_for_missing_document_fields() {
    let payload = from_json(&scan_payload("s", &j("{}"), Vec::new(), &Vec::new()));
    assert!(payload["openapi"].is_null());
    assert!(payload["title"].is_null());
    assert!(payload["version"].is_null());
    assert!(payload["modules"].as_array().unwrap().is_empty());
    assert!(payload["hazards"].as_array().unwrap().is_empty());
}

#[test]
fn scan_table_names_the_document_and_the_routes() {
    let spec = j(r#"{
        "openapi": "3.1.0",
        "info": {"title": "Petstore", "version": "1.0.0"},
        "paths": {}
    }"#);
    let modules = vec![module("listPets", "GET", "/pets")];
    let out = render_scan_table("./petstore.yaml", &spec, &modules, None);
    assert!(out.starts_with("1 operation from ./petstore.yaml (OpenAPI 3.1.0, Petstore 1.0.0)"));
    assert!(out.contains("GET /pets"), "{out}");
    assert!(out.contains("Module ID"), "{out}");
}

#[test]
fn scan_header_fills_in_what_the_document_lacks() {
    assert_eq!(
        scan_header("x.yaml", &j("{}"), 0),
        "0 operations from x.yaml (OpenAPI ?, untitled )"
    );
    assert_eq!(
        render_scan_table("x.yaml", &j(r#"{"openapi": "3.0.0"}"#), &Vec::new(), None),
        "0 operations from x.yaml (OpenAPI 3.0.0, untitled )"
    );
}

#[test]
fn diagnostics_render_warnings_and_hazards_separately() {
    let mut m = module("showPetById", "GET", "/pets/{petId}");
    m.warnings.push("no 2xx response defined".to_string());
    let hazards = vec![Hazard {
        module_id: "createPets".to_string(),
        http_method: "POST".to_string(),
        url_path: "/pets".to_string(),
        parameters: vec!["a".to_string(), "b".to_string()],
    }];
    let out = render_diagnostics(&vec![m], &hazards);
    assert!(out.contains("1 warning:"), "{out}");
    assert!(out.contains("showPetById  no 2xx response defined"), "{out}");
    assert!(out.contains("1 operation cannot be proxied by FE-15b:"), "{out}");
    assert!(out.contains("POST with 2 'in: query' parameters: a, b"), "{out}");
}

#[test]
fn diagnostics_are_empty_for_a_clean_scan() {
    assert_eq!(render_diagnostics(&vec![module("m", "GET", "/x")], &Vec::new()), "");
}

#[test]
fn diagnostics_text_is_exact() {
    let mut a = module("a", "GET", "/a");
    a.warnings.push("w1".to_string());
    a.warnings.push("w2".to_string());
    let out = render_diagnostics(&vec![a], &Vec::new());
    assert_eq!(out, "\n2 warnings:\n  a  w1\n  a  w2\n");
}

#[test]
fn scan_rows_follow_the_records() {
    let mut m = module("listPets", "GET", "/pets");
    m.tags = vec!["pets".to_string(), "read".to_string()];
    let rows = scan_grid(&vec![m, module("createPets", "POST", "/pets")]);
    assert_eq!(rows, vec![
        vec!["listPets".to_string(), "GET /pets".to_string(), "desc".to_string(), "pets, read".to_string()],
        vec!["createPets".to_string(), "POST /pets".to_string(), "desc".to_string(), "pets".to_string()],
    ]);
}
