use apcore_cli::bootstrap::{
    extract_argv_option, extract_binding_path, extract_commands_dir, extract_extensions_dir,
    extensions_dir_check, has_all_options_flag, resolve_log_level, split_module_id, to_struct_name,
    LOG_LEVELS,
};

fn args(v: &[&str]) -> Vec<String> {
    v.iter().map(|s| s.to_string()).collect()
}

#[test]
fn argv_options_in_both_forms() {
    let a = args(&["prog", "--extensions-dir", "/ext", "--binding=b.yaml"]);
    assert_eq!(extract_extensions_dir(&a).as_deref(), Some("/ext"));
    assert_eq!(extract_binding_path(&a).as_deref(), Some("b.yaml"));
    assert_eq!(extract_commands_dir(&a), None);
    assert_eq!(extract_argv_option(&args(&["--x"]), "--x"), None);
    assert_eq!(extract_argv_option(&args(&["--x=", "--x", "y"]), "--x").as_deref(), Some(""));
    assert!(has_all_options_flag(&args(&["a", "--all-options"])));
    assert!(!has_all_options_flag(&args(&["--all-options=1"])));
}

#[test]
fn log_level_precedence() {
    assert_eq!(resolve_log_level(Some("debug"), Some("info"), None), "debug");
    assert_eq!(resolve_log_level(None, Some("info"), Some("error")), "info");
    assert_eq!(resolve_log_level(None, Some(""), Some("error")), "error");
    assert_eq!(resolve_log_level(None, None, None), "warn");
}

#[test]
fn struct_names_are_pascal_case() {
    assert_eq!(to_struct_name("add_numbers"), "AddNumbersModule");
    assert_eq!(to_struct_name("x__y"), "XYModule");
    assert_eq!(to_struct_name(""), "Module");
}

#[test]
fn module_ids_split_at_the_last_dot() {
    assert_eq!(split_module_id("math.ops.add"), ("math.ops".to_string(), "add".to_string()));
    assert_eq!(split_module_id("solo"), ("solo".to_string(), "solo".to_string()));
}

#[test]
fn test_extract_extensions_dir_flag_space_form() {
    let args: Vec<String> = vec!["--extensions-dir".to_string(), "/tmp/ext".to_string()];
    assert_eq!(extract_extensions_dir(&args), Some("/tmp/ext".to_string()));
}

#[test]
fn test_extract_extensions_dir_flag_equals_form() {
    let args: Vec<String> = vec!["--extensions-dir=/tmp/ext".to_string()];
    assert_eq!(extract_extensions_dir(&args), Some("/tmp/ext".to_string()));
}

#[test]
fn test_extract_extensions_dir_missing_returns_none() {
    let args: Vec<String> = vec!["--log-level".to_string(), "DEBUG".to_string()];
    assert_eq!(extract_extensions_dir(&args), None);
}

#[test]
fn test_extract_extensions_dir_empty_argv_returns_none() {
    assert_eq!(extract_extensions_dir(&[]), None);
}

#[test]
fn test_extract_extensions_dir_partial_match_ignored() {
    let args: Vec<String> = vec!["--extensions-dir-extra=/tmp/ext".to_string()];
    assert_eq!(extract_extensions_dir(&args), None);
}

#[test]
fn test_extract_extensions_dir_flag_at_end_without_value() {
    let args: Vec<String> = vec!["--extensions-dir".to_string()];
    assert_eq!(extract_extensions_dir(&args), None);
}

#[test]
fn test_extract_commands_dir_space_form() {
    let args: Vec<String> = vec!["--commands-dir".to_string(), "/tmp/cmds".to_string()];
    assert_eq!(extract_commands_dir(&args), Some("/tmp/cmds".to_string()));
}

#[test]
fn test_extract_commands_dir_equals_form() {
    let args: Vec<String> = vec!["--commands-dir=/tmp/cmds".to_string()];
    assert_eq!(extract_commands_dir(&args), Some("/tmp/cmds".to_string()));
}

#[test]
fn test_extract_commands_dir_missing_returns_none() {
    assert_eq!(extract_commands_dir(&[]), None);
}

#[test]
fn test_extract_binding_path_space_form() {
    let args: Vec<String> = vec!["--binding".to_string(), "binding.yaml".to_string()];
    assert_eq!(extract_binding_path(&args), Some("binding.yaml".to_string()));
}

#[test]
fn test_extract_binding_path_equals_form() {
    let args: Vec<String> = vec!["--binding=binding.yaml".to_string()];
    assert_eq!(extract_binding_path(&args), Some("binding.yaml".to_string()));
}

#[test]
fn test_extract_binding_path_missing_returns_none() {
    assert_eq!(extract_binding_path(&[]), None);
}

#[test]
fn test_extract_argv_option_generic() {
    let args: Vec<String> = vec!["--foo".to_string(), "bar".to_string()];
    assert_eq!(extract_argv_option(&args, "--foo"), Some("bar".to_string()));
    assert_eq!(extract_argv_option(&args, "--baz"), None);
}

#[test]
fn test_resolve_log_level_override_wins() {
    assert_eq!(resolve_log_level(Some("DEBUG"), None, None), "DEBUG");
}

#[test]
fn test_resolve_log_level_no_override_returns_warn() {
    // neither variable is set
    assert_eq!(resolve_log_level(None, None, None), "warn");
}

#[test]
fn log_level_environment_precedence() {
    assert_eq!(resolve_log_level(None, Some("INFO"), Some("ERROR")), "INFO");
    assert_eq!(resolve_log_level(None, Some(""), Some("ERROR")), "ERROR");
    assert_eq!(resolve_log_level(Some("DEBUG"), Some("INFO"), None), "DEBUG");
}

#[test]
fn test_validate_extensions_dir_nonexistent_returns_err() {
    let result = extensions_dir_check("/nonexistent/path/xxx", false, false);
    assert!(result.is_err());
    assert!(result.unwrap_err().contains("not found"));
}

#[test]
fn test_validate_extensions_dir_valid_returns_ok() {
    // the temporary directory exists and can be listed
    let result = extensions_dir_check("/tmp", true, true);
    assert!(result.is_ok());
}

#[test]
fn unreadable_extensions_dir_is_its_own_error() {
    assert_eq!(
        extensions_dir_check("/x", true, false).unwrap_err(),
        "Cannot read extensions directory: '/x'. Check file permissions."
    );
    assert_eq!(
        extensions_dir_check("/x", false, false).unwrap_err(),
        "Extensions directory not found: '/x'. Set APCORE_EXTENSIONS_ROOT or verify the path."
    );
}

#[test]
fn test_log_levels_constant_has_expected_values() {
    assert!(LOG_LEVELS.contains(&"DEBUG"));
    assert!(LOG_LEVELS.contains(&"INFO"));
    assert!(LOG_LEVELS.contains(&"WARNING"));
    assert!(LOG_LEVELS.contains(&"ERROR"));
}
