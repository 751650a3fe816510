use layer_config::resolve::LayeredConfig;
use layer_config::scalar::{Scalar, ScalarType};
use layer_config::schema::{ConfigError, FieldDesc, Schema};

fn field(name: &str, ty: ScalarType, default: Option<Scalar>) -> FieldDesc {
    FieldDesc { name: name.to_string(), ty, default, optional: false }
}

fn strings(args: &[&str]) -> Vec<String> {
    args.iter().map(|s| s.to_string()).collect()
}

fn with_sentinel(args: &[&str]) -> Vec<String> {
    std::iter::once("test".to_string())
        .chain(args.iter().map(|s| s.to_string()))
        .collect()
}

fn schema_with_config() -> Schema {
    Schema::new(vec![
        field("config", ScalarType::Str, Some(Scalar::Str("default_config.yml".to_string()))),
        field("username", ScalarType::Str, Some(Scalar::Str("default_user".to_string()))),
        field("port", ScalarType::Int, Some(Scalar::Int(22))),
    ])
    .unwrap()
}

fn schema_without_config() -> Schema {
    Schema::new(vec![
        field("name", ScalarType::Str, Some(Scalar::Str("default_name".to_string()))),
        field("age", ScalarType::Int, Some(Scalar::Int(30))),
    ])
    .unwrap()
}

fn no_env() -> Vec<(String, String)> {
    Vec::new()
}

#[test]
fn test_with_config_field() {
    let args = strings(&["--config", "custom_config.yml", "--username", "user1", "--port", "80"]);
    let schema = schema_with_config();
    let config = schema.resolve_from(&args, &no_env(), &None).unwrap();
    assert_eq!(config.get_str("config"), Some("custom_config.yml".to_string()));
    assert_eq!(config.get_str("username"), Some("user1".to_string()));
    assert_eq!(config.get_int("port"), Some(80));
}

#[test]
fn tests_test_with_config_field() {
    let test_args =
        with_sentinel(&["--config", "custom_config.yml", "--username", "user1", "--port", "80"]);
    let schema = schema_with_config();
    let config = schema.resolve_from(&test_args, &no_env(), &None).unwrap();
    assert_eq!(config.get_str("config"), Some("custom_config.yml".to_string()));
    assert_eq!(config.get_str("username"), Some("user1".to_string()));
    assert_eq!(config.get_int("port"), Some(80));
}

#[test]
fn test_without_config_field() {
    let args = strings(&["--name", "Jane", "--age", "25"]);
    let schema = schema_without_config();
    let config = schema.resolve_from(&args, &no_env(), &None).unwrap();
    assert_eq!(config.get_str("name"), Some("Jane".to_string()));
    assert_eq!(config.get_int("age"), Some(25));
}

#[test]
fn tests_test_without_config_field() {
    let test_args = with_sentinel(&["--name", "Jane", "--age", "25"]);
    let schema = schema_without_config();
    let config = schema.resolve_from(&test_args, &no_env(), &None).unwrap();
    assert_eq!(config.get_str("name"), Some("Jane".to_string()));
    assert_eq!(config.get_int("age"), Some(25));
}

#[test]
fn test_defaults_only() {
    let test_args = with_sentinel(&[]);
    let schema = schema_without_config();
    let config = schema.resolve_from(&test_args, &no_env(), &None).unwrap();
    assert_eq!(config.get_str("name"), Some("default_name".to_string()));
    assert_eq!(config.get_int("age"), Some(30));
}

#[test]
fn test_env_and_defaults() {
    let env = vec![("USERNAME".to_string(), "env_user".to_string())];
    let test_args = with_sentinel(&["--port", "80"]);
    let schema = schema_with_config();
    let config = schema.resolve_from(&test_args, &env, &None).unwrap();
    assert_eq!(config.get_str("config"), Some("default_config.yml".to_string()));
    assert_eq!(config.get_str("username"), Some("env_user".to_string()));
    assert_eq!(config.get_int("port"), Some(80));
}

#[test]
fn cli_beats_defaults_with_no_other_sources() {
    let args = strings(&["--port", "80"]);
    let schema = schema_with_config();
    let config = schema.resolve_from(&args, &no_env(), &None).unwrap();
    assert_eq!(config.get_str("config"), Some("default_config.yml".to_string()));
    assert_eq!(config.get_str("username"), Some("default_user".to_string()));
    assert_eq!(config.get_int("port"), Some(80));
}

#[test]
fn empty_arguments_yield_compiled_defaults() {
    let schema = schema_with_config();
    let config = schema.resolve_from(&Vec::new(), &no_env(), &None).unwrap();
    assert_eq!(config.get_str("config"), Some("default_config.yml".to_string()));
    assert_eq!(config.get_str("username"), Some("default_user".to_string()));
    assert_eq!(config.get_int("port"), Some(22));
}

#[test]
fn file_layer_beats_defaults() {
    let schema = schema_with_config();
    let text = Some("port: 99\nusername: file_user\n".to_string());
    let config = schema.resolve_from(&Vec::new(), &no_env(), &text).unwrap();
    assert_eq!(config.get_str("config"), Some("default_config.yml".to_string()));
    assert_eq!(config.get_str("username"), Some("file_user".to_string()));
    assert_eq!(config.get_int("port"), Some(99));
}

#[test]
fn env_beats_file_and_file_beats_defaults() {
    let schema = schema_with_config();
    let env = vec![("PORT".to_string(), "7000".to_string())];
    let text = Some("port: 99\nusername: file_user\n".to_string());
    let config = schema.resolve_from(&Vec::new(), &env, &text).unwrap();
    assert_eq!(config.get_int("port"), Some(7000));
    assert_eq!(config.get_str("username"), Some("file_user".to_string()));
}

#[test]
fn cli_beats_env_and_file() {
    let schema = schema_with_config();
    let env = vec![("PORT".to_string(), "7000".to_string())];
    let text = Some("port: 99\n".to_string());
    let args = strings(&["--port", "80"]);
    let config = schema.resolve_from(&args, &env, &text).unwrap();
    assert_eq!(config.get_int("port"), Some(80));
}

#[test]
fn cli_value_equal_to_default_loses_to_env() {
    // The known edge of the tie-break: an explicit flag holding exactly the
    // compiled-in default is indistinguishable from no flag at all, so the
    // environment still wins.
    let schema = schema_with_config();
    let env = vec![("PORT".to_string(), "7000".to_string())];
    let args = strings(&["--port", "22"]);
    let config = schema.resolve_from(&args, &env, &None).unwrap();
    assert_eq!(config.get_int("port"), Some(7000));
}

#[test]
fn file_ignored_without_config_field() {
    let schema = schema_without_config();
    let text = Some("age: 99\n".to_string());
    let config = schema.resolve_from(&Vec::new(), &no_env(), &text).unwrap();
    assert_eq!(config.get_int("age"), Some(30));
}

#[test]
fn malformed_file_leaves_defaults_standing() {
    let schema = schema_with_config();
    let text = Some(": not yaml ::\n  - [\n".to_string());
    let config = schema.resolve_from(&Vec::new(), &no_env(), &text).unwrap();
    assert_eq!(config.get_int("port"), Some(22));
    assert_eq!(config.get_str("username"), Some("default_user".to_string()));
}

#[test]
fn wrongly_typed_file_value_invalidates_the_document() {
    let schema = schema_with_config();
    let text = Some("port: not_a_number\nusername: file_user\n".to_string());
    let config = schema.resolve_from(&Vec::new(), &no_env(), &text).unwrap();
    // The whole document is discarded, so the username falls back too.
    assert_eq!(config.get_int("port"), Some(22));
    assert_eq!(config.get_str("username"), Some("default_user".to_string()));
}

#[test]
fn file_keys_are_kebab_case() {
    let schema = Schema::new(vec![
        field("config", ScalarType::Str, Some(Scalar::Str("c.yml".to_string()))),
        field("max_retries", ScalarType::Int, Some(Scalar::Int(3))),
    ])
    .unwrap();
    let text = Some("max-retries: 8\n".to_string());
    let config = schema.resolve_from(&Vec::new(), &no_env(), &text).unwrap();
    assert_eq!(config.get_int("max_retries"), Some(8));
}

#[test]
fn env_value_that_does_not_parse_is_treated_as_unset() {
    let schema = schema_with_config();
    let env = vec![("PORT".to_string(), "eighty".to_string())];
    let config = schema.resolve_from(&Vec::new(), &env, &None).unwrap();
    assert_eq!(config.get_int("port"), Some(22));
}

#[test]
fn unknown_flag_is_a_fatal_parse_error() {
    let schema = schema_with_config();
    let args = strings(&["--nonsense", "1"]);
    let r = schema.resolve_from(&args, &no_env(), &None);
    assert_eq!(r.err(), Some(ConfigError::CliParse));
}

#[test]
fn wrongly_typed_flag_value_is_a_fatal_parse_error() {
    let schema = schema_with_config();
    let args = strings(&["--port", "eighty"]);
    let r = schema.resolve_from(&args, &no_env(), &None);
    assert_eq!(r.err(), Some(ConfigError::CliParse));
}

#[test]
fn missing_flag_value_is_a_fatal_parse_error() {
    let schema = schema_with_config();
    let args = strings(&["--port"]);
    let r = schema.resolve_from(&args, &no_env(), &None);
    assert_eq!(r.err(), Some(ConfigError::CliParse));
}

#[test]
fn equals_form_of_a_flag_is_accepted() {
    let schema = schema_with_config();
    let args = strings(&["--port=80", "--username=user1"]);
    let config = schema.resolve_from(&args, &no_env(), &None).unwrap();
    assert_eq!(config.get_int("port"), Some(80));
    assert_eq!(config.get_str("username"), Some("user1".to_string()));
}

#[test]
fn bare_boolean_flag_sets_the_field_true() {
    let schema = Schema::new(vec![
        field("verbose", ScalarType::Bool, Some(Scalar::Bool(false))),
        field("level", ScalarType::Int, Some(Scalar::Int(1))),
    ])
    .unwrap();
    let args = strings(&["--verbose", "--level", "3"]);
    let config = schema.resolve_from(&args, &no_env(), &None).unwrap();
    assert_eq!(config.get_bool("verbose"), Some(true));
    assert_eq!(config.get_int("level"), Some(3));
}

#[test]
fn equals_form_of_a_boolean_flag_takes_the_value() {
    let schema = Schema::new(vec![
        field("verbose", ScalarType::Bool, Some(Scalar::Bool(true))),
    ])
    .unwrap();
    let args = strings(&["--verbose=false"]);
    let config = schema.resolve_from(&args, &no_env(), &None).unwrap();
    assert_eq!(config.get_bool("verbose"), Some(false));
}

#[test]
fn repeated_flag_takes_the_last_occurrence() {
    let schema = schema_with_config();
    let args = strings(&["--port", "80", "--port", "90"]);
    let config = schema.resolve_from(&args, &no_env(), &None).unwrap();
    assert_eq!(config.get_int("port"), Some(90));
}

#[test]
fn equals_form_with_empty_value_gives_the_empty_string() {
    let schema = schema_with_config();
    let args = strings(&["--username="]);
    let config = schema.resolve_from(&args, &no_env(), &None).unwrap();
    assert_eq!(config.get_str("username"), Some(String::new()));
}

#[test]
fn flag_names_are_kebab_case() {
    let schema = Schema::new(vec![
        field("max_retries", ScalarType::Int, Some(Scalar::Int(3))),
    ])
    .unwrap();
    let args = strings(&["--max-retries", "8"]);
    let config = schema.resolve_from(&args, &no_env(), &None).unwrap();
    assert_eq!(config.get_int("max_retries"), Some(8));
}

#[test]
fn field_without_default_falls_back_to_zero_value() {
    let schema = Schema::new(vec![
        field("name", ScalarType::Str, None),
        field("count", ScalarType::Int, None),
        field("flag", ScalarType::Bool, None),
    ])
    .unwrap();
    let config = schema.resolve_from(&Vec::new(), &no_env(), &None).unwrap();
    assert_eq!(config.get_str("name"), Some(String::new()));
    assert_eq!(config.get_int("count"), Some(0));
    assert_eq!(config.get_bool("flag"), Some(false));
}

#[test]
fn optional_field_may_resolve_to_absence() {
    let schema = Schema::new(vec![FieldDesc {
        name: "token".to_string(),
        ty: ScalarType::Str,
        default: None,
        optional: true,
    }])
    .unwrap();
    let config = schema.resolve_from(&Vec::new(), &no_env(), &None).unwrap();
    assert_eq!(config.get_str("token"), None);
    assert_eq!(config.get("token").map(|v| v.is_none()), Some(true));
}

#[test]
fn optional_field_takes_raw_environment_text() {
    let schema = Schema::new(vec![FieldDesc {
        name: "token".to_string(),
        ty: ScalarType::Str,
        default: None,
        optional: true,
    }])
    .unwrap();
    let env = vec![("TOKEN".to_string(), "true".to_string())];
    let config = schema.resolve_from(&Vec::new(), &env, &None).unwrap();
    assert_eq!(config.get_str("token"), Some("true".to_string()));
}

#[test]
fn lookup_of_an_unknown_field_yields_nothing() {
    let schema = schema_without_config();
    let config = schema.resolve_from(&Vec::new(), &no_env(), &None).unwrap();
    assert!(config.get("nothing_here").is_none());
    assert_eq!(config.len(), 2);
}

#[test]
fn resolution_is_repeatable() {
    let schema = schema_with_config();
    let env = vec![("USERNAME".to_string(), "env_user".to_string())];
    let args = strings(&["--port", "80"]);
    let text = Some("username: file_user\n".to_string());
    let first = schema.resolve_from(&args, &env, &text).unwrap();
    let second = schema.resolve_from(&args, &env, &text).unwrap();
    assert_eq!(first.get_str("config"), second.get_str("config"));
    assert_eq!(first.get_str("username"), second.get_str("username"));
    assert_eq!(first.get_int("port"), second.get_int("port"));
    assert_eq!(first.get_str("username"), Some("env_user".to_string()));
}
