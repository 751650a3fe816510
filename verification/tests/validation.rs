use layer_config::resolve::config_path;
use layer_config::scalar::{Scalar, ScalarType};
use layer_config::schema::{ConfigError, FieldDesc, Schema};

fn field(name: &str, ty: ScalarType, default: Option<Scalar>) -> FieldDesc {
    FieldDesc { name: name.to_string(), ty, default, optional: false }
}

fn strings(args: &[&str]) -> Vec<String> {
    args.iter().map(|s| s.to_string()).collect()
}

#[test]
fn duplicate_field_names_are_rejected() {
    let r = Schema::new(vec![
        field("port", ScalarType::Int, Some(Scalar::Int(1))),
        field("port", ScalarType::Int, Some(Scalar::Int(2))),
    ]);
    assert_eq!(r.err(), Some(ConfigError::InvalidSchema));
}

#[test]
fn invalid_field_name_is_rejected() {
    let r = Schema::new(vec![field("Port", ScalarType::Int, Some(Scalar::Int(1)))]);
    assert_eq!(r.err(), Some(ConfigError::InvalidSchema));
    let r = Schema::new(vec![field("", ScalarType::Int, None)]);
    assert_eq!(r.err(), Some(ConfigError::InvalidSchema));
}

#[test]
fn default_of_the_wrong_type_is_rejected() {
    let r = Schema::new(vec![field("port", ScalarType::Int, Some(Scalar::Str("22".to_string())))]);
    assert_eq!(r.err(), Some(ConfigError::InvalidSchema));
}

#[test]
fn optional_non_string_field_is_rejected() {
    let r = Schema::new(vec![FieldDesc {
        name: "port".to_string(),
        ty: ScalarType::Int,
        default: None,
        optional: true,
    }]);
    assert_eq!(r.err(), Some(ConfigError::InvalidSchema));
}

#[test]
fn well_formed_schema_is_accepted() {
    let r = Schema::new(vec![
        field("port", ScalarType::Int, Some(Scalar::Int(22))),
        field("verbose", ScalarType::Bool, None),
    ]);
    assert!(r.is_ok());
}

#[test]
fn config_path_names_the_cli_value() {
    let schema = Schema::new(vec![
        field("config", ScalarType::Str, Some(Scalar::Str("default.yml".to_string()))),
        field("port", ScalarType::Int, Some(Scalar::Int(22))),
    ])
    .unwrap();
    let path = config_path(&schema, &strings(&["--config", "other.yml"])).unwrap();
    assert_eq!(path, Some("other.yml".to_string()));
    let path = config_path(&schema, &Vec::new()).unwrap();
    assert_eq!(path, Some("default.yml".to_string()));
}

#[test]
fn config_path_is_nothing_without_a_config_field() {
    let schema = Schema::new(vec![field("port", ScalarType::Int, Some(Scalar::Int(22)))]).unwrap();
    assert_eq!(config_path(&schema, &Vec::new()).unwrap(), None);
}

#[test]
fn config_path_fails_exactly_on_a_cli_parse_error() {
    let schema = Schema::new(vec![
        field("config", ScalarType::Str, Some(Scalar::Str("default.yml".to_string()))),
    ])
    .unwrap();
    let r = config_path(&schema, &strings(&["--unknown", "x"]));
    assert_eq!(r.err(), Some(ConfigError::CliParse));
}

#[test]
fn non_string_config_field_gives_no_file_support() {
    let schema = Schema::new(vec![
        field("config", ScalarType::Int, Some(Scalar::Int(1))),
        field("port", ScalarType::Int, Some(Scalar::Int(22))),
    ])
    .unwrap();
    assert_eq!(config_path(&schema, &Vec::new()).unwrap(), None);
}
