use file_to_html::config::{
    AesLevel, AppConfig, ConfigError, DefaultConfigAdapter, InteractiveConfigAdapter, Layer,
    PasswordMode, get_log_level_option, get_no_progress_option, validate_cli_args,
    validate_file_patterns, validate_input_path,
};

#[test]
fn patterns_validate_as_a_whole() {
    let ok = validate_file_patterns(&vec![String::from("*.txt")], &None);
    assert!(ok.is_ok());
    let ok2 = validate_file_patterns(
        &vec![String::from("*")],
        &Some(vec![String::from(".png")]),
    );
    assert!(ok2.is_ok());
}

#[test]
fn first_bad_include_pattern_is_reported() {
    let r = validate_file_patterns(&vec![String::from("*"), String::from("a/b")], &None);
    match r {
        Err(ConfigError::InvalidIncludePattern(p)) => assert_eq!(p, "a/b"),
        _ => panic!("expected the include pattern failure"),
    }
}

#[test]
fn bad_exclude_pattern_is_reported_after_includes() {
    let r = validate_file_patterns(
        &vec![String::from("*")],
        &Some(vec![String::from(".png"), String::from("")]),
    );
    match r {
        Err(ConfigError::InvalidExcludePattern(p)) => assert_eq!(p, ""),
        _ => panic!("expected the exclude pattern failure"),
    }
}

#[test]
fn missing_input_path_is_fatal() {
    assert!(validate_input_path("somewhere", true).is_ok());
    match validate_input_path("somewhere", false) {
        Err(ConfigError::InputNotFound(p)) => assert_eq!(p, "somewhere"),
        _ => panic!("expected the not-found failure"),
    }
}

fn base_config() -> AppConfig {
    AppConfig {
        input: String::from("in"),
        output: String::from("out"),
        is_compressed: true,
        compress: true,
        includes: vec![String::from("*")],
        excludes: None,
        password_mode: PasswordMode::Random,
        display_password: true,
        layer: Layer::Single,
        encryption_method: AesLevel::Aes256,
        no_progress: false,
        max_size: None,
    }
}

#[test]
fn whole_tree_mode_rejects_the_passthrough_plan() {
    let mut config = base_config();
    config.layer = Layer::Passthrough;
    match validate_cli_args(&config, true) {
        Err(ConfigError::LayerNotAllowed) => {},
        _ => panic!("expected the layer failure"),
    }
    config.is_compressed = false;
    assert!(validate_cli_args(&config, true).is_ok());
}

#[test]
fn valid_configuration_passes() {
    assert!(validate_cli_args(&base_config(), true).is_ok());
}

#[test]
fn defaults_are_the_documented_bundle() {
    let adapter = DefaultConfigAdapter::new(String::from("in"), String::from("out"));
    let config = adapter.get_config();
    assert_eq!(config.input, "in");
    assert_eq!(config.output, "out");
    assert!(config.is_compressed);
    assert!(config.compress);
    assert_eq!(config.includes, vec![String::from("*")]);
    assert!(config.excludes.is_none());
    assert_eq!(config.password_mode, PasswordMode::Random);
    assert!(config.display_password);
    assert_eq!(config.layer, Layer::Single);
    assert_eq!(config.encryption_method, AesLevel::Aes256);
    assert!(!config.no_progress);
    assert!(config.max_size.is_none());
}

#[test]
fn interactive_adapter_carries_the_paths() {
    let adapter = InteractiveConfigAdapter::new(String::from("a"), String::from("b"));
    assert_eq!(adapter.input, "a");
    assert_eq!(adapter.output, "b");
}

#[test]
fn front_end_defaults() {
    assert!(!get_no_progress_option());
    assert_eq!(get_log_level_option(), "info");
}
