use kival::args::DatadirArgs;
use kival::config::{
    database_pool_settings, replace_env_vars, ConfigCommand, ConfigDefaults, ConfigLayer, ConfigSource,
    DatabasePoolSettings, ReplaceError, ServeCommand, ServeError, ServerConfig,
};
use kival::dirs::MaybePlatformPath;
use kival::env::EnvVars;

fn env(pairs: &[(&str, &str)]) -> EnvVars {
    EnvVars { vars: pairs.iter().map(|(k, v)| (k.to_string(), v.to_string())).collect() }
}

#[test]
fn replace_env_vars_works() {
    let input = r#"
            key = "${TEST_KEY_REPLACE}"
            value = ${TEST_VALUE_REPLACE}
        "#;
    let expected = r#"
            key = "env_value"
            value = 42
        "#;
    let vars = env(&[("TEST_KEY_REPLACE", "env_value"), ("TEST_VALUE_REPLACE", "42")]);
    let output = replace_env_vars(input, &vars).expect("placeholders are set");
    assert_eq!(output.trim(), expected.trim());
}

#[test]
fn replace_env_vars_unset_var_errors() {
    let input = r#"
            key = "${TEST_KEY}"
            value = ${TEST_VALUE
        "#;

    let err = replace_env_vars(input, &env(&[])).expect_err("unset env var should error");
    assert!(err.message().contains("environment variable `TEST_KEY` is not set"));
}

#[test]
fn replace_env_vars_unclosed_placeholder_errors() {
    let input = r#"
            key = "${TEST_KEY"
            value = ${TEST_VALUE
        "#;

    let err = replace_env_vars(input, &env(&[])).expect_err("unterminated placeholder should error");
    assert!(err.message().contains("unterminated `${...}` placeholder"));
}

#[test]
fn replace_env_vars_leaves_plain_text_alone() {
    let text = "listen = \"127.0.0.1:3000\" # $ and { and } alone";
    assert_eq!(replace_env_vars(text, &env(&[])), Ok(text.to_string()));
    assert_eq!(replace_env_vars("${A}${B}", &env(&[("A", "x"), ("B", "${A}")])), Ok("x${A}".to_string()));
    assert_eq!(replace_env_vars("${}", &env(&[])), Err(ReplaceError::Unset(String::new())));
}

#[test]
fn server_pool_requires_capacity_beyond_realtime_listener() {
    let mut config = ServerConfig::with_defaults();
    config.database_max_connections = Some(1);

    let error = database_pool_settings(&config)
        .expect_err("one connection would be monopolized by the realtime listener");
    assert!(error.message().contains("must be at least 2"));
    assert_eq!(error, ServeError::PoolTooSmall(1));
}

#[test]
fn pool_settings_follow_the_configuration() {
    let mut config = ServerConfig::empty();
    let settings = database_pool_settings(&config).expect("defaults are large enough");
    assert_eq!(settings, DatabasePoolSettings::default());
    config.database_max_connections = Some(2);
    config.database_acquire_timeout_seconds = Some(9);
    let settings = database_pool_settings(&config).expect("two connections suffice");
    assert_eq!(settings, DatabasePoolSettings { max_connections: 2, acquire_timeout_seconds: 9 });
}

#[test]
fn higher_layers_win_and_defaults_fill_the_rest() {
    let mut cli = ServerConfig::empty();
    cli.listen = Some("0.0.0.0:8080".to_string());
    let mut file = ServerConfig::empty();
    file.listen = Some("127.0.0.1:9000".to_string());
    file.canonical_url = Some("https://kival.example".to_string());
    file.allowed_origins = Some(vec!["https://a.example".to_string()]);

    let merged = cli.merge(file).merge(ServerConfig::with_defaults());
    assert_eq!(merged.listen(), "0.0.0.0:8080");
    assert_eq!(merged.canonical_url(), "https://kival.example");
    assert_eq!(merged.allowed_origins(), vec!["https://a.example".to_string()]);
    assert_eq!(merged.database_max_connections(), 8);
    assert_eq!(merged.graceful_shutdown_timeout_seconds(), 30);

    let empty = ServerConfig::empty();
    assert_eq!(empty.listen(), "127.0.0.1:3000");
    assert_eq!(empty.canonical_url(), "http://localhost:3000");
    assert!(empty.allowed_origins().is_empty());
    assert_eq!(empty.database_acquire_timeout_seconds(), 5);
}

#[test]
fn serve_arguments_override_the_loaded_configuration() {
    let serve = ServeCommand {
        listen: Some("0.0.0.0:1".to_string()),
        database_max_connections: Some(16),
        ..ServeCommand::default()
    };
    let mut file = ServerConfig::empty();
    file.listen = Some("127.0.0.1:2".to_string());
    file.canonical_url = Some("https://c.example".to_string());
    let config = serve.apply_overrides(file);
    assert_eq!(config.listen(), "0.0.0.0:1");
    assert_eq!(config.canonical_url(), "https://c.example");
    assert_eq!(config.database_max_connections(), 16);
    assert_eq!(serve.config_path("/var/lib/kival"), "/var/lib/kival/kival.toml");
    let explicit = ServeCommand { config: Some("/etc/kival.toml".to_string()), ..ServeCommand::default() };
    assert_eq!(explicit.config_path("/var/lib/kival"), "/etc/kival.toml");
}

#[test]
fn config_command_sources() {
    let vars = env(&[("HOME", "/home/u")]);
    let defaults = ConfigCommand { default: true, ..ConfigCommand::default() };
    assert_eq!(defaults.config_source(&vars), ConfigSource::Defaults);
    let standard = ConfigCommand::default();
    assert_eq!(
        standard.config_source(&vars),
        ConfigSource::File("/home/u/.local/share/kival/kival.toml".to_string())
    );
    let custom = ConfigCommand {
        datadir: DatadirArgs { datadir: MaybePlatformPath::from_path("/data/".to_string()) },
        ..ConfigCommand::default()
    };
    assert_eq!(custom.config_source(&vars), ConfigSource::File("/data/kival.toml".to_string()));
}
