use kival::env::{require_env_var, EnvVars, MissingEnvVar};

#[test]
fn required_variables() {
    let mut env = EnvVars::new();
    env.set_if_absent("DATABASE_URL".to_string(), "postgres://db".to_string());
    env.set_if_absent("DATABASE_URL".to_string(), "ignored".to_string());
    assert_eq!(require_env_var(&env, "DATABASE_URL"), Ok("postgres://db".to_string()));
    let missing = require_env_var(&env, "KIVAL_MISSING").unwrap_err();
    assert_eq!(missing, MissingEnvVar("KIVAL_MISSING".to_string()));
    assert_eq!(missing.message(), "Missing required environment variable: KIVAL_MISSING");
    assert!(env.contains(&"DATABASE_URL".to_string()));
    assert_eq!(env.duplicate().get(&"DATABASE_URL".to_string()), Some("postgres://db".to_string()));
}
