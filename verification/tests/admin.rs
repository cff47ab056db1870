use kival::admin::{
    api_key_notice, bootstrap_step, enrollment_code_from_secret, enrollment_url, initializer_line,
    select_initializer, user_argument, user_creation_allowed, user_fields, AdminError, BootstrapStep,
    UserLifecycleAction,
};
use kival::admin::{generate_enrollment_code, user_lookup, AdminCommand, UserLookup};
use kival::config::{ConfigDefaults, ServerConfig};
use kival::catalog::WorkspaceInitializerKind;
use kival::initializers::WorkspaceInitializerOption;
use kival::kernel::{EventKind, OperatorRecoveryRevocations};
use kival::security::hash_token;

#[test]
fn bootstrap_decisions() {
    assert_eq!(bootstrap_step(1, 5), Ok(BootstrapStep::AlreadyBootstrapped));
    assert_eq!(bootstrap_step(0, 1), Err(AdminError::UsersExist));
    assert_eq!(bootstrap_step(0, 0), Ok(BootstrapStep::CreateAdmin));
    assert_eq!(
        user_fields(" admin ", " Admin User "),
        Ok(("admin".to_string(), "Admin User".to_string()))
    );
    assert_eq!(user_fields("  ", "x").unwrap_err().message(), "username must not be empty");
    assert_eq!(user_fields("a", " ").unwrap_err().message(), "display name must not be empty");
}

#[test]
fn operator_create_reports_existing_username() {
    let error = user_creation_allowed(true, Some("alice".to_string())).unwrap_err();
    assert_eq!(error.message(), "user `alice` already exists");
    assert_eq!(user_creation_allowed(false, None), Err(AdminError::NotBootstrapped));
    assert_eq!(user_creation_allowed(true, None), Ok(()));
}

#[test]
fn operator_disable_and_enable_are_reversible_and_operator_attributed() {
    let disabled = UserLifecycleAction::Disable.transition(false).expect("active user can be disabled");
    assert!(disabled);
    assert_eq!(UserLifecycleAction::Disable.transition(disabled), Err(AdminError::AlreadyDisabled));
    let enabled = UserLifecycleAction::Enable.transition(disabled).expect("disabled user can be enabled");
    assert!(!enabled);
    assert_eq!(UserLifecycleAction::Enable.transition(enabled), Err(AdminError::AlreadyActive));
    assert_eq!(UserLifecycleAction::Disable.event_kind(), EventKind::UserDisabled);
    assert_eq!(UserLifecycleAction::Enable.event_kind(), EventKind::UserEnabled);
    assert_eq!(UserLifecycleAction::Disable.report("bob"), "User bob disabled.");
    assert_eq!(UserLifecycleAction::Enable.past_tense(), "enabled");
}

#[test]
fn user_arguments_are_trimmed() {
    assert_eq!(user_argument(" alice "), Ok("alice".to_string()));
    assert_eq!(user_argument(" "), Err(AdminError::EmptyUser));
}

#[test]
fn recovery_links_and_notices() {
    let code = enrollment_code_from_secret("abc");
    assert_eq!(code.raw_code, "kvl_enroll_abc");
    assert_eq!(code.code_hash, hash_token("kvl_enroll_abc"));
    assert_eq!(
        enrollment_url("https://kival.example", &code.raw_code, "alice"),
        "https://kival.example/auth/enroll#code=kvl_enroll_abc&username=alice"
    );
    let counts = OperatorRecoveryRevocations::from_counts(1, 1, 12, true);
    assert_eq!(api_key_notice(counts, true), "Revoked 12 active API key(s).");
    assert_eq!(api_key_notice(counts, false), "Existing API keys are not affected by passkey recovery.");
}

#[test]
fn workspace_initializer_selection() {
    let t = select_initializer(Some(" project "), None).unwrap().unwrap();
    assert_eq!((t.kind, t.id.as_str()), (WorkspaceInitializerKind::Template, "project"));
    let d = select_initializer(None, Some("acme")).unwrap().unwrap();
    assert_eq!((d.kind, d.id.as_str()), (WorkspaceInitializerKind::Demo, "acme"));
    assert!(select_initializer(None, None).unwrap().is_none());
    assert_eq!(select_initializer(Some(" "), None).unwrap_err().message(), "template ID must not be empty");
    assert_eq!(select_initializer(None, Some("")).unwrap_err().message(), "demo scenario ID must not be empty");
    assert_eq!(
        select_initializer(Some("a"), Some("b")).unwrap_err().message(),
        "template and demo initializers are mutually exclusive"
    );
}

#[test]
fn initializer_listing_lines() {
    let with = WorkspaceInitializerOption {
        kind: WorkspaceInitializerKind::Demo,
        id: "acme".to_string(),
        name: "Acme".to_string(),
        description: Some("A demo".to_string()),
    };
    assert_eq!(initializer_line(&with), "demo\tacme\tAcme\tA demo");
    let without = WorkspaceInitializerOption { description: None, ..with };
    assert_eq!(initializer_line(&without), "demo\tacme\tAcme");
}

#[test]
fn user_arguments_select_by_id_or_username() {
    assert_eq!(
        user_lookup("67e55044-10b1-426f-9247-bb680e5fe0c8"),
        UserLookup::ById(0x67e5_5044_10b1_426f_9247_bb68_0e5f_e0c8)
    );
    assert_eq!(user_lookup("67e5504410b1426f9247bb680e5fe0c8"), UserLookup::ById(0x67e5_5044_10b1_426f_9247_bb68_0e5f_e0c8));
    assert_eq!(user_lookup("Alice"), UserLookup::ByUsername("Alice".to_string()));
    assert_eq!(user_lookup("67e55044"), UserLookup::ByUsername("67e55044".to_string()));
}

#[test]
fn admin_options_pick_the_config_file_and_canonical_url() {
    let plain = AdminCommand::default();
    assert_eq!(plain.config_path("/data"), "/data/kival.toml");
    let given = AdminCommand { config: Some("/etc/kival.toml".to_string()), canonical_url: Some("https://k.example".to_string()) };
    assert_eq!(given.config_path("/data"), "/etc/kival.toml");
    let config = given.apply_canonical_url(ServerConfig::with_defaults());
    assert_eq!(config.canonical_url.as_deref(), Some("https://k.example"));
    assert_eq!(config.listen.as_deref(), Some("127.0.0.1:3000"));
    let kept = plain.apply_canonical_url(ServerConfig::with_defaults());
    assert_eq!(kept.canonical_url.as_deref(), Some("http://localhost:3000"));
}

#[test]
fn enrollment_codes_have_fixed_length() {
    let code = generate_enrollment_code().expect("code generation should succeed");
    assert_eq!(code.raw_code.len(), 54);
    assert!(code.raw_code.starts_with("kvl_enroll_"));
    assert_eq!(code.code_hash, hash_token(&code.raw_code));
}
