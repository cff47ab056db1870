use kival::catalog::Json;
use kival::kernel::{comment_status, ApiKeyAttribution, CommentStatus, EventInsert};
use kival::kernel::{
    parse_optional_stored, parse_stored, role_capability, EventKind, KernelError, OperatorRecoveryRevocations,
    PasskeyEnrollmentPurpose, RoleCapability,
};
use kival::vocab::{MembershipRole, ObjectRole};

#[test]
fn event_kinds_have_stable_names() {
    assert_eq!(EventKind::AdminBootstrapCompleted.as_str(), "admin.bootstrap.completed");
    assert_eq!(EventKind::CommentThreadResolved.as_str(), "comment_thread.resolved");
    assert_eq!(EventKind::ObjectWikilinksReresolved.as_str(), "object.wikilinks_reresolved");
    assert_eq!(EventKind::WorkspaceUpdated.as_str(), "workspace.updated");
}

#[test]
fn enrollment_purposes_round_trip() {
    for purpose in [PasskeyEnrollmentPurpose::Enrollment, PasskeyEnrollmentPurpose::PasskeyReset] {
        assert_eq!(PasskeyEnrollmentPurpose::from_str(purpose.as_str()), Some(purpose));
    }
    assert_eq!(PasskeyEnrollmentPurpose::PasskeyReset.as_str(), "passkey_reset");
    assert_eq!(PasskeyEnrollmentPurpose::from_str("reset"), None);
}

#[test]
fn stored_values_parse_or_fail_with_their_kind() {
    assert_eq!(parse_stored::<ObjectRole>("object role", "editor".to_string()), Ok(ObjectRole::Editor));
    let error = parse_stored::<MembershipRole>("group membership role", "owner".to_string()).unwrap_err();
    assert_eq!(error.message(), "invalid stored group membership role: owner");
    assert_eq!(parse_optional_stored::<ObjectRole>("object role", None), Ok(None));
    assert_eq!(
        role_capability(true, Some("admin".to_string())),
        Ok(RoleCapability { exists: true, role: Some(ObjectRole::Admin) })
    );
    assert!(role_capability(false, Some("root".to_string())).is_err());
}

#[test]
fn returns_not_found_and_capability_codes() {
    assert_eq!(KernelError::from_database_code(Some("KRNFD"), "x".to_string()), KernelError::ResourceNotFound);
    assert_eq!(KernelError::from_database_code(Some("KCAPR"), "x".to_string()), KernelError::CapabilityRequired);
    assert_eq!(
        KernelError::from_database_code(Some("23505"), "duplicate".to_string()).message(),
        "database error: duplicate"
    );
    assert_eq!(KernelError::ResourceNotFound.message(), "resource not found");
}

#[test]
fn api_keys_are_counted_only_when_revoked() {
    let kept = OperatorRecoveryRevocations::from_counts(1, 2, 5, false);
    assert_eq!(kept.api_keys, 0);
    let revoked = OperatorRecoveryRevocations::from_counts(1, 2, 5, true);
    assert_eq!((revoked.passkeys, revoked.sessions, revoked.api_keys), (1, 2, 5));
}

#[test]
fn comment_status_prefers_deletion_over_expiry() {
    assert_eq!(comment_status(true, true), CommentStatus::Deleted);
    assert_eq!(comment_status(false, true), CommentStatus::Expired);
    assert_eq!(comment_status(false, false), CommentStatus::Active);
}

#[test]
fn event_inserts_collect_their_targets() {
    let event = EventInsert::new(1, EventKind::ObjectCreated, Json::Object(vec![]))
        .workspace(2)
        .object(3)
        .object_version(4)
        .target_user(5)
        .api_key(Some(ApiKeyAttribution { id: 6, label: "ci".to_string() }));
    assert_eq!(event.event_kind, EventKind::ObjectCreated);
    assert_eq!(event.actor_user_id, 1);
    assert_eq!((event.workspace_id, event.object_id, event.object_version_id), (Some(2), Some(3), Some(4)));
    assert_eq!(event.target_user_id, Some(5));
    assert_eq!(event.group_id, None);
    assert_eq!(event.api_key.map(|k| k.id), Some(6));
}

#[test]
fn event_kind_names_are_distinct_and_domain_qualified() {
    let kinds = [
        EventKind::AdminBootstrapCompleted,
        EventKind::AuthPasskeyEnrolled,
        EventKind::AuthPasskeyEnrollmentCodeConsumed,
        EventKind::CommentReplied,
        EventKind::CommentThreadReopened,
        EventKind::ObjectWikilinksReresolved,
        EventKind::ObjectEdgeCreated,
        EventKind::WorkspaceUpdated,
    ];
    for (i, a) in kinds.iter().enumerate() {
        let name = a.as_str();
        let (domain, rest) = name.split_once('.').expect("domain separator");
        assert!(!domain.is_empty() && !rest.is_empty());
        assert!(name.chars().all(|c| c.is_ascii_lowercase() || c == '_' || c == '.'));
        for b in &kinds[i + 1..] {
            assert_ne!(name, b.as_str());
        }
    }
}
