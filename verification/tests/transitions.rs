use kival::catalog::Json;
use kival::demo_seed::GrantPrincipal;
use kival::json::json_equal;
use kival::kernel::KernelError;
use kival::transitions::{
    apply_version_changes, check_admin_retained, check_attachment_target, check_reference_source,
    current_version_for_update, grant_change_removes_admin, grant_principal_from_columns, lock_order,
    VersionChanges, VersionContent,
};
use kival::vocab::ObjectRole;

fn meta(status: &str) -> Json {
    Json::Object(vec![
        ("priority".to_string(), Json::Number("2".to_string())),
        ("status".to_string(), Json::Str(status.to_string())),
    ])
}

fn content() -> VersionContent {
    VersionContent { title: "Plan".to_string(), body: "Ship it.".to_string(), metadata: meta("draft") }
}

#[test]
fn json_values_compare_by_contents() {
    assert!(json_equal(&meta("draft"), &meta("draft")));
    assert!(!json_equal(&meta("draft"), &meta("final")));
    assert!(!json_equal(&Json::Number("1".to_string()), &Json::Str("1".to_string())));
    assert!(json_equal(
        &Json::Array(vec![Json::Null, Json::Bool(true)]),
        &Json::Array(vec![Json::Null, Json::Bool(true)])
    ));
    assert!(!json_equal(&Json::Array(vec![Json::Null]), &Json::Array(vec![Json::Null, Json::Null])));
}

#[test]
fn update_requires_the_expected_current_version() {
    assert_eq!(current_version_for_update(None, 7), Err(KernelError::ResourceNotFound));
    assert_eq!(current_version_for_update(Some(None), 7), Err(KernelError::ObjectHasNoCurrentVersion));
    assert_eq!(current_version_for_update(Some(Some(8)), 7), Err(KernelError::ObjectVersionConflict));
    assert_eq!(current_version_for_update(Some(Some(7)), 7), Ok(7));
}

#[test]
fn restating_the_current_content_is_a_no_op() {
    let changes = VersionChanges {
        title: Some("Plan".to_string()),
        body: None,
        metadata: Some(meta("draft")),
    };
    let outcome = apply_version_changes(content(), changes);
    assert!(!outcome.changed);
    assert_eq!(outcome.content.title, "Plan");
    assert_eq!(outcome.content.body, "Ship it.");
}

#[test]
fn empty_update_is_a_no_op() {
    let changes = VersionChanges { title: None, body: None, metadata: None };
    assert!(!apply_version_changes(content(), changes).changed);
}

#[test]
fn changed_field_appends_a_version_with_the_rest_kept() {
    let changes = VersionChanges { title: None, body: None, metadata: Some(meta("final")) };
    let outcome = apply_version_changes(content(), changes);
    assert!(outcome.changed);
    assert_eq!(outcome.content.title, "Plan");
    assert_eq!(outcome.content.body, "Ship it.");
    assert!(json_equal(&outcome.content.metadata, &meta("final")));
}

#[test]
fn stored_grant_principal_has_exactly_one_column() {
    assert_eq!(grant_principal_from_columns(Some(5), None), Ok(GrantPrincipal::User(5)));
    assert_eq!(grant_principal_from_columns(None, Some(6)), Ok(GrantPrincipal::Group(6)));
    assert_eq!(
        grant_principal_from_columns(None, None),
        Err(KernelError::InvalidStoredValue { kind: "object grant principal", value: "user=None, group=None".to_string() })
    );
    let both = grant_principal_from_columns(Some(0x67e5_5044_10b1_426f_9247_bb68_0e5f_e0c8), Some(1));
    assert_eq!(
        both,
        Err(KernelError::InvalidStoredValue {
            kind: "object grant principal",
            value: "user=Some(67e55044-10b1-426f-9247-bb680e5fe0c8), group=Some(00000000-0000-0000-0000-000000000001)"
                .to_string(),
        })
    );
}

#[test]
fn final_admin_grant_cannot_be_removed() {
    assert!(grant_change_removes_admin(ObjectRole::Admin, None));
    assert!(grant_change_removes_admin(ObjectRole::Admin, Some(ObjectRole::Editor)));
    assert!(!grant_change_removes_admin(ObjectRole::Admin, Some(ObjectRole::Admin)));
    assert!(!grant_change_removes_admin(ObjectRole::Viewer, None));
    assert_eq!(check_admin_retained(ObjectRole::Admin, None, 1), Err(KernelError::ObjectMustRetainAdminGrant));
    assert_eq!(
        check_admin_retained(ObjectRole::Admin, Some(ObjectRole::Viewer), 1),
        Err(KernelError::ObjectMustRetainAdminGrant)
    );
    assert_eq!(check_admin_retained(ObjectRole::Admin, None, 2), Ok(()));
    assert_eq!(check_admin_retained(ObjectRole::Editor, None, 1), Ok(()));
}

#[test]
fn attachment_targets_are_validated_in_order() {
    assert_eq!(check_attachment_target(false, true, Some(false)), Err(KernelError::ResourceNotFound));
    assert_eq!(check_attachment_target(true, false, None), Err(KernelError::ResourceNotFound));
    assert_eq!(check_attachment_target(true, true, Some(false)), Err(KernelError::InvalidAttachmentVersion));
    assert_eq!(check_attachment_target(true, true, Some(true)), Ok(()));
    assert_eq!(check_attachment_target(true, true, None), Ok(()));
}

#[test]
fn references_rebuild_only_from_the_current_version() {
    assert_eq!(check_reference_source(Some(Some(3)), 3), Ok(()));
    assert_eq!(check_reference_source(Some(Some(4)), 3), Err(KernelError::ResourceNotFound));
    assert_eq!(check_reference_source(Some(None), 3), Err(KernelError::ResourceNotFound));
    assert_eq!(check_reference_source(None, 3), Err(KernelError::ResourceNotFound));
}

#[test]
fn objects_are_locked_in_one_canonical_order() {
    assert_eq!(lock_order(&vec![9, 2, 9, 5, 2]), vec![2, 5, 9]);
    assert_eq!(lock_order(&vec![5, 9, 2]), lock_order(&vec![2, 2, 9, 5]));
    assert!(lock_order(&Vec::new()).is_empty());
}
