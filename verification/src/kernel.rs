//! Vocabulary of the stored state: event kinds, enrollment purposes, stored values read back
//! at the boundary, capability results, kernel errors and the counts that transitions report.
use vstd::prelude::*;
use crate::catalog::Json;
use crate::text::{append_str, str_eq};
use crate::vocab::{MembershipRole, ObjectRole, parse_membership_role, parse_object_role};
use crate::references::{lemma_text_lt_irreflexive, lemma_text_lt_transitive, text_lt};

verus! {

/// Audit event kinds emitted by state transitions.
#[derive(Debug, Clone, Copy, PartialEq, Eq, Hash)]
pub enum EventKind {
    /// Initial administrator bootstrap completed.
    AdminBootstrapCompleted,
    /// Deployment operator issued passkey recovery.
    AdminPasskeyRecoveryIssued,
    /// API key created.
    AuthApiKeyCreated,
    /// API key revoked.
    AuthApiKeyRevoked,
    /// API key updated.
    AuthApiKeyUpdated,
    /// Interactive session logged out.
    AuthLogout,
    /// Passkey enrolled.
    AuthPasskeyEnrolled,
    /// Passkey enrollment code consumed.
    AuthPasskeyEnrollmentCodeConsumed,
    /// Fresh passkey authentication completed.
    AuthPasskeyFreshAuthenticated,
    /// Passkey login completed.
    AuthPasskeyLogin,
    /// Passkey revoked.
    AuthPasskeyRevoked,
    /// Session revoked.
    AuthSessionRevoked,
    /// Comment created.
    CommentCreated,
    /// Comment deleted.
    CommentDeleted,
    /// Comment edited.
    CommentEdited,
    /// User mentioned in a comment.
    CommentMentioned,
    /// Reply created.
    CommentReplied,
    /// Comment thread reopened.
    CommentThreadReopened,
    /// Comment thread resolved.
    CommentThreadResolved,
    /// Group archived.
    GroupArchived,
    /// Group created.
    GroupCreated,
    /// Group membership created.
    GroupMembershipCreated,
    /// Group membership revoked.
    GroupMembershipRevoked,
    /// Group membership updated.
    GroupMembershipUpdated,
    /// Group unarchived.
    GroupUnarchived,
    /// Group updated.
    GroupUpdated,
    /// Object archived.
    ObjectArchived,
    /// Object attachment created.
    ObjectAttachmentCreated,
    /// Object created.
    ObjectCreated,
    /// Object notification preference changed.
    ObjectNotificationPreferenceChanged,
    /// Object references updated.
    ObjectReferencesUpdated,
    /// Object unarchived.
    ObjectUnarchived,
    /// Object updated.
    ObjectUpdated,
    /// Object version appended.
    ObjectVersionAppended,
    /// Object wikilinks re-resolved.
    ObjectWikilinksReresolved,
    /// Object edge created.
    ObjectEdgeCreated,
    /// Object edge revoked.
    ObjectEdgeRevoked,
    /// Object grant created.
    ObjectGrantCreated,
    /// Object grant revoked.
    ObjectGrantRevoked,
    /// Object grant updated.
    ObjectGrantUpdated,
    /// User created.
    UserCreated,
    /// User disabled.
    UserDisabled,
    /// User enabled.
    UserEnabled,
    /// User updated.
    UserUpdated,
    /// Workspace archived.
    WorkspaceArchived,
    /// Workspace created.
    WorkspaceCreated,
    /// Workspace group link archived.
    WorkspaceGroupArchived,
    /// Workspace group linked.
    WorkspaceGroupLinked,
    /// Workspace group link unarchived.
    WorkspaceGroupUnarchived,
    /// Workspace membership created.
    WorkspaceMembershipCreated,
    /// Workspace membership revoked.
    WorkspaceMembershipRevoked,
    /// Workspace membership updated.
    WorkspaceMembershipUpdated,
    /// Workspace unarchived.
    WorkspaceUnarchived,
    /// Workspace updated.
    WorkspaceUpdated,
}

/// The stable persisted name of an event kind.
pub open spec fn event_kind_name(k: EventKind) -> Seq<char> {
    match k {
        EventKind::AdminBootstrapCompleted => "admin.bootstrap.completed"@,
        EventKind::AdminPasskeyRecoveryIssued => "admin.passkey_recovery_issued"@,
        EventKind::AuthApiKeyCreated => "auth.api_key_created"@,
        EventKind::AuthApiKeyRevoked => "auth.api_key_revoked"@,
        EventKind::AuthApiKeyUpdated => "auth.api_key_updated"@,
        EventKind::AuthLogout => "auth.logout"@,
        EventKind::AuthPasskeyEnrolled => "auth.passkey_enrolled"@,
        EventKind::AuthPasskeyEnrollmentCodeConsumed => "auth.passkey_enrollment_code_consumed"@,
        EventKind::AuthPasskeyFreshAuthenticated => "auth.passkey_fresh_authenticated"@,
        EventKind::AuthPasskeyLogin => "auth.passkey_login"@,
        EventKind::AuthPasskeyRevoked => "auth.passkey_revoked"@,
        EventKind::AuthSessionRevoked => "auth.session_revoked"@,
        EventKind::CommentCreated => "comment.created"@,
        EventKind::CommentDeleted => "comment.deleted"@,
        EventKind::CommentEdited => "comment.edited"@,
        EventKind::CommentMentioned => "comment.mentioned"@,
        EventKind::CommentReplied => "comment.replied"@,
        EventKind::CommentThreadReopened => "comment_thread.reopened"@,
        EventKind::CommentThreadResolved => "comment_thread.resolved"@,
        EventKind::GroupArchived => "group.archived"@,
        EventKind::GroupCreated => "group.created"@,
        EventKind::GroupMembershipCreated => "group.membership_created"@,
        EventKind::GroupMembershipRevoked => "group.membership_revoked"@,
        EventKind::GroupMembershipUpdated => "group.membership_updated"@,
        EventKind::GroupUnarchived => "group.unarchived"@,
        EventKind::GroupUpdated => "group.updated"@,
        EventKind::ObjectArchived => "object.archived"@,
        EventKind::ObjectAttachmentCreated => "object.attachment_created"@,
        EventKind::ObjectCreated => "object.created"@,
        EventKind::ObjectNotificationPreferenceChanged => "object.notification_preference_changed"@,
        EventKind::ObjectReferencesUpdated => "object.references_updated"@,
        EventKind::ObjectUnarchived => "object.unarchived"@,
        EventKind::ObjectUpdated => "object.updated"@,
        EventKind::ObjectVersionAppended => "object.version_appended"@,
        EventKind::ObjectWikilinksReresolved => "object.wikilinks_reresolved"@,
        EventKind::ObjectEdgeCreated => "object_edge.created"@,
        EventKind::ObjectEdgeRevoked => "object_edge.revoked"@,
        EventKind::ObjectGrantCreated => "object_grant.created"@,
        EventKind::ObjectGrantRevoked => "object_grant.revoked"@,
        EventKind::ObjectGrantUpdated => "object_grant.updated"@,
        EventKind::UserCreated => "user.created"@,
        EventKind::UserDisabled => "user.disabled"@,
        EventKind::UserEnabled => "user.enabled"@,
        EventKind::UserUpdated => "user.updated"@,
        EventKind::WorkspaceArchived => "workspace.archived"@,
        EventKind::WorkspaceCreated => "workspace.created"@,
        EventKind::WorkspaceGroupArchived => "workspace.group_archived"@,
        EventKind::WorkspaceGroupLinked => "workspace.group_linked"@,
        EventKind::WorkspaceGroupUnarchived => "workspace.group_unarchived"@,
        EventKind::WorkspaceMembershipCreated => "workspace.membership_created"@,
        EventKind::WorkspaceMembershipRevoked => "workspace.membership_revoked"@,
        EventKind::WorkspaceMembershipUpdated => "workspace.membership_updated"@,
        EventKind::WorkspaceUnarchived => "workspace.unarchived"@,
        EventKind::WorkspaceUpdated => "workspace.updated"@,
    }
}

impl EventKind {
    /// Returns the stable persisted event-kind string.
    pub fn as_str(self) -> (s: &'static str)
        ensures
            s@ == event_kind_name(self),
    {
        match self {
            EventKind::AdminBootstrapCompleted => "admin.bootstrap.completed",
            EventKind::AdminPasskeyRecoveryIssued => "admin.passkey_recovery_issued",
            EventKind::AuthApiKeyCreated => "auth.api_key_created",
            EventKind::AuthApiKeyRevoked => "auth.api_key_revoked",
            EventKind::AuthApiKeyUpdated => "auth.api_key_updated",
            EventKind::AuthLogout => "auth.logout",
            EventKind::AuthPasskeyEnrolled => "auth.passkey_enrolled",
            EventKind::AuthPasskeyEnrollmentCodeConsumed => "auth.passkey_enrollment_code_consumed",
            EventKind::AuthPasskeyFreshAuthenticated => "auth.passkey_fresh_authenticated",
            EventKind::AuthPasskeyLogin => "auth.passkey_login",
            EventKind::AuthPasskeyRevoked => "auth.passkey_revoked",
            EventKind::AuthSessionRevoked => "auth.session_revoked",
            EventKind::CommentCreated => "comment.created",
            EventKind::CommentDeleted => "comment.deleted",
            EventKind::CommentEdited => "comment.edited",
            EventKind::CommentMentioned => "comment.mentioned",
            EventKind::CommentReplied => "comment.replied",
            EventKind::CommentThreadReopened => "comment_thread.reopened",
            EventKind::CommentThreadResolved => "comment_thread.resolved",
            EventKind::GroupArchived => "group.archived",
            EventKind::GroupCreated => "group.created",
            EventKind::GroupMembershipCreated => "group.membership_created",
            EventKind::GroupMembershipRevoked => "group.membership_revoked",
            EventKind::GroupMembershipUpdated => "group.membership_updated",
            EventKind::GroupUnarchived => "group.unarchived",
            EventKind::GroupUpdated => "group.updated",
            EventKind::ObjectArchived => "object.archived",
            EventKind::ObjectAttachmentCreated => "object.attachment_created",
            EventKind::ObjectCreated => "object.created",
            EventKind::ObjectNotificationPreferenceChanged => "object.notification_preference_changed",
            EventKind::ObjectReferencesUpdated => "object.references_updated",
            EventKind::ObjectUnarchived => "object.unarchived",
            EventKind::ObjectUpdated => "object.updated",
            EventKind::ObjectVersionAppended => "object.version_appended",
            EventKind::ObjectWikilinksReresolved => "object.wikilinks_reresolved",
            EventKind::ObjectEdgeCreated => "object_edge.created",
            EventKind::ObjectEdgeRevoked => "object_edge.revoked",
            EventKind::ObjectGrantCreated => "object_grant.created",
            EventKind::ObjectGrantRevoked => "object_grant.revoked",
            EventKind::ObjectGrantUpdated => "object_grant.updated",
            EventKind::UserCreated => "user.created",
            EventKind::UserDisabled => "user.disabled",
            EventKind::UserEnabled => "user.enabled",
            EventKind::UserUpdated => "user.updated",
            EventKind::WorkspaceArchived => "workspace.archived",
            EventKind::WorkspaceCreated => "workspace.created",
            EventKind::WorkspaceGroupArchived => "workspace.group_archived",
            EventKind::WorkspaceGroupLinked => "workspace.group_linked",
            EventKind::WorkspaceGroupUnarchived => "workspace.group_unarchived",
            EventKind::WorkspaceMembershipCreated => "workspace.membership_created",
            EventKind::WorkspaceMembershipRevoked => "workspace.membership_revoked",
            EventKind::WorkspaceMembershipUpdated => "workspace.membership_updated",
            EventKind::WorkspaceUnarchived => "workspace.unarchived",
            EventKind::WorkspaceUpdated => "workspace.updated",
        }
    }
}

/// Purpose of a passkey enrollment code.
#[derive(Debug, Clone, Copy, PartialEq, Eq)]
pub enum PasskeyEnrollmentPurpose {
    /// Initial passkey enrollment for a user without an active credential.
    Enrollment,
    /// Passkey recovery after credentials have been lost or removed.
    PasskeyReset,
}

/// The persisted name of a purpose.
pub open spec fn purpose_name(p: PasskeyEnrollmentPurpose) -> Seq<char> {
    match p {
        PasskeyEnrollmentPurpose::Enrollment => "enrollment"@,
        PasskeyEnrollmentPurpose::PasskeyReset => "passkey_reset"@,
    }
}

/// The purpose a persisted name stands for.
pub open spec fn parse_purpose(s: Seq<char>) -> Option<PasskeyEnrollmentPurpose> {
    if s == "enrollment"@ {
        Some(PasskeyEnrollmentPurpose::Enrollment)
    } else if s == "passkey_reset"@ {
        Some(PasskeyEnrollmentPurpose::PasskeyReset)
    } else {
        None
    }
}

impl PasskeyEnrollmentPurpose {
    /// Returns the authoritative persisted representation.
    pub fn as_str(self) -> (s: &'static str)
        ensures
            s@ == purpose_name(self),
    {
        match self {
            PasskeyEnrollmentPurpose::Enrollment => "enrollment",
            PasskeyEnrollmentPurpose::PasskeyReset => "passkey_reset",
        }
    }

    /// Parses the persisted representation (`FromStr`).
    pub fn from_str(value: &str) -> (r: Option<PasskeyEnrollmentPurpose>)
        ensures
            r == parse_purpose(value@),
    {
        if str_eq(value, "enrollment") {
            Some(PasskeyEnrollmentPurpose::Enrollment)
        } else if str_eq(value, "passkey_reset") {
            Some(PasskeyEnrollmentPurpose::PasskeyReset)
        } else {
            None
        }
    }
}

/// A purpose reads back as itself from its persisted name.
pub proof fn purpose_round_trip(p: PasskeyEnrollmentPurpose)
    ensures
        parse_purpose(purpose_name(p)) == Some(p),
{
    reveal_strlit("enrollment");
    reveal_strlit("passkey_reset");
    assert("enrollment"@[0] != "passkey_reset"@[0]);
}

/// Constrained vocabulary stored as text.
pub trait StoredVocabulary: Sized {
    /// The value a stored text stands for, if any.
    spec fn stored_value(s: Seq<char>) -> Option<Self>;

    /// Parses a stored text.
    fn parse_text(s: &str) -> (r: Option<Self>)
        ensures
            r == Self::stored_value(s@),
    ;
}

impl StoredVocabulary for ObjectRole {
    open spec fn stored_value(s: Seq<char>) -> Option<Self> {
        parse_object_role(s)
    }

    fn parse_text(s: &str) -> (r: Option<Self>) {
        ObjectRole::parse(s)
    }
}

impl StoredVocabulary for MembershipRole {
    open spec fn stored_value(s: Seq<char>) -> Option<Self> {
        parse_membership_role(s)
    }

    fn parse_text(s: &str) -> (r: Option<Self>) {
        MembershipRole::parse(s)
    }
}

impl StoredVocabulary for PasskeyEnrollmentPurpose {
    open spec fn stored_value(s: Seq<char>) -> Option<Self> {
        parse_purpose(s)
    }

    fn parse_text(s: &str) -> (r: Option<Self>) {
        PasskeyEnrollmentPurpose::from_str(s)
    }
}

/// Errors produced while operating on the stored state.
#[derive(Debug, PartialEq, Eq)]
pub enum KernelError {
    /// A database operation failed, with the database's message.
    Database(String),
    /// A schema migration failed, with its message.
    Migrate(String),
    /// Stored constrained vocabulary no longer matches the bindings.
    InvalidStoredValue {
        /// Vocabulary whose stored representation was invalid.
        kind: &'static str,
        /// Unexpected stored value.
        value: String,
    },
    /// Target resource does not exist in the lifecycle state required by the operation.
    ResourceNotFound,
    /// Actor does not hold the capability required by the operation.
    CapabilityRequired,
    /// Attachment version does not belong to the target object.
    InvalidAttachmentVersion,
    /// Object grant user principal is not an active workspace member.
    InvalidObjectGrantUserPrincipal,
    /// Object grant group principal is not actively linked to the workspace.
    InvalidObjectGrantGroupPrincipal,
    /// Object has no current immutable version to update from.
    ObjectHasNoCurrentVersion,
    /// Object current version no longer matches the caller's optimistic expectation.
    ObjectVersionConflict,
    /// Object grant transition would remove the final active administrator.
    ObjectMustRetainAdminGrant,
}

/// The message of a kernel error.
pub open spec fn kernel_error_message(e: KernelError) -> Seq<char> {
    match e {
        KernelError::Database(m) => "database error: "@ + m@,
        KernelError::Migrate(m) => "PostgreSQL migration error: "@ + m@,
        KernelError::InvalidStoredValue { kind, value } => "invalid stored "@ + kind@ + ": "@ + value@,
        KernelError::ResourceNotFound => "resource not found"@,
        KernelError::CapabilityRequired => "required capability not held"@,
        KernelError::InvalidAttachmentVersion => "attachment version must belong to target object"@,
        KernelError::InvalidObjectGrantUserPrincipal => "object grant user principal must be an active workspace member"@,
        KernelError::InvalidObjectGrantGroupPrincipal => "object grant group principal must be linked to the workspace"@,
        KernelError::ObjectHasNoCurrentVersion => "object has no current version"@,
        KernelError::ObjectVersionConflict => "object changed since the expected version"@,
        KernelError::ObjectMustRetainAdminGrant => "object must retain at least one active administrator grant"@,
    }
}

impl KernelError {
    /// Maps a database failure to a kernel error (`From<sqlx::Error>` for database errors):
    /// the codes of the state machine become their errors, anything else a database error.
    pub fn from_database_code(code: Option<&str>, message: String) -> (e: KernelError)
        ensures
            match code {
                Some(c) => if c@ == "KRNFD"@ {
                    e == KernelError::ResourceNotFound
                } else if c@ == "KCAPR"@ {
                    e == KernelError::CapabilityRequired
                } else {
                    e matches KernelError::Database(m) && m@ == message@
                },
                None => e matches KernelError::Database(m) && m@ == message@,
            },
    {
        match code {
            Some(c) => {
                if str_eq(c, "KRNFD") {
                    KernelError::ResourceNotFound
                } else if str_eq(c, "KCAPR") {
                    KernelError::CapabilityRequired
                } else {
                    KernelError::Database(message)
                }
            },
            None => KernelError::Database(message),
        }
    }

    /// The error's message (`Display`).
    pub fn message(&self) -> (m: String)
        ensures
            m@ == kernel_error_message(*self),
    {
        match self {
            KernelError::Database(d) => {
                let mut m = "database error: ".to_owned();
                append_str(&mut m, d.as_str());
                m
            },
            KernelError::Migrate(d) => {
                let mut m = "PostgreSQL migration error: ".to_owned();
                append_str(&mut m, d.as_str());
                m
            },
            KernelError::InvalidStoredValue { kind, value } => {
                let mut m = "invalid stored ".to_owned();
                append_str(&mut m, kind);
                append_str(&mut m, ": ");
                append_str(&mut m, value.as_str());
                m
            },
            KernelError::ResourceNotFound => "resource not found".to_owned(),
            KernelError::CapabilityRequired => "required capability not held".to_owned(),
            KernelError::InvalidAttachmentVersion => "attachment version must belong to target object".to_owned(),
            KernelError::InvalidObjectGrantUserPrincipal => "object grant user principal must be an active workspace member".to_owned(),
            KernelError::InvalidObjectGrantGroupPrincipal => "object grant group principal must be linked to the workspace".to_owned(),
            KernelError::ObjectHasNoCurrentVersion => "object has no current version".to_owned(),
            KernelError::ObjectVersionConflict => "object changed since the expected version".to_owned(),
            KernelError::ObjectMustRetainAdminGrant => "object must retain at least one active administrator grant".to_owned(),
        }
    }
}

/// Parses constrained stored vocabulary at the boundary; an unknown text is an invalid stored
/// value of `kind`.
pub fn parse_stored<T: StoredVocabulary>(kind: &'static str, value: String) -> (r: Result<T, KernelError>)
    ensures
        match T::stored_value(value@) {
            Some(x) => r == Ok::<T, KernelError>(x),
            None => r matches Err(KernelError::InvalidStoredValue { kind: k, value: v }) && k@ == kind@ && v@ == value@,
        },
{
    match T::parse_text(value.as_str()) {
        Some(x) => Ok(x),
        None => Err(KernelError::InvalidStoredValue { kind, value }),
    }
}

/// Parses optional constrained stored vocabulary at the boundary.
pub fn parse_optional_stored<T: StoredVocabulary>(kind: &'static str, value: Option<String>) -> (r: Result<
    Option<T>,
    KernelError,
>)
    ensures
        match value {
            None => r == Ok::<Option<T>, KernelError>(None),
            Some(s) => match T::stored_value(s@) {
                Some(x) => r == Ok::<Option<T>, KernelError>(Some(x)),
                None => r matches Err(KernelError::InvalidStoredValue { kind: k, value: v }) && k@ == kind@ && v@ == s@,
            },
        },
{
    match value {
        None => Ok(None),
        Some(s) => match parse_stored(kind, s) {
            Ok(x) => Ok(Some(x)),
            Err(e) => Err(e),
        },
    }
}

/// Existence and authorization result for a state capability query.
#[derive(Debug, Clone, Copy, PartialEq, Eq)]
pub struct Capability {
    /// Whether the target exists in the lifecycle states accepted by the operation.
    pub exists: bool,
    /// Whether the actor is authorized for the requested capability.
    pub allowed: bool,
}

/// Existence and effective-role result for an object access query.
#[derive(Debug, Clone, Copy, PartialEq, Eq)]
pub struct RoleCapability {
    /// Whether the target exists in the lifecycle states accepted by the operation.
    pub exists: bool,
    /// Effective object role when authorization succeeds.
    pub role: Option<ObjectRole>,
}

/// Converts a database role projection into the typed vocabulary; an unknown role text is an
/// invalid stored `object role`.
pub fn role_capability(exists: bool, role: Option<String>) -> (r: Result<RoleCapability, KernelError>)
    ensures
        match role {
            None => r == Ok::<RoleCapability, KernelError>(RoleCapability { exists, role: None }),
            Some(s) => match parse_object_role(s@) {
                Some(x) => r == Ok::<RoleCapability, KernelError>(RoleCapability { exists, role: Some(x) }),
                None => r matches Err(KernelError::InvalidStoredValue { kind: k, value: v }) && k@ == "object role"@ && v@ == s@,
            },
        },
{
    match parse_optional_stored::<ObjectRole>("object role", role) {
        Ok(role) => Ok(RoleCapability { exists, role }),
        Err(e) => Err(e),
    }
}

/// Database row returned by bounded notification retention.
#[derive(Debug, Clone, Copy)]
pub struct NotificationRetentionBatch {
    /// Number of notification candidates deleted.
    pub candidates_deleted: i32,
    /// Number of inbox entries deleted.
    pub inbox_deleted: i32,
}

/// Database row returned by one notification projection batch.
#[derive(Debug, Clone, Copy)]
pub struct NotificationProjectionBatch {
    /// Number of notification candidates processed.
    pub candidates_processed: i32,
    /// Number of inbox notifications changed.
    pub notifications_changed: i32,
    /// Remaining unprojected notification-candidate lag.
    pub remaining_candidate_lag: i64,
}

/// Content-addressing data required to serve an attachment.
#[derive(Debug, Clone)]
pub struct ObjectAttachmentContentRow {
    /// Content-addressed blob reference.
    pub blob_ref: String,
    /// Blob size in bytes.
    pub size_bytes: i64,
    /// Optional media type.
    pub media_type: Option<String>,
}

/// Credential revocation counts produced by operator recovery.
#[derive(Debug, Clone, Copy, PartialEq, Eq)]
pub struct OperatorRecoveryRevocations {
    /// Number of passkeys revoked.
    pub passkeys: u64,
    /// Number of sessions revoked.
    pub sessions: u64,
    /// Number of API keys revoked.
    pub api_keys: u64,
}

impl OperatorRecoveryRevocations {
    /// The counts of a recovery: API keys are only counted when they were to be revoked.
    pub fn from_counts(passkeys: u64, sessions: u64, api_keys: u64, revoke_api_keys: bool) -> (r: Self)
        ensures
            r.passkeys == passkeys,
            r.sessions == sessions,
            r.api_keys == if revoke_api_keys {
                api_keys
            } else {
                0
            },
    {
        OperatorRecoveryRevocations {
            passkeys,
            sessions,
            api_keys: if revoke_api_keys {
                api_keys
            } else {
                0
            },
        }
    }
}

/// Lifecycle status of a comment.
#[derive(Debug, Clone, Copy, PartialEq, Eq)]
pub enum CommentStatus {
    /// Visible.
    Active,
    /// Deleted by a user.
    Deleted,
    /// Removed by retention.
    Expired,
}

/// The effective status of a comment from its deletion and retention state: deletion first,
/// then expiry.
pub fn comment_status(deleted: bool, expired: bool) -> (s: CommentStatus)
    ensures
        s == if deleted {
            CommentStatus::Deleted
        } else if expired {
            CommentStatus::Expired
        } else {
            CommentStatus::Active
        },
{
    if deleted {
        CommentStatus::Deleted
    } else if expired {
        CommentStatus::Expired
    } else {
        CommentStatus::Active
    }
}

/// API-key provenance captured with an event.
#[derive(Debug, Clone, PartialEq, Eq)]
pub struct ApiKeyAttribution {
    /// API key that authenticated the transition.
    pub id: u128,
    /// Stable user-defined key label captured for audit output.
    pub label: String,
}

/// Event fields accepted by the authoritative event state.
#[derive(Debug)]
pub struct EventInsert {
    /// Event kind.
    pub event_kind: EventKind,
    /// User that caused the event.
    pub actor_user_id: u128,
    /// Delegated API-key provenance, when present.
    pub api_key: Option<ApiKeyAttribution>,
    /// Associated workspace.
    pub workspace_id: Option<u128>,
    /// Associated object.
    pub object_id: Option<u128>,
    /// Associated object version.
    pub object_version_id: Option<u128>,
    /// Associated object edge.
    pub object_edge_id: Option<u128>,
    /// Associated object grant.
    pub object_grant_id: Option<u128>,
    /// Associated commentary thread.
    pub comment_thread_id: Option<u128>,
    /// Associated comment.
    pub comment_id: Option<u128>,
    /// Associated group.
    pub group_id: Option<u128>,
    /// Target user.
    pub target_user_id: Option<u128>,
    /// Event payload.
    pub payload: Json,
}

impl EventInsert {
    /// Creates an event insert with its required fields and no targets.
    pub fn new(actor_user_id: u128, event_kind: EventKind, payload: Json) -> (e: Self)
        ensures
            e.event_kind == event_kind,
            e.actor_user_id == actor_user_id,
            e.payload == payload,
            e.api_key is None,
            e.workspace_id is None,
            e.object_id is None,
            e.object_version_id is None,
            e.object_edge_id is None,
            e.object_grant_id is None,
            e.comment_thread_id is None,
            e.comment_id is None,
            e.group_id is None,
            e.target_user_id is None,
    {
        EventInsert {
            event_kind,
            actor_user_id,
            api_key: None,
            workspace_id: None,
            object_id: None,
            object_version_id: None,
            object_edge_id: None,
            object_grant_id: None,
            comment_thread_id: None,
            comment_id: None,
            group_id: None,
            target_user_id: None,
            payload,
        }
    }

    /// Attaches delegated API-key provenance.
    pub fn api_key(self, api_key: Option<ApiKeyAttribution>) -> (e: Self)
        ensures
            e == (EventInsert { api_key, ..self }),
    {
        EventInsert { api_key, ..self }
    }

    /// Attaches a workspace target.
    pub fn workspace(self, workspace_id: u128) -> (e: Self)
        ensures
            e == (EventInsert { workspace_id: Some(workspace_id), ..self }),
    {
        EventInsert { workspace_id: Some(workspace_id), ..self }
    }

    /// Attaches a object target.
    pub fn object(self, object_id: u128) -> (e: Self)
        ensures
            e == (EventInsert { object_id: Some(object_id), ..self }),
    {
        EventInsert { object_id: Some(object_id), ..self }
    }

    /// Attaches a object-version target.
    pub fn object_version(self, object_version_id: u128) -> (e: Self)
        ensures
            e == (EventInsert { object_version_id: Some(object_version_id), ..self }),
    {
        EventInsert { object_version_id: Some(object_version_id), ..self }
    }

    /// Attaches a object-edge target.
    pub fn object_edge(self, object_edge_id: u128) -> (e: Self)
        ensures
            e == (EventInsert { object_edge_id: Some(object_edge_id), ..self }),
    {
        EventInsert { object_edge_id: Some(object_edge_id), ..self }
    }

    /// Attaches a object-grant target.
    pub fn object_grant(self, object_grant_id: u128) -> (e: Self)
        ensures
            e == (EventInsert { object_grant_id: Some(object_grant_id), ..self }),
    {
        EventInsert { object_grant_id: Some(object_grant_id), ..self }
    }

    /// Attaches a commentary-thread target.
    pub fn comment_thread(self, comment_thread_id: u128) -> (e: Self)
        ensures
            e == (EventInsert { comment_thread_id: Some(comment_thread_id), ..self }),
    {
        EventInsert { comment_thread_id: Some(comment_thread_id), ..self }
    }

    /// Attaches a comment target.
    pub fn comment(self, comment_id: u128) -> (e: Self)
        ensures
            e == (EventInsert { comment_id: Some(comment_id), ..self }),
    {
        EventInsert { comment_id: Some(comment_id), ..self }
    }

    /// Attaches a group target.
    pub fn group(self, group_id: u128) -> (e: Self)
        ensures
            e == (EventInsert { group_id: Some(group_id), ..self }),
    {
        EventInsert { group_id: Some(group_id), ..self }
    }

    /// Attaches a target user.
    pub fn target_user(self, target_user_id: u128) -> (e: Self)
        ensures
            e == (EventInsert { target_user_id: Some(target_user_id), ..self }),
    {
        EventInsert { target_user_id: Some(target_user_id), ..self }
    }
}

/// Position of an event kind in the order of its names.
pub open spec fn kind_rank(k: EventKind) -> int {
    match k {
        EventKind::AdminBootstrapCompleted => 0,
        EventKind::AdminPasskeyRecoveryIssued => 1,
        EventKind::AuthApiKeyCreated => 2,
        EventKind::AuthApiKeyRevoked => 3,
        EventKind::AuthApiKeyUpdated => 4,
        EventKind::AuthLogout => 5,
        EventKind::AuthPasskeyEnrolled => 6,
        EventKind::AuthPasskeyEnrollmentCodeConsumed => 7,
        EventKind::AuthPasskeyFreshAuthenticated => 8,
        EventKind::AuthPasskeyLogin => 9,
        EventKind::AuthPasskeyRevoked => 10,
        EventKind::AuthSessionRevoked => 11,
        EventKind::CommentCreated => 12,
        EventKind::CommentDeleted => 13,
        EventKind::CommentEdited => 14,
        EventKind::CommentMentioned => 15,
        EventKind::CommentReplied => 16,
        EventKind::CommentThreadReopened => 17,
        EventKind::CommentThreadResolved => 18,
        EventKind::GroupArchived => 19,
        EventKind::GroupCreated => 20,
        EventKind::GroupMembershipCreated => 21,
        EventKind::GroupMembershipRevoked => 22,
        EventKind::GroupMembershipUpdated => 23,
        EventKind::GroupUnarchived => 24,
        EventKind::GroupUpdated => 25,
        EventKind::ObjectArchived => 26,
        EventKind::ObjectAttachmentCreated => 27,
        EventKind::ObjectCreated => 28,
        EventKind::ObjectNotificationPreferenceChanged => 29,
        EventKind::ObjectReferencesUpdated => 30,
        EventKind::ObjectUnarchived => 31,
        EventKind::ObjectUpdated => 32,
        EventKind::ObjectVersionAppended => 33,
        EventKind::ObjectWikilinksReresolved => 34,
        EventKind::ObjectEdgeCreated => 35,
        EventKind::ObjectEdgeRevoked => 36,
        EventKind::ObjectGrantCreated => 37,
        EventKind::ObjectGrantRevoked => 38,
        EventKind::ObjectGrantUpdated => 39,
        EventKind::UserCreated => 40,
        EventKind::UserDisabled => 41,
        EventKind::UserEnabled => 42,
        EventKind::UserUpdated => 43,
        EventKind::WorkspaceArchived => 44,
        EventKind::WorkspaceCreated => 45,
        EventKind::WorkspaceGroupArchived => 46,
        EventKind::WorkspaceGroupLinked => 47,
        EventKind::WorkspaceGroupUnarchived => 48,
        EventKind::WorkspaceMembershipCreated => 49,
        EventKind::WorkspaceMembershipRevoked => 50,
        EventKind::WorkspaceMembershipUpdated => 51,
        EventKind::WorkspaceUnarchived => 52,
        EventKind::WorkspaceUpdated => 53,
    }
}

/// The event kind at a position of that order.
pub open spec fn kind_at(i: int) -> EventKind {
    if i == 0 {
        EventKind::AdminBootstrapCompleted
    } else if i == 1 {
        EventKind::AdminPasskeyRecoveryIssued
    } else if i == 2 {
        EventKind::AuthApiKeyCreated
    } else if i == 3 {
        EventKind::AuthApiKeyRevoked
    } else if i == 4 {
        EventKind::AuthApiKeyUpdated
    } else if i == 5 {
        EventKind::AuthLogout
    } else if i == 6 {
        EventKind::AuthPasskeyEnrolled
    } else if i == 7 {
        EventKind::AuthPasskeyEnrollmentCodeConsumed
    } else if i == 8 {
        EventKind::AuthPasskeyFreshAuthenticated
    } else if i == 9 {
        EventKind::AuthPasskeyLogin
    } else if i == 10 {
        EventKind::AuthPasskeyRevoked
    } else if i == 11 {
        EventKind::AuthSessionRevoked
    } else if i == 12 {
        EventKind::CommentCreated
    } else if i == 13 {
        EventKind::CommentDeleted
    } else if i == 14 {
        EventKind::CommentEdited
    } else if i == 15 {
        EventKind::CommentMentioned
    } else if i == 16 {
        EventKind::CommentReplied
    } else if i == 17 {
        EventKind::CommentThreadReopened
    } else if i == 18 {
        EventKind::CommentThreadResolved
    } else if i == 19 {
        EventKind::GroupArchived
    } else if i == 20 {
        EventKind::GroupCreated
    } else if i == 21 {
        EventKind::GroupMembershipCreated
    } else if i == 22 {
        EventKind::GroupMembershipRevoked
    } else if i == 23 {
        EventKind::GroupMembershipUpdated
    } else if i == 24 {
        EventKind::GroupUnarchived
    } else if i == 25 {
        EventKind::GroupUpdated
    } else if i == 26 {
        EventKind::ObjectArchived
    } else if i == 27 {
        EventKind::ObjectAttachmentCreated
    } else if i == 28 {
        EventKind::ObjectCreated
    } else if i == 29 {
        EventKind::ObjectNotificationPreferenceChanged
    } else if i == 30 {
        EventKind::ObjectReferencesUpdated
    } else if i == 31 {
        EventKind::ObjectUnarchived
    } else if i == 32 {
        EventKind::ObjectUpdated
    } else if i == 33 {
        EventKind::ObjectVersionAppended
    } else if i == 34 {
        EventKind::ObjectWikilinksReresolved
    } else if i == 35 {
        EventKind::ObjectEdgeCreated
    } else if i == 36 {
        EventKind::ObjectEdgeRevoked
    } else if i == 37 {
        EventKind::ObjectGrantCreated
    } else if i == 38 {
        EventKind::ObjectGrantRevoked
    } else if i == 39 {
        EventKind::ObjectGrantUpdated
    } else if i == 40 {
        EventKind::UserCreated
    } else if i == 41 {
        EventKind::UserDisabled
    } else if i == 42 {
        EventKind::UserEnabled
    } else if i == 43 {
        EventKind::UserUpdated
    } else if i == 44 {
        EventKind::WorkspaceArchived
    } else if i == 45 {
        EventKind::WorkspaceCreated
    } else if i == 46 {
        EventKind::WorkspaceGroupArchived
    } else if i == 47 {
        EventKind::WorkspaceGroupLinked
    } else if i == 48 {
        EventKind::WorkspaceGroupUnarchived
    } else if i == 49 {
        EventKind::WorkspaceMembershipCreated
    } else if i == 50 {
        EventKind::WorkspaceMembershipRevoked
    } else if i == 51 {
        EventKind::WorkspaceMembershipUpdated
    } else if i == 52 {
        EventKind::WorkspaceUnarchived
    } else {
        EventKind::WorkspaceUpdated
    }
}

/// Whether every character is a lowercase ASCII letter, `_` or `.`.
pub open spec fn name_chars_ok(s: Seq<char>) -> bool
    decreases s.len(),
{
    if s.len() == 0 {
        true
    } else {
        (('a' <= s[0] && s[0] <= 'z') || s[0] == '_' || s[0] == '.') && name_chars_ok(s.drop_first())
    }
}

/// Length of the part before the first `.` (the whole text when there is none).
pub open spec fn domain_len(s: Seq<char>) -> int
    decreases s.len(),
{
    if s.len() == 0 {
        0
    } else if s[0] == '.' {
        0
    } else {
        1 + domain_len(s.drop_first())
    }
}

/// The form of an event name, `<domain>.<name>`: lowercase letters, `_` and `.` only, with a
/// non-empty domain before the first `.` and a non-empty rest after it.
pub open spec fn event_name_form(s: Seq<char>) -> bool {
    name_chars_ok(s) && 0 < domain_len(s) && domain_len(s) + 1 < s.len()
}

/// Ranks and positions are inverse.
proof fn lemma_kind_rank(k: EventKind)
    ensures
        0 <= kind_rank(k) < 54,
        kind_at(kind_rank(k)) == k,
{
}

/// Names of neighbouring kinds come in order.
#[verifier::rlimit(100)]
proof fn lemma_names_consecutive(i: int)
    requires
        0 <= i < 53,
    ensures
        text_lt(event_kind_name(kind_at(i)), event_kind_name(kind_at(i + 1))),
{
    reveal_with_fuel(text_lt, 40);
    if i == 0 {
        reveal_strlit("admin.bootstrap.completed");
        reveal_strlit("admin.passkey_recovery_issued");
        assert(text_lt("admin.bootstrap.completed"@, "admin.passkey_recovery_issued"@));
    } else if i == 1 {
        reveal_strlit("admin.passkey_recovery_issued");
        reveal_strlit("auth.api_key_created");
        assert(text_lt("admin.passkey_recovery_issued"@, "auth.api_key_created"@));
    } else if i == 2 {
        reveal_strlit("auth.api_key_created");
        reveal_strlit("auth.api_key_revoked");
        assert(text_lt("auth.api_key_created"@, "auth.api_key_revoked"@));
    } else if i == 3 {
        reveal_strlit("auth.api_key_revoked");
        reveal_strlit("auth.api_key_updated");
        assert(text_lt("auth.api_key_revoked"@, "auth.api_key_updated"@));
    } else if i == 4 {
        reveal_strlit("auth.api_key_updated");
        reveal_strlit("auth.logout");
        assert(text_lt("auth.api_key_updated"@, "auth.logout"@));
    } else if i == 5 {
        reveal_strlit("auth.logout");
        reveal_strlit("auth.passkey_enrolled");
        assert(text_lt("auth.logout"@, "auth.passkey_enrolled"@));
    } else if i == 6 {
        reveal_strlit("auth.passkey_enrolled");
        reveal_strlit("auth.passkey_enrollment_code_consumed");
        assert(text_lt("auth.passkey_enrolled"@, "auth.passkey_enrollment_code_consumed"@));
    } else if i == 7 {
        reveal_strlit("auth.passkey_enrollment_code_consumed");
        reveal_strlit("auth.passkey_fresh_authenticated");
        assert(text_lt("auth.passkey_enrollment_code_consumed"@, "auth.passkey_fresh_authenticated"@));
    } else if i == 8 {
        reveal_strlit("auth.passkey_fresh_authenticated");
        reveal_strlit("auth.passkey_login");
        assert(text_lt("auth.passkey_fresh_authenticated"@, "auth.passkey_login"@));
    } else if i == 9 {
        reveal_strlit("auth.passkey_login");
        reveal_strlit("auth.passkey_revoked");
        assert(text_lt("auth.passkey_login"@, "auth.passkey_revoked"@));
    } else if i == 10 {
        reveal_strlit("auth.passkey_revoked");
        reveal_strlit("auth.session_revoked");
        assert(text_lt("auth.passkey_revoked"@, "auth.session_revoked"@));
    } else if i == 11 {
        reveal_strlit("auth.session_revoked");
        reveal_strlit("comment.created");
        assert(text_lt("auth.session_revoked"@, "comment.created"@));
    } else if i == 12 {
        reveal_strlit("comment.created");
        reveal_strlit("comment.deleted");
        assert(text_lt("comment.created"@, "comment.deleted"@));
    } else if i == 13 {
        reveal_strlit("comment.deleted");
        reveal_strlit("comment.edited");
        assert(text_lt("comment.deleted"@, "comment.edited"@));
    } else if i == 14 {
        reveal_strlit("comment.edited");
        reveal_strlit("comment.mentioned");
        assert(text_lt("comment.edited"@, "comment.mentioned"@));
    } else if i == 15 {
        reveal_strlit("comment.mentioned");
        reveal_strlit("comment.replied");
        assert(text_lt("comment.mentioned"@, "comment.replied"@));
    } else if i == 16 {
        reveal_strlit("comment.replied");
        reveal_strlit("comment_thread.reopened");
        assert(text_lt("comment.replied"@, "comment_thread.reopened"@));
    } else if i == 17 {
        reveal_strlit("comment_thread.reopened");
        reveal_strlit("comment_thread.resolved");
        assert(text_lt("comment_thread.reopened"@, "comment_thread.resolved"@));
    } else if i == 18 {
        reveal_strlit("comment_thread.resolved");
        reveal_strlit("group.archived");
        assert(text_lt("comment_thread.resolved"@, "group.archived"@));
    } else if i == 19 {
        reveal_strlit("group.archived");
        reveal_strlit("group.created");
        assert(text_lt("group.archived"@, "group.created"@));
    } else if i == 20 {
        reveal_strlit("group.created");
        reveal_strlit("group.membership_created");
        assert(text_lt("group.created"@, "group.membership_created"@));
    } else if i == 21 {
        reveal_strlit("group.membership_created");
        reveal_strlit("group.membership_revoked");
        assert(text_lt("group.membership_created"@, "group.membership_revoked"@));
    } else if i == 22 {
        reveal_strlit("group.membership_revoked");
        reveal_strlit("group.membership_updated");
        assert(text_lt("group.membership_revoked"@, "group.membership_updated"@));
    } else if i == 23 {
        reveal_strlit("group.membership_updated");
        reveal_strlit("group.unarchived");
        assert(text_lt("group.membership_updated"@, "group.unarchived"@));
    } else if i == 24 {
        reveal_strlit("group.unarchived");
        reveal_strlit("group.updated");
        assert(text_lt("group.unarchived"@, "group.updated"@));
    } else if i == 25 {
        reveal_strlit("group.updated");
        reveal_strlit("object.archived");
        assert(text_lt("group.updated"@, "object.archived"@));
    } else if i == 26 {
        reveal_strlit("object.archived");
        reveal_strlit("object.attachment_created");
        assert(text_lt("object.archived"@, "object.attachment_created"@));
    } else if i == 27 {
        reveal_strlit("object.attachment_created");
        reveal_strlit("object.created");
        assert(text_lt("object.attachment_created"@, "object.created"@));
    } else if i == 28 {
        reveal_strlit("object.created");
        reveal_strlit("object.notification_preference_changed");
        assert(text_lt("object.created"@, "object.notification_preference_changed"@));
    } else if i == 29 {
        reveal_strlit("object.notification_preference_changed");
        reveal_strlit("object.references_updated");
        assert(text_lt("object.notification_preference_changed"@, "object.references_updated"@));
    } else if i == 30 {
        reveal_strlit("object.references_updated");
        reveal_strlit("object.unarchived");
        assert(text_lt("object.references_updated"@, "object.unarchived"@));
    } else if i == 31 {
        reveal_strlit("object.unarchived");
        reveal_strlit("object.updated");
        assert(text_lt("object.unarchived"@, "object.updated"@));
    } else if i == 32 {
        reveal_strlit("object.updated");
        reveal_strlit("object.version_appended");
        assert(text_lt("object.updated"@, "object.version_appended"@));
    } else if i == 33 {
        reveal_strlit("object.version_appended");
        reveal_strlit("object.wikilinks_reresolved");
        assert(text_lt("object.version_appended"@, "object.wikilinks_reresolved"@));
    } else if i == 34 {
        reveal_strlit("object.wikilinks_reresolved");
        reveal_strlit("object_edge.created");
        assert(text_lt("object.wikilinks_reresolved"@, "object_edge.created"@));
    } else if i == 35 {
        reveal_strlit("object_edge.created");
        reveal_strlit("object_edge.revoked");
        assert(text_lt("object_edge.created"@, "object_edge.revoked"@));
    } else if i == 36 {
        reveal_strlit("object_edge.revoked");
        reveal_strlit("object_grant.created");
        assert(text_lt("object_edge.revoked"@, "object_grant.created"@));
    } else if i == 37 {
        reveal_strlit("object_grant.created");
        reveal_strlit("object_grant.revoked");
        assert(text_lt("object_grant.created"@, "object_grant.revoked"@));
    } else if i == 38 {
        reveal_strlit("object_grant.revoked");
        reveal_strlit("object_grant.updated");
        assert(text_lt("object_grant.revoked"@, "object_grant.updated"@));
    } else if i == 39 {
        reveal_strlit("object_grant.updated");
        reveal_strlit("user.created");
        assert(text_lt("object_grant.updated"@, "user.created"@));
    } else if i == 40 {
        reveal_strlit("user.created");
        reveal_strlit("user.disabled");
        assert(text_lt("user.created"@, "user.disabled"@));
    } else if i == 41 {
        reveal_strlit("user.disabled");
        reveal_strlit("user.enabled");
        assert(text_lt("user.disabled"@, "user.enabled"@));
    } else if i == 42 {
        reveal_strlit("user.enabled");
        reveal_strlit("user.updated");
        assert(text_lt("user.enabled"@, "user.updated"@));
    } else if i == 43 {
        reveal_strlit("user.updated");
        reveal_strlit("workspace.archived");
        assert(text_lt("user.updated"@, "workspace.archived"@));
    } else if i == 44 {
        reveal_strlit("workspace.archived");
        reveal_strlit("workspace.created");
        assert(text_lt("workspace.archived"@, "workspace.created"@));
    } else if i == 45 {
        reveal_strlit("workspace.created");
        reveal_strlit("workspace.group_archived");
        assert(text_lt("workspace.created"@, "workspace.group_archived"@));
    } else if i == 46 {
        reveal_strlit("workspace.group_archived");
        reveal_strlit("workspace.group_linked");
        assert(text_lt("workspace.group_archived"@, "workspace.group_linked"@));
    } else if i == 47 {
        reveal_strlit("workspace.group_linked");
        reveal_strlit("workspace.group_unarchived");
        assert(text_lt("workspace.group_linked"@, "workspace.group_unarchived"@));
    } else if i == 48 {
        reveal_strlit("workspace.group_unarchived");
        reveal_strlit("workspace.membership_created");
        assert(text_lt("workspace.group_unarchived"@, "workspace.membership_created"@));
    } else if i == 49 {
        reveal_strlit("workspace.membership_created");
        reveal_strlit("workspace.membership_revoked");
        assert(text_lt("workspace.membership_created"@, "workspace.membership_revoked"@));
    } else if i == 50 {
        reveal_strlit("workspace.membership_revoked");
        reveal_strlit("workspace.membership_updated");
        assert(text_lt("workspace.membership_revoked"@, "workspace.membership_updated"@));
    } else if i == 51 {
        reveal_strlit("workspace.membership_updated");
        reveal_strlit("workspace.unarchived");
        assert(text_lt("workspace.membership_updated"@, "workspace.unarchived"@));
    } else if i == 52 {
        reveal_strlit("workspace.unarchived");
        reveal_strlit("workspace.updated");
        assert(text_lt("workspace.unarchived"@, "workspace.updated"@));
    }
}

/// Names of kinds come in the order of their positions.
proof fn lemma_names_ordered(i: int, j: int)
    requires
        0 <= i < j < 54,
    ensures
        text_lt(event_kind_name(kind_at(i)), event_kind_name(kind_at(j))),
    decreases j - i,
{
    lemma_names_consecutive(j - 1);
    if i < j - 1 {
        lemma_names_ordered(i, j - 1);
        lemma_text_lt_transitive(
            event_kind_name(kind_at(i)),
            event_kind_name(kind_at(j - 1)),
            event_kind_name(kind_at(j)),
        );
    }
}

/// Distinct event kinds have distinct persisted names, so a stored name identifies its kind.
pub proof fn event_kind_names_are_distinct(a: EventKind, b: EventKind)
    ensures
        (event_kind_name(a) == event_kind_name(b)) <==> (a == b),
{
    lemma_kind_rank(a);
    lemma_kind_rank(b);
    lemma_text_lt_irreflexive(event_kind_name(a));
    if kind_rank(a) < kind_rank(b) {
        lemma_names_ordered(kind_rank(a), kind_rank(b));
    } else if kind_rank(b) < kind_rank(a) {
        lemma_names_ordered(kind_rank(b), kind_rank(a));
        lemma_text_lt_irreflexive(event_kind_name(b));
    }
}

/// Every persisted event name has the form `<domain>.<name>` in lowercase letters and `_`.
#[verifier::rlimit(100)]
pub proof fn event_kind_names_have_domain_form(k: EventKind)
    ensures
        event_name_form(event_kind_name(k)),
{
    reveal_with_fuel(name_chars_ok, 45);
    reveal_with_fuel(domain_len, 20);
    match k {
        EventKind::AdminBootstrapCompleted => {
            reveal_strlit("admin.bootstrap.completed");
            assert(event_name_form("admin.bootstrap.completed"@));
        },
        EventKind::AdminPasskeyRecoveryIssued => {
            reveal_strlit("admin.passkey_recovery_issued");
            assert(event_name_form("admin.passkey_recovery_issued"@));
        },
        EventKind::AuthApiKeyCreated => {
            reveal_strlit("auth.api_key_created");
            assert(event_name_form("auth.api_key_created"@));
        },
        EventKind::AuthApiKeyRevoked => {
            reveal_strlit("auth.api_key_revoked");
            assert(event_name_form("auth.api_key_revoked"@));
        },
        EventKind::AuthApiKeyUpdated => {
            reveal_strlit("auth.api_key_updated");
            assert(event_name_form("auth.api_key_updated"@));
        },
        EventKind::AuthLogout => {
            reveal_strlit("auth.logout");
            assert(event_name_form("auth.logout"@));
        },
        EventKind::AuthPasskeyEnrolled => {
            reveal_strlit("auth.passkey_enrolled");
            assert(event_name_form("auth.passkey_enrolled"@));
        },
        EventKind::AuthPasskeyEnrollmentCodeConsumed => {
            reveal_strlit("auth.passkey_enrollment_code_consumed");
            assert(event_name_form("auth.passkey_enrollment_code_consumed"@));
        },
        EventKind::AuthPasskeyFreshAuthenticated => {
            reveal_strlit("auth.passkey_fresh_authenticated");
            assert(event_name_form("auth.passkey_fresh_authenticated"@));
        },
        EventKind::AuthPasskeyLogin => {
            reveal_strlit("auth.passkey_login");
            assert(event_name_form("auth.passkey_login"@));
        },
        EventKind::AuthPasskeyRevoked => {
            reveal_strlit("auth.passkey_revoked");
            assert(event_name_form("auth.passkey_revoked"@));
        },
        EventKind::AuthSessionRevoked => {
            reveal_strlit("auth.session_revoked");
            assert(event_name_form("auth.session_revoked"@));
        },
        EventKind::CommentCreated => {
            reveal_strlit("comment.created");
            assert(event_name_form("comment.created"@));
        },
        EventKind::CommentDeleted => {
            reveal_strlit("comment.deleted");
            assert(event_name_form("comment.deleted"@));
        },
        EventKind::CommentEdited => {
            reveal_strlit("comment.edited");
            assert(event_name_form("comment.edited"@));
        },
        EventKind::CommentMentioned => {
            reveal_strlit("comment.mentioned");
            assert(event_name_form("comment.mentioned"@));
        },
        EventKind::CommentReplied => {
            reveal_strlit("comment.replied");
            assert(event_name_form("comment.replied"@));
        },
        EventKind::CommentThreadReopened => {
            reveal_strlit("comment_thread.reopened");
            assert(event_name_form("comment_thread.reopened"@));
        },
        EventKind::CommentThreadResolved => {
            reveal_strlit("comment_thread.resolved");
            assert(event_name_form("comment_thread.resolved"@));
        },
        EventKind::GroupArchived => {
            reveal_strlit("group.archived");
            assert(event_name_form("group.archived"@));
        },
        EventKind::GroupCreated => {
            reveal_strlit("group.created");
            assert(event_name_form("group.created"@));
        },
        EventKind::GroupMembershipCreated => {
            reveal_strlit("group.membership_created");
            assert(event_name_form("group.membership_created"@));
        },
        EventKind::GroupMembershipRevoked => {
            reveal_strlit("group.membership_revoked");
            assert(event_name_form("group.membership_revoked"@));
        },
        EventKind::GroupMembershipUpdated => {
            reveal_strlit("group.membership_updated");
            assert(event_name_form("group.membership_updated"@));
        },
        EventKind::GroupUnarchived => {
            reveal_strlit("group.unarchived");
            assert(event_name_form("group.unarchived"@));
        },
        EventKind::GroupUpdated => {
            reveal_strlit("group.updated");
            assert(event_name_form("group.updated"@));
        },
        EventKind::ObjectArchived => {
            reveal_strlit("object.archived");
            assert(event_name_form("object.archived"@));
        },
        EventKind::ObjectAttachmentCreated => {
            reveal_strlit("object.attachment_created");
            assert(event_name_form("object.attachment_created"@));
        },
        EventKind::ObjectCreated => {
            reveal_strlit("object.created");
            assert(event_name_form("object.created"@));
        },
        EventKind::ObjectNotificationPreferenceChanged => {
            reveal_strlit("object.notification_preference_changed");
            assert(event_name_form("object.notification_preference_changed"@));
        },
        EventKind::ObjectReferencesUpdated => {
            reveal_strlit("object.references_updated");
            assert(event_name_form("object.references_updated"@));
        },
        EventKind::ObjectUnarchived => {
            reveal_strlit("object.unarchived");
            assert(event_name_form("object.unarchived"@));
        },
        EventKind::ObjectUpdated => {
            reveal_strlit("object.updated");
            assert(event_name_form("object.updated"@));
        },
        EventKind::ObjectVersionAppended => {
            reveal_strlit("object.version_appended");
            assert(event_name_form("object.version_appended"@));
        },
        EventKind::ObjectWikilinksReresolved => {
            reveal_strlit("object.wikilinks_reresolved");
            assert(event_name_form("object.wikilinks_reresolved"@));
        },
        EventKind::ObjectEdgeCreated => {
            reveal_strlit("object_edge.created");
            assert(event_name_form("object_edge.created"@));
        },
        EventKind::ObjectEdgeRevoked => {
            reveal_strlit("object_edge.revoked");
            assert(event_name_form("object_edge.revoked"@));
        },
        EventKind::ObjectGrantCreated => {
            reveal_strlit("object_grant.created");
            assert(event_name_form("object_grant.created"@));
        },
        EventKind::ObjectGrantRevoked => {
            reveal_strlit("object_grant.revoked");
            assert(event_name_form("object_grant.revoked"@));
        },
        EventKind::ObjectGrantUpdated => {
            reveal_strlit("object_grant.updated");
            assert(event_name_form("object_grant.updated"@));
        },
        EventKind::UserCreated => {
            reveal_strlit("user.created");
            assert(event_name_form("user.created"@));
        },
        EventKind::UserDisabled => {
            reveal_strlit("user.disabled");
            assert(event_name_form("user.disabled"@));
        },
        EventKind::UserEnabled => {
            reveal_strlit("user.enabled");
            assert(event_name_form("user.enabled"@));
        },
        EventKind::UserUpdated => {
            reveal_strlit("user.updated");
            assert(event_name_form("user.updated"@));
        },
        EventKind::WorkspaceArchived => {
            reveal_strlit("workspace.archived");
            assert(event_name_form("workspace.archived"@));
        },
        EventKind::WorkspaceCreated => {
            reveal_strlit("workspace.created");
            assert(event_name_form("workspace.created"@));
        },
        EventKind::WorkspaceGroupArchived => {
            reveal_strlit("workspace.group_archived");
            assert(event_name_form("workspace.group_archived"@));
        },
        EventKind::WorkspaceGroupLinked => {
            reveal_strlit("workspace.group_linked");
            assert(event_name_form("workspace.group_linked"@));
        },
        EventKind::WorkspaceGroupUnarchived => {
            reveal_strlit("workspace.group_unarchived");
            assert(event_name_form("workspace.group_unarchived"@));
        },
        EventKind::WorkspaceMembershipCreated => {
            reveal_strlit("workspace.membership_created");
            assert(event_name_form("workspace.membership_created"@));
        },
        EventKind::WorkspaceMembershipRevoked => {
            reveal_strlit("workspace.membership_revoked");
            assert(event_name_form("workspace.membership_revoked"@));
        },
        EventKind::WorkspaceMembershipUpdated => {
            reveal_strlit("workspace.membership_updated");
            assert(event_name_form("workspace.membership_updated"@));
        },
        EventKind::WorkspaceUnarchived => {
            reveal_strlit("workspace.unarchived");
            assert(event_name_form("workspace.unarchived"@));
        },
        EventKind::WorkspaceUpdated => {
            reveal_strlit("workspace.updated");
            assert(event_name_form("workspace.updated"@));
        },
    }
}

} // verus!
