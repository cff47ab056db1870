//! Decisions of the deployment operator's commands: bootstrap, user provisioning and lifecycle,
//! passkey recovery, and workspace creation. The caller performs the database work between
//! the steps and hands each result back.
use vstd::prelude::*;
use crate::catalog::{WorkspaceInitializerKind, kind_name, kind_str};
use crate::config::{DEFAULT_CONFIG_FILENAME, ServerConfig};
use crate::dirs::{join_path, path_join};
use crate::initializers::{WorkspaceInitializer, WorkspaceInitializerOption};
use crate::kernel::{EventKind, OperatorRecoveryRevocations};
use crate::references::{parse_uuid, uuid_of};
use crate::security::{SecurityError, generate_secret_token, hash_token, token_verifier, base64_url_no_pad, is_base64_url_char};
use crate::text::{append_str, decimal, decimal_string, push_char, trim, trim_string};

verus! {

/// Why an operator command refused to go on.
#[derive(Debug, PartialEq, Eq)]
pub enum AdminError {
    /// The username is empty after trimming.
    EmptyUsername,
    /// The display name is empty after trimming.
    EmptyDisplayName,
    /// Users exist although no administrator does.
    UsersExist,
    /// No administrator has been bootstrapped yet.
    NotBootstrapped,
    /// A user with this username exists already.
    UserExists(String),
    /// The user argument is empty after trimming.
    EmptyUser,
    /// The user is disabled already.
    AlreadyDisabled,
    /// The user is active already.
    AlreadyActive,
    /// No user matches the argument.
    UserNotFound,
    /// No active user matches the recovery argument.
    RecoveryUserNotFound,
    /// The template ID is empty after trimming.
    EmptyTemplate,
    /// The demo scenario ID is empty after trimming.
    EmptyDemo,
    /// Both a template and a demo scenario were given.
    ConflictingInitializers,
}

/// The message of an operator error.
pub open spec fn admin_error_message(e: AdminError) -> Seq<char> {
    match e {
        AdminError::EmptyUsername => "username must not be empty"@,
        AdminError::EmptyDisplayName => "display name must not be empty"@,
        AdminError::UsersExist => "Kival cannot be bootstrapped because users already exist; bootstrap is only for fresh instances"@,
        AdminError::NotBootstrapped => "Kival is not bootstrapped; run `kivald admin bootstrap` first"@,
        AdminError::UserExists(name) => "user `"@ + name@ + "` already exists"@,
        AdminError::EmptyUser => "user must not be empty"@,
        AdminError::AlreadyDisabled => "user is already disabled"@,
        AdminError::AlreadyActive => "user is already active"@,
        AdminError::UserNotFound => "user not found"@,
        AdminError::RecoveryUserNotFound => "active recovery user not found"@,
        AdminError::EmptyTemplate => "template ID must not be empty"@,
        AdminError::EmptyDemo => "demo scenario ID must not be empty"@,
        AdminError::ConflictingInitializers => "template and demo initializers are mutually exclusive"@,
    }
}

impl AdminError {
    /// The error's message.
    pub fn message(&self) -> (m: String)
        ensures
            m@ == admin_error_message(*self),
    {
        match self {
            AdminError::EmptyUsername => "username must not be empty".to_owned(),
            AdminError::EmptyDisplayName => "display name must not be empty".to_owned(),
            AdminError::UsersExist => "Kival cannot be bootstrapped because users already exist; bootstrap is only for fresh instances".to_owned(),
            AdminError::NotBootstrapped => "Kival is not bootstrapped; run `kivald admin bootstrap` first".to_owned(),
            AdminError::UserExists(name) => {
                let mut m = "user `".to_owned();
                append_str(&mut m, name.as_str());
                append_str(&mut m, "` already exists");
                m
            },
            AdminError::EmptyUser => "user must not be empty".to_owned(),
            AdminError::AlreadyDisabled => "user is already disabled".to_owned(),
            AdminError::AlreadyActive => "user is already active".to_owned(),
            AdminError::UserNotFound => "user not found".to_owned(),
            AdminError::RecoveryUserNotFound => "active recovery user not found".to_owned(),
            AdminError::EmptyTemplate => "template ID must not be empty".to_owned(),
            AdminError::EmptyDemo => "demo scenario ID must not be empty".to_owned(),
            AdminError::ConflictingInitializers => "template and demo initializers are mutually exclusive".to_owned(),
        }
    }
}

/// The trimmed username and display name of a new user, both required.
pub fn user_fields(username: &str, display_name: &str) -> (r: Result<(String, String), AdminError>)
    ensures
        trim(username@).len() == 0 ==> r == Err::<(String, String), AdminError>(AdminError::EmptyUsername),
        trim(username@).len() > 0 && trim(display_name@).len() == 0 ==> r == Err::<(String, String), AdminError>(
            AdminError::EmptyDisplayName,
        ),
        trim(username@).len() > 0 && trim(display_name@).len() > 0 ==> (r matches Ok((u, d)) && u@ == trim(username@)
            && d@ == trim(display_name@)),
{
    let u = trim_string(username);
    if u.as_str().is_empty() {
        return Err(AdminError::EmptyUsername);
    }
    let d = trim_string(display_name);
    if d.as_str().is_empty() {
        return Err(AdminError::EmptyDisplayName);
    }
    Ok((u, d))
}

/// What the bootstrap does once the administrator and user counts are known.
#[derive(Debug, PartialEq, Eq)]
pub enum BootstrapStep {
    /// An enabled administrator exists: nothing changes.
    AlreadyBootstrapped,
    /// Create the first user and make them administrator.
    CreateAdmin,
}

/// The bootstrap's decision: a no-op when an enabled administrator exists, a refusal when
/// users exist without one, else the creation of the first administrator.
pub fn bootstrap_step(global_admin_count: i64, user_count: i64) -> (r: Result<BootstrapStep, AdminError>)
    ensures
        global_admin_count > 0 ==> r == Ok::<BootstrapStep, AdminError>(BootstrapStep::AlreadyBootstrapped),
        global_admin_count <= 0 && user_count > 0 ==> r == Err::<BootstrapStep, AdminError>(AdminError::UsersExist),
        global_admin_count <= 0 && user_count <= 0 ==> r == Ok::<BootstrapStep, AdminError>(BootstrapStep::CreateAdmin),
{
    if global_admin_count > 0 {
        Ok(BootstrapStep::AlreadyBootstrapped)
    } else if user_count > 0 {
        Err(AdminError::UsersExist)
    } else {
        Ok(BootstrapStep::CreateAdmin)
    }
}

/// Whether a user may be created: the deployment must be bootstrapped, and the username
/// free (`existing` is the name of the user that holds it, if any).
pub fn user_creation_allowed(bootstrapped: bool, existing: Option<String>) -> (r: Result<(), AdminError>)
    ensures
        !bootstrapped ==> r == Err::<(), AdminError>(AdminError::NotBootstrapped),
        bootstrapped ==> match existing {
            Some(name) => r == Err::<(), AdminError>(AdminError::UserExists(name)),
            None => r is Ok,
        },
{
    if !bootstrapped {
        return Err(AdminError::NotBootstrapped);
    }
    match existing {
        Some(name) => Err(AdminError::UserExists(name)),
        None => Ok(()),
    }
}

/// The trimmed user argument of a lifecycle or recovery command, which must not be empty.
pub fn user_argument(user: &str) -> (r: Result<String, AdminError>)
    ensures
        trim(user@).len() == 0 ==> r == Err::<String, AdminError>(AdminError::EmptyUser),
        trim(user@).len() > 0 ==> (r matches Ok(u) && u@ == trim(user@)),
{
    let u = trim_string(user);
    if u.as_str().is_empty() {
        Err(AdminError::EmptyUser)
    } else {
        Ok(u)
    }
}

/// The global options of the `admin` command (its subcommands run the database work).
#[derive(Debug, Default)]
pub struct AdminCommand {
    /// The path to the configuration file to use.
    pub config: Option<String>,
    /// Canonical URL used to generate passkey enrollment links.
    pub canonical_url: Option<String>,
}

impl AdminCommand {
    /// The configuration file: the given one, or `kival.toml` in the data directory.
    pub fn config_path(&self, datadir: &str) -> (p: String)
        ensures
            p@ == match self.config {
                Some(c) => c@,
                None => path_join(datadir@, DEFAULT_CONFIG_FILENAME@),
            },
    {
        match &self.config {
            Some(c) => c.clone(),
            None => join_path(datadir, DEFAULT_CONFIG_FILENAME),
        }
    }

    /// The loaded configuration with the canonical URL replaced when one is given.
    pub fn apply_canonical_url(&self, config: ServerConfig) -> (r: ServerConfig)
        ensures
            r@ == (match self.canonical_url {
                Some(u) => crate::config::ServerConfigView { canonical_url: Some(u@), ..config@ },
                None => config@,
            }),
    {
        match &self.canonical_url {
            Some(u) => ServerConfig { canonical_url: Some(u.clone()), ..config },
            None => config,
        }
    }
}

/// How an operator command's user argument selects the user.
#[derive(Debug, PartialEq, Eq)]
pub enum UserLookup {
    /// The argument spells a UUID: the user with that identifier.
    ById(u128),
    /// Otherwise the user with that username, compared case-insensitively.
    ByUsername(String),
}

/// Reads a user argument as a user identifier when it spells a UUID, else as a username.
pub fn user_lookup(user: &str) -> (r: UserLookup)
    ensures
        uuid_of(user@) matches Some(id) ==> r == UserLookup::ById(id),
        uuid_of(user@) is None ==> (r matches UserLookup::ByUsername(name) && name@ == user@),
{
    match parse_uuid(user) {
        Some(id) => UserLookup::ById(id),
        None => UserLookup::ByUsername(user.to_owned()),
    }
}

/// Reversible user lifecycle transition performed by a deployment operator.
#[derive(Debug, Clone, Copy, PartialEq, Eq)]
pub enum UserLifecycleAction {
    /// Prevent the user from authenticating or accessing the deployment.
    Disable,
    /// Restore the user's ability to authenticate and access the deployment.
    Enable,
}

impl UserLifecycleAction {
    /// Returns the event kind emitted for this lifecycle transition.
    pub fn event_kind(self) -> (k: EventKind)
        ensures
            k == match self {
                UserLifecycleAction::Disable => EventKind::UserDisabled,
                UserLifecycleAction::Enable => EventKind::UserEnabled,
            },
    {
        match self {
            UserLifecycleAction::Disable => EventKind::UserDisabled,
            UserLifecycleAction::Enable => EventKind::UserEnabled,
        }
    }

    /// Returns the transition name used in operator-facing output.
    pub fn past_tense(self) -> (s: &'static str)
        ensures
            s@ == past_tense_name(self),
    {
        match self {
            UserLifecycleAction::Disable => "disabled",
            UserLifecycleAction::Enable => "enabled",
        }
    }

    /// The disabled state to store: refused when the user is in it already.
    pub fn transition(self, is_disabled: bool) -> (r: Result<bool, AdminError>)
        ensures
            r == lifecycle_result(self, is_disabled),
    {
        match self {
            UserLifecycleAction::Disable => if is_disabled {
                Err(AdminError::AlreadyDisabled)
            } else {
                Ok(true)
            },
            UserLifecycleAction::Enable => if !is_disabled {
                Err(AdminError::AlreadyActive)
            } else {
                Ok(false)
            },
        }
    }

    /// The line printed after the transition: `User <name> <disabled|enabled>.`
    pub fn report(self, username: &str) -> (m: String)
        ensures
            m@ == "User "@ + username@ + " "@ + past_tense_name(self) + "."@,
    {
        let mut m = "User ".to_owned();
        append_str(&mut m, username);
        append_str(&mut m, " ");
        append_str(&mut m, self.past_tense());
        append_str(&mut m, ".");
        m
    }
}

/// The transition name of an action.
pub open spec fn past_tense_name(a: UserLifecycleAction) -> Seq<char> {
    match a {
        UserLifecycleAction::Disable => "disabled"@,
        UserLifecycleAction::Enable => "enabled"@,
    }
}

/// The disabled state an action stores from state `is_disabled`, or why it is refused.
pub open spec fn lifecycle_result(a: UserLifecycleAction, is_disabled: bool) -> Result<bool, AdminError> {
    match a {
        UserLifecycleAction::Disable => if is_disabled {
            Err(AdminError::AlreadyDisabled)
        } else {
            Ok(true)
        },
        UserLifecycleAction::Enable => if !is_disabled {
            Err(AdminError::AlreadyActive)
        } else {
            Ok(false)
        },
    }
}

/// Disabling and enabling undo each other: whichever is accepted, the other one is then
/// accepted and restores the earlier state.
pub proof fn lifecycle_transitions_are_reversible(a: UserLifecycleAction, is_disabled: bool)
    ensures
        lifecycle_result(a, is_disabled) matches Ok(now) ==> lifecycle_result(
            match a {
                UserLifecycleAction::Disable => UserLifecycleAction::Enable,
                UserLifecycleAction::Enable => UserLifecycleAction::Disable,
            },
            now,
        ) == Ok::<bool, AdminError>(is_disabled),
{
}

/// Prefix distinguishing passkey enrollment capabilities from other secrets.
pub const ENROLLMENT_CODE_PREFIX: &'static str = "kvl_enroll_";

/// A one-time enrollment code and the verifier stored for it.
pub struct EnrollmentCode {
    /// The raw code, shown once inside the link.
    pub raw_code: String,
    /// The verifier stored in place of the code.
    pub code_hash: [u8; 32],
}

/// The enrollment code made from a secret token: the prefix, then the secret, with its
/// verifier.
pub fn enrollment_code_from_secret(secret: &str) -> (c: EnrollmentCode)
    ensures
        c.raw_code@ == ENROLLMENT_CODE_PREFIX@ + secret@,
        c.code_hash@ == token_verifier(c.raw_code@),
{
    let mut raw_code = ENROLLMENT_CODE_PREFIX.to_owned();
    append_str(&mut raw_code, secret);
    let code_hash = hash_token(raw_code.as_str());
    EnrollmentCode { raw_code, code_hash }
}

/// Generates a fresh enrollment code from a random secret token.
pub fn generate_enrollment_code() -> (r: Result<EnrollmentCode, SecurityError>)
    ensures
        r matches Ok(c) ==> exists|b: Seq<u8>| b.len() == 32 && c.raw_code@ == ENROLLMENT_CODE_PREFIX@ + #[trigger] base64_url_no_pad(b),
        r matches Ok(c) ==> c.code_hash@ == token_verifier(c.raw_code@),
        r matches Ok(c) ==> c.raw_code@.len() == 54,
        r matches Ok(c) ==> forall|i: int|
            ENROLLMENT_CODE_PREFIX@.len() <= i < c.raw_code@.len() ==> is_base64_url_char(#[trigger] c.raw_code@[i]),
{
    match generate_secret_token() {
        Ok(secret) => {
            let c = enrollment_code_from_secret(secret.as_str());
            proof {
                reveal_strlit("kvl_enroll_");
            }
            assert forall|i: int| ENROLLMENT_CODE_PREFIX@.len() <= i < c.raw_code@.len() implies is_base64_url_char(
                #[trigger] c.raw_code@[i],
            ) by {
                assert(c.raw_code@[i] == secret@[i - ENROLLMENT_CODE_PREFIX@.len()]);
            }
            Ok(c)
        },
        Err(e) => Err(e),
    }
}

/// The enrollment link: `<origin>/auth/enroll#code=<code>&username=<username>`.
pub open spec fn enrollment_url_spec(origin: Seq<char>, raw_code: Seq<char>, username: Seq<char>) -> Seq<char> {
    origin + "/auth/enroll#code="@ + raw_code + "&username="@ + username
}

/// Builds the one-time enrollment link, which carries the raw code in its fragment.
pub fn enrollment_url(origin: &str, raw_code: &str, username: &str) -> (u: String)
    ensures
        u@ == enrollment_url_spec(origin@, raw_code@, username@),
{
    let mut u = origin.to_owned();
    append_str(&mut u, "/auth/enroll#code=");
    append_str(&mut u, raw_code);
    append_str(&mut u, "&username=");
    append_str(&mut u, username);
    u
}

/// The line printed about API keys after a recovery.
pub fn api_key_notice(revocations: OperatorRecoveryRevocations, revoke_api_keys: bool) -> (m: String)
    ensures
        revoke_api_keys ==> m@ == "Revoked "@ + decimal(revocations.api_keys as nat) + " active API key(s)."@,
        !revoke_api_keys ==> m@ == "Existing API keys are not affected by passkey recovery."@,
{
    if revoke_api_keys {
        let mut m = "Revoked ".to_owned();
        let n = decimal_string(revocations.api_keys);
        append_str(&mut m, n.as_str());
        append_str(&mut m, " active API key(s).");
        m
    } else {
        "Existing API keys are not affected by passkey recovery.".to_owned()
    }
}

/// The initializer a workspace creation asks for: a template or a demo scenario by its
/// trimmed ID, or none; not both.
pub fn select_initializer(template: Option<&str>, demo: Option<&str>) -> (r: Result<
    Option<WorkspaceInitializer>,
    AdminError,
>)
    ensures
        match (template, demo) {
            (Some(t), None) => if trim(t@).len() == 0 {
                r == Err::<Option<WorkspaceInitializer>, AdminError>(AdminError::EmptyTemplate)
            } else {
                r matches Ok(Some(i)) && i.kind == WorkspaceInitializerKind::Template && i.id@ == trim(t@)
            },
            (None, Some(d)) => if trim(d@).len() == 0 {
                r == Err::<Option<WorkspaceInitializer>, AdminError>(AdminError::EmptyDemo)
            } else {
                r matches Ok(Some(i)) && i.kind == WorkspaceInitializerKind::Demo && i.id@ == trim(d@)
            },
            (None, None) => r matches Ok(None),
            (Some(_), Some(_)) => r == Err::<Option<WorkspaceInitializer>, AdminError>(AdminError::ConflictingInitializers),
        },
{
    match (template, demo) {
        (Some(t), None) => {
            let t = trim_string(t);
            if t.as_str().is_empty() {
                return Err(AdminError::EmptyTemplate);
            }
            Ok(Some(WorkspaceInitializer::template(t)))
        },
        (None, Some(d)) => {
            let d = trim_string(d);
            if d.as_str().is_empty() {
                return Err(AdminError::EmptyDemo);
            }
            Ok(Some(WorkspaceInitializer::demo(d)))
        },
        (None, None) => Ok(None),
        (Some(_), Some(_)) => Err(AdminError::ConflictingInitializers),
    }
}

/// The listing line of an initializer: kind, ID, name and description, separated by tabs.
pub open spec fn initializer_line_spec(o: WorkspaceInitializerOption) -> Seq<char> {
    let head = kind_name(o.kind) + seq!['\t'] + o.id@ + seq!['\t'] + o.name@;
    match o.description {
        Some(d) => head + seq!['\t'] + d@,
        None => head,
    }
}

/// Formats one line of the initializer listing.
pub fn initializer_line(o: &WorkspaceInitializerOption) -> (l: String)
    ensures
        l@ == initializer_line_spec(*o),
{
    let mut l = kind_str(o.kind).to_owned();
    push_char(&mut l, '\t');
    append_str(&mut l, o.id.as_str());
    push_char(&mut l, '\t');
    append_str(&mut l, o.name.as_str());
    match &o.description {
        Some(d) => {
            push_char(&mut l, '\t');
            append_str(&mut l, d.as_str());
        },
        None => {},
    }
    l
}

} // verus!
