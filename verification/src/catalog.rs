//! The bundled workspace-initializer catalog: templates and demo scenarios.
//!
//! Maps of the catalog format are held as vectors of `(key, value)` pairs in key order.
use vstd::prelude::*;
use crate::text::{append_str, debug_str, decimal, decimal_string, push_debug};
use vstd::string::StringExecFns;

verus! {

/// A JSON value as read from the catalog; numbers keep their source text.
#[derive(Debug)]
pub enum Json {
    /// `null`.
    Null,
    /// A boolean.
    Bool(bool),
    /// A number, by its textual representation.
    Number(String),
    /// A string.
    Str(String),
    /// An array.
    Array(Vec<Json>),
    /// An object, by its entries in order.
    Object(Vec<(String, Json)>),
}

/// Reusable state mutations shared by templates and demos.
#[derive(Debug)]
pub enum SeedAction {
    /// Creates an object and its initial version.
    CreateObject {
        /// Recipe-local key used by subsequent actions.
        key: String,
        /// Initial title.
        title: String,
        /// Initial body.
        body: String,
        /// Initial metadata.
        metadata: Json,
    },
    /// Creates a new version of an object created earlier in the recipe.
    UpdateObject {
        /// Recipe-local key of the object to update.
        object: String,
        /// Replacement title, when changed.
        title: Option<String>,
        /// Replacement body, when changed.
        body: Option<String>,
        /// Replacement metadata, when changed.
        metadata: Option<Json>,
    },
    /// Creates a relationship between two previously created objects.
    CreateRelationship {
        /// Recipe-local key of the source object.
        source: String,
        /// Recipe-local key of the target object.
        target: String,
    },
    /// Starts a commentary thread on a previously created object.
    CreateCommentThread {
        /// Recipe-local key of the thread.
        key: String,
        /// Recipe-local key of the commented object.
        object: String,
        /// Initial comment body.
        body: String,
    },
    /// Adds a reply to a previously created commentary thread.
    ReplyToCommentThread {
        /// Recipe-local key of the thread.
        thread: String,
        /// Reply body.
        body: String,
    },
    /// Marks a previously created commentary thread resolved.
    ResolveCommentThread {
        /// Recipe-local key of the thread.
        thread: String,
    },
    /// Archives a previously created object.
    ArchiveObject {
        /// Recipe-local key of the object.
        object: String,
    },
}

/// Reusable initializer intended as a starting point for continued work.
#[derive(Debug)]
pub struct TemplateRecipe {
    /// Stable catalog identifier.
    pub id: String,
    /// Human-readable name.
    pub name: String,
    /// Optional description.
    pub description: Option<String>,
    /// Ordered mutations.
    pub actions: Vec<SeedAction>,
}

/// A demo-only historical actor.
#[derive(Debug)]
pub struct DemoActor {
    /// Preferred username.
    pub username: String,
    /// Display name.
    pub display_name: String,
    /// Organizational role.
    pub role: String,
    /// Functional area.
    pub department: String,
}

/// One reusable access group in a demo scenario.
#[derive(Debug)]
pub struct DemoGroup {
    /// Group name.
    pub name: String,
    /// Optional description.
    pub description: Option<String>,
    /// Demo actor keys and their group roles, in key order.
    pub members: Vec<(String, String)>,
}

/// One principal grant inside a demo access profile.
#[derive(Debug)]
pub struct DemoAccessGrant {
    /// Demo actor key for a direct user grant.
    pub actor: Option<String>,
    /// Demo group key for a group grant.
    pub group: Option<String>,
    /// Object role granted to the principal.
    pub role: String,
}

/// Named set of grants applied to objects that share the same audience.
#[derive(Debug)]
pub struct DemoAccessProfile {
    /// The grants of this profile.
    pub grants: Vec<DemoAccessGrant>,
}

/// One demo mutation attributed to a configured actor.
#[derive(Debug)]
pub struct DemoSeedAction {
    /// Key of the acting demo actor.
    pub actor: String,
    /// Access profile applied to a newly created object.
    pub access: Option<String>,
    /// The mutation.
    pub action: SeedAction,
}

/// Disposable showcase initializer with demo-only historical actors.
#[derive(Debug)]
pub struct DemoRecipe {
    /// Stable catalog identifier.
    pub id: String,
    /// Human-readable name.
    pub name: String,
    /// Optional description.
    pub description: Option<String>,
    /// Actors by key, in key order.
    pub actors: Vec<(String, DemoActor)>,
    /// Groups by key, in key order.
    pub groups: Vec<(String, DemoGroup)>,
    /// Access profiles by key, in key order.
    pub access_profiles: Vec<(String, DemoAccessProfile)>,
    /// Objects pinned for the workspace owner.
    pub owner_pins: Vec<String>,
    /// Objects favorited for the workspace owner.
    pub owner_favorites: Vec<String>,
    /// Ordered actor-attributed mutations.
    pub actions: Vec<DemoSeedAction>,
}

/// Versioned catalog of all bundled workspace initializers.
#[derive(Debug)]
pub struct Catalog {
    /// Catalog schema version.
    pub schema_version: u32,
    /// Reusable templates.
    pub templates: Vec<TemplateRecipe>,
    /// Demo scenarios.
    pub demos: Vec<DemoRecipe>,
}

/// Semantic kind of one initializer.
#[derive(Debug, Clone, Copy, PartialEq, Eq, Structural)]
pub enum WorkspaceInitializerKind {
    /// Reusable starting structure.
    Template,
    /// Disposable showcase scenario.
    Demo,
}

/// Which personal owner marker a demo declares.
#[derive(Debug, Clone, Copy, PartialEq, Eq, Structural)]
pub enum OwnerMarker {
    /// A pin.
    Pin,
    /// A favorite.
    Favorite,
}

/// Reasons a catalog or an initializer selection is rejected.
#[derive(Debug)]
pub enum CatalogError {
    /// The catalog schema version is not the supported one.
    UnsupportedSchemaVersion(u32),
    /// Two initializers of one kind share an identifier.
    DuplicateInitializerId(WorkspaceInitializerKind, String),
    /// An initializer identifier is blank.
    EmptyInitializerId(WorkspaceInitializerKind),
    /// An initializer name is blank.
    EmptyInitializerName(WorkspaceInitializerKind, String),
    /// An object key is blank.
    EmptyObjectKey,
    /// An object key is declared twice.
    DuplicateObjectKey(String),
    /// An object title is blank.
    EmptyObjectTitle(String),
    /// Metadata is not a JSON object.
    MetadataNotObject,
    /// A metadata entry is neither a scalar nor a flat scalar array.
    InvalidMetadataValue(String),
    /// An object is updated before it is created.
    UpdateBeforeCreate(String),
    /// An archived object is updated.
    UpdateArchived(String),
    /// An update changes nothing.
    UpdateWithoutChange(String),
    /// An update sets a blank title.
    UpdateEmptyTitle(String),
    /// A relationship source is not created yet.
    RelationshipSourceMissing(String),
    /// A relationship target is not created yet.
    RelationshipTargetMissing(String),
    /// A relationship source is archived.
    RelationshipSourceArchived(String),
    /// A relationship target is archived.
    RelationshipTargetArchived(String),
    /// A relationship connects an object to itself.
    RelationshipToItself(String),
    /// A thread key is blank.
    EmptyThreadKey,
    /// A thread key is declared twice.
    DuplicateThreadKey(String),
    /// A thread's object is not created yet.
    ThreadObjectMissing(String),
    /// A thread's object is archived.
    ThreadObjectArchived(String),
    /// A thread's initial body is blank.
    EmptyThreadBody(String),
    /// A reply targets a thread not created yet.
    ReplyBeforeCreate(String),
    /// A reply targets a resolved thread.
    ReplyToResolved(String),
    /// A reply body is blank.
    EmptyReply(String),
    /// A thread is resolved before it is created.
    ResolveBeforeCreate(String),
    /// A thread is resolved twice.
    ResolveTwice(String),
    /// An object is archived before it is created.
    ArchiveBeforeCreate(String),
    /// An object is archived twice.
    ArchiveTwice(String),
    /// A demo declares no actor.
    DemoWithoutActors(String),
    /// Two actors of a demo share a username (ignoring ASCII case).
    DuplicateActorUsername(String, String),
    /// An actor key is empty.
    EmptyActorKey,
    /// An actor display name is blank.
    EmptyActorDisplayName(String),
    /// An actor role is blank.
    EmptyActorRole(String),
    /// An actor department is blank.
    EmptyActorDepartment(String),
    /// An actor username has fewer than 1 or more than 16 bytes.
    ActorUsernameLength(String),
    /// An actor username uses characters outside the allowed shape.
    InvalidActorUsername(String, String),
    /// A group key is blank (demo).
    EmptyGroupKey(String),
    /// A group name is blank (demo, group).
    EmptyGroupName(String, String),
    /// Two groups share a name ignoring ASCII case (demo, name).
    DuplicateGroupName(String, String),
    /// A group has no member (demo, group).
    EmptyGroup(String, String),
    /// A group references an unknown actor (demo, group, actor).
    GroupUnknownActor(String, String, String),
    /// A group membership role is invalid (demo, group, role).
    GroupInvalidRole(String, String, String),
    /// A profile key is blank (demo).
    EmptyProfileKey(String),
    /// A profile has no grant (demo, profile).
    EmptyProfile(String, String),
    /// A profile grant references an unknown actor (demo, profile, actor).
    ProfileUnknownActor(String, String, String),
    /// A profile grant references an unknown group (demo, profile, group).
    ProfileUnknownGroup(String, String, String),
    /// A profile grant names neither or both of an actor and a group (demo, profile).
    ProfileGrantShape(String, String),
    /// A profile repeats a principal (demo, profile).
    ProfileRepeatsPrincipal(String, String),
    /// A profile grant role is invalid (demo, profile, role).
    ProfileInvalidRole(String, String, String),
    /// A demo action references an unknown actor (demo, actor).
    ActionUnknownActor(String, String),
    /// A demo object declares no access profile (demo, object).
    ObjectWithoutProfile(String, String),
    /// A demo object references an unknown access profile (demo, object, profile).
    ObjectUnknownProfile(String, String, String),
    /// An access profile is attached to an action other than object creation (demo).
    ProfileOnNonCreate(String),
    /// A demo object carries no access profile during the access check (demo, object).
    ObjectMissingProfile(String, String),
    /// A thread has no object during the access check (demo, thread).
    ThreadWithoutObject(String, String),
    /// The access check references an unknown object (demo, object).
    AccessUnknownObject(String, String),
    /// An actor lacks the role an action needs (demo, actor, role, object).
    LacksAccess(String, String, crate::vocab::ObjectRole, String),
    /// An owner marker references an unknown object (demo, marker, object).
    OwnerMarkerUnknown(String, OwnerMarker, String),
    /// An owner marker references an archived object (demo, marker, object).
    OwnerMarkerArchived(String, OwnerMarker, String),
    /// An owner marker is declared twice (demo, marker, object).
    OwnerMarkerDuplicate(String, OwnerMarker, String),
    /// A demo was selected as a template.
    DemoSelectedAsTemplate(String),
    /// A template was selected as a demo.
    TemplateSelectedAsDemo(String),
    /// No template has the selected identifier.
    UnknownTemplate(String),
    /// No demo has the selected identifier.
    UnknownDemo(String),
}


/// Name of an initializer kind in messages.
pub open spec fn kind_name(k: WorkspaceInitializerKind) -> Seq<char> {
    match k {
        WorkspaceInitializerKind::Template => "template"@,
        WorkspaceInitializerKind::Demo => "demo"@,
    }
}

/// Name of an initializer kind in messages (`Display`).
pub fn kind_str(k: WorkspaceInitializerKind) -> (s: &'static str)
    ensures
        s@ == kind_name(k),
{
    match k {
        WorkspaceInitializerKind::Template => "template",
        WorkspaceInitializerKind::Demo => "demo",
    }
}

/// Name of an owner marker in messages.
pub open spec fn marker_name(m: OwnerMarker) -> Seq<char> {
    match m {
        OwnerMarker::Pin => "pin"@,
        OwnerMarker::Favorite => "favorite"@,
    }
}

/// Name of an owner marker in messages.
pub fn marker_str(m: OwnerMarker) -> (s: &'static str)
    ensures
        s@ == marker_name(m),
{
    match m {
        OwnerMarker::Pin => "pin",
        OwnerMarker::Favorite => "favorite",
    }
}

/// Operator-facing text of a catalog error.
pub open spec fn catalog_error_message(e: CatalogError) -> Seq<char> {
    match e {
        CatalogError::UnsupportedSchemaVersion(v) => "unsupported workspace initializer catalog schema version "@ + decimal(v as nat) + "; expected 1"@,
        CatalogError::DuplicateInitializerId(kind, id) => "duplicate "@ + kind_name(kind) + " initializer ID "@ + debug_str(id@),
        CatalogError::EmptyInitializerId(kind) => kind_name(kind) + " initializer ID must not be empty"@,
        CatalogError::EmptyInitializerName(kind, id) => kind_name(kind) + " initializer "@ + debug_str(id@) + " name must not be empty"@,
        CatalogError::EmptyObjectKey => "initializer object key must not be empty"@,
        CatalogError::DuplicateObjectKey(key) => "initializer declares duplicate object key "@ + debug_str(key@),
        CatalogError::EmptyObjectTitle(key) => "initializer object "@ + debug_str(key@) + " title must not be empty"@,
        CatalogError::MetadataNotObject => "initializer metadata must be a JSON object"@,
        CatalogError::InvalidMetadataValue(key) => "initializer metadata key "@ + debug_str(key@) + " must be a JSON scalar or one-dimensional scalar array"@,
        CatalogError::UpdateBeforeCreate(o) => "initializer updates object "@ + debug_str(o@) + " before it is created"@,
        CatalogError::UpdateArchived(o) => "initializer updates archived object "@ + debug_str(o@),
        CatalogError::UpdateWithoutChange(o) => "initializer update for "@ + debug_str(o@) + " must change at least one field"@,
        CatalogError::UpdateEmptyTitle(o) => "initializer update for "@ + debug_str(o@) + " has an empty title"@,
        CatalogError::RelationshipSourceMissing(s) => "initializer relationship source "@ + debug_str(s@) + " is not created yet"@,
        CatalogError::RelationshipTargetMissing(t) => "initializer relationship target "@ + debug_str(t@) + " is not created yet"@,
        CatalogError::RelationshipSourceArchived(s) => "initializer relationship source "@ + debug_str(s@) + " is archived"@,
        CatalogError::RelationshipTargetArchived(t) => "initializer relationship target "@ + debug_str(t@) + " is archived"@,
        CatalogError::RelationshipToItself(s) => "initializer relationship cannot connect object "@ + debug_str(s@) + " to itself"@,
        CatalogError::EmptyThreadKey => "initializer commentary thread key must not be empty"@,
        CatalogError::DuplicateThreadKey(k) => "initializer declares duplicate commentary thread key "@ + debug_str(k@),
        CatalogError::ThreadObjectMissing(o) => "initializer commentary object "@ + debug_str(o@) + " is not created yet"@,
        CatalogError::ThreadObjectArchived(o) => "initializer commentary object "@ + debug_str(o@) + " is archived"@,
        CatalogError::EmptyThreadBody(k) => "initializer commentary thread "@ + debug_str(k@) + " body must not be empty"@,
        CatalogError::ReplyBeforeCreate(t) => "initializer replies to commentary thread "@ + debug_str(t@) + " before it is created"@,
        CatalogError::ReplyToResolved(t) => "initializer replies to resolved commentary thread "@ + debug_str(t@),
        CatalogError::EmptyReply(t) => "initializer commentary reply for "@ + debug_str(t@) + " must not be empty"@,
        CatalogError::ResolveBeforeCreate(t) => "initializer resolves commentary thread "@ + debug_str(t@) + " before it is created"@,
        CatalogError::ResolveTwice(t) => "initializer resolves commentary thread "@ + debug_str(t@) + " more than once"@,
        CatalogError::ArchiveBeforeCreate(o) => "initializer archives object "@ + debug_str(o@) + " before it is created"@,
        CatalogError::ArchiveTwice(o) => "initializer archives object "@ + debug_str(o@) + " more than once"@,
        CatalogError::DemoWithoutActors(d) => "demo "@ + debug_str(d@) + " must declare at least one actor"@,
        CatalogError::DuplicateActorUsername(d, u) => "demo "@ + debug_str(d@) + " declares duplicate actor username "@ + debug_str(u@),
        CatalogError::EmptyActorKey => "demo actor key must not be empty"@,
        CatalogError::EmptyActorDisplayName(k) => "demo actor "@ + debug_str(k@) + " display name must not be empty"@,
        CatalogError::EmptyActorRole(k) => "demo actor "@ + debug_str(k@) + " role must not be empty"@,
        CatalogError::EmptyActorDepartment(k) => "demo actor "@ + debug_str(k@) + " department must not be empty"@,
        CatalogError::ActorUsernameLength(k) => "demo actor "@ + debug_str(k@) + " username must contain 1 to 16 characters"@,
        CatalogError::InvalidActorUsername(k, u) => "demo actor "@ + debug_str(k@) + " has invalid username "@ + debug_str(u@),
        CatalogError::EmptyGroupKey(d) => "demo "@ + debug_str(d@) + " group key must not be empty"@,
        CatalogError::EmptyGroupName(d, k) => "demo "@ + debug_str(d@) + " group "@ + debug_str(k@) + " name must not be empty"@,
        CatalogError::DuplicateGroupName(d, n) => "demo "@ + debug_str(d@) + " declares duplicate group name "@ + debug_str(n@),
        CatalogError::EmptyGroup(d, k) => "demo "@ + debug_str(d@) + " group "@ + debug_str(k@) + " must contain at least one actor"@,
        CatalogError::GroupUnknownActor(d, k, a) => "demo "@ + debug_str(d@) + " group "@ + debug_str(k@) + " references unknown actor "@ + debug_str(a@),
        CatalogError::GroupInvalidRole(d, k, r) => "demo "@ + debug_str(d@) + " group "@ + debug_str(k@) + " has invalid membership role "@ + debug_str(r@),
        CatalogError::EmptyProfileKey(d) => "demo "@ + debug_str(d@) + " access profile key must not be empty"@,
        CatalogError::EmptyProfile(d, k) => "demo "@ + debug_str(d@) + " access profile "@ + debug_str(k@) + " must contain at least one grant"@,
        CatalogError::ProfileUnknownActor(d, k, a) => "demo "@ + debug_str(d@) + " access profile "@ + debug_str(k@) + " references unknown actor "@ + debug_str(a@),
        CatalogError::ProfileUnknownGroup(d, k, g) => "demo "@ + debug_str(d@) + " access profile "@ + debug_str(k@) + " references unknown group "@ + debug_str(g@),
        CatalogError::ProfileGrantShape(d, k) => "demo "@ + debug_str(d@) + " access profile "@ + debug_str(k@) + " grant must reference exactly one actor or group"@,
        CatalogError::ProfileRepeatsPrincipal(d, k) => "demo "@ + debug_str(d@) + " access profile "@ + debug_str(k@) + " repeats a principal"@,
        CatalogError::ProfileInvalidRole(d, k, r) => "demo "@ + debug_str(d@) + " access profile "@ + debug_str(k@) + " has invalid object role "@ + debug_str(r@),
        CatalogError::ActionUnknownActor(d, a) => "demo "@ + debug_str(d@) + " action references unknown actor "@ + debug_str(a@),
        CatalogError::ObjectWithoutProfile(d, k) => "demo "@ + debug_str(d@) + " object "@ + debug_str(k@) + " must declare an access profile"@,
        CatalogError::ObjectUnknownProfile(d, k, p) => "demo "@ + debug_str(d@) + " object "@ + debug_str(k@) + " references unknown access profile "@ + debug_str(p@),
        CatalogError::ProfileOnNonCreate(d) => "demo "@ + debug_str(d@) + " access profiles may only be attached to create_object actions"@,
        CatalogError::ObjectMissingProfile(d, k) => "demo "@ + debug_str(d@) + " object "@ + debug_str(k@) + " is missing an access profile"@,
        CatalogError::ThreadWithoutObject(d, t) => "demo "@ + debug_str(d@) + " commentary thread "@ + debug_str(t@) + " has no object"@,
        CatalogError::AccessUnknownObject(d, o) => "demo "@ + debug_str(d@) + " access check references unknown object "@ + debug_str(o@),
        CatalogError::LacksAccess(d, a, r, o) => "demo "@ + debug_str(d@) + " actor "@ + debug_str(a@) + " lacks "@ + crate::vocab::object_role_name(r) + " access to object "@ + debug_str(o@),
        CatalogError::OwnerMarkerUnknown(d, mk, k) => "demo "@ + debug_str(d@) + " owner "@ + marker_name(mk) + " references unknown object "@ + debug_str(k@),
        CatalogError::OwnerMarkerArchived(d, mk, k) => "demo "@ + debug_str(d@) + " owner "@ + marker_name(mk) + " references archived object "@ + debug_str(k@),
        CatalogError::OwnerMarkerDuplicate(d, mk, k) => "demo "@ + debug_str(d@) + " declares duplicate owner "@ + marker_name(mk) + " for object "@ + debug_str(k@),
        CatalogError::DemoSelectedAsTemplate(id) => "initializer "@ + debug_str(id@) + " is a demo scenario; use `--demo "@ + id@ + "` instead of `--template`"@,
        CatalogError::TemplateSelectedAsDemo(id) => "initializer "@ + debug_str(id@) + " is a reusable template; use `--template "@ + id@ + "` instead of `--demo`"@,
        CatalogError::UnknownTemplate(id) => "unknown workspace template "@ + debug_str(id@),
        CatalogError::UnknownDemo(id) => "unknown demo scenario "@ + debug_str(id@),
    }
}

impl CatalogError {
    /// Operator-facing text of this error.
    pub fn message(&self) -> (m: String)
        ensures
            m@ == catalog_error_message(*self),
    {
        match self {
            CatalogError::UnsupportedSchemaVersion(v) => {
                let mut m = String::from_str("unsupported workspace initializer catalog schema version ");
                let t = decimal_string(*v as u64);
                append_str(&mut m, t.as_str());
                append_str(&mut m, "; expected 1");
                m
            },
            CatalogError::DuplicateInitializerId(kind, id) => {
                let mut m = String::from_str("duplicate ");
                append_str(&mut m, kind_str(*kind));
                append_str(&mut m, " initializer ID ");
                push_debug(&mut m, id.as_str());
                m
            },
            CatalogError::EmptyInitializerId(kind) => {
                let mut m = String::from_str(kind_str(*kind));
                append_str(&mut m, " initializer ID must not be empty");
                m
            },
            CatalogError::EmptyInitializerName(kind, id) => {
                let mut m = String::from_str(kind_str(*kind));
                append_str(&mut m, " initializer ");
                push_debug(&mut m, id.as_str());
                append_str(&mut m, " name must not be empty");
                m
            },
            CatalogError::EmptyObjectKey => {
                let mut m = String::from_str("initializer object key must not be empty");
                m
            },
            CatalogError::DuplicateObjectKey(key) => {
                let mut m = String::from_str("initializer declares duplicate object key ");
                push_debug(&mut m, key.as_str());
                m
            },
            CatalogError::EmptyObjectTitle(key) => {
                let mut m = String::from_str("initializer object ");
                push_debug(&mut m, key.as_str());
                append_str(&mut m, " title must not be empty");
                m
            },
            CatalogError::MetadataNotObject => {
                let mut m = String::from_str("initializer metadata must be a JSON object");
                m
            },
            CatalogError::InvalidMetadataValue(key) => {
                let mut m = String::from_str("initializer metadata key ");
                push_debug(&mut m, key.as_str());
                append_str(&mut m, " must be a JSON scalar or one-dimensional scalar array");
                m
            },
            CatalogError::UpdateBeforeCreate(o) => {
                let mut m = String::from_str("initializer updates object ");
                push_debug(&mut m, o.as_str());
                append_str(&mut m, " before it is created");
                m
            },
            CatalogError::UpdateArchived(o) => {
                let mut m = String::from_str("initializer updates archived object ");
                push_debug(&mut m, o.as_str());
                m
            },
            CatalogError::UpdateWithoutChange(o) => {
                let mut m = String::from_str("initializer update for ");
                push_debug(&mut m, o.as_str());
                append_str(&mut m, " must change at least one field");
                m
            },
            CatalogError::UpdateEmptyTitle(o) => {
                let mut m = String::from_str("initializer update for ");
                push_debug(&mut m, o.as_str());
                append_str(&mut m, " has an empty title");
                m
            },
            CatalogError::RelationshipSourceMissing(s) => {
                let mut m = String::from_str("initializer relationship source ");
                push_debug(&mut m, s.as_str());
                append_str(&mut m, " is not created yet");
                m
            },
            CatalogError::RelationshipTargetMissing(t) => {
                let mut m = String::from_str("initializer relationship target ");
                push_debug(&mut m, t.as_str());
                append_str(&mut m, " is not created yet");
                m
            },
            CatalogError::RelationshipSourceArchived(s) => {
                let mut m = String::from_str("initializer relationship source ");
                push_debug(&mut m, s.as_str());
                append_str(&mut m, " is archived");
                m
            },
            CatalogError::RelationshipTargetArchived(t) => {
                let mut m = String::from_str("initializer relationship target ");
                push_debug(&mut m, t.as_str());
                append_str(&mut m, " is archived");
                m
            },
            CatalogError::RelationshipToItself(s) => {
                let mut m = String::from_str("initializer relationship cannot connect object ");
                push_debug(&mut m, s.as_str());
                append_str(&mut m, " to itself");
                m
            },
            CatalogError::EmptyThreadKey => {
                let mut m = String::from_str("initializer commentary thread key must not be empty");
                m
            },
            CatalogError::DuplicateThreadKey(k) => {
                let mut m = String::from_str("initializer declares duplicate commentary thread key ");
                push_debug(&mut m, k.as_str());
                m
            },
            CatalogError::ThreadObjectMissing(o) => {
                let mut m = String::from_str("initializer commentary object ");
                push_debug(&mut m, o.as_str());
                append_str(&mut m, " is not created yet");
                m
            },
            CatalogError::ThreadObjectArchived(o) => {
                let mut m = String::from_str("initializer commentary object ");
                push_debug(&mut m, o.as_str());
                append_str(&mut m, " is archived");
                m
            },
            CatalogError::EmptyThreadBody(k) => {
                let mut m = String::from_str("initializer commentary thread ");
                push_debug(&mut m, k.as_str());
                append_str(&mut m, " body must not be empty");
                m
            },
            CatalogError::ReplyBeforeCreate(t) => {
                let mut m = String::from_str("initializer replies to commentary thread ");
                push_debug(&mut m, t.as_str());
                append_str(&mut m, " before it is created");
                m
            },
            CatalogError::ReplyToResolved(t) => {
                let mut m = String::from_str("initializer replies to resolved commentary thread ");
                push_debug(&mut m, t.as_str());
                m
            },
            CatalogError::EmptyReply(t) => {
                let mut m = String::from_str("initializer commentary reply for ");
                push_debug(&mut m, t.as_str());
                append_str(&mut m, " must not be empty");
                m
            },
            CatalogError::ResolveBeforeCreate(t) => {
                let mut m = String::from_str("initializer resolves commentary thread ");
                push_debug(&mut m, t.as_str());
                append_str(&mut m, " before it is created");
                m
            },
            CatalogError::ResolveTwice(t) => {
                let mut m = String::from_str("initializer resolves commentary thread ");
                push_debug(&mut m, t.as_str());
                append_str(&mut m, " more than once");
                m
            },
            CatalogError::ArchiveBeforeCreate(o) => {
                let mut m = String::from_str("initializer archives object ");
                push_debug(&mut m, o.as_str());
                append_str(&mut m, " before it is created");
                m
            },
            CatalogError::ArchiveTwice(o) => {
                let mut m = String::from_str("initializer archives object ");
                push_debug(&mut m, o.as_str());
                append_str(&mut m, " more than once");
                m
            },
            CatalogError::DemoWithoutActors(d) => {
                let mut m = String::from_str("demo ");
                push_debug(&mut m, d.as_str());
                append_str(&mut m, " must declare at least one actor");
                m
            },
            CatalogError::DuplicateActorUsername(d, u) => {
                let mut m = String::from_str("demo ");
                push_debug(&mut m, d.as_str());
                append_str(&mut m, " declares duplicate actor username ");
                push_debug(&mut m, u.as_str());
                m
            },
            CatalogError::EmptyActorKey => {
                let mut m = String::from_str("demo actor key must not be empty");
                m
            },
            CatalogError::EmptyActorDisplayName(k) => {
                let mut m = String::from_str("demo actor ");
                push_debug(&mut m, k.as_str());
                append_str(&mut m, " display name must not be empty");
                m
            },
            CatalogError::EmptyActorRole(k) => {
                let mut m = String::from_str("demo actor ");
                push_debug(&mut m, k.as_str());
                append_str(&mut m, " role must not be empty");
                m
            },
            CatalogError::EmptyActorDepartment(k) => {
                let mut m = String::from_str("demo actor ");
                push_debug(&mut m, k.as_str());
                append_str(&mut m, " department must not be empty");
                m
            },
            CatalogError::ActorUsernameLength(k) => {
                let mut m = String::from_str("demo actor ");
                push_debug(&mut m, k.as_str());
                append_str(&mut m, " username must contain 1 to 16 characters");
                m
            },
            CatalogError::InvalidActorUsername(k, u) => {
                let mut m = String::from_str("demo actor ");
                push_debug(&mut m, k.as_str());
                append_str(&mut m, " has invalid username ");
                push_debug(&mut m, u.as_str());
                m
            },
            CatalogError::EmptyGroupKey(d) => {
                let mut m = String::from_str("demo ");
                push_debug(&mut m, d.as_str());
                append_str(&mut m, " group key must not be empty");
                m
            },
            CatalogError::EmptyGroupName(d, k) => {
                let mut m = String::from_str("demo ");
                push_debug(&mut m, d.as_str());
                append_str(&mut m, " group ");
                push_debug(&mut m, k.as_str());
                append_str(&mut m, " name must not be empty");
                m
            },
            CatalogError::DuplicateGroupName(d, n) => {
                let mut m = String::from_str("demo ");
                push_debug(&mut m, d.as_str());
                append_str(&mut m, " declares duplicate group name ");
                push_debug(&mut m, n.as_str());
                m
            },
            CatalogError::EmptyGroup(d, k) => {
                let mut m = String::from_str("demo ");
                push_debug(&mut m, d.as_str());
                append_str(&mut m, " group ");
                push_debug(&mut m, k.as_str());
                append_str(&mut m, " must contain at least one actor");
                m
            },
            CatalogError::GroupUnknownActor(d, k, a) => {
                let mut m = String::from_str("demo ");
                push_debug(&mut m, d.as_str());
                append_str(&mut m, " group ");
                push_debug(&mut m, k.as_str());
                append_str(&mut m, " references unknown actor ");
                push_debug(&mut m, a.as_str());
                m
            },
            CatalogError::GroupInvalidRole(d, k, r) => {
                let mut m = String::from_str("demo ");
                push_debug(&mut m, d.as_str());
                append_str(&mut m, " group ");
                push_debug(&mut m, k.as_str());
                append_str(&mut m, " has invalid membership role ");
                push_debug(&mut m, r.as_str());
                m
            },
            CatalogError::EmptyProfileKey(d) => {
                let mut m = String::from_str("demo ");
                push_debug(&mut m, d.as_str());
                append_str(&mut m, " access profile key must not be empty");
                m
            },
            CatalogError::EmptyProfile(d, k) => {
                let mut m = String::from_str("demo ");
                push_debug(&mut m, d.as_str());
                append_str(&mut m, " access profile ");
                push_debug(&mut m, k.as_str());
                append_str(&mut m, " must contain at least one grant");
                m
            },
            CatalogError::ProfileUnknownActor(d, k, a) => {
                let mut m = String::from_str("demo ");
                push_debug(&mut m, d.as_str());
                append_str(&mut m, " access profile ");
                push_debug(&mut m, k.as_str());
                append_str(&mut m, " references unknown actor ");
                push_debug(&mut m, a.as_str());
                m
            },
            CatalogError::ProfileUnknownGroup(d, k, g) => {
                let mut m = String::from_str("demo ");
                push_debug(&mut m, d.as_str());
                append_str(&mut m, " access profile ");
                push_debug(&mut m, k.as_str());
                append_str(&mut m, " references unknown group ");
                push_debug(&mut m, g.as_str());
                m
            },
            CatalogError::ProfileGrantShape(d, k) => {
                let mut m = String::from_str("demo ");
                push_debug(&mut m, d.as_str());
                append_str(&mut m, " access profile ");
                push_debug(&mut m, k.as_str());
                append_str(&mut m, " grant must reference exactly one actor or group");
                m
            },
            CatalogError::ProfileRepeatsPrincipal(d, k) => {
                let mut m = String::from_str("demo ");
                push_debug(&mut m, d.as_str());
                append_str(&mut m, " access profile ");
                push_debug(&mut m, k.as_str());
                append_str(&mut m, " repeats a principal");
                m
            },
            CatalogError::ProfileInvalidRole(d, k, r) => {
                let mut m = String::from_str("demo ");
                push_debug(&mut m, d.as_str());
                append_str(&mut m, " access profile ");
                push_debug(&mut m, k.as_str());
                append_str(&mut m, " has invalid object role ");
                push_debug(&mut m, r.as_str());
                m
            },
            CatalogError::ActionUnknownActor(d, a) => {
                let mut m = String::from_str("demo ");
                push_debug(&mut m, d.as_str());
                append_str(&mut m, " action references unknown actor ");
                push_debug(&mut m, a.as_str());
                m
            },
            CatalogError::ObjectWithoutProfile(d, k) => {
                let mut m = String::from_str("demo ");
                push_debug(&mut m, d.as_str());
                append_str(&mut m, " object ");
                push_debug(&mut m, k.as_str());
                append_str(&mut m, " must declare an access profile");
                m
            },
            CatalogError::ObjectUnknownProfile(d, k, p) => {
                let mut m = String::from_str("demo ");
                push_debug(&mut m, d.as_str());
                append_str(&mut m, " object ");
                push_debug(&mut m, k.as_str());
                append_str(&mut m, " references unknown access profile ");
                push_debug(&mut m, p.as_str());
                m
            },
            CatalogError::ProfileOnNonCreate(d) => {
                let mut m = String::from_str("demo ");
                push_debug(&mut m, d.as_str());
                append_str(&mut m, " access profiles may only be attached to create_object actions");
                m
            },
            CatalogError::ObjectMissingProfile(d, k) => {
                let mut m = String::from_str("demo ");
                push_debug(&mut m, d.as_str());
                append_str(&mut m, " object ");
                push_debug(&mut m, k.as_str());
                append_str(&mut m, " is missing an access profile");
                m
            },
            CatalogError::ThreadWithoutObject(d, t) => {
                let mut m = String::from_str("demo ");
                push_debug(&mut m, d.as_str());
                append_str(&mut m, " commentary thread ");
                push_debug(&mut m, t.as_str());
                append_str(&mut m, " has no object");
                m
            },
            CatalogError::AccessUnknownObject(d, o) => {
                let mut m = String::from_str("demo ");
                push_debug(&mut m, d.as_str());
                append_str(&mut m, " access check references unknown object ");
                push_debug(&mut m, o.as_str());
                m
            },
            CatalogError::LacksAccess(d, a, r, o) => {
                let mut m = String::from_str("demo ");
                push_debug(&mut m, d.as_str());
                append_str(&mut m, " actor ");
                push_debug(&mut m, a.as_str());
                append_str(&mut m, " lacks ");
                append_str(&mut m, r.as_str());
                append_str(&mut m, " access to object ");
                push_debug(&mut m, o.as_str());
                m
            },
            CatalogError::OwnerMarkerUnknown(d, mk, k) => {
                let mut m = String::from_str("demo ");
                push_debug(&mut m, d.as_str());
                append_str(&mut m, " owner ");
                append_str(&mut m, marker_str(*mk));
                append_str(&mut m, " references unknown object ");
                push_debug(&mut m, k.as_str());
                m
            },
            CatalogError::OwnerMarkerArchived(d, mk, k) => {
                let mut m = String::from_str("demo ");
                push_debug(&mut m, d.as_str());
                append_str(&mut m, " owner ");
                append_str(&mut m, marker_str(*mk));
                append_str(&mut m, " references archived object ");
                push_debug(&mut m, k.as_str());
                m
            },
            CatalogError::OwnerMarkerDuplicate(d, mk, k) => {
                let mut m = String::from_str("demo ");
                push_debug(&mut m, d.as_str());
                append_str(&mut m, " declares duplicate owner ");
                append_str(&mut m, marker_str(*mk));
                append_str(&mut m, " for object ");
                push_debug(&mut m, k.as_str());
                m
            },
            CatalogError::DemoSelectedAsTemplate(id) => {
                let mut m = String::from_str("initializer ");
                push_debug(&mut m, id.as_str());
                append_str(&mut m, " is a demo scenario; use `--demo ");
                append_str(&mut m, id.as_str());
                append_str(&mut m, "` instead of `--template`");
                m
            },
            CatalogError::TemplateSelectedAsDemo(id) => {
                let mut m = String::from_str("initializer ");
                push_debug(&mut m, id.as_str());
                append_str(&mut m, " is a reusable template; use `--template ");
                append_str(&mut m, id.as_str());
                append_str(&mut m, "` instead of `--demo`");
                m
            },
            CatalogError::UnknownTemplate(id) => {
                let mut m = String::from_str("unknown workspace template ");
                push_debug(&mut m, id.as_str());
                m
            },
            CatalogError::UnknownDemo(id) => {
                let mut m = String::from_str("unknown demo scenario ");
                push_debug(&mut m, id.as_str());
                m
            },
        }
    }
}

} // verus!
