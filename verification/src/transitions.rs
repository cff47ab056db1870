//! The decisions inside the stored-state transitions: which version an update starts from and
//! whether it changes anything, which grant changes keep an object administered, how stored
//! grant principals and attachment targets are validated, and the order in which objects are
//! locked. The caller runs the queries and hands their results to these functions.
use vstd::prelude::*;
use crate::catalog::Json;
use crate::demo_seed::GrantPrincipal;
use crate::json::{json_canonical, json_equal, json_value, JsonValue};
use crate::kernel::KernelError;
use crate::seed_events::{hyphenated, uuid_text};
use crate::text::{append_str, str_eq};
use crate::vocab::ObjectRole;

verus! {

// ----- Object-version updates -----

/// The version an update starts from: the object must be active (`locked` is its current
/// version when it is), have a current version, and that version must be the expected one.
pub open spec fn update_base(locked: Option<Option<u128>>, expected: u128) -> Result<u128, KernelError> {
    match locked {
        None => Err(KernelError::ResourceNotFound),
        Some(None) => Err(KernelError::ObjectHasNoCurrentVersion),
        Some(Some(current)) => if current == expected {
            Ok(current)
        } else {
            Err(KernelError::ObjectVersionConflict)
        },
    }
}

/// Checks the locked object against the version the caller expects to update.
pub fn current_version_for_update(locked: Option<Option<u128>>, expected: u128) -> (r: Result<u128, KernelError>)
    ensures
        r == update_base(locked, expected),
{
    match locked {
        None => Err(KernelError::ResourceNotFound),
        Some(None) => Err(KernelError::ObjectHasNoCurrentVersion),
        Some(Some(current)) => if current == expected {
            Ok(current)
        } else {
            Err(KernelError::ObjectVersionConflict)
        },
    }
}

/// The content of an object version.
#[derive(Debug)]
pub struct VersionContent {
    /// Title.
    pub title: String,
    /// Body text.
    pub body: String,
    /// Metadata, in canonical form (`json_canonical`).
    pub metadata: Json,
}

/// Version content by value.
pub struct ContentView {
    /// Title.
    pub title: Seq<char>,
    /// Body text.
    pub body: Seq<char>,
    /// Metadata.
    pub metadata: JsonValue,
}

/// The content of a version by value.
pub open spec fn content_view(c: VersionContent) -> ContentView {
    ContentView { title: c.title@, body: c.body@, metadata: json_value(c.metadata) }
}

/// The fields an update replaces; those left out keep their current value.
#[derive(Debug)]
pub struct VersionChanges {
    /// New title.
    pub title: Option<String>,
    /// New body text.
    pub body: Option<String>,
    /// New metadata, in canonical form.
    pub metadata: Option<Json>,
}

/// The content after an update.
pub open spec fn merged_content(current: ContentView, changes: VersionChanges) -> ContentView {
    ContentView {
        title: match changes.title {
            Some(t) => t@,
            None => current.title,
        },
        body: match changes.body {
            Some(b) => b@,
            None => current.body,
        },
        metadata: match changes.metadata {
            Some(m) => json_value(m),
            None => current.metadata,
        },
    }
}

/// The content an update leads to, and whether it differs from the current content (when it
/// does not, no version is appended and the current one stands).
#[derive(Debug)]
pub struct VersionUpdateOutcome {
    /// Content of the version that stands after the update.
    pub content: VersionContent,
    /// Whether a new version is appended.
    pub changed: bool,
}

/// Applies the requested changes to the current content and detects a semantic no-op.
pub fn apply_version_changes(current: VersionContent, changes: VersionChanges) -> (r: VersionUpdateOutcome)
    requires
        json_canonical(json_value(current.metadata)),
        changes.metadata matches Some(m) ==> json_canonical(json_value(m)),
    ensures
        content_view(r.content) == merged_content(content_view(current), changes),
        r.changed == (merged_content(content_view(current), changes) != content_view(current)),
{
    let VersionContent { title: cur_title, body: cur_body, metadata: cur_metadata } = current;
    let VersionChanges { title, body, metadata } = changes;
    let (title, same_title) = match title {
        Some(t) => {
            let same = str_eq(t.as_str(), cur_title.as_str());
            (t, same)
        },
        None => (cur_title, true),
    };
    let (body, same_body) = match body {
        Some(b) => {
            let same = str_eq(b.as_str(), cur_body.as_str());
            (b, same)
        },
        None => (cur_body, true),
    };
    let (metadata, same_metadata) = match metadata {
        Some(m) => {
            let same = json_equal(&m, &cur_metadata);
            (m, same)
        },
        None => (cur_metadata, true),
    };
    VersionUpdateOutcome { content: VersionContent { title, body, metadata }, changed: !(same_title && same_body && same_metadata) }
}


/// Restating the current content, field by field or not at all, changes nothing: the current
/// version stands.
pub proof fn restated_content_changes_nothing(current: ContentView, changes: VersionChanges)
    requires
        changes.title matches Some(t) ==> t@ == current.title,
        changes.body matches Some(b) ==> b@ == current.body,
        changes.metadata matches Some(m) ==> json_value(m) == current.metadata,
    ensures
        merged_content(current, changes) == current,
{
}

/// An update carries every field that was given and keeps every other.
pub proof fn update_carries_given_fields(current: ContentView, changes: VersionChanges)
    ensures
        changes.title matches Some(t) ==> merged_content(current, changes).title == t@,
        changes.body matches Some(b) ==> merged_content(current, changes).body == b@,
        changes.metadata matches Some(m) ==> merged_content(current, changes).metadata == json_value(m),
        changes.title is None ==> merged_content(current, changes).title == current.title,
        changes.body is None ==> merged_content(current, changes).body == current.body,
        changes.metadata is None ==> merged_content(current, changes).metadata == current.metadata,
{
}

// ----- Object grants -----

/// How an optional identifier prints (`Option<Uuid>` under `{:?}`).
pub open spec fn optional_id_text(id: Option<u128>) -> Seq<char> {
    match id {
        Some(i) => "Some("@ + hyphenated(i) + ")"@,
        None => "None"@,
    }
}

/// The stored principal columns as an invalid value reports them.
pub open spec fn principal_columns_text(user: Option<u128>, group: Option<u128>) -> Seq<char> {
    "user="@ + optional_id_text(user) + ", group="@ + optional_id_text(group)
}

/// The principal of a stored grant: exactly one of its user and group columns is set.
pub open spec fn principal_of_columns(user: Option<u128>, group: Option<u128>) -> Option<GrantPrincipal> {
    match (user, group) {
        (Some(u), None) => Some(GrantPrincipal::User(u)),
        (None, Some(g)) => Some(GrantPrincipal::Group(g)),
        _ => None,
    }
}

/// Appends how an optional identifier prints.
fn push_optional_id(out: &mut String, id: Option<u128>)
    ensures
        final(out)@ == old(out)@ + optional_id_text(id),
{
    match id {
        Some(i) => {
            append_str(out, "Some(");
            let t = uuid_text(i);
            append_str(out, t.as_str());
            append_str(out, ")");
        },
        None => append_str(out, "None"),
    }
}

/// Reads the principal of a stored grant from its user and group columns.
pub fn grant_principal_from_columns(user: Option<u128>, group: Option<u128>) -> (r: Result<GrantPrincipal, KernelError>)
    ensures
        principal_of_columns(user, group) matches Some(p) ==> r == Ok::<GrantPrincipal, KernelError>(p),
        principal_of_columns(user, group) is None ==> (r matches Err(KernelError::InvalidStoredValue { kind, value })
            && kind@ == "object grant principal"@ && value@ == principal_columns_text(user, group)),
{
    match (user, group) {
        (Some(u), None) => Ok(GrantPrincipal::User(u)),
        (None, Some(g)) => Ok(GrantPrincipal::Group(g)),
        _ => {
            let mut value = "user=".to_owned();
            push_optional_id(&mut value, user);
            append_str(&mut value, ", group=");
            push_optional_id(&mut value, group);
            Err(KernelError::InvalidStoredValue { kind: "object grant principal", value })
        },
    }
}

/// Whether a grant change takes an administrator grant away: the grant is an administrator's
/// and it is revoked or replaced by a lesser role.
pub open spec fn removes_admin(current: ObjectRole, replacement: Option<ObjectRole>) -> bool {
    current == ObjectRole::Admin && replacement != Some(ObjectRole::Admin)
}

/// Whether the change must first count the object's active administrator grants.
pub fn grant_change_removes_admin(current: ObjectRole, replacement: Option<ObjectRole>) -> (r: bool)
    ensures
        r == removes_admin(current, replacement),
{
    current == ObjectRole::Admin && !matches!(replacement, Some(ObjectRole::Admin))
}

/// The outcome of the retention rule, given the count of active administrator grants.
pub open spec fn admin_retention(current: ObjectRole, replacement: Option<ObjectRole>, admin_grants: int) -> Result<
    (),
    KernelError,
> {
    if removes_admin(current, replacement) && admin_grants <= 1 {
        Err(KernelError::ObjectMustRetainAdminGrant)
    } else {
        Ok(())
    }
}

/// Rejects a grant change that would remove the object's final active administrator grant.
pub fn check_admin_retained(current: ObjectRole, replacement: Option<ObjectRole>, admin_grants: i64) -> (r: Result<
    (),
    KernelError,
>)
    ensures
        r == admin_retention(current, replacement, admin_grants as int),
{
    if grant_change_removes_admin(current, replacement) && admin_grants <= 1 {
        Err(KernelError::ObjectMustRetainAdminGrant)
    } else {
        Ok(())
    }
}

/// Active administrator grants after a change to one grant.
pub open spec fn admins_after(current: ObjectRole, replacement: Option<ObjectRole>, admin_grants: int) -> int {
    admin_grants - (if current == ObjectRole::Admin {
        1int
    } else {
        0
    }) + (if replacement == Some(ObjectRole::Admin) {
        1int
    } else {
        0
    })
}

/// An object that has an administrator keeps one through every grant change the rule admits
/// (the changed grant is counted among the administrators when it is one).
pub proof fn admitted_grant_change_keeps_an_admin(current: ObjectRole, replacement: Option<ObjectRole>, admin_grants: int)
    requires
        admin_grants >= 1,
        admin_retention(current, replacement, admin_grants) is Ok,
    ensures
        admins_after(current, replacement, admin_grants) >= 1,
{
}

// ----- Attachments -----

/// The outcome of the attachment checks: the objects involved are active, the source
/// attachment (when reusing one) exists, and the target version, when one is named, belongs
/// to the target object.
pub open spec fn attachment_target(objects_active: bool, source_found: bool, version_belongs: Option<bool>) -> Result<
    (),
    KernelError,
> {
    if !objects_active || !source_found {
        Err(KernelError::ResourceNotFound)
    } else if version_belongs == Some(false) {
        Err(KernelError::InvalidAttachmentVersion)
    } else {
        Ok(())
    }
}

/// Validates an attachment target from the results of the lifecycle lock, the source lookup
/// (`true` when creating) and the version lookup (`None` when no version is named).
pub fn check_attachment_target(objects_active: bool, source_found: bool, version_belongs: Option<bool>) -> (r: Result<
    (),
    KernelError,
>)
    ensures
        r == attachment_target(objects_active, source_found, version_belongs),
{
    if !objects_active || !source_found {
        Err(KernelError::ResourceNotFound)
    } else if matches!(version_belongs, Some(false)) {
        Err(KernelError::InvalidAttachmentVersion)
    } else {
        Ok(())
    }
}

// ----- References -----

/// References are rebuilt only from the active object's current version.
pub fn check_reference_source(locked: Option<Option<u128>>, source_version_id: u128) -> (r: Result<(), KernelError>)
    ensures
        r == (if locked == Some(Some(source_version_id)) {
            Ok::<(), KernelError>(())
        } else {
            Err(KernelError::ResourceNotFound)
        }),
{
    match locked {
        Some(Some(current)) => if current == source_version_id {
            Ok(())
        } else {
            Err(KernelError::ResourceNotFound)
        },
        _ => Err(KernelError::ResourceNotFound),
    }
}


// ----- Lock order -----

/// Whether identifiers are in strictly increasing order.
pub open spec fn strictly_increasing(s: Seq<u128>) -> bool {
    forall|i: int, j: int| 0 <= i < j < s.len() ==> s[i] < s[j]
}

/// Whether two listings hold the same identifiers.
pub open spec fn same_identifiers(a: Seq<u128>, b: Seq<u128>) -> bool {
    forall|x: u128| a.contains(x) <==> b.contains(x)
}

/// The order in which objects are locked: the identifiers sorted, each once.
pub fn lock_order(ids: &Vec<u128>) -> (r: Vec<u128>)
    ensures
        strictly_increasing(r@),
        same_identifiers(r@, ids@),
{
    let mut out: Vec<u128> = Vec::new();
    let mut i: usize = 0;
    while i < ids.len()
        invariant
            i <= ids@.len(),
            strictly_increasing(out@),
            forall|x: u128| out@.contains(x) <==> ids@.subrange(0, i as int).contains(x),
        decreases ids@.len() - i,
    {
        let id = ids[i];
        let mut k: usize = 0;
        while k < out.len() && out[k] < id
            invariant
                k <= out@.len(),
                forall|t: int| 0 <= t < k ==> out@[t] < id,
            decreases out@.len() - k,
        {
            k += 1;
        }
        let ghost before = out@;
        let ghost prev = ids@.subrange(0, i as int);
        let ghost next = ids@.subrange(0, i + 1);
        if k == out.len() || out[k] != id {
            out.insert(k, id);
            assert forall|a: int, b: int| 0 <= a < b < out@.len() implies out@[a] < out@[b] by {
                if b < k {
                } else if a < k && b == k {
                } else if a < k {
                    assert(before[a] < before[b - 1]);
                } else if a == k {
                    assert(before[k as int] > id);
                    assert(before[k as int] <= before[b - 1]);
                } else {
                    assert(before[a - 1] < before[b - 1]);
                }
            }
            assert forall|x: u128| out@.contains(x) <==> next.contains(x) by {
                if out@.contains(x) {
                    let t = choose|t: int| 0 <= t < out@.len() && out@[t] == x;
                    if t < k {
                        assert(before[t] == x);
                    } else if t > k {
                        assert(before[t - 1] == x);
                    }
                    if x != id {
                        assert(before.contains(x));
                        let u = choose|u: int| 0 <= u < i && prev[u] == x;
                        assert(next[u] == x);
                    } else {
                        assert(next[i as int] == x);
                    }
                }
                if next.contains(x) {
                    let u = choose|u: int| 0 <= u < i + 1 && next[u] == x;
                    if u < i {
                        assert(prev[u] == x);
                        assert(before.contains(x));
                        let t = choose|t: int| 0 <= t < before.len() && before[t] == x;
                        if t < k {
                            assert(out@[t] == x);
                        } else {
                            assert(out@[t + 1] == x);
                        }
                    } else {
                        assert(out@[k as int] == x);
                    }
                }
            }
        } else {
            assert forall|x: u128| out@.contains(x) <==> next.contains(x) by {
                if next.contains(x) {
                    let u = choose|u: int| 0 <= u < i + 1 && next[u] == x;
                    if u < i {
                        assert(prev[u] == x);
                    } else {
                        assert(out@[k as int] == x);
                    }
                }
                if out@.contains(x) {
                    let u = choose|u: int| 0 <= u < i && prev[u] == x;
                    assert(next[u] == x);
                }
            }
        }
        i += 1;
    }
    assert(ids@.subrange(0, ids@.len() as int) =~= ids@);
    out
}

/// Two strictly increasing listings of the same identifiers are the same listing.
proof fn lemma_increasing_unique(a: Seq<u128>, b: Seq<u128>)
    requires
        strictly_increasing(a),
        strictly_increasing(b),
        same_identifiers(a, b),
    ensures
        a == b,
    decreases a.len(),
{
    if a.len() == 0 {
        if b.len() > 0 {
            assert(b.contains(b[0]));
        }
        assert(a =~= b);
    } else {
        assert(a.contains(a[0]));
        assert(b.contains(a[0]));
        let j = choose|j: int| 0 <= j < b.len() && b[j] == a[0];
        assert(b.contains(b[0]));
        assert(a.contains(b[0]));
        let i = choose|i: int| 0 <= i < a.len() && a[i] == b[0];
        assert(a[0] == b[0]);
        let ta = a.drop_first();
        let tb = b.drop_first();
        assert forall|x: u128| ta.contains(x) <==> tb.contains(x) by {
            if ta.contains(x) {
                let t = choose|t: int| 0 <= t < ta.len() && ta[t] == x;
                assert(a[t + 1] == x);
                assert(a.contains(x));
                let u = choose|u: int| 0 <= u < b.len() && b[u] == x;
                assert(u != 0);
                assert(tb[u - 1] == x);
            }
            if tb.contains(x) {
                let t = choose|t: int| 0 <= t < tb.len() && tb[t] == x;
                assert(b[t + 1] == x);
                assert(b.contains(x));
                let u = choose|u: int| 0 <= u < a.len() && a[u] == x;
                assert(u != 0);
                assert(ta[u - 1] == x);
            }
        }
        lemma_increasing_unique(ta, tb);
        assert(a =~= b) by {
            assert forall|k: int| 0 <= k < a.len() implies a[k] == b[k] by {
                if k > 0 {
                    assert(ta[k - 1] == tb[k - 1]);
                }
            }
        }
    }
}

/// Any two listings of the same identifiers are locked in the same order, which is what keeps
/// concurrent transitions from waiting on each other in a cycle.
pub proof fn lock_order_is_canonical(ids1: Seq<u128>, ids2: Seq<u128>, order1: Seq<u128>, order2: Seq<u128>)
    requires
        same_identifiers(ids1, ids2),
        strictly_increasing(order1),
        same_identifiers(order1, ids1),
        strictly_increasing(order2),
        same_identifiers(order2, ids2),
    ensures
        order1 == order2,
{
    lemma_increasing_unique(order1, order2);
}

} // verus!
