//! The decisions of seeding a demo scenario and of creating a workspace: fixture names that
//! avoid collisions, the memberships and grants each demo group and access profile asks for,
//! the owner's pins and favorites, and the titles whose links a change affects.
use uuid::Uuid;
use vstd::prelude::*;
use crate::catalog::{DemoGroup, DemoRecipe};
use crate::demos::{find_key, key_index};
use crate::env::last_value;
use crate::seed::{SeedObjectState, SeedState, lookup_last, pairs_view};
use crate::text::{append_str, debug_str, push_char, push_debug, str_eq, trim, trim_string};
use crate::vocab::{MembershipRole, ObjectRole, parse_membership_role, parse_object_role};

verus! {

/// Why a demo or workspace could not be seeded.
#[derive(Debug, PartialEq, Eq)]
pub enum DemoSeedError {
    /// The workspace name is empty after trimming.
    EmptyWorkspaceName,
    /// No administrator has been bootstrapped.
    NotBootstrapped,
    /// The bootstrap administrator is disabled.
    OwnerDisabled,
    /// A demo action names an actor that was not provisioned.
    UnknownActor(String),
    /// A created demo object has no access profile.
    NoAccessProfile(String),
    /// A demo object names an unknown access profile.
    UnknownProfile(String),
    /// A profile grant has an invalid object role: profile and role.
    InvalidObjectRole(String, String),
    /// A profile grant names an unknown actor: profile and actor.
    ProfileUnknownActor(String, String),
    /// A profile grant names an unknown group: profile and group.
    ProfileUnknownGroup(String, String),
    /// A profile grant names neither or both of an actor and a group.
    GrantShape(String),
    /// A group names an unknown actor: group and actor.
    GroupUnknownActor(String, String),
    /// A group gives an invalid membership role: group and role.
    InvalidMembershipRole(String, String),
    /// An owner pin names an unknown object.
    UnknownPin(String),
    /// An owner favorite names an unknown object.
    UnknownFavorite(String),
    /// Both the preferred and the fallback username are taken.
    UsernameCollision(String),
}

/// The message of a demo seeding error.
pub open spec fn demo_seed_error_message(e: DemoSeedError) -> Seq<char> {
    match e {
        DemoSeedError::EmptyWorkspaceName => "workspace name must not be empty"@,
        DemoSeedError::NotBootstrapped => "Kival is not bootstrapped; run `kivald admin bootstrap` first"@,
        DemoSeedError::OwnerDisabled => "bootstrap administrator is disabled"@,
        DemoSeedError::UnknownActor(a) => "demo action references unknown actor "@ + debug_str(a@),
        DemoSeedError::NoAccessProfile(k) => "demo object "@ + debug_str(k@) + " does not declare an access profile"@,
        DemoSeedError::UnknownProfile(p) => "demo object references unknown access profile "@ + debug_str(p@),
        DemoSeedError::InvalidObjectRole(p, r) => "demo access profile "@ + debug_str(p@) + " has invalid object role "@
            + debug_str(r@),
        DemoSeedError::ProfileUnknownActor(p, a) => "demo access profile "@ + debug_str(p@) + " references unknown actor "@
            + debug_str(a@),
        DemoSeedError::ProfileUnknownGroup(p, g) => "demo access profile "@ + debug_str(p@) + " references unknown group "@
            + debug_str(g@),
        DemoSeedError::GrantShape(p) => "demo access profile "@ + debug_str(p@)
            + " grant must reference exactly one actor or group"@,
        DemoSeedError::GroupUnknownActor(g, a) => "demo group "@ + debug_str(g@) + " references unknown actor "@ + debug_str(
            a@,
        ),
        DemoSeedError::InvalidMembershipRole(g, r) => "demo group "@ + debug_str(g@) + " has invalid membership role "@
            + debug_str(r@),
        DemoSeedError::UnknownPin(k) => "demo owner pin references unknown object "@ + debug_str(k@),
        DemoSeedError::UnknownFavorite(k) => "demo owner favorite references unknown object "@ + debug_str(k@),
        DemoSeedError::UsernameCollision(u) => "demo actor username collision for "@ + debug_str(u@),
    }
}

impl DemoSeedError {
    /// The error's message.
    pub fn message(&self) -> (m: String)
        ensures
            m@ == demo_seed_error_message(*self),
    {
        match self {
            DemoSeedError::EmptyWorkspaceName => "workspace name must not be empty".to_owned(),
            DemoSeedError::NotBootstrapped => "Kival is not bootstrapped; run `kivald admin bootstrap` first".to_owned(),
            DemoSeedError::OwnerDisabled => "bootstrap administrator is disabled".to_owned(),
            DemoSeedError::UnknownActor(a) => {
                let mut m = "demo action references unknown actor ".to_owned();
                push_debug(&mut m, a.as_str());
                m
            },
            DemoSeedError::NoAccessProfile(k) => {
                let mut m = "demo object ".to_owned();
                push_debug(&mut m, k.as_str());
                append_str(&mut m, " does not declare an access profile");
                m
            },
            DemoSeedError::UnknownProfile(p) => {
                let mut m = "demo object references unknown access profile ".to_owned();
                push_debug(&mut m, p.as_str());
                m
            },
            DemoSeedError::InvalidObjectRole(p, r) => {
                let mut m = "demo access profile ".to_owned();
                push_debug(&mut m, p.as_str());
                append_str(&mut m, " has invalid object role ");
                push_debug(&mut m, r.as_str());
                m
            },
            DemoSeedError::ProfileUnknownActor(p, a) => {
                let mut m = "demo access profile ".to_owned();
                push_debug(&mut m, p.as_str());
                append_str(&mut m, " references unknown actor ");
                push_debug(&mut m, a.as_str());
                m
            },
            DemoSeedError::ProfileUnknownGroup(p, g) => {
                let mut m = "demo access profile ".to_owned();
                push_debug(&mut m, p.as_str());
                append_str(&mut m, " references unknown group ");
                push_debug(&mut m, g.as_str());
                m
            },
            DemoSeedError::GrantShape(p) => {
                let mut m = "demo access profile ".to_owned();
                push_debug(&mut m, p.as_str());
                append_str(&mut m, " grant must reference exactly one actor or group");
                m
            },
            DemoSeedError::GroupUnknownActor(g, a) => {
                let mut m = "demo group ".to_owned();
                push_debug(&mut m, g.as_str());
                append_str(&mut m, " references unknown actor ");
                push_debug(&mut m, a.as_str());
                m
            },
            DemoSeedError::InvalidMembershipRole(g, r) => {
                let mut m = "demo group ".to_owned();
                push_debug(&mut m, g.as_str());
                append_str(&mut m, " has invalid membership role ");
                push_debug(&mut m, r.as_str());
                m
            },
            DemoSeedError::UnknownPin(k) => {
                let mut m = "demo owner pin references unknown object ".to_owned();
                push_debug(&mut m, k.as_str());
                m
            },
            DemoSeedError::UnknownFavorite(k) => {
                let mut m = "demo owner favorite references unknown object ".to_owned();
                push_debug(&mut m, k.as_str());
                m
            },
            DemoSeedError::UsernameCollision(u) => {
                let mut m = "demo actor username collision for ".to_owned();
                push_debug(&mut m, u.as_str());
                m
            },
        }
    }
}

/// The trimmed name of a new workspace, which must not be empty.
pub fn workspace_name(name: &str) -> (r: Result<String, DemoSeedError>)
    ensures
        trim(name@).len() == 0 ==> r == Err::<String, DemoSeedError>(DemoSeedError::EmptyWorkspaceName),
        trim(name@).len() > 0 ==> (r matches Ok(n) && n@ == trim(name@)),
{
    let n = trim_string(name);
    if n.as_str().is_empty() {
        Err(DemoSeedError::EmptyWorkspaceName)
    } else {
        Ok(n)
    }
}

/// The owner of a new workspace: the bootstrap administrator, if there is one and they are
/// not disabled (`found` holds their identifier, username and disabled state).
pub fn workspace_owner(found: Option<(u128, String, bool)>) -> (r: Result<(u128, String), DemoSeedError>)
    ensures
        match found {
            None => r == Err::<(u128, String), DemoSeedError>(DemoSeedError::NotBootstrapped),
            Some((id, name, disabled)) => if disabled {
                r == Err::<(u128, String), DemoSeedError>(DemoSeedError::OwnerDisabled)
            } else {
                r == Ok::<(u128, String), DemoSeedError>((id, name))
            },
        },
{
    match found {
        None => Err(DemoSeedError::NotBootstrapped),
        Some((id, name, disabled)) => if disabled {
            Err(DemoSeedError::OwnerDisabled)
        } else {
            Ok((id, name))
        },
    }
}

/// The lowercase hexadecimal digit of `d < 16`.
pub open spec fn hex_digit(d: nat) -> char {
    if d < 10 {
        ((48 + d) as u8) as char
    } else {
        ((87 + d) as u8) as char
    }
}

/// The last `w` hexadecimal digits of `n`, most significant first.
pub open spec fn hex_fixed(n: nat, w: nat) -> Seq<char>
    decreases w,
{
    if w == 0 {
        Seq::empty()
    } else {
        hex_fixed(n / 16, (w - 1) as nat).push(hex_digit(n % 16))
    }
}

/// The simple form of a UUID (`Uuid::simple`): its 32 lowercase hexadecimal digits.
#[verifier::external_body]
fn uuid_simple(id: u128) -> (s: String)
    ensures
        s@ == hex_fixed(id as nat, 32),
{
    Uuid::from_u128(id).simple().to_string()
}

/// `hex_fixed` has exactly `w` digits.
proof fn lemma_hex_fixed_len(n: nat, w: nat)
    ensures
        hex_fixed(n, w).len() == w,
    decreases w,
{
    if w > 0 {
        lemma_hex_fixed_len(n / 16, (w - 1) as nat);
    }
}

/// The suffix that tells apart the fixtures of one workspace: the last 8 digits of the simple
/// form of its identifier.
pub open spec fn workspace_suffix(workspace_id: u128) -> Seq<char> {
    hex_fixed(workspace_id as nat, 32).skip(24)
}

/// The fixture suffix of a workspace.
pub fn fixture_suffix(workspace_id: u128) -> (s: String)
    ensures
        s@ == workspace_suffix(workspace_id),
        s@.len() == 8,
{
    let compact = uuid_simple(workspace_id);
    proof {
        lemma_hex_fixed_len(workspace_id as nat, 32);
    }
    let c = crate::text::chars_of(compact.as_str());
    let s = crate::text::string_of_range(&c, 24, 32);
    assert(c@.subrange(24, 32) =~= hex_fixed(workspace_id as nat, 32).skip(24));
    s
}

/// The fallback username of a demo actor: `<preferred>-demo-<suffix>`.
pub open spec fn fallback_username_spec(preferred: Seq<char>, workspace_id: u128) -> Seq<char> {
    preferred + "-demo-"@ + workspace_suffix(workspace_id)
}

/// The fallback name of a demo group: `<trimmed preferred> · <suffix>`.
pub open spec fn fallback_group_name_spec(preferred: Seq<char>, workspace_id: u128) -> Seq<char> {
    trim(preferred) + " · "@ + workspace_suffix(workspace_id)
}

/// The username a demo actor gets: the preferred one when free, else the fallback when free.
pub fn demo_username(preferred: &str, workspace_id: u128, preferred_taken: bool, fallback_taken: bool) -> (r: Result<
    String,
    DemoSeedError,
>)
    ensures
        !preferred_taken ==> (r matches Ok(u) && u@ == preferred@),
        preferred_taken && !fallback_taken ==> (r matches Ok(u) && u@ == fallback_username_spec(preferred@, workspace_id)),
        preferred_taken && fallback_taken ==> (r matches Err(DemoSeedError::UsernameCollision(u)) && u@ == preferred@),
{
    if !preferred_taken {
        return Ok(preferred.to_owned());
    }
    if fallback_taken {
        return Err(DemoSeedError::UsernameCollision(preferred.to_owned()));
    }
    Ok(fallback_username(preferred, workspace_id))
}

/// The fallback username of a demo actor.
pub fn fallback_username(preferred: &str, workspace_id: u128) -> (u: String)
    ensures
        u@ == fallback_username_spec(preferred@, workspace_id),
{
    let mut u = preferred.to_owned();
    append_str(&mut u, "-demo-");
    let suffix = fixture_suffix(workspace_id);
    append_str(&mut u, suffix.as_str());
    u
}

/// The name a demo group gets: its trimmed preferred name when no active group bears it,
/// else the fallback.
pub fn demo_group_name(preferred: &str, workspace_id: u128, preferred_taken: bool) -> (n: String)
    ensures
        !preferred_taken ==> n@ == trim(preferred@),
        preferred_taken ==> n@ == fallback_group_name_spec(preferred@, workspace_id),
{
    let mut n = trim_string(preferred);
    if preferred_taken {
        append_str(&mut n, " · ");
        let suffix = fixture_suffix(workspace_id);
        append_str(&mut n, suffix.as_str());
    }
    n
}

/// The provisioned identifier of an actor key.
pub fn demo_actor_id(actors: &Vec<(String, u128)>, key: &String) -> (r: Result<u128, DemoSeedError>)
    ensures
        match last_value(pairs_view(actors@), key@) {
            Some(id) => r == Ok::<u128, DemoSeedError>(id),
            None => r matches Err(DemoSeedError::UnknownActor(k)) && k@ == key@,
        },
{
    match lookup_last(actors, key) {
        Some(id) => Ok(id),
        None => Err(DemoSeedError::UnknownActor(key.clone())),
    }
}

/// Who receives a grant.
#[derive(Debug, Clone, Copy, PartialEq, Eq)]
pub enum GrantPrincipal {
    /// A user.
    User(u128),
    /// A group.
    Group(u128),
}

/// One grant to create for a demo object.
#[derive(Debug, Clone, Copy, PartialEq, Eq)]
pub struct DemoGrant {
    /// Who receives it.
    pub principal: GrantPrincipal,
    /// The role it gives.
    pub role: ObjectRole,
}

/// What is wrong with a grant or a group membership, by characters.
pub enum GrantIssue {
    /// The role is not a valid role.
    InvalidRole(Seq<char>),
    /// The actor was not provisioned.
    UnknownActor(Seq<char>),
    /// The group was not provisioned.
    UnknownGroup(Seq<char>),
    /// Neither or both of an actor and a group are named.
    Shape,
}

/// The grants to create from `grants[i..]` for an object its creator just made, in order; a
/// grant to the creator is left out, as they administer the object already. The first grant
/// that cannot be made stops the plan.
pub open spec fn profile_grants_from(
    grants: Seq<crate::catalog::DemoAccessGrant>,
    i: int,
    actors: Seq<(Seq<char>, u128)>,
    groups: Seq<(Seq<char>, u128)>,
    creator: u128,
) -> Result<Seq<DemoGrant>, GrantIssue>
    decreases grants.len() - i,
{
    if i < 0 || i >= grants.len() {
        Ok(Seq::empty())
    } else {
        let g = grants[i];
        match parse_object_role(g.role@) {
            None => Err(GrantIssue::InvalidRole(g.role@)),
            Some(role) => match (g.actor, g.group) {
                (Some(a), None) => match last_value(actors, a@) {
                    None => Err(GrantIssue::UnknownActor(a@)),
                    Some(uid) => if uid == creator {
                        profile_grants_from(grants, i + 1, actors, groups, creator)
                    } else {
                        match profile_grants_from(grants, i + 1, actors, groups, creator) {
                            Ok(rest) => Ok(seq![DemoGrant { principal: GrantPrincipal::User(uid), role }] + rest),
                            Err(e) => Err(e),
                        }
                    },
                },
                (None, Some(gr)) => match last_value(groups, gr@) {
                    None => Err(GrantIssue::UnknownGroup(gr@)),
                    Some(gid) => match profile_grants_from(grants, i + 1, actors, groups, creator) {
                        Ok(rest) => Ok(seq![DemoGrant { principal: GrantPrincipal::Group(gid), role }] + rest),
                        Err(e) => Err(e),
                    },
                },
                _ => Err(GrantIssue::Shape),
            },
        }
    }
}

/// Whether a plan error reports `issue` for profile `profile`.
pub open spec fn profile_error_matches(e: DemoSeedError, profile: Seq<char>, issue: GrantIssue) -> bool {
    match issue {
        GrantIssue::InvalidRole(r) => e matches DemoSeedError::InvalidObjectRole(p, x) && p@ == profile && x@ == r,
        GrantIssue::UnknownActor(a) => e matches DemoSeedError::ProfileUnknownActor(p, x) && p@ == profile && x@ == a,
        GrantIssue::UnknownGroup(g) => e matches DemoSeedError::ProfileUnknownGroup(p, x) && p@ == profile && x@ == g,
        GrantIssue::Shape => e matches DemoSeedError::GrantShape(p) && p@ == profile,
    }
}

/// The grants that the access profile `profile_key` of `recipe` asks for on an object made
/// by `creator`, with actors and groups resolved to their provisioned identifiers.
pub fn plan_profile_grants(
    recipe: &DemoRecipe,
    profile_key: &String,
    actors: &Vec<(String, u128)>,
    groups: &Vec<(String, u128)>,
    creator: u128,
) -> (r: Result<Vec<DemoGrant>, DemoSeedError>)
    ensures
        match key_index(recipe.access_profiles@, profile_key@, 0) {
            None => r matches Err(DemoSeedError::UnknownProfile(p)) && p@ == profile_key@,
            Some(i) => match profile_grants_from(
                recipe.access_profiles@[i].1.grants@,
                0,
                pairs_view(actors@),
                pairs_view(groups@),
                creator,
            ) {
                Ok(v) => r matches Ok(w) && w@ == v,
                Err(issue) => r matches Err(e) && profile_error_matches(e, profile_key@, issue),
            },
        },
{
    let i = match find_key(&recipe.access_profiles, profile_key) {
        Some(i) => i,
        None => {
            return Err(DemoSeedError::UnknownProfile(profile_key.clone()));
        },
    };
    let grants = &recipe.access_profiles[i].1.grants;
    let ghost av = pairs_view(actors@);
    let ghost gv = pairs_view(groups@);
    let mut out: Vec<DemoGrant> = Vec::new();
    let mut k: usize = 0;
    assert(out@ + profile_grants_from(grants@, 0, av, gv, creator)->Ok_0 =~= profile_grants_from(grants@, 0, av, gv, creator)->Ok_0);
    while k < grants.len()
        invariant
            k <= grants@.len(),
            i < recipe.access_profiles@.len(),
            key_index(recipe.access_profiles@, profile_key@, 0) == Some(i as int),
            *grants == recipe.access_profiles@[i as int].1.grants,
            av == pairs_view(actors@),
            gv == pairs_view(groups@),
            match profile_grants_from(grants@, 0, av, gv, creator) {
                Ok(v) => profile_grants_from(grants@, k as int, av, gv, creator) matches Ok(rest) && v == out@ + rest,
                Err(issue) => profile_grants_from(grants@, k as int, av, gv, creator) == Err::<Seq<DemoGrant>, GrantIssue>(
                    issue,
                ),
            },
        decreases grants@.len() - k,
    {
        let g = &grants[k];
        let role = match ObjectRole::parse(g.role.as_str()) {
            Some(role) => role,
            None => {
                return Err(DemoSeedError::InvalidObjectRole(profile_key.clone(), g.role.clone()));
            },
        };
        let ghost before = out@;
        match (&g.actor, &g.group) {
            (Some(a), None) => {
                let uid = match lookup_last(actors, a) {
                    Some(uid) => uid,
                    None => {
                        return Err(DemoSeedError::ProfileUnknownActor(profile_key.clone(), a.clone()));
                    },
                };
                if uid != creator {
                    let grant = DemoGrant { principal: GrantPrincipal::User(uid), role };
                    out.push(grant);
                    proof {
                        match profile_grants_from(grants@, (k + 1) as int, av, gv, creator) {
                            Ok(rest) => {
                                assert(before + (seq![grant] + rest) =~= out@ + rest);
                            },
                            Err(_) => {},
                        }
                    }
                }
            },
            (None, Some(gr)) => {
                let gid = match lookup_last(groups, gr) {
                    Some(gid) => gid,
                    None => {
                        return Err(DemoSeedError::ProfileUnknownGroup(profile_key.clone(), gr.clone()));
                    },
                };
                let grant = DemoGrant { principal: GrantPrincipal::Group(gid), role };
                out.push(grant);
                proof {
                    match profile_grants_from(grants@, (k + 1) as int, av, gv, creator) {
                        Ok(rest) => {
                            assert(before + (seq![grant] + rest) =~= out@ + rest);
                        },
                        Err(_) => {},
                    }
                }
            },
            _ => {
                return Err(DemoSeedError::GrantShape(profile_key.clone()));
            },
        }
        k += 1;
    }
    assert(out@ + Seq::<DemoGrant>::empty() =~= out@);
    Ok(out)
}

/// The memberships of `members[i..]` with actors resolved, or the first one that cannot be made.
pub open spec fn group_members_from(
    members: Seq<(String, String)>,
    i: int,
    actors: Seq<(Seq<char>, u128)>,
) -> Result<Seq<(u128, MembershipRole)>, GrantIssue>
    decreases members.len() - i,
{
    if i < 0 || i >= members.len() {
        Ok(Seq::empty())
    } else {
        let (a, role) = members[i];
        match last_value(actors, a@) {
            None => Err(GrantIssue::UnknownActor(a@)),
            Some(uid) => match parse_membership_role(role@) {
                None => Err(GrantIssue::InvalidRole(role@)),
                Some(r) => match group_members_from(members, i + 1, actors) {
                    Ok(rest) => Ok(seq![(uid, r)] + rest),
                    Err(e) => Err(e),
                },
            },
        }
    }
}

/// Group memberships fail only on an unknown actor or an invalid role.
proof fn lemma_group_member_issues(members: Seq<(String, String)>, i: int, actors: Seq<(Seq<char>, u128)>)
    ensures
        group_members_from(members, i, actors) matches Err(issue) ==> (issue is UnknownActor || issue is InvalidRole),
    decreases members.len() - i,
{
    if 0 <= i < members.len() {
        lemma_group_member_issues(members, i + 1, actors);
    }
}

/// The memberships that demo group `key` asks for, with actors resolved to their provisioned
/// identifiers.
pub fn plan_group_members(key: &String, group: &DemoGroup, actors: &Vec<(String, u128)>) -> (r: Result<
    Vec<(u128, MembershipRole)>,
    DemoSeedError,
>)
    ensures
        match group_members_from(group.members@, 0, pairs_view(actors@)) {
            Ok(v) => r matches Ok(w) && w@ == v,
            Err(GrantIssue::UnknownActor(a)) => r matches Err(DemoSeedError::GroupUnknownActor(g, x)) && g@ == key@ && x@
                == a,
            Err(GrantIssue::InvalidRole(ro)) => r matches Err(DemoSeedError::InvalidMembershipRole(g, x)) && g@ == key@
                && x@ == ro,
            Err(_) => false,
        },
{
    let ghost av = pairs_view(actors@);
    proof {
        lemma_group_member_issues(group.members@, 0, av);
    }
    let mut out: Vec<(u128, MembershipRole)> = Vec::new();
    let mut k: usize = 0;
    while k < group.members.len()
        invariant
            k <= group.members@.len(),
            av == pairs_view(actors@),
            match group_members_from(group.members@, 0, av) {
                Ok(v) => group_members_from(group.members@, k as int, av) matches Ok(rest) && v == out@ + rest,
                Err(issue) => group_members_from(group.members@, k as int, av) == Err::<
                    Seq<(u128, MembershipRole)>,
                    GrantIssue,
                >(issue),
            },
            group_members_from(group.members@, 0, av) matches Err(issue) ==> (issue is UnknownActor
                || issue is InvalidRole),
        decreases group.members@.len() - k,
    {
        let (a, role) = (&group.members[k].0, &group.members[k].1);
        let uid = match lookup_last(actors, a) {
            Some(uid) => uid,
            None => {
                return Err(DemoSeedError::GroupUnknownActor(key.clone(), a.clone()));
            },
        };
        let r = match MembershipRole::parse(role.as_str()) {
            Some(r) => r,
            None => {
                return Err(DemoSeedError::InvalidMembershipRole(key.clone(), role.clone()));
            },
        };
        let ghost before = out@;
        out.push((uid, r));
        proof {
            match group_members_from(group.members@, (k + 1) as int, av) {
                Ok(rest) => {
                    assert(before + (seq![(uid, r)] + rest) =~= out@ + rest);
                },
                Err(_) => {},
            }
        }
        k += 1;
    }
    assert(out@ + Seq::<(u128, MembershipRole)>::empty() =~= out@);
    Ok(out)
}

/// The objects the owner pins and marks as favorites, resolved to their identifiers; the first
/// key not recorded, pins first, stops the plan.
pub fn plan_owner_markers(pins: &Vec<String>, favorites: &Vec<String>, state: &SeedState) -> (r: Result<
    (Vec<u128>, Vec<u128>),
    DemoSeedError,
>)
    ensures
        match r {
            Ok((p, f)) => {
                &&& p@.len() == pins@.len()
                &&& f@.len() == favorites@.len()
                &&& forall|i: int| 0 <= i < pins@.len() ==> last_value(pairs_view(state.objects@), (#[trigger] pins@[i])@)
                    == Some(SeedObjectState { object_id: p@[i], ..last_value(pairs_view(state.objects@), pins@[i]@)->0 })
                &&& forall|i: int| 0 <= i < favorites@.len() ==> last_value(
                    pairs_view(state.objects@),
                    (#[trigger] favorites@[i])@,
                ) == Some(
                    SeedObjectState { object_id: f@[i], ..last_value(pairs_view(state.objects@), favorites@[i]@)->0 },
                )
            },
            Err(DemoSeedError::UnknownPin(k)) => exists|i: int|
                0 <= i < pins@.len() && (#[trigger] pins@[i])@ == k@ && last_value(pairs_view(state.objects@), k@) is None,
            Err(DemoSeedError::UnknownFavorite(k)) => exists|i: int|
                0 <= i < favorites@.len() && (#[trigger] favorites@[i])@ == k@ && last_value(
                    pairs_view(state.objects@),
                    k@,
                ) is None,
            Err(_) => false,
        },
        r is Err <==> (exists|i: int|
            0 <= i < pins@.len() && last_value(pairs_view(state.objects@), (#[trigger] pins@[i])@) is None) || (exists|
            i: int,
        | 0 <= i < favorites@.len() && last_value(pairs_view(state.objects@), (#[trigger] favorites@[i])@) is None),
{
    let mut p: Vec<u128> = Vec::new();
    let mut i: usize = 0;
    while i < pins.len()
        invariant
            i <= pins@.len(),
            p@.len() == i,
            forall|j: int| 0 <= j < i ==> last_value(pairs_view(state.objects@), (#[trigger] pins@[j])@) == Some(
                SeedObjectState { object_id: p@[j], ..last_value(pairs_view(state.objects@), pins@[j]@)->0 },
            ),
        decreases pins@.len() - i,
    {
        match lookup_last(&state.objects, &pins[i]) {
            Some(o) => {
                p.push(o.object_id);
            },
            None => {
                return Err(DemoSeedError::UnknownPin(pins[i].clone()));
            },
        }
        i += 1;
    }
    let mut f: Vec<u128> = Vec::new();
    let mut i: usize = 0;
    while i < favorites.len()
        invariant
            i <= favorites@.len(),
            f@.len() == i,
            forall|j: int| 0 <= j < pins@.len() ==> last_value(pairs_view(state.objects@), (#[trigger] pins@[j])@) is Some,
            forall|j: int| 0 <= j < i ==> last_value(pairs_view(state.objects@), (#[trigger] favorites@[j])@) == Some(
                SeedObjectState { object_id: f@[j], ..last_value(pairs_view(state.objects@), favorites@[j]@)->0 },
            ),
        decreases favorites@.len() - i,
    {
        match lookup_last(&state.objects, &favorites[i]) {
            Some(o) => {
                f.push(o.object_id);
            },
            None => {
                return Err(DemoSeedError::UnknownFavorite(favorites[i].clone()));
            },
        }
        i += 1;
    }
    Ok((p, f))
}

/// The titles whose links an update affects: none when the title stays, else the old and the
/// new one.
pub fn affected_titles(previous_title: &str, new_title: &str) -> (r: Vec<String>)
    ensures
        previous_title@ == new_title@ ==> r@.len() == 0,
        previous_title@ != new_title@ ==> r@.len() == 2 && r@[0]@ == previous_title@ && r@[1]@ == new_title@,
{
    let mut r: Vec<String> = Vec::new();
    if !str_eq(previous_title, new_title) {
        r.push(previous_title.to_owned());
        r.push(new_title.to_owned());
    }
    r
}

} // verus!
