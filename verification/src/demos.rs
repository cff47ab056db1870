//! Validation of catalog identities, demo actors, groups and access profiles.
use vstd::prelude::*;
use crate::catalog::{
    CatalogError, DemoSeedAction, SeedAction, DemoAccessGrant, DemoAccessProfile, DemoActor, DemoGroup, DemoRecipe,
    WorkspaceInitializerKind,
};
use crate::strset::StrSet;
use crate::text::{
    ascii_alnum, ascii_lowercase, blank, chars_of, is_ascii_alnum, is_ascii_digit, is_blank,
    to_ascii_lowercase, utf8_size, utf8_width, lemma_utf8_size_take, lemma_utf8_size_prefix,
};
use crate::vocab::{parse_membership_role, parse_object_role, MembershipRole, ObjectRole};

verus! {

/// Index of the first pair, from `from` on, whose key is `k`.
pub open spec fn key_index<V>(pairs: Seq<(String, V)>, k: Seq<char>, from: int) -> Option<int>
    decreases pairs.len() - from,
{
    if from < 0 || from >= pairs.len() {
        None
    } else if pairs[from].0@ == k {
        Some(from)
    } else {
        key_index(pairs, k, from + 1)
    }
}

/// Whether some pair has key `k` (`BTreeMap::contains_key`).
pub open spec fn has_key<V>(pairs: Seq<(String, V)>, k: Seq<char>) -> bool {
    key_index(pairs, k, 0) is Some
}

/// `key_index` finds a pair with that key, and no earlier one.
pub proof fn lemma_key_index<V>(pairs: Seq<(String, V)>, k: Seq<char>, from: int)
    requires
        0 <= from,
    ensures
        key_index(pairs, k, from) matches Some(i) ==> from <= i < pairs.len() && pairs[i].0@ == k,
        key_index(pairs, k, from) is None <==> (forall|j: int|
            from <= j < pairs.len() ==> (#[trigger] pairs[j]).0@ != k),
    decreases pairs.len() - from,
{
    if from < pairs.len() && pairs[from].0@ != k {
        lemma_key_index(pairs, k, from + 1);
    }
}

/// Position of the first pair whose key is `k`.
pub fn find_key<V>(pairs: &[(String, V)], k: &String) -> (r: Option<usize>)
    ensures
        r matches Some(i) ==> key_index(pairs@, k@, 0) == Some(i as int) && i < pairs@.len()
            && pairs@[i as int].0@ == k@,
        r is None ==> key_index(pairs@, k@, 0) is None,
{
    proof {
        lemma_key_index(pairs@, k@, 0);
    }
    let mut i: usize = 0;
    while i < pairs.len()
        invariant
            i <= pairs@.len(),
            key_index(pairs@, k@, 0) == key_index(pairs@, k@, i as int),
        decreases pairs.len() - i,
    {
        if pairs[i].0 == *k {
            return Some(i);
        }
        i += 1;
    }
    None
}

/// Whether some pair has key `k`.
pub fn contains_key<V>(pairs: &[(String, V)], k: &String) -> (b: bool)
    ensures
        b == has_key(pairs@, k@),
{
    find_key(pairs, k).is_some()
}

/// First repeated string, given the strings seen before.
pub open spec fn first_repeat(ids: Seq<String>, seen: Set<Seq<char>>) -> Option<String>
    decreases ids.len(),
{
    if ids.len() == 0 {
        None
    } else if seen.contains(ids[0]@) {
        Some(ids[0])
    } else {
        first_repeat(ids.drop_first(), seen.insert(ids[0]@))
    }
}

/// Outcome of the duplicate-identifier check of one catalog section.
pub open spec fn recipe_ids_check(ids: Seq<String>, kind: WorkspaceInitializerKind) -> Result<(), CatalogError> {
    match first_repeat(ids, Set::empty()) {
        Some(id) => Err(CatalogError::DuplicateInitializerId(kind, id)),
        None => Ok(()),
    }
}

/// Rejects duplicate initializer identifiers within one catalog section.
pub fn validate_recipe_ids(ids: &[String], kind: WorkspaceInitializerKind) -> (r: Result<(), CatalogError>)
    ensures
        r == recipe_ids_check(ids@, kind),
{
    let mut seen = StrSet::new();
    let mut i: usize = 0;
    assert(ids@.skip(0) =~= ids@);
    while i < ids.len()
        invariant
            i <= ids@.len(),
            first_repeat(ids@, Set::empty()) == first_repeat(ids@.skip(i as int), seen@),
        decreases ids.len() - i,
    {
        assert(ids@.skip(i as int).drop_first() =~= ids@.skip(i + 1));
        if !seen.insert(&ids[i]) {
            return Err(CatalogError::DuplicateInitializerId(kind, ids[i].clone()));
        }
        i += 1;
    }
    assert(ids@.skip(i as int) =~= Seq::<String>::empty());
    Ok(())
}

/// Outcome of checking an initializer's identifier and name.
pub open spec fn identity_check(id: String, name: String, kind: WorkspaceInitializerKind) -> Result<(), CatalogError> {
    if is_blank(id@) {
        Err(CatalogError::EmptyInitializerId(kind))
    } else if is_blank(name@) {
        Err(CatalogError::EmptyInitializerName(kind, id))
    } else {
        Ok(())
    }
}

/// Validates the required identifier and display name of one initializer.
pub fn validate_identity(id: &String, name: &String, kind: WorkspaceInitializerKind) -> (r: Result<(), CatalogError>)
    ensures
        r == identity_check(*id, *name, kind),
{
    if blank(id.as_str()) {
        return Err(CatalogError::EmptyInitializerId(kind));
    }
    if blank(name.as_str()) {
        return Err(CatalogError::EmptyInitializerName(kind, id.clone()));
    }
    Ok(())
}

/// Characters allowed in a demo username.
pub open spec fn is_username_char(c: char) -> bool {
    ('a' <= c && c <= 'z') || is_ascii_digit(c) || c == '.' || c == '_' || c == '-'
}

/// Shape of a demo username: starts and ends with an ASCII letter or digit, and uses only
/// lowercase letters, digits, `.`, `_` and `-`.
pub open spec fn username_shape(u: Seq<char>) -> bool {
    &&& u.len() > 0
    &&& is_ascii_alnum(u[0])
    &&& is_ascii_alnum(u.last())
    &&& forall|i: int| 0 <= i < u.len() ==> is_username_char(#[trigger] u[i])
}

/// Outcome of checking one demo actor.
pub open spec fn demo_actor_check(key: String, actor: DemoActor) -> Result<(), CatalogError> {
    if key@.len() == 0 {
        Err(CatalogError::EmptyActorKey)
    } else if is_blank(actor.display_name@) {
        Err(CatalogError::EmptyActorDisplayName(key))
    } else if is_blank(actor.role@) {
        Err(CatalogError::EmptyActorRole(key))
    } else if is_blank(actor.department@) {
        Err(CatalogError::EmptyActorDepartment(key))
    } else if utf8_size(actor.username@) == 0 || utf8_size(actor.username@) > 16 {
        Err(CatalogError::ActorUsernameLength(key))
    } else if !username_shape(actor.username@) {
        Err(CatalogError::InvalidActorUsername(key, actor.username))
    } else {
        Ok(())
    }
}

/// Whether a string takes more than `limit` UTF-8 bytes.
fn utf8_longer_than(s: &str, limit: usize) -> (b: bool)
    requires
        limit < 1000,
    ensures
        b == (utf8_size(s@) > limit),
{
    let v = chars_of(s);
    let mut total: usize = 0;
    let mut i: usize = 0;
    while i < v.len()
        invariant
            v@ == s@,
            i <= v@.len(),
            total == utf8_size(s@.take(i as int)),
            total <= limit,
            limit < 1000,
        decreases v.len() - i,
    {
        proof {
            lemma_utf8_size_take(s@, i as int);
        }
        total = total + utf8_width(v[i]);
        if total > limit {
            proof {
                lemma_utf8_size_prefix(s@, i + 1, s@.len() as int);
                assert(s@.take(s@.len() as int) =~= s@);
            }
            return true;
        }
        i += 1;
    }
    assert(s@.take(v@.len() as int) =~= s@);
    false
}

/// Validates one demo actor key, display name, and preferred username.
pub fn validate_demo_actor(key: &String, actor: &DemoActor) -> (r: Result<(), CatalogError>)
    ensures
        r == demo_actor_check(*key, *actor),
{
    if key.as_str().is_empty() {
        return Err(CatalogError::EmptyActorKey);
    }
    if blank(actor.display_name.as_str()) {
        return Err(CatalogError::EmptyActorDisplayName(key.clone()));
    }
    if blank(actor.role.as_str()) {
        return Err(CatalogError::EmptyActorRole(key.clone()));
    }
    if blank(actor.department.as_str()) {
        return Err(CatalogError::EmptyActorDepartment(key.clone()));
    }
    let u = chars_of(actor.username.as_str());
    proof {
        crate::text::lemma_utf8_size_at_least_len(u@);
        if u@.len() > 0 {
            assert(u@.take(0) =~= Seq::<char>::empty());
            lemma_utf8_size_take(u@, 0);
            lemma_utf8_size_prefix(u@, 1, u@.len() as int);
            assert(u@.take(u@.len() as int) =~= u@);
        }
    }
    if u.len() == 0 || utf8_longer_than(actor.username.as_str(), 16) {
        return Err(CatalogError::ActorUsernameLength(key.clone()));
    }
    let first = u[0];
    let last = u[u.len() - 1];
    let mut ok = ascii_alnum(first) && ascii_alnum(last);
    let mut i: usize = 0;
    while ok && i < u.len()
        invariant
            i <= u@.len(),
            ok ==> forall|k: int| 0 <= k < i ==> is_username_char(#[trigger] u@[k]),
            !ok ==> !username_shape(u@),
            ok ==> is_ascii_alnum(u@[0]) && is_ascii_alnum(u@.last()),
            u@.len() > 0,
        decreases u.len() - i,
    {
        let c = u[i];
        if !(('a' <= c && c <= 'z') || ('0' <= c && c <= '9') || c == '.' || c == '_' || c == '-') {
            ok = false;
            assert(!is_username_char(u@[i as int]));
        }
        i += 1;
    }
    if !ok {
        return Err(CatalogError::InvalidActorUsername(key.clone(), actor.username.clone()));
    }
    Ok(())
}

/// Outcome of checking a group's members, in order.
pub open spec fn members_check(
    demo: String,
    key: String,
    actors: Seq<(String, DemoActor)>,
    members: Seq<(String, String)>,
) -> Result<(), CatalogError>
    decreases members.len(),
{
    if members.len() == 0 {
        Ok(())
    } else if !has_key(actors, members[0].0@) {
        Err(CatalogError::GroupUnknownActor(demo, key, members[0].0))
    } else if parse_membership_role(members[0].1@) is None {
        Err(CatalogError::GroupInvalidRole(demo, key, members[0].1))
    } else {
        members_check(demo, key, actors, members.drop_first())
    }
}

/// Outcome of checking the groups of a demo, given the lowercased names seen before.
pub open spec fn groups_check(
    recipe: DemoRecipe,
    groups: Seq<(String, DemoGroup)>,
    names: Set<Seq<char>>,
) -> Result<(), CatalogError>
    decreases groups.len(),
{
    if groups.len() == 0 {
        Ok(())
    } else {
        let key = groups[0].0;
        let group = groups[0].1;
        if is_blank(key@) {
            Err(CatalogError::EmptyGroupKey(recipe.id))
        } else if is_blank(group.name@) {
            Err(CatalogError::EmptyGroupName(recipe.id, key))
        } else if names.contains(ascii_lowercase(group.name@)) {
            Err(CatalogError::DuplicateGroupName(recipe.id, group.name))
        } else if group.members@.len() == 0 {
            Err(CatalogError::EmptyGroup(recipe.id, key))
        } else if members_check(recipe.id, key, recipe.actors@, group.members@) is Err {
            members_check(recipe.id, key, recipe.actors@, group.members@)
        } else {
            groups_check(recipe, groups.drop_first(), names.insert(ascii_lowercase(group.name@)))
        }
    }
}

/// Checks one group's members.
fn validate_group_members(recipe: &DemoRecipe, key: &String, group: &DemoGroup) -> (r: Result<(), CatalogError>)
    ensures
        r == members_check(recipe.id, *key, recipe.actors@, group.members@),
{
    let mut i: usize = 0;
    assert(group.members@.skip(0) =~= group.members@);
    while i < group.members.len()
        invariant
            i <= group.members@.len(),
            members_check(recipe.id, *key, recipe.actors@, group.members@) == members_check(
                recipe.id,
                *key,
                recipe.actors@,
                group.members@.skip(i as int),
            ),
        decreases group.members.len() - i,
    {
        assert(group.members@.skip(i as int).drop_first() =~= group.members@.skip(i + 1));
        assert(group.members@.skip(i as int)[0] == group.members@[i as int]);
        let member = &group.members[i];
        if !contains_key(&recipe.actors, &member.0) {
            return Err(CatalogError::GroupUnknownActor(recipe.id.clone(), key.clone(), member.0.clone()));
        }
        if MembershipRole::parse(member.1.as_str()).is_none() {
            return Err(CatalogError::GroupInvalidRole(recipe.id.clone(), key.clone(), member.1.clone()));
        }
        i += 1;
    }
    assert(group.members@.skip(i as int) =~= Seq::<(String, String)>::empty());
    Ok(())
}

/// Validates reusable demo groups and their actor memberships.
pub fn validate_demo_groups(recipe: &DemoRecipe) -> (r: Result<(), CatalogError>)
    ensures
        r == groups_check(*recipe, recipe.groups@, Set::empty()),
{
    let mut names = StrSet::new();
    let mut i: usize = 0;
    assert(recipe.groups@.skip(0) =~= recipe.groups@);
    while i < recipe.groups.len()
        invariant
            i <= recipe.groups@.len(),
            groups_check(*recipe, recipe.groups@, Set::empty()) == groups_check(
                *recipe,
                recipe.groups@.skip(i as int),
                names@,
            ),
        decreases recipe.groups.len() - i,
    {
        assert(recipe.groups@.skip(i as int).drop_first() =~= recipe.groups@.skip(i + 1));
        assert(recipe.groups@.skip(i as int)[0] == recipe.groups@[i as int]);
        let key = &recipe.groups[i].0;
        let group = &recipe.groups[i].1;
        if blank(key.as_str()) {
            return Err(CatalogError::EmptyGroupKey(recipe.id.clone()));
        }
        if blank(group.name.as_str()) {
            return Err(CatalogError::EmptyGroupName(recipe.id.clone(), key.clone()));
        }
        let lower = to_ascii_lowercase(group.name.as_str());
        if !names.insert(&lower) {
            return Err(CatalogError::DuplicateGroupName(recipe.id.clone(), group.name.clone()));
        }
        if group.members.len() == 0 {
            return Err(CatalogError::EmptyGroup(recipe.id.clone(), key.clone()));
        }
        match validate_group_members(recipe, key, group) {
            Err(e) => return Err(e),
            Ok(()) => {},
        }
        i += 1;
    }
    assert(recipe.groups@.skip(i as int) =~= Seq::<(String, DemoGroup)>::empty());
    Ok(())
}

/// Outcome of checking a profile's grants, given the principals seen before.
pub open spec fn grants_check(
    recipe: DemoRecipe,
    key: String,
    grants: Seq<DemoAccessGrant>,
    actors_seen: Set<Seq<char>>,
    groups_seen: Set<Seq<char>>,
) -> Result<(), CatalogError>
    decreases grants.len(),
{
    if grants.len() == 0 {
        Ok(())
    } else {
        let g = grants[0];
        match (g.actor, g.group) {
            (Some(a), None) => {
                if !has_key(recipe.actors@, a@) {
                    Err(CatalogError::ProfileUnknownActor(recipe.id, key, a))
                } else if actors_seen.contains(a@) {
                    Err(CatalogError::ProfileRepeatsPrincipal(recipe.id, key))
                } else if parse_object_role(g.role@) is None {
                    Err(CatalogError::ProfileInvalidRole(recipe.id, key, g.role))
                } else {
                    grants_check(recipe, key, grants.drop_first(), actors_seen.insert(a@), groups_seen)
                }
            },
            (None, Some(gr)) => {
                if !has_key(recipe.groups@, gr@) {
                    Err(CatalogError::ProfileUnknownGroup(recipe.id, key, gr))
                } else if groups_seen.contains(gr@) {
                    Err(CatalogError::ProfileRepeatsPrincipal(recipe.id, key))
                } else if parse_object_role(g.role@) is None {
                    Err(CatalogError::ProfileInvalidRole(recipe.id, key, g.role))
                } else {
                    grants_check(recipe, key, grants.drop_first(), actors_seen, groups_seen.insert(gr@))
                }
            },
            _ => Err(CatalogError::ProfileGrantShape(recipe.id, key)),
        }
    }
}

/// Outcome of checking the access profiles of a demo.
pub open spec fn profiles_check(recipe: DemoRecipe, profiles: Seq<(String, DemoAccessProfile)>) -> Result<
    (),
    CatalogError,
>
    decreases profiles.len(),
{
    if profiles.len() == 0 {
        Ok(())
    } else {
        let key = profiles[0].0;
        let profile = profiles[0].1;
        if is_blank(key@) {
            Err(CatalogError::EmptyProfileKey(recipe.id))
        } else if profile.grants@.len() == 0 {
            Err(CatalogError::EmptyProfile(recipe.id, key))
        } else if grants_check(recipe, key, profile.grants@, Set::empty(), Set::empty()) is Err {
            grants_check(recipe, key, profile.grants@, Set::empty(), Set::empty())
        } else {
            profiles_check(recipe, profiles.drop_first())
        }
    }
}

/// Checks the grants of one access profile.
fn validate_profile_grants(recipe: &DemoRecipe, key: &String, profile: &DemoAccessProfile) -> (r: Result<(), CatalogError>)
    ensures
        r == grants_check(*recipe, *key, profile.grants@, Set::empty(), Set::empty()),
{
    let mut actors_seen = StrSet::new();
    let mut groups_seen = StrSet::new();
    let mut i: usize = 0;
    assert(profile.grants@.skip(0) =~= profile.grants@);
    while i < profile.grants.len()
        invariant
            i <= profile.grants@.len(),
            grants_check(*recipe, *key, profile.grants@, Set::empty(), Set::empty()) == grants_check(
                *recipe,
                *key,
                profile.grants@.skip(i as int),
                actors_seen@,
                groups_seen@,
            ),
        decreases profile.grants.len() - i,
    {
        assert(profile.grants@.skip(i as int).drop_first() =~= profile.grants@.skip(i + 1));
        assert(profile.grants@.skip(i as int)[0] == profile.grants@[i as int]);
        let grant = &profile.grants[i];
        match (&grant.actor, &grant.group) {
            (Some(a), None) => {
                if !contains_key(&recipe.actors, a) {
                    return Err(CatalogError::ProfileUnknownActor(recipe.id.clone(), key.clone(), a.clone()));
                }
                if !actors_seen.insert(a) {
                    return Err(CatalogError::ProfileRepeatsPrincipal(recipe.id.clone(), key.clone()));
                }
            },
            (None, Some(g)) => {
                if !contains_key(&recipe.groups, g) {
                    return Err(CatalogError::ProfileUnknownGroup(recipe.id.clone(), key.clone(), g.clone()));
                }
                if !groups_seen.insert(g) {
                    return Err(CatalogError::ProfileRepeatsPrincipal(recipe.id.clone(), key.clone()));
                }
            },
            _ => {
                return Err(CatalogError::ProfileGrantShape(recipe.id.clone(), key.clone()));
            },
        }
        if ObjectRole::parse(grant.role.as_str()).is_none() {
            return Err(CatalogError::ProfileInvalidRole(recipe.id.clone(), key.clone(), grant.role.clone()));
        }
        i += 1;
    }
    assert(profile.grants@.skip(i as int) =~= Seq::<DemoAccessGrant>::empty());
    Ok(())
}

/// Validates named access profiles and every principal they reference.
pub fn validate_demo_access_profiles(recipe: &DemoRecipe) -> (r: Result<(), CatalogError>)
    ensures
        r == profiles_check(*recipe, recipe.access_profiles@),
{
    let mut i: usize = 0;
    assert(recipe.access_profiles@.skip(0) =~= recipe.access_profiles@);
    while i < recipe.access_profiles.len()
        invariant
            i <= recipe.access_profiles@.len(),
            profiles_check(*recipe, recipe.access_profiles@) == profiles_check(
                *recipe,
                recipe.access_profiles@.skip(i as int),
            ),
        decreases recipe.access_profiles.len() - i,
    {
        assert(recipe.access_profiles@.skip(i as int).drop_first() =~= recipe.access_profiles@.skip(i + 1));
        assert(recipe.access_profiles@.skip(i as int)[0] == recipe.access_profiles@[i as int]);
        let key = &recipe.access_profiles[i].0;
        let profile = &recipe.access_profiles[i].1;
        if blank(key.as_str()) {
            return Err(CatalogError::EmptyProfileKey(recipe.id.clone()));
        }
        if profile.grants.len() == 0 {
            return Err(CatalogError::EmptyProfile(recipe.id.clone(), key.clone()));
        }
        match validate_profile_grants(recipe, key, profile) {
            Err(e) => return Err(e),
            Ok(()) => {},
        }
        i += 1;
    }
    assert(recipe.access_profiles@.skip(i as int) =~= Seq::<(String, DemoAccessProfile)>::empty());
    Ok(())
}

/// Access state attached to one demo object for static permission checks.
pub struct DemoObjectAccessState {
    /// Actor that receives the object's creator administrator grant.
    pub creator: String,
    /// Named grant profile applied right after creation.
    pub profile: String,
}

/// Index of the last pair whose key is `k` (the value a map holds after repeated inserts).
pub open spec fn latest_index<V>(pairs: Seq<(String, V)>, k: Seq<char>) -> Option<int>
    decreases pairs.len(),
{
    if pairs.len() == 0 {
        None
    } else if pairs.last().0@ == k {
        Some(pairs.len() - 1)
    } else {
        latest_index(pairs.drop_last(), k)
    }
}

/// `latest_index` stays inside the sequence.
pub proof fn lemma_latest_index<V>(pairs: Seq<(String, V)>, k: Seq<char>)
    ensures
        latest_index(pairs, k) matches Some(i) ==> 0 <= i < pairs.len() && pairs[i].0@ == k,
    decreases pairs.len(),
{
    if pairs.len() > 0 && pairs.last().0@ != k {
        lemma_latest_index(pairs.drop_last(), k);
    }
}

/// Position of the last pair whose key is `k`.
fn find_latest<V>(pairs: &Vec<(String, V)>, k: &String) -> (r: Option<usize>)
    ensures
        r matches Some(i) ==> latest_index(pairs@, k@) == Some(i as int) && i < pairs@.len()
            && pairs@[i as int].0@ == k@,
        r is None ==> latest_index(pairs@, k@) is None,
{
    proof {
        lemma_latest_index(pairs@, k@);
    }
    let mut n = pairs.len();
    assert(pairs@.take(n as int) =~= pairs@);
    while n > 0
        invariant
            n <= pairs@.len(),
            latest_index(pairs@, k@) == latest_index(pairs@.take(n as int), k@),
        decreases n,
    {
        assert(pairs@.take(n as int).drop_last() =~= pairs@.take(n - 1));
        if pairs[n - 1].0 == *k {
            return Some(n - 1);
        }
        n -= 1;
    }
    None
}

/// Whether a grant of a profile applies to `actor`, directly or through a group.
pub open spec fn grant_applies(recipe: DemoRecipe, g: DemoAccessGrant, actor: Seq<char>) -> bool {
    match (g.actor, g.group) {
        (Some(a), None) => a@ == actor,
        (None, Some(gr)) => match key_index(recipe.groups@, gr@, 0) {
            Some(i) => has_key(recipe.groups@[i].1.members@, actor),
            None => false,
        },
        _ => false,
    }
}

/// Strongest valid role among the applicable grants, after `best` (ties keep the later grant).
pub open spec fn strongest_role(
    recipe: DemoRecipe,
    grants: Seq<DemoAccessGrant>,
    actor: Seq<char>,
    best: Option<ObjectRole>,
) -> Option<ObjectRole>
    decreases grants.len(),
{
    if grants.len() == 0 {
        best
    } else {
        let g = grants[0];
        let candidate = if grant_applies(recipe, g, actor) {
            parse_object_role(g.role@)
        } else {
            None
        };
        let next = match (candidate, best) {
            (Some(r), Some(b)) => if crate::vocab::role_rank(r) >= crate::vocab::role_rank(b) {
                Some(r)
            } else {
                Some(b)
            },
            (Some(r), None) => Some(r),
            (None, _) => best,
        };
        strongest_role(recipe, grants.drop_first(), actor, next)
    }
}

/// Role of `actor` on an object created by `creator` with access profile `profile`.
pub open spec fn demo_role(recipe: DemoRecipe, creator: Seq<char>, profile: Seq<char>, actor: Seq<char>) -> Option<ObjectRole> {
    if creator == actor {
        Some(ObjectRole::Admin)
    } else {
        match key_index(recipe.access_profiles@, profile, 0) {
            Some(i) => strongest_role(recipe, recipe.access_profiles@[i].1.grants@, actor, None),
            None => None,
        }
    }
}

/// Whether grant `g` applies to `actor` and names a valid role `r`.
pub open spec fn grants_role(recipe: DemoRecipe, g: DemoAccessGrant, actor: Seq<char>, r: ObjectRole) -> bool {
    grant_applies(recipe, g, actor) && parse_object_role(g.role@) == Some(r)
}

/// The strongest role outranks what it started from and every applicable grant, and is one of
/// them.
proof fn lemma_strongest_role(recipe: DemoRecipe, grants: Seq<DemoAccessGrant>, actor: Seq<char>, best: Option<ObjectRole>)
    ensures
        best matches Some(b) ==> (strongest_role(recipe, grants, actor, best) matches Some(x)
            && crate::vocab::role_rank(x) >= crate::vocab::role_rank(b)),
        forall|k: int, r: ObjectRole|
            0 <= k < grants.len() && #[trigger] grants_role(recipe, grants[k], actor, r) ==> (strongest_role(
                recipe,
                grants,
                actor,
                best,
            ) matches Some(x) && crate::vocab::role_rank(x) >= crate::vocab::role_rank(r)),
        strongest_role(recipe, grants, actor, best) matches Some(x) ==> best == Some(x) || exists|k: int|
            0 <= k < grants.len() && #[trigger] grants_role(recipe, grants[k], actor, x),
        best is None && strongest_role(recipe, grants, actor, best) is None ==> forall|k: int, r: ObjectRole|
            0 <= k < grants.len() ==> !#[trigger] grants_role(recipe, grants[k], actor, r),
    decreases grants.len(),
{
    if grants.len() > 0 {
        let g = grants[0];
        let candidate = if grant_applies(recipe, g, actor) {
            parse_object_role(g.role@)
        } else {
            None
        };
        let next = match (candidate, best) {
            (Some(r), Some(b)) => if crate::vocab::role_rank(r) >= crate::vocab::role_rank(b) {
                Some(r)
            } else {
                Some(b)
            },
            (Some(r), None) => Some(r),
            (None, _) => best,
        };
        let rest = grants.drop_first();
        lemma_strongest_role(recipe, rest, actor, next);
        let res = strongest_role(recipe, grants, actor, best);
        assert(res == strongest_role(recipe, rest, actor, next));
        assert forall|k: int, r: ObjectRole| 0 <= k < grants.len() && #[trigger] grants_role(recipe, grants[k], actor, r) implies (res matches Some(
            x,
        ) && crate::vocab::role_rank(x) >= crate::vocab::role_rank(r)) by {
            if k == 0 {
                assert(candidate == Some(r));
            } else {
                assert(rest[k - 1] == grants[k]);
                assert(grants_role(recipe, rest[k - 1], actor, r));
            }
        }
        if let Some(x) = res {
            if next != Some(x) {
                let k = choose|k: int| 0 <= k < rest.len() && #[trigger] grants_role(recipe, rest[k], actor, x);
                assert(grants[k + 1] == rest[k]);
                assert(grants_role(recipe, grants[k + 1], actor, x));
            } else if best != Some(x) {
                assert(candidate == Some(x));
                assert(grants_role(recipe, grants[0], actor, x));
            }
        }
    }
}

/// The role a demo actor holds on an object: the creator administers it; anyone else holds the
/// strongest role among the grants of the object's access profile that apply to them, directly
/// or through a group, which is the role of one of those grants; with no such grant, none.
pub proof fn demo_role_is_the_strongest_applicable_grant(
    recipe: DemoRecipe,
    creator: Seq<char>,
    profile: Seq<char>,
    actor: Seq<char>,
)
    ensures
        creator == actor ==> demo_role(recipe, creator, profile, actor) == Some(ObjectRole::Admin),
        creator != actor && key_index(recipe.access_profiles@, profile, 0) is None ==> demo_role(
            recipe,
            creator,
            profile,
            actor,
        ) is None,
        creator != actor ==> (key_index(recipe.access_profiles@, profile, 0) matches Some(i) ==> ({
            let grants = recipe.access_profiles@[i].1.grants@;
            let role = demo_role(recipe, creator, profile, actor);
            &&& forall|k: int, r: ObjectRole|
                0 <= k < grants.len() && #[trigger] grants_role(recipe, grants[k], actor, r) ==> (role matches Some(x)
                    && crate::vocab::role_rank(x) >= crate::vocab::role_rank(r))
            &&& role matches Some(x) ==> exists|k: int|
                0 <= k < grants.len() && #[trigger] grants_role(recipe, grants[k], actor, x)
            &&& role is None ==> forall|k: int, r: ObjectRole|
                0 <= k < grants.len() ==> !#[trigger] grants_role(recipe, grants[k], actor, r)
        })),
{
    if creator != actor {
        if let Some(i) = key_index(recipe.access_profiles@, profile, 0) {
            lemma_strongest_role(recipe, recipe.access_profiles@[i].1.grants@, actor, None);
        }
    }
}

/// Resolves the strongest configured role for one demo actor on one seeded object.
pub fn demo_object_role(recipe: &DemoRecipe, object: &DemoObjectAccessState, actor: &String) -> (r: Option<ObjectRole>)
    ensures
        r == demo_role(*recipe, object.creator@, object.profile@, actor@),
{
    if object.creator == *actor {
        return Some(ObjectRole::Admin);
    }
    let pi = match find_key(&recipe.access_profiles, &object.profile) {
        Some(pi) => pi,
        None => return None,
    };
    proof {
        lemma_key_index(recipe.access_profiles@, object.profile@, 0);
    }
    let grants = &recipe.access_profiles[pi].1.grants;
    let mut best: Option<ObjectRole> = None;
    let mut i: usize = 0;
    assert(grants@.skip(0) =~= grants@);
    while i < grants.len()
        invariant
            i <= grants@.len(),
            strongest_role(*recipe, grants@, actor@, None) == strongest_role(*recipe, grants@.skip(i as int), actor@, best),
        decreases grants.len() - i,
    {
        assert(grants@.skip(i as int).drop_first() =~= grants@.skip(i + 1));
        assert(grants@.skip(i as int)[0] == grants@[i as int]);
        let g = &grants[i];
        let applies = match (&g.actor, &g.group) {
            (Some(a), None) => *a == *actor,
            (None, Some(gr)) => match find_key(&recipe.groups, gr) {
                Some(gi) => {
                    proof {
                        lemma_key_index(recipe.groups@, gr@, 0);
                    }
                    contains_key(&recipe.groups[gi].1.members, actor)
                },
                None => false,
            },
            _ => false,
        };
        let candidate = if applies {
            ObjectRole::parse(g.role.as_str())
        } else {
            None
        };
        best = match (candidate, best) {
            (Some(r), Some(b)) => if crate::vocab::object_role_rank(r) >= crate::vocab::object_role_rank(b) {
                Some(r)
            } else {
                Some(b)
            },
            (Some(r), None) => Some(r),
            (None, b) => b,
        };
        i += 1;
    }
    assert(grants@.skip(i as int) =~= Seq::<DemoAccessGrant>::empty());
    best
}

/// Outcome of requiring `actor` to hold at least `required` on `object`.
pub open spec fn require_check(
    recipe: DemoRecipe,
    objects: Seq<(String, DemoObjectAccessState)>,
    object: String,
    actor: String,
    required: ObjectRole,
) -> Result<(), CatalogError> {
    match latest_index(objects, object@) {
        None => Err(CatalogError::AccessUnknownObject(recipe.id, object)),
        Some(i) => match demo_role(recipe, objects[i].1.creator@, objects[i].1.profile@, actor@) {
            Some(r) => if crate::vocab::role_rank(r) >= crate::vocab::role_rank(required) {
                Ok(())
            } else {
                Err(CatalogError::LacksAccess(recipe.id, actor, required, object))
            },
            None => Err(CatalogError::LacksAccess(recipe.id, actor, required, object)),
        },
    }
}

/// Requires one demo actor to satisfy the given object role from creator or configured grants.
pub fn require_demo_object_role(
    recipe: &DemoRecipe,
    objects: &Vec<(String, DemoObjectAccessState)>,
    object: &String,
    actor: &String,
    required: ObjectRole,
) -> (r: Result<(), CatalogError>)
    ensures
        r == require_check(*recipe, objects@, *object, *actor, required),
{
    let oi = match find_latest(objects, object) {
        Some(oi) => oi,
        None => return Err(CatalogError::AccessUnknownObject(recipe.id.clone(), object.clone())),
    };
    proof {
        lemma_latest_index(objects@, object@);
    }
    let actual = demo_object_role(recipe, &objects[oi].1, actor);
    match actual {
        Some(role) => {
            if crate::vocab::object_role_rank(role) >= crate::vocab::object_role_rank(required) {
                return Ok(());
            }
        },
        None => {},
    }
    Err(CatalogError::LacksAccess(recipe.id.clone(), actor.clone(), required, object.clone()))
}

/// Objects and threads known to the access check.
pub struct AccessScope {
    /// Created objects with their access state, in creation order.
    pub objects: Seq<(String, DemoObjectAccessState)>,
    /// Started threads with their object key, in creation order.
    pub threads: Seq<(String, String)>,
}

/// Effect of one demo action on the access scope, or the reason it is rejected.
pub open spec fn access_step(recipe: DemoRecipe, s: AccessScope, d: DemoSeedAction) -> Result<AccessScope, CatalogError> {
    let actor = d.actor;
    match d.action {
        SeedAction::CreateObject { key, .. } => match d.access {
            None => Err(CatalogError::ObjectMissingProfile(recipe.id, key)),
            Some(p) => Ok(AccessScope {
                objects: s.objects.push((key, DemoObjectAccessState { creator: actor, profile: p })),
                ..s
            }),
        },
        SeedAction::UpdateObject { object, .. } => match require_check(
            recipe,
            s.objects,
            object,
            actor,
            ObjectRole::Editor,
        ) {
            Err(e) => Err(e),
            Ok(()) => Ok(s),
        },
        SeedAction::CreateRelationship { source, target } => match require_check(
            recipe,
            s.objects,
            source,
            actor,
            ObjectRole::Editor,
        ) {
            Err(e) => Err(e),
            Ok(()) => match require_check(recipe, s.objects, target, actor, ObjectRole::Viewer) {
                Err(e) => Err(e),
                Ok(()) => Ok(s),
            },
        },
        SeedAction::CreateCommentThread { key, object, .. } => match require_check(
            recipe,
            s.objects,
            object,
            actor,
            ObjectRole::Viewer,
        ) {
            Err(e) => Err(e),
            Ok(()) => Ok(AccessScope { threads: s.threads.push((key, object)), ..s }),
        },
        SeedAction::ReplyToCommentThread { thread, .. } => match latest_index(s.threads, thread@) {
            None => Err(CatalogError::ThreadWithoutObject(recipe.id, thread)),
            Some(i) => match require_check(recipe, s.objects, s.threads[i].1, actor, ObjectRole::Viewer) {
                Err(e) => Err(e),
                Ok(()) => Ok(s),
            },
        },
        SeedAction::ResolveCommentThread { thread } => match latest_index(s.threads, thread@) {
            None => Err(CatalogError::ThreadWithoutObject(recipe.id, thread)),
            Some(i) => match require_check(recipe, s.objects, s.threads[i].1, actor, ObjectRole::Viewer) {
                Err(e) => Err(e),
                Ok(()) => Ok(s),
            },
        },
        SeedAction::ArchiveObject { object } => match require_check(
            recipe,
            s.objects,
            object,
            actor,
            ObjectRole::Admin,
        ) {
            Err(e) => Err(e),
            Ok(()) => Ok(s),
        },
    }
}

/// Outcome of checking every demo action against the access it needs.
pub open spec fn access_check(recipe: DemoRecipe, actions: Seq<DemoSeedAction>, s: AccessScope) -> Result<(), CatalogError>
    decreases actions.len(),
{
    if actions.len() == 0 {
        Ok(())
    } else {
        match access_step(recipe, s, actions[0]) {
            Err(e) => Err(e),
            Ok(next) => access_check(recipe, actions.drop_first(), next),
        }
    }
}

/// The access scope before any action.
pub open spec fn empty_access_scope() -> AccessScope {
    AccessScope { objects: Seq::empty(), threads: Seq::empty() }
}

/// Verifies that historical demo mutations are possible under the access model they advertise.
pub fn validate_demo_action_access(recipe: &DemoRecipe) -> (r: Result<(), CatalogError>)
    ensures
        r == access_check(*recipe, recipe.actions@, empty_access_scope()),
{
    let mut objects: Vec<(String, DemoObjectAccessState)> = Vec::new();
    let mut threads: Vec<(String, String)> = Vec::new();
    let mut i: usize = 0;
    assert(recipe.actions@.skip(0) =~= recipe.actions@);
    while i < recipe.actions.len()
        invariant
            i <= recipe.actions@.len(),
            access_check(*recipe, recipe.actions@, empty_access_scope()) == access_check(
                *recipe,
                recipe.actions@.skip(i as int),
                AccessScope { objects: objects@, threads: threads@ },
            ),
        decreases recipe.actions.len() - i,
    {
        assert(recipe.actions@.skip(i as int).drop_first() =~= recipe.actions@.skip(i + 1));
        assert(recipe.actions@.skip(i as int)[0] == recipe.actions@[i as int]);
        let seeded = &recipe.actions[i];
        let actor = &seeded.actor;
        match &seeded.action {
            SeedAction::CreateObject { key, .. } => {
                let profile = match &seeded.access {
                    Some(p) => p,
                    None => return Err(CatalogError::ObjectMissingProfile(recipe.id.clone(), key.clone())),
                };
                objects.push(
                    (key.clone(), DemoObjectAccessState { creator: actor.clone(), profile: profile.clone() }),
                );
            },
            SeedAction::UpdateObject { object, .. } => {
                match require_demo_object_role(recipe, &objects, object, actor, ObjectRole::Editor) {
                    Err(e) => return Err(e),
                    Ok(()) => {},
                }
            },
            SeedAction::CreateRelationship { source, target } => {
                match require_demo_object_role(recipe, &objects, source, actor, ObjectRole::Editor) {
                    Err(e) => return Err(e),
                    Ok(()) => {},
                }
                match require_demo_object_role(recipe, &objects, target, actor, ObjectRole::Viewer) {
                    Err(e) => return Err(e),
                    Ok(()) => {},
                }
            },
            SeedAction::CreateCommentThread { key, object, .. } => {
                match require_demo_object_role(recipe, &objects, object, actor, ObjectRole::Viewer) {
                    Err(e) => return Err(e),
                    Ok(()) => {},
                }
                threads.push((key.clone(), object.clone()));
            },
            SeedAction::ReplyToCommentThread { thread, .. } | SeedAction::ResolveCommentThread { thread } => {
                let ti = match find_latest(&threads, thread) {
                    Some(ti) => ti,
                    None => return Err(CatalogError::ThreadWithoutObject(recipe.id.clone(), thread.clone())),
                };
                proof {
                    lemma_latest_index(threads@, thread@);
                }
                match require_demo_object_role(recipe, &objects, &threads[ti].1, actor, ObjectRole::Viewer) {
                    Err(e) => return Err(e),
                    Ok(()) => {},
                }
            },
            SeedAction::ArchiveObject { object } => {
                match require_demo_object_role(recipe, &objects, object, actor, ObjectRole::Admin) {
                    Err(e) => return Err(e),
                    Ok(()) => {},
                }
            },
        }
        i += 1;
    }
    assert(recipe.actions@.skip(i as int) =~= Seq::<DemoSeedAction>::empty());
    Ok(())
}

/// Whether `actor` holds at least `required` on the latest object created under `object`:
/// an object created by `actor`, or one whose access profile grants `actor` a role that strong.
pub open spec fn holds_role(
    recipe: DemoRecipe,
    objects: Seq<(String, DemoObjectAccessState)>,
    object: Seq<char>,
    actor: Seq<char>,
    required: ObjectRole,
) -> bool {
    &&& latest_index(objects, object) is Some
    &&& demo_role(
        recipe,
        objects[latest_index(objects, object)->0].1.creator@,
        objects[latest_index(objects, object)->0].1.profile@,
        actor,
    ) matches Some(r)
    &&& crate::vocab::role_rank(r) >= crate::vocab::role_rank(required)
}

/// The objects a list of demo actions creates, each with its creator and access profile.
pub open spec fn created_objects(actions: Seq<DemoSeedAction>) -> Seq<(String, DemoObjectAccessState)>
    decreases actions.len(),
{
    if actions.len() == 0 {
        Seq::empty()
    } else {
        let a = actions[0];
        let here = match (a.action, a.access) {
            (SeedAction::CreateObject { key, .. }, Some(p)) => seq![
                (key, DemoObjectAccessState { creator: a.actor, profile: p }),
            ],
            _ => Seq::empty(),
        };
        here + created_objects(actions.drop_first())
    }
}

/// Updating an object needs the editor role: an update by an actor who holds it on the object
/// passes, and one by an actor who does not is refused as lacking editor access.
pub proof fn updating_needs_editor(recipe: DemoRecipe, s: AccessScope, d: DemoSeedAction)
    ensures
        d.action matches SeedAction::UpdateObject { object, .. } ==> ({
            &&& access_step(recipe, s, d) is Ok <==> holds_role(recipe, s.objects, object@, d.actor@, ObjectRole::Editor)
            &&& latest_index(s.objects, object@) is Some && !holds_role(
                recipe,
                s.objects,
                object@,
                d.actor@,
                ObjectRole::Editor,
            ) ==> access_step(recipe, s, d) == Err::<AccessScope, CatalogError>(
                CatalogError::LacksAccess(recipe.id, d.actor, ObjectRole::Editor, object),
            )
        }),
{
}

/// An accepted step leaves the known objects as they were, plus the one it creates.
proof fn lemma_step_objects(recipe: DemoRecipe, s: AccessScope, d: DemoSeedAction)
    requires
        access_step(recipe, s, d) is Ok,
    ensures
        access_step(recipe, s, d)->Ok_0.objects == s.objects + created_objects(seq![d]),
{
    let one = seq![d];
    assert(one.drop_first() =~= Seq::<DemoSeedAction>::empty());
    assert(one[0] == d);
    assert(created_objects(Seq::<DemoSeedAction>::empty()) == Seq::<(String, DemoObjectAccessState)>::empty());
    let here = match (d.action, d.access) {
        (SeedAction::CreateObject { key, .. }, Some(p)) => seq![
            (key, DemoObjectAccessState { creator: d.actor, profile: p }),
        ],
        _ => Seq::<(String, DemoObjectAccessState)>::empty(),
    };
    assert(created_objects(one) == here + created_objects(one.drop_first()));
    assert(here + Seq::<(String, DemoObjectAccessState)>::empty() =~= here);
    match d.action {
        SeedAction::CreateObject { key, .. } => {
            assert(s.objects.push((key, DemoObjectAccessState { creator: d.actor, profile: d.access->0 })) =~= s.objects
                + seq![(key, DemoObjectAccessState { creator: d.actor, profile: d.access->0 })]);
        },
        _ => {
            assert(s.objects + Seq::<(String, DemoObjectAccessState)>::empty() =~= s.objects);
        },
    }
}

/// Every update in an accepted action list is made by an actor holding editor access, given
/// the objects created before it.
proof fn lemma_accepted_updates(recipe: DemoRecipe, actions: Seq<DemoSeedAction>, s: AccessScope, j: int)
    requires
        access_check(recipe, actions, s) is Ok,
        0 <= j < actions.len(),
    ensures
        actions[j].action matches SeedAction::UpdateObject { object, .. } ==> holds_role(
            recipe,
            s.objects + created_objects(actions.take(j)),
            object@,
            actions[j].actor@,
            ObjectRole::Editor,
        ),
    decreases j,
{
    let d = actions[0];
    updating_needs_editor(recipe, s, d);
    if j == 0 {
        assert(actions.take(0) =~= Seq::<DemoSeedAction>::empty());
        assert(s.objects + Seq::<(String, DemoObjectAccessState)>::empty() =~= s.objects);
    } else {
        let next = access_step(recipe, s, d)->Ok_0;
        lemma_step_objects(recipe, s, d);
        let rest = actions.drop_first();
        lemma_accepted_updates(recipe, rest, next, j - 1);
        assert(rest[j - 1] == actions[j]);
        let t = actions.take(j);
        assert(t[0] == d);
        assert(t.drop_first() =~= rest.take(j - 1));
        assert(seq![d].drop_first() =~= Seq::<DemoSeedAction>::empty());
        assert(created_objects(seq![d]) =~= created_objects(seq![d]) + created_objects(Seq::<DemoSeedAction>::empty()));
        assert(s.objects + created_objects(t) =~= next.objects + created_objects(rest.take(j - 1)));
    }
}

/// When a demo's actions pass the access check, every update among them is made by an actor
/// who holds at least the editor role on the object, given the objects created before it.
pub proof fn accepted_demo_updates_hold_editor(recipe: DemoRecipe)
    requires
        access_check(recipe, recipe.actions@, empty_access_scope()) is Ok,
    ensures
        forall|j: int|
            0 <= j < recipe.actions@.len() ==> ((#[trigger] recipe.actions@[j]).action matches SeedAction::UpdateObject {
                object,
                ..
            } ==> holds_role(
                recipe,
                created_objects(recipe.actions@.take(j)),
                object@,
                recipe.actions@[j].actor@,
                ObjectRole::Editor,
            )),
{
    assert forall|j: int| 0 <= j < recipe.actions@.len() implies ((#[trigger] recipe.actions@[j]).action matches SeedAction::UpdateObject {
        object,
        ..
    } ==> holds_role(
        recipe,
        created_objects(recipe.actions@.take(j)),
        object@,
        recipe.actions@[j].actor@,
        ObjectRole::Editor,
    )) by {
        lemma_accepted_updates(recipe, recipe.actions@, empty_access_scope(), j);
        assert(Seq::<(String, DemoObjectAccessState)>::empty() + created_objects(recipe.actions@.take(j))
            =~= created_objects(recipe.actions@.take(j)));
    }
}

} // verus!
