use kival::catalog::{DemoAccessGrant, DemoAccessProfile, DemoGroup, DemoRecipe, Json, SeedAction};
use kival::demo_seed::{
    affected_titles, demo_actor_id, demo_group_name, demo_username, fallback_username, fixture_suffix,
    plan_group_members, plan_owner_markers, plan_profile_grants, workspace_name, workspace_owner, DemoGrant,
    DemoSeedError, GrantPrincipal,
};
use kival::seed::{SeedCall, SeedCommentThreadState, SeedError, SeedObjectState, SeedOutcome, SeedState};
use kival::vocab::{MembershipRole, ObjectRole};

fn s(v: &str) -> String {
    v.to_string()
}

#[test]
fn seeding_resolves_keys_to_recorded_identifiers() {
    let mut state = SeedState::new();
    let create = SeedAction::CreateObject { key: s("plan"), title: s("Plan"), body: s("b"), metadata: Json::Object(vec![]) };
    assert!(matches!(state.plan(&create), Ok(SeedCall::CreateObject { .. })));
    state.record(&create, SeedOutcome::Object(SeedObjectState { object_id: 1, current_version_id: 10 }));

    let update = SeedAction::UpdateObject { object: s("plan"), title: None, body: Some(s("c")), metadata: None };
    match state.plan(&update) {
        Ok(SeedCall::UpdateObject { object, .. }) => {
            assert_eq!(object, SeedObjectState { object_id: 1, current_version_id: 10 })
        }
        _ => panic!("update should resolve"),
    }
    state.record(&update, SeedOutcome::Version(11));
    let archive = SeedAction::ArchiveObject { object: s("plan") };
    match state.plan(&archive) {
        Ok(SeedCall::ArchiveObject { object }) => assert_eq!(object.current_version_id, 11),
        _ => panic!("archive should resolve"),
    }

    let thread = SeedAction::CreateCommentThread { key: s("t"), object: s("plan"), body: s("hi") };
    match state.plan(&thread) {
        Ok(SeedCall::CreateCommentThread { object_id, .. }) => assert_eq!(object_id, 1),
        _ => panic!("thread should resolve"),
    }
    let t = SeedCommentThreadState { object_id: 1, thread_id: 5, root_comment_id: 6, root_author_user_id: 7 };
    state.record(&thread, SeedOutcome::Thread(t));
    let reply = SeedAction::ReplyToCommentThread { thread: s("t"), body: s("yes") };
    assert!(matches!(state.plan(&reply), Ok(SeedCall::ReplyToCommentThread { thread, .. }) if thread == t));
}

#[test]
fn unknown_keys_are_reported() {
    let state = SeedState::new();
    let rel = SeedAction::CreateRelationship { source: s("a"), target: s("b") };
    let error = state.plan(&rel).err().expect("unknown source");
    assert_eq!(error, SeedError::UnknownSource(s("a")));
    assert_eq!(error.message(), "initializer references unknown source object \"a\"");
    let resolve = SeedAction::ResolveCommentThread { thread: s("x") };
    assert_eq!(
        state.plan(&resolve).err().expect("unknown thread").message(),
        "initializer references unknown commentary thread \"x\""
    );
}

#[test]
fn fixture_names_use_the_workspace_suffix() {
    let id: u128 = 0x0196f3a1_7c2e_7b3a_9a4e_5f1d2c3b4a59;
    assert_eq!(fixture_suffix(id), "2c3b4a59");
    assert_eq!(fallback_username("alice", id), "alice-demo-2c3b4a59");
    assert_eq!(demo_username("alice", id, false, true), Ok(s("alice")));
    assert_eq!(demo_username("alice", id, true, false), Ok(s("alice-demo-2c3b4a59")));
    assert_eq!(
        demo_username("alice", id, true, true).unwrap_err().message(),
        "demo actor username collision for \"alice\""
    );
    assert_eq!(demo_group_name(" Team ", id, false), "Team");
    assert_eq!(demo_group_name(" Team ", id, true), "Team · 2c3b4a59");
    assert_eq!(fixture_suffix(0xab), "000000ab");
}

fn recipe() -> DemoRecipe {
    DemoRecipe {
        id: s("acme"),
        name: s("Acme"),
        description: None,
        actors: vec![],
        groups: vec![],
        access_profiles: vec![(
            s("shared"),
            DemoAccessProfile {
                grants: vec![
                    DemoAccessGrant { actor: Some(s("alice")), group: None, role: s("admin") },
                    DemoAccessGrant { actor: Some(s("bob")), group: None, role: s("viewer") },
                    DemoAccessGrant { actor: None, group: Some(s("team")), role: s("editor") },
                ],
            },
        )],
        owner_pins: vec![],
        owner_favorites: vec![],
        actions: vec![],
    }
}

#[test]
fn access_profiles_become_grants_without_the_creator() {
    let actors = vec![(s("alice"), 1u128), (s("bob"), 2u128)];
    let groups = vec![(s("team"), 9u128)];
    let grants = plan_profile_grants(&recipe(), &s("shared"), &actors, &groups, 1).expect("profile resolves");
    assert_eq!(
        grants,
        vec![
            DemoGrant { principal: GrantPrincipal::User(2), role: ObjectRole::Viewer },
            DemoGrant { principal: GrantPrincipal::Group(9), role: ObjectRole::Editor },
        ]
    );
    assert_eq!(
        plan_profile_grants(&recipe(), &s("private"), &actors, &groups, 1),
        Err(DemoSeedError::UnknownProfile(s("private")))
    );
    assert_eq!(
        plan_profile_grants(&recipe(), &s("shared"), &actors, &vec![], 1).unwrap_err().message(),
        "demo access profile \"shared\" references unknown group \"team\""
    );
}

#[test]
fn group_members_resolve_actors_and_roles() {
    let group = DemoGroup { name: s("Team"), description: None, members: vec![(s("alice"), s("admin")), (s("bob"), s("member"))] };
    let actors = vec![(s("alice"), 1u128), (s("bob"), 2u128)];
    assert_eq!(
        plan_group_members(&s("team"), &group, &actors),
        Ok(vec![(1, MembershipRole::Admin), (2, MembershipRole::Member)])
    );
    let bad = DemoGroup { name: s("Team"), description: None, members: vec![(s("alice"), s("owner"))] };
    assert_eq!(
        plan_group_members(&s("team"), &bad, &actors).unwrap_err().message(),
        "demo group \"team\" has invalid membership role \"owner\""
    );
    assert_eq!(demo_actor_id(&actors, &s("carol")), Err(DemoSeedError::UnknownActor(s("carol"))));
}

#[test]
fn owner_markers_and_workspace_checks() {
    let mut state = SeedState::new();
    let create = SeedAction::CreateObject { key: s("a"), title: s("A"), body: s(""), metadata: Json::Object(vec![]) };
    state.record(&create, SeedOutcome::Object(SeedObjectState { object_id: 4, current_version_id: 40 }));
    assert_eq!(plan_owner_markers(&vec![s("a")], &vec![s("a")], &state), Ok((vec![4], vec![4])));
    assert_eq!(
        plan_owner_markers(&vec![], &vec![s("b")], &state).unwrap_err().message(),
        "demo owner favorite references unknown object \"b\""
    );
    assert_eq!(workspace_name("  Research "), Ok(s("Research")));
    assert_eq!(workspace_name(" ").unwrap_err().message(), "workspace name must not be empty");
    assert_eq!(workspace_owner(None), Err(DemoSeedError::NotBootstrapped));
    assert_eq!(workspace_owner(Some((3, s("admin"), true))), Err(DemoSeedError::OwnerDisabled));
    assert_eq!(workspace_owner(Some((3, s("admin"), false))), Ok((3, s("admin"))));
    assert!(affected_titles("A", "A").is_empty());
    assert_eq!(affected_titles("A", "B"), vec![s("A"), s("B")]);
}
