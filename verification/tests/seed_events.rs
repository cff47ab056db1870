use kival::catalog::Json;
use kival::demo_seed::{DemoGrant, GrantPrincipal};
use kival::kernel::EventKind;
use kival::references::{ObjectReferenceMaintenance, ObjectReferenceUpdate, ReferenceReresolutionSummary};
use kival::seed::SeedCommentThreadState;
use kival::seed_events::{
    comment_created_event, comment_replied_event, demo_actor_events, demo_grant_event, demo_group_events,
    demo_group_membership_event, fixture_disabled_event, object_archived_events, object_created_events,
    object_updated_events, reference_events, seed_update_effects, relationship_event, thread_resolved_event, workspace_created_event,
};
use kival::vocab::ObjectRole;

const OBJ: u128 = 0x0196f3a1_7c2e_7b3a_9a4e_5f1d2c3b4a59;

fn field<'a>(payload: &'a Json, key: &str) -> Option<&'a Json> {
    match payload {
        Json::Object(fields) => fields.iter().find(|(k, _)| k == key).map(|(_, v)| v),
        _ => None,
    }
}

fn text(payload: &Json, key: &str) -> String {
    match field(payload, key) {
        Some(Json::Str(s)) => s.clone(),
        Some(Json::Number(n)) => n.clone(),
        other => panic!("unexpected {other:?}"),
    }
}

#[test]
fn uuids_are_written_hyphenated() {
    let e = workspace_created_event(1, OBJ);
    assert_eq!(e.event_kind, EventKind::WorkspaceCreated);
    assert_eq!(e.workspace_id, Some(OBJ));
    assert_eq!(text(&e.payload, "workspace_id"), "0196f3a1-7c2e-7b3a-9a4e-5f1d2c3b4a59");
}

#[test]
fn object_creation_emits_creation_and_grant() {
    let events = object_created_events(1, 2, 3, 4, 5);
    assert_eq!(events.len(), 2);
    assert_eq!(events[0].event_kind, EventKind::ObjectCreated);
    assert_eq!((events[0].object_id, events[0].object_version_id), (Some(3), Some(4)));
    assert_eq!(events[1].event_kind, EventKind::ObjectGrantCreated);
    assert_eq!(text(&events[1].payload, "object_role"), "admin");
    assert_eq!(events[1].target_user_id, Some(1));
}

fn maintenance(changed: bool, updated: usize) -> ObjectReferenceMaintenance {
    ObjectReferenceMaintenance {
        reference_update: ObjectReferenceUpdate {
            resolved_count: if changed { 2 } else { 0 },
            unresolved_count: 0,
            ambiguous_count: 0,
            stale_count: 0,
        },
        reresolution: ReferenceReresolutionSummary { updated_count: updated, resolved_count: updated, ..Default::default() },
    }
}

#[test]
fn reference_events_only_when_something_changed() {
    assert!(reference_events(1, 2, 3, 4, "Plan", maintenance(false, 0)).is_empty());
    let events = reference_events(1, 2, 3, 4, "Plan", maintenance(true, 1));
    assert_eq!(events.len(), 2);
    assert_eq!(events[0].event_kind, EventKind::ObjectReferencesUpdated);
    assert_eq!(text(&events[0].payload, "resolved_count"), "2");
    assert_eq!(events[1].event_kind, EventKind::ObjectWikilinksReresolved);
    assert!(matches!(
        field(&events[1].payload, "affected_titles"),
        Some(Json::Array(items)) if matches!(items.as_slice(), [Json::Str(t)] if t == "Plan")
    ));
}

#[test]
fn updates_and_archives() {
    let titles = vec!["Old".to_string(), "New".to_string()];
    let events = object_updated_events(1, 2, 3, 4, &titles, maintenance(false, 3));
    let kinds: Vec<_> = events.iter().map(|e| e.event_kind).collect();
    assert_eq!(kinds, vec![EventKind::ObjectVersionAppended, EventKind::ObjectUpdated, EventKind::ObjectWikilinksReresolved]);
    assert_eq!(text(&events[2].payload, "updated_count"), "3");
    let archived = object_archived_events(1, 2, 3, "Plan", ReferenceReresolutionSummary::default());
    assert_eq!(archived.len(), 1);
    assert_eq!(archived[0].event_kind, EventKind::ObjectArchived);
}

#[test]
fn commentary_and_relationship_events() {
    let edge = relationship_event(1, 2, 9, 3, 4);
    assert_eq!((edge.object_id, edge.object_edge_id), (Some(3), Some(9)));
    let created = comment_created_event(1, 2, 3, 5, 6);
    assert_eq!((created.comment_thread_id, created.comment_id), (Some(5), Some(6)));
    let thread = SeedCommentThreadState { object_id: 3, thread_id: 5, root_comment_id: 6, root_author_user_id: 7 };
    let reply = comment_replied_event(8, 2, thread, 10);
    assert_eq!(reply.target_user_id, Some(7));
    assert_eq!(text(&reply.payload, "parent_comment_id"), "00000000-0000-0000-0000-000000000006");
    assert_eq!(thread_resolved_event(8, 2, thread).event_kind, EventKind::CommentThreadResolved);
}

#[test]
fn demo_fixture_events() {
    let actor = demo_actor_events(1, 2, 3, "alice", "Engineer", "R&D", 4, "member");
    assert_eq!(actor[0].event_kind, EventKind::UserCreated);
    assert_eq!(text(&actor[0].payload, "username"), "alice");
    assert!(matches!(field(&actor[0].payload, "demo_fixture"), Some(Json::Bool(true))));
    assert_eq!(actor[1].event_kind, EventKind::WorkspaceMembershipCreated);
    let groups = demo_group_events(1, 2, 5, 6);
    assert_eq!(groups[1].event_kind, EventKind::WorkspaceGroupLinked);
    assert_eq!(demo_group_membership_event(1, 5, 3, 7, "admin").group_id, Some(5));
    let grant = demo_grant_event(1, 2, 3, 8, DemoGrant { principal: GrantPrincipal::Group(5), role: ObjectRole::Editor }, "editor", "shared");
    assert_eq!((grant.group_id, grant.target_user_id), (Some(5), None));
    assert_eq!(text(&grant.payload, "access_profile"), "shared");
    assert_eq!(fixture_disabled_event(1, 3).event_kind, EventKind::UserDisabled);
}

#[test]
fn unchanged_update_keeps_the_version_and_records_nothing() {
    let effects = seed_update_effects(false, 1, 2, 3, 4, "Plan", "Plan", maintenance(true, 3));
    assert_eq!(effects.version_id, 4);
    assert!(effects.events.is_empty());
    assert!(effects.affected_titles.is_empty());
}

#[test]
fn changed_update_records_version_update_and_maintenance() {
    let effects = seed_update_effects(true, 1, 2, 3, 4, "Old", "New", maintenance(true, 3));
    assert_eq!(effects.version_id, 4);
    assert_eq!(effects.affected_titles, vec!["Old".to_string(), "New".to_string()]);
    let kinds: Vec<_> = effects.events.iter().map(|e| e.event_kind).collect();
    assert_eq!(
        kinds,
        vec![
            EventKind::ObjectVersionAppended,
            EventKind::ObjectUpdated,
            EventKind::ObjectReferencesUpdated,
            EventKind::ObjectWikilinksReresolved,
        ]
    );

    let same_title = seed_update_effects(true, 1, 2, 3, 4, "Plan", "Plan", maintenance(false, 0));
    assert!(same_title.affected_titles.is_empty());
    let kinds: Vec<_> = same_title.events.iter().map(|e| e.event_kind).collect();
    assert_eq!(kinds, vec![EventKind::ObjectVersionAppended, EventKind::ObjectUpdated]);
}
