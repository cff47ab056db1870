//! The audit events that seeding a workspace appends after each performed call: their kinds,
//! targets and payloads, from the identifiers and counts the calls returned.
use uuid::Uuid;
use vstd::prelude::*;
use crate::catalog::Json;
use crate::demo_seed::{affected_titles, hex_fixed};
use crate::kernel::{EventInsert, EventKind};
use crate::references::{ObjectReferenceMaintenance, ObjectReferenceUpdate, ReferenceReresolutionSummary, update_changed};
use crate::text::{decimal, decimal_string};

verus! {

/// The hyphenated form of a UUID: its 32 lowercase hexadecimal digits in groups of 8, 4, 4, 4
/// and 12.
pub open spec fn hyphenated(id: u128) -> Seq<char> {
    let h = hex_fixed(id as nat, 32);
    h.subrange(0, 8) + seq!['-'] + h.subrange(8, 12) + seq!['-'] + h.subrange(12, 16) + seq!['-'] + h.subrange(16, 20)
        + seq!['-'] + h.subrange(20, 32)
}

/// Formats a UUID in its hyphenated form (`Uuid::hyphenated`), as JSON writes it.
#[verifier::external_body]
pub(crate) fn uuid_text(id: u128) -> (s: String)
    ensures
        s@ == hyphenated(id),
{
    Uuid::from_u128(id).hyphenated().to_string()
}

/// A payload value, by characters.
pub enum Field {
    /// A string.
    Str(Seq<char>),
    /// A number, by its decimal text.
    Num(Seq<char>),
    /// A boolean.
    Bool(bool),
    /// An array of strings.
    Strs(Seq<Seq<char>>),
    /// Anything else.
    Other,
}

/// The text of a JSON string, or nothing.
pub open spec fn str_of(j: Json) -> Seq<char> {
    match j {
        Json::Str(s) => s@,
        _ => Seq::empty(),
    }
}

/// A payload value.
pub open spec fn field_view(j: Json) -> Field {
    match j {
        Json::Str(s) => Field::Str(s@),
        Json::Number(n) => Field::Num(n@),
        Json::Bool(b) => Field::Bool(b),
        Json::Array(v) => if forall|i: int| 0 <= i < v@.len() ==> (#[trigger] v@[i]) is Str {
            Field::Strs(v@.map_values(|x: Json| str_of(x)))
        } else {
            Field::Other
        },
        _ => Field::Other,
    }
}

/// The fields of an object payload, in order.
pub open spec fn payload_view(j: Json) -> Seq<(Seq<char>, Field)> {
    match j {
        Json::Object(v) => v@.map_values(|p: (String, Json)| (p.0@, field_view(p.1))),
        _ => Seq::empty(),
    }
}

/// An event, by value.
pub struct EventView {
    /// Event kind.
    pub kind: EventKind,
    /// The user that caused it.
    pub actor: u128,
    /// Workspace target.
    pub workspace: Option<u128>,
    /// Object target.
    pub object: Option<u128>,
    /// Object version target.
    pub object_version: Option<u128>,
    /// Object edge target.
    pub object_edge: Option<u128>,
    /// Object grant target.
    pub object_grant: Option<u128>,
    /// Comment thread target.
    pub comment_thread: Option<u128>,
    /// Comment target.
    pub comment: Option<u128>,
    /// Group target.
    pub group: Option<u128>,
    /// Target user.
    pub target_user: Option<u128>,
    /// Whether API-key provenance is attached.
    pub attributed: bool,
    /// Payload fields.
    pub payload: Seq<(Seq<char>, Field)>,
}

/// An event by value, with whether API-key provenance is attached (seeding never attaches any).
pub open spec fn event_view(e: EventInsert) -> EventView {
    EventView {
        kind: e.event_kind,
        actor: e.actor_user_id,
        workspace: e.workspace_id,
        object: e.object_id,
        object_version: e.object_version_id,
        object_edge: e.object_edge_id,
        object_grant: e.object_grant_id,
        comment_thread: e.comment_thread_id,
        comment: e.comment_id,
        group: e.group_id,
        target_user: e.target_user_id,
        attributed: e.api_key is Some,
        payload: payload_view(e.payload),
    }
}

/// An event without targets.
pub open spec fn bare(kind: EventKind, actor: u128, payload: Seq<(Seq<char>, Field)>) -> EventView {
    EventView {
        kind,
        actor,
        workspace: None,
        object: None,
        object_version: None,
        object_edge: None,
        object_grant: None,
        comment_thread: None,
        comment: None,
        group: None,
        target_user: None,
        attributed: false,
        payload,
    }
}

/// Events, by value.
pub open spec fn events_view(v: Seq<EventInsert>) -> Seq<EventView> {
    v.map_values(|e: EventInsert| event_view(e))
}

/// A UUID payload field.
fn id_field(key: &str, id: u128) -> (f: (String, Json))
    ensures
        f.0@ == key@,
        field_view(f.1) == Field::Str(hyphenated(id)),
{
    (key.to_owned(), Json::Str(uuid_text(id)))
}

/// A count payload field.
fn count_field(key: &str, n: usize) -> (f: (String, Json))
    ensures
        f.0@ == key@,
        field_view(f.1) == Field::Num(decimal(n as nat)),
{
    (key.to_owned(), Json::Number(decimal_string(n as u64)))
}

/// A text payload field.
fn text_field(key: &str, s: &str) -> (f: (String, Json))
    ensures
        f.0@ == key@,
        field_view(f.1) == Field::Str(s@),
{
    (key.to_owned(), Json::Str(s.to_owned()))
}

/// The `demo_fixture: true` payload field.
fn fixture_field() -> (f: (String, Json))
    ensures
        f.0@ == "demo_fixture"@,
        field_view(f.1) == Field::Bool(true),
{
    ("demo_fixture".to_owned(), Json::Bool(true))
}

/// An object payload with the given fields.
fn object_payload(fields: Vec<(String, Json)>) -> (j: Json)
    ensures
        payload_view(j) == fields@.map_values(|p: (String, Json)| (p.0@, field_view(p.1))),
{
    Json::Object(fields)
}

/// The event of a created workspace.
pub fn workspace_created_event(owner: u128, workspace_id: u128) -> (e: EventInsert)
    ensures
        event_view(e) == (EventView {
            workspace: Some(workspace_id),
            ..bare(EventKind::WorkspaceCreated, owner, seq![("workspace_id"@, Field::Str(hyphenated(workspace_id)))])
        }),
{
    let f = id_field("workspace_id", workspace_id);
    let fields = vec![f];
    let e = EventInsert::new(owner, EventKind::WorkspaceCreated, object_payload(fields)).workspace(workspace_id);
    assert(payload_view(e.payload) =~= seq![("workspace_id"@, Field::Str(hyphenated(workspace_id)))]);
    e
}

/// The events of a seeded object's creation: the object with its first version, then the
/// administrator grant of its creator.
pub fn object_created_events(actor: u128, workspace_id: u128, object_id: u128, version_id: u128, grant_id: u128) -> (r:
    Vec<EventInsert>)
    ensures
        events_view(r@) == seq![
            EventView {
                workspace: Some(workspace_id),
                object: Some(object_id),
                object_version: Some(version_id),
                ..bare(
                    EventKind::ObjectCreated,
                    actor,
                    seq![
                        ("object_id"@, Field::Str(hyphenated(object_id))),
                        ("object_version_id"@, Field::Str(hyphenated(version_id))),
                    ],
                )
            },
            EventView {
                workspace: Some(workspace_id),
                object: Some(object_id),
                object_grant: Some(grant_id),
                target_user: Some(actor),
                ..bare(
                    EventKind::ObjectGrantCreated,
                    actor,
                    seq![("object_grant_id"@, Field::Str(hyphenated(grant_id))), ("object_role"@, Field::Str("admin"@))],
                )
            },
        ],
{
    let a = id_field("object_id", object_id);
    let b = id_field("object_version_id", version_id);
    let created = EventInsert::new(actor, EventKind::ObjectCreated, object_payload(vec![a, b])).workspace(
        workspace_id,
    ).object(object_id).object_version(version_id);
    let c = id_field("object_grant_id", grant_id);
    let d = text_field("object_role", "admin");
    let granted = EventInsert::new(actor, EventKind::ObjectGrantCreated, object_payload(vec![c, d])).workspace(
        workspace_id,
    ).object(object_id).object_grant(grant_id).target_user(actor);
    assert(payload_view(created.payload) =~= seq![
        ("object_id"@, Field::Str(hyphenated(object_id))),
        ("object_version_id"@, Field::Str(hyphenated(version_id))),
    ]);
    assert(payload_view(granted.payload) =~= seq![
        ("object_grant_id"@, Field::Str(hyphenated(grant_id))),
        ("object_role"@, Field::Str("admin"@)),
    ]);
    let r = vec![created, granted];
    assert(events_view(r@) =~= seq![event_view(r@[0]), event_view(r@[1])]);
    r
}

/// The counts of a reference update, as payload fields.
pub open spec fn update_fields(object_id: u128, version_id: u128, u: ObjectReferenceUpdate) -> Seq<(Seq<char>, Field)> {
    seq![
        ("object_id"@, Field::Str(hyphenated(object_id))),
        ("version_id"@, Field::Str(hyphenated(version_id))),
        ("resolved_count"@, Field::Num(decimal(u.resolved_count as nat))),
        ("unresolved_count"@, Field::Num(decimal(u.unresolved_count as nat))),
        ("ambiguous_count"@, Field::Num(decimal(u.ambiguous_count as nat))),
        ("stale_count"@, Field::Num(decimal(u.stale_count as nat))),
    ]
}

/// The counts of a re-resolution, as payload fields.
pub open spec fn reresolution_fields(titles: Seq<Seq<char>>, s: ReferenceReresolutionSummary) -> Seq<(Seq<char>, Field)> {
    seq![
        ("affected_titles"@, Field::Strs(titles)),
        ("updated_count"@, Field::Num(decimal(s.updated_count as nat))),
        ("resolved_count"@, Field::Num(decimal(s.resolved_count as nat))),
        ("unresolved_count"@, Field::Num(decimal(s.unresolved_count as nat))),
        ("ambiguous_count"@, Field::Num(decimal(s.ambiguous_count as nat))),
    ]
}

/// The texts of the strings.
pub open spec fn texts(v: Seq<String>) -> Seq<Seq<char>> {
    v.map_values(|s: String| s@)
}

/// Appends the event of re-resolved wikilinks, when any reference row changed.
fn push_reresolution_event(
    events: &mut Vec<EventInsert>,
    actor: u128,
    workspace_id: u128,
    object_id: u128,
    titles: &Vec<String>,
    summary: ReferenceReresolutionSummary,
)
    ensures
        events_view(final(events)@) == events_view(old(events)@) + if summary.updated_count > 0 {
            seq![
                EventView {
                    workspace: Some(workspace_id),
                    object: Some(object_id),
                    ..bare(EventKind::ObjectWikilinksReresolved, actor, reresolution_fields(texts(titles@), summary))
                },
            ]
        } else {
            Seq::empty()
        },
{
    let ghost before = events_view(events@);
    if !summary.changed() {
        assert(events_view(events@) =~= before + Seq::<EventView>::empty());
        return;
    }
    let mut items: Vec<Json> = Vec::new();
    let mut i: usize = 0;
    while i < titles.len()
        invariant
            i <= titles@.len(),
            items@.len() == i,
            forall|k: int| 0 <= k < i ==> (#[trigger] items@[k]) is Str && str_of(items@[k]) == titles@[k]@,
        decreases titles@.len() - i,
    {
        items.push(Json::Str(titles[i].clone()));
        i += 1;
    }
    let ghost item_view = items@;
    let list = ("affected_titles".to_owned(), Json::Array(items));
    assert(field_view(list.1) == Field::Strs(texts(titles@))) by {
        assert(item_view.map_values(|x: Json| str_of(x)) =~= texts(titles@));
    }
    let a = count_field("updated_count", summary.updated_count);
    let b = count_field("resolved_count", summary.resolved_count);
    let c = count_field("unresolved_count", summary.unresolved_count);
    let d = count_field("ambiguous_count", summary.ambiguous_count);
    let fields = vec![list, a, b, c, d];
    let payload = object_payload(fields);
    assert(payload_view(payload) =~= reresolution_fields(texts(titles@), summary));
    let e = EventInsert::new(actor, EventKind::ObjectWikilinksReresolved, payload).workspace(workspace_id).object(object_id);
    events.push(e);
    assert(events_view(events@) =~= before + seq![event_view(e)]);
}

/// Appends the event of updated references, when recomputation changed or found any.
fn push_references_updated_event(
    events: &mut Vec<EventInsert>,
    actor: u128,
    workspace_id: u128,
    object_id: u128,
    version_id: u128,
    update: ObjectReferenceUpdate,
)
    ensures
        events_view(final(events)@) == events_view(old(events)@) + if update_changed(update) {
            seq![
                EventView {
                    workspace: Some(workspace_id),
                    object: Some(object_id),
                    object_version: Some(version_id),
                    ..bare(EventKind::ObjectReferencesUpdated, actor, update_fields(object_id, version_id, update))
                },
            ]
        } else {
            Seq::empty()
        },
{
    let ghost before = events_view(events@);
    if !update.changed() {
        assert(events_view(events@) =~= before + Seq::<EventView>::empty());
        return;
    }
    let a = id_field("object_id", object_id);
    let b = id_field("version_id", version_id);
    let c = count_field("resolved_count", update.resolved_count);
    let d = count_field("unresolved_count", update.unresolved_count);
    let f = count_field("ambiguous_count", update.ambiguous_count);
    let g = count_field("stale_count", update.stale_count);
    let payload = object_payload(vec![a, b, c, d, f, g]);
    assert(payload_view(payload) =~= update_fields(object_id, version_id, update));
    let e = EventInsert::new(actor, EventKind::ObjectReferencesUpdated, payload).workspace(workspace_id).object(
        object_id,
    ).object_version(version_id);
    events.push(e);
    assert(events_view(events@) =~= before + seq![event_view(e)]);
}

/// The reference events after a seeded object's creation: updated references when any changed
/// or were found, then re-resolved wikilinks of its title when any row changed.
pub fn reference_events(
    actor: u128,
    workspace_id: u128,
    object_id: u128,
    version_id: u128,
    title: &str,
    maintenance: ObjectReferenceMaintenance,
) -> (r: Vec<EventInsert>)
    ensures
        events_view(r@) == (if update_changed(maintenance.reference_update) {
            seq![
                EventView {
                    workspace: Some(workspace_id),
                    object: Some(object_id),
                    object_version: Some(version_id),
                    ..bare(
                        EventKind::ObjectReferencesUpdated,
                        actor,
                        update_fields(object_id, version_id, maintenance.reference_update),
                    )
                },
            ]
        } else {
            Seq::empty()
        }) + (if maintenance.reresolution.updated_count > 0 {
            seq![
                EventView {
                    workspace: Some(workspace_id),
                    object: Some(object_id),
                    ..bare(EventKind::ObjectWikilinksReresolved, actor, reresolution_fields(seq![title@], maintenance.reresolution))
                },
            ]
        } else {
            Seq::empty()
        }),
{
    let mut r: Vec<EventInsert> = Vec::new();
    assert(events_view(r@) =~= Seq::<EventView>::empty());
    push_references_updated_event(&mut r, actor, workspace_id, object_id, version_id, maintenance.reference_update);
    let titles = vec![title.to_owned()];
    assert(texts(titles@) =~= seq![title@]);
    push_reresolution_event(&mut r, actor, workspace_id, object_id, &titles, maintenance.reresolution);
    assert(Seq::<EventView>::empty() + events_view(r@) =~= events_view(r@));
    r
}

/// The events after a seeded object gained a version: the appended version, the update, then
/// updated references and re-resolved wikilinks of the affected titles, each when any changed.
pub open spec fn updated_events(
    actor: u128,
    workspace_id: u128,
    object_id: u128,
    version_id: u128,
    affected_titles: Seq<Seq<char>>,
    maintenance: ObjectReferenceMaintenance,
) -> Seq<EventView> {
    seq![
        EventView {
            workspace: Some(workspace_id),
            object: Some(object_id),
            object_version: Some(version_id),
            ..bare(
                EventKind::ObjectVersionAppended,
                actor,
                seq![
                    ("object_id"@, Field::Str(hyphenated(object_id))),
                    ("object_version_id"@, Field::Str(hyphenated(version_id))),
                ],
            )
        },
        EventView {
            workspace: Some(workspace_id),
            object: Some(object_id),
            object_version: Some(version_id),
            ..bare(EventKind::ObjectUpdated, actor, seq![("object_id"@, Field::Str(hyphenated(object_id)))])
        },
    ] + (if update_changed(maintenance.reference_update) {
        seq![
            EventView {
                workspace: Some(workspace_id),
                object: Some(object_id),
                object_version: Some(version_id),
                ..bare(
                    EventKind::ObjectReferencesUpdated,
                    actor,
                    update_fields(object_id, version_id, maintenance.reference_update),
                )
            },
        ]
    } else {
        Seq::empty()
    }) + (if maintenance.reresolution.updated_count > 0 {
        seq![
            EventView {
                workspace: Some(workspace_id),
                object: Some(object_id),
                ..bare(
                    EventKind::ObjectWikilinksReresolved,
                    actor,
                    reresolution_fields(affected_titles, maintenance.reresolution),
                )
            },
        ]
    } else {
        Seq::empty()
    })
}

/// Builds the events after a seeded object gained a version (see `updated_events`).
pub fn object_updated_events(
    actor: u128,
    workspace_id: u128,
    object_id: u128,
    version_id: u128,
    affected_titles: &Vec<String>,
    maintenance: ObjectReferenceMaintenance,
) -> (r: Vec<EventInsert>)
    ensures
        events_view(r@) == updated_events(actor, workspace_id, object_id, version_id, texts(affected_titles@), maintenance),
{
    let a = id_field("object_id", object_id);
    let b = id_field("object_version_id", version_id);
    let appended = EventInsert::new(actor, EventKind::ObjectVersionAppended, object_payload(vec![a, b])).workspace(
        workspace_id,
    ).object(object_id).object_version(version_id);
    let c = id_field("object_id", object_id);
    let updated = EventInsert::new(actor, EventKind::ObjectUpdated, object_payload(vec![c])).workspace(workspace_id).object(
        object_id,
    ).object_version(version_id);
    assert(payload_view(appended.payload) =~= seq![
        ("object_id"@, Field::Str(hyphenated(object_id))),
        ("object_version_id"@, Field::Str(hyphenated(version_id))),
    ]);
    assert(payload_view(updated.payload) =~= seq![("object_id"@, Field::Str(hyphenated(object_id)))]);
    let mut r = vec![appended, updated];
    let ghost head = events_view(r@);
    assert(head =~= seq![event_view(r@[0]), event_view(r@[1])]);
    push_references_updated_event(&mut r, actor, workspace_id, object_id, version_id, maintenance.reference_update);
    push_reresolution_event(&mut r, actor, workspace_id, object_id, affected_titles, maintenance.reresolution);
    r
}

/// The titles whose links an update affects: none when the title stays, else the previous and
/// the new one.
pub open spec fn title_change(previous_title: Seq<char>, new_title: Seq<char>) -> Seq<Seq<char>> {
    if previous_title == new_title {
        Seq::empty()
    } else {
        seq![previous_title, new_title]
    }
}

/// What updating a seeded object leads to.
#[derive(Debug)]
pub struct SeedUpdateEffects {
    /// The version that stands after the update.
    pub version_id: u128,
    /// Titles whose wikilinks are maintained.
    pub affected_titles: Vec<String>,
    /// Events to append, in order.
    pub events: Vec<EventInsert>,
}

/// Decides what an update of a seeded object leads to, from the version update's outcome
/// (whether it appended a version, the standing version, the previous and new titles) and the
/// reference maintenance done for the affected titles: an update that changed nothing keeps the
/// standing version and records nothing.
pub fn seed_update_effects(
    changed: bool,
    actor: u128,
    workspace_id: u128,
    object_id: u128,
    version_id: u128,
    previous_title: &str,
    new_title: &str,
    maintenance: ObjectReferenceMaintenance,
) -> (r: SeedUpdateEffects)
    ensures
        r.version_id == version_id,
        !changed ==> r.affected_titles@.len() == 0 && r.events@.len() == 0,
        changed ==> texts(r.affected_titles@) == title_change(previous_title@, new_title@),
        changed ==> events_view(r.events@) == updated_events(
            actor,
            workspace_id,
            object_id,
            version_id,
            title_change(previous_title@, new_title@),
            maintenance,
        ),
{
    if !changed {
        return SeedUpdateEffects { version_id, affected_titles: Vec::new(), events: Vec::new() };
    }
    let titles = affected_titles(previous_title, new_title);
    assert(texts(titles@) =~= title_change(previous_title@, new_title@));
    let events = object_updated_events(actor, workspace_id, object_id, version_id, &titles, maintenance);
    SeedUpdateEffects { version_id, affected_titles: titles, events }
}

/// The events after a seeded object was archived: the archive, then re-resolved wikilinks of
/// its title when any row changed.
pub fn object_archived_events(
    actor: u128,
    workspace_id: u128,
    object_id: u128,
    title: &str,
    summary: ReferenceReresolutionSummary,
) -> (r: Vec<EventInsert>)
    ensures
        events_view(r@) == seq![
            EventView {
                workspace: Some(workspace_id),
                object: Some(object_id),
                ..bare(EventKind::ObjectArchived, actor, seq![("object_id"@, Field::Str(hyphenated(object_id)))])
            },
        ] + (if summary.updated_count > 0 {
            seq![
                EventView {
                    workspace: Some(workspace_id),
                    object: Some(object_id),
                    ..bare(EventKind::ObjectWikilinksReresolved, actor, reresolution_fields(seq![title@], summary))
                },
            ]
        } else {
            Seq::empty()
        }),
{
    let a = id_field("object_id", object_id);
    let archived = EventInsert::new(actor, EventKind::ObjectArchived, object_payload(vec![a])).workspace(workspace_id).object(
        object_id,
    );
    assert(payload_view(archived.payload) =~= seq![("object_id"@, Field::Str(hyphenated(object_id)))]);
    let mut r = vec![archived];
    assert(events_view(r@) =~= seq![event_view(r@[0])]);
    let titles = vec![title.to_owned()];
    assert(texts(titles@) =~= seq![title@]);
    push_reresolution_event(&mut r, actor, workspace_id, object_id, &titles, summary);
    r
}

/// The event of a seeded relationship.
pub fn relationship_event(actor: u128, workspace_id: u128, edge_id: u128, source: u128, target: u128) -> (e: EventInsert)
    ensures
        event_view(e) == (EventView {
            workspace: Some(workspace_id),
            object: Some(source),
            object_edge: Some(edge_id),
            ..bare(
                EventKind::ObjectEdgeCreated,
                actor,
                seq![
                    ("object_edge_id"@, Field::Str(hyphenated(edge_id))),
                    ("source_object_id"@, Field::Str(hyphenated(source))),
                    ("target_object_id"@, Field::Str(hyphenated(target))),
                ],
            )
        }),
{
    let a = id_field("object_edge_id", edge_id);
    let b = id_field("source_object_id", source);
    let c = id_field("target_object_id", target);
    let e = EventInsert::new(actor, EventKind::ObjectEdgeCreated, object_payload(vec![a, b, c])).workspace(workspace_id).object(
        source,
    ).object_edge(edge_id);
    assert(payload_view(e.payload) =~= seq![
        ("object_edge_id"@, Field::Str(hyphenated(edge_id))),
        ("source_object_id"@, Field::Str(hyphenated(source))),
        ("target_object_id"@, Field::Str(hyphenated(target))),
    ]);
    e
}

/// The event of a seeded comment thread's first comment.
pub fn comment_created_event(actor: u128, workspace_id: u128, object_id: u128, thread_id: u128, comment_id: u128) -> (e:
    EventInsert)
    ensures
        event_view(e) == (EventView {
            workspace: Some(workspace_id),
            object: Some(object_id),
            comment_thread: Some(thread_id),
            comment: Some(comment_id),
            ..bare(
                EventKind::CommentCreated,
                actor,
                seq![("thread_id"@, Field::Str(hyphenated(thread_id))), ("comment_id"@, Field::Str(hyphenated(comment_id)))],
            )
        }),
{
    let a = id_field("thread_id", thread_id);
    let b = id_field("comment_id", comment_id);
    let e = EventInsert::new(actor, EventKind::CommentCreated, object_payload(vec![a, b])).workspace(workspace_id).object(
        object_id,
    ).comment_thread(thread_id).comment(comment_id);
    assert(payload_view(e.payload) =~= seq![
        ("thread_id"@, Field::Str(hyphenated(thread_id))),
        ("comment_id"@, Field::Str(hyphenated(comment_id))),
    ]);
    e
}

/// The event of a seeded reply, addressed to the thread's first author.
pub fn comment_replied_event(
    actor: u128,
    workspace_id: u128,
    thread: crate::seed::SeedCommentThreadState,
    comment_id: u128,
) -> (e: EventInsert)
    ensures
        event_view(e) == (EventView {
            workspace: Some(workspace_id),
            object: Some(thread.object_id),
            comment_thread: Some(thread.thread_id),
            comment: Some(comment_id),
            target_user: Some(thread.root_author_user_id),
            ..bare(
                EventKind::CommentReplied,
                actor,
                seq![
                    ("thread_id"@, Field::Str(hyphenated(thread.thread_id))),
                    ("comment_id"@, Field::Str(hyphenated(comment_id))),
                    ("parent_comment_id"@, Field::Str(hyphenated(thread.root_comment_id))),
                ],
            )
        }),
{
    let a = id_field("thread_id", thread.thread_id);
    let b = id_field("comment_id", comment_id);
    let c = id_field("parent_comment_id", thread.root_comment_id);
    let e = EventInsert::new(actor, EventKind::CommentReplied, object_payload(vec![a, b, c])).workspace(workspace_id).object(
        thread.object_id,
    ).comment_thread(thread.thread_id).comment(comment_id).target_user(thread.root_author_user_id);
    assert(payload_view(e.payload) =~= seq![
        ("thread_id"@, Field::Str(hyphenated(thread.thread_id))),
        ("comment_id"@, Field::Str(hyphenated(comment_id))),
        ("parent_comment_id"@, Field::Str(hyphenated(thread.root_comment_id))),
    ]);
    e
}

/// The event of a seeded thread resolution.
pub fn thread_resolved_event(actor: u128, workspace_id: u128, thread: crate::seed::SeedCommentThreadState) -> (e:
    EventInsert)
    ensures
        event_view(e) == (EventView {
            workspace: Some(workspace_id),
            object: Some(thread.object_id),
            comment_thread: Some(thread.thread_id),
            ..bare(EventKind::CommentThreadResolved, actor, seq![("thread_id"@, Field::Str(hyphenated(thread.thread_id)))])
        }),
{
    let a = id_field("thread_id", thread.thread_id);
    let e = EventInsert::new(actor, EventKind::CommentThreadResolved, object_payload(vec![a])).workspace(workspace_id).object(
        thread.object_id,
    ).comment_thread(thread.thread_id);
    assert(payload_view(e.payload) =~= seq![("thread_id"@, Field::Str(hyphenated(thread.thread_id)))]);
    e
}

/// The event of a disabled demo fixture user.
pub fn fixture_disabled_event(owner: u128, user_id: u128) -> (e: EventInsert)
    ensures
        event_view(e) == (EventView {
            target_user: Some(user_id),
            ..bare(
                EventKind::UserDisabled,
                owner,
                seq![("user_id"@, Field::Str(hyphenated(user_id))), ("demo_fixture"@, Field::Bool(true))],
            )
        }),
{
    let a = id_field("user_id", user_id);
    let b = fixture_field();
    let e = EventInsert::new(owner, EventKind::UserDisabled, object_payload(vec![a, b])).target_user(user_id);
    assert(payload_view(e.payload) =~= seq![
        ("user_id"@, Field::Str(hyphenated(user_id))),
        ("demo_fixture"@, Field::Bool(true)),
    ]);
    e
}

/// The events of a provisioned demo actor: the fixture user, then its workspace membership.
pub fn demo_actor_events(
    owner: u128,
    workspace_id: u128,
    user_id: u128,
    username: &str,
    role: &str,
    department: &str,
    membership_id: u128,
    workspace_role: &str,
) -> (r: Vec<EventInsert>)
    ensures
        events_view(r@) == seq![
            EventView {
                target_user: Some(user_id),
                ..bare(
                    EventKind::UserCreated,
                    owner,
                    seq![
                        ("user_id"@, Field::Str(hyphenated(user_id))),
                        ("username"@, Field::Str(username@)),
                        ("role"@, Field::Str(role@)),
                        ("department"@, Field::Str(department@)),
                        ("demo_fixture"@, Field::Bool(true)),
                    ],
                )
            },
            EventView {
                workspace: Some(workspace_id),
                target_user: Some(user_id),
                ..bare(
                    EventKind::WorkspaceMembershipCreated,
                    owner,
                    seq![
                        ("workspace_membership_id"@, Field::Str(hyphenated(membership_id))),
                        ("workspace_role"@, Field::Str(workspace_role@)),
                        ("demo_fixture"@, Field::Bool(true)),
                    ],
                )
            },
        ],
{
    let a = id_field("user_id", user_id);
    let b = text_field("username", username);
    let c = text_field("role", role);
    let d = text_field("department", department);
    let f = fixture_field();
    let created = EventInsert::new(owner, EventKind::UserCreated, object_payload(vec![a, b, c, d, f])).target_user(user_id);
    assert(payload_view(created.payload) =~= seq![
        ("user_id"@, Field::Str(hyphenated(user_id))),
        ("username"@, Field::Str(username@)),
        ("role"@, Field::Str(role@)),
        ("department"@, Field::Str(department@)),
        ("demo_fixture"@, Field::Bool(true)),
    ]);
    let g = id_field("workspace_membership_id", membership_id);
    let h = text_field("workspace_role", workspace_role);
    let k = fixture_field();
    let member = EventInsert::new(owner, EventKind::WorkspaceMembershipCreated, object_payload(vec![g, h, k])).workspace(
        workspace_id,
    ).target_user(user_id);
    assert(payload_view(member.payload) =~= seq![
        ("workspace_membership_id"@, Field::Str(hyphenated(membership_id))),
        ("workspace_role"@, Field::Str(workspace_role@)),
        ("demo_fixture"@, Field::Bool(true)),
    ]);
    let r = vec![created, member];
    assert(events_view(r@) =~= seq![event_view(r@[0]), event_view(r@[1])]);
    r
}

/// The events of a provisioned demo group: the group, then its link to the workspace.
pub fn demo_group_events(owner: u128, workspace_id: u128, group_id: u128, workspace_group_id: u128) -> (r: Vec<
    EventInsert,
>)
    ensures
        events_view(r@) == seq![
            EventView {
                group: Some(group_id),
                ..bare(
                    EventKind::GroupCreated,
                    owner,
                    seq![("group_id"@, Field::Str(hyphenated(group_id))), ("demo_fixture"@, Field::Bool(true))],
                )
            },
            EventView {
                workspace: Some(workspace_id),
                group: Some(group_id),
                ..bare(
                    EventKind::WorkspaceGroupLinked,
                    owner,
                    seq![
                        ("workspace_group_id"@, Field::Str(hyphenated(workspace_group_id))),
                        ("demo_fixture"@, Field::Bool(true)),
                    ],
                )
            },
        ],
{
    let a = id_field("group_id", group_id);
    let b = fixture_field();
    let created = EventInsert::new(owner, EventKind::GroupCreated, object_payload(vec![a, b])).group(group_id);
    assert(payload_view(created.payload) =~= seq![
        ("group_id"@, Field::Str(hyphenated(group_id))),
        ("demo_fixture"@, Field::Bool(true)),
    ]);
    let c = id_field("workspace_group_id", workspace_group_id);
    let d = fixture_field();
    let linked = EventInsert::new(owner, EventKind::WorkspaceGroupLinked, object_payload(vec![c, d])).workspace(
        workspace_id,
    ).group(group_id);
    assert(payload_view(linked.payload) =~= seq![
        ("workspace_group_id"@, Field::Str(hyphenated(workspace_group_id))),
        ("demo_fixture"@, Field::Bool(true)),
    ]);
    let r = vec![created, linked];
    assert(events_view(r@) =~= seq![event_view(r@[0]), event_view(r@[1])]);
    r
}

/// The event of a demo group membership.
pub fn demo_group_membership_event(owner: u128, group_id: u128, user_id: u128, membership_id: u128, group_role: &str) -> (e:
    EventInsert)
    ensures
        event_view(e) == (EventView {
            group: Some(group_id),
            target_user: Some(user_id),
            ..bare(
                EventKind::GroupMembershipCreated,
                owner,
                seq![
                    ("group_membership_id"@, Field::Str(hyphenated(membership_id))),
                    ("group_role"@, Field::Str(group_role@)),
                    ("demo_fixture"@, Field::Bool(true)),
                ],
            )
        }),
{
    let a = id_field("group_membership_id", membership_id);
    let b = text_field("group_role", group_role);
    let c = fixture_field();
    let e = EventInsert::new(owner, EventKind::GroupMembershipCreated, object_payload(vec![a, b, c])).group(group_id).target_user(
        user_id,
    );
    assert(payload_view(e.payload) =~= seq![
        ("group_membership_id"@, Field::Str(hyphenated(membership_id))),
        ("group_role"@, Field::Str(group_role@)),
        ("demo_fixture"@, Field::Bool(true)),
    ]);
    e
}

/// The event of a grant made by a demo access profile, addressed to the user or group that
/// receives it.
pub fn demo_grant_event(
    owner: u128,
    workspace_id: u128,
    object_id: u128,
    grant_id: u128,
    grant: crate::demo_seed::DemoGrant,
    role_name: &str,
    profile_key: &str,
) -> (e: EventInsert)
    ensures
        event_view(e) == (EventView {
            workspace: Some(workspace_id),
            object: Some(object_id),
            object_grant: Some(grant_id),
            target_user: match grant.principal {
                crate::demo_seed::GrantPrincipal::User(u) => Some(u),
                _ => None,
            },
            group: match grant.principal {
                crate::demo_seed::GrantPrincipal::Group(g) => Some(g),
                _ => None,
            },
            ..bare(
                EventKind::ObjectGrantCreated,
                owner,
                seq![
                    ("object_grant_id"@, Field::Str(hyphenated(grant_id))),
                    ("object_role"@, Field::Str(role_name@)),
                    ("demo_fixture"@, Field::Bool(true)),
                    ("access_profile"@, Field::Str(profile_key@)),
                ],
            )
        }),
{
    let a = id_field("object_grant_id", grant_id);
    let b = text_field("object_role", role_name);
    let c = fixture_field();
    let d = text_field("access_profile", profile_key);
    let mut e = EventInsert::new(owner, EventKind::ObjectGrantCreated, object_payload(vec![a, b, c, d])).workspace(
        workspace_id,
    ).object(object_id).object_grant(grant_id);
    assert(payload_view(e.payload) =~= seq![
        ("object_grant_id"@, Field::Str(hyphenated(grant_id))),
        ("object_role"@, Field::Str(role_name@)),
        ("demo_fixture"@, Field::Bool(true)),
        ("access_profile"@, Field::Str(profile_key@)),
    ]);
    match grant.principal {
        crate::demo_seed::GrantPrincipal::User(u) => {
            e = e.target_user(u);
        },
        crate::demo_seed::GrantPrincipal::Group(g) => {
            e = e.group(g);
        },
    }
    e
}

} // verus!
