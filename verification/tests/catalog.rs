use kival::catalog::{
    Catalog, CatalogError, DemoAccessGrant, DemoAccessProfile, DemoActor, DemoGroup, DemoRecipe,
    DemoSeedAction, Json, SeedAction, TemplateRecipe, WorkspaceInitializerKind,
};
use kival::initializers::{
    resolve_initializer, validate_catalog, workspace_initializers, WorkspaceInitializer,
};

fn s(v: &str) -> String {
    v.to_string()
}

fn empty_metadata() -> Json {
    Json::Object(Vec::new())
}

fn project_template() -> TemplateRecipe {
    TemplateRecipe {
        id: s("project"),
        name: s("Project workspace"),
        description: Some(s("Plans, decisions and notes")),
        actions: vec![
            SeedAction::CreateObject {
                key: s("plan"),
                title: s("Plan"),
                body: s("See [[Decisions]]."),
                metadata: Json::Object(vec![(s("status"), Json::Str(s("draft")))]),
            },
            SeedAction::CreateObject {
                key: s("decisions"),
                title: s("Decisions"),
                body: s("Decision log"),
                metadata: empty_metadata(),
            },
            SeedAction::CreateRelationship { source: s("plan"), target: s("decisions") },
            SeedAction::UpdateObject {
                object: s("plan"),
                title: None,
                body: Some(s("Updated plan")),
                metadata: None,
            },
        ],
    }
}

fn acme_demo() -> DemoRecipe {
    DemoRecipe {
        id: s("acme"),
        name: s("Acme demo"),
        description: None,
        actors: vec![
            (
                s("alice"),
                DemoActor {
                    username: s("alice"),
                    display_name: s("Alice Example"),
                    role: s("Engineer"),
                    department: s("R&D"),
                },
            ),
            (
                s("bob"),
                DemoActor {
                    username: s("bob.demo"),
                    display_name: s("Bob Example"),
                    role: s("Designer"),
                    department: s("Design"),
                },
            ),
        ],
        groups: vec![(
            s("team"),
            DemoGroup {
                name: s("Team"),
                description: Some(s("Everyone")),
                members: vec![(s("alice"), s("admin")), (s("bob"), s("member"))],
            },
        )],
        access_profiles: vec![(
            s("shared"),
            DemoAccessProfile {
                grants: vec![DemoAccessGrant { actor: None, group: Some(s("team")), role: s("editor") }],
            },
        )],
        owner_pins: vec![s("roadmap")],
        owner_favorites: vec![s("roadmap")],
        actions: vec![
            DemoSeedAction {
                actor: s("alice"),
                access: Some(s("shared")),
                action: SeedAction::CreateObject {
                    key: s("roadmap"),
                    title: s("Roadmap"),
                    body: s("Quarterly roadmap"),
                    metadata: empty_metadata(),
                },
            },
            DemoSeedAction {
                actor: s("bob"),
                access: None,
                action: SeedAction::CreateCommentThread {
                    key: s("question"),
                    object: s("roadmap"),
                    body: s("What ships first?"),
                },
            },
            DemoSeedAction {
                actor: s("alice"),
                access: None,
                action: SeedAction::ReplyToCommentThread { thread: s("question"), body: s("The editor.") },
            },
            DemoSeedAction {
                actor: s("bob"),
                access: None,
                action: SeedAction::UpdateObject {
                    object: s("roadmap"),
                    title: Some(s("Roadmap 2025")),
                    body: None,
                    metadata: None,
                },
            },
        ],
    }
}

fn catalog() -> Catalog {
    Catalog { schema_version: 1, templates: vec![project_template()], demos: vec![acme_demo()] }
}

#[test]
fn bundled_catalog_is_valid_and_contains_both_initializer_kinds() {
    let catalog = catalog();
    validate_catalog(&catalog).expect("bundled catalog should validate");

    let initializers = workspace_initializers(&catalog).expect("initializers should load");
    assert!(initializers.iter().any(|item| item.kind == WorkspaceInitializerKind::Template));
    assert!(initializers.iter().any(|item| item.kind == WorkspaceInitializerKind::Demo));
}

#[test]
fn initializer_kind_mismatch_suggests_the_correct_flag() {
    let catalog = catalog();

    let template = WorkspaceInitializer::template(s("acme"));
    let error = resolve_initializer(&catalog, Some(&template))
        .err()
        .expect("demo selected as template should fail");
    assert_eq!(
        error.message(),
        "initializer \"acme\" is a demo scenario; use `--demo acme` instead of `--template`"
    );

    let demo = WorkspaceInitializer::demo(s("project"));
    let error = resolve_initializer(&catalog, Some(&demo))
        .err()
        .expect("template selected as demo should fail");
    assert_eq!(
        error.message(),
        "initializer \"project\" is a reusable template; use `--template project` instead of `--demo`"
    );
}

#[test]
fn unknown_initializers_are_reported() {
    let catalog = catalog();
    let missing = WorkspaceInitializer::template(s("nothing"));
    assert!(matches!(
        resolve_initializer(&catalog, Some(&missing)),
        Err(CatalogError::UnknownTemplate(id)) if id == "nothing"
    ));
    assert!(matches!(resolve_initializer(&catalog, None), Ok(None)));
}

#[test]
fn schema_version_must_match() {
    let mut catalog = catalog();
    catalog.schema_version = 2;
    let error = validate_catalog(&catalog).expect_err("wrong schema should fail");
    assert_eq!(
        error.message(),
        "unsupported workspace initializer catalog schema version 2; expected 1"
    );
}

#[test]
fn duplicate_template_ids_are_rejected() {
    let mut catalog = catalog();
    catalog.templates.push(project_template());
    let error = validate_catalog(&catalog).expect_err("duplicate ID should fail");
    assert_eq!(error.message(), "duplicate template initializer ID \"project\"");
}

#[test]
fn update_before_create_is_rejected() {
    let mut catalog = catalog();
    catalog.templates[0].actions.insert(
        0,
        SeedAction::UpdateObject { object: s("plan"), title: Some(s("x")), body: None, metadata: None },
    );
    assert!(validate_catalog(&catalog).is_err());
}

#[test]
fn demo_actor_must_have_access_to_archive() {
    let mut catalog = catalog();
    catalog.demos[0].actions.push(DemoSeedAction {
        actor: s("bob"),
        access: None,
        action: SeedAction::ArchiveObject { object: s("roadmap") },
    });
    let error = validate_catalog(&catalog).expect_err("bob only edits the roadmap");
    assert_eq!(
        error.message(),
        "demo \"acme\" actor \"bob\" lacks admin access to object \"roadmap\""
    );
}

#[test]
fn demo_actor_usernames_are_checked() {
    let mut catalog = catalog();
    catalog.demos[0].actors[1].1.username = s("Bob");
    let error = validate_catalog(&catalog).expect_err("upper case is not allowed");
    assert_eq!(error.message(), "demo actor \"bob\" has invalid username \"Bob\"");
}

#[test]
fn listed_initializers_carry_names_and_descriptions() {
    let list = workspace_initializers(&catalog()).expect("valid catalog");
    assert_eq!(list.len(), 2);
    assert_eq!(list[0].kind, WorkspaceInitializerKind::Template);
    assert_eq!(list[0].id, "project");
    assert_eq!(list[0].description.as_deref(), Some("Plans, decisions and notes"));
    assert_eq!(list[1].kind, WorkspaceInitializerKind::Demo);
    assert_eq!(list[1].id, "acme");
    assert_eq!(list[1].description, None);
}
