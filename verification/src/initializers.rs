//! Whole-catalog validation and initializer selection.
use vstd::prelude::*;
use crate::actions::{actions_check, demo_actions, empty_scope, validate_actions, validate_demo_seed_actions};
use crate::catalog::{
    Catalog, CatalogError, DemoActor, DemoRecipe, DemoSeedAction, OwnerMarker, SeedAction,
    TemplateRecipe, WorkspaceInitializerKind,
};
use crate::demos::{
    access_check, contains_key, demo_actor_check, empty_access_scope, groups_check, has_key,
    identity_check, profiles_check, recipe_ids_check, validate_demo_access_profiles,
    validate_demo_action_access, validate_demo_actor, validate_demo_groups, validate_identity,
    validate_recipe_ids,
};
use crate::strset::StrSet;
use crate::text::{ascii_lowercase, to_ascii_lowercase};

verus! {

/// Schema version understood by the catalog validator.
pub const SCHEMA_VERSION: u32 = 1;

/// The first failure of `a`, else the outcome of `b`.
pub open spec fn then(a: Result<(), CatalogError>, b: Result<(), CatalogError>) -> Result<(), CatalogError> {
    if a is Err {
        a
    } else {
        b
    }
}

/// Keys of the objects created by a demo's actions.
pub open spec fn created_keys(actions: Seq<DemoSeedAction>) -> Set<Seq<char>> {
    Set::new(
        |k: Seq<char>|
            exists|i: int|
                0 <= i < actions.len() && (#[trigger] actions[i]).action is CreateObject
                    && actions[i].action->CreateObject_key@ == k,
    )
}

/// Keys of the objects archived by a demo's actions.
pub open spec fn archived_keys(actions: Seq<DemoSeedAction>) -> Set<Seq<char>> {
    Set::new(
        |k: Seq<char>|
            exists|i: int|
                0 <= i < actions.len() && (#[trigger] actions[i]).action is ArchiveObject
                    && actions[i].action->ArchiveObject_object@ == k,
    )
}

/// Outcome of checking one list of owner markers, given the keys seen before.
pub open spec fn markers_check(
    recipe: DemoRecipe,
    kind: OwnerMarker,
    keys: Seq<String>,
    seen: Set<Seq<char>>,
) -> Result<(), CatalogError>
    decreases keys.len(),
{
    if keys.len() == 0 {
        Ok(())
    } else {
        let k = keys[0];
        if !created_keys(recipe.actions@).contains(k@) {
            Err(CatalogError::OwnerMarkerUnknown(recipe.id, kind, k))
        } else if archived_keys(recipe.actions@).contains(k@) {
            Err(CatalogError::OwnerMarkerArchived(recipe.id, kind, k))
        } else if seen.contains(k@) {
            Err(CatalogError::OwnerMarkerDuplicate(recipe.id, kind, k))
        } else {
            markers_check(recipe, kind, keys.drop_first(), seen.insert(k@))
        }
    }
}

/// Outcome of checking a demo's owner pins, then its owner favorites.
pub open spec fn owner_markers_check(recipe: DemoRecipe) -> Result<(), CatalogError> {
    then(
        markers_check(recipe, OwnerMarker::Pin, recipe.owner_pins@, Set::empty()),
        markers_check(recipe, OwnerMarker::Favorite, recipe.owner_favorites@, Set::empty()),
    )
}

/// Checks one list of owner markers.
fn validate_markers(
    recipe: &DemoRecipe,
    kind: OwnerMarker,
    keys: &Vec<String>,
    created: &StrSet,
    archived: &StrSet,
) -> (r: Result<(), CatalogError>)
    requires
        created@ == created_keys(recipe.actions@),
        archived@ == archived_keys(recipe.actions@),
    ensures
        r == markers_check(*recipe, kind, keys@, Set::empty()),
{
    let mut seen = StrSet::new();
    let mut i: usize = 0;
    assert(keys@.skip(0) =~= keys@);
    while i < keys.len()
        invariant
            i <= keys@.len(),
            created@ == created_keys(recipe.actions@),
            archived@ == archived_keys(recipe.actions@),
            markers_check(*recipe, kind, keys@, Set::empty()) == markers_check(
                *recipe,
                kind,
                keys@.skip(i as int),
                seen@,
            ),
        decreases keys.len() - i,
    {
        assert(keys@.skip(i as int)[0] == keys@[i as int]);
        assert(keys@.skip(i as int).drop_first() =~= keys@.skip(i + 1));
        let key = &keys[i];
        if !created.contains(key) {
            return Err(CatalogError::OwnerMarkerUnknown(recipe.id.clone(), kind, key.clone()));
        }
        if archived.contains(key) {
            return Err(CatalogError::OwnerMarkerArchived(recipe.id.clone(), kind, key.clone()));
        }
        if !seen.insert(key) {
            return Err(CatalogError::OwnerMarkerDuplicate(recipe.id.clone(), kind, key.clone()));
        }
        i += 1;
    }
    assert(keys@.skip(i as int) =~= Seq::<String>::empty());
    Ok(())
}

/// Validates demo owner pins and favorites against objects declared by the recipe.
pub fn validate_demo_owner_markers(recipe: &DemoRecipe) -> (r: Result<(), CatalogError>)
    ensures
        r == owner_markers_check(*recipe),
{
    let mut created = StrSet::new();
    let mut archived = StrSet::new();
    let mut i: usize = 0;
    while i < recipe.actions.len()
        invariant
            i <= recipe.actions@.len(),
            created@ == created_keys(recipe.actions@.take(i as int)),
            archived@ == archived_keys(recipe.actions@.take(i as int)),
        decreases recipe.actions.len() - i,
    {
        let ghost prev = recipe.actions@.take(i as int);
        let ghost next = recipe.actions@.take(i + 1);
        assert(next =~= prev.push(recipe.actions@[i as int]));
        match &recipe.actions[i].action {
            SeedAction::CreateObject { key, .. } => {
                created.insert(key);
            },
            SeedAction::ArchiveObject { object } => {
                archived.insert(object);
            },
            _ => {},
        }
        assert(created@ =~= created_keys(next)) by {
            assert forall|k: Seq<char>| created_keys(next).contains(k) implies created@.contains(k) by {
                let j = choose|j: int|
                    0 <= j < next.len() && (#[trigger] next[j]).action is CreateObject
                        && next[j].action->CreateObject_key@ == k;
                if j < prev.len() {
                    assert(prev[j] == next[j]);
                }
            }
            assert forall|k: Seq<char>| created@.contains(k) implies created_keys(next).contains(k) by {
                if created_keys(prev).contains(k) {
                    let j = choose|j: int|
                        0 <= j < prev.len() && (#[trigger] prev[j]).action is CreateObject
                            && prev[j].action->CreateObject_key@ == k;
                    assert(next[j] == prev[j]);
                } else {
                    assert(next[i as int] == recipe.actions@[i as int]);
                }
            }
        }
        assert(archived@ =~= archived_keys(next)) by {
            assert forall|k: Seq<char>| archived_keys(next).contains(k) implies archived@.contains(k) by {
                let j = choose|j: int|
                    0 <= j < next.len() && (#[trigger] next[j]).action is ArchiveObject
                        && next[j].action->ArchiveObject_object@ == k;
                if j < prev.len() {
                    assert(prev[j] == next[j]);
                }
            }
            assert forall|k: Seq<char>| archived@.contains(k) implies archived_keys(next).contains(k) by {
                if archived_keys(prev).contains(k) {
                    let j = choose|j: int|
                        0 <= j < prev.len() && (#[trigger] prev[j]).action is ArchiveObject
                            && prev[j].action->ArchiveObject_object@ == k;
                    assert(next[j] == prev[j]);
                } else {
                    assert(next[i as int] == recipe.actions@[i as int]);
                }
            }
        }
        i += 1;
    }
    assert(recipe.actions@.take(i as int) =~= recipe.actions@);
    match validate_markers(recipe, OwnerMarker::Pin, &recipe.owner_pins, &created, &archived) {
        Err(e) => return Err(e),
        Ok(()) => {},
    }
    validate_markers(recipe, OwnerMarker::Favorite, &recipe.owner_favorites, &created, &archived)
}

/// Outcome of checking the actors of a demo, given the lowercased usernames seen before.
pub open spec fn actors_check(recipe: DemoRecipe, actors: Seq<(String, DemoActor)>, usernames: Set<Seq<char>>) -> Result<
    (),
    CatalogError,
>
    decreases actors.len(),
{
    if actors.len() == 0 {
        Ok(())
    } else {
        let key = actors[0].0;
        let actor = actors[0].1;
        if demo_actor_check(key, actor) is Err {
            demo_actor_check(key, actor)
        } else if usernames.contains(ascii_lowercase(actor.username@)) {
            Err(CatalogError::DuplicateActorUsername(recipe.id, actor.username))
        } else {
            actors_check(recipe, actors.drop_first(), usernames.insert(ascii_lowercase(actor.username@)))
        }
    }
}

/// Outcome of checking which actor and access profile each demo action names.
pub open spec fn seeded_refs_check(recipe: DemoRecipe, actions: Seq<DemoSeedAction>) -> Result<(), CatalogError>
    decreases actions.len(),
{
    if actions.len() == 0 {
        Ok(())
    } else {
        let d = actions[0];
        if !has_key(recipe.actors@, d.actor@) {
            Err(CatalogError::ActionUnknownActor(recipe.id, d.actor))
        } else {
            match d.action {
                SeedAction::CreateObject { key, .. } => match d.access {
                    None => Err(CatalogError::ObjectWithoutProfile(recipe.id, key)),
                    Some(p) => if !has_key(recipe.access_profiles@, p@) {
                        Err(CatalogError::ObjectUnknownProfile(recipe.id, key, p))
                    } else {
                        seeded_refs_check(recipe, actions.drop_first())
                    },
                },
                _ => if d.access is Some {
                    Err(CatalogError::ProfileOnNonCreate(recipe.id))
                } else {
                    seeded_refs_check(recipe, actions.drop_first())
                },
            }
        }
    }
}

/// Outcome of validating one demo scenario.
pub open spec fn demo_check(d: DemoRecipe) -> Result<(), CatalogError> {
    then(
        identity_check(d.id, d.name, WorkspaceInitializerKind::Demo),
        if d.actors@.len() == 0 {
            Err(CatalogError::DemoWithoutActors(d.id))
        } else {
            then(
                actors_check(d, d.actors@, Set::empty()),
                then(
                    groups_check(d, d.groups@, Set::empty()),
                    then(
                        profiles_check(d, d.access_profiles@),
                        then(
                            seeded_refs_check(d, d.actions@),
                            then(
                                actions_check(demo_actions(d.actions@), empty_scope()),
                                then(
                                    access_check(d, d.actions@, empty_access_scope()),
                                    owner_markers_check(d),
                                ),
                            ),
                        ),
                    ),
                ),
            )
        },
    )
}

/// Outcome of validating the templates in order.
pub open spec fn templates_check(ts: Seq<TemplateRecipe>) -> Result<(), CatalogError>
    decreases ts.len(),
{
    if ts.len() == 0 {
        Ok(())
    } else {
        then(
            identity_check(ts[0].id, ts[0].name, WorkspaceInitializerKind::Template),
            then(actions_check(ts[0].actions@, empty_scope()), templates_check(ts.drop_first())),
        )
    }
}

/// Outcome of validating the demos in order.
pub open spec fn demos_check(ds: Seq<DemoRecipe>) -> Result<(), CatalogError>
    decreases ds.len(),
{
    if ds.len() == 0 {
        Ok(())
    } else {
        then(demo_check(ds[0]), demos_check(ds.drop_first()))
    }
}

/// Identifiers of the templates.
pub open spec fn template_ids(ts: Seq<TemplateRecipe>) -> Seq<String> {
    ts.map_values(|t: TemplateRecipe| t.id)
}

/// Identifiers of the demos.
pub open spec fn demo_ids(ds: Seq<DemoRecipe>) -> Seq<String> {
    ds.map_values(|d: DemoRecipe| d.id)
}

/// Outcome of validating a whole catalog: versioning, identities, demo actors and action ordering.
pub open spec fn catalog_check(c: Catalog) -> Result<(), CatalogError> {
    if c.schema_version != SCHEMA_VERSION {
        Err(CatalogError::UnsupportedSchemaVersion(c.schema_version))
    } else {
        then(
            recipe_ids_check(template_ids(c.templates@), WorkspaceInitializerKind::Template),
            then(
                recipe_ids_check(demo_ids(c.demos@), WorkspaceInitializerKind::Demo),
                then(templates_check(c.templates@), demos_check(c.demos@)),
            ),
        )
    }
}

/// Checks the actors of a demo and the uniqueness of their usernames.
fn validate_demo_actors(recipe: &DemoRecipe) -> (r: Result<(), CatalogError>)
    ensures
        r == actors_check(*recipe, recipe.actors@, Set::empty()),
{
    let mut usernames = StrSet::new();
    let mut i: usize = 0;
    assert(recipe.actors@.skip(0) =~= recipe.actors@);
    while i < recipe.actors.len()
        invariant
            i <= recipe.actors@.len(),
            actors_check(*recipe, recipe.actors@, Set::empty()) == actors_check(
                *recipe,
                recipe.actors@.skip(i as int),
                usernames@,
            ),
        decreases recipe.actors.len() - i,
    {
        assert(recipe.actors@.skip(i as int)[0] == recipe.actors@[i as int]);
        assert(recipe.actors@.skip(i as int).drop_first() =~= recipe.actors@.skip(i + 1));
        let key = &recipe.actors[i].0;
        let actor = &recipe.actors[i].1;
        match validate_demo_actor(key, actor) {
            Err(e) => return Err(e),
            Ok(()) => {},
        }
        let lower = to_ascii_lowercase(actor.username.as_str());
        if !usernames.insert(&lower) {
            return Err(CatalogError::DuplicateActorUsername(recipe.id.clone(), actor.username.clone()));
        }
        i += 1;
    }
    assert(recipe.actors@.skip(i as int) =~= Seq::<(String, DemoActor)>::empty());
    Ok(())
}

/// Checks the actor and access profile named by each demo action.
fn validate_seeded_refs(recipe: &DemoRecipe) -> (r: Result<(), CatalogError>)
    ensures
        r == seeded_refs_check(*recipe, recipe.actions@),
{
    let mut i: usize = 0;
    assert(recipe.actions@.skip(0) =~= recipe.actions@);
    while i < recipe.actions.len()
        invariant
            i <= recipe.actions@.len(),
            seeded_refs_check(*recipe, recipe.actions@) == seeded_refs_check(*recipe, recipe.actions@.skip(i as int)),
        decreases recipe.actions.len() - i,
    {
        assert(recipe.actions@.skip(i as int)[0] == recipe.actions@[i as int]);
        assert(recipe.actions@.skip(i as int).drop_first() =~= recipe.actions@.skip(i + 1));
        let seeded = &recipe.actions[i];
        if !contains_key(&recipe.actors, &seeded.actor) {
            return Err(CatalogError::ActionUnknownActor(recipe.id.clone(), seeded.actor.clone()));
        }
        match &seeded.action {
            SeedAction::CreateObject { key, .. } => {
                match &seeded.access {
                    None => return Err(CatalogError::ObjectWithoutProfile(recipe.id.clone(), key.clone())),
                    Some(p) => {
                        if !contains_key(&recipe.access_profiles, p) {
                            return Err(
                                CatalogError::ObjectUnknownProfile(recipe.id.clone(), key.clone(), p.clone()),
                            );
                        }
                    },
                }
            },
            _ => {
                if seeded.access.is_some() {
                    return Err(CatalogError::ProfileOnNonCreate(recipe.id.clone()));
                }
            },
        }
        i += 1;
    }
    assert(recipe.actions@.skip(i as int) =~= Seq::<DemoSeedAction>::empty());
    Ok(())
}

/// Validates one demo scenario.
fn validate_demo(recipe: &DemoRecipe) -> (r: Result<(), CatalogError>)
    ensures
        r == demo_check(*recipe),
{
    match validate_identity(&recipe.id, &recipe.name, WorkspaceInitializerKind::Demo) {
        Err(e) => return Err(e),
        Ok(()) => {},
    }
    if recipe.actors.len() == 0 {
        return Err(CatalogError::DemoWithoutActors(recipe.id.clone()));
    }
    match validate_demo_actors(recipe) {
        Err(e) => return Err(e),
        Ok(()) => {},
    }
    match validate_demo_groups(recipe) {
        Err(e) => return Err(e),
        Ok(()) => {},
    }
    match validate_demo_access_profiles(recipe) {
        Err(e) => return Err(e),
        Ok(()) => {},
    }
    match validate_seeded_refs(recipe) {
        Err(e) => return Err(e),
        Ok(()) => {},
    }
    match validate_demo_seed_actions(&recipe.actions) {
        Err(e) => return Err(e),
        Ok(()) => {},
    }
    match validate_demo_action_access(recipe) {
        Err(e) => return Err(e),
        Ok(()) => {},
    }
    validate_demo_owner_markers(recipe)
}

/// Validates catalog versioning, identities, demo actors, and action ordering.
pub fn validate_catalog(catalog: &Catalog) -> (r: Result<(), CatalogError>)
    ensures
        r == catalog_check(*catalog),
{
    if catalog.schema_version != SCHEMA_VERSION {
        return Err(CatalogError::UnsupportedSchemaVersion(catalog.schema_version));
    }
    let mut tids: Vec<String> = Vec::new();
    let mut i: usize = 0;
    while i < catalog.templates.len()
        invariant
            i <= catalog.templates@.len(),
            tids@ == template_ids(catalog.templates@.take(i as int)),
        decreases catalog.templates.len() - i,
    {
        tids.push(catalog.templates[i].id.clone());
        assert(template_ids(catalog.templates@.take(i + 1)) =~= template_ids(catalog.templates@.take(i as int)).push(
            catalog.templates@[i as int].id,
        ));
        i += 1;
    }
    assert(catalog.templates@.take(i as int) =~= catalog.templates@);
    let mut dids: Vec<String> = Vec::new();
    let mut i: usize = 0;
    while i < catalog.demos.len()
        invariant
            i <= catalog.demos@.len(),
            dids@ == demo_ids(catalog.demos@.take(i as int)),
        decreases catalog.demos.len() - i,
    {
        dids.push(catalog.demos[i].id.clone());
        assert(demo_ids(catalog.demos@.take(i + 1)) =~= demo_ids(catalog.demos@.take(i as int)).push(
            catalog.demos@[i as int].id,
        ));
        i += 1;
    }
    assert(catalog.demos@.take(i as int) =~= catalog.demos@);
    match validate_recipe_ids(&tids, WorkspaceInitializerKind::Template) {
        Err(e) => return Err(e),
        Ok(()) => {},
    }
    match validate_recipe_ids(&dids, WorkspaceInitializerKind::Demo) {
        Err(e) => return Err(e),
        Ok(()) => {},
    }
    let mut i: usize = 0;
    assert(catalog.templates@.skip(0) =~= catalog.templates@);
    while i < catalog.templates.len()
        invariant
            i <= catalog.templates@.len(),
            templates_check(catalog.templates@) == templates_check(catalog.templates@.skip(i as int)),
            catalog.schema_version == SCHEMA_VERSION,
            recipe_ids_check(template_ids(catalog.templates@), WorkspaceInitializerKind::Template) is Ok,
            recipe_ids_check(demo_ids(catalog.demos@), WorkspaceInitializerKind::Demo) is Ok,
        decreases catalog.templates.len() - i,
    {
        assert(catalog.templates@.skip(i as int)[0] == catalog.templates@[i as int]);
        assert(catalog.templates@.skip(i as int).drop_first() =~= catalog.templates@.skip(i + 1));
        let recipe = &catalog.templates[i];
        match validate_identity(&recipe.id, &recipe.name, WorkspaceInitializerKind::Template) {
            Err(e) => return Err(e),
            Ok(()) => {},
        }
        match validate_actions(&recipe.actions) {
            Err(e) => return Err(e),
            Ok(()) => {},
        }
        i += 1;
    }
    assert(catalog.templates@.skip(i as int) =~= Seq::<TemplateRecipe>::empty());
    let mut i: usize = 0;
    assert(catalog.demos@.skip(0) =~= catalog.demos@);
    while i < catalog.demos.len()
        invariant
            i <= catalog.demos@.len(),
            templates_check(catalog.templates@) is Ok,
            demos_check(catalog.demos@) == demos_check(catalog.demos@.skip(i as int)),
            catalog.schema_version == SCHEMA_VERSION,
            recipe_ids_check(template_ids(catalog.templates@), WorkspaceInitializerKind::Template) is Ok,
            recipe_ids_check(demo_ids(catalog.demos@), WorkspaceInitializerKind::Demo) is Ok,
        decreases catalog.demos.len() - i,
    {
        assert(catalog.demos@.skip(i as int)[0] == catalog.demos@[i as int]);
        assert(catalog.demos@.skip(i as int).drop_first() =~= catalog.demos@.skip(i + 1));
        match validate_demo(&catalog.demos[i]) {
            Err(e) => return Err(e),
            Ok(()) => {},
        }
        i += 1;
    }
    assert(catalog.demos@.skip(i as int) =~= Seq::<DemoRecipe>::empty());
    Ok(())
}

/// Selects one bundled initializer by semantic kind and stable identifier.
#[derive(Debug)]
pub struct WorkspaceInitializer {
    /// Initializer category.
    pub kind: WorkspaceInitializerKind,
    /// Stable catalog identifier.
    pub id: String,
}

impl WorkspaceInitializer {
    /// Selects one reusable template.
    pub fn template(id: String) -> (r: Self)
        ensures
            r.kind == WorkspaceInitializerKind::Template,
            r.id == id,
    {
        WorkspaceInitializer { kind: WorkspaceInitializerKind::Template, id }
    }

    /// Selects one disposable demo scenario.
    pub fn demo(id: String) -> (r: Self)
        ensures
            r.kind == WorkspaceInitializerKind::Demo,
            r.id == id,
    {
        WorkspaceInitializer { kind: WorkspaceInitializerKind::Demo, id }
    }
}

/// Borrowed initializer selected from a catalog.
pub enum ResolvedInitializer<'a> {
    /// Reusable template selection.
    Template(&'a TemplateRecipe),
    /// Disposable demo scenario selection.
    Demo(&'a DemoRecipe),
}

/// Index of the first template with identifier `id`.
pub open spec fn template_index(ts: Seq<TemplateRecipe>, id: Seq<char>, from: int) -> Option<int>
    decreases ts.len() - from,
{
    if from < 0 || from >= ts.len() {
        None
    } else if ts[from].id@ == id {
        Some(from)
    } else {
        template_index(ts, id, from + 1)
    }
}

/// Index of the first demo with identifier `id`.
pub open spec fn demo_index(ds: Seq<DemoRecipe>, id: Seq<char>, from: int) -> Option<int>
    decreases ds.len() - from,
{
    if from < 0 || from >= ds.len() {
        None
    } else if ds[from].id@ == id {
        Some(from)
    } else {
        demo_index(ds, id, from + 1)
    }
}

proof fn lemma_template_index(ts: Seq<TemplateRecipe>, id: Seq<char>, from: int)
    requires
        0 <= from,
    ensures
        template_index(ts, id, from) matches Some(i) ==> from <= i < ts.len() && ts[i].id@ == id,
    decreases ts.len() - from,
{
    if from < ts.len() && ts[from].id@ != id {
        lemma_template_index(ts, id, from + 1);
    }
}

proof fn lemma_demo_index(ds: Seq<DemoRecipe>, id: Seq<char>, from: int)
    requires
        0 <= from,
    ensures
        demo_index(ds, id, from) matches Some(i) ==> from <= i < ds.len() && ds[i].id@ == id,
    decreases ds.len() - from,
{
    if from < ds.len() && ds[from].id@ != id {
        lemma_demo_index(ds, id, from + 1);
    }
}

fn find_template(ts: &Vec<TemplateRecipe>, id: &String) -> (r: Option<usize>)
    ensures
        r matches Some(i) ==> template_index(ts@, id@, 0) == Some(i as int) && i < ts@.len(),
        r is None ==> template_index(ts@, id@, 0) is None,
{
    proof {
        lemma_template_index(ts@, id@, 0);
    }
    let mut i: usize = 0;
    while i < ts.len()
        invariant
            i <= ts@.len(),
            template_index(ts@, id@, 0) == template_index(ts@, id@, i as int),
        decreases ts.len() - i,
    {
        if ts[i].id == *id {
            return Some(i);
        }
        i += 1;
    }
    None
}

fn find_demo(ds: &Vec<DemoRecipe>, id: &String) -> (r: Option<usize>)
    ensures
        r matches Some(i) ==> demo_index(ds@, id@, 0) == Some(i as int) && i < ds@.len(),
        r is None ==> demo_index(ds@, id@, 0) is None,
{
    proof {
        lemma_demo_index(ds@, id@, 0);
    }
    let mut i: usize = 0;
    while i < ds.len()
        invariant
            i <= ds@.len(),
            demo_index(ds@, id@, 0) == demo_index(ds@, id@, i as int),
        decreases ds.len() - i,
    {
        if ds[i].id == *id {
            return Some(i);
        }
        i += 1;
    }
    None
}

/// Outcome of selecting an initializer: the first recipe of the requested kind with the requested
/// identifier; a recipe of the other kind with that identifier gives a hint to the correct kind.
pub open spec fn resolve_spec(catalog: Catalog, kind: WorkspaceInitializerKind, id: String) -> Result<(WorkspaceInitializerKind, int), CatalogError> {
    match kind {
        WorkspaceInitializerKind::Template => match template_index(catalog.templates@, id@, 0) {
            Some(i) => Ok((WorkspaceInitializerKind::Template, i)),
            None => if demo_index(catalog.demos@, id@, 0) is Some {
                Err(CatalogError::DemoSelectedAsTemplate(id))
            } else {
                Err(CatalogError::UnknownTemplate(id))
            },
        },
        WorkspaceInitializerKind::Demo => match demo_index(catalog.demos@, id@, 0) {
            Some(i) => Ok((WorkspaceInitializerKind::Demo, i)),
            None => if template_index(catalog.templates@, id@, 0) is Some {
                Err(CatalogError::TemplateSelectedAsDemo(id))
            } else {
                Err(CatalogError::UnknownDemo(id))
            },
        },
    }
}

/// Resolves an optional initializer selection against a catalog.
pub fn resolve_initializer<'a>(catalog: &'a Catalog, initializer: Option<&WorkspaceInitializer>) -> (r: Result<
    Option<ResolvedInitializer<'a>>,
    CatalogError,
>)
    ensures
        initializer is None ==> r matches Ok(None),
        initializer matches Some(init) ==> match resolve_spec(*catalog, init.kind, init.id) {
            Err(e) => r == Err::<Option<ResolvedInitializer<'a>>, CatalogError>(e),
            Ok((WorkspaceInitializerKind::Template, i)) => r matches Ok(Some(ResolvedInitializer::Template(t)))
                && *t == catalog.templates@[i],
            Ok((WorkspaceInitializerKind::Demo, i)) => r matches Ok(Some(ResolvedInitializer::Demo(d)))
                && *d == catalog.demos@[i],
        },
{
    let initializer = match initializer {
        None => return Ok(None),
        Some(initializer) => initializer,
    };
    match initializer.kind {
        WorkspaceInitializerKind::Template => {
            match find_template(&catalog.templates, &initializer.id) {
                Some(i) => return Ok(Some(ResolvedInitializer::Template(&catalog.templates[i]))),
                None => {},
            }
            if find_demo(&catalog.demos, &initializer.id).is_some() {
                return Err(CatalogError::DemoSelectedAsTemplate(initializer.id.clone()));
            }
            Err(CatalogError::UnknownTemplate(initializer.id.clone()))
        },
        WorkspaceInitializerKind::Demo => {
            match find_demo(&catalog.demos, &initializer.id) {
                Some(i) => return Ok(Some(ResolvedInitializer::Demo(&catalog.demos[i]))),
                None => {},
            }
            if find_template(&catalog.templates, &initializer.id).is_some() {
                return Err(CatalogError::TemplateSelectedAsDemo(initializer.id.clone()));
            }
            Err(CatalogError::UnknownDemo(initializer.id.clone()))
        },
    }
}

/// Operator-facing catalog entry.
#[derive(Debug)]
pub struct WorkspaceInitializerOption {
    /// Initializer category.
    pub kind: WorkspaceInitializerKind,
    /// Stable catalog identifier.
    pub id: String,
    /// Human-readable name.
    pub name: String,
    /// Optional description.
    pub description: Option<String>,
}

/// Copy of an optional string.
pub fn clone_opt(s: &Option<String>) -> (r: Option<String>)
    ensures
        r == *s,
{
    match s {
        Some(v) => Some(v.clone()),
        None => None,
    }
}

/// The listing entry of the `i`-th initializer: templates first, then demos.
pub open spec fn listed(c: Catalog, i: int) -> (WorkspaceInitializerKind, String, String, Option<String>) {
    if i < c.templates@.len() {
        let t = c.templates@[i];
        (WorkspaceInitializerKind::Template, t.id, t.name, t.description)
    } else {
        let d = c.demos@[i - c.templates@.len()];
        (WorkspaceInitializerKind::Demo, d.id, d.name, d.description)
    }
}

/// Lists all initializers of a valid catalog: templates first, then demos, in catalog order.
pub fn workspace_initializers(catalog: &Catalog) -> (r: Result<Vec<WorkspaceInitializerOption>, CatalogError>)
    ensures
        catalog_check(*catalog) is Err ==> r == Err::<Vec<WorkspaceInitializerOption>, CatalogError>(
            catalog_check(*catalog)->Err_0,
        ),
        catalog_check(*catalog) is Ok ==> r is Ok,
        r matches Ok(v) ==> v@.len() == catalog.templates@.len() + catalog.demos@.len() && forall|i: int|
            0 <= i < v@.len() ==> ((#[trigger] v@[i]).kind, v@[i].id, v@[i].name, v@[i].description)
                == listed(*catalog, i),
{
    match validate_catalog(catalog) {
        Err(e) => return Err(e),
        Ok(()) => {},
    }
    let mut out: Vec<WorkspaceInitializerOption> = Vec::new();
    let mut i: usize = 0;
    while i < catalog.templates.len()
        invariant
            i <= catalog.templates@.len(),
            out@.len() == i,
            forall|k: int|
                0 <= k < i ==> ((#[trigger] out@[k]).kind, out@[k].id, out@[k].name, out@[k].description)
                    == listed(*catalog, k),
        decreases catalog.templates.len() - i,
    {
        let t = &catalog.templates[i];
        out.push(
            WorkspaceInitializerOption {
                kind: WorkspaceInitializerKind::Template,
                id: t.id.clone(),
                name: t.name.clone(),
                description: clone_opt(&t.description),
            },
        );
        i += 1;
    }
    let nt = catalog.templates.len();
    let mut j: usize = 0;
    while j < catalog.demos.len()
        invariant
            nt == catalog.templates@.len(),
            j <= catalog.demos@.len(),
            out@.len() == nt + j,
            forall|k: int|
                0 <= k < nt + j ==> ((#[trigger] out@[k]).kind, out@[k].id, out@[k].name, out@[k].description)
                    == listed(*catalog, k),
        decreases catalog.demos.len() - j,
    {
        let d = &catalog.demos[j];
        out.push(
            WorkspaceInitializerOption {
                kind: WorkspaceInitializerKind::Demo,
                id: d.id.clone(),
                name: d.name.clone(),
                description: clone_opt(&d.description),
            },
        );
        j += 1;
    }
    Ok(out)
}

/// Identifiers that pass the repeat check occur once, and not among those seen before.
proof fn lemma_no_repeat(ids: Seq<String>, seen: Set<Seq<char>>)
    requires
        crate::demos::first_repeat(ids, seen) is None,
    ensures
        forall|i: int| 0 <= i < ids.len() ==> !seen.contains((#[trigger] ids[i])@),
        forall|i: int, j: int| 0 <= i < j < ids.len() ==> (#[trigger] ids[i])@ != (#[trigger] ids[j])@,
    decreases ids.len(),
{
    if ids.len() > 0 {
        let rest = ids.drop_first();
        lemma_no_repeat(rest, seen.insert(ids[0]@));
        assert forall|i: int| 0 <= i < ids.len() implies !seen.contains((#[trigger] ids[i])@) by {
            if i > 0 {
                assert(ids[i] == rest[i - 1]);
            }
        }
        assert forall|i: int, j: int| 0 <= i < j < ids.len() implies (#[trigger] ids[i])@ != (#[trigger] ids[j])@ by {
            assert(ids[j] == rest[j - 1]);
            if i > 0 {
                assert(ids[i] == rest[i - 1]);
            }
        }
    }
}

/// Every template of an accepted template list has accepted actions.
proof fn lemma_templates_actions(ts: Seq<TemplateRecipe>)
    requires
        templates_check(ts) is Ok,
    ensures
        forall|i: int| 0 <= i < ts.len() ==> actions_check((#[trigger] ts[i]).actions@, empty_scope()) is Ok,
    decreases ts.len(),
{
    if ts.len() > 0 {
        lemma_templates_actions(ts.drop_first());
        assert forall|i: int| 0 <= i < ts.len() implies actions_check((#[trigger] ts[i]).actions@, empty_scope()) is Ok by {
            if i > 0 {
                assert(ts[i] == ts.drop_first()[i - 1]);
            }
        }
    }
}

/// Every demo of an accepted demo list has accepted actions.
proof fn lemma_demos_actions(ds: Seq<DemoRecipe>)
    requires
        demos_check(ds) is Ok,
    ensures
        forall|i: int| 0 <= i < ds.len() ==> actions_check(demo_actions((#[trigger] ds[i]).actions@), empty_scope()) is Ok,
    decreases ds.len(),
{
    if ds.len() > 0 {
        lemma_demos_actions(ds.drop_first());
        assert forall|i: int| 0 <= i < ds.len() implies actions_check(demo_actions((#[trigger] ds[i]).actions@), empty_scope()) is Ok by {
            if i > 0 {
                assert(ds[i] == ds.drop_first()[i - 1]);
            }
        }
    }
}

/// A catalog that validates has the supported schema version, no template or demo identifier
/// twice, and templates whose actions are accepted in order.
pub proof fn valid_catalog_properties(c: Catalog)
    requires
        catalog_check(c) is Ok,
    ensures
        c.schema_version == SCHEMA_VERSION,
        forall|i: int, j: int|
            0 <= i < j < c.templates@.len() ==> (#[trigger] c.templates@[i]).id@ != (#[trigger] c.templates@[j]).id@,
        forall|i: int, j: int| 0 <= i < j < c.demos@.len() ==> (#[trigger] c.demos@[i]).id@ != (#[trigger] c.demos@[j]).id@,
        forall|i: int|
            0 <= i < c.templates@.len() ==> actions_check((#[trigger] c.templates@[i]).actions@, empty_scope()) is Ok,
        forall|i: int|
            0 <= i < c.demos@.len() ==> actions_check(demo_actions((#[trigger] c.demos@[i]).actions@), empty_scope()) is Ok,
{
    let tids = template_ids(c.templates@);
    let dids = demo_ids(c.demos@);
    lemma_no_repeat(tids, Set::empty());
    lemma_no_repeat(dids, Set::empty());
    lemma_templates_actions(c.templates@);
    lemma_demos_actions(c.demos@);
    assert forall|i: int, j: int|
        0 <= i < j < c.templates@.len() implies (#[trigger] c.templates@[i]).id@ != (#[trigger] c.templates@[j]).id@ by {
        assert(tids[i] == c.templates@[i].id && tids[j] == c.templates@[j].id);
    }
    assert forall|i: int, j: int| 0 <= i < j < c.demos@.len() implies (#[trigger] c.demos@[i]).id@ != (#[trigger] c.demos@[j]).id@ by {
        assert(dids[i] == c.demos@[i].id && dids[j] == c.demos@[j].id);
    }
}

} // verus!
