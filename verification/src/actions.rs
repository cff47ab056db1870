//! Validation of seed-action ordering and of object metadata.
use vstd::prelude::*;
use crate::catalog::{CatalogError, Json, SeedAction};
use crate::strset::StrSet;
use crate::text::{blank, is_blank};

verus! {

/// A JSON scalar: null, boolean, number or string.
pub open spec fn json_is_scalar(j: Json) -> bool {
    !(j is Array) && !(j is Object)
}

/// A valid metadata value: a scalar, or an array whose items are all scalars.
pub open spec fn is_metadata_value_spec(j: Json) -> bool {
    if j is Array {
        forall|i: int| 0 <= i < j->Array_0@.len() ==> json_is_scalar(#[trigger] j->Array_0@[i])
    } else {
        !(j is Object)
    }
}

/// First entry, from `k` on, whose value is not valid metadata.
pub open spec fn first_bad_metadata_entry(entries: Seq<(String, Json)>, k: int) -> Option<int>
    decreases entries.len() - k,
{
    if k < 0 || k >= entries.len() {
        None
    } else if !is_metadata_value_spec(entries[k].1) {
        Some(k)
    } else {
        first_bad_metadata_entry(entries, k + 1)
    }
}

/// Outcome of metadata validation: an object whose entries are all valid metadata values; the
/// first offending entry is reported.
pub open spec fn metadata_check(j: Json) -> Result<(), CatalogError> {
    match j {
        Json::Object(entries) => match first_bad_metadata_entry(entries@, 0) {
            Some(k) => Err(CatalogError::InvalidMetadataValue(entries@[k].0)),
            None => Ok(()),
        },
        _ => Err(CatalogError::MetadataNotObject),
    }
}

/// An array holding a non-scalar item is not a metadata value.
proof fn lemma_array_with_non_scalar(v: Vec<Json>, k: int)
    requires
        0 <= k < v@.len(),
        !json_is_scalar(v@[k]),
    ensures
        !is_metadata_value_spec(Json::Array(v)),
{
    let j = Json::Array(v);
    assert(j is Array);
    assert(j->Array_0 == v);
    assert(!json_is_scalar(j->Array_0@[k]));
}

/// Whether a JSON value is a scalar allowed inside a metadata array.
pub fn is_metadata_scalar(value: &Json) -> (b: bool)
    ensures
        b == json_is_scalar(*value),
{
    match value {
        Json::Array(_) => false,
        Json::Object(_) => false,
        _ => true,
    }
}

/// Whether a JSON value is valid as one metadata value.
pub fn is_metadata_value(value: &Json) -> (b: bool)
    ensures
        b == is_metadata_value_spec(*value),
{
    match value {
        Json::Array(items) => {
            let mut i: usize = 0;
            while i < items.len()
                invariant
                    *value == Json::Array(*items),
                    i <= items@.len(),
                    forall|k: int| 0 <= k < i ==> json_is_scalar(#[trigger] items@[k]),
                decreases items.len() - i,
            {
                if !is_metadata_scalar(&items[i]) {
                    proof {
                        lemma_array_with_non_scalar(*items, i as int);
                    }

                    return false;
                }
                i += 1;
            }
            true
        },
        Json::Object(_) => false,
        _ => true,
    }
}

/// Validates metadata against the supported scalar metadata shape.
pub fn validate_metadata(metadata: &Json) -> (r: Result<(), CatalogError>)
    ensures
        r == metadata_check(*metadata),
{
    match metadata {
        Json::Object(entries) => {
            let mut i: usize = 0;
            while i < entries.len()
                invariant
                    *metadata == Json::Object(*entries),
                    i <= entries@.len(),
                    first_bad_metadata_entry(entries@, 0) == first_bad_metadata_entry(entries@, i as int),
                decreases entries.len() - i,
            {
                if !is_metadata_value(&entries[i].1) {
                    assert(!is_metadata_value_spec(entries@[i as int].1));
                    return Err(CatalogError::InvalidMetadataValue(entries[i].0.clone()));
                }
                i += 1;
            }
            Ok(())
        },
        _ => Err(CatalogError::MetadataNotObject),
    }
}

/// Recipe-local names seen so far while validating actions.
pub struct ActionScope {
    /// Created object keys.
    pub objects: Set<Seq<char>>,
    /// Archived object keys.
    pub archived: Set<Seq<char>>,
    /// Created thread keys.
    pub threads: Set<Seq<char>>,
    /// Resolved thread keys.
    pub resolved: Set<Seq<char>>,
}

/// The scope before any action.
pub open spec fn empty_scope() -> ActionScope {
    ActionScope {
        objects: Set::empty(),
        archived: Set::empty(),
        threads: Set::empty(),
        resolved: Set::empty(),
    }
}

/// Effect of one action on the scope, or the reason it is rejected.
pub open spec fn action_step(s: ActionScope, a: SeedAction) -> Result<ActionScope, CatalogError> {
    match a {
        SeedAction::CreateObject { key, title, metadata, .. } => {
            if is_blank(key@) {
                Err(CatalogError::EmptyObjectKey)
            } else if s.objects.contains(key@) {
                Err(CatalogError::DuplicateObjectKey(key))
            } else if is_blank(title@) {
                Err(CatalogError::EmptyObjectTitle(key))
            } else if metadata_check(metadata) is Err {
                Err(metadata_check(metadata)->Err_0)
            } else {
                Ok(ActionScope { objects: s.objects.insert(key@), ..s })
            }
        },
        SeedAction::UpdateObject { object, title, body, metadata } => {
            if !s.objects.contains(object@) {
                Err(CatalogError::UpdateBeforeCreate(object))
            } else if s.archived.contains(object@) {
                Err(CatalogError::UpdateArchived(object))
            } else if title is None && body is None && metadata is None {
                Err(CatalogError::UpdateWithoutChange(object))
            } else if title is Some && is_blank(title->0@) {
                Err(CatalogError::UpdateEmptyTitle(object))
            } else if metadata is Some && metadata_check(metadata->0) is Err {
                Err(metadata_check(metadata->0)->Err_0)
            } else {
                Ok(s)
            }
        },
        SeedAction::CreateRelationship { source, target } => {
            if !s.objects.contains(source@) {
                Err(CatalogError::RelationshipSourceMissing(source))
            } else if !s.objects.contains(target@) {
                Err(CatalogError::RelationshipTargetMissing(target))
            } else if s.archived.contains(source@) {
                Err(CatalogError::RelationshipSourceArchived(source))
            } else if s.archived.contains(target@) {
                Err(CatalogError::RelationshipTargetArchived(target))
            } else if source@ == target@ {
                Err(CatalogError::RelationshipToItself(source))
            } else {
                Ok(s)
            }
        },
        SeedAction::CreateCommentThread { key, object, body } => {
            if is_blank(key@) {
                Err(CatalogError::EmptyThreadKey)
            } else if s.threads.contains(key@) {
                Err(CatalogError::DuplicateThreadKey(key))
            } else if !s.objects.contains(object@) {
                Err(CatalogError::ThreadObjectMissing(object))
            } else if s.archived.contains(object@) {
                Err(CatalogError::ThreadObjectArchived(object))
            } else if is_blank(body@) {
                Err(CatalogError::EmptyThreadBody(key))
            } else {
                Ok(ActionScope { threads: s.threads.insert(key@), ..s })
            }
        },
        SeedAction::ReplyToCommentThread { thread, body } => {
            if !s.threads.contains(thread@) {
                Err(CatalogError::ReplyBeforeCreate(thread))
            } else if s.resolved.contains(thread@) {
                Err(CatalogError::ReplyToResolved(thread))
            } else if is_blank(body@) {
                Err(CatalogError::EmptyReply(thread))
            } else {
                Ok(s)
            }
        },
        SeedAction::ResolveCommentThread { thread } => {
            if !s.threads.contains(thread@) {
                Err(CatalogError::ResolveBeforeCreate(thread))
            } else if s.resolved.contains(thread@) {
                Err(CatalogError::ResolveTwice(thread))
            } else {
                Ok(ActionScope { resolved: s.resolved.insert(thread@), ..s })
            }
        },
        SeedAction::ArchiveObject { object } => {
            if !s.objects.contains(object@) {
                Err(CatalogError::ArchiveBeforeCreate(object))
            } else if s.archived.contains(object@) {
                Err(CatalogError::ArchiveTwice(object))
            } else {
                Ok(ActionScope { archived: s.archived.insert(object@), ..s })
            }
        },
    }
}

/// Outcome of validating `actions` in order from scope `s`: the first rejected action's reason.
pub open spec fn actions_check(actions: Seq<SeedAction>, s: ActionScope) -> Result<(), CatalogError>
    decreases actions.len(),
{
    if actions.len() == 0 {
        Ok(())
    } else {
        match action_step(s, actions[0]) {
            Err(e) => Err(e),
            Ok(next) => actions_check(actions.drop_first(), next),
        }
    }
}

/// Scope reached after the first `n` actions, when they are all accepted.
pub open spec fn scope_after(actions: Seq<SeedAction>, s: ActionScope, n: nat) -> ActionScope
    decreases n,
{
    if n == 0 || actions.len() == 0 {
        s
    } else {
        match action_step(s, actions[0]) {
            Err(_) => s,
            Ok(next) => scope_after(actions.drop_first(), next, (n - 1) as nat),
        }
    }
}

/// Applies one action to the scope held by the four sets, or rejects it.
fn check_action(
    objects: &mut StrSet,
    archived: &mut StrSet,
    threads: &mut StrSet,
    resolved: &mut StrSet,
    action: &SeedAction,
) -> (r: Result<(), CatalogError>)
    ensures
        ({
            let s = ActionScope {
                objects: old(objects)@,
                archived: old(archived)@,
                threads: old(threads)@,
                resolved: old(resolved)@,
            };
            match action_step(s, *action) {
                Err(e) => r == Err::<(), CatalogError>(e),
                Ok(n) => r is Ok && final(objects)@ == n.objects && final(archived)@ == n.archived
                    && final(threads)@ == n.threads && final(resolved)@ == n.resolved,
            }
        }),
{
    match action {
        SeedAction::CreateObject { key, title, metadata, .. } => {
            if blank(key.as_str()) {
                return Err(CatalogError::EmptyObjectKey);
            }
            if objects.contains(key) {
                return Err(CatalogError::DuplicateObjectKey(key.clone()));
            }
            if blank(title.as_str()) {
                return Err(CatalogError::EmptyObjectTitle(key.clone()));
            }
            match validate_metadata(metadata) {
                Err(e) => return Err(e),
                Ok(()) => {},
            }
            objects.insert(key);
        },
        SeedAction::UpdateObject { object, title, body, metadata } => {
            if !objects.contains(object) {
                return Err(CatalogError::UpdateBeforeCreate(object.clone()));
            }
            if archived.contains(object) {
                return Err(CatalogError::UpdateArchived(object.clone()));
            }
            if title.is_none() && body.is_none() && metadata.is_none() {
                return Err(CatalogError::UpdateWithoutChange(object.clone()));
            }
            match title {
                Some(t) => {
                    if blank(t.as_str()) {
                        return Err(CatalogError::UpdateEmptyTitle(object.clone()));
                    }
                },
                None => {},
            }
            match metadata {
                Some(m) => {
                    match validate_metadata(m) {
                        Err(e) => return Err(e),
                        Ok(()) => {},
                    }
                },
                None => {},
            }
        },
        SeedAction::CreateRelationship { source, target } => {
            if !objects.contains(source) {
                return Err(CatalogError::RelationshipSourceMissing(source.clone()));
            }
            if !objects.contains(target) {
                return Err(CatalogError::RelationshipTargetMissing(target.clone()));
            }
            if archived.contains(source) {
                return Err(CatalogError::RelationshipSourceArchived(source.clone()));
            }
            if archived.contains(target) {
                return Err(CatalogError::RelationshipTargetArchived(target.clone()));
            }
            if *source == *target {
                return Err(CatalogError::RelationshipToItself(source.clone()));
            }
        },
        SeedAction::CreateCommentThread { key, object, body } => {
            if blank(key.as_str()) {
                return Err(CatalogError::EmptyThreadKey);
            }
            if threads.contains(key) {
                return Err(CatalogError::DuplicateThreadKey(key.clone()));
            }
            if !objects.contains(object) {
                return Err(CatalogError::ThreadObjectMissing(object.clone()));
            }
            if archived.contains(object) {
                return Err(CatalogError::ThreadObjectArchived(object.clone()));
            }
            if blank(body.as_str()) {
                return Err(CatalogError::EmptyThreadBody(key.clone()));
            }
            threads.insert(key);
        },
        SeedAction::ReplyToCommentThread { thread, body } => {
            if !threads.contains(thread) {
                return Err(CatalogError::ReplyBeforeCreate(thread.clone()));
            }
            if resolved.contains(thread) {
                return Err(CatalogError::ReplyToResolved(thread.clone()));
            }
            if blank(body.as_str()) {
                return Err(CatalogError::EmptyReply(thread.clone()));
            }
        },
        SeedAction::ResolveCommentThread { thread } => {
            if !threads.contains(thread) {
                return Err(CatalogError::ResolveBeforeCreate(thread.clone()));
            }
            if !resolved.insert(thread) {
                return Err(CatalogError::ResolveTwice(thread.clone()));
            }
        },
        SeedAction::ArchiveObject { object } => {
            if !objects.contains(object) {
                return Err(CatalogError::ArchiveBeforeCreate(object.clone()));
            }
            if !archived.insert(object) {
                return Err(CatalogError::ArchiveTwice(object.clone()));
            }
        },
    }
    Ok(())
}

/// Scope held by the four sets.
pub open spec fn scope_of(objects: Set<Seq<char>>, archived: Set<Seq<char>>, threads: Set<Seq<char>>, resolved: Set<Seq<char>>) -> ActionScope {
    ActionScope { objects, archived, threads, resolved }
}

/// Validates seed-action ordering and all recipe-local object references.
pub fn validate_actions(actions: &[SeedAction]) -> (r: Result<(), CatalogError>)
    ensures
        r == actions_check(actions@, empty_scope()),
{
    let mut objects = StrSet::new();
    let mut archived = StrSet::new();
    let mut threads = StrSet::new();
    let mut resolved = StrSet::new();
    let mut i: usize = 0;
    assert(actions@.skip(0) =~= actions@);
    while i < actions.len()
        invariant
            i <= actions@.len(),
            actions_check(actions@, empty_scope()) == actions_check(
                actions@.skip(i as int),
                scope_of(objects@, archived@, threads@, resolved@),
            ),
        decreases actions.len() - i,
    {
        assert(actions@.skip(i as int)[0] == actions@[i as int]);
        assert(actions@.skip(i as int).drop_first() =~= actions@.skip(i + 1));
        match check_action(&mut objects, &mut archived, &mut threads, &mut resolved, &actions[i]) {
            Err(e) => return Err(e),
            Ok(()) => {},
        }
        i += 1;
    }
    assert(actions@.skip(i as int) =~= Seq::<SeedAction>::empty());
    Ok(())
}

/// The plain actions of a demo's attributed actions.
pub open spec fn demo_actions(actions: Seq<crate::catalog::DemoSeedAction>) -> Seq<SeedAction> {
    actions.map_values(|d: crate::catalog::DemoSeedAction| d.action)
}

/// Validates the ordering of a demo's actions, exactly as for a template.
pub fn validate_demo_seed_actions(actions: &[crate::catalog::DemoSeedAction]) -> (r: Result<(), CatalogError>)
    ensures
        r == actions_check(demo_actions(actions@), empty_scope()),
{
    let mut objects = StrSet::new();
    let mut archived = StrSet::new();
    let mut threads = StrSet::new();
    let mut resolved = StrSet::new();
    let ghost plain = demo_actions(actions@);
    let mut i: usize = 0;
    assert(plain.skip(0) =~= plain);
    while i < actions.len()
        invariant
            i <= actions@.len(),
            plain == demo_actions(actions@),
            actions_check(plain, empty_scope()) == actions_check(
                plain.skip(i as int),
                scope_of(objects@, archived@, threads@, resolved@),
            ),
        decreases actions.len() - i,
    {
        assert(plain.skip(i as int)[0] == actions@[i as int].action);
        assert(plain.skip(i as int).drop_first() =~= plain.skip(i + 1));
        match check_action(&mut objects, &mut archived, &mut threads, &mut resolved, &actions[i].action) {
            Err(e) => return Err(e),
            Ok(()) => {},
        }
        i += 1;
    }
    assert(plain.skip(i as int) =~= Seq::<SeedAction>::empty());
    Ok(())
}

/// Object keys an action refers to (other than the one it creates).
pub open spec fn object_refs(a: SeedAction) -> Set<Seq<char>> {
    match a {
        SeedAction::UpdateObject { object, .. } => set![object@],
        SeedAction::CreateRelationship { source, target } => set![source@, target@],
        SeedAction::CreateCommentThread { object, .. } => set![object@],
        SeedAction::ArchiveObject { object } => set![object@],
        _ => Set::empty(),
    }
}

/// Thread keys an action refers to (other than the one it creates).
pub open spec fn thread_refs(a: SeedAction) -> Set<Seq<char>> {
    match a {
        SeedAction::ReplyToCommentThread { thread, .. } => set![thread@],
        SeedAction::ResolveCommentThread { thread } => set![thread@],
        _ => Set::empty(),
    }
}

/// Whether one of the first `i` actions creates the object `key`.
pub open spec fn object_created_before(actions: Seq<SeedAction>, i: int, key: Seq<char>) -> bool {
    exists|j: int|
        0 <= j < i && (#[trigger] actions[j]) is CreateObject && actions[j]->CreateObject_key@ == key
}

/// Whether one of the first `i` actions creates the thread `key`.
pub open spec fn thread_created_before(actions: Seq<SeedAction>, i: int, key: Seq<char>) -> bool {
    exists|j: int|
        0 <= j < i && (#[trigger] actions[j]) is CreateCommentThread
            && actions[j]->CreateCommentThread_key@ == key
}

/// Every reference of an accepted action was in scope when it ran.
proof fn lemma_step_refs_in_scope(s: ActionScope, a: SeedAction)
    requires
        action_step(s, a) is Ok,
    ensures
        object_refs(a).subset_of(s.objects),
        thread_refs(a).subset_of(s.threads),
        action_step(s, a)->Ok_0.objects == (if a is CreateObject {
            s.objects.insert(a->CreateObject_key@)
        } else {
            s.objects
        }),
        action_step(s, a)->Ok_0.threads == (if a is CreateCommentThread {
            s.threads.insert(a->CreateCommentThread_key@)
        } else {
            s.threads
        }),
{
}

/// Generalization of [`validated_actions_reference_earlier_creations`] to any starting scope.
proof fn lemma_refs_from_scope(actions: Seq<SeedAction>, s: ActionScope)
    requires
        actions_check(actions, s) is Ok,
    ensures
        forall|i: int, k: Seq<char>|
            0 <= i < actions.len() && #[trigger] object_refs(actions[i]).contains(k) ==> s.objects.contains(k)
                || object_created_before(actions, i, k),
        forall|i: int, k: Seq<char>|
            0 <= i < actions.len() && #[trigger] thread_refs(actions[i]).contains(k) ==> s.threads.contains(k)
                || thread_created_before(actions, i, k),
    decreases actions.len(),
{
    if actions.len() > 0 {
        let a = actions[0];
        lemma_step_refs_in_scope(s, a);
        let n = action_step(s, a)->Ok_0;
        let rest = actions.drop_first();
        lemma_refs_from_scope(rest, n);
        assert forall|i: int, k: Seq<char>|
            0 <= i < actions.len() && #[trigger] object_refs(actions[i]).contains(k) implies s.objects.contains(k)
                || object_created_before(actions, i, k) by {
            if i > 0 {
                assert(actions[i] == rest[i - 1]);
                if object_created_before(rest, i - 1, k) {
                    let j = choose|j: int|
                        0 <= j < i - 1 && (#[trigger] rest[j]) is CreateObject
                            && rest[j]->CreateObject_key@ == k;
                    assert(actions[j + 1] == rest[j]);
                } else if !s.objects.contains(k) {
                    assert(actions[0] is CreateObject);
                }
            }
        }
        assert forall|i: int, k: Seq<char>|
            0 <= i < actions.len() && #[trigger] thread_refs(actions[i]).contains(k) implies s.threads.contains(k)
                || thread_created_before(actions, i, k) by {
            if i > 0 {
                assert(actions[i] == rest[i - 1]);
                if thread_created_before(rest, i - 1, k) {
                    let j = choose|j: int|
                        0 <= j < i - 1 && (#[trigger] rest[j]) is CreateCommentThread
                            && rest[j]->CreateCommentThread_key@ == k;
                    assert(actions[j + 1] == rest[j]);
                } else if !s.threads.contains(k) {
                    assert(actions[0] is CreateCommentThread);
                }
            }
        }
    }
}

/// In an accepted action list, every object an action updates, relates, comments on or archives
/// is created by an earlier action, and every thread replied to or resolved is started by an
/// earlier action.
pub proof fn validated_actions_reference_earlier_creations(actions: Seq<SeedAction>)
    requires
        actions_check(actions, empty_scope()) is Ok,
    ensures
        forall|i: int, k: Seq<char>|
            0 <= i < actions.len() && #[trigger] object_refs(actions[i]).contains(k) ==> object_created_before(
                actions,
                i,
                k,
            ),
        forall|i: int, k: Seq<char>|
            0 <= i < actions.len() && #[trigger] thread_refs(actions[i]).contains(k) ==> thread_created_before(
                actions,
                i,
                k,
            ),
{
    lemma_refs_from_scope(actions, empty_scope());
}

} // verus!
