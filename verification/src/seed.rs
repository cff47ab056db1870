//! The steps of seeding a new workspace from an initializer: which call each recipe action
//! asks for, with its recipe-local keys resolved to the identifiers earlier calls returned,
//! and how each result is recorded. The caller performs the calls in one transaction.
use vstd::prelude::*;
use crate::actions::{
    actions_check, empty_scope, object_created_before, object_refs, thread_created_before, thread_refs,
    validated_actions_reference_earlier_creations,
};
use crate::catalog::{Json, SeedAction};
use crate::env::last_value;
use crate::text::{append_str, debug_str, push_debug};

verus! {

/// Identifiers of one seeded object.
#[derive(Debug, Clone, Copy, PartialEq, Eq)]
pub struct SeedObjectState {
    /// The object.
    pub object_id: u128,
    /// Its current version.
    pub current_version_id: u128,
}

/// Identifiers of one seeded comment thread.
#[derive(Debug, Clone, Copy, PartialEq, Eq)]
pub struct SeedCommentThreadState {
    /// The object commented on.
    pub object_id: u128,
    /// The thread.
    pub thread_id: u128,
    /// The thread's first comment.
    pub root_comment_id: u128,
    /// Author of the first comment.
    pub root_author_user_id: u128,
}

/// Recipe-local keys seen so far, with what their creation returned; a later entry of a key
/// replaces an earlier one.
pub struct SeedState {
    /// Objects by key.
    pub objects: Vec<(String, SeedObjectState)>,
    /// Comment threads by key.
    pub threads: Vec<(String, SeedCommentThreadState)>,
}

/// Pairs by the characters of their keys.
pub open spec fn pairs_view<V>(v: Seq<(String, V)>) -> Seq<(Seq<char>, V)> {
    v.map_values(|p: (String, V)| (p.0@, p.1))
}

/// The value recorded last for `k`.
pub fn lookup_last<V: Copy>(pairs: &Vec<(String, V)>, k: &String) -> (r: Option<V>)
    ensures
        r == last_value(pairs_view(pairs@), k@),
{
    let mut n = pairs.len();
    assert(pairs_view(pairs@).take(n as int) =~= pairs_view(pairs@));
    while n > 0
        invariant
            n <= pairs@.len(),
            last_value(pairs_view(pairs@), k@) == last_value(pairs_view(pairs@).take(n as int), k@),
        decreases n,
    {
        let ghost t = pairs_view(pairs@).take(n as int);
        assert(t.last() == (pairs@[n - 1].0@, pairs@[n - 1].1));
        assert(t.drop_last() =~= pairs_view(pairs@).take(n - 1));
        if pairs[n - 1].0 == *k {
            return Some(pairs[n - 1].1);
        }
        n -= 1;
    }
    None
}

/// What the caller must do for one recipe action.
pub enum SeedCall<'a> {
    /// Create an object with its first version.
    CreateObject { title: &'a String, body: &'a String, metadata: &'a Json },
    /// Append a version to `object`.
    UpdateObject {
        object: SeedObjectState,
        title: &'a Option<String>,
        body: &'a Option<String>,
        metadata: &'a Option<Json>,
    },
    /// Relate two objects.
    CreateRelationship { source_object_id: u128, target_object_id: u128 },
    /// Start a comment thread on an object.
    CreateCommentThread { object_id: u128, body: &'a String },
    /// Reply to a thread's first comment.
    ReplyToCommentThread { thread: SeedCommentThreadState, body: &'a String },
    /// Mark a thread resolved.
    ResolveCommentThread { thread: SeedCommentThreadState },
    /// Archive an object.
    ArchiveObject { object: SeedObjectState },
}

/// A recipe action that names a key no earlier action created.
#[derive(Debug, PartialEq, Eq)]
pub enum SeedError {
    /// An update names an unknown object.
    UnknownObject(String),
    /// A relationship names an unknown source.
    UnknownSource(String),
    /// A relationship names an unknown target.
    UnknownTarget(String),
    /// A thread is started on an unknown object.
    UnknownCommentaryObject(String),
    /// A reply or resolution names an unknown thread.
    UnknownThread(String),
    /// An archive names an unknown object.
    UnknownArchivedObject(String),
}

/// The message of a seeding error.
pub open spec fn seed_error_message(e: SeedError) -> Seq<char> {
    match e {
        SeedError::UnknownObject(k) => "initializer references unknown object "@ + debug_str(k@),
        SeedError::UnknownSource(k) => "initializer references unknown source object "@ + debug_str(k@),
        SeedError::UnknownTarget(k) => "initializer references unknown target object "@ + debug_str(k@),
        SeedError::UnknownCommentaryObject(k) => "initializer commentary references unknown object "@ + debug_str(k@),
        SeedError::UnknownThread(k) => "initializer references unknown commentary thread "@ + debug_str(k@),
        SeedError::UnknownArchivedObject(k) => "initializer archives unknown object "@ + debug_str(k@),
    }
}

impl SeedError {
    /// The error's message.
    pub fn message(&self) -> (m: String)
        ensures
            m@ == seed_error_message(*self),
    {
        let (prefix, key) = match self {
            SeedError::UnknownObject(k) => ("initializer references unknown object ", k),
            SeedError::UnknownSource(k) => ("initializer references unknown source object ", k),
            SeedError::UnknownTarget(k) => ("initializer references unknown target object ", k),
            SeedError::UnknownCommentaryObject(k) => ("initializer commentary references unknown object ", k),
            SeedError::UnknownThread(k) => ("initializer references unknown commentary thread ", k),
            SeedError::UnknownArchivedObject(k) => ("initializer archives unknown object ", k),
        };
        let mut m = prefix.to_owned();
        push_debug(&mut m, key.as_str());
        m
    }
}

/// Whether every key the action refers to has been recorded.
pub open spec fn refs_recorded(
    objects: Seq<(Seq<char>, SeedObjectState)>,
    threads: Seq<(Seq<char>, SeedCommentThreadState)>,
    a: SeedAction,
) -> bool {
    &&& forall|k: Seq<char>| #[trigger] object_refs(a).contains(k) ==> last_value(objects, k) is Some
    &&& forall|k: Seq<char>| #[trigger] thread_refs(a).contains(k) ==> last_value(threads, k) is Some
}

impl SeedState {
    /// No key recorded yet.
    pub fn new() -> (s: Self)
        ensures
            pairs_view(s.objects@) == Seq::<(Seq<char>, SeedObjectState)>::empty(),
            pairs_view(s.threads@) == Seq::<(Seq<char>, SeedCommentThreadState)>::empty(),
    {
        let s = SeedState { objects: Vec::new(), threads: Vec::new() };
        assert(pairs_view(s.objects@) =~= Seq::<(Seq<char>, SeedObjectState)>::empty());
        assert(pairs_view(s.threads@) =~= Seq::<(Seq<char>, SeedCommentThreadState)>::empty());
        s
    }

    /// The call one recipe action asks for, with its keys resolved; fails exactly when a key
    /// it refers to has not been recorded.
    pub fn plan<'a>(&self, action: &'a SeedAction) -> (r: Result<SeedCall<'a>, SeedError>)
        ensures
            r is Ok <==> refs_recorded(pairs_view(self.objects@), pairs_view(self.threads@), *action),
            ({
                let objs = pairs_view(self.objects@);
                let ths = pairs_view(self.threads@);
                match *action {
                    SeedAction::CreateObject { title, body, metadata, .. } => r matches Ok(
                        SeedCall::CreateObject { title: t, body: b, metadata: m },
                    ) && *t == title && *b == body && *m == metadata,
                    SeedAction::UpdateObject { object, title, body, metadata } => match last_value(objs, object@) {
                        Some(st) => r matches Ok(SeedCall::UpdateObject { object: o, title: t, body: b, metadata: m })
                            && o == st && *t == title && *b == body && *m == metadata,
                        None => r matches Err(SeedError::UnknownObject(k)) && k@ == object@,
                    },
                    SeedAction::CreateRelationship { source, target } => match (
                        last_value(objs, source@),
                        last_value(objs, target@),
                    ) {
                        (Some(s), Some(t)) => r matches Ok(
                            SeedCall::CreateRelationship { source_object_id: si, target_object_id: ti },
                        ) && si == s.object_id && ti == t.object_id,
                        (None, _) => r matches Err(SeedError::UnknownSource(k)) && k@ == source@,
                        (Some(_), None) => r matches Err(SeedError::UnknownTarget(k)) && k@ == target@,
                    },
                    SeedAction::CreateCommentThread { object, body, .. } => match last_value(objs, object@) {
                        Some(st) => r matches Ok(SeedCall::CreateCommentThread { object_id: o, body: b }) && o
                            == st.object_id && *b == body,
                        None => r matches Err(SeedError::UnknownCommentaryObject(k)) && k@ == object@,
                    },
                    SeedAction::ReplyToCommentThread { thread, body } => match last_value(ths, thread@) {
                        Some(t) => r matches Ok(SeedCall::ReplyToCommentThread { thread: x, body: b }) && x == t
                            && *b == body,
                        None => r matches Err(SeedError::UnknownThread(k)) && k@ == thread@,
                    },
                    SeedAction::ResolveCommentThread { thread } => match last_value(ths, thread@) {
                        Some(t) => r matches Ok(SeedCall::ResolveCommentThread { thread: x }) && x == t,
                        None => r matches Err(SeedError::UnknownThread(k)) && k@ == thread@,
                    },
                    SeedAction::ArchiveObject { object } => match last_value(objs, object@) {
                        Some(st) => r matches Ok(SeedCall::ArchiveObject { object: o }) && o == st,
                        None => r matches Err(SeedError::UnknownArchivedObject(k)) && k@ == object@,
                    },
                }
            }),
    {
        proof {
            match action {
                SeedAction::CreateObject { .. } => {
                    assert(object_refs(*action) =~= Set::<Seq<char>>::empty());
                    assert(thread_refs(*action) =~= Set::<Seq<char>>::empty());
                },
                SeedAction::UpdateObject { object, .. } => {
                    assert(object_refs(*action) =~= set![object@]);
                    assert(thread_refs(*action) =~= Set::<Seq<char>>::empty());
                },
                SeedAction::CreateRelationship { source, target } => {
                    assert(object_refs(*action) =~= set![source@, target@]);
                    assert(thread_refs(*action) =~= Set::<Seq<char>>::empty());
                },
                SeedAction::CreateCommentThread { object, .. } => {
                    assert(object_refs(*action) =~= set![object@]);
                    assert(thread_refs(*action) =~= Set::<Seq<char>>::empty());
                },
                SeedAction::ReplyToCommentThread { thread, .. } => {
                    assert(object_refs(*action) =~= Set::<Seq<char>>::empty());
                    assert(thread_refs(*action) =~= set![thread@]);
                },
                SeedAction::ResolveCommentThread { thread } => {
                    assert(object_refs(*action) =~= Set::<Seq<char>>::empty());
                    assert(thread_refs(*action) =~= set![thread@]);
                },
                SeedAction::ArchiveObject { object } => {
                    assert(object_refs(*action) =~= set![object@]);
                    assert(thread_refs(*action) =~= Set::<Seq<char>>::empty());
                },
            }
        }
        match action {
            SeedAction::CreateObject { title, body, metadata, .. } => {
                Ok(SeedCall::CreateObject { title, body, metadata })
            },
            SeedAction::UpdateObject { object, title, body, metadata } => match lookup_last(&self.objects, object) {
                Some(st) => Ok(SeedCall::UpdateObject { object: st, title, body, metadata }),
                None => {
                    assert(object_refs(*action).contains(object@));
                    Err(SeedError::UnknownObject(object.clone()))
                },
            },
            SeedAction::CreateRelationship { source, target } => {
                let s = match lookup_last(&self.objects, source) {
                    Some(s) => s,
                    None => {
                        assert(object_refs(*action).contains(source@));
                        return Err(SeedError::UnknownSource(source.clone()));
                    },
                };
                match lookup_last(&self.objects, target) {
                    Some(t) => Ok(
                        SeedCall::CreateRelationship { source_object_id: s.object_id, target_object_id: t.object_id },
                    ),
                    None => {
                        assert(object_refs(*action).contains(target@));
                        Err(SeedError::UnknownTarget(target.clone()))
                    },
                }
            },
            SeedAction::CreateCommentThread { object, body, .. } => match lookup_last(&self.objects, object) {
                Some(st) => Ok(SeedCall::CreateCommentThread { object_id: st.object_id, body }),
                None => {
                    assert(object_refs(*action).contains(object@));
                    Err(SeedError::UnknownCommentaryObject(object.clone()))
                },
            },
            SeedAction::ReplyToCommentThread { thread, body } => match lookup_last(&self.threads, thread) {
                Some(t) => Ok(SeedCall::ReplyToCommentThread { thread: t, body }),
                None => {
                    assert(thread_refs(*action).contains(thread@));
                    Err(SeedError::UnknownThread(thread.clone()))
                },
            },
            SeedAction::ResolveCommentThread { thread } => match lookup_last(&self.threads, thread) {
                Some(t) => Ok(SeedCall::ResolveCommentThread { thread: t }),
                None => {
                    assert(thread_refs(*action).contains(thread@));
                    Err(SeedError::UnknownThread(thread.clone()))
                },
            },
            SeedAction::ArchiveObject { object } => match lookup_last(&self.objects, object) {
                Some(st) => Ok(SeedCall::ArchiveObject { object: st }),
                None => {
                    assert(object_refs(*action).contains(object@));
                    Err(SeedError::UnknownArchivedObject(object.clone()))
                },
            },
        }
    }
}

/// What a performed call returned.
#[derive(Debug, Clone, Copy, PartialEq, Eq)]
pub enum SeedOutcome {
    /// A created object.
    Object(SeedObjectState),
    /// The current version after an update.
    Version(u128),
    /// A started thread.
    Thread(SeedCommentThreadState),
    /// Nothing to record.
    Done,
}

/// Whether an outcome is of the kind its action returns.
pub open spec fn outcome_fits(a: SeedAction, o: SeedOutcome) -> bool {
    match a {
        SeedAction::CreateObject { .. } => o is Object,
        SeedAction::UpdateObject { .. } => o is Version,
        SeedAction::CreateCommentThread { .. } => o is Thread,
        _ => o is Done,
    }
}

/// The recorded keys after one action's outcome: a created object or thread is recorded under
/// its key, an update records the new current version; anything else changes nothing.
pub open spec fn record_spec(
    objects: Seq<(Seq<char>, SeedObjectState)>,
    threads: Seq<(Seq<char>, SeedCommentThreadState)>,
    a: SeedAction,
    o: SeedOutcome,
) -> (Seq<(Seq<char>, SeedObjectState)>, Seq<(Seq<char>, SeedCommentThreadState)>) {
    match (a, o) {
        (SeedAction::CreateObject { key, .. }, SeedOutcome::Object(s)) => (objects.push((key@, s)), threads),
        (SeedAction::UpdateObject { object, .. }, SeedOutcome::Version(v)) => match last_value(objects, object@) {
            Some(st) => (objects.push((object@, SeedObjectState { current_version_id: v, ..st })), threads),
            None => (objects, threads),
        },
        (SeedAction::CreateCommentThread { key, .. }, SeedOutcome::Thread(t)) => (objects, threads.push((key@, t))),
        _ => (objects, threads),
    }
}

impl SeedState {
    /// Records what the call for `action` returned.
    pub fn record(&mut self, action: &SeedAction, outcome: SeedOutcome)
        ensures
            (pairs_view(final(self).objects@), pairs_view(final(self).threads@)) == record_spec(
                pairs_view(old(self).objects@),
                pairs_view(old(self).threads@),
                *action,
                outcome,
            ),
    {
        let ghost o0 = self.objects@;
        let ghost t0 = self.threads@;
        match (action, outcome) {
            (SeedAction::CreateObject { key, .. }, SeedOutcome::Object(s)) => {
                let k = key.clone();
                self.objects.push((k, s));
                assert(pairs_view(self.objects@) =~= pairs_view(o0).push((key@, s)));
            },
            (SeedAction::UpdateObject { object, .. }, SeedOutcome::Version(v)) => {
                match lookup_last(&self.objects, object) {
                    Some(st) => {
                        let k = object.clone();
                        let updated = SeedObjectState { current_version_id: v, ..st };
                        self.objects.push((k, updated));
                        assert(pairs_view(self.objects@) =~= pairs_view(o0).push((object@, updated)));
                    },
                    None => {},
                }
            },
            (SeedAction::CreateCommentThread { key, .. }, SeedOutcome::Thread(t)) => {
                let k = key.clone();
                self.threads.push((k, t));
                assert(pairs_view(self.threads@) =~= pairs_view(t0).push((key@, t)));
            },
            _ => {},
        }
    }
}

/// The recorded keys after the first `n` actions and their outcomes.
pub open spec fn run_seed(actions: Seq<SeedAction>, outcomes: Seq<SeedOutcome>, n: nat) -> (
    Seq<(Seq<char>, SeedObjectState)>,
    Seq<(Seq<char>, SeedCommentThreadState)>,
)
    decreases n,
{
    if n == 0 {
        (Seq::empty(), Seq::empty())
    } else {
        let prev = run_seed(actions, outcomes, (n - 1) as nat);
        record_spec(prev.0, prev.1, actions[n - 1], outcomes[n - 1])
    }
}

/// A value recorded for a key stays recorded after another push.
proof fn lemma_last_value_push<V>(pairs: Seq<(Seq<char>, V)>, p: (Seq<char>, V), k: Seq<char>)
    ensures
        last_value(pairs.push(p), k) == if p.0 == k {
            Some(p.1)
        } else {
            last_value(pairs, k)
        },
{
    assert(pairs.push(p).drop_last() =~= pairs);
}

/// After `n` actions with fitting outcomes, every object and thread created among them is
/// recorded.
proof fn lemma_run_records_creations(actions: Seq<SeedAction>, outcomes: Seq<SeedOutcome>, n: nat)
    requires
        n <= actions.len(),
        outcomes.len() == actions.len(),
        forall|j: int| 0 <= j < actions.len() ==> outcome_fits(#[trigger] actions[j], outcomes[j]),
    ensures
        forall|k: Seq<char>|
            object_created_before(actions, n as int, k) ==> (#[trigger] last_value(run_seed(actions, outcomes, n).0, k))
                is Some,
        forall|k: Seq<char>|
            thread_created_before(actions, n as int, k) ==> (#[trigger] last_value(run_seed(actions, outcomes, n).1, k))
                is Some,
    decreases n,
{
    if n > 0 {
        let m = (n - 1) as nat;
        lemma_run_records_creations(actions, outcomes, m);
        let prev = run_seed(actions, outcomes, m);
        let a = actions[m as int];
        let o = outcomes[m as int];
        assert(outcome_fits(a, o));
        let now = run_seed(actions, outcomes, n);
        assert(now == record_spec(prev.0, prev.1, a, o));
        assert forall|k: Seq<char>| object_created_before(actions, n as int, k) implies (#[trigger] last_value(
            now.0,
            k,
        )) is Some by {
            let j = choose|j: int|
                0 <= j < n && (#[trigger] actions[j]) is CreateObject && actions[j]->CreateObject_key@ == k;
            if j < m {
                assert(object_created_before(actions, m as int, k));
            }
            match (a, o) {
                (SeedAction::CreateObject { key, .. }, SeedOutcome::Object(s)) => {
                    lemma_last_value_push(prev.0, (key@, s), k);
                },
                (SeedAction::UpdateObject { object, .. }, SeedOutcome::Version(v)) => {
                    match last_value(prev.0, object@) {
                        Some(st) => {
                            lemma_last_value_push(prev.0, (object@, SeedObjectState { current_version_id: v, ..st }), k);
                        },
                        None => {},
                    }
                },
                _ => {},
            }
        }
        assert forall|k: Seq<char>| thread_created_before(actions, n as int, k) implies (#[trigger] last_value(
            now.1,
            k,
        )) is Some by {
            let j = choose|j: int|
                0 <= j < n && (#[trigger] actions[j]) is CreateCommentThread && actions[j]->CreateCommentThread_key@
                    == k;
            if j < m {
                assert(thread_created_before(actions, m as int, k));
            }
            match (a, o) {
                (SeedAction::CreateCommentThread { key, .. }, SeedOutcome::Thread(t)) => {
                    lemma_last_value_push(prev.1, (key@, t), k);
                },
                _ => {},
            }
        }
    }
}

/// Seeding a validated action list never meets an unknown key: whatever identifiers the
/// performed calls return, the call planned for each action resolves every key it names.
pub proof fn validated_actions_seed_without_unknown_keys(actions: Seq<SeedAction>, outcomes: Seq<SeedOutcome>)
    requires
        actions_check(actions, empty_scope()) is Ok,
        outcomes.len() == actions.len(),
        forall|j: int| 0 <= j < actions.len() ==> outcome_fits(#[trigger] actions[j], outcomes[j]),
    ensures
        forall|n: int|
            0 <= n < actions.len() ==> refs_recorded(
                #[trigger] run_seed(actions, outcomes, n as nat).0,
                run_seed(actions, outcomes, n as nat).1,
                actions[n],
            ),
{
    validated_actions_reference_earlier_creations(actions);
    assert forall|n: int| 0 <= n < actions.len() implies refs_recorded(
        #[trigger] run_seed(actions, outcomes, n as nat).0,
        run_seed(actions, outcomes, n as nat).1,
        actions[n],
    ) by {
        lemma_run_records_creations(actions, outcomes, n as nat);
        let st = run_seed(actions, outcomes, n as nat);
        assert forall|k: Seq<char>| #[trigger] object_refs(actions[n]).contains(k) implies last_value(st.0, k) is Some by {
            assert(object_created_before(actions, n, k));
        }
        assert forall|k: Seq<char>| #[trigger] thread_refs(actions[n]).contains(k) implies last_value(st.1, k) is Some by {
            assert(thread_created_before(actions, n, k));
        }
    }
}

/// Every template and every demo of a catalog that validates seeds without meeting an unknown
/// key, whatever identifiers the performed calls return.
pub proof fn valid_catalog_seeds_without_unknown_keys(c: crate::catalog::Catalog, outcomes: Seq<SeedOutcome>)
    requires
        crate::initializers::catalog_check(c) is Ok,
    ensures
        forall|t: int|
            0 <= t < c.templates@.len() && outcomes.len() == (#[trigger] c.templates@[t]).actions@.len() && (forall|j: int|
                0 <= j < outcomes.len() ==> outcome_fits(c.templates@[t].actions@[j], #[trigger] outcomes[j])) ==> forall|
                n: int,
            |
                0 <= n < outcomes.len() ==> refs_recorded(
                    #[trigger] run_seed(c.templates@[t].actions@, outcomes, n as nat).0,
                    run_seed(c.templates@[t].actions@, outcomes, n as nat).1,
                    c.templates@[t].actions@[n],
                ),
        forall|d: int|
            0 <= d < c.demos@.len() && outcomes.len() == (#[trigger] c.demos@[d]).actions@.len() && (forall|j: int|
                0 <= j < outcomes.len() ==> outcome_fits(
                    crate::actions::demo_actions(c.demos@[d].actions@)[j],
                    #[trigger] outcomes[j],
                )) ==> forall|n: int|
                0 <= n < outcomes.len() ==> refs_recorded(
                    #[trigger] run_seed(crate::actions::demo_actions(c.demos@[d].actions@), outcomes, n as nat).0,
                    run_seed(crate::actions::demo_actions(c.demos@[d].actions@), outcomes, n as nat).1,
                    crate::actions::demo_actions(c.demos@[d].actions@)[n],
                ),
{
    crate::initializers::valid_catalog_properties(c);
    assert forall|t: int|
        0 <= t < c.templates@.len() && outcomes.len() == (#[trigger] c.templates@[t]).actions@.len() && (forall|j: int|
            0 <= j < outcomes.len() ==> outcome_fits(c.templates@[t].actions@[j], #[trigger] outcomes[j])) implies forall|
        n: int,
    |
        0 <= n < outcomes.len() ==> refs_recorded(
            #[trigger] run_seed(c.templates@[t].actions@, outcomes, n as nat).0,
            run_seed(c.templates@[t].actions@, outcomes, n as nat).1,
            c.templates@[t].actions@[n],
        ) by {
        let acts = c.templates@[t].actions@;
        assert forall|j: int| 0 <= j < acts.len() implies outcome_fits(#[trigger] acts[j], outcomes[j]) by {
            assert(outcome_fits(acts[j], outcomes[j]));
        }
        validated_actions_seed_without_unknown_keys(acts, outcomes);
    }
    assert forall|d: int|
        0 <= d < c.demos@.len() && outcomes.len() == (#[trigger] c.demos@[d]).actions@.len() && (forall|j: int|
            0 <= j < outcomes.len() ==> outcome_fits(
                crate::actions::demo_actions(c.demos@[d].actions@)[j],
                #[trigger] outcomes[j],
            )) implies forall|n: int|
        0 <= n < outcomes.len() ==> refs_recorded(
            #[trigger] run_seed(crate::actions::demo_actions(c.demos@[d].actions@), outcomes, n as nat).0,
            run_seed(crate::actions::demo_actions(c.demos@[d].actions@), outcomes, n as nat).1,
            crate::actions::demo_actions(c.demos@[d].actions@)[n],
        ) by {
        let acts = crate::actions::demo_actions(c.demos@[d].actions@);
        assert(acts.len() == c.demos@[d].actions@.len());
        assert forall|j: int| 0 <= j < acts.len() implies outcome_fits(#[trigger] acts[j], outcomes[j]) by {
            assert(outcome_fits(acts[j], outcomes[j]));
        }
        validated_actions_seed_without_unknown_keys(acts, outcomes);
    }
}

} // verus!
