//! The library's stated laws, proved from the step relation that every
//! watcher mutation ensures.

use vstd::prelude::*;

use crate::model::{json_of, KubeObject, ObjView, ResourceKind};
use crate::store::{any_complete, listed_map, same_uid_set, ListedEntry, SnapshotStore};
use crate::trim::{keeps, lemma_retain_fields_only_kept, spec_trim, FieldSet};
use crate::watcher::{
    counter_after_list, entries_match, entry_matches, list_same_uid_set, list_step_store,
    projected_blob, reconcile_rel, watcher_step, ResourceWatcher, WatcherAction, WatcherEvent,
};
use crate::codec::zlib_of;

verus! {

/// Across one step, the version never decreases, and a step that leaves
/// the version unchanged leaves the snapshot contents unchanged.
pub proof fn lemma_version_monotonic_step(
    pre: ResourceWatcher,
    act: WatcherAction,
    post: ResourceWatcher,
)
    requires
        watcher_step(pre, act, post),
    ensures
        post.store.spec_version() >= pre.store.spec_version(),
        post.store.spec_version() == pre.store.spec_version() ==> post.store.contents()
            == pre.store.contents(),
{
    match act {
        WatcherAction::Event(ev) => {},
        WatcherAction::ListOutcome(res) => {
            lemma_list_step_version(pre.kind, res, pre.store, post.store);
        },
        WatcherAction::InitialList(res) => {
            let mid = choose|mid: SnapshotStore|
                #[trigger] list_step_store(pre.kind, res, pre.store, mid)
                    && post.store.spec_ready() && post.store.contents() == mid.contents()
                    && post.store.spec_version() == mid.spec_version() && post.store.spec_error()
                    == mid.spec_error() && post.counter == counter_after_list(pre.counter, res);
            lemma_list_step_version(pre.kind, res, pre.store, mid);
        },
        WatcherAction::FullSync(res, elapsed_ns) => {
            lemma_list_step_version(pre.kind, res, pre.store, post.store);
        },
    }
}

proof fn lemma_list_step_version(
    kind: ResourceKind,
    res: Result<Vec<KubeObject>, String>,
    pre: SnapshotStore,
    post: SnapshotStore,
)
    requires
        list_step_store(kind, res, pre, post),
    ensures
        post.spec_version() >= pre.spec_version(),
        post.spec_version() == pre.spec_version() ==> post.contents() == pre.contents(),
{
    match res {
        Ok(list) => {
            let es = choose|es: Seq<ListedEntry>|
                #[trigger] entries_match(kind, list@, es) && reconcile_rel(pre, es, post);
            if same_uid_set(es, pre.contents()) {
            } else if !any_complete(es) {
            } else {
            }
        },
        Err(_) => {},
    }
}

/// A trace: each state follows from the previous one by one step.
pub open spec fn watcher_trace(states: Seq<ResourceWatcher>, acts: Seq<WatcherAction>) -> bool {
    states.len() == acts.len() + 1 && forall|i: int|
        0 <= i < acts.len() ==> watcher_step(#[trigger] states[i], acts[i], states[i + 1])
}

/// Monotonic version: across any sequence of steps, the version never
/// decreases.
pub proof fn lemma_version_monotonic_trace(
    states: Seq<ResourceWatcher>,
    acts: Seq<WatcherAction>,
    i: int,
    j: int,
)
    requires
        watcher_trace(states, acts),
        0 <= i <= j < states.len(),
    ensures
        states[i].store.spec_version() <= states[j].store.spec_version(),
    decreases j - i,
{
    if i < j {
        lemma_version_monotonic_trace(states, acts, i, j - 1);
        lemma_version_monotonic_step(states[j - 1], acts[j - 1], states[j]);
    }
}

/// A version bump happens exactly on an effective mutation: an Applied
/// (or Restarted) object with a UID always stores its projection and
/// bumps; a Deleted event bumps exactly when its UID was present; a step
/// that does not bump leaves the contents untouched.
pub proof fn lemma_version_strict_iff_effective(
    pre: ResourceWatcher,
    ev: WatcherEvent,
    post: ResourceWatcher,
)
    requires
        watcher_step(pre, WatcherAction::Event(ev), post),
    ensures
        post.store.spec_version() > pre.store.spec_version() ==> match ev {
            WatcherEvent::Applied(obj) => obj.metadata.uid matches Some(u)
                && post.store.contents() == pre.store.contents().insert(
                u@,
                projected_blob(pre.kind, obj),
            ),
            WatcherEvent::Deleted(obj) => obj.metadata.uid matches Some(u)
                && pre.store.contents().contains_key(u@) && post.store.contents()
                == pre.store.contents().remove(u@),
            WatcherEvent::Restarted(objs) => objs@.len() > 0 && (objs@.last().metadata.uid
                matches Some(u) && post.store.contents() == pre.store.contents().insert(
                u@,
                projected_blob(pre.kind, objs@.last()),
            )),
        },
        post.store.spec_version() == pre.store.spec_version() ==> post.store.contents()
            == pre.store.contents(),
        (ev matches WatcherEvent::Deleted(obj) && obj.metadata.uid matches Some(u)
            && pre.store.contents().contains_key(u@)) ==> post.store.spec_version()
            == pre.store.spec_version() + 1,
        (ev matches WatcherEvent::Applied(obj) && obj.metadata.uid is Some)
            ==> post.store.spec_version() == pre.store.spec_version() + 1,
        (ev matches WatcherEvent::Restarted(objs) && objs@.len() > 0
            && objs@.last().metadata.uid is Some) ==> post.store.spec_version()
            == pre.store.spec_version() + 1,
{
}

/// The entries matching a list all stand for one and the same mapping:
/// the existential in the list contract pins the rebuilt contents.
pub proof fn lemma_entries_match_determines_map(
    kind: ResourceKind,
    list: Seq<KubeObject>,
    es1: Seq<ListedEntry>,
    es2: Seq<ListedEntry>,
)
    requires
        entries_match(kind, list, es1),
        entries_match(kind, list, es2),
    ensures
        listed_map(es1) == listed_map(es2),
    decreases list.len(),
{
    if list.len() > 0 {
        assert(forall|i: int|
            0 <= i < list.drop_last().len() ==> list.drop_last()[i] == list[i]
                && es1.drop_last()[i] == es1[i] && es2.drop_last()[i] == es2[i]);
        assert(entries_match(kind, list.drop_last(), es1.drop_last())) by {
            assert(forall|i: int|
                0 <= i < list.drop_last().len() ==> entry_matches(
                    kind,
                    #[trigger] list.drop_last()[i],
                    es1.drop_last()[i],
                ));
        }
        assert(entries_match(kind, list.drop_last(), es2.drop_last())) by {
            assert(forall|i: int|
                0 <= i < list.drop_last().len() ==> entry_matches(
                    kind,
                    #[trigger] list.drop_last()[i],
                    es2.drop_last()[i],
                ));
        }
        lemma_entries_match_determines_map(kind, list.drop_last(), es1.drop_last(), es2.drop_last());
        assert(entry_matches(kind, list[list.len() - 1], es1[list.len() - 1]));
        assert(entry_matches(kind, list[list.len() - 1], es2[list.len() - 1]));
        assert(es1.last() == es1[list.len() - 1] && es2.last() == es2[list.len() - 1]);
        match (es1.last().uid, es1.last().blob) {
            (Some(u1), Some(b1)) => {
                match (es2.last().uid, es2.last().blob) {
                    (Some(u2), Some(b2)) => {
                        assert(u1@ == u2@ && b1@ == b2@);
                        assert(listed_map(es1) =~= listed_map(es2));
                    },
                    _ => {
                        assert(false);
                    },
                }
            },
            _ => {
                assert(es1.last().uid is None && es2.last().uid is None);
                assert(es1.last().blob is None && es2.last().blob is None);
                assert(listed_map(es1) == listed_map(es1.drop_last()));
                assert(listed_map(es2) == listed_map(es2.drop_last()));
            },
        }
    }
}

/// A version bump from a successful full list can only be the wholesale
/// rebuild: the new contents are exactly the mapping the listed entries
/// stand for.
pub proof fn lemma_list_bump_is_rebuild(
    pre: ResourceWatcher,
    list: Vec<KubeObject>,
    post: ResourceWatcher,
)
    requires
        watcher_step(pre, WatcherAction::ListOutcome(Ok(list)), post),
        post.store.spec_version() > pre.store.spec_version(),
    ensures
        exists|es: Seq<ListedEntry>|
            #[trigger] entries_match(pre.kind, list@, es) && post.store.contents() == listed_map(
                es,
            ),
{
    let es = choose|es: Seq<ListedEntry>|
        #[trigger] entries_match(pre.kind, list@, es) && reconcile_rel(pre.store, es, post.store);
    assert(!same_uid_set(es, pre.store.contents()) && any_complete(es));
    assert(post.store.contents() == listed_map(es));
}

/// A full list whose UID set differs from the store's, with at least one
/// listed object carrying a UID, always rebuilds: the version bumps and
/// the contents become exactly the mapping the listed entries stand for.
pub proof fn lemma_list_rebuild_forced(
    pre: ResourceWatcher,
    list: Vec<KubeObject>,
    post: ResourceWatcher,
)
    requires
        watcher_step(pre, WatcherAction::ListOutcome(Ok(list)), post),
        !list_same_uid_set(list@, pre.store.contents()),
        exists|i: int| 0 <= i < list@.len() && (#[trigger] list@[i]).metadata.uid is Some,
    ensures
        post.store.spec_version() == pre.store.spec_version() + 1,
        exists|es: Seq<ListedEntry>|
            #[trigger] entries_match(pre.kind, list@, es) && post.store.contents() == listed_map(
                es,
            ),
{
    let es = choose|es: Seq<ListedEntry>|
        #[trigger] entries_match(pre.kind, list@, es) && reconcile_rel(pre.store, es, post.store);
    let i = choose|i: int| 0 <= i < list@.len() && (#[trigger] list@[i]).metadata.uid is Some;
    assert(entry_matches(pre.kind, list@[i], es[i]));
    assert(crate::store::complete(es[i]));
    assert(any_complete(es));
    assert(!same_uid_set(es, pre.store.contents())) by {
        if same_uid_set(es, pre.store.contents()) {
            assert forall|j: int| 0 <= j < list@.len() implies (#[trigger] list@[j]).metadata.uid
                matches Some(u) && pre.store.contents().contains_key(u@) by {
                assert(es[j].uid matches Some(u2) && pre.store.contents().contains_key(u2@));
                assert(entry_matches(pre.kind, list@[j], es[j]));
            }
        }
    }
}

/// Delete of an absent key: a Deleted event for a UID the store does not
/// hold changes nothing, the version included.
pub proof fn lemma_delete_absent_noop(pre: ResourceWatcher, obj: KubeObject, post: ResourceWatcher)
    requires
        watcher_step(pre, WatcherAction::Event(WatcherEvent::Deleted(obj)), post),
        match obj.metadata.uid {
            Some(u) => !pre.store.contents().contains_key(u@),
            None => true,
        },
    ensures
        post.store == pre.store,
{
    match obj.metadata.uid {
        Some(u) => {
            assert(pre.store.contents().remove(u@) =~= pre.store.contents());
        },
        None => {},
    }
}

/// Idempotent full-list no-op: a successful list naming exactly the UIDs
/// the store already holds leaves the store object-identical and the
/// version unchanged, whatever the listed objects' contents.
pub proof fn lemma_full_list_same_uids_noop(
    pre: ResourceWatcher,
    list: Vec<KubeObject>,
    post: ResourceWatcher,
)
    requires
        watcher_step(pre, WatcherAction::ListOutcome(Ok(list)), post),
        list_same_uid_set(list@, pre.store.contents()),
    ensures
        post.store == pre.store,
{
    let es = choose|es: Seq<ListedEntry>|
        #[trigger] entries_match(pre.kind, list@, es) && reconcile_rel(pre.store, es, post.store);
    assert(same_uid_set(es, pre.store.contents())) by {
        assert forall|i: int| 0 <= i < es.len() implies (#[trigger] es[i].uid matches Some(u)
            && pre.store.contents().contains_key(u@)) by {
            assert(entry_matches(pre.kind, list@[i], es[i]));
            assert(list@[i].metadata.uid matches Some(u0)
                && pre.store.contents().contains_key(u0@));
        }
    }
}

/// Empty-list preservation: a successful list with zero items leaves the
/// store untouched and the version unchanged.
pub proof fn lemma_empty_list_noop(
    pre: ResourceWatcher,
    list: Vec<KubeObject>,
    post: ResourceWatcher,
)
    requires
        watcher_step(pre, WatcherAction::ListOutcome(Ok(list)), post),
        list@.len() == 0,
    ensures
        post.store == pre.store,
{
    let es = choose|es: Seq<ListedEntry>|
        #[trigger] entries_match(pre.kind, list@, es) && reconcile_rel(pre.store, es, post.store);
    assert(es.len() == 0);
    assert(!any_complete(es));
    if same_uid_set(es, pre.store.contents()) {
    } else {
    }
}

/// Readiness is one-way: no step clears it, and the initial list sets it.
pub proof fn lemma_ready_monotonic_step(
    pre: ResourceWatcher,
    act: WatcherAction,
    post: ResourceWatcher,
)
    requires
        watcher_step(pre, act, post),
    ensures
        pre.store.spec_ready() ==> post.store.spec_ready(),
        act matches WatcherAction::InitialList(res) ==> post.store.spec_ready(),
{
    match act {
        WatcherAction::Event(ev) => {},
        WatcherAction::ListOutcome(res) => {
            lemma_list_step_ready(pre.kind, res, pre.store, post.store);
        },
        WatcherAction::InitialList(res) => {},
        WatcherAction::FullSync(res, elapsed_ns) => {
            lemma_list_step_ready(pre.kind, res, pre.store, post.store);
        },
    }
}

proof fn lemma_list_step_ready(
    kind: ResourceKind,
    res: Result<Vec<KubeObject>, String>,
    pre: SnapshotStore,
    post: SnapshotStore,
)
    requires
        list_step_store(kind, res, pre, post),
    ensures
        post.spec_ready() == pre.spec_ready(),
{
    match res {
        Ok(list) => {
            let es = choose|es: Seq<ListedEntry>|
                #[trigger] entries_match(kind, list@, es) && reconcile_rel(pre, es, post);
            if same_uid_set(es, pre.contents()) {
            } else if !any_complete(es) {
            } else {
            }
        },
        Err(_) => {},
    }
}

/// Ready transition: once a state in a trace is ready, every later state
/// is ready too.
pub proof fn lemma_ready_forever_trace(
    states: Seq<ResourceWatcher>,
    acts: Seq<WatcherAction>,
    i: int,
    j: int,
)
    requires
        watcher_trace(states, acts),
        0 <= i <= j < states.len(),
        states[i].store.spec_ready(),
    ensures
        states[j].store.spec_ready(),
    decreases j - i,
{
    if i < j {
        lemma_ready_forever_trace(states, acts, i, j - 1);
        lemma_ready_monotonic_step(states[j - 1], acts[j - 1], states[j]);
    }
}

/// Projection purity at the blob level: an Applied event that bumped the
/// version stored, under the object's UID, exactly the zlib stream of the
/// JSON encoding of the object's projection.
pub proof fn lemma_applied_blob_is_projection(
    pre: ResourceWatcher,
    obj: KubeObject,
    post: ResourceWatcher,
)
    requires
        watcher_step(pre, WatcherAction::Event(WatcherEvent::Applied(obj)), post),
        post.store.spec_version() > pre.store.spec_version(),
    ensures
        match obj.metadata.uid {
            Some(u) => post.store.contents().contains_key(u@) && post.store.contents()[u@]
                == zlib_of(json_of(spec_trim(pre.kind, obj@))),
            None => false,
        },
{
}

/// Projection purity at the field level: bookkeeping metadata never
/// survives projection, and the status section survives only for Pod and
/// Node, filtered to the fields their tables retain.
pub proof fn lemma_projection_drops_unretained(kind: ResourceKind, v: ObjView)
    ensures
        spec_trim(kind, v).metadata.resource_version is None,
        spec_trim(kind, v).metadata.managed_fields is None,
        kind != ResourceKind::Service ==> spec_trim(kind, v).metadata.annotations is None,
        kind == ResourceKind::Pod ==> spec_trim(kind, v).spec is None,
        kind == ResourceKind::Pod ==> match spec_trim(kind, v).status {
            Some(fs) => forall|i: int|
                0 <= i < fs.len() ==> keeps(FieldSet::PodStatus, #[trigger] fs[i].name),
            None => true,
        },
        kind == ResourceKind::Node ==> match spec_trim(kind, v).status {
            Some(fs) => forall|i: int|
                0 <= i < fs.len() ==> keeps(FieldSet::NodeStatus, #[trigger] fs[i].name),
            None => true,
        },
        kind != ResourceKind::Pod && kind != ResourceKind::Node ==> spec_trim(
            kind,
            v,
        ).status is None,
        kind != ResourceKind::Pod ==> spec_trim(kind, v).metadata.creation_timestamp is None,
        kind != ResourceKind::Pod && kind != ResourceKind::ReplicaSet ==> spec_trim(
            kind,
            v,
        ).metadata.owner_references is None,
        kind == ResourceKind::Node || kind == ResourceKind::Namespace ==> spec_trim(
            kind,
            v,
        ).metadata.namespace is None,
{
    if kind == ResourceKind::Pod {
        match v.status {
            Some(fs) => {
                lemma_retain_fields_only_kept(FieldSet::PodStatus, fs);
            },
            None => {},
        }
    }
    if kind == ResourceKind::Node {
        match v.status {
            Some(fs) => {
                lemma_retain_fields_only_kept(FieldSet::NodeStatus, fs);
            },
            None => {},
        }
    }
}

} // verus!
