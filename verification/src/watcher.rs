//! One watcher per resource kind: it owns the projection, encoding and
//! compression pipeline and the snapshot store, and exposes the five read
//! operations consumers use. The reconciliation loop around it performs the
//! outside list and watch calls and feeds their outcomes in as values.

use vstd::prelude::*;
use vstd::string::StringExecFns;

use crate::codec::{is_zlib_stream, zlib_compress, zlib_of};
use crate::model::{json_of, opt_view, KubeObject, ResourceKind};
use crate::store::{any_complete, listed_map, same_uid_set, ListedEntry, SnapshotStore};
use crate::trim::{spec_trim, trim_object};

verus! {

// ---------------------------------------------------------------------------
// Wrapping counter arithmetic
// ---------------------------------------------------------------------------

pub open spec fn wrap_add32(x: u32, d: u32) -> u32 {
    ((x + d) % 0x100000000) as u32
}

pub open spec fn wrap_add64(x: u64, d: u64) -> u64 {
    ((x + d) % 0x10000000000000000) as u64
}

fn wrapping_add_u32(x: u32, d: u32) -> (r: u32)
    ensures
        r == wrap_add32(x, d),
{
    let s: u64 = x as u64 + d as u64;
    (s % 0x100000000u64) as u32
}

fn wrapping_add_u64(x: u64, d: u64) -> (r: u64)
    ensures
        r == wrap_add64(x, d),
{
    if d <= u64::MAX - x {
        x + d
    } else {
        let r = d - (u64::MAX - x) - 1;
        assert(r == (x + d) % 0x10000000000000000) by {
            assert(x + d == 0x10000000000000000 + r);
        }
        r
    }
}

// ---------------------------------------------------------------------------
// Telemetry counters
// ---------------------------------------------------------------------------

#[derive(Clone, Copy, PartialEq, Eq, Structural, Debug)]
pub enum CounterType {
    Counted,
    Gauged,
}

#[derive(Clone, Copy, PartialEq, Eq, Structural, Debug)]
pub enum CounterValue {
    Unsigned(u64),
}

/// Per-watcher telemetry aggregates; every read resets them.
#[derive(Clone, Copy, PartialEq, Eq, Structural, Debug)]
pub struct WatcherCounter {
    pub list_count: u32,
    pub list_length: u32,
    pub list_cost_time_sum: u64,
    pub list_error: u32,
    pub watch_applied: u32,
    pub watch_deleted: u32,
    pub watch_restarted: u32,
}

pub open spec fn zero_counter() -> WatcherCounter {
    WatcherCounter {
        list_count: 0,
        list_length: 0,
        list_cost_time_sum: 0,
        list_error: 0,
        watch_applied: 0,
        watch_deleted: 0,
        watch_restarted: 0,
    }
}

impl Default for WatcherCounter {
    fn default() -> (r: Self)
        ensures
            r == zero_counter(),
    {
        WatcherCounter {
            list_count: 0,
            list_length: 0,
            list_cost_time_sum: 0,
            list_error: 0,
            watch_applied: 0,
            watch_deleted: 0,
            watch_restarted: 0,
        }
    }
}

impl WatcherCounter {
    /// Reads the exported counters and resets the aggregates: averages are
    /// computed over the listing runs since the previous read, and every
    /// gauge reports the count since the previous read.
    pub fn get_counters(&mut self) -> (r: Vec<(String, CounterType, CounterValue)>)
        ensures
            *final(self) == zero_counter(),
            r@.len() == 6,
            r@[0].0@ == "list_avg_length"@,
            r@[0].1 == CounterType::Gauged,
            r@[0].2 == CounterValue::Unsigned(
                if old(self).list_count == 0 {
                    0u64
                } else {
                    (old(self).list_length / old(self).list_count) as u64
                },
            ),
            r@[1].0@ == "list_avg_cost_time"@,
            r@[1].1 == CounterType::Counted,
            r@[1].2 == CounterValue::Unsigned(
                if old(self).list_count == 0 {
                    0u64
                } else {
                    old(self).list_cost_time_sum / (old(self).list_count as u64)
                },
            ),
            r@[2].0@ == "list_error"@,
            r@[2].1 == CounterType::Gauged,
            r@[2].2 == CounterValue::Unsigned(old(self).list_error as u64),
            r@[3].0@ == "watch_applied"@,
            r@[3].1 == CounterType::Gauged,
            r@[3].2 == CounterValue::Unsigned(old(self).watch_applied as u64),
            r@[4].0@ == "watch_deleted"@,
            r@[4].1 == CounterType::Gauged,
            r@[4].2 == CounterValue::Unsigned(old(self).watch_deleted as u64),
            r@[5].0@ == "watch_restarted"@,
            r@[5].1 == CounterType::Gauged,
            r@[5].2 == CounterValue::Unsigned(old(self).watch_restarted as u64),
    {
        let list_count = self.list_count;
        let list_avg_length: u32 = if list_count == 0 {
            0
        } else {
            self.list_length / list_count
        };
        let list_avg_cost_time: u64 = if list_count == 0 {
            0
        } else {
            self.list_cost_time_sum / (list_count as u64)
        };
        let mut r: Vec<(String, CounterType, CounterValue)> = Vec::new();
        r.push(
            (
                String::from_str("list_avg_length"),
                CounterType::Gauged,
                CounterValue::Unsigned(list_avg_length as u64),
            ),
        );
        r.push(
            (
                String::from_str("list_avg_cost_time"),
                CounterType::Counted,
                CounterValue::Unsigned(list_avg_cost_time),
            ),
        );
        r.push(
            (
                String::from_str("list_error"),
                CounterType::Gauged,
                CounterValue::Unsigned(self.list_error as u64),
            ),
        );
        r.push(
            (
                String::from_str("watch_applied"),
                CounterType::Gauged,
                CounterValue::Unsigned(self.watch_applied as u64),
            ),
        );
        r.push(
            (
                String::from_str("watch_deleted"),
                CounterType::Gauged,
                CounterValue::Unsigned(self.watch_deleted as u64),
            ),
        );
        r.push(
            (
                String::from_str("watch_restarted"),
                CounterType::Gauged,
                CounterValue::Unsigned(self.watch_restarted as u64),
            ),
        );
        self.list_count = 0;
        self.list_length = 0;
        self.list_cost_time_sum = 0;
        self.list_error = 0;
        self.watch_applied = 0;
        self.watch_deleted = 0;
        self.watch_restarted = 0;
        r
    }
}

// ---------------------------------------------------------------------------
// Events and the watcher
// ---------------------------------------------------------------------------

/// One event from the watch stream.
pub enum WatcherEvent {
    /// An object was added or updated.
    Applied(KubeObject),
    /// An object was removed.
    Deleted(KubeObject),
    /// The stream was reset; the batch carries states seen during the
    /// reset window.
    Restarted(Vec<KubeObject>),
}

/// A compressed blob as the pipeline produces it for this kind: the zlib
/// stream of the JSON encoding of the projected object.
pub open spec fn valid_blob(kind: ResourceKind, b: Seq<u8>) -> bool {
    exists|v: crate::model::ObjView| b == zlib_of(json_of(spec_trim(kind, v)))
}

pub open spec fn projected_blob(kind: ResourceKind, obj: KubeObject) -> Seq<u8> {
    zlib_of(json_of(spec_trim(kind, obj@)))
}

pub struct ResourceWatcher {
    pub kind: ResourceKind,
    pub kind_label: String,
    pub namespace: Option<String>,
    pub store: SnapshotStore,
    pub counter: WatcherCounter,
}

/// One listed object corresponds to one listed entry: same UID, a blob
/// exactly when the object carries a UID, and that blob holds the
/// projected encoding of the object.
pub open spec fn entry_matches(kind: ResourceKind, obj: KubeObject, e: ListedEntry) -> bool {
    opt_view(e.uid) == opt_view(obj.metadata.uid) && (e.blob matches Some(b) ==> b@
        == projected_blob(kind, obj)) && (e.blob is Some <==> obj.metadata.uid is Some)
}

pub open spec fn entries_match(kind: ResourceKind, list: Seq<KubeObject>, es: Seq<ListedEntry>) -> bool {
    es.len() == list.len() && forall|i: int|
        0 <= i < list.len() ==> entry_matches(kind, #[trigger] list[i], es[i])
}

/// The list names exactly the UIDs the store already holds.
pub open spec fn list_same_uid_set(list: Seq<KubeObject>, m: Map<Seq<char>, Seq<u8>>) -> bool {
    list.len() == m.len() && forall|i: int|
        0 <= i < list.len() ==> (#[trigger] list[i].metadata.uid matches Some(u)
            && m.contains_key(u@))
}

impl ResourceWatcher {
    /// All stored blobs came from this kind's pipeline.
    pub open spec fn wf(self) -> bool {
        self.store.wf() && forall|k: Seq<char>|
            self.store.contents().contains_key(k) ==> valid_blob(
                self.kind,
                #[trigger] self.store.contents()[k],
            )
    }

    pub fn new(kind: ResourceKind, kind_label: String, namespace: Option<String>) -> (w: Self)
        ensures
            w.wf(),
            w.kind == kind,
            w.kind_label == kind_label,
            w.namespace == namespace,
            w.store.contents() == Map::<Seq<char>, Seq<u8>>::empty(),
            w.store.spec_version() == 0,
            !w.store.spec_ready(),
            w.store.spec_error() is None,
            w.counter == zero_counter(),
    {
        ResourceWatcher {
            kind,
            kind_label,
            namespace,
            store: SnapshotStore::new(),
            counter: WatcherCounter::default(),
        }
    }

    /// Current version; consumers poll it for change detection.
    pub fn version(&self) -> (r: u64)
        ensures
            r == self.store.spec_version(),
    {
        self.store.version_value()
    }

    /// Whether the first list has completed.
    pub fn ready(&self) -> (r: bool)
        ensures
            r == self.store.spec_ready(),
    {
        self.store.ready_value()
    }

    /// The kind label this watcher was registered under.
    pub fn kind(&self) -> (r: String)
        ensures
            r@ == self.kind_label@,
    {
        self.kind_label.clone()
    }

    /// Consuming read of the most recent list error.
    pub fn error(&mut self) -> (r: Option<String>)
        ensures
            r == old(self).store.spec_error(),
            final(self).store.spec_error() is None,
            final(self).store.contents() == old(self).store.contents(),
            final(self).store.spec_version() == old(self).store.spec_version(),
            final(self).store.spec_ready() == old(self).store.spec_ready(),
            final(self).kind == old(self).kind,
            final(self).counter == old(self).counter,
            final(self).wf() == old(self).wf(),
    {
        self.store.take_error()
    }

    /// Snapshot copy of the stored blobs; order unspecified, but the bag
    /// of returned blobs is exactly the bag of stored values, and each is
    /// an independently decodable zlib stream.
    pub fn entries(&self) -> (r: Vec<Vec<u8>>)
        requires
            self.wf(),
        ensures
            r@.len() == self.store.contents().len(),
            r@.map_values(|b: Vec<u8>| b@).to_multiset() == self.store.blob_multiset(),
            forall|i: int|
                0 <= i < r@.len() ==> crate::store::is_value_of(
                    self.store.contents(),
                    #[trigger] r@[i]@,
                ),
            forall|k: Seq<char>|
                #[trigger] self.store.contents().contains_key(k) ==> exists|i: int|
                    0 <= i < r@.len() && r@[i]@ == self.store.contents()[k],
            forall|i: int| 0 <= i < r@.len() ==> is_zlib_stream(#[trigger] r@[i]@),
    {
        let r = self.store.blob_values();
        proof {
            assert forall|i: int| 0 <= i < r@.len() implies is_zlib_stream(#[trigger] r@[i]@) by {
                assert(crate::store::is_value_of(self.store.contents(), r@[i]@));
                let k = choose|k: Seq<char>|
                    self.store.contents().contains_key(k) && self.store.contents()[k] == r@[i]@;
                assert(valid_blob(self.kind, r@[i]@));
                let v = choose|v: crate::model::ObjView|
                    r@[i]@ == zlib_of(json_of(spec_trim(self.kind, v)));
                assert(r@[i]@ == zlib_of(json_of(spec_trim(self.kind, v))));
            }
        }
        r
    }

    /// Projects, encodes and compresses one object. The UID is carried
    /// over; the blob is present exactly when the object had a UID.
    fn project_entry(&self, obj: KubeObject) -> (r: ListedEntry)
        ensures
            entry_matches(self.kind, obj, r),
    {
        let ghost ov = obj@;
        let ghost uid0 = obj.metadata.uid;
        let uid: Option<String> = match &obj.metadata.uid {
            Some(u) => Some(u.clone()),
            None => None,
        };
        assert(opt_view(uid) == opt_view(uid0));
        match uid {
            Some(u) => {
                let trimmed = trim_object(self.kind, obj);
                let encoded = crate::model::encode_object(&trimmed);
                let blob = zlib_compress(encoded.as_slice());
                ListedEntry { uid: Some(u), blob: Some(blob) }
            },
            None => ListedEntry { uid: None, blob: None },
        }
    }
}

// ---------------------------------------------------------------------------
// The step relation: what each mutation does
// ---------------------------------------------------------------------------

/// What applying one object does to the store: under a UID, the projected
/// blob is always stored and the version bumped (even if the bytes are
/// unchanged); without a UID, nothing changes.
pub open spec fn applied_store_step(
    kind: ResourceKind,
    obj: KubeObject,
    pre: SnapshotStore,
    post: SnapshotStore,
) -> bool {
    match obj.metadata.uid {
        None => post == pre,
        Some(u) => post.contents() == pre.contents().insert(u@, projected_blob(kind, obj))
            && post.spec_version() == pre.spec_version() + 1 && post.spec_ready()
            == pre.spec_ready() && post.spec_error() == pre.spec_error(),
    }
}

/// What deleting one object does: a present UID is removed and the version
/// bumped; an absent UID, or an object without one, changes nothing.
pub open spec fn deleted_store_step(obj: KubeObject, pre: SnapshotStore, post: SnapshotStore) -> bool {
    match obj.metadata.uid {
        None => post == pre,
        Some(u) => post.contents() == pre.contents().remove(u@) && (pre.contents().contains_key(u@)
            ==> post.spec_version() == pre.spec_version() + 1 && post.spec_ready()
            == pre.spec_ready() && post.spec_error() == pre.spec_error()) && (
        !pre.contents().contains_key(u@) ==> post == pre),
    }
}

pub open spec fn event_step(
    kind: ResourceKind,
    ev: WatcherEvent,
    pre: SnapshotStore,
    post: SnapshotStore,
    c0: WatcherCounter,
    c1: WatcherCounter,
) -> bool {
    match ev {
        WatcherEvent::Applied(obj) => applied_store_step(kind, obj, pre, post) && c1
            == WatcherCounter { watch_applied: wrap_add32(c0.watch_applied, 1), ..c0 },
        WatcherEvent::Deleted(obj) => deleted_store_step(obj, pre, post) && (match obj.metadata.uid {
            Some(_) => c1 == WatcherCounter {
                watch_deleted: wrap_add32(c0.watch_deleted, 1),
                ..c0
            },
            None => c1 == c0,
        }),
        WatcherEvent::Restarted(objs) => if objs@.len() == 0 {
            post == pre && c1 == c0
        } else {
            applied_store_step(kind, objs@.last(), pre, post) && c1 == WatcherCounter {
                watch_restarted: wrap_add32(c0.watch_restarted, 1),
                ..c0
            }
        },
    }
}

/// The outcome of a full list on the store: the identical-UID-set no-op,
/// the empty-rebuild no-op, the wholesale rebuild, or the recorded error.
pub open spec fn reconcile_rel(pre: SnapshotStore, es: Seq<ListedEntry>, post: SnapshotStore) -> bool {
    (same_uid_set(es, pre.contents()) ==> post == pre) && (!same_uid_set(es, pre.contents())
        && !any_complete(es) ==> post == pre) && (!same_uid_set(es, pre.contents())
        && any_complete(es) ==> post.contents() == listed_map(es) && post.spec_version()
        == pre.spec_version() + 1 && post.spec_ready() == pre.spec_ready() && post.spec_error()
        == pre.spec_error())
}

pub open spec fn list_step_store(
    kind: ResourceKind,
    result: Result<Vec<KubeObject>, String>,
    pre: SnapshotStore,
    post: SnapshotStore,
) -> bool {
    match result {
        Ok(list) => exists|es: Seq<ListedEntry>|
            #[trigger] entries_match(kind, list@, es) && reconcile_rel(pre, es, post),
        Err(msg) => post.contents() == pre.contents() && post.spec_version() == pre.spec_version()
            && post.spec_ready() == pre.spec_ready() && post.spec_error() == Some(msg),
    }
}

pub open spec fn counter_after_list(
    c: WatcherCounter,
    result: Result<Vec<KubeObject>, String>,
) -> WatcherCounter {
    match result {
        Ok(list) => WatcherCounter {
            list_length: wrap_add32(c.list_length, (list@.len() % 0x100000000) as u32),
            ..c
        },
        Err(_) => WatcherCounter { list_error: wrap_add32(c.list_error, 1), ..c },
    }
}

/// One step of a watcher's own task.
pub enum WatcherAction {
    /// One watch-stream event was handled.
    Event(WatcherEvent),
    /// A full list completed (or failed) and was reconciled.
    ListOutcome(Result<Vec<KubeObject>, String>),
    /// The first list completed (or failed); readiness is set afterwards.
    InitialList(Result<Vec<KubeObject>, String>),
    /// A periodic full list, with its measured duration in nanoseconds.
    FullSync(Result<Vec<KubeObject>, String>, u64),
}

pub open spec fn watcher_step(pre: ResourceWatcher, act: WatcherAction, post: ResourceWatcher) -> bool {
    post.kind == pre.kind && post.kind_label == pre.kind_label && post.namespace == pre.namespace
        && match act {
        WatcherAction::Event(ev) => event_step(
            pre.kind,
            ev,
            pre.store,
            post.store,
            pre.counter,
            post.counter,
        ),
        WatcherAction::ListOutcome(res) => list_step_store(pre.kind, res, pre.store, post.store)
            && post.counter == counter_after_list(pre.counter, res),
        WatcherAction::InitialList(res) => exists|mid: SnapshotStore|
            #[trigger] list_step_store(pre.kind, res, pre.store, mid) && post.store.spec_ready()
                && post.store.contents() == mid.contents() && post.store.spec_version()
                == mid.spec_version() && post.store.spec_error() == mid.spec_error()
                && post.counter == counter_after_list(pre.counter, res),
        WatcherAction::FullSync(res, elapsed_ns) => list_step_store(
            pre.kind,
            res,
            pre.store,
            post.store,
        ) && post.counter == WatcherCounter {
            list_count: wrap_add32(counter_after_list(pre.counter, res).list_count, 1),
            list_cost_time_sum: wrap_add64(
                counter_after_list(pre.counter, res).list_cost_time_sum,
                elapsed_ns,
            ),
            ..counter_after_list(pre.counter, res)
        },
    }
}

proof fn lemma_listed_map_valid(kind: ResourceKind, es: Seq<ListedEntry>)
    requires
        forall|i: int|
            0 <= i < es.len() ==> (#[trigger] es[i].blob matches Some(b) ==> valid_blob(kind, b@)),
    ensures
        forall|k: Seq<char>|
            #[trigger] listed_map(es).contains_key(k) ==> valid_blob(kind, listed_map(es)[k]),
    decreases es.len(),
{
    if es.len() > 0 {
        assert(forall|i: int|
            0 <= i < es.drop_last().len() ==> es.drop_last()[i] == es[i]);
        lemma_listed_map_valid(kind, es.drop_last());
        assert forall|k: Seq<char>| #[trigger]
            listed_map(es).contains_key(k) implies valid_blob(kind, listed_map(es)[k]) by {
            match (es.last().uid, es.last().blob) {
                (Some(u), Some(b)) => {
                    assert(es[es.len() - 1].blob matches Some(bb) && bb == b);
                    if k == u@ {
                        assert(listed_map(es)[k] == b@);
                    } else {
                        assert(listed_map(es.drop_last()).contains_key(k));
                    }
                },
                _ => {
                    assert(listed_map(es) == listed_map(es.drop_last()));
                },
            }
        }
    }
}

impl ResourceWatcher {
    /// Handles one watch-stream event: Applied always stores the
    /// projected blob under the object's UID, Deleted removes a present
    /// key, Restarted treats the last batch element as an Applied event
    /// and discards the rest.
    pub fn handle_event(&mut self, event: WatcherEvent)
        requires
            old(self).wf(),
            old(self).store.spec_version() < u64::MAX,
        ensures
            final(self).wf(),
            watcher_step(*old(self), WatcherAction::Event(event), *final(self)),
    {
        match event {
            WatcherEvent::Applied(obj) => {
                self.insert_object(obj);
                self.counter.watch_applied = wrapping_add_u32(self.counter.watch_applied, 1);
            },
            WatcherEvent::Deleted(obj) => {
                match &obj.metadata.uid {
                    Some(u) => {
                        let uc = u.clone();
                        proof {
                            assert forall|k: Seq<char>|
                                old(self).store.contents().remove(uc@).contains_key(k) implies
                                valid_blob(
                                self.kind,
                                #[trigger] old(self).store.contents().remove(uc@)[k],
                            ) by {
                                assert(old(self).store.contents().contains_key(k));
                            }
                        }
                        self.store.delete_uid(&uc);
                        self.counter.watch_deleted = wrapping_add_u32(
                            self.counter.watch_deleted,
                            1,
                        );
                    },
                    None => {},
                }
            },
            WatcherEvent::Restarted(objs) => {
                let ghost objs0 = objs@;
                let mut objs = objs;
                match objs.pop() {
                    Some(obj) => {
                        proof {
                            assert(obj == objs0.last());
                        }
                        self.insert_object(obj);
                        self.counter.watch_restarted = wrapping_add_u32(
                            self.counter.watch_restarted,
                            1,
                        );
                    },
                    None => {},
                }
            },
        }
    }

    /// Projects one object and stores its blob under its UID, bumping the
    /// version; objects without a UID are skipped.
    fn insert_object(&mut self, obj: KubeObject)
        requires
            old(self).wf(),
            old(self).store.spec_version() < u64::MAX,
        ensures
            final(self).wf(),
            applied_store_step(old(self).kind, obj, old(self).store, final(self).store),
            final(self).kind == old(self).kind,
            final(self).kind_label == old(self).kind_label,
            final(self).namespace == old(self).namespace,
            final(self).counter == old(self).counter,
    {
        let entry = self.project_entry(obj);
        match entry {
            ListedEntry { uid: Some(u), blob: Some(b) } => {
                proof {
                    assert(b@ == projected_blob(self.kind, obj));
                    assert(valid_blob(self.kind, b@)) by {
                        assert(b@ == zlib_of(json_of(spec_trim(self.kind, obj@))));
                    }
                    assert forall|k: Seq<char>|
                        old(self).store.contents().insert(u@, b@).contains_key(k) implies
                        valid_blob(
                        self.kind,
                        #[trigger] old(self).store.contents().insert(u@, b@)[k],
                    ) by {
                        if k != u@ {
                            assert(old(self).store.contents().contains_key(k));
                        }
                    }
                }
                self.store.apply_blob(u, b);
            },
            ListedEntry { uid: None, blob } => {
                proof {
                    assert(blob is None);
                }
            },
            ListedEntry { uid: Some(u), blob: None } => {
                proof {
                    assert(false);
                }
            },
        }
    }

    /// Reconciles the snapshot against the outcome of a full list: on
    /// success the store follows the list-branch rules; on failure the
    /// error is recorded and counted and the snapshot is left untouched.
    pub fn apply_list_result(&mut self, result: Result<Vec<KubeObject>, String>)
        requires
            old(self).wf(),
            old(self).store.spec_version() < u64::MAX,
        ensures
            final(self).wf(),
            watcher_step(*old(self), WatcherAction::ListOutcome(result), *final(self)),
    {
        let ghost res0 = result;
        match result {
            Ok(list) => {
                let ghost list0 = list@;
                let n: usize = list.len();
                let len32: u32 = (n as u64 % 0x100000000u64) as u32;
                self.counter.list_length = wrapping_add_u32(self.counter.list_length, len32);
                let mut list = list;
                let mut es: Vec<ListedEntry> = Vec::new();
                let ghost c1 = self.counter;
                for i in 0..n
                    invariant
                        n == list0.len(),
                        list@ =~= list0.skip(i as int),
                        es@.len() == i,
                        forall|j: int|
                            0 <= j < i ==> entry_matches(self.kind, #[trigger] list0[j], es@[j]),
                        self.wf(),
                        self.kind == old(self).kind,
                        self.kind_label == old(self).kind_label,
                        self.namespace == old(self).namespace,
                        self.counter == c1,
                        self.store == old(self).store,
                {
                    let obj = list.remove(0);
                    proof {
                        assert(obj == list0.skip(i as int)[0]);
                        assert(list0.skip(i as int)[0] == list0[i as int]);
                        assert(list0.skip(i as int).remove(0) =~= list0.skip(i + 1));
                    }
                    let e = self.project_entry(obj);
                    es.push(e);
                }
                proof {
                    assert(entries_match(self.kind, list0, es@));
                    assert forall|i: int|
                        0 <= i < es@.len() implies (#[trigger] es@[i].blob matches Some(b)
                        ==> valid_blob(self.kind, b@)) by {
                        assert(entry_matches(self.kind, list0[i], es@[i]));
                        match es@[i].blob {
                            Some(b) => {
                                assert(b@ == projected_blob(self.kind, list0[i]));
                                assert(b@ == zlib_of(json_of(spec_trim(self.kind, list0[i]@))));
                            },
                            None => {},
                        }
                    }
                    lemma_listed_map_valid(self.kind, es@);
                }
                self.store.reconcile(&es);
                proof {
                    assert(reconcile_rel(old(self).store, es@, self.store));
                    assert(list_step_store(old(self).kind, res0, old(self).store, self.store));
                }
            },
            Err(msg) => {
                self.counter.list_error = wrapping_add_u32(self.counter.list_error, 1);
                self.store.set_error(msg);
            },
        }
    }

    /// The first list of the watcher's task: reconcile its outcome, then
    /// mark the watcher ready, whether or not the list succeeded.
    pub fn initial_list(&mut self, result: Result<Vec<KubeObject>, String>)
        requires
            old(self).wf(),
            old(self).store.spec_version() < u64::MAX,
        ensures
            final(self).wf(),
            watcher_step(*old(self), WatcherAction::InitialList(result), *final(self)),
            final(self).store.spec_ready(),
    {
        let ghost res0 = result;
        self.apply_list_result(result);
        let ghost mid = self.store;
        self.store.mark_ready();
        proof {
            assert(list_step_store(old(self).kind, res0, old(self).store, mid));
        }
    }

    /// A periodic full list: reconcile its outcome and record the listing
    /// cost and count.
    pub fn full_sync(&mut self, result: Result<Vec<KubeObject>, String>, elapsed_ns: u64)
        requires
            old(self).wf(),
            old(self).store.spec_version() < u64::MAX,
        ensures
            final(self).wf(),
            watcher_step(
                *old(self),
                WatcherAction::FullSync(result, elapsed_ns),
                *final(self),
            ),
    {
        self.apply_list_result(result);
        self.counter.list_cost_time_sum = wrapping_add_u64(
            self.counter.list_cost_time_sum,
            elapsed_ns,
        );
        self.counter.list_count = wrapping_add_u32(self.counter.list_count, 1);
    }
}


} // verus!
