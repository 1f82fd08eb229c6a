//! The per-watcher snapshot store: a map from object UID to compressed
//! blob, a monotonic version counter, a one-shot readiness flag and a
//! consuming error slot.

use vstd::multiset::Multiset;
use vstd::prelude::*;

use crate::util::str_eq;

verus! {

pub open spec fn unique_keys(s: Seq<(String, Vec<u8>)>) -> bool {
    forall|i: int, j: int| 0 <= i < j < s.len() ==> s[i].0@ != s[j].0@
}

pub open spec fn has_key(s: Seq<(String, Vec<u8>)>, k: Seq<char>) -> bool {
    exists|i: int| 0 <= i < s.len() && s[i].0@ == k
}

/// The mapping that a sequence of key/value entries stands for; a later
/// entry with the same key wins.
pub open spec fn assoc_map(s: Seq<(String, Vec<u8>)>) -> Map<Seq<char>, Seq<u8>>
    decreases s.len(),
{
    if s.len() == 0 {
        Map::empty()
    } else {
        assoc_map(s.drop_last()).insert(s.last().0@, s.last().1@)
    }
}

pub proof fn lemma_assoc_map_dom(s: Seq<(String, Vec<u8>)>)
    ensures
        forall|k: Seq<char>| #[trigger] assoc_map(s).contains_key(k) <==> has_key(s, k),
        assoc_map(s).dom().finite(),
    decreases s.len(),
{
    if s.len() == 0 {
    } else {
        lemma_assoc_map_dom(s.drop_last());
        assert forall|k: Seq<char>| #[trigger] assoc_map(s).contains_key(k) <==> has_key(s, k) by {
            if assoc_map(s).contains_key(k) {
                if k == s.last().0@ {
                    assert(s[s.len() - 1].0@ == k);
                } else {
                    assert(assoc_map(s.drop_last()).contains_key(k));
                    let i = choose|i: int|
                        0 <= i < s.drop_last().len() && s.drop_last()[i].0@ == k;
                    assert(s[i].0@ == k);
                }
            }
            if has_key(s, k) {
                let i = choose|i: int| 0 <= i < s.len() && s[i].0@ == k;
                if i == s.len() - 1 {
                    assert(assoc_map(s).contains_key(k));
                } else {
                    assert(s.drop_last()[i].0@ == k);
                    assert(has_key(s.drop_last(), k));
                }
            }
        }
    }
}

pub proof fn lemma_assoc_map_index(s: Seq<(String, Vec<u8>)>, i: int)
    requires
        unique_keys(s),
        0 <= i < s.len(),
    ensures
        assoc_map(s).contains_key(s[i].0@),
        assoc_map(s)[s[i].0@] == s[i].1@,
    decreases s.len(),
{
    if i == s.len() - 1 {
    } else {
        assert(unique_keys(s.drop_last()));
        assert(s.drop_last()[i] == s[i]);
        lemma_assoc_map_index(s.drop_last(), i);
        assert(s[i].0@ != s.last().0@);
    }
}

pub proof fn lemma_assoc_map_len(s: Seq<(String, Vec<u8>)>)
    requires
        unique_keys(s),
    ensures
        assoc_map(s).len() == s.len(),
    decreases s.len(),
{
    if s.len() > 0 {
        assert(unique_keys(s.drop_last()));
        lemma_assoc_map_len(s.drop_last());
        lemma_assoc_map_dom(s.drop_last());
        assert(!has_key(s.drop_last(), s.last().0@)) by {
            if has_key(s.drop_last(), s.last().0@) {
                let i = choose|i: int|
                    0 <= i < s.drop_last().len() && s.drop_last()[i].0@ == s.last().0@;
                assert(s[i].0@ == s[s.len() - 1].0@);
            }
        }
        assert(!assoc_map(s.drop_last()).contains_key(s.last().0@));
        vstd::set::axiom_set_insert_len::<Seq<char>>(assoc_map(s.drop_last()).dom(), s.last().0@);
        assert(assoc_map(s).dom() =~= assoc_map(s.drop_last()).dom().insert(s.last().0@));
    }
}

/// Replaces the value under `uid`, or appends a new entry; keys stay unique.
fn upsert_entry(entries: &mut Vec<(String, Vec<u8>)>, uid: String, blob: Vec<u8>)
    requires
        unique_keys(old(entries)@),
    ensures
        unique_keys(final(entries)@),
        assoc_map(final(entries)@) == assoc_map(old(entries)@).insert(uid@, blob@),
        final(entries)@.len() >= 1,
{
    let n: usize = entries.len();
    let mut idx: Option<usize> = None;
    for i in 0..n
        invariant
            n == entries@.len(),
            match idx {
                Some(j) => j < n && entries@[j as int].0@ == uid@,
                None => forall|j: int| 0 <= j < i ==> entries@[j].0@ != uid@,
            },
    {
        if idx.is_none() && str_eq(entries[i].0.as_str(), uid.as_str()) {
            idx = Some(i);
        }
    }
    match idx {
        Some(i) => {
            proof {
                lemma_assoc_map_update(entries@, i as int, uid@, blob@);
            }
            entries[i] = (uid, blob);
        },
        None => {
            proof {
                assert(!has_key(entries@, uid@));
                assert(entries@.push((uid, blob)).drop_last() =~= entries@);
                assert(unique_keys(entries@.push((uid, blob))));
            }
            entries.push((uid, blob));
        },
    }
}

proof fn lemma_assoc_map_update(s: Seq<(String, Vec<u8>)>, i: int, k: Seq<char>, v: Seq<u8>)
    requires
        unique_keys(s),
        0 <= i < s.len(),
        s[i].0@ == k,
    ensures
        forall|e: (String, Vec<u8>)|
            e.0@ == k && e.1@ == v ==> unique_keys(#[trigger] s.update(i, e)) && assoc_map(
                s.update(i, e),
            ) == assoc_map(s).insert(k, v),
    decreases s.len(),
{
    assert forall|e: (String, Vec<u8>)| e.0@ == k && e.1@ == v implies unique_keys(
        #[trigger] s.update(i, e),
    ) && assoc_map(s.update(i, e)) == assoc_map(s).insert(k, v) by {
        let t = s.update(i, e);
        assert(unique_keys(t));
        if i == s.len() - 1 {
            assert(t.drop_last() =~= s.drop_last());
            assert(t.last() == e);
            assert(assoc_map(t) == assoc_map(s.drop_last()).insert(k, v));
            assert(assoc_map(s).insert(k, v) =~= assoc_map(s.drop_last()).insert(k, v));
        } else {
            assert(unique_keys(s.drop_last()));
            assert(s.drop_last()[i] == s[i]);
            lemma_assoc_map_update(s.drop_last(), i, k, v);
            let e2 = e;
            assert(t.drop_last() =~= s.drop_last().update(i, e2));
            assert(t.last() == s.last());
            assert(assoc_map(t) == assoc_map(s.drop_last()).insert(k, v).insert(
                s.last().0@,
                s.last().1@,
            ));
            assert(s[i].0@ != s.last().0@);
            assert(assoc_map(t) =~= assoc_map(s).insert(k, v));
        }
    }
}

proof fn lemma_assoc_map_remove(s: Seq<(String, Vec<u8>)>, i: int)
    requires
        unique_keys(s),
        0 <= i < s.len(),
    ensures
        unique_keys(s.remove(i)),
        assoc_map(s.remove(i)) == assoc_map(s).remove(s[i].0@),
    decreases s.len(),
{
    let k = s[i].0@;
    let t = s.remove(i);
    assert(unique_keys(t)) by {
        assert forall|a: int, b: int| 0 <= a < b < t.len() implies t[a].0@ != t[b].0@ by {
            let a2 = if a < i {
                a
            } else {
                a + 1
            };
            let b2 = if b < i {
                b
            } else {
                b + 1
            };
            assert(t[a] == s[a2] && t[b] == s[b2]);
        }
    }
    if i == s.len() - 1 {
        assert(t =~= s.drop_last());
        lemma_assoc_map_dom(s.drop_last());
        assert(!has_key(s.drop_last(), k)) by {
            if has_key(s.drop_last(), k) {
                let j = choose|j: int|
                    0 <= j < s.drop_last().len() && s.drop_last()[j].0@ == k;
                assert(s[j].0@ == s[s.len() - 1].0@);
            }
        }
        assert(assoc_map(t) =~= assoc_map(s).remove(k));
    } else {
        assert(unique_keys(s.drop_last()));
        assert(s.drop_last()[i] == s[i]);
        lemma_assoc_map_remove(s.drop_last(), i);
        assert(t.drop_last() =~= s.drop_last().remove(i));
        assert(t.last() == s.last());
        assert(assoc_map(t) == assoc_map(s.drop_last()).remove(k).insert(
            s.last().0@,
            s.last().1@,
        ));
        assert(s[i].0@ != s.last().0@);
        assert(assoc_map(t) =~= assoc_map(s).remove(k));
    }
}

/// Copies a byte vector.
pub fn clone_bytes(v: &Vec<u8>) -> (r: Vec<u8>)
    ensures
        r@ == v@,
{
    let mut r: Vec<u8> = Vec::new();
    let n: usize = v.len();
    for i in 0..n
        invariant
            n == v@.len(),
            r@ == v@.take(i as int),
    {
        r.push(v[i]);
        assert(r@ =~= v@.take(i + 1));
    }
    assert(v@.take(n as int) =~= v@);
    r
}

// ---------------------------------------------------------------------------
// Listed entries (the outcome of projecting one listed object)
// ---------------------------------------------------------------------------

/// One listed object after projection: its UID, if it had one, and then
/// its compressed blob.
pub struct ListedEntry {
    pub uid: Option<String>,
    pub blob: Option<Vec<u8>>,
}

pub open spec fn complete(e: ListedEntry) -> bool {
    e.uid is Some && e.blob is Some
}

/// The mapping a list stands for: entries with a UID and a blob, a later
/// entry with the same UID winning.
pub open spec fn listed_map(s: Seq<ListedEntry>) -> Map<Seq<char>, Seq<u8>>
    decreases s.len(),
{
    if s.len() == 0 {
        Map::empty()
    } else {
        let m = listed_map(s.drop_last());
        match (s.last().uid, s.last().blob) {
            (Some(u), Some(b)) => m.insert(u@, b@),
            _ => m,
        }
    }
}

pub open spec fn any_complete(s: Seq<ListedEntry>) -> bool {
    exists|i: int| 0 <= i < s.len() && complete(s[i])
}

/// The list names exactly the UIDs the store already holds: the lengths
/// agree and every listed object carries a UID present in the store.
/// Some key of the map holds exactly these bytes.
pub open spec fn is_value_of(m: Map<Seq<char>, Seq<u8>>, b: Seq<u8>) -> bool {
    exists|k: Seq<char>| m.contains_key(k) && m[k] == b
}

pub open spec fn same_uid_set(s: Seq<ListedEntry>, m: Map<Seq<char>, Seq<u8>>) -> bool {
    s.len() == m.len() && forall|i: int|
        0 <= i < s.len() ==> (#[trigger] s[i].uid matches Some(u) && m.contains_key(u@))
}

// ---------------------------------------------------------------------------
// The store
// ---------------------------------------------------------------------------

pub struct SnapshotStore {
    entries: Vec<(String, Vec<u8>)>,
    /// Monotonic change counter; the sole change-detection signal.
    pub version: u64,
    /// Flips to true once, after the first list completes.
    pub ready: bool,
    /// Most recent unconsumed error, cleared when read.
    pub last_error: Option<String>,
}

impl SnapshotStore {
    /// The version counter's value.
    pub closed spec fn spec_version(self) -> u64 {
        self.version
    }

    /// Whether the first list has completed.
    pub closed spec fn spec_ready(self) -> bool {
        self.ready
    }

    /// The unconsumed error, if any.
    pub closed spec fn spec_error(self) -> Option<String> {
        self.last_error
    }

    /// UID-to-blob mapping currently held.
    pub closed spec fn contents(self) -> Map<Seq<char>, Seq<u8>> {
        assoc_map(self.entries@)
    }

    pub closed spec fn wf(self) -> bool {
        unique_keys(self.entries@)
    }

    /// The bag of stored blobs, with multiplicities.
    pub closed spec fn blob_multiset(self) -> Multiset<Seq<u8>> {
        self.entries@.map_values(|e: (String, Vec<u8>)| e.1@).to_multiset()
    }

    /// The bag of blobs is the bag of the mapping's values: it has one
    /// member per key, and a byte sequence occurs in it exactly when some
    /// key holds it.
    pub proof fn lemma_blob_multiset_matches_contents(self)
        requires
            self.wf(),
        ensures
            self.blob_multiset().len() == self.contents().len(),
            forall|b: Seq<u8>|
                #[trigger] self.blob_multiset().count(b) > 0 <==> is_value_of(self.contents(), b),
    {
        broadcast use vstd::seq_lib::group_to_multiset_ensures;

        lemma_assoc_map_len(self.entries@);
        lemma_assoc_map_dom(self.entries@);
        let vals = self.entries@.map_values(|e: (String, Vec<u8>)| e.1@);
        assert(vals.to_multiset().len() == vals.len());
        assert forall|b: Seq<u8>| #[trigger]
            self.blob_multiset().count(b) > 0 <==> is_value_of(self.contents(), b) by {
            if self.blob_multiset().count(b) > 0 {
                assert(vals.contains(b));
                let i = choose|i: int| 0 <= i < vals.len() && vals[i] == b;
                lemma_assoc_map_index(self.entries@, i);
                assert(self.contents().contains_key(self.entries@[i].0@));
                assert(self.contents()[self.entries@[i].0@] == b);
            }
            if is_value_of(self.contents(), b) {
                let k = choose|k: Seq<char>|
                    self.contents().contains_key(k) && self.contents()[k] == b;
                assert(has_key(self.entries@, k));
                let i = choose|i: int|
                    0 <= i < self.entries@.len() && self.entries@[i].0@ == k;
                lemma_assoc_map_index(self.entries@, i);
                assert(vals[i] == b);
                assert(vals.contains(b));
            }
        }
    }

    pub fn new() -> (s: Self)
        ensures
            s.wf(),
            s.contents() == Map::<Seq<char>, Seq<u8>>::empty(),
            s.spec_version() == 0,
            !s.spec_ready(),
            s.spec_error() is None,
    {
        SnapshotStore { entries: Vec::new(), version: 0, ready: false, last_error: None }
    }

    /// Whether a blob is stored under the given UID.
    pub fn contains_uid(&self, uid: &String) -> (r: bool)
        requires
            self.wf(),
        ensures
            r == self.contents().contains_key(uid@),
    {
        proof {
            lemma_assoc_map_dom(self.entries@);
        }
        let n: usize = self.entries.len();
        for i in 0..n
            invariant
                n == self.entries@.len(),
                forall|j: int| 0 <= j < i ==> self.entries@[j].0@ != uid@,
        {
            if str_eq(self.entries[i].0.as_str(), uid.as_str()) {
                proof {
                    lemma_assoc_map_dom(self.entries@);
                    assert(has_key(self.entries@, uid@));
                    assert(assoc_map(self.entries@).contains_key(uid@));
                }
                return true;
            }
        }
        assert(!has_key(self.entries@, uid@));
        false
    }

    /// Number of stored entries.
    pub fn count(&self) -> (r: usize)
        requires
            self.wf(),
        ensures
            r == self.contents().len(),
    {
        proof {
            lemma_assoc_map_len(self.entries@);
        }
        self.entries.len()
    }

    /// Stores a blob under a UID and bumps the version, whether or not the
    /// UID was present or the bytes changed.
    pub fn apply_blob(&mut self, uid: String, blob: Vec<u8>)
        requires
            old(self).wf(),
            old(self).spec_version() < u64::MAX,
        ensures
            final(self).wf(),
            final(self).contents() == old(self).contents().insert(uid@, blob@),
            final(self).spec_version() == old(self).spec_version() + 1,
            final(self).spec_ready() == old(self).spec_ready(),
            final(self).spec_error() == old(self).spec_error(),
    {
        upsert_entry(&mut self.entries, uid, blob);
        self.version = self.version + 1;
    }

    /// Removes the entry under a UID; bumps the version only if the UID was
    /// present.
    pub fn delete_uid(&mut self, uid: &String)
        requires
            old(self).wf(),
            old(self).spec_version() < u64::MAX,
        ensures
            final(self).wf(),
            final(self).contents() == old(self).contents().remove(uid@),
            old(self).contents().contains_key(uid@) ==> final(self).spec_version() == old(self).spec_version()
                + 1,
            !old(self).contents().contains_key(uid@) ==> *final(self) == *old(self),
            final(self).spec_ready() == old(self).spec_ready(),
            final(self).spec_error() == old(self).spec_error(),
    {
        proof {
            lemma_assoc_map_dom(self.entries@);
        }
        let n: usize = self.entries.len();
        let mut idx: Option<usize> = None;
        for i in 0..n
            invariant
                n == self.entries@.len(),
                match idx {
                    Some(j) => j < n && self.entries@[j as int].0@ == uid@,
                    None => forall|j: int| 0 <= j < i ==> self.entries@[j].0@ != uid@,
                },
        {
            if idx.is_none() && str_eq(self.entries[i].0.as_str(), uid.as_str()) {
                idx = Some(i);
            }
        }
        match idx {
            Some(i) => {
                proof {
                    lemma_assoc_map_remove(self.entries@, i as int);
                }
                self.entries.remove(i);
                self.version = self.version + 1;
            },
            None => {
                proof {
                    assert(!has_key(self.entries@, uid@));
                    assert(!self.contents().contains_key(uid@));
                    assert(self.contents().remove(uid@) =~= self.contents());
                }
            },
        }
    }

    /// Reconciles the store against a full list. If the list names exactly
    /// the UIDs already stored, nothing changes. Otherwise the store is
    /// rebuilt from the complete listed entries and the version bumped,
    /// unless no listed entry is complete, in which case the previous state
    /// is preserved.
    pub fn reconcile(&mut self, listed: &Vec<ListedEntry>)
        requires
            old(self).wf(),
            old(self).spec_version() < u64::MAX,
        ensures
            final(self).wf(),
            final(self).spec_ready() == old(self).spec_ready(),
            final(self).spec_error() == old(self).spec_error(),
            same_uid_set(listed@, old(self).contents()) ==> *final(self) == *old(self),
            !same_uid_set(listed@, old(self).contents()) && !any_complete(listed@)
                ==> *final(self) == *old(self),
            !same_uid_set(listed@, old(self).contents()) && any_complete(listed@) ==> final(self).contents()
                == listed_map(listed@) && final(self).spec_version() == old(self).spec_version() + 1,
    {
        proof {
            lemma_assoc_map_len(self.entries@);
        }
        let n: usize = listed.len();
        if n == self.entries.len() {
            let mut identical = true;
            let ghost mut witness: int = 0;
            for i in 0..n
                invariant
                    n == listed@.len(),
                    self.wf(),
                    *self == *old(self),
                    identical ==> forall|j: int|
                        0 <= j < i ==> (#[trigger] listed@[j].uid matches Some(u)
                            && self.contents().contains_key(u@)),
                    !identical ==> 0 <= witness < n && !(listed@[witness].uid matches Some(u)
                        && self.contents().contains_key(u@)),
            {
                if identical {
                    match &listed[i].uid {
                        Some(u) => {
                            if !self.contains_uid(u) {
                                identical = false;
                                proof {
                                    witness = i as int;
                                }
                            }
                        },
                        None => {
                            identical = false;
                            proof {
                                witness = i as int;
                            }
                        },
                    }
                }
            }
            if identical {
                assert(same_uid_set(listed@, self.contents()));
                return ;
            }
            assert(!same_uid_set(listed@, old(self).contents()));
        } else {
            assert(!same_uid_set(listed@, old(self).contents()));
        }
        let mut new_entries: Vec<(String, Vec<u8>)> = Vec::new();
        assert(listed@.take(0) =~= Seq::<ListedEntry>::empty());
        assert(assoc_map(new_entries@) =~= listed_map(listed@.take(0)));
        for i in 0..n
            invariant
                n == listed@.len(),
                self.wf(),
                *self == *old(self),
                unique_keys(new_entries@),
                assoc_map(new_entries@) == listed_map(listed@.take(i as int)),
                new_entries@.len() > 0 <==> any_complete(listed@.take(i as int)),
                !same_uid_set(listed@, old(self).contents()),
        {
            let ghost prefix = listed@.take(i as int);
            proof {
                assert(listed@.take(i + 1).drop_last() =~= prefix);
                assert(listed@.take(i + 1).last() == listed@[i as int]);
            }
            match (&listed[i].uid, &listed[i].blob) {
                (Some(u), Some(b)) => {
                    let uc = u.clone();
                    let bc = clone_bytes(b);
                    upsert_entry(&mut new_entries, uc, bc);
                    proof {
                        assert(complete(listed@[i as int]));
                        assert(any_complete(listed@.take(i + 1)));
                    }
                },
                _ => {
                    proof {
                        assert(listed_map(listed@.take(i + 1)) == listed_map(prefix));
                        assert(!complete(listed@[i as int]));
                        if any_complete(listed@.take(i + 1)) {
                            let j = choose|j: int|
                                0 <= j < listed@.take(i + 1).len() && #[trigger] complete(
                                    listed@.take(i + 1)[j],
                                );
                            assert(complete(prefix[j]));
                        }
                        if any_complete(prefix) {
                            let j = choose|j: int|
                                0 <= j < prefix.len() && #[trigger] complete(prefix[j]);
                            assert(complete(listed@.take(i + 1)[j]));
                        }
                    }
                },
            }
        }
        assert(listed@.take(n as int) =~= listed@);
        if new_entries.is_empty() {
            assert(!any_complete(listed@));
            return ;
        }
        self.entries = new_entries;
        self.version = self.version + 1;
    }

    /// Snapshot copy of all stored blobs; order unspecified, but the bag
    /// of returned blobs is exactly the bag of stored values.
    pub fn blob_values(&self) -> (r: Vec<Vec<u8>>)
        requires
            self.wf(),
        ensures
            r@.len() == self.contents().len(),
            r@.map_values(|b: Vec<u8>| b@).to_multiset() == self.blob_multiset(),
            forall|i: int| 0 <= i < r@.len() ==> is_value_of(self.contents(), #[trigger] r@[i]@),
            forall|k: Seq<char>|
                #[trigger] self.contents().contains_key(k) ==> exists|i: int|
                    0 <= i < r@.len() && r@[i]@ == self.contents()[k],
    {
        proof {
            lemma_assoc_map_len(self.entries@);
            lemma_assoc_map_dom(self.entries@);
        }
        let mut r: Vec<Vec<u8>> = Vec::new();
        let n: usize = self.entries.len();
        for i in 0..n
            invariant
                n == self.entries@.len(),
                self.wf(),
                r@.len() == i,
                forall|j: int| 0 <= j < i ==> #[trigger] r@[j]@ == self.entries@[j].1@,
        {
            let b = clone_bytes(&self.entries[i].1);
            r.push(b);
        }
        proof {
            assert(r@.map_values(|b: Vec<u8>| b@) =~= self.entries@.map_values(
                |e: (String, Vec<u8>)| e.1@,
            ));
            assert forall|i: int| 0 <= i < r@.len() implies is_value_of(
                self.contents(),
                #[trigger] r@[i]@,
            ) by {
                lemma_assoc_map_index(self.entries@, i);
                let k0 = self.entries@[i].0@;
                assert(r@[i]@ == self.entries@[i].1@);
                assert(self.contents().contains_key(k0) && self.contents()[k0] == r@[i]@);
            }
            assert forall|k: Seq<char>| #[trigger]
                self.contents().contains_key(k) implies exists|i: int|
                0 <= i < r@.len() && r@[i]@ == self.contents()[k] by {
                assert(has_key(self.entries@, k));
                let i = choose|i: int| 0 <= i < self.entries@.len() && self.entries@[i].0@ == k;
                lemma_assoc_map_index(self.entries@, i);
                assert(r@[i]@ == self.contents()[k]);
            }
        }
        r
    }

    /// Records an error, overwriting any prior unread one.
    pub fn set_error(&mut self, msg: String)
        ensures
            final(self).spec_error() == Some(msg),
            final(self).contents() == old(self).contents(),
            final(self).wf() == old(self).wf(),
            final(self).spec_version() == old(self).spec_version(),
            final(self).spec_ready() == old(self).spec_ready(),
    {
        self.last_error = Some(msg);
    }

    /// Consuming read of the most recent error.
    pub fn take_error(&mut self) -> (r: Option<String>)
        ensures
            r == old(self).spec_error(),
            final(self).spec_error() is None,
            final(self).contents() == old(self).contents(),
            final(self).wf() == old(self).wf(),
            final(self).spec_version() == old(self).spec_version(),
            final(self).spec_ready() == old(self).spec_ready(),
    {
        self.last_error.take()
    }

    /// Reads the version counter.
    pub fn version_value(&self) -> (r: u64)
        ensures
            r == self.spec_version(),
    {
        self.version
    }

    /// Reads the readiness flag.
    pub fn ready_value(&self) -> (r: bool)
        ensures
            r == self.spec_ready(),
    {
        self.ready
    }

    /// Marks the first list as completed.
    pub fn mark_ready(&mut self)
        ensures
            final(self).spec_ready(),
            final(self).contents() == old(self).contents(),
            final(self).wf() == old(self).wf(),
            final(self).spec_version() == old(self).spec_version(),
            final(self).spec_error() == old(self).spec_error(),
    {
        self.ready = true;
    }
}

} // verus!
