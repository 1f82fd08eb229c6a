//! The host-process inventory scanner: regex-based accept/drop/rewrite
//! rules, uptime filtering, username resolution, tag attachment and the
//! content digest over the resulting set.

use vstd::prelude::*;
use vstd::string::StringSliceAdditionalSpecFns;
use vstd::utf8::encode_utf8;

use crate::passwd::{lookup_uid, PasswordInfo};
use crate::rules::{
    compile_rules, first_cfg_error, first_matching_rule, lemma_first_match_wins, lemma_no_match,
    rewritten_name, rule_from_cfg, rule_matches, OsProcRegexp, ProcRegRewrite, RegExpAction,
    RuleError,
};

verus! {

// ---------------------------------------------------------------------------
// Process data
// ---------------------------------------------------------------------------

/// One key/value application tag.
#[derive(Clone, Debug)]
pub struct OsAppTagKV {
    pub key: String,
    pub value: String,
}

/// One live process as the scanner sees it.
#[derive(Clone, Debug)]
pub struct ProcessData {
    /// Display name, possibly rewritten by an accept rule.
    pub name: String,
    pub pid: u64,
    /// Raw executable basename.
    pub process_name: String,
    pub cmd: Vec<String>,
    pub user_id: u32,
    /// Resolved username; empty while unresolved.
    pub user: String,
    /// Seconds since the Unix epoch.
    pub start_time: u64,
    pub os_app_tags: Vec<OsAppTagKV>,
}

/// Errors of per-process bookkeeping.
#[derive(Clone, Copy, PartialEq, Eq, Structural, Debug)]
pub enum ScanError {
    /// The recorded start time lies after the reference time.
    StartTimeInFuture,
}

impl ProcessData {
    /// Uptime in seconds relative to `base_time`.
    pub fn up_sec(&self, base_time: u64) -> (r: Result<u64, ScanError>)
        ensures
            match r {
                Ok(u) => self.start_time <= base_time && u == base_time - self.start_time,
                Err(e) => base_time < self.start_time && e == ScanError::StartTimeInFuture,
            },
    {
        if base_time < self.start_time {
            Err(ScanError::StartTimeInFuture)
        } else {
            Ok(base_time - self.start_time)
        }
    }

    /// Sets the username from the first matching entry of the user
    /// database; an unknown uid leaves the current name in place.
    pub fn set_username(&mut self, pwd: &PasswordInfo)
        ensures
            match lookup_uid(pwd.entries_view(), old(self).user_id) {
                Some(b) => (vstd::utf8::valid_utf8(b) ==> encode_utf8(final(self).user@) == b)
                    && (!vstd::utf8::valid_utf8(b) ==> final(self).user == old(self).user),
                None => final(self).user == old(self).user,
            },
            final(self).name == old(self).name,
            final(self).pid == old(self).pid,
            final(self).process_name == old(self).process_name,
            final(self).cmd == old(self).cmd,
            final(self).user_id == old(self).user_id,
            final(self).start_time == old(self).start_time,
            final(self).os_app_tags == old(self).os_app_tags,
    {
        match pwd.get_username_by_uid(self.user_id) {
            Some(u) => {
                proof {
                    vstd::utf8::encode_utf8_valid_utf8(u@);
                }
                self.user = u;
            },
            None => {},
        }
    }
}

// ---------------------------------------------------------------------------
// SHA-1 digest over (pid, tags)
// ---------------------------------------------------------------------------

/// The SHA-1 digest, as ring computes it, of a byte sequence; the result
/// depends on the bytes alone.
pub uninterp spec fn sha1_of(data: Seq<u8>) -> Seq<u8>;

#[verifier::external_type_specification]
#[verifier::external_body]
pub struct ExDigestContext(ring::digest::Context);

/// Relies on ring's `digest::Context::new` with the SHA-1 algorithm.
#[verifier::external_body]
fn sha1_context_new() -> ring::digest::Context {
    ring::digest::Context::new(&ring::digest::SHA1_FOR_LEGACY_USE_ONLY)
}

/// A running SHA-1 computation, tracking the bytes fed so far.
pub struct Sha1Context {
    ctx: ring::digest::Context,
    fed: Ghost<Seq<u8>>,
}

impl Sha1Context {
    pub closed spec fn fed_bytes(self) -> Seq<u8> {
        self.fed@
    }

    /// A fresh SHA-1 computation with nothing fed yet.
    pub fn new() -> (r: Self)
        ensures
            r.fed_bytes() == Seq::<u8>::empty(),
    {
        Sha1Context { ctx: sha1_context_new(), fed: Ghost(Seq::empty()) }
    }

    /// Relies on ring's `digest::Context::update`: it appends bytes to the
    /// hashed message.
    #[verifier::external_body]
    pub fn update(&mut self, data: &[u8])
        ensures
            final(self).fed_bytes() == old(self).fed_bytes() + data@,
    {
        self.ctx.update(data);
    }

    /// Relies on ring's `digest::Context::finish`: the 20-byte SHA-1
    /// digest of all bytes fed, a function of those bytes alone.
    #[verifier::external_body]
    pub fn finish(self) -> (r: Vec<u8>)
        ensures
            r@ == sha1_of(self.fed_bytes()),
            r@.len() == 20,
    {
        self.ctx.finish().as_ref().to_vec()
    }
}

/// The big-endian bytes of a 64-bit value.
pub open spec fn u64_be_bytes(x: u64) -> Seq<u8> {
    seq![
        (x >> 56 & 0xff) as u8,
        (x >> 48 & 0xff) as u8,
        (x >> 40 & 0xff) as u8,
        (x >> 32 & 0xff) as u8,
        (x >> 24 & 0xff) as u8,
        (x >> 16 & 0xff) as u8,
        (x >> 8 & 0xff) as u8,
        (x & 0xff) as u8,
    ]
}

/// Writes a 64-bit value as eight big-endian bytes.
pub fn write_u64_be(x: u64) -> (r: Vec<u8>)
    ensures
        r@ == u64_be_bytes(x),
{
    let mut r: Vec<u8> = Vec::new();
    r.push((x >> 56 & 0xff) as u8);
    r.push((x >> 48 & 0xff) as u8);
    r.push((x >> 40 & 0xff) as u8);
    r.push((x >> 32 & 0xff) as u8);
    r.push((x >> 24 & 0xff) as u8);
    r.push((x >> 16 & 0xff) as u8);
    r.push((x >> 8 & 0xff) as u8);
    r.push((x & 0xff) as u8);
    assert(r@ =~= u64_be_bytes(x));
    r
}

pub open spec fn tag_bytes(t: OsAppTagKV) -> Seq<u8> {
    encode_utf8(t.key@) + encode_utf8(t.value@)
}

pub open spec fn tags_bytes(ts: Seq<OsAppTagKV>) -> Seq<u8>
    decreases ts.len(),
{
    if ts.len() == 0 {
        Seq::empty()
    } else {
        tags_bytes(ts.drop_last()) + tag_bytes(ts.last())
    }
}

/// What one process feeds into the digest: its pid in big-endian bytes,
/// then each tag's key and value bytes. Name, command line, user and
/// start time are left out on purpose.
pub open spec fn digest_input_one(p: ProcessData) -> Seq<u8> {
    u64_be_bytes(p.pid) + tags_bytes(p.os_app_tags@)
}

pub open spec fn digest_input(s: Seq<ProcessData>) -> Seq<u8>
    decreases s.len(),
{
    if s.len() == 0 {
        Seq::empty()
    } else {
        digest_input(s.drop_last()) + digest_input_one(s.last())
    }
}

impl ProcessData {
    /// Feeds this process's pid and tags into a running digest.
    pub fn digest(&self, dist_ctx: &mut Sha1Context)
        ensures
            final(dist_ctx).fed_bytes() == old(dist_ctx).fed_bytes() + digest_input_one(*self),
    {
        let pid = write_u64_be(self.pid);
        dist_ctx.update(pid.as_slice());
        let n: usize = self.os_app_tags.len();
        assert(self.os_app_tags@.take(0) =~= Seq::<OsAppTagKV>::empty());
        for i in 0..n
            invariant
                n == self.os_app_tags@.len(),
                dist_ctx.fed_bytes() == old(dist_ctx).fed_bytes() + u64_be_bytes(self.pid)
                    + tags_bytes(self.os_app_tags@.take(i as int)),
        {
            proof {
                assert(self.os_app_tags@.take(i + 1).drop_last() =~= self.os_app_tags@.take(
                    i as int,
                ));
                assert(self.os_app_tags@.take(i + 1).last() == self.os_app_tags@[i as int]);
            }
            dist_ctx.update(self.os_app_tags[i].key.as_str().as_bytes());
            dist_ctx.update(self.os_app_tags[i].value.as_str().as_bytes());
            assert(dist_ctx.fed_bytes() =~= old(dist_ctx).fed_bytes() + u64_be_bytes(self.pid)
                + tags_bytes(self.os_app_tags@.take(i + 1)));
        }
        assert(self.os_app_tags@.take(n as int) =~= self.os_app_tags@);
        assert(dist_ctx.fed_bytes() =~= old(dist_ctx).fed_bytes() + digest_input_one(*self));
    }
}

/// SHA-1 fingerprint over a pid-sorted process sequence; only pid and
/// tags enter the digest.
pub fn calc_process_datas_sha1(data: &Vec<ProcessData>) -> (r: Vec<u8>)
    ensures
        r@ == sha1_of(digest_input(data@)),
        r@.len() == 20,
{
    let mut h = Sha1Context::new();
    let n: usize = data.len();
    assert(data@.take(0) =~= Seq::<ProcessData>::empty());
    for i in 0..n
        invariant
            n == data@.len(),
            h.fed_bytes() == digest_input(data@.take(i as int)),
    {
        proof {
            assert(data@.take(i + 1).drop_last() =~= data@.take(i as int));
            assert(data@.take(i + 1).last() == data@[i as int]);
        }
        data[i].digest(&mut h);
        assert(h.fed_bytes() =~= digest_input(data@.take(i + 1)));
    }
    assert(data@.take(n as int) =~= data@);
    h.finish()
}

// ---------------------------------------------------------------------------
// Digest laws
// ---------------------------------------------------------------------------

/// The digest reads only pid and tags: two sequences that agree pointwise
/// on pid and tags feed identical bytes, whatever their names, command
/// lines, users and start times.
pub proof fn lemma_digest_ignores_other_fields(a: Seq<ProcessData>, b: Seq<ProcessData>)
    requires
        a.len() == b.len(),
        forall|i: int|
            0 <= i < a.len() ==> (#[trigger] a[i]).pid == b[i].pid && a[i].os_app_tags@
                == b[i].os_app_tags@,
    ensures
        digest_input(a) == digest_input(b),
    decreases a.len(),
{
    if a.len() > 0 {
        assert(forall|i: int|
            0 <= i < a.drop_last().len() ==> a.drop_last()[i] == a[i] && b.drop_last()[i] == b[i]);
        lemma_digest_ignores_other_fields(a.drop_last(), b.drop_last());
        assert(a.last() == a[a.len() - 1] && b.last() == b[a.len() - 1]);
        assert(digest_input_one(a.last()) == digest_input_one(b.last()));
    }
}

pub open spec fn sorted_by_pid(s: Seq<ProcessData>) -> bool {
    forall|i: int, j: int| 0 <= i < j < s.len() ==> s[i].pid <= s[j].pid
}

pub open spec fn distinct_pids(s: Seq<ProcessData>) -> bool {
    forall|i: int, j: int| 0 <= i < j < s.len() ==> s[i].pid != s[j].pid
}

/// Sorting by pid pins the order: two pid-sorted sequences holding the
/// same processes (with distinct pids) are equal, so the digest does not
/// depend on the order the processes were discovered in.
pub proof fn lemma_sorted_permutation_unique(a: Seq<ProcessData>, b: Seq<ProcessData>)
    requires
        a.to_multiset() == b.to_multiset(),
        sorted_by_pid(a),
        sorted_by_pid(b),
        distinct_pids(a),
    ensures
        a == b,
    decreases a.len(),
{
    broadcast use vstd::seq_lib::group_to_multiset_ensures;

    a.to_multiset_ensures();
    b.to_multiset_ensures();
    assert(a.len() == a.to_multiset().len());
    assert(b.len() == b.to_multiset().len());
    if a.len() == 0 {
        assert(a =~= b);
    } else {
        let x = a.last();
        let y = b.last();
        assert(a.contains(x)) by {
            assert(a[a.len() - 1] == x);
        }
        assert(b.contains(y)) by {
            assert(b[b.len() - 1] == y);
        }
        assert(b.contains(x)) by {
            assert(a.to_multiset().count(x) > 0);
            assert(b.to_multiset().count(x) > 0);
        }
        assert(a.contains(y)) by {
            assert(b.to_multiset().count(y) > 0);
            assert(a.to_multiset().count(y) > 0);
        }
        let i = choose|i: int| 0 <= i < a.len() && a[i] == y;
        let j = choose|j: int| 0 <= j < b.len() && b[j] == x;
        assert(a[i].pid <= a.last().pid);
        assert(b[j].pid <= b.last().pid);
        assert(x.pid == y.pid);
        assert(i == a.len() - 1) by {
            if i < a.len() - 1 {
                assert(a[i].pid != a[a.len() - 1].pid);
                assert(y.pid < x.pid);
            }
        }
        assert(x == y);
        assert(a =~= a.drop_last().push(x));
        assert(b =~= b.drop_last().push(x));
        assert(a.drop_last().push(x).to_multiset() == a.drop_last().to_multiset().insert(x));
        assert(b.drop_last().push(x).to_multiset() == b.drop_last().to_multiset().insert(x));
        assert(a.drop_last().to_multiset() =~= b.drop_last().to_multiset()) by {
            let m1 = a.drop_last().to_multiset();
            let m2 = b.drop_last().to_multiset();
            assert(m1.insert(x) == m2.insert(x));
            assert forall|e: ProcessData| m1.count(e) == m2.count(e) by {
                assert(m1.insert(x).count(e) == m2.insert(x).count(e));
                if e == x {
                    vstd::multiset::lemma_insert_increases_count_by_1(m1, x);
                    vstd::multiset::lemma_insert_increases_count_by_1(m2, x);
                } else {
                    vstd::multiset::lemma_insert_other_elements_unchanged(m1, x, e);
                    vstd::multiset::lemma_insert_other_elements_unchanged(m2, x, e);
                }
            }
        }
        assert(forall|p: int, q: int|
            0 <= p < q < a.drop_last().len() ==> a.drop_last()[p] == a[p] && a.drop_last()[q]
                == a[q]);
        assert(forall|p: int, q: int|
            0 <= p < q < b.drop_last().len() ==> b.drop_last()[p] == b[p] && b.drop_last()[q]
                == b[q]);
        lemma_sorted_permutation_unique(a.drop_last(), b.drop_last());
        assert(a =~= b);
    }
}

/// Scanner digest stability: for one set of processes with distinct pids,
/// any two pid-sorted arrangements feed the same bytes to the digest.
pub proof fn lemma_digest_order_independent(a: Seq<ProcessData>, b: Seq<ProcessData>)
    requires
        a.to_multiset() == b.to_multiset(),
        sorted_by_pid(a),
        sorted_by_pid(b),
        distinct_pids(a),
    ensures
        digest_input(a) == digest_input(b),
{
    lemma_sorted_permutation_unique(a, b);
}

// ---------------------------------------------------------------------------
// Tags fetched for pids
// ---------------------------------------------------------------------------

/// The tags of the last record for a pid, mirroring map construction
/// where a later record for the same pid wins.
pub open spec fn last_tags_for(rs: Seq<(u64, Vec<OsAppTagKV>)>, pid: u64) -> Option<
    Vec<OsAppTagKV>,
>
    decreases rs.len(),
{
    if rs.len() == 0 {
        None
    } else if rs.last().0 == pid {
        Some(rs.last().1)
    } else {
        last_tags_for(rs.drop_last(), pid)
    }
}

/// Inserting an element into a sequence adds exactly it to the bag of
/// elements.
proof fn lemma_seq_insert_to_multiset(s: Seq<ProcessData>, j: int, x: ProcessData)
    requires
        0 <= j <= s.len(),
    ensures
        s.insert(j, x).to_multiset() == s.to_multiset().insert(x),
{
    broadcast use vstd::seq_lib::group_to_multiset_ensures;
    broadcast use vstd::multiset::group_multiset_axioms;

    let u = s.insert(j, x);
    assert(u.remove(j) =~= s);
    assert(u[j] == x);
    assert(u.remove(j).to_multiset() =~= u.to_multiset().remove(x));
    assert(u.contains(x));
    assert(u.to_multiset().count(x) > 0);
    assert forall|e: ProcessData|
        u.to_multiset().count(e) == s.to_multiset().insert(x).count(e) by {
        assert(s.to_multiset().count(e) == u.to_multiset().remove(x).count(e));
    }
    assert(u.to_multiset() =~= s.to_multiset().insert(x));
}

/// Sorts the processes by pid ascending, keeping exactly the same
/// processes, so the digest below reads them in a canonical order.
#[verifier::loop_isolation(false)]
pub fn sort_processes_by_pid(v: &mut Vec<ProcessData>)
    ensures
        final(v)@.to_multiset() == old(v)@.to_multiset(),
        final(v)@.len() == old(v)@.len(),
        sorted_by_pid(final(v)@),
{
    let n: usize = v.len();
    for i in 0..n
        invariant
            v@.len() == n,
            v@.to_multiset() == old(v)@.to_multiset(),
            sorted_by_pid(v@.take(i as int)),
    {
        let mut j: usize = i;
        while j > 0 && v[j - 1].pid > v[i].pid
            invariant
                j <= i,
                forall|k: int| j <= k < i ==> v@[k].pid > v@[i as int].pid,
            decreases j,
        {
            j = j - 1;
        }
        let ghost pre = v@;
        let ghost xg = v@[i as int];
        let x = v.remove(i);
        let ghost w = v@;
        proof {
            broadcast use vstd::seq_lib::group_to_multiset_ensures;

            assert(x == xg);
            assert(w =~= pre.remove(i as int));
            lemma_seq_insert_to_multiset(w, j as int, x);
        }
        v.insert(j, x);
        proof {
            broadcast use vstd::seq_lib::group_to_multiset_ensures;

            assert(pre.remove(i as int).to_multiset() =~= pre.to_multiset().remove(xg));
            assert(v@.to_multiset() =~= pre.to_multiset().remove(xg).insert(xg));
            assert(pre.to_multiset().count(xg) > 0) by {
                assert(pre.contains(xg));
            }
            assert forall|e: ProcessData|
                pre.to_multiset().remove(xg).insert(xg).count(e) == pre.to_multiset().count(
                    e,
                ) by {
                broadcast use vstd::multiset::group_multiset_axioms;

            }
            assert(v@.to_multiset() =~= pre.to_multiset());
            assert(sorted_by_pid(v@.take(i + 1))) by {
                let u = v@.take(i + 1);
                assert forall|a: int, b: int| 0 <= a < b < u.len() implies u[a].pid
                    <= u[b].pid by {
                    let ja = j as int;
                    let av = if a < ja {
                        pre[a]
                    } else if a == ja {
                        xg
                    } else {
                        pre[a - 1]
                    };
                    let bv = if b < ja {
                        pre[b]
                    } else if b == ja {
                        xg
                    } else {
                        pre[b - 1]
                    };
                    assert(u[a] == av && u[b] == bv);
                    if j > 0 {
                        assert(pre[ja - 1].pid <= xg.pid);
                    }
                    assert(forall|k: int| ja <= k < i ==> pre[k].pid > xg.pid);
                    assert(sorted_by_pid(pre.take(i as int)));
                    assert forall|p: int, q: int| 0 <= p < q < i implies pre[p].pid
                        <= pre[q].pid by {
                        assert(pre.take(i as int)[p] == pre[p]);
                        assert(pre.take(i as int)[q] == pre[q]);
                    }
                }
            }
        }
    }
    proof {
        assert(v@.take(n as int) =~= v@);
    }
}

/// Sorts by pid, then computes the SHA-1 fingerprint over the canonical
/// order.
pub fn digest_sorted(data: &mut Vec<ProcessData>) -> (r: Vec<u8>)
    ensures
        final(data)@.to_multiset() == old(data)@.to_multiset(),
        sorted_by_pid(final(data)@),
        r@ == sha1_of(digest_input(final(data)@)),
        r@.len() == 20,
{
    sort_processes_by_pid(data);
    calc_process_datas_sha1(data)
}

/// The records with the last entry for `pid` taken out; records without
/// the pid are left unchanged.
pub open spec fn remove_last_tag(rs: Seq<(u64, Vec<OsAppTagKV>)>, pid: u64) -> Seq<
    (u64, Vec<OsAppTagKV>),
>
    decreases rs.len(),
{
    if rs.len() == 0 {
        rs
    } else if rs.last().0 == pid {
        rs.drop_last()
    } else {
        remove_last_tag(rs.drop_last(), pid).push(rs.last())
    }
}

proof fn lemma_remove_last_tag_at(rs: Seq<(u64, Vec<OsAppTagKV>)>, pid: u64, i: int)
    requires
        0 <= i < rs.len(),
        rs[i].0 == pid,
        forall|j: int| i < j < rs.len() ==> (#[trigger] rs[j]).0 != pid,
    ensures
        remove_last_tag(rs, pid) == rs.remove(i),
    decreases rs.len(),
{
    if i == rs.len() - 1 {
        assert(remove_last_tag(rs, pid) =~= rs.remove(i));
    } else {
        assert(rs.last().0 != pid) by {
            assert(rs[rs.len() - 1].0 != pid);
        }
        assert(forall|j: int|
            i < j < rs.drop_last().len() ==> rs.drop_last()[j] == rs[j]);
        assert(rs.drop_last()[i] == rs[i]);
        lemma_remove_last_tag_at(rs.drop_last(), pid, i);
        assert(remove_last_tag(rs, pid) == rs.drop_last().remove(i).push(rs.last()));
        assert(remove_last_tag(rs, pid) =~= rs.remove(i));
    }
}

proof fn lemma_remove_last_tag_absent(rs: Seq<(u64, Vec<OsAppTagKV>)>, pid: u64)
    requires
        forall|j: int| 0 <= j < rs.len() ==> (#[trigger] rs[j]).0 != pid,
    ensures
        remove_last_tag(rs, pid) == rs,
    decreases rs.len(),
{
    if rs.len() > 0 {
        assert(rs.last().0 != pid) by {
            assert(rs[rs.len() - 1].0 != pid);
        }
        assert(forall|j: int|
            0 <= j < rs.drop_last().len() ==> rs.drop_last()[j] == rs[j]);
        lemma_remove_last_tag_absent(rs.drop_last(), pid);
        assert(remove_last_tag(rs, pid) =~= rs);
    }
}

/// The pid-to-tags records of one tag-fetch run, consumed as processes
/// claim them.
pub struct TagMap {
    pub entries: Vec<(u64, Vec<OsAppTagKV>)>,
}

impl TagMap {
    /// Wraps the records of one fetch; a later record for the same pid
    /// shadows an earlier one.
    pub fn from_records(records: Vec<(u64, Vec<OsAppTagKV>)>) -> (r: TagMap)
        ensures
            r.entries@ == records@,
    {
        TagMap { entries: records }
    }

    /// Takes the tags for a pid out of the map: the latest record for the
    /// pid, if one is left.
    pub fn remove(&mut self, pid: u64) -> (r: Option<Vec<OsAppTagKV>>)
        ensures
            r == last_tags_for(old(self).entries@, pid),
            final(self).entries@ == remove_last_tag(old(self).entries@, pid),
            match r {
                Some(ts) => exists|k: int|
                    0 <= k < old(self).entries@.len() && old(self).entries@[k] == (pid, ts)
                        && final(self).entries@ == old(self).entries@.remove(k),
                None => final(self).entries@ == old(self).entries@,
            },
    {
        let n: usize = self.entries.len();
        let ghost es = self.entries@;
        assert(es.take(n as int) =~= es);
        let mut i: usize = n;
        while i > 0
            invariant
                n == self.entries@.len(),
                es == self.entries@,
                es == old(self).entries@,
                i <= n,
                last_tags_for(es, pid) == last_tags_for(es.take(i as int), pid),
                forall|j: int| i <= j < n ==> (#[trigger] es[j]).0 != pid,
            decreases i,
        {
            i = i - 1;
            proof {
                assert(es.take(i + 1).drop_last() =~= es.take(i as int));
                assert(es.take(i + 1).last() == es[i as int]);
            }
            if self.entries[i].0 == pid {
                proof {
                    assert(last_tags_for(es, pid) == Some(es[i as int].1));
                }
                let e = self.entries.remove(i);
                proof {
                    assert(e == es[i as int]);
                    assert(es[i as int] == (pid, e.1));
                    assert(self.entries@ == es.remove(i as int));
                    lemma_remove_last_tag_at(es, pid, i as int);
                }
                return Some(e.1);
            }
        }
        proof {
            assert(es.take(0) =~= Seq::<(u64, Vec<OsAppTagKV>)>::empty());
            lemma_remove_last_tag_absent(es, pid);
        }
        None
    }
}

/// Tag fetching runs only with both a user and a command configured.
pub fn tag_fetch_enabled(user: &String, cmd: &Vec<String>) -> (r: bool)
    ensures
        r == (user@.len() > 0 && cmd@.len() > 0),
{
    !user.as_str().is_empty() && cmd.len() > 0
}

// ---------------------------------------------------------------------------
// The scan
// ---------------------------------------------------------------------------

/// Whether the scan emits this process: it must have been alive at the
/// reference time for at least the minimum lifetime, and the first
/// matching rule, if any, must accept it.
pub open spec fn scan_keep(
    rules: Seq<ProcRegRewrite>,
    p: ProcessData,
    min_lifetime: u32,
    now_sec: u64,
) -> bool {
    &&& p.start_time <= now_sec
    &&& now_sec - p.start_time >= min_lifetime
    &&& match first_matching_rule(rules, p) {
        Some(rule) => rule.spec_action() == RegExpAction::Accept,
        None => false,
    }
}

/// The display name after the first matching rule applied.
pub open spec fn scan_display_name(rules: Seq<ProcRegRewrite>, p: ProcessData) -> Seq<char> {
    match first_matching_rule(rules, p) {
        Some(rule) => rewritten_name(rule, p),
        None => p.name@,
    }
}

/// Evaluates the rules against one process, first match winning: a drop
/// match or no match at all discards it; an accept match emits it, with
/// the display name rewritten when the rule carries a template.
#[verifier::loop_isolation(false)]
pub fn scan_one(
    proc: ProcessData,
    rules: &Vec<ProcRegRewrite>,
    min_lifetime: u32,
    now_sec: u64,
) -> (r: Option<ProcessData>)
    requires
        forall|i: int| 0 <= i < rules@.len() ==> (#[trigger] rules@[i]).wf(),
    ensures
        match r {
            Some(out) => scan_keep(rules@, proc, min_lifetime, now_sec) && out.name@
                == scan_display_name(rules@, proc) && out.pid == proc.pid && out.process_name
                == proc.process_name && out.cmd == proc.cmd && out.user_id == proc.user_id
                && out.user == proc.user && out.start_time == proc.start_time && out.os_app_tags
                == proc.os_app_tags,
            None => !scan_keep(rules@, proc, min_lifetime, now_sec),
        },
{
    let up: u64 = match proc.up_sec(now_sec) {
        Ok(u) => u,
        Err(_) => {
            return None;
        },
    };
    if up < min_lifetime as u64 {
        return None;
    }
    let ghost orig = proc;
    let mut proc = proc;
    let n: usize = rules.len();
    for i in 0..n
        invariant
            n == rules@.len(),
            forall|k: int| 0 <= k < rules@.len() ==> (#[trigger] rules@[k]).wf(),
            forall|j: int| 0 <= j < i ==> !rule_matches(#[trigger] rules@[j], orig),
            proc == orig,
            orig.start_time <= now_sec,
            now_sec - orig.start_time >= min_lifetime,
    {
        let matched = rules[i].match_and_rewrite_proc(&mut proc, false);
        proof {
            assert(rule_matches(rules@[i as int], proc) == rule_matches(rules@[i as int], orig));
        }
        if matched {
            proof {
                lemma_first_match_wins(rules@, orig, i as int);
            }
            if matches!(rules[i].action(), RegExpAction::Drop) {
                proof {
                    assert(first_matching_rule(rules@, orig) == Some(rules@[i as int]));
                    assert(rules@[i as int].spec_action() == RegExpAction::Drop);
                    assert(!scan_keep(rules@, orig, min_lifetime, now_sec));
                }
                return None;
            }
            proof {
                assert(first_matching_rule(rules@, orig) == Some(rules@[i as int]));
                assert(rules@[i as int].spec_action() == RegExpAction::Accept);
                assert(scan_keep(rules@, orig, min_lifetime, now_sec));
                assert(proc.name@ == scan_display_name(rules@, orig));
                assert(proc.name@ == rewritten_name(rules@[i as int], orig));
                assert(proc.pid == orig.pid && proc.process_name == orig.process_name
                    && proc.cmd == orig.cmd && proc.user_id == orig.user_id && proc.user
                    == orig.user && proc.start_time == orig.start_time && proc.os_app_tags
                    == orig.os_app_tags);
            }
            return Some(proc);
        }
    }
    proof {
        lemma_no_match(rules@, orig);
    }
    None
}

/// How many of the scanned processes the rules keep.
pub open spec fn kept_count(
    rules: Seq<ProcRegRewrite>,
    procs: Seq<ProcessData>,
    min_lifetime: u32,
    now_sec: u64,
) -> nat
    decreases procs.len(),
{
    if procs.len() == 0 {
        0
    } else {
        kept_count(rules, procs.drop_last(), min_lifetime, now_sec) + (if scan_keep(
            rules,
            procs.last(),
            min_lifetime,
            now_sec,
        ) {
            1nat
        } else {
            0nat
        })
    }
}

/// The tag records left over after the scan: each kept process, in scan
/// order, took the latest record for its pid out of the map.
pub open spec fn consume_tags(
    rules: Seq<ProcRegRewrite>,
    procs: Seq<ProcessData>,
    min_lifetime: u32,
    now_sec: u64,
    records: Seq<(u64, Vec<OsAppTagKV>)>,
) -> Seq<(u64, Vec<OsAppTagKV>)>
    decreases procs.len(),
{
    if procs.len() == 0 {
        records
    } else {
        let prev = consume_tags(rules, procs.drop_last(), min_lifetime, now_sec, records);
        if scan_keep(rules, procs.last(), min_lifetime, now_sec) {
            remove_last_tag(prev, procs.last().pid)
        } else {
            prev
        }
    }
}

/// The emitted process at input index `j`: kept by the rules, its name
/// rewritten by the first matching rule, and its tags the latest record
/// the map still held for its pid when its turn came (its own tags when
/// none was left).
pub open spec fn emitted_at(
    rules: Seq<ProcRegRewrite>,
    procs: Seq<ProcessData>,
    j: int,
    out: ProcessData,
    min_lifetime: u32,
    now_sec: u64,
    records: Seq<(u64, Vec<OsAppTagKV>)>,
) -> bool {
    &&& 0 <= j < procs.len()
    &&& scan_keep(rules, procs[j], min_lifetime, now_sec)
    &&& out.name@ == scan_display_name(rules, procs[j])
    &&& out.pid == procs[j].pid
    &&& out.process_name == procs[j].process_name
    &&& out.cmd == procs[j].cmd
    &&& out.user_id == procs[j].user_id
    &&& out.user == procs[j].user
    &&& out.start_time == procs[j].start_time
    &&& out.os_app_tags == (match last_tags_for(
        consume_tags(rules, procs.take(j), min_lifetime, now_sec, records),
        procs[j].pid,
    ) {
        Some(ts) => ts,
        None => procs[j].os_app_tags,
    })
}

pub open spec fn strictly_increasing(idx: Seq<int>) -> bool {
    forall|a: int, b: int| 0 <= a < b < idx.len() ==> idx[a] < idx[b]
}

/// The outputs are the kept processes in scan order: some strictly
/// increasing sequence of input indexes accounts for them one by one.
pub open spec fn outputs_match(
    rules: Seq<ProcRegRewrite>,
    procs: Seq<ProcessData>,
    outs: Seq<ProcessData>,
    min_lifetime: u32,
    now_sec: u64,
    records: Seq<(u64, Vec<OsAppTagKV>)>,
) -> bool {
    exists|idx: Seq<int>|
        #![auto]
        idx.len() == outs.len() && strictly_increasing(idx) && forall|k: int|
            0 <= k < outs.len() ==> emitted_at(
                rules,
                procs,
                idx[k],
                outs[k],
                min_lifetime,
                now_sec,
                records,
            )
}

/// Filters, rewrites and tags the scanned processes: uptime filter first,
/// then the rules with the first match winning, then the latest tag
/// record for the pid, consumed from the map.
#[verifier::loop_isolation(false)]
pub fn scan_filter(
    procs: Vec<ProcessData>,
    rules: &Vec<ProcRegRewrite>,
    min_lifetime: u32,
    now_sec: u64,
    tags: &mut TagMap,
) -> (r: Vec<ProcessData>)
    requires
        forall|i: int| 0 <= i < rules@.len() ==> (#[trigger] rules@[i]).wf(),
    ensures
        r@.len() == kept_count(rules@, procs@, min_lifetime, now_sec),
        final(tags).entries@ == consume_tags(
            rules@,
            procs@,
            min_lifetime,
            now_sec,
            old(tags).entries@,
        ),
        outputs_match(rules@, procs@, r@, min_lifetime, now_sec, old(tags).entries@),
{
    let ghost procs0 = procs@;
    let ghost records0 = tags.entries@;
    let mut procs = procs;
    let mut out: Vec<ProcessData> = Vec::new();
    let ghost mut idx: Seq<int> = Seq::empty();
    let n: usize = procs.len();
    for i in 0..n
        invariant
            n == procs0.len(),
            procs@ =~= procs0.skip(i as int),
            forall|k: int| 0 <= k < rules@.len() ==> (#[trigger] rules@[k]).wf(),
            out@.len() == kept_count(rules@, procs0.take(i as int), min_lifetime, now_sec),
            tags.entries@ == consume_tags(
                rules@,
                procs0.take(i as int),
                min_lifetime,
                now_sec,
                records0,
            ),
            idx.len() == out@.len(),
            strictly_increasing(idx),
            forall|k: int| 0 <= k < idx.len() ==> 0 <= #[trigger] idx[k] < i,
            forall|k: int|
                0 <= k < out@.len() ==> emitted_at(
                    rules@,
                    procs0,
                    idx[k],
                    #[trigger] out@[k],
                    min_lifetime,
                    now_sec,
                    records0,
                ),
    {
        let p = procs.remove(0);
        proof {
            assert(p == procs0.skip(i as int)[0]);
            assert(procs0.skip(i as int)[0] == procs0[i as int]);
            assert(procs0.skip(i as int).remove(0) =~= procs0.skip(i + 1));
            assert(procs0.take(i + 1).drop_last() =~= procs0.take(i as int));
            assert(procs0.take(i + 1).last() == procs0[i as int]);
        }
        match scan_one(p, rules, min_lifetime, now_sec) {
            Some(mut accepted) => {
                let ghost state = tags.entries@;
                let got = tags.remove(accepted.pid);
                proof {
                    assert(tags.entries@ == remove_last_tag(state, accepted.pid));
                    assert(tags.entries@ == consume_tags(
                        rules@,
                        procs0.take(i + 1),
                        min_lifetime,
                        now_sec,
                        records0,
                    ));
                }
                match got {
                    Some(ts) => {
                        accepted.os_app_tags = ts;
                    },
                    None => {},
                }
                out.push(accepted);
                proof {
                    let ghost prev_idx = idx;
                    idx = idx.push(i as int);
                    assert(strictly_increasing(idx)) by {
                        assert(forall|a: int|
                            0 <= a < prev_idx.len() ==> idx[a] == prev_idx[a]);
                        assert(idx[idx.len() - 1] == i as int);
                    }
                    assert(emitted_at(
                        rules@,
                        procs0,
                        i as int,
                        out@.last(),
                        min_lifetime,
                        now_sec,
                        records0,
                    ));
                }
            },
            None => {},
        }
    }
    proof {
        assert(procs0.take(n as int) =~= procs0);
    }
    out
}

/// The whole scan from raw configuration: compiles the rule list and
/// runs the filter; the first invalid rule aborts with its error before
/// any process is looked at, so a valid configuration always scans.
pub fn scan_processes(
    cfgs: &Vec<OsProcRegexp>,
    procs: Vec<ProcessData>,
    min_lifetime: u32,
    now_sec: u64,
    tags: &mut TagMap,
) -> (r: Result<Vec<ProcessData>, RuleError>)
    ensures
        r matches Ok(out) ==> exists|rules: Seq<ProcRegRewrite>|
            #[trigger] rules_from_cfgs(cfgs@, rules) && out@.len() == kept_count(
                rules,
                procs@,
                min_lifetime,
                now_sec,
            ) && final(tags).entries@ == consume_tags(
                rules,
                procs@,
                min_lifetime,
                now_sec,
                old(tags).entries@,
            ) && outputs_match(rules, procs@, out@, min_lifetime, now_sec, old(tags).entries@),
        match first_cfg_error(cfgs@) {
            Some(e) => r == Err::<Vec<ProcessData>, RuleError>(e),
            None => r is Ok,
        },
        r is Err ==> final(tags).entries@ == old(tags).entries@,
{
    let rules = match compile_rules(cfgs) {
        Ok(rules) => rules,
        Err(e) => {
            return Err(e);
        },
    };
    let ghost rs = rules@;
    let out = scan_filter(procs, &rules, min_lifetime, now_sec, tags);
    proof {
        assert(rules_from_cfgs(cfgs@, rs));
    }
    Ok(out)
}

/// Each compiled rule corresponds to its configuration entry.
pub open spec fn rules_from_cfgs(cfgs: Seq<OsProcRegexp>, rules: Seq<ProcRegRewrite>) -> bool {
    rules.len() == cfgs.len() && forall|i: int|
        0 <= i < rules.len() ==> rule_from_cfg(cfgs[i], #[trigger] rules[i])
}


} // verus!
