//! Parsing of `passwd`-format user databases, one per mount namespace,
//! plus the per-scan cache keyed by root-directory inode.

use vstd::prelude::*;
use vstd::string::StringSliceAdditionalSpecFns;
use vstd::utf8::encode_utf8;

use crate::util::bytes_eq;

verus! {

// ---------------------------------------------------------------------------
// Splitting bytes on a separator
// ---------------------------------------------------------------------------

/// The pieces of `s` between occurrences of `sep`; always at least one
/// piece, and empty pieces are kept.
pub open spec fn split_bytes(s: Seq<u8>, sep: u8) -> Seq<Seq<u8>>
    decreases s.len(),
{
    if s.len() == 0 {
        seq![Seq::<u8>::empty()]
    } else {
        let r = split_bytes(s.drop_last(), sep);
        if s.last() == sep {
            r.push(Seq::empty())
        } else {
            r.update(r.len() - 1, r.last().push(s.last()))
        }
    }
}

proof fn lemma_split_bytes_nonempty(s: Seq<u8>, sep: u8)
    ensures
        split_bytes(s, sep).len() >= 1,
    decreases s.len(),
{
    if s.len() > 0 {
        lemma_split_bytes_nonempty(s.drop_last(), sep);
    }
}

/// Splits a byte slice on a separator byte.
pub fn split_bytes_exec(s: &[u8], sep: u8) -> (r: Vec<Vec<u8>>)
    ensures
        r@.map_values(|p: Vec<u8>| p@) == split_bytes(s@, sep),
{
    let mut done: Vec<Vec<u8>> = Vec::new();
    let mut cur: Vec<u8> = Vec::new();
    let n: usize = s.len();
    assert(s@.take(0) =~= Seq::<u8>::empty());
    for i in 0..n
        invariant
            n == s@.len(),
            done@.map_values(|p: Vec<u8>| p@).push(cur@) == split_bytes(s@.take(i as int), sep),
    {
        proof {
            assert(s@.take(i + 1).drop_last() =~= s@.take(i as int));
            assert(s@.take(i + 1).last() == s@[i as int]);
            lemma_split_bytes_nonempty(s@.take(i as int), sep);
        }
        let ghost before = done@.map_values(|p: Vec<u8>| p@).push(cur@);
        if s[i] == sep {
            done.push(cur);
            cur = Vec::new();
            assert(done@.map_values(|p: Vec<u8>| p@).push(cur@) =~= before.push(Seq::empty()));
        } else {
            cur.push(s[i]);
            assert(done@.map_values(|p: Vec<u8>| p@).push(cur@) =~= before.update(
                before.len() - 1,
                before.last().push(s@[i as int]),
            ));
        }
        assert(done@.map_values(|p: Vec<u8>| p@).push(cur@) =~= split_bytes(
            s@.take(i + 1),
            sep,
        ));
    }
    assert(s@.take(n as int) =~= s@);
    done.push(cur);
    assert(done@.map_values(|p: Vec<u8>| p@) =~= split_bytes(s@, sep));
    done
}

// ---------------------------------------------------------------------------
// Decimal uids
// ---------------------------------------------------------------------------

pub open spec fn is_digits(s: Seq<u8>) -> bool {
    s.len() > 0 && forall|i: int| 0 <= i < s.len() ==> 0x30 <= #[trigger] s[i] <= 0x39
}

pub open spec fn dec_val(s: Seq<u8>) -> nat
    decreases s.len(),
{
    if s.len() == 0 {
        0
    } else {
        dec_val(s.drop_last()) * 10 + (s.last() - 0x30) as nat
    }
}

pub open spec fn parse_uid(s: Seq<u8>) -> Option<u32> {
    if is_digits(s) && dec_val(s) <= u32::MAX {
        Some(dec_val(s) as u32)
    } else {
        None
    }
}

proof fn lemma_dec_val_monotone(s: Seq<u8>, i: int)
    requires
        0 <= i <= s.len(),
    ensures
        dec_val(s.take(i)) <= dec_val(s),
    decreases s.len() - i,
{
    if i < s.len() {
        lemma_dec_val_monotone(s, i + 1);
        assert(s.take(i + 1).drop_last() =~= s.take(i));
        assert(dec_val(s.take(i + 1)) == dec_val(s.take(i)) * 10 + (s.take(i + 1).last() - 0x30) as nat);
        assert(dec_val(s.take(i)) * 10 >= dec_val(s.take(i))) by (nonlinear_arith);
    } else {
        assert(s.take(i) =~= s);
    }
}

/// Parses a decimal number that must fit in a `u32`.
pub fn parse_uid_exec(s: &[u8]) -> (r: Option<u32>)
    ensures
        r == parse_uid(s@),
{
    let n: usize = s.len();
    if n == 0 {
        return None;
    }
    let mut v: u32 = 0;
    assert(s@.take(0) =~= Seq::<u8>::empty());
    for i in 0..n
        invariant
            n == s@.len(),
            n > 0,
            v == dec_val(s@.take(i as int)),
            dec_val(s@.take(i as int)) <= u32::MAX,
            forall|j: int| 0 <= j < i ==> 0x30 <= #[trigger] s@[j] <= 0x39,
    {
        let b: u8 = s[i];
        if b < 0x30 || b > 0x39 {
            return None;
        }
        let d: u32 = (b - 0x30) as u32;
        proof {
            assert(s@.take(i + 1).drop_last() =~= s@.take(i as int));
            assert(dec_val(s@.take(i + 1)) == dec_val(s@.take(i as int)) * 10 + (s@[i as int]
                - 0x30) as nat);
        }
        if v > (u32::MAX - d) / 10 {
            proof {
                assert(dec_val(s@.take(i + 1)) > u32::MAX) by (nonlinear_arith)
                    requires
                        dec_val(s@.take(i + 1)) == dec_val(s@.take(i as int)) * 10 + (s@[i as int]
                            - 0x30) as nat,
                        v == dec_val(s@.take(i as int)),
                        d == s@[i as int] - 0x30,
                        v > (u32::MAX - d) / 10,
                        d <= 9,
                ;
                lemma_dec_val_monotone(s@, i + 1);
            }
            return None;
        }
        proof {
            assert(v * 10 + d <= u32::MAX) by (nonlinear_arith)
                requires
                    v <= (u32::MAX - d) / 10,
                    d <= 9,
            ;
        }
        v = v * 10 + d;
        assert(v == dec_val(s@.take(i + 1)));
    }
    assert(s@.take(n as int) =~= s@);
    assert(is_digits(s@));
    Some(v)
}

// ---------------------------------------------------------------------------
// passwd lines
// ---------------------------------------------------------------------------

/// One `name:password:uid:...` line: the name bytes and the numeric uid,
/// if the line has at least three fields and a well-formed uid.
pub open spec fn parse_passwd_line(l: Seq<u8>) -> Option<(Seq<u8>, u32)> {
    let fs = split_bytes(l, 0x3a);
    if fs.len() >= 3 {
        match parse_uid(fs[2]) {
            Some(u) => Some((fs[0], u)),
            None => None,
        }
    } else {
        None
    }
}

/// All parseable lines, in order; malformed lines are skipped.
pub open spec fn parse_passwd_lines(ls: Seq<Seq<u8>>) -> Seq<(Seq<u8>, u32)>
    decreases ls.len(),
{
    if ls.len() == 0 {
        Seq::empty()
    } else {
        let r = parse_passwd_lines(ls.drop_last());
        match parse_passwd_line(ls.last()) {
            Some(e) => r.push(e),
            None => r,
        }
    }
}

pub open spec fn parse_passwd(content: Seq<u8>) -> Seq<(Seq<u8>, u32)> {
    parse_passwd_lines(split_bytes(content, 0x0a))
}

/// Relies on str::from_utf8: it succeeds exactly on well-formed UTF-8 and
/// returns the text whose UTF-8 encoding is the input.
#[verifier::external_body]
fn bytes_to_string(v: &Vec<u8>) -> (r: Option<String>)
    ensures
        r matches Some(s) ==> encode_utf8(s@) == v@,
        r is None ==> !vstd::utf8::valid_utf8(v@),
{
    match std::str::from_utf8(v.as_slice()) {
        Ok(s) => Some(s.to_string()),
        Err(_) => None,
    }
}

/// The parsed view of one mount namespace's user database.
pub struct PasswordInfo {
    /// Username bytes and uid of each parsed line, in file order.
    pub entries: Vec<(Vec<u8>, u32)>,
}

impl PasswordInfo {
    pub open spec fn entries_view(self) -> Seq<(Seq<u8>, u32)> {
        self.entries@.map_values(|e: (Vec<u8>, u32)| (e.0@, e.1))
    }

    /// Parses `passwd`-format content: one entry per line that has at
    /// least three colon-separated fields and a numeric third field.
    pub fn parse(content: &[u8]) -> (r: Self)
        ensures
            r.entries_view() == parse_passwd(content@),
    {
        let lines = split_bytes_exec(content, 0x0a);
        let ghost lviews = lines@.map_values(|p: Vec<u8>| p@);
        let mut entries: Vec<(Vec<u8>, u32)> = Vec::new();
        let n: usize = lines.len();
        assert(lviews.take(0) =~= Seq::<Seq<u8>>::empty());
        assert(entries@.map_values(|e: (Vec<u8>, u32)| (e.0@, e.1)) =~= parse_passwd_lines(
            lviews.take(0),
        ));
        for i in 0..n
            invariant
                n == lines@.len(),
                lviews == lines@.map_values(|p: Vec<u8>| p@),
                entries@.map_values(|e: (Vec<u8>, u32)| (e.0@, e.1)) == parse_passwd_lines(
                    lviews.take(i as int),
                ),
        {
            proof {
                assert(lviews.take(i + 1).drop_last() =~= lviews.take(i as int));
                assert(lviews.take(i + 1).last() == lviews[i as int]);
                assert(lviews[i as int] == lines@[i as int]@);
            }
            let ghost before = entries@.map_values(|e: (Vec<u8>, u32)| (e.0@, e.1));
            let fields = split_bytes_exec(lines[i].as_slice(), 0x3a);
            if fields.len() >= 3 {
                proof {
                    assert(fields@.map_values(|p: Vec<u8>| p@)[2] == fields@[2]@);
                    assert(fields@.map_values(|p: Vec<u8>| p@)[0] == fields@[0]@);
                }
                match parse_uid_exec(fields[2].as_slice()) {
                    Some(u) => {
                        let mut fields = fields;
                        let name = fields.remove(0);
                        entries.push((name, u));
                        assert(entries@.map_values(|e: (Vec<u8>, u32)| (e.0@, e.1))
                            =~= before.push((name@, u)));
                        assert(parse_passwd_line(lviews[i as int]) == Some((name@, u)));
                    },
                    None => {
                        assert(parse_passwd_line(lviews[i as int]) is None);
                    },
                }
            } else {
                assert(parse_passwd_line(lviews[i as int]) is None);
            }
            assert(entries@.map_values(|e: (Vec<u8>, u32)| (e.0@, e.1)) =~= parse_passwd_lines(
                lviews.take(i + 1),
            ));
        }
        assert(lviews.take(n as int) =~= lviews);
        PasswordInfo { entries }
    }

    /// Resolves a uid to the username of the first matching entry;
    /// usernames that are not well-formed UTF-8 resolve to nothing.
    pub fn get_username_by_uid(&self, uid: u32) -> (r: Option<String>)
        ensures
            match r {
                Some(s) => lookup_uid(self.entries_view(), uid) matches Some(b) && encode_utf8(s@)
                    == b,
                None => match lookup_uid(self.entries_view(), uid) {
                    Some(b) => !vstd::utf8::valid_utf8(b),
                    None => true,
                },
            },
    {
        let ghost ev = self.entries_view();
        let n: usize = self.entries.len();
        assert(ev.skip(0) =~= ev);
        for i in 0..n
            invariant
                n == self.entries@.len(),
                ev == self.entries_view(),
                lookup_uid(ev, uid) == lookup_uid(ev.skip(i as int), uid),
        {
            proof {
                assert(ev.skip(i as int)[0] == ev[i as int]);
                assert(ev[i as int] == (self.entries@[i as int].0@, self.entries@[i as int].1));
                assert(ev.skip(i as int).drop_first() =~= ev.skip(i + 1));
            }
            if self.entries[i].1 == uid {
                assert(lookup_uid(ev, uid) == Some(ev[i as int].0));
                return bytes_to_string(&self.entries[i].0);
            }
        }
        assert(ev.skip(n as int) =~= Seq::<(Seq<u8>, u32)>::empty());
        None
    }

    /// Resolves a username to the uid of the first matching entry.
    pub fn get_uid_by_username(&self, name: &str) -> (r: Option<u32>)
        ensures
            match r {
                Some(u) => lookup_name(self.entries_view(), encode_utf8(name@)) == Some(u),
                None => lookup_name(self.entries_view(), encode_utf8(name@)) is None,
            },
    {
        let name_bytes: &[u8] = name.as_bytes();
        let ghost ev = self.entries_view();
        let n: usize = self.entries.len();
        assert(ev.skip(0) =~= ev);
        for i in 0..n
            invariant
                n == self.entries@.len(),
                ev == self.entries_view(),
                name_bytes@ == encode_utf8(name@),
                lookup_name(ev, name_bytes@) == lookup_name(ev.skip(i as int), name_bytes@),
        {
            proof {
                assert(ev.skip(i as int)[0] == ev[i as int]);
                assert(ev[i as int] == (self.entries@[i as int].0@, self.entries@[i as int].1));
                assert(ev.skip(i as int).drop_first() =~= ev.skip(i + 1));
            }
            if bytes_eq(self.entries[i].0.as_slice(), name_bytes) {
                assert(lookup_name(ev, name_bytes@) == Some(ev[i as int].1));
                return Some(self.entries[i].1);
            }
        }
        assert(ev.skip(n as int) =~= Seq::<(Seq<u8>, u32)>::empty());
        None
    }
}

/// The username of the first entry with this uid.
pub open spec fn lookup_uid(es: Seq<(Seq<u8>, u32)>, uid: u32) -> Option<Seq<u8>>
    decreases es.len(),
{
    if es.len() == 0 {
        None
    } else if es[0].1 == uid {
        Some(es[0].0)
    } else {
        lookup_uid(es.drop_first(), uid)
    }
}

/// The uid of the first entry with this username.
pub open spec fn lookup_name(es: Seq<(Seq<u8>, u32)>, name: Seq<u8>) -> Option<u32>
    decreases es.len(),
{
    if es.len() == 0 {
        None
    } else if es[0].0 == name {
        Some(es[0].1)
    } else {
        lookup_name(es.drop_first(), name)
    }
}

/// A per-scan cache of parsed user databases, keyed by the inode of the
/// process's root directory.
pub struct PasswordCache {
    pub entries: Vec<(u64, PasswordInfo)>,
}

impl PasswordCache {
    pub fn new() -> (r: Self)
        ensures
            r.entries@.len() == 0,
    {
        PasswordCache { entries: Vec::new() }
    }

    /// Whether a database is cached under this inode.
    pub fn contains(&self, inode: u64) -> (r: bool)
        ensures
            r == exists|i: int|
                0 <= i < self.entries@.len() && #[trigger] self.entries@[i].0 == inode,
    {
        let n: usize = self.entries.len();
        for i in 0..n
            invariant
                n == self.entries@.len(),
                forall|j: int| 0 <= j < i ==> #[trigger] self.entries@[j].0 != inode,
        {
            if self.entries[i].0 == inode {
                return true;
            }
        }
        false
    }

    /// The database cached under this inode, if any.
    pub fn lookup(&self, inode: u64) -> (r: Option<&PasswordInfo>)
        ensures
            match r {
                Some(p) => exists|i: int|
                    0 <= i < self.entries@.len() && #[trigger] self.entries@[i] == (inode, *p),
                None => forall|i: int|
                    0 <= i < self.entries@.len() ==> #[trigger] self.entries@[i].0 != inode,
            },
    {
        let n: usize = self.entries.len();
        for i in 0..n
            invariant
                n == self.entries@.len(),
                forall|j: int| 0 <= j < i ==> #[trigger] self.entries@[j].0 != inode,
        {
            if self.entries[i].0 == inode {
                proof {
                    assert(self.entries@[i as int] == (inode, self.entries@[i as int].1));
                }
                return Some(&self.entries[i].1);
            }
        }
        None
    }

    /// Caches a parsed database under an inode.
    pub fn insert(&mut self, inode: u64, info: PasswordInfo)
        ensures
            final(self).entries@ == old(self).entries@.push((inode, info)),
    {
        self.entries.push((inode, info));
    }
}

} // verus!
