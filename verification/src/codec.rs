//! Byte-level encoding for snapshot blobs: JSON text assembly for projected
//! objects and zlib compression of the encoded bytes.

use vstd::prelude::*;
use vstd::string::StringSliceAdditionalSpecFns;
use vstd::utf8::encode_utf8;

verus! {

// ---------------------------------------------------------------------------
// JSON string escaping
// ---------------------------------------------------------------------------

/// Lower-case hex digit for a value below 16.
pub open spec fn hex_digit(n: u8) -> u8 {
    if n < 10 {
        (0x30 + n) as u8
    } else {
        (0x57 + n) as u8
    }
}

/// How a single byte of UTF-8 text appears inside a JSON string literal:
/// quote and backslash are escaped, control bytes use a `\u00XX` escape,
/// everything else (including UTF-8 continuation bytes) passes through.
pub open spec fn escaped_byte(b: u8) -> Seq<u8> {
    if b == 0x22 {
        seq![0x5cu8, 0x22u8]
    } else if b == 0x5c {
        seq![0x5cu8, 0x5cu8]
    } else if b < 0x20 {
        seq![0x5cu8, 0x75u8, 0x30u8, 0x30u8, hex_digit(b / 16), hex_digit(b % 16)]
    } else {
        seq![b]
    }
}

pub open spec fn escape_bytes(s: Seq<u8>) -> Seq<u8>
    decreases s.len(),
{
    if s.len() == 0 {
        Seq::empty()
    } else {
        escape_bytes(s.drop_last()) + escaped_byte(s.last())
    }
}

/// A JSON string literal holding the UTF-8 encoding of `s`, escaped.
pub open spec fn json_string_bytes(s: Seq<char>) -> Seq<u8> {
    seq![0x22u8] + escape_bytes(encode_utf8(s)) + seq![0x22u8]
}

/// One object member: `"name":<value>`.
pub open spec fn member_bytes(name: Seq<char>, value: Seq<u8>) -> Seq<u8> {
    json_string_bytes(name) + seq![0x3au8] + value
}

/// Members joined by commas.
pub open spec fn join_members(ms: Seq<Seq<u8>>) -> Seq<u8>
    decreases ms.len(),
{
    if ms.len() == 0 {
        Seq::empty()
    } else if ms.len() == 1 {
        ms[0]
    } else {
        join_members(ms.drop_last()) + seq![0x2cu8] + ms.last()
    }
}

/// A JSON object with the given members.
pub open spec fn object_bytes(ms: Seq<Seq<u8>>) -> Seq<u8> {
    seq![0x7bu8] + join_members(ms) + seq![0x7du8]
}

proof fn lemma_escape_bytes_take_step(s: Seq<u8>, i: int)
    requires
        0 <= i < s.len(),
    ensures
        escape_bytes(s.take(i + 1)) == escape_bytes(s.take(i)) + escaped_byte(s[i]),
{
    assert(s.take(i + 1).drop_last() =~= s.take(i));
    assert(s.take(i + 1).last() == s[i]);
}

/// Appends the escaped UTF-8 bytes of `s` to `out`.
pub fn push_escaped(out: &mut Vec<u8>, s: &str)
    ensures
        final(out)@ == old(out)@ + escape_bytes(encode_utf8(s@)),
{
    let bytes: &[u8] = s.as_bytes();
    let n: usize = bytes.len();
    assert(bytes@.take(0) =~= Seq::<u8>::empty());
    assert(escape_bytes(bytes@.take(0)) =~= Seq::<u8>::empty());
    assert(out@ =~= out@ + escape_bytes(bytes@.take(0)));
    for i in 0..n
        invariant
            n == bytes@.len(),
            bytes@ == s.spec_bytes(),
            out@ == old(out)@ + escape_bytes(bytes@.take(i as int)),
    {
        let b: u8 = bytes[i];
        proof {
            lemma_escape_bytes_take_step(bytes@, i as int);
        }
        if b == 0x22 {
            out.push(0x5c);
            out.push(0x22);
        } else if b == 0x5c {
            out.push(0x5c);
            out.push(0x5c);
        } else if b < 0x20 {
            out.push(0x5c);
            out.push(0x75);
            out.push(0x30);
            out.push(0x30);
            let hi: u8 = b / 16;
            let lo: u8 = b % 16;
            out.push(if hi < 10 { 0x30 + hi } else { 0x57 + hi });
            out.push(if lo < 10 { 0x30 + lo } else { 0x57 + lo });
        } else {
            out.push(b);
        }
        assert(out@ =~= old(out)@ + escape_bytes(bytes@.take(i + 1)));
    }
    assert(bytes@.take(n as int) =~= bytes@);
}

/// Appends the raw UTF-8 bytes of `s` to `out`.
pub fn push_str_bytes(out: &mut Vec<u8>, s: &str)
    ensures
        final(out)@ == old(out)@ + encode_utf8(s@),
{
    let bytes: &[u8] = s.as_bytes();
    let n: usize = bytes.len();
    assert(out@ =~= out@ + bytes@.take(0));
    for i in 0..n
        invariant
            n == bytes@.len(),
            bytes@ == s.spec_bytes(),
            out@ == old(out)@ + bytes@.take(i as int),
    {
        let b: u8 = bytes[i];
        out.push(b);
        assert(out@ =~= old(out)@ + bytes@.take(i + 1));
    }
    assert(bytes@.take(n as int) =~= bytes@);
}

/// Appends the JSON string literal for `s` to `out`.
pub fn push_json_string(out: &mut Vec<u8>, s: &str)
    ensures
        final(out)@ == old(out)@ + json_string_bytes(s@),
{
    out.push(0x22);
    push_escaped(out, s);
    out.push(0x22);
    assert(out@ =~= old(out)@ + json_string_bytes(s@));
}

/// Joins already-encoded members into a JSON object's bytes.
pub fn build_object(members: &Vec<Vec<u8>>) -> (r: Vec<u8>)
    ensures
        r@ == object_bytes(members@.map_values(|m: Vec<u8>| m@)),
{
    let ghost ms = members@.map_values(|m: Vec<u8>| m@);
    let mut out: Vec<u8> = Vec::new();
    out.push(0x7b);
    let n: usize = members.len();
    assert(out@ =~= seq![0x7bu8] + join_members(ms.take(0)));
    for i in 0..n
        invariant
            n == members@.len(),
            ms == members@.map_values(|m: Vec<u8>| m@),
            out@ == seq![0x7bu8] + join_members(ms.take(i as int)),
    {
        if i > 0 {
            out.push(0x2c);
        }
        let mv: &Vec<u8> = &members[i];
        let k: usize = mv.len();
        for j in 0..k
            invariant
                k == mv@.len(),
                mv@ == ms[i as int],
                i < ms.len(),
                out@.len() >= j,
                out@ == if i > 0 {
                    seq![0x7bu8] + join_members(ms.take(i as int)) + seq![0x2cu8] + mv@.take(
                        j as int,
                    )
                } else {
                    seq![0x7bu8] + join_members(ms.take(i as int)) + mv@.take(j as int)
                },
        {
            out.push(mv[j]);
            assert(mv@.take(j + 1) =~= mv@.take(j as int).push(mv@[j as int]));
            assert(out@ =~= if i > 0 {
                seq![0x7bu8] + join_members(ms.take(i as int)) + seq![0x2cu8] + mv@.take(j + 1)
            } else {
                seq![0x7bu8] + join_members(ms.take(i as int)) + mv@.take(j + 1)
            });
        }
        proof {
            assert(mv@.take(k as int) =~= mv@);
            assert(ms.take(i + 1).drop_last() =~= ms.take(i as int));
            assert(ms.take(i + 1).last() == ms[i as int]);
            if i > 0 {
                assert(ms.take(i + 1).len() > 1);
                assert(join_members(ms.take(i + 1)) == join_members(ms.take(i as int)) + seq![
                    0x2cu8,
                ] + ms[i as int]);
                assert(out@ =~= seq![0x7bu8] + join_members(ms.take(i + 1)));
            } else {
                assert(ms.take(1).len() == 1);
                assert(join_members(ms.take(1)) == ms.take(1)[0]);
                assert(ms.take(1)[0] == ms[0]);
                assert(out@ =~= seq![0x7bu8] + join_members(ms.take(i + 1)));
            }
        }
    }
    assert(ms.take(n as int) =~= ms);
    out.push(0x7d);
    assert(out@ =~= seq![0x7bu8] + join_members(ms) + seq![0x7du8]);
    out
}

// ---------------------------------------------------------------------------
// zlib compression
// ---------------------------------------------------------------------------

/// The zlib stream (RFC 1950) that flate2 emits, at the default compression
/// level, for a given byte sequence. The encoding depends on the input bytes
/// alone.
pub uninterp spec fn zlib_of(data: Seq<u8>) -> Seq<u8>;

/// Relies on flate2's `ZlibEncoder`: writing all input bytes and then
/// resetting the encoder yields one complete, standalone zlib stream
/// (header, deflate data and trailer) for exactly those bytes. The
/// encoder writes into a `Vec`, whose `Write` impl never errors, and
/// `reset` only propagates writer errors, so compression cannot fail.
#[verifier::external_body]
pub fn zlib_compress(data: &[u8]) -> (r: Vec<u8>)
    ensures
        r@ == zlib_of(data@),
{
    let mut enc = flate2::write::ZlibEncoder::new(Vec::new(), flate2::Compression::default());
    std::io::Write::write_all(&mut enc, data).expect("writing into a Vec cannot fail");
    enc.reset(Vec::new()).expect("resetting onto a Vec cannot fail")
}

/// Relies on flate2's `ZlibDecoder`: zlib compression is lossless, so
/// decoding a complete zlib stream returns exactly the bytes that were
/// compressed into it.
#[verifier::external_body]
pub fn zlib_decompress(data: &[u8]) -> (r: Option<Vec<u8>>)
    ensures
        r is None ==> forall|orig: Seq<u8>| data@ != zlib_of(orig),
        r matches Some(v) ==> forall|orig: Seq<u8>| data@ == zlib_of(orig) ==> v@ == orig,
{
    let mut dec = flate2::write::ZlibDecoder::new(Vec::new());
    if std::io::Write::write_all(&mut dec, data).is_err() {
        return None;
    }
    dec.finish().ok()
}

/// A byte sequence that is a complete zlib stream produced by the encoder.
pub open spec fn is_zlib_stream(s: Seq<u8>) -> bool {
    exists|orig: Seq<u8>| s == zlib_of(orig)
}

} // verus!
