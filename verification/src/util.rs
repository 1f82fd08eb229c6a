//! Small verified helpers over strings and byte slices.

use vstd::prelude::*;
use vstd::string::StringSliceAdditionalSpecFns;
use vstd::utf8::encode_utf8;

verus! {

/// Byte-wise equality of two slices.
pub fn bytes_eq(a: &[u8], b: &[u8]) -> (r: bool)
    ensures
        r == (a@ == b@),
{
    if a.len() != b.len() {
        assert(a@ != b@);
        return false;
    }
    let n: usize = a.len();
    for i in 0..n
        invariant
            n == a@.len(),
            n == b@.len(),
            forall|j: int| 0 <= j < i ==> a@[j] == b@[j],
    {
        if a[i] != b[i] {
            return false;
        }
    }
    assert(a@ =~= b@);
    true
}

/// Equality of two string slices, compared byte-wise; equal UTF-8 bytes
/// decode to equal character sequences.
pub fn str_eq(a: &str, b: &str) -> (r: bool)
    ensures
        r == (a@ == b@),
{
    let r = bytes_eq(a.as_bytes(), b.as_bytes());
    proof {
        vstd::utf8::encode_utf8_decode_utf8(a@);
        vstd::utf8::encode_utf8_decode_utf8(b@);
        assert(a.spec_bytes() == encode_utf8(a@));
        assert(b.spec_bytes() == encode_utf8(b@));
        if encode_utf8(a@) == encode_utf8(b@) {
            assert(vstd::utf8::decode_utf8(encode_utf8(a@)) == vstd::utf8::decode_utf8(
                encode_utf8(b@),
            ));
        }
    }
    r
}

} // verus!
