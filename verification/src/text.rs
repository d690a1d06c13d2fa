//! Comparison and conversion of text, stated over the characters a string holds.

use vstd::prelude::*;
use vstd::utf8::*;

verus! {

broadcast use {encode_utf8_decode_utf8, encode_utf8_valid_utf8};

/// Whether `whole` begins with `prefix`.
pub open spec fn is_prefix_of(prefix: Seq<u8>, whole: Seq<u8>) -> bool {
    prefix.len() <= whole.len() && whole.take(prefix.len() as int) == prefix
}

/// Whether `whole` begins with the bytes of `prefix`.
pub fn bytes_start_with(whole: &[u8], prefix: &[u8]) -> (r: bool)
    ensures
        r == is_prefix_of(prefix@, whole@),
{
    if prefix.len() > whole.len() {
        return false;
    }
    let mut i: usize = 0;
    while i < prefix.len()
        invariant
            i <= prefix.len() <= whole.len(),
            forall|j: int| 0 <= j < i ==> whole[j] == prefix[j],
        decreases prefix.len() - i,
    {
        if whole[i] != prefix[i] {
            assert(whole@.take(prefix@.len() as int)[i as int] != prefix@[i as int]);
            return false;
        }
        i += 1;
    }
    assert(whole@.take(prefix@.len() as int) =~= prefix@);
    true
}

/// Whether two strings hold the same characters.
pub fn str_equal(a: &str, b: &str) -> (r: bool)
    ensures
        r == (a@ == b@),
{
    let x = a.as_bytes();
    let y = b.as_bytes();
    if x.len() != y.len() {
        return false;
    }
    let same = bytes_start_with(x, y);
    proof {
        assert(x@.take(x@.len() as int) =~= x@);
        if same {
            assert(decode_utf8(encode_utf8(a@)) == decode_utf8(encode_utf8(b@)));
        }
    }
    same
}

} // verus!
