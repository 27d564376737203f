//! A very simple and fast string hash, based on the Java string hash
//! algorithm.

use vstd::prelude::*;
use vstd::string::StringSliceAdditionalSpecFns;

verus! {

/// One step of the hash: multiply by 31 and add the byte, wrapping.
pub open spec fn fast_hash_step(h: u64, b: u8) -> u64 {
    vstd::wrapping::u64_specs::wrapping_add(
        vstd::wrapping::u64_specs::wrapping_mul(h, 31),
        b as u64,
    )
}

/// The hash of a byte sequence: fold `fast_hash_step` over the bytes,
/// starting from a fixed seed constant.
pub open spec fn fast_hash_seq(bytes: Seq<u8>) -> u64
    decreases bytes.len(),
{
    if bytes.len() == 0 {
        0xdeadbeef
    } else {
        fast_hash_step(fast_hash_seq(bytes.drop_last()), bytes.last())
    }
}

/// Hash a string by folding over its UTF-8 bytes.
pub fn fast_str_hash(s: &str) -> (r: u64)
    ensures
        r == fast_hash_seq(s.spec_bytes()),
{
    let bytes = s.as_bytes();
    let n = bytes.len();
    let mut hash: u64 = 0xdeadbeef;
    let mut i: usize = 0;
    while i < n
        invariant
            n == bytes@.len(),
            bytes@ == s.spec_bytes(),
            i <= n,
            hash == fast_hash_seq(bytes@.subrange(0, i as int)),
        decreases n - i,
    {
        hash = hash.wrapping_mul(31).wrapping_add(bytes[i] as u64);
        i = i + 1;
        proof {
            assert(bytes@.subrange(0, i as int).drop_last() =~= bytes@.subrange(0, i - 1));
        }
    }
    proof {
        assert(bytes@.subrange(0, n as int) =~= bytes@);
    }
    hash
}

} // verus!
