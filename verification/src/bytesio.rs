//! Big-endian byte encoding for the journal's count header.
//!
//! The on-disk journal begins with an 8-byte big-endian count of the valid
//! bytes in its data region; these helpers convert between that header and a
//! `usize`/`u64` count.

use vstd::bytes::{spec_u64_from_le_bytes, spec_u64_to_le_bytes, u64_from_le_bytes, u64_to_le_bytes,
    lemma_auto_spec_u64_to_from_le_bytes};
use vstd::prelude::*;

verus! {

/// The number of bytes in the journal's count header.
pub const COUNTMAPSIZE: usize = 8;

pub open spec fn spec_u64_to_be_bytes(x: u64) -> Seq<u8> {
    spec_u64_to_le_bytes(x).reverse()
}

pub open spec fn spec_u64_from_be_bytes(s: Seq<u8>) -> u64
    recommends
        s.len() == 8,
{
    spec_u64_from_le_bytes(s.reverse())
}

pub proof fn lemma_u64_be_bytes_roundtrip(x: u64)
    ensures
        spec_u64_to_be_bytes(x).len() == 8,
        spec_u64_from_be_bytes(spec_u64_to_be_bytes(x)) == x,
{
    lemma_auto_spec_u64_to_from_le_bytes();
    assert(spec_u64_to_le_bytes(x).reverse().reverse() =~= spec_u64_to_le_bytes(x));
}

pub fn u64_to_be_bytes(x: u64) -> (s: Vec<u8>)
    ensures
        s@ == spec_u64_to_be_bytes(x),
        s@.len() == 8,
{
    let le = u64_to_le_bytes(x);
    let mut out: Vec<u8> = Vec::new();
    let mut i: usize = 0;
    while i < 8
        invariant
            le@ == spec_u64_to_le_bytes(x),
            le@.len() == 8,
            i <= 8,
            out@.len() == i,
            forall|j: int| 0 <= j < i ==> out@[j] == le@[7 - j],
        decreases 8 - i,
    {
        let b = le[7 - i];
        out.push(b);
        i = i + 1;
    }
    proof {
        assert(out@ =~= le@.reverse());
    }
    out
}

pub fn u64_from_be_bytes(s: &[u8]) -> (x: u64)
    requires
        s@.len() == 8,
    ensures
        x == spec_u64_from_be_bytes(s@),
{
    let mut rev: Vec<u8> = Vec::new();
    let mut i: usize = 0;
    while i < 8
        invariant
            s@.len() == 8,
            i <= 8,
            rev@.len() == i,
            forall|j: int| 0 <= j < i ==> rev@[j] == s@[7 - j],
        decreases 8 - i,
    {
        let b = s[7 - i];
        rev.push(b);
        i = i + 1;
    }
    proof {
        assert(rev@ =~= s@.reverse());
    }
    u64_from_le_bytes(rev.as_slice())
}

/// Decode the journal's count header: a series of big-endian bytes giving
/// the number of valid bytes in the data region.
pub fn convert_bytes_to_size(bytes_to_write: &[u8]) -> (n: usize)
    requires
        bytes_to_write@.len() == 8,
        spec_u64_from_be_bytes(bytes_to_write@) <= usize::MAX,
    ensures
        n == spec_u64_from_be_bytes(bytes_to_write@),
{
    u64_from_be_bytes(bytes_to_write) as usize
}

} // verus!
