//! The payload of a dependency-group cell: a concatenation of out-points, each
//! a 32-byte transaction hash followed by a 4-byte little-endian index.
use vstd::prelude::*;
use crate::types::{slice_bytes, OutPoint, OutPointModel};

verus! {

/// Width of one out-point in a group payload.
pub const OUT_POINT_SIZE: usize = 36;

/// Width of the transaction hash within an out-point.
pub const TX_HASH_SIZE: usize = 32;

/// The little-endian unsigned integer held in `b[off..off + 4]`.
pub open spec fn le_u32_at(b: Seq<u8>, off: int) -> int {
    b[off] as int + 0x100 * b[off + 1] + 0x1_0000 * b[off + 2] + 0x100_0000 * b[off + 3]
}

/// The `i`-th out-point listed in a group payload.
pub open spec fn group_member(data: Seq<u8>, i: int) -> OutPointModel {
    (
        data.subrange(36 * i, 36 * i + 32),
        le_u32_at(data, 36 * i + 32) as u32,
    )
}

/// The out-points listed in a group payload.
pub open spec fn group_members(data: Seq<u8>) -> Seq<OutPointModel> {
    Seq::new((data.len() / 36) as nat, |i: int| group_member(data, i))
}

/// A group payload is well formed when its length is a whole number of entries.
pub open spec fn group_well_formed(data: Seq<u8>) -> bool {
    data.len() % 36 == 0
}

/// Reads the little-endian `u32` at `b[off..off + 4]`.
pub fn read_le_u32(b: &Vec<u8>, off: usize) -> (r: u32)
    requires
        off + 4 <= b@.len(),
    ensures
        r as int == le_u32_at(b@, off as int),
{
    let n = b.len();
    assert(off + 4 <= n);
    let b0 = b[off] as u32;
    let b1 = b[off + 1] as u32;
    let b2 = b[off + 2] as u32;
    let b3 = b[off + 3] as u32;
    b0 + 0x100 * b1 + 0x1_0000 * b2 + 0x100_0000 * b3
}

/// Parses a group payload into its out-points; `None` when its length is not
/// a whole number of entries.
pub fn parse_dep_group(data: &Vec<u8>) -> (r: Option<Vec<OutPoint>>)
    ensures
        r is Some <==> group_well_formed(data@),
        r is Some ==> r->Some_0@.len() == group_members(data@).len(),
        r is Some ==> forall|j: int|
            0 <= j < r->Some_0@.len() ==> (#[trigger] r->Some_0@[j])@ == group_members(data@)[j],
{
    let len = data.len();
    if len % OUT_POINT_SIZE != 0 {
        return None;
    }
    let count = len / OUT_POINT_SIZE;
    let mut out: Vec<OutPoint> = Vec::with_capacity(count);
    let mut k: usize = 0;
    while k < count
        invariant
            len == data@.len(),
            count == len / 36,
            len % 36 == 0,
            k <= count,
            out@.len() == k,
            forall|j: int| 0 <= j < k ==> (#[trigger] out@[j])@ == group_member(data@, j),
        decreases count - k,
    {
        assert(36 * k + 36 <= len) by (nonlinear_arith)
            requires
                k < count,
                count == len / 36,
                len % 36 == 0,
        ;
        let start = OUT_POINT_SIZE * k;
        let tx_hash = slice_bytes(data, start, start + TX_HASH_SIZE);
        let index = read_le_u32(data, start + TX_HASH_SIZE);
        out.push(OutPoint { tx_hash, index });
        k = k + 1;
    }
    Some(out)
}

} // verus!
