//! Reading integers out of byte buffers and locating four-byte markers.
use vstd::prelude::*;

verus! {

/// Unsigned little-endian value of the four bytes at `i`.
pub open spec fn le32(d: Seq<u8>, i: int) -> int {
    d[i] as int + d[i + 1] as int * 0x100 + d[i + 2] as int * 0x1_0000 + d[i + 3] as int
        * 0x100_0000
}

/// Unsigned big-endian value of the four bytes at `i`.
pub open spec fn be32(d: Seq<u8>, i: int) -> int {
    d[i] as int * 0x100_0000 + d[i + 1] as int * 0x1_0000 + d[i + 2] as int * 0x100 + d[i
        + 3] as int
}

/// Unsigned big-endian value of the two bytes at `i`.
pub open spec fn be16(d: Seq<u8>, i: int) -> int {
    d[i] as int * 0x100 + d[i + 1] as int
}

/// Unsigned little-endian value of the eight bytes at `i`.
pub open spec fn le64(d: Seq<u8>, i: int) -> int {
    le32(d, i) + le32(d, i + 4) * 0x1_0000_0000
}

/// The bytes of `m` occur in `d` starting at `i`.
pub open spec fn occurs_at(d: Seq<u8>, i: int, m: Seq<u8>) -> bool {
    0 <= i && i + m.len() <= d.len() && forall|k: int| 0 <= k < m.len() ==> d[i + k] == m[k]
}

/// The first position at or after `from` where `m` occurs in `d`.
pub open spec fn first_occurrence(d: Seq<u8>, m: Seq<u8>, from: nat) -> Option<nat>
    decreases d.len() - from,
{
    if from >= d.len() || from + m.len() > d.len() {
        None
    } else if occurs_at(d, from as int, m) {
        Some(from)
    } else {
        first_occurrence(d, m, from + 1)
    }
}

/// Every position that `first_occurrence` reports holds the marker, and none
/// before it (from `from` on) does.
pub proof fn lemma_first_occurrence(d: Seq<u8>, m: Seq<u8>, from: nat)
    requires
        m.len() > 0,
    ensures
        match first_occurrence(d, m, from) {
            Some(p) => p >= from && occurs_at(d, p as int, m) && forall|j: int|
                from <= j < p ==> !occurs_at(d, j, m),
            None => forall|j: int| from <= j ==> !occurs_at(d, j, m),
        },
    decreases d.len() - from,
{
    if from >= d.len() || from + m.len() > d.len() {
    } else if occurs_at(d, from as int, m) {
    } else {
        lemma_first_occurrence(d, m, from + 1);
    }
}

pub fn read_le32(d: &[u8], i: usize) -> (r: u32)
    requires
        i + 4 <= d@.len(),
    ensures
        r as int == le32(d@, i as int),
{
    d[i] as u32 + d[i + 1] as u32 * 0x100 + d[i + 2] as u32 * 0x1_0000 + d[i + 3] as u32
        * 0x100_0000
}

pub fn read_be32(d: &[u8], i: usize) -> (r: u32)
    requires
        i + 4 <= d@.len(),
    ensures
        r as int == be32(d@, i as int),
{
    d[i] as u32 * 0x100_0000 + d[i + 1] as u32 * 0x1_0000 + d[i + 2] as u32 * 0x100 + d[i
        + 3] as u32
}

pub fn read_be16(d: &[u8], i: usize) -> (r: u16)
    requires
        i + 2 <= d@.len(),
    ensures
        r as int == be16(d@, i as int),
{
    d[i] as u16 * 0x100 + d[i + 1] as u16
}

pub fn read_le64(d: &[u8], i: usize) -> (r: u64)
    requires
        i + 8 <= d@.len(),
    ensures
        r as int == le64(d@, i as int),
{
    d[i] as u64 + d[i + 1] as u64 * 0x100 + d[i + 2] as u64 * 0x1_0000 + d[i + 3] as u64
        * 0x100_0000 + d[i + 4] as u64 * 0x1_0000_0000 + d[i + 5] as u64 * 0x100_0000_0000 + d[i
        + 6] as u64 * 0x1_0000_0000_0000 + d[i + 7] as u64 * 0x100_0000_0000_0000
}

/// Whether `m` occurs in `d` at position `i`.
pub fn marker_at(d: &[u8], i: usize, m: &[u8]) -> (r: bool)
    ensures
        r == occurs_at(d@, i as int, m@),
{
    if i > d.len() || m.len() > d.len() - i {
        return false;
    }
    let mut k: usize = 0;
    while k < m.len()
        invariant
            k <= m@.len(),
            i + m@.len() <= d@.len(),
            d@.len() <= usize::MAX,
            forall|t: int| 0 <= t < k ==> d@[i + t] == m@[t],
        decreases m@.len() - k,
    {
        if d[i + k] != m[k] {
            return false;
        }
        k += 1;
    }
    true
}

/// The first position at or after `from` where `m` occurs in `d`, found by a
/// plain scan that takes no notice of any structure in `d`.
pub fn find_marker(d: &[u8], m: &[u8], from: usize) -> (r: Option<usize>)
    ensures
        r == (match first_occurrence(d@, m@, from as nat) {
            Some(p) => Some(p as usize),
            None => None::<usize>,
        }),
{
    let mut i: usize = from;
    while i < d.len()
        invariant
            from <= i,
            first_occurrence(d@, m@, from as nat) == first_occurrence(d@, m@, i as nat),
        decreases d@.len() - i,
    {
        if m.len() > d.len() - i {
            return None;
        }
        if marker_at(d, i, m) {
            return Some(i);
        }
        i += 1;
    }
    None
}

} // verus!
