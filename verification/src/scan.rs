//! Byte-signature scanning and little-endian field reads over a borrowed
//! image region.
//!
//! A pattern is a sequence of constraints: `Some(b)` demands the exact byte
//! `b`, `None` is a wildcard that matches any byte. Scanning slides the
//! pattern across the region left to right and reports the first (lowest)
//! offset where every fixed byte agrees.

use vstd::prelude::*;

verus! {

/// The pattern, laid at offset `k` of the region, agrees with the region on
/// every fixed (non-wildcard) position.
pub open spec fn matches_at(region: Seq<u8>, pattern: Seq<Option<u8>>, k: int) -> bool {
    &&& 0 <= k
    &&& k + pattern.len() <= region.len()
    &&& forall|i: int|
        0 <= i < pattern.len() ==> (#[trigger] pattern[i] matches Some(b) ==> region[k + i] == b)
}

/// Compares one window of the region against the whole pattern.
fn window_matches(region: &Vec<u8>, pattern: &Vec<Option<u8>>, k: usize) -> (r: bool)
    requires
        k + pattern@.len() <= region@.len(),
    ensures
        r == matches_at(region@, pattern@, k as int),
{
    let n: usize = region.len();
    let m = pattern.len();
    let mut i: usize = 0;
    while i < m
        invariant
            n == region@.len(),
            m == pattern@.len(),
            k + m <= n,
            i <= m,
            forall|t: int|
                0 <= t < i ==> (#[trigger] pattern@[t] matches Some(b) ==> region@[k + t] == b),
        decreases m - i,
    {
        match pattern[i] {
            Some(b) => {
                if region[k + i] != b {
                    return false;
                }
            },
            None => {},
        }
        i = i + 1;
    }
    true
}

/// Returns the smallest offset at which the pattern matches the region, or
/// `None` when no offset matches.
pub fn scan_pattern(region: &Vec<u8>, pattern: &Vec<Option<u8>>) -> (r: Option<usize>)
    requires
        pattern@.len() >= 1,
    ensures
        match r {
            Some(k) => matches_at(region@, pattern@, k as int) && forall|j: int|
                0 <= j < k ==> !matches_at(region@, pattern@, j),
            None => forall|j: int| !matches_at(region@, pattern@, j),
        },
{
    let n = region.len();
    let m = pattern.len();
    if m > n {
        return None;
    }
    let mut k: usize = 0;
    while k <= n - m
        invariant
            n == region@.len(),
            m == pattern@.len(),
            1 <= m <= n,
            k <= n - m + 1,
            forall|j: int| 0 <= j < k ==> !matches_at(region@, pattern@, j),
        decreases n - m + 1 - k,
    {
        if window_matches(region, pattern, k) {
            return Some(k);
        }
        k = k + 1;
    }
    None
}

/// Law: a wildcard position tolerates any byte. If the pattern matches one
/// haystack at `k`, it matches there in any haystack of the same length
/// that differs only at a position the pattern marks wildcard.
pub proof fn lemma_wildcard_tolerance(
    h1: Seq<u8>,
    h2: Seq<u8>,
    pattern: Seq<Option<u8>>,
    k: int,
    i: int,
)
    requires
        h1.len() == h2.len(),
        0 <= i < pattern.len(),
        pattern[i] is None,
        forall|j: int| 0 <= j < h1.len() && j != k + i ==> h1[j] == h2[j],
        matches_at(h1, pattern, k),
    ensures
        matches_at(h2, pattern, k),
{
    assert forall|t: int|
        0 <= t < pattern.len() implies (#[trigger] pattern[t] matches Some(b) ==> h2[k + t]
        == b) by {
        if t != i {
            assert(h1[k + t] == h2[k + t]);
        }
    }
}

/// The unsigned 32-bit value stored little-endian at offset `off`.
pub open spec fn le_u32_at(region: Seq<u8>, off: int) -> int {
    region[off] + 0x100 * region[off + 1] + 0x1_0000 * region[off + 2] + 0x100_0000 * region[off
        + 3]
}

/// Reinterprets an unsigned 32-bit value as a signed (two's complement) one.
pub open spec fn as_signed32(v: int) -> int {
    if v < 0x8000_0000 {
        v
    } else {
        v - 0x1_0000_0000
    }
}

/// Reads the unsigned little-endian 32-bit field at offset `off`.
pub fn read_u32_le(region: &Vec<u8>, off: usize) -> (r: u32)
    requires
        off + 4 <= region@.len(),
    ensures
        r == le_u32_at(region@, off as int),
{
    let _n: usize = region.len();
    let b0 = region[off] as u32;
    let b1 = region[off + 1] as u32;
    let b2 = region[off + 2] as u32;
    let b3 = region[off + 3] as u32;
    b0 + 0x100 * b1 + 0x1_0000 * b2 + 0x100_0000 * b3
}

/// Reads the signed little-endian 32-bit field at offset `off`.
pub fn read_i32_le(region: &Vec<u8>, off: usize) -> (r: i32)
    requires
        off + 4 <= region@.len(),
    ensures
        r == as_signed32(le_u32_at(region@, off as int)),
{
    let v = read_u32_le(region, off);
    if v < 0x8000_0000 {
        v as i32
    } else {
        ((v as i64) - 0x1_0000_0000i64) as i32
    }
}

} // verus!
