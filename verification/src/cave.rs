//! Search for code caves: maximal runs of filler bytes inside an image
//! region, usable as scratch storage for a trampoline.
//!
//! The result is the usable cave whose start lies nearest to a given
//! offset, because a near cave keeps the 32-bit relative displacement of
//! the redirect jump small; ties go to the lower start.

use vstd::prelude::*;

verus! {

/// Bytes that compilers leave as padding between routines: zero, NOP, INT3.
pub open spec fn is_filler(b: u8) -> bool {
    b == 0x00 || b == 0x90 || b == 0xCC
}

/// Every byte of `[start, start + len)` is filler, and the range lies in the
/// region.
pub open spec fn filler_run(region: Seq<u8>, start: int, len: int) -> bool {
    &&& 0 <= start
    &&& 1 <= len
    &&& start + len <= region.len()
    &&& forall|i: int| start <= i < start + len ==> is_filler(#[trigger] region[i])
}

/// A filler run that cannot be extended: the bytes just before and just
/// after it, where they exist, are not filler.
pub open spec fn maximal_filler_run(region: Seq<u8>, start: int, len: int) -> bool {
    &&& filler_run(region, start, len)
    &&& start > 0 ==> !is_filler(region[start - 1])
    &&& start + len < region.len() ==> !is_filler(region[start + len])
}

/// A cave that can hold `min_len` bytes.
pub open spec fn usable_cave(region: Seq<u8>, start: int, len: int, min_len: int) -> bool {
    maximal_filler_run(region, start, len) && len >= min_len
}

pub open spec fn abs_diff(a: int, b: int) -> int {
    if a >= b {
        a - b
    } else {
        b - a
    }
}

/// `start` is at least as close to `near` as any other usable cave's start,
/// with ties resolved toward the lower start.
pub open spec fn nearest_cave(
    region: Seq<u8>,
    start: int,
    len: int,
    near: int,
    min_len: int,
) -> bool {
    &&& usable_cave(region, start, len, min_len)
    &&& forall|s2: int, l2: int|
        #[trigger] usable_cave(region, s2, l2, min_len) ==> abs_diff(start, near) < abs_diff(
            s2,
            near,
        ) || (abs_diff(start, near) == abs_diff(s2, near) && start <= s2)
}

/// Two maximal runs that share a byte are the same run.
pub proof fn lemma_maximal_runs_equal(region: Seq<u8>, s1: int, l1: int, s2: int, l2: int)
    requires
        maximal_filler_run(region, s1, l1),
        maximal_filler_run(region, s2, l2),
        s1 < s2 + l2,
        s2 < s1 + l1,
    ensures
        s1 == s2,
        l1 == l2,
{
    if s1 < s2 {
        assert(is_filler(region[s2 - 1]));
    }
    if s2 < s1 {
        assert(is_filler(region[s1 - 1]));
    }
    if l1 < l2 {
        assert(is_filler(region[s1 + l1]));
    }
    if l2 < l1 {
        assert(is_filler(region[s2 + l2]));
    }
}

fn filler_byte(b: u8) -> (r: bool)
    ensures
        r == is_filler(b),
{
    b == 0x00 || b == 0x90 || b == 0xCC
}

/// Walks from a run's first byte to its end; returns the offset just past
/// the run.
fn run_end(region: &Vec<u8>, s: usize) -> (e: usize)
    requires
        s < region@.len(),
        is_filler(region@[s as int]),
    ensures
        s < e <= region@.len(),
        forall|i: int| s <= i < e ==> is_filler(#[trigger] region@[i]),
        e < region@.len() ==> !is_filler(region@[e as int]),
{
    let n = region.len();
    let mut e = s + 1;
    loop
        invariant
            n == region@.len(),
            s < e <= n,
            forall|i: int| s <= i < e ==> is_filler(#[trigger] region@[i]),
        ensures
            s < e <= n,
            forall|i: int| s <= i < e ==> is_filler(#[trigger] region@[i]),
            e < n ==> !is_filler(region@[e as int]),
        decreases n - e,
    {
        if e == n {
            break ;
        }
        if !filler_byte(region[e]) {
            break ;
        }
        e = e + 1;
    }
    e
}

/// Finds the usable cave whose start offset is nearest to `near` (ties to
/// the lower start), scanning the whole region; `None` when no maximal
/// filler run of at least `min_len` bytes exists.
pub fn find_cave(region: &Vec<u8>, near: usize, min_len: usize) -> (r: Option<(usize, usize)>)
    requires
        min_len >= 1,
    ensures
        match r {
            Some(c) => nearest_cave(region@, c.0 as int, c.1 as int, near as int, min_len as int),
            None => forall|s2: int, l2: int| !usable_cave(region@, s2, l2, min_len as int),
        },
{
    let n = region.len();
    let mut i: usize = 0;
    let mut best: Option<(usize, usize)> = None;
    while i < n
        invariant
            n == region@.len(),
            min_len >= 1,
            i <= n,
            (i < n && is_filler(region@[i as int])) ==> (i == 0 || !is_filler(
                region@[i as int - 1],
            )),
            match best {
                Some(b) => {
                    &&& usable_cave(region@, b.0 as int, b.1 as int, min_len as int)
                    &&& b.0 < i
                    &&& b.0 >= near ==> b.0 - near < n
                    &&& forall|s2: int, l2: int|
                        #[trigger] usable_cave(region@, s2, l2, min_len as int) && s2 < i
                            ==> abs_diff(b.0 as int, near as int) < abs_diff(s2, near as int) || (
                        abs_diff(b.0 as int, near as int) == abs_diff(s2, near as int) && b.0 <= s2)
                },
                None => forall|s2: int, l2: int|
                    #[trigger] usable_cave(region@, s2, l2, min_len as int) ==> s2 >= i,
            },
        decreases n - i,
    {
        if !filler_byte(region[i]) {
            proof {
                assert forall|s2: int, l2: int|
                    #[trigger] usable_cave(region@, s2, l2, min_len as int) implies s2 != i by {
                    if s2 == i {
                        assert(is_filler(region@[s2]));
                    }
                }
            }
            i = i + 1;
        } else {
            let s = i;
            let e = run_end(region, s);
            assert(maximal_filler_run(region@, s as int, e - s));
            proof {
                assert forall|s2: int, l2: int|
                    #[trigger] usable_cave(region@, s2, l2, min_len as int) && s <= s2 < e implies s2
                    == s && l2 == e - s by {
                    lemma_maximal_runs_equal(region@, s as int, e - s, s2, l2);
                }
            }
            if e - s >= min_len {
                let new_dist: usize = if s >= near {
                    s - near
                } else {
                    near - s
                };
                best = match best {
                    None => Some((s, e - s)),
                    Some(b) => {
                        let best_dist: usize = if b.0 >= near {
                            b.0 - near
                        } else {
                            near - b.0
                        };
                        if new_dist < best_dist {
                            Some((s, e - s))
                        } else {
                            Some(b)
                        }
                    },
                };
            }
            i = e;
        }
    }
    proof {
        if best is None {
            assert forall|s2: int, l2: int| !usable_cave(region@, s2, l2, min_len as int) by {
                if usable_cave(region@, s2, l2, min_len as int) {
                    assert(s2 < n);
                }
            }
        } else {
            let b = best->0;
            assert forall|s2: int, l2: int|
                #[trigger] usable_cave(region@, s2, l2, min_len as int) implies abs_diff(
                b.0 as int,
                near as int,
            ) < abs_diff(s2, near as int) || (abs_diff(b.0 as int, near as int) == abs_diff(
                s2,
                near as int,
            ) && b.0 <= s2) by {
                assert(s2 < n);
            }
        }
    }
    best
}

} // verus!
