//! A working interception: a redirect patch at the hook site plus a
//! trampoline built inside a code cave.
//!
//! Install order matters for the host's other threads: the trampoline is
//! fully written before the redirect is, so at no instant does the hook
//! site point at a half-built cave. Uninstall reverses strictly: first the
//! redirect falls (no new thread can enter the cave), then — after the
//! host's grace delay — the cave patches fall. The two steps are two
//! functions, and the second is only reachable through the value the first
//! returns, so the order cannot be inverted.

use crate::cave;
use crate::jump;
use crate::patch::Patch;
use crate::region::{lemma_splice_adjacent, lemma_splice_parts, splice, CodeCave, MemoryRegion};
use vstd::prelude::*;

verus! {

#[derive(Debug, PartialEq, Eq, Structural)]
pub enum Error {
    /// No maximal filler run in the region can hold the trampoline, or the
    /// only candidate collides with the hook site itself.
    NoCodeCave,
    /// A redirect needs at least the 5 bytes of a near jump.
    JmpLenIsSmallerThanFiveBytes,
    /// The offered cave is smaller than the trampoline: required, then
    /// available bytes.
    CaveIsTooSmall(usize, usize),
}

/// Ranges `[a1, a1 + l1)` and `[a2, a2 + l2)` share at least one position.
pub open spec fn overlaps(a1: int, l1: int, a2: int, l2: int) -> bool {
    a1 < a2 + l2 && a2 < a1 + l1
}

/// The bytes a trampoline writes into its cave, in address order: entry
/// stub to the handler, the preserved hook-site bytes exactly as they were
/// in `mem` before any write, and a return jump to the instruction after
/// the hook site.
pub open spec fn trampoline_bytes(
    mem: Seq<u8>,
    base: int,
    cave_start: int,
    hook_site: int,
    handler: u64,
    jmp_len: int,
) -> Seq<u8> {
    jump::absolute_jump_bytes(handler) + mem.subrange(
        hook_site - base,
        hook_site - base + jmp_len,
    ) + jump::near_jump_bytes(cave_start + 12 + jmp_len, hook_site + jmp_len, 5)
}

/// The three patches living inside a claimed code cave.
pub struct Trampoline {
    entry: Patch,
    preserved: Patch,
    return_jump: Patch,
}

impl Trampoline {
    /// First cave address the trampoline occupies.
    pub closed spec fn cave_start(&self) -> usize {
        self.entry.spec_address()
    }

    /// How many hook-site bytes the trampoline preserves.
    pub closed spec fn preserved_len(&self) -> int {
        self.preserved.size()
    }

    /// The whole trampoline: 12-byte entry stub, preserved bytes, 5-byte
    /// return jump.
    pub open spec fn total_len(&self) -> int {
        12 + self.preserved_len() + 5
    }

    /// The cave bytes the trampoline replaced, to be restored on revert.
    pub closed spec fn original_cave_bytes(&self) -> Seq<u8> {
        self.entry.original_bytes() + self.preserved.original_bytes()
            + self.return_jump.original_bytes()
    }

    /// The three patches are contiguous and of the fixed stub sizes.
    pub closed spec fn inv(&self) -> bool {
        &&& self.entry.size() == 12
        &&& self.return_jump.size() == 5
        &&& self.preserved.spec_address() == self.entry.spec_address() + 12
        &&& self.return_jump.spec_address() == self.entry.spec_address() + 12
            + self.preserved.size()
    }

    /// First cave address the trampoline occupies.
    pub fn start_address(&self) -> (r: usize)
        ensures
            r == self.cave_start(),
    {
        self.entry.address()
    }

    /// Bytes the whole trampoline occupies.
    pub fn len(&self) -> (r: usize)
        requires
            self.inv(),
            self.total_len() <= usize::MAX,
        ensures
            r == self.total_len(),
    {
        12 + self.preserved.len() + 5
    }

    /// Builds and installs the trampoline inside `cave`. The hook-site
    /// bytes are captured before anything is written, so even a cave that
    /// touches the hook site cannot corrupt what is preserved.
    pub fn new(
        mem: &mut MemoryRegion,
        cave: &CodeCave,
        hook_site: usize,
        handler: usize,
        jmp_len: usize,
    ) -> (r: Result<Trampoline, Error>)
        requires
            old(mem).wf(),
            old(mem)@.len() < 0x8000_0000,
            jmp_len >= 5,
            old(mem).contains_range(hook_site as int, jmp_len as int),
            old(mem).contains_range(cave.start as int, cave.length as int),
        ensures
            final(mem).wf(),
            final(mem).spec_start() == old(mem).spec_start(),
            final(mem)@.len() == old(mem)@.len(),
            ({
                let base = old(mem).spec_start() as int;
                let c = cave.start - base;
                let total = 12 + jmp_len + 5;
                match r {
                    Ok(t) => {
                        &&& cave.length >= total
                        &&& t.inv()
                        &&& t.cave_start() == cave.start
                        &&& t.preserved_len() == jmp_len
                        &&& t.original_cave_bytes() == old(mem)@.subrange(c, c + total)
                        &&& final(mem)@ == splice(
                            old(mem)@,
                            c,
                            trampoline_bytes(
                                old(mem)@,
                                base,
                                cave.start as int,
                                hook_site as int,
                                handler as u64,
                                jmp_len as int,
                            ),
                        )
                    },
                    Err(e) => {
                        &&& e == Error::CaveIsTooSmall(total as usize, cave.length)
                        &&& cave.length < total
                        &&& final(mem)@ == old(mem)@
                    },
                }
            }),
    {
        let total = jump::JMP_TO_HOOK_LEN + jmp_len + jump::JMP_TO_ORIG_LEN;
        if cave.length < total {
            return Err(Error::CaveIsTooSmall(total, cave.length));
        }
        let ghost base = mem.spec_start() as int;
        let ghost m0 = mem@;
        let preserved_bytes = mem.read_bytes(hook_site, jmp_len);
        let entry_bytes = jump::absolute_jump(handler);
        let entry = Patch::new(mem, cave.start, &entry_bytes);
        let ghost m1 = mem@;
        let preserved = Patch::new(mem, cave.start + 12, &preserved_bytes);
        let ghost m2 = mem@;
        let ret_src = cave.start + 12 + jmp_len;
        proof {
            // the return displacement is hook_site - cave.start - 17; both
            // ranges lie inside a region shorter than 2^31 bytes
            assert(cave.start + total <= base + m0.len());
            assert(jump::rel32_fits(ret_src as int, hook_site + jmp_len));
        }
        let ret_bytes = jump::near_jump(ret_src, hook_site + jmp_len, 5);
        let return_jump = Patch::new(mem, ret_src, &ret_bytes);
        let t = Trampoline { entry, preserved, return_jump };
        proof {
            let c = cave.start - base;
            let e = entry_bytes@;
            let o = preserved_bytes@;
            let rb = ret_bytes@;
            lemma_splice_adjacent(m0, c, e, o);
            lemma_splice_adjacent(m0, c, e + o, rb);
            assert(mem@ == splice(m0, c, e + o + rb));
            assert(mem@ == splice(
                m0,
                c,
                trampoline_bytes(
                    m0,
                    base,
                    cave.start as int,
                    hook_site as int,
                    handler as u64,
                    jmp_len as int,
                ),
            ));
            lemma_splice_parts(m0, c, e);
            assert(preserved.original_bytes() =~= m0.subrange(c + 12, c + 12 + jmp_len));
            lemma_splice_parts(m0, c, e + o);
            assert(return_jump.original_bytes() =~= m0.subrange(
                c + 12 + jmp_len,
                c + 12 + jmp_len + 5,
            ));
            assert(t.original_cave_bytes() =~= m0.subrange(c, c + (12 + jmp_len + 5)));
        }
        Ok(t)
    }

    /// Reverts the three cave patches, restoring the filler bytes. Runs
    /// only after the redirect is gone and the host's grace delay has
    /// passed: a thread still inside the cave must be given time to leave.
    pub fn revert(self, mem: &mut MemoryRegion)
        requires
            old(mem).wf(),
            self.inv(),
            old(mem).contains_range(self.cave_start() as int, self.total_len()),
        ensures
            final(mem).wf(),
            final(mem).spec_start() == old(mem).spec_start(),
            final(mem)@ == splice(
                old(mem)@,
                self.cave_start() - old(mem).spec_start(),
                self.original_cave_bytes(),
            ),
    {
        let ghost m0 = mem@;
        let ghost c = self.cave_start() - mem.spec_start();
        let ghost whole = self.original_cave_bytes();
        let Trampoline { entry, preserved, return_jump } = self;
        let ghost e = entry.original_bytes();
        let ghost o = preserved.original_bytes();
        let ghost rb = return_jump.original_bytes();
        entry.revert(mem);
        preserved.revert(mem);
        return_jump.revert(mem);
        proof {
            lemma_splice_adjacent(m0, c, e, o);
            lemma_splice_adjacent(m0, c, e + o, rb);
            assert(mem@ == splice(m0, c, whole));
        }
    }
}

/// Law: the detour lifecycle is lossless. Installing writes the trampoline
/// and then the redirect; uninstalling splices the captured bytes back in
/// the reverse order; when the two ranges do not overlap, the region ends
/// exactly as it began.
pub proof fn lemma_detour_round_trip(m0: Seq<u8>, c: int, tb: Seq<u8>, h: int, rb: Seq<u8>)
    requires
        0 <= c,
        0 <= h,
        c + tb.len() <= m0.len(),
        h + rb.len() <= m0.len(),
        !overlaps(c, tb.len() as int, h, rb.len() as int),
    ensures
        ({
            let installed = splice(splice(m0, c, tb), h, rb);
            let redirect_gone = splice(installed, h, m0.subrange(h, h + rb.len() as int));
            let cave_gone = splice(redirect_gone, c, m0.subrange(c, c + tb.len() as int));
            cave_gone == m0
        }),
{
    let installed = splice(splice(m0, c, tb), h, rb);
    let redirect_gone = splice(installed, h, m0.subrange(h, h + rb.len() as int));
    let cave_gone = splice(redirect_gone, c, m0.subrange(c, c + tb.len() as int));
    lemma_splice_parts(m0, c, tb);
    lemma_splice_parts(splice(m0, c, tb), h, rb);
    lemma_splice_parts(installed, h, m0.subrange(h, h + rb.len() as int));
    lemma_splice_parts(redirect_gone, c, m0.subrange(c, c + tb.len() as int));
    assert(cave_gone =~= m0);
}

/// A live interception: redirect at the hook site plus trampoline in a
/// cave. Releasing it runs in two steps, in forced order: `begin_uninstall`
/// consumes the detour and reverts only the redirect; the trampoline falls
/// afterwards, once the host's grace delay has passed.
pub struct Detour {
    redirect: Patch,
    trampoline: Trampoline,
}

impl Detour {
    /// Address of the redirected instruction bytes.
    pub closed spec fn hook_site(&self) -> usize {
        self.redirect.spec_address()
    }

    /// How many bytes the redirect overwrites.
    pub closed spec fn jmp_len(&self) -> int {
        self.redirect.size()
    }

    /// The instruction bytes the redirect replaced.
    pub closed spec fn site_bytes(&self) -> Seq<u8> {
        self.redirect.original_bytes()
    }

    /// First cave address the trampoline occupies.
    pub closed spec fn cave_start(&self) -> usize {
        self.trampoline.cave_start()
    }

    /// Bytes the whole trampoline occupies in the cave.
    pub closed spec fn total_len(&self) -> int {
        self.trampoline.total_len()
    }

    /// The cave bytes the trampoline replaced.
    pub closed spec fn cave_bytes(&self) -> Seq<u8> {
        self.trampoline.original_cave_bytes()
    }

    pub closed spec fn inv(&self) -> bool {
        &&& self.trampoline.inv()
        &&& self.trampoline.preserved_len() == self.redirect.size()
        &&& self.redirect.size() >= 5
    }

    /// Address of the redirected instruction bytes.
    pub fn site_address(&self) -> (r: usize)
        ensures
            r == self.hook_site(),
    {
        self.redirect.address()
    }

    /// How many bytes the redirect overwrites.
    pub fn site_len(&self) -> (r: usize)
        ensures
            r == self.jmp_len(),
    {
        self.redirect.len()
    }

    /// First cave address the trampoline occupies.
    pub fn cave_address(&self) -> (r: usize)
        ensures
            r == self.cave_start(),
    {
        self.trampoline.start_address()
    }

    /// Bytes the whole trampoline occupies.
    pub fn cave_len(&self) -> (r: usize)
        requires
            self.inv(),
            self.total_len() <= usize::MAX,
        ensures
            r == self.total_len(),
    {
        self.trampoline.len()
    }

    /// Installs an interception of the `jmp_len` instruction bytes at
    /// `hook_site`, redirecting them through a code cave to `handler`.
    ///
    /// The cave is chosen nearest to the hook site so that the redirect's
    /// 32-bit displacement stays representable. The trampoline is fully
    /// written before the hook site is touched; on any failure the region
    /// is left exactly as it was.
    pub fn new(mem: &mut MemoryRegion, hook_site: usize, handler: usize, jmp_len: usize) -> (r:
        Result<Detour, Error>)
        requires
            old(mem).wf(),
            old(mem)@.len() < 0x8000_0000,
            old(mem).contains_range(hook_site as int, jmp_len as int),
        ensures
            final(mem).wf(),
            final(mem).spec_start() == old(mem).spec_start(),
            final(mem)@.len() == old(mem)@.len(),
            ({
                let base = old(mem).spec_start() as int;
                let h = hook_site - base;
                let total = 12 + jmp_len + 5;
                match r {
                    Ok(d) => {
                        let c = d.cave_start() - base;
                        &&& d.inv()
                        &&& d.hook_site() == hook_site
                        &&& d.jmp_len() == jmp_len
                        &&& d.total_len() == total
                        &&& jmp_len >= 5
                        &&& d.site_bytes() == old(mem)@.subrange(h, h + jmp_len)
                        &&& d.cave_bytes() == old(mem)@.subrange(c, c + total)
                        &&& exists|l: int| cave::nearest_cave(old(mem)@, c, l, h, total)
                        &&& !overlaps(c, total, h, jmp_len as int)
                        &&& final(mem)@.subrange(h, h + jmp_len) == jump::near_jump_bytes(
                            hook_site as int,
                            d.cave_start() as int,
                            jmp_len as int,
                        )
                        &&& final(mem)@.subrange(c, c + total) == trampoline_bytes(
                            old(mem)@,
                            base,
                            d.cave_start() as int,
                            hook_site as int,
                            handler as u64,
                            jmp_len as int,
                        )
                        &&& forall|j: int|
                            0 <= j < old(mem)@.len() && !(c <= j < c + total) && !(h <= j < h
                                + jmp_len) ==> final(mem)@[j] == old(mem)@[j]
                    },
                    Err(e) => {
                        &&& final(mem)@ == old(mem)@
                        &&& match e {
                            Error::JmpLenIsSmallerThanFiveBytes => jmp_len < 5,
                            Error::NoCodeCave => jmp_len >= 5 && ((forall|s: int, l: int|
                                !cave::usable_cave(old(mem)@, s, l, total)) || (exists|
                                s: int,
                                l: int,
                            |
                                cave::nearest_cave(old(mem)@, s, l, h, total) && overlaps(
                                    s,
                                    total,
                                    h,
                                    jmp_len as int,
                                ))),
                            Error::CaveIsTooSmall(_, _) => false,
                        }
                    },
                }
            }),
    {
        if jmp_len < 5 {
            return Err(Error::JmpLenIsSmallerThanFiveBytes);
        }
        let total = jump::JMP_TO_HOOK_LEN + jmp_len + jump::JMP_TO_ORIG_LEN;
        let cave = match mem.find_code_cave(hook_site, total) {
            None => {
                return Err(Error::NoCodeCave);
            },
            Some(c) => c,
        };
        if cave.start < hook_site + jmp_len && hook_site < cave.start + total {
            return Err(Error::NoCodeCave);
        }
        let ghost base = mem.spec_start() as int;
        let ghost m0 = mem@;
        let ghost c_off = cave.start - base;
        let ghost h_off = hook_site - base;
        let tramp = match Trampoline::new(mem, &cave, hook_site, handler, jmp_len) {
            Ok(t) => t,
            Err(e) => {
                proof {
                    // the cave came from the search with the trampoline's
                    // length as the minimum, so it cannot be too small
                    assert(false);
                }
                return Err(e);
            },
        };
        let ghost m1 = mem@;
        proof {
            assert(jump::rel32_fits(hook_site as int, cave.start as int));
        }
        let redirect_bytes = jump::near_jump(hook_site, cave.start, jmp_len);
        let redirect = Patch::new(mem, hook_site, &redirect_bytes);
        let d = Detour { redirect, trampoline: tramp };
        proof {
            let tb = trampoline_bytes(
                m0,
                base,
                cave.start as int,
                hook_site as int,
                handler as u64,
                jmp_len as int,
            );
            lemma_splice_parts(m0, c_off, tb);
            lemma_splice_parts(m1, h_off, redirect_bytes@);
            assert(d.site_bytes() =~= m0.subrange(h_off, h_off + jmp_len));
            assert(mem@.subrange(h_off, h_off + jmp_len) =~= redirect_bytes@);
            assert(mem@.subrange(c_off, c_off + total) =~= tb);
        }
        Ok(d)
    }

    /// Step one of uninstall: reverts the redirect, so no new thread can
    /// enter the trampoline, and hands the trampoline back for the second
    /// step. Between the two steps the host waits its grace delay — a
    /// bounded, best-effort wait, not a proof that the cave is quiescent.
    pub fn begin_uninstall(self, mem: &mut MemoryRegion) -> (t: Trampoline)
        requires
            old(mem).wf(),
            self.inv(),
            old(mem).contains_range(self.hook_site() as int, self.jmp_len()),
        ensures
            final(mem).wf(),
            final(mem).spec_start() == old(mem).spec_start(),
            final(mem)@ == splice(
                old(mem)@,
                self.hook_site() - old(mem).spec_start(),
                self.site_bytes(),
            ),
            t.inv(),
            t.cave_start() == self.cave_start(),
            t.total_len() == self.total_len(),
            t.original_cave_bytes() == self.cave_bytes(),
    {
        let Detour { redirect, trampoline } = self;
        redirect.revert(mem);
        trampoline
    }
}

} // verus!
