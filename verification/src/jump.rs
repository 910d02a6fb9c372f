//! Machine-code byte layouts for the two jump instructions a detour needs:
//! a near relative jump (rel32) and an absolute jump through a scratch
//! register.
//!
//! The rel32 rule used throughout: the stored 32-bit word, read as signed,
//! equals `destination - (source + 5)`, where `source` is the address of the
//! jump instruction itself. Encoding and decoding are exact inverses for
//! every displacement that fits in a signed 32-bit word.

use vstd::prelude::*;

verus! {

/// Bytes of an absolute jump through a register.
pub const JMP_TO_HOOK_LEN: usize = 12;

/// Bytes of a near relative jump.
pub const JMP_TO_ORIG_LEN: usize = 5;

/// A 32-bit word read as a signed (two's complement) value.
pub open spec fn signed32(v: u32) -> int {
    if v < 0x8000_0000 {
        v as int
    } else {
        v as int - 0x1_0000_0000
    }
}

/// The displacement a near jump at `source` stores to reach `destination`.
pub open spec fn rel32_of(source: int, destination: int) -> int {
    destination - (source + 5)
}

/// The displacement fits in a signed 32-bit word.
pub open spec fn rel32_fits(source: int, destination: int) -> bool {
    -0x8000_0000 <= rel32_of(source, destination) < 0x8000_0000
}

/// The 32-bit word that encodes the displacement from `source` to
/// `destination`.
pub open spec fn rel32_word(source: int, destination: int) -> u32 {
    if destination >= source + 5 {
        (destination - (source + 5)) as u32
    } else {
        (0x1_0000_0000 - (source + 5 - destination)) as u32
    }
}

/// Reading the encoded word back as signed recovers the displacement.
pub proof fn lemma_rel32_word_signed(source: int, destination: int)
    requires
        rel32_fits(source, destination),
    ensures
        signed32(rel32_word(source, destination)) == rel32_of(source, destination),
{
}

/// Law: a decoded encoding lands exactly on the destination; rel32
/// encoding and decoding are inverses wherever the displacement fits.
pub proof fn lemma_rel32_round_trip(source: int, destination: int)
    requires
        rel32_fits(source, destination),
    ensures
        source + 5 + signed32(rel32_word(source, destination)) == destination,
{
    lemma_rel32_word_signed(source, destination);
}

/// The four little-endian bytes of a 32-bit word.
pub open spec fn le32_bytes(v: u32) -> Seq<u8> {
    seq![
        (v % 0x100) as u8,
        ((v / 0x100) % 0x100) as u8,
        ((v / 0x1_0000) % 0x100) as u8,
        ((v / 0x100_0000) % 0x100) as u8,
    ]
}

/// The eight little-endian bytes of a 64-bit word.
pub open spec fn le64_bytes(v: u64) -> Seq<u8> {
    seq![
        (v % 0x100) as u8,
        ((v / 0x100) % 0x100) as u8,
        ((v / 0x1_0000) % 0x100) as u8,
        ((v / 0x100_0000) % 0x100) as u8,
        ((v / 0x1_0000_0000) % 0x100) as u8,
        ((v / 0x100_0000_0000) % 0x100) as u8,
        ((v / 0x1_0000_0000_0000) % 0x100) as u8,
        ((v / 0x100_0000_0000_0000) % 0x100) as u8,
    ]
}

/// Computes the rel32 word for a jump at `source` reaching `destination`.
pub fn encode_rel32(source: usize, destination: usize) -> (r: u32)
    requires
        source + 5 <= usize::MAX,
        rel32_fits(source as int, destination as int),
    ensures
        r == rel32_word(source as int, destination as int),
        signed32(r) == rel32_of(source as int, destination as int),
{
    proof {
        lemma_rel32_word_signed(source as int, destination as int);
    }
    let src_end = source + 5;
    if destination >= src_end {
        (destination - src_end) as u32
    } else {
        let diff = (src_end - destination) as u64;
        (0x1_0000_0000u64 - diff) as u32
    }
}

/// Recovers the destination a stored rel32 word reaches from `source`;
/// `None` when the sum leaves the address space.
pub fn decode_rel32(source: usize, rel: u32) -> (r: Option<usize>)
    requires
        source + 5 <= usize::MAX,
    ensures
        match r {
            Some(d) => d == source + 5 + signed32(rel),
            None => !(0 <= source + 5 + signed32(rel) <= usize::MAX),
        },
{
    let base = source + 5;
    if rel < 0x8000_0000 {
        let disp64 = rel as u64;
        if (base as u64) <= u64::MAX - disp64 && base as u64 + disp64 <= usize::MAX as u64 {
            Some(base + rel as usize)
        } else {
            None
        }
    } else {
        let mag64 = 0x1_0000_0000u64 - rel as u64;
        if base as u64 >= mag64 {
            Some((base as u64 - mag64) as usize)
        } else {
            None
        }
    }
}

/// The layout of a redirect at the hook site: a near jump to `destination`,
/// padded with NOPs up to `jmp_len` so no partial instruction is left.
pub open spec fn near_jump_bytes(source: int, destination: int, jmp_len: int) -> Seq<u8> {
    seq![0xE9u8] + le32_bytes(rel32_word(source, destination)) + Seq::new(
        (jmp_len - 5) as nat,
        |i: int| 0x90u8,
    )
}

/// Builds the `jmp_len` bytes of a near relative jump with NOP padding.
pub fn near_jump(source: usize, destination: usize, jmp_len: usize) -> (r: Vec<u8>)
    requires
        jmp_len >= 5,
        source + 5 <= usize::MAX,
        rel32_fits(source as int, destination as int),
    ensures
        r@ == near_jump_bytes(source as int, destination as int, jmp_len as int),
        r@.len() == jmp_len,
{
    let w = encode_rel32(source, destination);
    let mut out: Vec<u8> = Vec::new();
    out.push(0xE9);
    out.push((w % 0x100) as u8);
    out.push(((w / 0x100) % 0x100) as u8);
    out.push(((w / 0x1_0000) % 0x100) as u8);
    out.push(((w / 0x100_0000) % 0x100) as u8);
    let mut i: usize = 5;
    while i < jmp_len
        invariant
            5 <= i <= jmp_len,
            out@.len() == i,
            out@.subrange(0, 5) =~= seq![0xE9u8] + le32_bytes(
                rel32_word(source as int, destination as int),
            ),
            forall|j: int| 5 <= j < i ==> out@[j] == 0x90u8,
        decreases jmp_len - i,
    {
        out.push(0x90);
        i = i + 1;
    }
    proof {
        assert(out@ =~= near_jump_bytes(source as int, destination as int, jmp_len as int));
    }
    out
}

/// The layout of a trampoline's entry stub: load the handler's absolute
/// address into a scratch register and jump through it.
pub open spec fn absolute_jump_bytes(handler: u64) -> Seq<u8> {
    seq![0x48u8, 0xB8u8] + le64_bytes(handler) + seq![0xFFu8, 0xE0u8]
}

/// Builds the 12 bytes of an absolute jump to `handler`.
pub fn absolute_jump(handler: usize) -> (r: Vec<u8>)
    ensures
        r@ == absolute_jump_bytes(handler as u64),
        r@.len() == 12,
{
    let h = handler as u64;
    let mut out: Vec<u8> = Vec::new();
    out.push(0x48);
    out.push(0xB8);
    out.push((h % 0x100) as u8);
    out.push(((h / 0x100) % 0x100) as u8);
    out.push(((h / 0x1_0000) % 0x100) as u8);
    out.push(((h / 0x100_0000) % 0x100) as u8);
    out.push(((h / 0x1_0000_0000) % 0x100) as u8);
    out.push(((h / 0x100_0000_0000) % 0x100) as u8);
    out.push(((h / 0x1_0000_0000_0000) % 0x100) as u8);
    out.push(((h / 0x100_0000_0000_0000) % 0x100) as u8);
    out.push(0xFF);
    out.push(0xE0);
    proof {
        assert(out@ =~= absolute_jump_bytes(handler as u64));
    }
    out
}

} // verus!
