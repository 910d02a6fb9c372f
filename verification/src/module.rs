//! The loaded image's executable section: where it starts and how far it
//! runs.
//!
//! The host hands over the image base and a copy of the PE header bytes;
//! parsing them finds the `.text` section header and reads the section's
//! virtual address and raw size from its fixed field offsets. Everything
//! else about the live image stays with the host.

use crate::scan;
use crate::util;
use vstd::prelude::*;

verus! {

#[derive(Debug, PartialEq, Eq, Structural)]
pub enum Error {
    /// The host could not name a loaded image at all.
    GetModuleHandle,
    /// The image's headers name no `.text` section.
    FindTextSection,
}

/// The five bytes of the section name searched for in the headers.
pub open spec fn text_section_name() -> Seq<u8> {
    seq![0x2Eu8, 0x74u8, 0x65u8, 0x78u8, 0x74u8]
}

/// The section name occurs at offset `p` of the header bytes.
pub open spec fn text_name_at(header: Seq<u8>, p: int) -> bool {
    &&& 0 <= p
    &&& p + 5 <= header.len()
    &&& header.subrange(p, p + 5) == text_section_name()
}

/// A whole `.text` section header starts at `p`: the name matches and the
/// fixed fields (virtual address at +12, raw size at +16) fit in the
/// header bytes.
pub open spec fn text_section_at(header: Seq<u8>, p: int) -> bool {
    text_name_at(header, p) && p + 20 <= header.len()
}

/// Bounds of the executable code of the loaded image.
pub struct Module {
    start: usize,
    size: usize,
}

impl Module {
    pub closed spec fn spec_start(&self) -> usize {
        self.start
    }

    pub closed spec fn spec_size(&self) -> usize {
        self.size
    }

    /// Wraps bounds supplied by an image-inspection collaborator.
    pub fn new(start: usize, size: usize) -> (r: Module)
        requires
            start + size <= usize::MAX,
        ensures
            r.spec_start() == start,
            r.spec_size() == size,
    {
        Module { start, size }
    }

    /// Parses the image's header bytes: finds the first `.text` section
    /// header and takes the section's start address and page-aligned size
    /// from it.
    pub fn from_image(base: usize, header: &Vec<u8>) -> (r: Result<Module, Error>)
        requires
            base + 0x2_0000_1000 <= usize::MAX,
        ensures
            match r {
                Ok(m) => exists|p: int|
                    {
                        &&& #[trigger] text_section_at(header@, p)
                        &&& forall|q: int| 0 <= q < p ==> !text_name_at(header@, q)
                        &&& m.spec_start() == base + scan::le_u32_at(header@, p + 12)
                        &&& m.spec_size() == util::spec_align(
                            scan::le_u32_at(header@, p + 16),
                            0x1000,
                        )
                        &&& m.spec_start() + m.spec_size() <= usize::MAX
                    },
                Err(e) => e == Error::FindTextSection && forall|p: int|
                    !text_section_at(header@, p),
            },
    {
        let p = match find_text_name(header) {
            None => {
                return Err(Error::FindTextSection);
            },
            Some(p) => p,
        };
        if header.len() < 20 || p > header.len() - 20 {
            proof {
                // the first name match has no room for the fixed fields,
                // and any later match has even less
                assert(forall|q: int| text_section_at(header@, q) ==> q >= p && q + 20
                    <= header@.len());
            }
            return Err(Error::FindTextSection);
        }
        let virtual_address = scan::read_u32_le(header, p + 12);
        let raw_size = scan::read_u32_le(header, p + 16);
        let size = util::align(raw_size as usize, 0x1000);
        let m = Module { start: base + virtual_address as usize, size };
        proof {
            assert(text_section_at(header@, p as int));
        }
        Ok(m)
    }

    pub fn start(&self) -> (r: usize)
        ensures
            r == self.spec_start(),
    {
        self.start
    }

    pub fn size(&self) -> (r: usize)
        ensures
            r == self.spec_size(),
    {
        self.size
    }

    /// Scans the module's bytes for a signature; returns the address of
    /// the first matching window.
    pub fn find(&self, region: &Vec<u8>, pattern: &Vec<Option<u8>>) -> (r: Option<usize>)
        requires
            region@.len() == self.spec_size(),
            self.spec_start() + self.spec_size() <= usize::MAX,
            pattern@.len() >= 1,
        ensures
            match r {
                Some(a) => self.spec_start() <= a && scan::matches_at(
                    region@,
                    pattern@,
                    a - self.spec_start(),
                ) && forall|j: int|
                    0 <= j < a - self.spec_start() ==> !scan::matches_at(region@, pattern@, j),
                None => forall|j: int| !scan::matches_at(region@, pattern@, j),
            },
    {
        match scan::scan_pattern(region, pattern) {
            Some(k) => Some(self.start + k),
            None => None,
        }
    }
}

/// Compares the five bytes at `p` against the `.text` section name.
fn text_name_check(header: &Vec<u8>, p: usize) -> (r: bool)
    requires
        p + 5 <= header@.len(),
    ensures
        r == text_name_at(header@, p as int),
{
    let _n: usize = header.len();
    let r = header[p] == 0x2E && header[p + 1] == 0x74 && header[p + 2] == 0x65 && header[p + 3]
        == 0x78 && header[p + 4] == 0x74;
    proof {
        let sub = header@.subrange(p as int, p + 5);
        assert(sub[0] == header@[p as int] && sub[1] == header@[p + 1] && sub[2] == header@[p + 2]
            && sub[3] == header@[p + 3] && sub[4] == header@[p + 4]);
        if r {
            assert(sub =~= text_section_name());
        } else {
            assert(sub != text_section_name());
        }
    }
    r
}

/// Finds the first occurrence of the `.text` section name in the header
/// bytes.
fn find_text_name(header: &Vec<u8>) -> (r: Option<usize>)
    ensures
        match r {
            Some(p) => text_name_at(header@, p as int) && forall|q: int|
                0 <= q < p ==> !text_name_at(header@, q),
            None => forall|q: int| !text_name_at(header@, q),
        },
{
    let n = header.len();
    if n < 5 {
        return None;
    }
    let mut p: usize = 0;
    while p <= n - 5
        invariant
            n == header@.len(),
            5 <= n,
            p <= n - 5 + 1,
            forall|q: int| 0 <= q < p ==> !text_name_at(header@, q),
        decreases n - p,
    {
        if text_name_check(header, p) {
            return Some(p);
        }
        p = p + 1;
    }
    None
}

/// Resolves a RIP-relative operand: the instruction ends at address
/// `instr_end`, and its 32-bit displacement is stored at offset `disp_off`
/// of the region bytes. `None` when the sum leaves the address space.
pub fn rip_relative_target(region: &Vec<u8>, instr_end: usize, disp_off: usize) -> (r: Option<
    usize,
>)
    requires
        disp_off + 4 <= region@.len(),
    ensures
        ({
            let t = instr_end + scan::as_signed32(scan::le_u32_at(region@, disp_off as int));
            match r {
                Some(a) => a == t,
                None => !(0 <= t <= usize::MAX),
            }
        }),
{
    let disp = scan::read_i32_le(region, disp_off);
    if disp >= 0 {
        let d = disp as usize;
        match instr_end.checked_add(d) {
            Some(a) => Some(a),
            None => None,
        }
    } else {
        let mag = (-(disp as i64)) as u64 as usize;
        if instr_end >= mag {
            Some(instr_end - mag)
        } else {
            None
        }
    }
}

} // verus!
