//! The Multiboot2 information the boot loader hands over: the tags the
//! kernel reads from it.
use vstd::prelude::*;
use crate::bytes::{u32_at, u64_at, read_u32, read_u64};
use crate::pmm::MemoryEntry;

verus! {

pub const TAG_END: u32 = 0;
pub const TAG_MODULE: u32 = 3;
pub const TAG_MMAP: u32 = 6;
pub const TAG_FRAMEBUFFER: u32 = 8;
pub const TAG_ACPI_NEW: u32 = 15;

/// Where the memory-map tag lies in the information.
#[derive(Clone, Copy, PartialEq, Eq, Structural, Debug)]
pub struct MmapTag {
    /// Offset of the tag from the start of the information.
    pub offset: u64,
    /// Size of the tag, header included.
    pub size: u32,
    /// Size of one entry.
    pub entry_size: u32,
}

/// The linear framebuffer.
#[derive(Clone, Copy, PartialEq, Eq, Structural, Debug)]
pub struct Framebuffer {
    pub addr: u64,
    pub pitch: u32,
    pub width: u32,
    pub height: u32,
    pub bpp: u8,
}

/// What the kernel takes from the information; for a tag that occurs more
/// than once, the last one.
#[derive(Clone, Copy, PartialEq, Eq, Structural, Debug)]
pub struct BootInfo {
    pub mmap: Option<MmapTag>,
    pub framebuffer: Option<Framebuffer>,
    /// Address of the XSDT, from the ACPI 2.0 RSDP.
    pub xsdt: Option<u64>,
    /// The boot module (the file-system archive).
    pub module: Option<Module>,
}

/// Where a boot module lies in physical memory.
#[derive(Clone, Copy, PartialEq, Eq, Structural, Debug)]
pub struct Module {
    pub start: u32,
    pub end: u32,
}

/// Tags start 8 bytes in and are padded to 8 bytes.
pub open spec fn tag_step(size: u32) -> int {
    ((size as int + 7) / 8) * 8
}

/// What one tag at `off` adds.  A tag too short for the fields it should
/// hold is passed over.
pub open spec fn apply_tag(info: Seq<u8>, off: int, acc: BootInfo) -> BootInfo {
    let typ = u32_at(info, off);
    let size = u32_at(info, off + 4);
    if typ == TAG_MMAP && off + 12 <= info.len() {
        BootInfo {
            mmap: Some(MmapTag { offset: off as u64, size: size as u32, entry_size: u32_at(info, off + 8) as u32 }),
            ..acc
        }
    } else if typ == TAG_FRAMEBUFFER && off + 29 <= info.len() {
        BootInfo {
            framebuffer: Some(
                Framebuffer {
                    addr: u64_at(info, off + 8) as u64,
                    pitch: u32_at(info, off + 16) as u32,
                    width: u32_at(info, off + 20) as u32,
                    height: u32_at(info, off + 24) as u32,
                    bpp: info[off + 28],
                },
            ),
            ..acc
        }
    } else if typ == TAG_ACPI_NEW && off + 40 <= info.len() {
        BootInfo { xsdt: Some(u64_at(info, off + 32) as u64), ..acc }
    } else if typ == TAG_MODULE && off + 16 <= info.len() {
        BootInfo { module: Some(Module { start: u32_at(info, off + 8) as u32, end: u32_at(info, off + 12) as u32 }), ..acc }
    } else {
        acc
    }
}

/// The walk over the tags from `off`: it ends at the end tag, at a tag
/// whose header does not fit in the information, or after a tag of size
/// zero (from which it would never move on) or one that runs past the end.
pub open spec fn walk(info: Seq<u8>, off: int, acc: BootInfo) -> BootInfo
    decreases info.len() - off,
{
    if off < 0 || off + 8 > info.len() {
        acc
    } else if u32_at(info, off) == TAG_END {
        acc
    } else {
        let acc2 = apply_tag(info, off, acc);
        let step = tag_step(u32_at(info, off + 4) as u32);
        if step <= 0 || off + step > info.len() {
            acc2
        } else {
            walk(info, off + step, acc2)
        }
    }
}

/// Nothing found yet.
pub open spec fn empty_info() -> BootInfo {
    BootInfo { mmap: None, framebuffer: None, xsdt: None, module: None }
}

/// The tags of a boot-information block.
pub open spec fn spec_parse(info: Seq<u8>) -> BootInfo {
    walk(info, 8, empty_info())
}

/// Read the memory map, framebuffer, ACPI and module tags of the information
/// `info` (its first 8 bytes are the total size and a reserved word).
pub fn parse(info: &[u8]) -> (r: BootInfo)
    ensures
        r == spec_parse(info@),
{
    let n = info.len();
    let mut acc = BootInfo { mmap: None, framebuffer: None, xsdt: None, module: None };
    let mut off: usize = 8;
    while off <= n && n - off >= 8
        invariant
            n == info@.len(),
            off >= 8,
            walk(info@, off as int, acc) == spec_parse(info@),
        decreases n - off,
    {
        let typ = read_u32(info, off);
        if typ == TAG_END {
            return acc;
        }
        let size = read_u32(info, off + 4);
        if typ == TAG_MMAP && n - off >= 12 {
            acc = BootInfo {
                mmap: Some(MmapTag { offset: off as u64, size, entry_size: read_u32(info, off + 8) }),
                ..acc
            };
        } else if typ == TAG_FRAMEBUFFER && n - off >= 29 {
            acc = BootInfo {
                framebuffer: Some(
                    Framebuffer {
                        addr: read_u64(info, off + 8),
                        pitch: read_u32(info, off + 16),
                        width: read_u32(info, off + 20),
                        height: read_u32(info, off + 24),
                        bpp: info[off + 28],
                    },
                ),
                ..acc
            };
        } else if typ == TAG_ACPI_NEW && n - off >= 40 {
            acc = BootInfo { xsdt: Some(read_u64(info, off + 32)), ..acc };
        } else if typ == TAG_MODULE && n - off >= 16 {
            acc = BootInfo { module: Some(Module { start: read_u32(info, off + 8), end: read_u32(info, off + 12) }), ..acc };
        }
        let step: u64 = ((size as u64 + 7) / 8) * 8;
        if step == 0 {
            return acc;
        }
        if step > (n - off) as u64 {
            return acc;
        }
        off = off + step as usize;
    }
    acc
}


/// The memory-map entry at byte `at` of the information.
pub open spec fn entry_at(info: Seq<u8>, at: int) -> MemoryEntry {
    MemoryEntry {
        base_addr: u64_at(info, at) as u64,
        length: u64_at(info, at + 8) as u64,
        typ: u32_at(info, at + 16) as u32,
    }
}

/// The entries from byte `off` of the entry area that starts at `start`
/// and is `len` bytes long; the walk stops at the end of the area or at an
/// entry that does not fit in the information.
pub open spec fn entries_from(info: Seq<u8>, start: int, len: int, esz: int, off: int) -> Seq<MemoryEntry>
    decreases (if off < len { len - off } else { 0 }),
{
    if esz <= 0 || off < 0 || off >= len || start + off + 20 > info.len() {
        Seq::empty()
    } else {
        seq![entry_at(info, start + off)] + entries_from(info, start, len, esz, off + esz)
    }
}

/// The entries of the memory-map tag `tag`: they start 16 bytes into the
/// tag and follow each other every `entry_size` bytes.
pub open spec fn spec_memory_entries(info: Seq<u8>, tag: MmapTag) -> Seq<MemoryEntry> {
    entries_from(info, tag.offset + 16, tag.size - 16, tag.entry_size as int, 0)
}

/// Read the entries of the memory-map tag `tag` of `info`.
pub fn memory_entries(info: &[u8], tag: MmapTag) -> (r: Vec<MemoryEntry>)
    requires
        tag.size >= 16,
        tag.entry_size > 0,
        tag.offset + 16 <= u64::MAX,
    ensures
        r@ == spec_memory_entries(info@, tag),
{
    let nu = info.len();
    let n = nu as u64;
    let start: u64 = tag.offset + 16;
    let len: u64 = (tag.size - 16) as u64;
    let esz: u64 = tag.entry_size as u64;
    let mut off: u64 = 0;
    let mut r: Vec<MemoryEntry> = Vec::new();
    while off < len
        invariant
            n == info@.len(),
            n == nu,
            start == tag.offset + 16,
            len == tag.size - 16,
            esz == tag.entry_size,
            esz > 0,
            off <= len + esz,
            len <= 0xFFFF_FFFF,
            esz <= 0xFFFF_FFFF,
            r@ + entries_from(info@, start as int, len as int, esz as int, off as int) == spec_memory_entries(info@, tag),
        decreases len + esz - off,
    {
        if start > n || n - start < off || n - start - off < 20 {
            proof {
                assert(r@ + Seq::<MemoryEntry>::empty() =~= r@);
            }
            return r;
        }
        let at = (start + off) as usize;
        let e = MemoryEntry {
            base_addr: read_u64(info, at),
            length: read_u64(info, at + 8),
            typ: read_u32(info, at + 16),
        };
        let ghost rest = entries_from(info@, start as int, len as int, esz as int, off as int);
        r.push(e);
        off = off + esz;
        proof {
            assert(rest =~= seq![e] + entries_from(info@, start as int, len as int, esz as int, off as int));
            assert(r@ + entries_from(info@, start as int, len as int, esz as int, off as int) =~= r@.drop_last() + rest);
        }
    }
    proof {
        assert(r@ + Seq::<MemoryEntry>::empty() =~= r@);
    }
    r
}

} // verus!
