//! First-fit free-list heap.
//!
//! The free list is modelled by the sequence of its free regions, head
//! first.  Each region is the address range `[start, start + size)`.  A block
//! handed out by `alloc` is cut out of the first region that can hold it;
//! what is left in front of it and behind it goes back to the head of the
//! list, and `dealloc` pushes the block itself back to the head.
use vstd::prelude::*;

verus! {

/// Size of a free-list node: every free region must be able to hold one.
pub const NODE_SIZE: usize = 16;

/// Alignment of a free-list node.
pub const NODE_ALIGN: usize = 8;

// ---------------------------------------------------------------------------
// Bit-level helpers for power-of-two alignment
// ---------------------------------------------------------------------------

/// `x` is a power of two.
pub open spec fn is_pow2(x: usize) -> bool {
    x > 0 && x & ((x - 1) as usize) == 0
}

/// `x` is a multiple of the power of two `align`.
pub open spec fn is_aligned(x: usize, align: usize) -> bool {
    x & ((align - 1) as usize) == 0
}

/// Highest address (exclusive) that a free region may reach: half of the
/// address space.  A layout the heap takes may ask for an alignment as
/// large as 2^63 (`size + align - 1` within `isize::MAX`), and rounding an
/// address in the upper half up to such an alignment would wrap; below
/// this limit every rounding the first-fit search makes stays in range.
pub open spec fn addr_limit() -> int {
    usize::MAX as int / 2 + 1
}

proof fn lemma_mask_down(x: usize, m: usize)
    by (bit_vector)
    ensures
        (x & !m) & m == 0,
        (x & !m) <= x,
        x - (x & !m) <= m,
{
}

/// Facts about the constant sizes and alignments the heap uses.
proof fn lemma_heap_constants()
    by (bit_vector)
    ensures
        8usize & 7usize == 0,
        16usize & 7usize == 0,
        512usize & 7usize == 0,
        4096usize & 7usize == 0,
        4096usize & 4095usize == 0,
        ((8usize + 7) as usize) & !(7usize) == 8usize,
        ((64usize + 4095) as usize) & !(4095usize) == 4096usize,
{
}

proof fn lemma_no_mask(a: usize)
    by (bit_vector)
    ensures
        a & 0usize == 0,
{
}

proof fn lemma_page_multiple(a: usize)
    by (bit_vector)
    requires
        a & 4095usize == 0,
    ensures
        a % 4096 == 0,
{
}

/// A multiple of 8 is its own round-up to 8.
proof fn lemma_round8(size: usize)
    by (bit_vector)
    requires
        size & 7usize == 0,
        size <= 0x10000,
    ensures
        ((size + 7) as usize) & !(7usize) == size,
{
}

/// The sum of two multiples of 8 is a multiple of 8.
proof fn lemma_aligned_sum(a: usize, b: usize)
    requires
        a & 7 == 0,
        b & 7 == 0,
        a + b <= usize::MAX,
    ensures
        (a + b) as usize & 7 == 0,
{
    let s = (a + b) as usize;
    assert(s & 7 == 0) by (bit_vector)
        requires
            a & 7 == 0,
            b & 7 == 0,
            s == a + b,
    ;
}

/// An address aligned to a power of two that is at least 8 is aligned to 8.
proof fn lemma_aligned_8(a: usize, align: usize)
    requires
        is_pow2(align),
        align >= 8,
        is_aligned(a, align),
    ensures
        a & 7 == 0,
{
    let m = (align - 1) as usize;
    assert(a & 7 == 0) by (bit_vector)
        requires
            a & m == 0,
            align & m == 0,
            m == align - 1,
            align >= 8,
    ;
}

/// A power of two in `usize` is at most half the address space plus one.
proof fn lemma_pow2_bound(align: usize)
    requires
        is_pow2(align),
    ensures
        align <= usize::MAX / 2 + 1,
{
    let a = align as u64;
    let m = (a - 1) as u64;
    assert(a & m == 0);
    assert(usize::MAX == 0xffff_ffff || usize::MAX == 0xffff_ffff_ffff_ffff);
    assert(a <= 0x8000_0000_0000_0000u64 && (a <= 0xffff_ffffu64 ==> a <= 0x8000_0000u64)) by (bit_vector)
        requires
            a > 0,
            a & m == 0,
            m == a - 1,
    ;
}

/// Rounding an address up to a power-of-two alignment, as `align_up` computes it.
pub open spec fn spec_align_up(addr: usize, align: usize) -> usize {
    if align <= 1 {
        addr
    } else {
        ((addr + align - 1) as usize) & !((align - 1) as usize)
    }
}

/// `spec_align_up` gives the least aligned address at or above `addr`.
pub proof fn lemma_align_up(addr: usize, align: usize)
    requires
        is_pow2(align),
        addr + align - 1 <= usize::MAX,
    ensures
        is_aligned(spec_align_up(addr, align), align),
        addr <= spec_align_up(addr, align),
        spec_align_up(addr, align) - addr < align,
{
    if align <= 1 {
        assert(align == 1);
        lemma_no_mask(addr);
    } else {
        lemma_mask_down((addr + align - 1) as usize, (align - 1) as usize);
    }
}

/// A multiple of a power of two is its own round-up to it.
proof fn lemma_aligned_fixed(x: usize, m: usize, align: usize)
    by (bit_vector)
    requires
        align > 0,
        m == align - 1,
        align & m == 0,
        x & m == 0,
    ensures
        ((x + m) as usize) & !m == x,
{
}

/// Law: rounding up is idempotent: an address already rounded up to
/// `align` stays where it is.
pub proof fn law_align_up_idempotent(addr: usize, align: usize)
    requires
        align <= 1 || is_pow2(align),
        align <= 1 || addr + align - 1 <= usize::MAX,
    ensures
        spec_align_up(spec_align_up(addr, align), align) == spec_align_up(addr, align),
{
    if align > 1 {
        lemma_align_up(addr, align);
        let x = spec_align_up(addr, align);
        lemma_aligned_fixed(x, (align - 1) as usize, align);
    }
}

/// Round `addr` up to a multiple of `align` (a power of two; 0 and 1 leave
/// `addr` as it is).
pub fn align_up(addr: usize, align: usize) -> (r: usize)
    requires
        align <= 1 || is_pow2(align),
        align <= 1 || addr + align - 1 <= usize::MAX,
    ensures
        r == spec_align_up(addr, align),
        align <= 1 ==> r == addr,
        align > 1 ==> is_aligned(r, align) && addr <= r && r - addr < align,
{
    if align <= 1 {
        return addr;
    }
    proof {
        lemma_align_up(addr, align);
    }
    (addr + (align - 1)) & !(align - 1)
}

// ---------------------------------------------------------------------------
// Free regions
// ---------------------------------------------------------------------------

/// A free region `[start, start + size)`.
#[derive(Clone, Copy)]
pub struct FreeNode {
    pub start: usize,
    pub size: usize,
}

impl FreeNode {
    /// The end (exclusive) of the region.
    pub open spec fn end(self) -> int {
        self.start + self.size
    }

    /// `a` lies in the region.
    pub open spec fn holds(self, a: int) -> bool {
        self.start <= a < self.end()
    }

    /// The region can hold a free-list node and lies below the address limit.
    pub open spec fn ok(self) -> bool {
        &&& self.start & 7 == 0
        &&& self.size >= NODE_SIZE
        &&& self.end() <= addr_limit()
    }

    /// A region of `size` bytes at `start`.
    pub fn new(start: usize, size: usize) -> (r: Self)
        ensures
            r.start == start,
            r.size == size,
    {
        FreeNode { start, size }
    }

    /// Address of the region.
    pub fn start_addr(&self) -> (r: usize)
        ensures
            r == self.start,
    {
        self.start
    }

    /// End address (exclusive) of the region.
    pub fn end_addr(&self) -> (r: usize)
        requires
            self.end() <= usize::MAX,
        ensures
            r == self.end(),
    {
        self.start + self.size
    }
}

/// Two regions do not overlap.
pub open spec fn disjoint(a: FreeNode, b: FreeNode) -> bool {
    a.end() <= b.start || b.end() <= a.start
}

/// Every region is well formed and no two regions overlap.
pub open spec fn regions_wf(s: Seq<FreeNode>) -> bool {
    &&& forall|i: int| 0 <= i < s.len() ==> #[trigger] s[i].ok()
    &&& forall|i: int, j: int|
        0 <= i < s.len() && 0 <= j < s.len() && i != j ==> disjoint(#[trigger] s[i], #[trigger] s[j])
}

/// `a` lies in one of the regions.
pub open spec fn covered(s: Seq<FreeNode>, a: int) -> bool {
    exists|i: int| 0 <= i < s.len() && #[trigger] s[i].holds(a)
}

/// The set of free addresses.
pub open spec fn free_addrs(s: Seq<FreeNode>) -> Set<int> {
    Set::new(|a: int| covered(s, a))
}

/// The set of addresses `[lo, hi)`.
pub open spec fn addr_range(lo: int, hi: int) -> Set<int> {
    Set::new(|a: int| lo <= a < hi)
}

/// Where a block of `size` bytes aligned to `align` goes in region `n`, if it
/// fits: the first aligned address whose front gap is empty or can hold a
/// node, provided the tail gap is empty or can hold a node too.
#[verifier::opaque]
pub open spec fn region_fit(n: FreeNode, size: usize, align: usize) -> Option<usize> {
    let s1 = spec_align_up(n.start, align);
    let s = if s1 - n.start > 0 && s1 - n.start < NODE_SIZE {
        spec_align_up((n.start + NODE_SIZE) as usize, align)
    } else {
        s1
    };
    if s + size > n.end() {
        None
    } else if n.end() - (s + size) > 0 && n.end() - (s + size) < NODE_SIZE {
        None
    } else {
        Some(s)
    }
}

pub open spec fn fits(n: FreeNode, size: usize, align: usize) -> bool {
    region_fit(n, size, align) is Some
}

/// Two different addresses aligned to a power of two lie at least the
/// alignment apart, and a power of two from 8 up that is below 16 is 8.
proof fn lemma_aligned_apart_u64(x: u64, y: u64, m: u64, align: u64)
    by (bit_vector)
    requires
        align > 0,
        m == align - 1,
        align & m == 0,
        x & m == 0,
        y & m == 0,
        x < y,
    ensures
        y - x >= align,
        8 <= align < 16 ==> align == 8,
{
}

/// Two different addresses aligned to `align` lie at least `align` apart;
/// an alignment from 8 up that is below 16 is 8.
proof fn lemma_aligned_apart(x: usize, y: usize, align: usize)
    requires
        is_pow2(align),
        is_aligned(x, align),
        is_aligned(y, align),
        x < y,
    ensures
        y - x >= align,
        8 <= align < 16 ==> align == 8,
{
    let m = (align - 1) as usize;
    let (x6, y6, m6, a6) = (x as u64, y as u64, m as u64, align as u64);
    assert(x6 & m6 == 0 && y6 & m6 == 0 && a6 & m6 == 0);
    lemma_aligned_apart_u64(x6, y6, m6, a6);
}

/// Rounding up gives the least aligned address at or above `addr`.
proof fn lemma_align_up_least(addr: usize, align: usize, x: usize)
    requires
        is_pow2(align),
        addr + align - 1 <= usize::MAX,
        is_aligned(x, align),
        addr <= x,
    ensures
        spec_align_up(addr, align) <= x,
        is_aligned(spec_align_up(addr, align), align),
{
    lemma_align_up(addr, align);
    let up = spec_align_up(addr, align);
    if x < up {
        lemma_aligned_apart(x, up, align);
    }
}

/// Law: first fit is complete: when a region has room for the block at
/// some aligned address whose front gap and tail gap are each empty or can
/// hold a node, the region fits the block, so the allocation does not fail
/// on it.
pub proof fn law_first_fit_complete(n: FreeNode, size: usize, align: usize, s: usize)
    requires
        n.ok(),
        is_pow2(align),
        align >= 8,
        is_aligned(s, align),
        n.start <= s,
        s - n.start == 0 || s - n.start >= NODE_SIZE,
        s + size <= n.end(),
        n.end() - (s + size) == 0 || n.end() - (s + size) >= NODE_SIZE,
    ensures
        fits(n, size, align),
{
    reveal(region_fit);
    lemma_pow2_bound(align);
    lemma_heap_constants();
    let start = n.start;
    lemma_align_up_least(start, align, s);
    let s1 = spec_align_up(start, align);
    lemma_align_up(start, align);
    let c = if s1 - start > 0 && s1 - start < NODE_SIZE {
        lemma_align_up_least((start + NODE_SIZE) as usize, align, s);
        spec_align_up((start + NODE_SIZE) as usize, align)
    } else {
        s1
    };
    assert(c <= s);
    assert(is_aligned(c, align));
    let tail_c = n.end() - (c + size);
    if tail_c > 0 && tail_c < NODE_SIZE {
        // The tail at `s` is then empty, and `s` lies `tail_c` past `c`.
        assert(s - c == tail_c);
        lemma_aligned_apart(c, s, align);
        assert(align == 8);
        // With alignment 8 the region's start is aligned, so `c` is the
        // start and the front gap at `s` is neither empty nor node-sized.
        lemma_aligned_fixed(start, 7, 8);
        assert(s1 == start);
        assert(c == start);
        assert(false);
    }
}

/// Some region can take the block.
pub open spec fn has_fit(s: Seq<FreeNode>, size: usize, align: usize) -> bool {
    exists|i: int| 0 <= i < s.len() && fits(#[trigger] s[i], size, align)
}

/// The first region that can take the block.
pub open spec fn first_fit(s: Seq<FreeNode>, size: usize, align: usize) -> int {
    choose|i: int|
        0 <= i < s.len() && fits(s[i], size, align) && forall|j: int|
            0 <= j < i ==> !fits(#[trigger] s[j], size, align)
}

/// What is left of region `n` once the block `[s, s + size)` is cut out:
/// the tail gap (if any) followed by the front gap (if any), in the order in
/// which `alloc` pushes them to the head of the list.
pub open spec fn leftovers(n: FreeNode, s: int, size: int) -> Seq<FreeNode> {
    let tail = if n.end() - (s + size) > 0 {
        seq![FreeNode { start: (s + size) as usize, size: (n.end() - (s + size)) as usize }]
    } else {
        Seq::empty()
    };
    let front = if s - n.start > 0 {
        seq![FreeNode { start: n.start, size: (s - n.start) as usize }]
    } else {
        Seq::empty()
    };
    tail + front
}

/// The list and the address that an allocation of `size` bytes aligned to
/// `align` produces: first fit, leftovers pushed to the head; or the list
/// unchanged and address 0 when nothing fits.
pub open spec fn spec_alloc(s: Seq<FreeNode>, size: usize, align: usize) -> (Seq<FreeNode>, usize) {
    if has_fit(s, size, align) {
        let i = first_fit(s, size, align);
        let n = s[i];
        let r = region_fit(n, size, align)->0;
        (leftovers(n, r as int, size as int) + s.remove(i), r)
    } else {
        (s, 0)
    }
}

/// The list after the block `[ptr, ptr + size)` is given back.
pub open spec fn spec_dealloc(s: Seq<FreeNode>, ptr: usize, size: usize) -> Seq<FreeNode> {
    seq![FreeNode { start: ptr, size }] + s
}

/// Properties of a fitting place: aligned, inside the region, with gaps
/// that are empty or can hold a node.
proof fn lemma_region_fit(n: FreeNode, size: usize, align: usize)
    requires
        n.ok(),
        is_pow2(align),
        align >= 8,
        fits(n, size, align),
    ensures
        ({
            let s = region_fit(n, size, align)->0;
            &&& is_aligned(s, align)
            &&& s & 7 == 0
            &&& n.start <= s
            &&& s - n.start == 0 || s - n.start >= NODE_SIZE
            &&& s + size <= n.end()
            &&& n.end() - (s + size) == 0 || n.end() - (s + size) >= NODE_SIZE
        }),
{
    reveal(region_fit);
    lemma_pow2_bound(align);
    lemma_align_up(n.start, align);
    let s1 = spec_align_up(n.start, align);
    if s1 - n.start > 0 && s1 - n.start < NODE_SIZE {
        lemma_align_up((n.start + NODE_SIZE) as usize, align);
    }
    let s = region_fit(n, size, align)->0;
    lemma_aligned_8(s, align);
}

// ---------------------------------------------------------------------------
// The free list
// ---------------------------------------------------------------------------

/// First-fit allocator over a list of free regions.
pub struct FreeList {
    regions: Vec<FreeNode>,
}

impl View for FreeList {
    type V = Seq<FreeNode>;

    closed spec fn view(&self) -> Seq<FreeNode> {
        self.regions@
    }
}

impl FreeList {
    /// The list's regions are well formed and pairwise disjoint.
    pub open spec fn wf(&self) -> bool {
        regions_wf(self@)
    }

    /// The addresses that the list holds free.
    pub open spec fn free(&self) -> Set<int> {
        free_addrs(self@)
    }

    /// An empty list.
    pub fn new() -> (r: Self)
        ensures
            r@ == Seq::<FreeNode>::empty(),
            r.wf(),
    {
        FreeList { regions: Vec::new() }
    }

    /// Hand the region `[addr, addr + size)` to the heap.
    pub fn init(&mut self, addr: usize, size: usize)
        requires
            old(self).wf(),
            addr & 7 == 0,
            size >= NODE_SIZE,
            addr + size <= addr_limit(),
            forall|i: int|
                0 <= i < old(self)@.len() ==> disjoint(
                    #[trigger] old(self)@[i],
                    FreeNode { start: addr, size },
                ),
        ensures
            final(self).wf(),
            final(self)@ == seq![FreeNode { start: addr, size }] + old(self)@,
            final(self).free() == old(self).free() + addr_range(addr as int, addr + size),
    {
        self.add_free_region(addr, size);
    }

    /// Push the region `[addr, addr + size)` to the head of the list.
    fn add_free_region(&mut self, addr: usize, size: usize)
        requires
            old(self).wf(),
            addr & 7 == 0,
            size >= NODE_SIZE,
            addr + size <= addr_limit(),
            forall|i: int|
                0 <= i < old(self)@.len() ==> disjoint(
                    #[trigger] old(self)@[i],
                    FreeNode { start: addr, size },
                ),
        ensures
            final(self).wf(),
            final(self)@ == seq![FreeNode { start: addr, size }] + old(self)@,
            final(self).free() == old(self).free() + addr_range(addr as int, addr + size),
    {
        let ghost old_s = self@;
        let node = FreeNode::new(addr, size);
        self.regions.insert(0, node);
        let ghost new_s = self@;
        assert(new_s == seq![node] + old_s);
        assert forall|i: int, j: int|
            0 <= i < new_s.len() && 0 <= j < new_s.len() && i != j implies disjoint(
            #[trigger] new_s[i],
            #[trigger] new_s[j],
        ) by {
            if i > 0 && j > 0 {
                assert(new_s[i] == old_s[i - 1]);
                assert(new_s[j] == old_s[j - 1]);
            } else if i == 0 {
                assert(new_s[j] == old_s[j - 1]);
            } else {
                assert(new_s[i] == old_s[i - 1]);
            }
        }
        assert forall|i: int| 0 <= i < new_s.len() implies #[trigger] new_s[i].ok() by {
            if i > 0 {
                assert(new_s[i] == old_s[i - 1]);
            }
        }
        assert forall|a: int| covered(new_s, a) <==> covered(old_s, a) || (addr <= a < addr + size) by {
            if covered(new_s, a) {
                let i = choose|i: int| 0 <= i < new_s.len() && #[trigger] new_s[i].holds(a);
                if i > 0 {
                    assert(old_s[i - 1].holds(a));
                }
            }
            if covered(old_s, a) {
                let i = choose|i: int| 0 <= i < old_s.len() && #[trigger] old_s[i].holds(a);
                assert(new_s[i + 1].holds(a));
            }
            if addr <= a < addr + size {
                assert(new_s[0].holds(a));
            }
        }
        assert(self.free() =~= old(self).free() + addr_range(addr as int, addr + size));
    }

    /// Can the block (`size` bytes aligned to `align`) go into `region`?
    /// `Ok` with the address of the block, or `Err` when the region does not
    /// fit it.
    fn alloc_from_region(region: &FreeNode, size: usize, align: usize) -> (r: Result<usize, ()>)
        requires
            region.ok(),
            is_pow2(align),
            align >= 8,
        ensures
            r is Ok <==> fits(*region, size, align),
            r is Ok ==> Some(r->Ok_0) == region_fit(*region, size, align),
    {
        proof {
            lemma_pow2_bound(align);
            reveal(region_fit);
        }
        let mut alloc_start = align_up(region.start_addr(), align);

        let front = alloc_start - region.start_addr();
        if front > 0 && front < NODE_SIZE {
            alloc_start = align_up(region.start_addr() + NODE_SIZE, align);
        }
        let alloc_end = match alloc_start.checked_add(size) {
            Some(e) => e,
            None => {
                return Err(());
            },
        };
        if alloc_end > region.end_addr() {
            return Err(());
        }
        let excess = region.end_addr() - alloc_end;
        if excess > 0 && excess < NODE_SIZE {
            return Err(());
        }
        Ok(alloc_start)
    }

    /// First fit: find the first region that can take the block, take it
    /// out of the list and return it with the address of the block.
    fn find_region(&mut self, size: usize, align: usize) -> (r: Option<(FreeNode, usize)>)
        requires
            old(self).wf(),
            is_pow2(align),
            align >= 8,
        ensures
            r is None <==> !has_fit(old(self)@, size, align),
            r is None ==> final(self)@ == old(self)@,
            r is Some ==> ({
                let i = first_fit(old(self)@, size, align);
                &&& 0 <= i < old(self)@.len()
                &&& r.unwrap().0 == old(self)@[i]
                &&& Some(r.unwrap().1) == region_fit(old(self)@[i], size, align)
                &&& final(self)@ == old(self)@.remove(i)
            }),
    {
        let ghost s0 = self@;
        let mut i: usize = 0;
        while i < self.regions.len()
            invariant
                self@ == s0,
                s0 == old(self)@,
                regions_wf(s0),
                is_pow2(align),
                align >= 8,
                i <= s0.len(),
                forall|j: int| 0 <= j < i ==> !fits(#[trigger] s0[j], size, align),
            decreases s0.len() - i,
        {
            match Self::alloc_from_region(&self.regions[i], size, align) {
                Ok(s) => {
                    proof {
                        let k = first_fit(s0, size, align);
                        assert(0 <= i < s0.len() && fits(s0[i as int], size, align) && forall|j: int|
                            0 <= j < i ==> !fits(#[trigger] s0[j], size, align));
                        assert(0 <= k < s0.len() && fits(s0[k], size, align) && forall|j: int|
                            0 <= j < k ==> !fits(#[trigger] s0[j], size, align));
                        if k < i {
                            assert(!fits(s0[k], size, align));
                        }
                        if k > i {
                            assert(!fits(s0[i as int], size, align));
                        }
                        assert(k == i);
                    }
                    let n = self.regions.remove(i);
                    return Some((n, s));
                },
                Err(()) => {
                    i += 1;
                },
            }
        }
        assert(!has_fit(s0, size, align));
        None
    }

    /// Cutting the block `[s, s + size)` out of region `i` leaves the free
    /// set without the block, and the list well formed.
    proof fn lemma_cut(s0: Seq<FreeNode>, i: int, s: usize, size: usize)
        requires
            regions_wf(s0),
            0 <= i < s0.len(),
            s0[i].start <= s,
            s - s0[i].start == 0 || s - s0[i].start >= NODE_SIZE,
            s + size <= s0[i].end(),
            s0[i].end() - (s + size) == 0 || s0[i].end() - (s + size) >= NODE_SIZE,
            ((s + size) as usize) & 7 == 0,
        ensures
            ({
                let n = s0[i];
                let rest = s0.remove(i);
                let front = FreeNode { start: n.start, size: (s - n.start) as usize };
                let tail = FreeNode { start: (s + size) as usize, size: (n.end() - (s + size)) as usize };
                &&& regions_wf(rest)
                &&& s - n.start > 0 ==> front.ok() && forall|k: int| 0 <= k < rest.len() ==> disjoint(#[trigger] rest[k], front)
                &&& n.end() - (s + size) > 0 ==> tail.ok() && disjoint(front, tail)
                    && forall|k: int| 0 <= k < rest.len() ==> disjoint(#[trigger] rest[k], tail)
                &&& regions_wf(leftovers(n, s as int, size as int) + rest)
                &&& free_addrs(leftovers(n, s as int, size as int) + rest) == free_addrs(s0) - addr_range(s as int, s + size)
                &&& addr_range(s as int, s + size) <= free_addrs(s0)
            }),
    {
        let n = s0[i];
        assert(n.ok());
        let rest = s0.remove(i);
        let front = FreeNode { start: n.start, size: (s - n.start) as usize };
        let tail = FreeNode { start: (s + size) as usize, size: (n.end() - (s + size)) as usize };
        let has_front = s - n.start > 0;
        let has_tail = n.end() - (s + size) > 0;
        let l = leftovers(n, s as int, size as int);
        let t = l + rest;
        assert forall|k: int| 0 <= k < rest.len() implies #[trigger] rest[k].ok() && disjoint(
            rest[k],
            n,
        ) by {
            if k < i {
                assert(rest[k] == s0[k]);
            } else {
                assert(rest[k] == s0[k + 1]);
            }
        }
        assert forall|k: int, m: int|
            0 <= k < rest.len() && 0 <= m < rest.len() && k != m implies disjoint(
            #[trigger] rest[k],
            #[trigger] rest[m],
        ) by {
            let k0 = if k < i { k } else { k + 1 };
            let m0 = if m < i { m } else { m + 1 };
            assert(rest[k] == s0[k0]);
            assert(rest[m] == s0[m0]);
        }
        if has_front {
            assert(front.ok());
        }
        if has_tail {
            assert(tail.ok());
        }
        // The leftover pieces, in list order.
        assert(l == (if has_tail { seq![tail] } else { Seq::<FreeNode>::empty() }) + (if has_front {
            seq![front]
        } else {
            Seq::<FreeNode>::empty()
        }));
        assert forall|k: int| 0 <= k < l.len() implies (#[trigger] l[k] == front && has_front) || (
        l[k] == tail && has_tail) by {}
        assert forall|k: int| 0 <= k < t.len() implies #[trigger] t[k].ok() by {
            if k >= l.len() {
                assert(t[k] == rest[k - l.len()]);
            } else {
                assert(t[k] == l[k]);
            }
        }
        assert forall|k: int, m: int|
            0 <= k < t.len() && 0 <= m < t.len() && k != m implies disjoint(
            #[trigger] t[k],
            #[trigger] t[m],
        ) by {
            if k >= l.len() {
                assert(t[k] == rest[k - l.len()]);
            } else {
                assert(t[k] == l[k]);
            }
            if m >= l.len() {
                assert(t[m] == rest[m - l.len()]);
            } else {
                assert(t[m] == l[m]);
            }
            if k < l.len() && m < l.len() {
                assert(l.len() == 2);
            }
        }
        assert forall|a: int| covered(t, a) <==> covered(s0, a) && !(s <= a < s + size) by {
            if covered(t, a) {
                let k = choose|k: int| 0 <= k < t.len() && #[trigger] t[k].holds(a);
                if k >= l.len() {
                    let r = k - l.len();
                    assert(t[k] == rest[r]);
                    let k0 = if r < i { r } else { r + 1 };
                    assert(rest[r] == s0[k0]);
                    assert(s0[k0].holds(a));
                } else {
                    assert(t[k] == l[k]);
                    assert(s0[i].holds(a));
                }
            }
            if covered(s0, a) && !(s <= a < s + size) {
                let k = choose|k: int| 0 <= k < s0.len() && #[trigger] s0[k].holds(a);
                if k == i {
                    if a < s {
                        let j = if has_tail { 1int } else { 0int };
                        assert(l[j] == front);
                        assert(t[j] == l[j]);
                        assert(t[j].holds(a));
                    } else {
                        assert(l[0] == tail);
                        assert(t[0] == l[0]);
                        assert(t[0].holds(a));
                    }
                } else {
                    let r = if k < i { k } else { k - 1 };
                    assert(rest[r] == s0[k]);
                    assert(t[r + l.len()] == rest[r]);
                    assert(t[r + l.len()].holds(a));
                }
            }
        }
        assert(free_addrs(t) =~= free_addrs(s0) - addr_range(s as int, s + size));
        assert forall|a: int| addr_range(s as int, s + size).contains(a) implies free_addrs(
            s0,
        ).contains(a) by {
            assert(s0[i].holds(a));
        }
    }

    /// Push what is left of `region` around the block `[s, s + size)` back
    /// to the head of the list: the front gap first, then the tail gap.
    fn push_leftovers(
        &mut self,
        region: FreeNode,
        s: usize,
        size: usize,
        Ghost(s0): Ghost<Seq<FreeNode>>,
        Ghost(i): Ghost<int>,
    )
        requires
            regions_wf(s0),
            0 <= i < s0.len(),
            s0[i] == region,
            old(self)@ == s0.remove(i),
            region.start <= s,
            s - region.start == 0 || s - region.start >= NODE_SIZE,
            s + size <= region.end(),
            region.end() - (s + size) == 0 || region.end() - (s + size) >= NODE_SIZE,
            ((s + size) as usize) & 7 == 0,
        ensures
            final(self)@ == leftovers(region, s as int, size as int) + s0.remove(i),
            final(self).wf(),
            final(self).free() == free_addrs(s0) - addr_range(s as int, s + size),
            addr_range(s as int, s + size) <= free_addrs(s0),
    {
        proof {
            Self::lemma_cut(s0, i, s, size);
            assert(region.ok());
        }
        let ghost rest = s0.remove(i);
        let region_start = region.start_addr();
        let region_end = region.end_addr();
        let alloc_end = s + size;
        let front = s - region_start;
        if front > 0 {
            self.add_free_region(region_start, front);
        }
        let excess = region_end - alloc_end;
        if excess > 0 {
            proof {
                assert forall|k: int| 0 <= k < self@.len() implies disjoint(
                    #[trigger] self@[k],
                    FreeNode { start: alloc_end, size: excess },
                ) by {
                    if front > 0 && k == 0 {
                    } else {
                        let r = if front > 0 { k - 1 } else { k };
                        assert(self@[k] == rest[r]);
                    }
                }
            }
            self.add_free_region(alloc_end, excess);
        }
        assert(self@ =~= leftovers(region, s as int, size as int) + rest);
    }

    /// Allocate `size` bytes aligned to `align` (both already normalized by
    /// `size_align`).  Returns the address of the block, or 0 when no region
    /// can take it.
    pub fn alloc_block(&mut self, size: usize, align: usize) -> (r: usize)
        requires
            old(self).wf(),
            is_pow2(align),
            align >= 8,
            size >= NODE_SIZE,
            size & 7 == 0,
        ensures
            final(self).wf(),
            (final(self)@, r) == spec_alloc(old(self)@, size, align),
            !has_fit(old(self)@, size, align) ==> r == 0 && final(self)@ == old(self)@,
            has_fit(old(self)@, size, align) ==> ({
                let i = first_fit(old(self)@, size, align);
                let n = old(self)@[i];
                &&& Some(r) == region_fit(n, size, align)
                &&& final(self)@ == leftovers(n, r as int, size as int) + old(self)@.remove(i)
                &&& is_aligned(r, align)
                &&& addr_range(r as int, r + size) <= old(self).free()
                &&& final(self).free() == old(self).free() - addr_range(r as int, r + size)
            }),
    {
        let ghost s0 = self@;
        match self.find_region(size, align) {
            Some((region, alloc_start)) => {
                let ghost i = first_fit(s0, size, align);
                assert(0 <= i < s0.len() && region == s0[i] && s0[i].ok());
                proof {
                    lemma_region_fit(region, size, align);
                    lemma_aligned_sum(alloc_start, size);
                }
                self.push_leftovers(region, alloc_start, size, Ghost(s0), Ghost(i));
                alloc_start
            },
            None => 0,
        }
    }

    /// Give the block `[ptr, ptr + size)` back to the heap.
    pub fn dealloc(&mut self, ptr: usize, size: usize)
        requires
            old(self).wf(),
            ptr & 7 == 0,
            size >= NODE_SIZE,
            ptr + size <= addr_limit(),
            forall|i: int|
                0 <= i < old(self)@.len() ==> disjoint(
                    #[trigger] old(self)@[i],
                    FreeNode { start: ptr, size },
                ),
        ensures
            final(self).wf(),
            final(self)@ == spec_dealloc(old(self)@, ptr, size),
            final(self).free() == old(self).free() + addr_range(ptr as int, ptr + size),
    {
        self.add_free_region(ptr, size);
    }
}

// ---------------------------------------------------------------------------
// Layout normalization and the allocation entry points
// ---------------------------------------------------------------------------

/// `(size, align)` describes a valid layout: `align` is a power of two and
/// `size` rounded up to it does not exceed `isize::MAX`.
pub open spec fn layout_valid(size: usize, align: usize) -> bool {
    is_pow2(align) && size + align - 1 <= isize::MAX
}

/// The larger of `align` and the node alignment.
pub open spec fn norm_align(align: usize) -> usize {
    if align >= NODE_ALIGN { align } else { NODE_ALIGN }
}

/// The size and alignment that the heap really hands out for a layout: the
/// alignment raised to the node alignment, the size padded to it and raised
/// to the node size.
pub open spec fn spec_size_align(size: usize, align: usize) -> (usize, usize) {
    let a = norm_align(align);
    let padded = spec_align_up(size, a);
    (if padded >= NODE_SIZE { padded } else { NODE_SIZE }, a)
}

proof fn lemma_pow2_8()
    ensures
        is_pow2(8),
{
    lemma_heap_constants();
}

/// Normalize a layout so that every block handed out can later become a
/// free-list node: at least node-sized, node-aligned, and padded to its
/// alignment.
pub fn size_align(size: usize, align: usize) -> (r: (usize, usize))
    requires
        is_pow2(align),
        size + norm_align(align) - 1 <= isize::MAX,
    ensures
        r == spec_size_align(size, align),
        is_pow2(r.1),
        r.1 >= NODE_ALIGN,
        r.0 >= NODE_SIZE,
        r.0 >= size,
        r.0 & 7 == 0,
        is_aligned(r.0, r.1) || r.0 == NODE_SIZE,
{
    proof {
        lemma_pow2_8();
    }
    let a = if align >= NODE_ALIGN { align } else { NODE_ALIGN };
    let padded = align_up(size, a);
    proof {
        lemma_aligned_8(padded, a);
        lemma_heap_constants();
    }
    let s = if padded >= NODE_SIZE { padded } else { NODE_SIZE };
    (s, a)
}

impl FreeList {
    /// Allocate a block for the layout `(size, align)`: 0 when the layout is
    /// not valid or no region can take the normalized block, else the
    /// address of the block.
    pub fn kmalloc_aligned(&mut self, size: usize, align: usize) -> (r: usize)
        requires
            old(self).wf(),
            layout_valid(size, align) ==> size + norm_align(align) - 1 <= isize::MAX,
        ensures
            final(self).wf(),
            !layout_valid(size, align) ==> r == 0 && final(self)@ == old(self)@,
            layout_valid(size, align) ==> ({
                let (s, a) = spec_size_align(size, align);
                (final(self)@, r) == spec_alloc(old(self)@, s, a)
            }),
    {
        if align == 0 || align & (align - 1) != 0 {
            return 0;
        }
        proof {
            lemma_pow2_bound(align);
            assert(isize::MAX == usize::MAX / 2);
        }
        if size > (isize::MAX as usize) - (align - 1) {
            return 0;
        }
        let (s, a) = size_align(size, align);
        self.alloc_block(s, a)
    }

    /// Allocate `size` bytes aligned to 8.
    pub fn kmalloc(&mut self, size: usize) -> (r: usize)
        requires
            old(self).wf(),
        ensures
            final(self).wf(),
            !layout_valid(size, 8) ==> r == 0 && final(self)@ == old(self)@,
            layout_valid(size, 8) ==> ({
                let (s, a) = spec_size_align(size, 8);
                (final(self)@, r) == spec_alloc(old(self)@, s, a)
            }),
    {
        self.kmalloc_aligned(size, 8)
    }
}

// ---------------------------------------------------------------------------
// Laws of the heap
// ---------------------------------------------------------------------------

/// If some region fits, there is a first one.
proof fn lemma_first_fit_exists(s: Seq<FreeNode>, size: usize, align: usize, n: int)
    requires
        0 <= n <= s.len(),
        exists|i: int| 0 <= i < n && fits(#[trigger] s[i], size, align),
    ensures
        exists|i: int|
            0 <= i < n && fits(s[i], size, align) && forall|j: int|
                0 <= j < i ==> !fits(#[trigger] s[j], size, align),
    decreases n,
{
    if exists|i: int| 0 <= i < n - 1 && fits(#[trigger] s[i], size, align) {
        lemma_first_fit_exists(s, size, align, n - 1);
    } else {
        assert(fits(s[n - 1], size, align));
        assert forall|j: int| 0 <= j < n - 1 implies !fits(#[trigger] s[j], size, align) by {}
    }
}

/// `first_fit` names the first fitting region.
pub proof fn lemma_first_fit(s: Seq<FreeNode>, size: usize, align: usize)
    requires
        has_fit(s, size, align),
    ensures
        0 <= first_fit(s, size, align) < s.len(),
        fits(s[first_fit(s, size, align)], size, align),
        forall|j: int| 0 <= j < first_fit(s, size, align) ==> !fits(#[trigger] s[j], size, align),
{
    lemma_first_fit_exists(s, size, align, s.len() as int);
}

/// Pushing a region to the head adds its addresses to the free set.
proof fn lemma_push_free(s: Seq<FreeNode>, n: FreeNode)
    ensures
        free_addrs(seq![n] + s) == free_addrs(s) + addr_range(n.start as int, n.end()),
{
    let t = seq![n] + s;
    assert forall|a: int| covered(t, a) <==> covered(s, a) || n.holds(a) by {
        if covered(t, a) {
            let i = choose|i: int| 0 <= i < t.len() && #[trigger] t[i].holds(a);
            if i > 0 {
                assert(s[i - 1].holds(a));
            }
        }
        if covered(s, a) {
            let i = choose|i: int| 0 <= i < s.len() && #[trigger] s[i].holds(a);
            assert(t[i + 1].holds(a));
        }
        if n.holds(a) {
            assert(t[0].holds(a));
        }
    }
    assert(free_addrs(t) =~= free_addrs(s) + addr_range(n.start as int, n.end()));
}

/// An allocation that succeeds leaves a well-formed list, hands out an
/// aligned block of free memory, and removes exactly that block from the
/// free set.
pub proof fn lemma_alloc(s: Seq<FreeNode>, size: usize, align: usize)
    requires
        regions_wf(s),
        is_pow2(align),
        align >= 8,
        size >= NODE_SIZE,
        size & 7 == 0,
        has_fit(s, size, align),
    ensures
        ({
            let (t, r) = spec_alloc(s, size, align);
            &&& regions_wf(t)
            &&& is_aligned(r, align)
            &&& FreeNode { start: r, size }.ok()
            &&& addr_range(r as int, r + size) <= free_addrs(s)
            &&& free_addrs(t) == free_addrs(s) - addr_range(r as int, r + size)
            &&& forall|k: int| 0 <= k < t.len() ==> disjoint(#[trigger] t[k], FreeNode { start: r, size })
        }),
{
    lemma_first_fit(s, size, align);
    let i = first_fit(s, size, align);
    let n = s[i];
    assert(n.ok());
    lemma_region_fit(n, size, align);
    let r = region_fit(n, size, align)->0;
    lemma_aligned_sum(r, size);
    FreeList::lemma_cut(s, i, r, size);
    let t = spec_alloc(s, size, align).0;
    let b = FreeNode { start: r, size };
    assert forall|k: int| 0 <= k < t.len() implies disjoint(#[trigger] t[k], b) by {
        if !disjoint(t[k], b) {
            let a = if t[k].start >= r { t[k].start as int } else { r as int };
            assert(t[k].holds(a));
            assert(covered(t, a));
            assert(free_addrs(t).contains(a));
            assert(addr_range(r as int, r + size).contains(a));
        }
    }
}

/// Law: giving back a block just handed out restores the free set.
pub proof fn law_dealloc_undoes_alloc(s: Seq<FreeNode>, size: usize, align: usize)
    requires
        regions_wf(s),
        is_pow2(align),
        align >= 8,
        size >= NODE_SIZE,
        size & 7 == 0,
        has_fit(s, size, align),
    ensures
        ({
            let (t, r) = spec_alloc(s, size, align);
            &&& regions_wf(spec_dealloc(t, r, size))
            &&& free_addrs(spec_dealloc(t, r, size)) == free_addrs(s)
        }),
{
    lemma_alloc(s, size, align);
    let t = spec_alloc(s, size, align).0;
    let r = spec_alloc(s, size, align).1;
    let b = FreeNode { start: r, size };
    let u = spec_dealloc(t, r, size);
    let blk = addr_range(r as int, r + size);
    assert(regions_wf(t));
    assert(b.ok());
    assert(blk <= free_addrs(s));
    assert(free_addrs(t) == free_addrs(s) - blk);
    assert(forall|k: int| 0 <= k < t.len() ==> disjoint(#[trigger] t[k], b));
    lemma_push_free(t, b);
    assert(addr_range(b.start as int, b.end()) == blk);
    assert(free_addrs(u) == free_addrs(t) + blk);
    assert(free_addrs(u) =~= free_addrs(s));
    assert forall|i: int, j: int|
        0 <= i < u.len() && 0 <= j < u.len() && i != j implies disjoint(
        #[trigger] u[i],
        #[trigger] u[j],
    ) by {
        if i > 0 {
            assert(u[i] == t[i - 1]);
        }
        if j > 0 {
            assert(u[j] == t[j - 1]);
        }
    }
    assert forall|i: int| 0 <= i < u.len() implies #[trigger] u[i].ok() by {
        if i > 0 {
            assert(u[i] == t[i - 1]);
        }
    }
}

/// Law: two blocks handed out one after the other never overlap.
pub proof fn law_successive_blocks_disjoint(
    s: Seq<FreeNode>,
    size1: usize,
    align1: usize,
    size2: usize,
    align2: usize,
)
    requires
        regions_wf(s),
        is_pow2(align1),
        align1 >= 8,
        size1 >= NODE_SIZE,
        size1 & 7 == 0,
        is_pow2(align2),
        align2 >= 8,
        size2 >= NODE_SIZE,
        size2 & 7 == 0,
        has_fit(s, size1, align1),
        has_fit(spec_alloc(s, size1, align1).0, size2, align2),
    ensures
        ({
            let (t, r1) = spec_alloc(s, size1, align1);
            let r2 = spec_alloc(t, size2, align2).1;
            disjoint(FreeNode { start: r1, size: size1 }, FreeNode { start: r2, size: size2 })
        }),
{
    lemma_alloc(s, size1, align1);
    let (t, r1) = spec_alloc(s, size1, align1);
    lemma_alloc(t, size2, align2);
    let r2 = spec_alloc(t, size2, align2).1;
    if !disjoint(FreeNode { start: r1, size: size1 }, FreeNode { start: r2, size: size2 }) {
        let a = if r1 >= r2 { r1 as int } else { r2 as int };
        assert(addr_range(r2 as int, r2 + size2).contains(a));
        assert(free_addrs(t).contains(a));
        assert(addr_range(r1 as int, r1 + size1).contains(a));
    }
}


// ---------------------------------------------------------------------------
// Self test
// ---------------------------------------------------------------------------

/// A block lies outside the free set: it overlaps no region of the list.
proof fn lemma_outside_free(s: Seq<FreeNode>, b: FreeNode)
    requires
        regions_wf(s),
        b.size > 0,
        addr_range(b.start as int, b.end()).disjoint(free_addrs(s)),
    ensures
        forall|k: int| 0 <= k < s.len() ==> disjoint(#[trigger] s[k], b),
{
    assert forall|k: int| 0 <= k < s.len() implies disjoint(#[trigger] s[k], b) by {
        if !disjoint(s[k], b) {
            assert(s[k].ok());
            let a = if s[k].start >= b.start { s[k].start as int } else { b.start as int };
            assert(s[k].holds(a));
            assert(covered(s, a));
            assert(free_addrs(s).contains(a));
            assert(addr_range(b.start as int, b.end()).contains(a));
        }
    }
}

/// The addresses of the blocks `ps[lo..hi]`, each `size` bytes.
#[verifier::opaque]
pub open spec fn live(ps: Seq<usize>, lo: int, hi: int, size: int) -> Set<int> {
    Set::new(|a: int| exists|j: int| lo <= j < hi && #[trigger] ps[j] <= a < ps[j] + size)
}

/// Law: an allocation keeps the free list well formed and apart from the
/// blocks in use: the block it hands out is 8-aligned, overlaps no block
/// in use, and the free set afterwards overlaps neither.
pub proof fn law_alloc_keeps_apart(s: Seq<FreeNode>, live: Set<int>, size: usize, align: usize)
    requires
        regions_wf(s),
        free_addrs(s).disjoint(live),
        is_pow2(align),
        align >= 8,
        size >= NODE_SIZE,
        size & 7 == 0,
        has_fit(s, size, align),
    ensures
        ({
            let (t, r) = spec_alloc(s, size, align);
            &&& regions_wf(t)
            &&& r & 7 == 0
            &&& live.disjoint(addr_range(r as int, r + size))
            &&& free_addrs(t).disjoint(live + addr_range(r as int, r + size))
        }),
{
    lemma_alloc(s, size, align);
    let t = spec_alloc(s, size, align).0;
    let r = spec_alloc(s, size, align).1;
    let blk = addr_range(r as int, r + size);
    assert(free_addrs(t) == free_addrs(s) - blk);
    assert forall|x: int| live.contains(x) implies !blk.contains(x) by {
        if blk.contains(x) {
            assert(free_addrs(s).contains(x));
        }
    }
    assert forall|x: int| free_addrs(t).contains(x) implies !(live + blk).contains(x) by {
        assert(free_addrs(s).contains(x));
    }
}

/// Law: giving back a block in use keeps the free list well formed and
/// apart from the blocks still in use.
pub proof fn law_dealloc_keeps_apart(s: Seq<FreeNode>, live: Set<int>, p: usize, size: usize)
    requires
        regions_wf(s),
        (FreeNode { start: p, size }).ok(),
        addr_range(p as int, p + size) <= live,
        free_addrs(s).disjoint(live),
    ensures
        regions_wf(spec_dealloc(s, p, size)),
        free_addrs(spec_dealloc(s, p, size)).disjoint(live - addr_range(p as int, p + size)),
{
    let b = FreeNode { start: p, size };
    let blk = addr_range(p as int, p + size);
    let u = spec_dealloc(s, p, size);
    assert forall|x: int| blk.contains(x) implies !free_addrs(s).contains(x) by {
        assert(live.contains(x));
    }
    assert(blk.disjoint(free_addrs(s)));
    lemma_outside_free(s, b);
    lemma_push_free(s, b);
    assert(addr_range(b.start as int, b.end()) == blk);
    assert forall|i: int, j: int|
        0 <= i < u.len() && 0 <= j < u.len() && i != j implies disjoint(#[trigger] u[i], #[trigger] u[j]) by {
        if i > 0 {
            assert(u[i] == s[i - 1]);
        }
        if j > 0 {
            assert(u[j] == s[j - 1]);
        }
    }
    assert forall|i: int| 0 <= i < u.len() implies #[trigger] u[i].ok() by {
        if i > 0 {
            assert(u[i] == s[i - 1]);
        }
    }
    assert forall|x: int| free_addrs(u).contains(x) implies !(live - blk).contains(x) by {
        if !blk.contains(x) {
            assert(free_addrs(s).contains(x));
        }
    }
}

/// What `size_align` hands out can be allocated: a power-of-two alignment
/// of at least 8 and a node-sized multiple of 8.
proof fn lemma_size_align(size: usize, align: usize)
    requires
        is_pow2(align),
        size + norm_align(align) - 1 <= isize::MAX,
    ensures
        is_pow2(spec_size_align(size, align).1),
        spec_size_align(size, align).1 >= 8,
        spec_size_align(size, align).0 >= NODE_SIZE,
        spec_size_align(size, align).0 & 7 == 0,
{
    lemma_pow2_8();
    lemma_heap_constants();
    let a = norm_align(align);
    lemma_align_up(size, a);
    lemma_aligned_8(spec_align_up(size, a), a);
}

/// Law: for any layout the heap takes, a block allocated and given straight
/// back restores the free set, and the next allocation of that layout hands
/// out the same block again.
pub proof fn law_layout_round_trip(s: Seq<FreeNode>, size: usize, align: usize)
    requires
        regions_wf(s),
        layout_valid(size, align),
        size + norm_align(align) - 1 <= isize::MAX,
        has_fit(s, spec_size_align(size, align).0, spec_size_align(size, align).1),
    ensures
        ({
            let (sz, al) = spec_size_align(size, align);
            let (t, r) = spec_alloc(s, sz, al);
            &&& free_addrs(spec_dealloc(t, r, sz)) == free_addrs(s)
            &&& spec_alloc(spec_dealloc(t, r, sz), sz, al) == (t, r)
        }),
{
    lemma_size_align(size, align);
    let (sz, al) = spec_size_align(size, align);
    law_dealloc_undoes_alloc(s, sz, al);
    law_alloc_after_free(s, sz, al);
}

/// A block at an address that is a multiple of 8, given back to the head
/// of the list, is what the next allocation of its size takes: the list
/// is as before the block came back.
proof fn lemma_refit(s: Seq<FreeNode>, p: usize, size: usize)
    requires
        (FreeNode { start: p, size }).ok(),
    ensures
        spec_alloc(spec_dealloc(s, p, size), size, 8) == (s, p),
{
    let b = FreeNode { start: p, size };
    let t = spec_dealloc(s, p, size);
    assert(((p + 7) as usize) & !(7usize) == p) by (bit_vector)
        requires
            p & 7 == 0,
    ;
    assert(region_fit(b, size, 8) == Some(p)) by {
        reveal(region_fit);
    }
    assert(t[0] == b);
    assert(fits(t[0], size, 8));
    assert(has_fit(t, size, 8));
    let i = first_fit(t, size, 8);
    assert(0 <= i < t.len() && fits(t[i], size, 8) && forall|j: int| 0 <= j < i ==> !fits(#[trigger] t[j], size, 8));
    if i > 0 {
        assert(!fits(t[0], size, 8));
    }
    assert(i == 0);
    assert(leftovers(b, p as int, size as int) =~= Seq::<FreeNode>::empty());
    assert(t.remove(0) =~= s);
    assert(leftovers(b, p as int, size as int) + t.remove(0) =~= s);
}

/// A block at a multiple of `align`, given back to the head of the list,
/// is what the next allocation of its size and alignment takes: the list
/// is as before the block came back.
proof fn lemma_refit_aligned(s: Seq<FreeNode>, p: usize, size: usize, align: usize)
    requires
        (FreeNode { start: p, size }).ok(),
        is_pow2(align),
        is_aligned(p, align),
    ensures
        spec_alloc(spec_dealloc(s, p, size), size, align) == (s, p),
{
    let b = FreeNode { start: p, size };
    let t = spec_dealloc(s, p, size);
    if align > 1 {
        lemma_aligned_fixed(p, (align - 1) as usize, align);
    }
    assert(spec_align_up(p, align) == p);
    assert(region_fit(b, size, align) == Some(p)) by {
        reveal(region_fit);
    }
    assert(t[0] == b);
    assert(fits(t[0], size, align));
    assert(has_fit(t, size, align));
    let i = first_fit(t, size, align);
    assert(0 <= i < t.len() && fits(t[i], size, align) && forall|j: int| 0 <= j < i ==> !fits(#[trigger] t[j], size, align));
    if i > 0 {
        assert(!fits(t[0], size, align));
    }
    assert(i == 0);
    assert(leftovers(b, p as int, size as int) =~= Seq::<FreeNode>::empty());
    assert(t.remove(0) =~= s);
    assert(leftovers(b, p as int, size as int) + t.remove(0) =~= s);
}

/// Law: a block just handed out and given straight back is handed out
/// again by the next allocation of the same size and alignment, which
/// leaves the list as the first allocation left it.
pub proof fn law_alloc_after_free(s: Seq<FreeNode>, size: usize, align: usize)
    requires
        regions_wf(s),
        is_pow2(align),
        align >= 8,
        size >= NODE_SIZE,
        size & 7 == 0,
        has_fit(s, size, align),
    ensures
        spec_alloc(spec_dealloc(spec_alloc(s, size, align).0, spec_alloc(s, size, align).1, size), size, align)
            == spec_alloc(s, size, align),
{
    lemma_alloc(s, size, align);
    lemma_refit_aligned(spec_alloc(s, size, align).0, spec_alloc(s, size, align).1, size, align);
}

/// Allocating and freeing `size` bytes `n` times: every round after the
/// first takes back the very block the round before gave back, so it all
/// comes down to the first allocation.  When it succeeds the block ends at
/// the head of the list; when it fails (address 0) the churn stops there.
#[verifier::opaque]
pub open spec fn spec_churn(s: Seq<FreeNode>, size: usize, n: usize) -> (Seq<FreeNode>, bool) {
    if n == 0 {
        (s, true)
    } else {
        let (t, p) = spec_alloc(s, size, 8);
        if p == 0 {
            (t, false)
        } else {
            (spec_dealloc(t, p, size), true)
        }
    }
}

/// Taking `n` more blocks of `size` bytes from `s`, one after the other,
/// after the blocks `ps`: the list, the addresses of all the blocks, and
/// whether every allocation succeeded; the first that fails ends it.
pub open spec fn spec_takes(s: Seq<FreeNode>, size: usize, n: nat, ps: Seq<usize>) -> (Seq<FreeNode>, Seq<usize>, bool)
    decreases n,
{
    if n == 0 {
        (s, ps, true)
    } else {
        let (t, p) = spec_alloc(s, size, 8);
        if p == 0 {
            (t, ps, false)
        } else {
            spec_takes(t, size, (n - 1) as nat, ps.push(p))
        }
    }
}

/// The nodes that giving back the first `i` blocks of `ps` (each `size`
/// bytes), in order, puts at the head of the list: the last one given back
/// comes first.
pub open spec fn freed(ps: Seq<usize>, i: int, size: usize) -> Seq<FreeNode> {
    Seq::new(i as nat, |k: int| FreeNode { start: ps[i - 1 - k], size })
}

/// A round of boxes: a 512-byte buffer, then `n` boxes of 16 bytes, then
/// the boxes given back in order and the buffer last.  The list after it,
/// and whether every allocation succeeded; a failed one ends the round
/// with the blocks taken so far still out.
#[verifier::opaque]
pub open spec fn spec_boxes_round(s: Seq<FreeNode>, n: usize) -> (Seq<FreeNode>, bool) {
    let (s1, v) = spec_alloc(s, 512, 8);
    if v == 0 {
        (s1, false)
    } else {
        let (s2, ps, ok) = spec_takes(s1, 16, n as nat, Seq::empty());
        if !ok {
            (s2, false)
        } else {
            (spec_dealloc(freed(ps, ps.len() as int, 16) + s2, v, 512), true)
        }
    }
}

/// `k` rounds of 64 boxes, the first failed one ending them.
#[verifier::opaque]
pub open spec fn spec_rounds(s: Seq<FreeNode>, k: nat) -> (Seq<FreeNode>, bool)
    decreases k,
{
    if k == 0 {
        (s, true)
    } else {
        let (t, ok) = spec_boxes_round(s, 64);
        if !ok {
            (t, false)
        } else {
            spec_rounds(t, (k - 1) as nat)
        }
    }
}

/// The boot test of the heap: a churn of 4096 pages, 64 rounds of 64
/// boxes, then a 64-byte block aligned to a page (which the heap pads to a
/// page).  The list after it, and the aligned block, or `None` when some
/// allocation failed.
#[verifier::opaque]
pub open spec fn spec_self_test(s: Seq<FreeNode>) -> (Seq<FreeNode>, Option<usize>) {
    let (s1, ok1) = spec_churn(s, 4096, 4096);
    if !ok1 {
        (s1, None)
    } else {
        let (s2, ok2) = spec_rounds(s1, 64);
        if !ok2 {
            (s2, None)
        } else {
            let (s3, a) = spec_alloc(s2, 4096, 4096);
            (s3, if a == 0 { None } else { Some(a) })
        }
    }
}

/// The list after `i` rounds of a churn that started from `s0`.
#[verifier::opaque]
pub open spec fn churn_at(s0: Seq<FreeNode>, size: usize, i: int, cur: Seq<FreeNode>) -> bool {
    if i == 0 {
        cur == s0
    } else {
        let (t, p) = spec_alloc(s0, size, 8);
        &&& p != 0
        &&& (FreeNode { start: p, size }).ok()
        &&& cur == spec_dealloc(t, p, size)
    }
}

/// One round of a churn: the allocation fails only in the first round,
/// which ends the churn; else the block goes back to the head.
proof fn lemma_churn_step(s0: Seq<FreeNode>, size: usize, n: usize, i: int, cur: Seq<FreeNode>, next: Seq<FreeNode>, p: usize)
    requires
        regions_wf(s0),
        size >= NODE_SIZE,
        size & 7 == 0,
        0 <= i < n,
        churn_at(s0, size, i, cur),
        next == spec_alloc(cur, size, 8).0,
        p == spec_alloc(cur, size, 8).1,
    ensures
        p == 0 ==> spec_churn(s0, size, n) == (next, false),
        p != 0 ==> churn_at(s0, size, i + 1, spec_dealloc(next, p, size)),
{
    reveal(churn_at);
    reveal(spec_churn);
    if i > 0 {
        lemma_refit(spec_alloc(s0, size, 8).0, spec_alloc(s0, size, 8).1, size);
    } else if p != 0 {
        lemma_pow2_8();
        lemma_alloc(s0, size, 8);
    }
}

/// A churn that ran all its rounds.
proof fn lemma_churn_end(s0: Seq<FreeNode>, size: usize, n: usize, cur: Seq<FreeNode>)
    requires
        churn_at(s0, size, n as int, cur),
    ensures
        spec_churn(s0, size, n) == (cur, true),
{
    reveal(churn_at);
    reveal(spec_churn);
}

/// After `j` of the `n` boxes of a round that started from `sv`, the list
/// is `cur` and the boxes taken are `ps`.
#[verifier::opaque]
pub open spec fn takes_at(sv: Seq<FreeNode>, n: usize, j: int, cur: Seq<FreeNode>, ps: Seq<usize>) -> bool {
    spec_takes(cur, 16, (n - j) as nat, ps) == spec_takes(sv, 16, n as nat, Seq::empty())
}

proof fn lemma_takes_start(sv: Seq<FreeNode>, n: usize)
    ensures
        takes_at(sv, n, 0, sv, Seq::empty()),
{
    reveal(takes_at);
}

proof fn lemma_takes_step(sv: Seq<FreeNode>, n: usize, j: int, cur: Seq<FreeNode>, ps: Seq<usize>, next: Seq<FreeNode>, p: usize)
    requires
        0 <= j < n,
        takes_at(sv, n, j, cur, ps),
        next == spec_alloc(cur, 16, 8).0,
        p == spec_alloc(cur, 16, 8).1,
    ensures
        p == 0 ==> spec_takes(sv, 16, n as nat, Seq::empty()) == (next, ps, false),
        p != 0 ==> takes_at(sv, n, j + 1, next, ps.push(p)),
{
    reveal(takes_at);
    assert(spec_takes(cur, 16, (n - j) as nat, ps) == (if p == 0 {
        (next, ps, false)
    } else {
        spec_takes(next, 16, (n - (j + 1)) as nat, ps.push(p))
    }));
}

proof fn lemma_takes_end(sv: Seq<FreeNode>, n: usize, cur: Seq<FreeNode>, ps: Seq<usize>)
    requires
        takes_at(sv, n, n as int, cur, ps),
    ensures
        spec_takes(sv, 16, n as nat, Seq::empty()) == (cur, ps, true),
{
    reveal(takes_at);
}

/// Giving back the first `i` boxes of `ps` to `s2` gave `cur`.
#[verifier::opaque]
pub open spec fn freeing_at(cur: Seq<FreeNode>, ps: Seq<usize>, i: int, s2: Seq<FreeNode>) -> bool {
    cur == freed(ps, i, 16) + s2
}

proof fn lemma_freeing_start(ps: Seq<usize>, s2: Seq<FreeNode>)
    ensures
        freeing_at(s2, ps, 0, s2),
{
    reveal(freeing_at);
    assert(freed(ps, 0, 16) + s2 =~= s2);
}

proof fn lemma_freeing_step(cur: Seq<FreeNode>, ps: Seq<usize>, i: int, s2: Seq<FreeNode>)
    requires
        0 <= i < ps.len(),
        freeing_at(cur, ps, i, s2),
    ensures
        freeing_at(spec_dealloc(cur, ps[i], 16), ps, i + 1, s2),
{
    reveal(freeing_at);
    let x = FreeNode { start: ps[i], size: 16 };
    assert(freed(ps, i + 1, 16) =~= seq![x] + freed(ps, i, 16));
    assert(spec_dealloc(cur, ps[i], 16) =~= freed(ps, i + 1, 16) + s2);
}

/// How a round of boxes ends: failed with the list `x`, or done with the
/// boxes given back to `cur` and then the buffer.
proof fn lemma_round_result(s0: Seq<FreeNode>, n: usize, sv: Seq<FreeNode>, v: usize, x: Seq<FreeNode>, ps: Seq<usize>, ok: bool, cur: Seq<FreeNode>)
    requires
        sv == spec_alloc(s0, 512, 8).0,
        v == spec_alloc(s0, 512, 8).1,
        v != 0,
        spec_takes(sv, 16, n as nat, Seq::empty()) == (x, ps, ok),
        ok ==> freeing_at(cur, ps, ps.len() as int, x),
    ensures
        !ok ==> spec_boxes_round(s0, n) == (x, false),
        ok ==> spec_boxes_round(s0, n) == (spec_dealloc(cur, v, 512), true),
{
    reveal(freeing_at);
    reveal(spec_boxes_round);
}

/// How the boot test ends: the churn, then the rounds, then the aligned
/// block.
proof fn lemma_self_test_result(s: Seq<FreeNode>, s1: Seq<FreeNode>, ok1: bool, s2: Seq<FreeNode>, ok2: bool, s3: Seq<FreeNode>, a: usize)
    requires
        spec_churn(s, 4096, 4096) == (s1, ok1),
        ok1 ==> spec_rounds(s1, 64) == (s2, ok2),
        ok1 && ok2 ==> spec_alloc(s2, 4096, 4096) == (s3, a),
    ensures
        !ok1 ==> spec_self_test(s) == (s1, None::<usize>),
        ok1 && !ok2 ==> spec_self_test(s) == (s2, None::<usize>),
        ok1 && ok2 && a == 0 ==> spec_self_test(s) == (s3, None::<usize>),
        ok1 && ok2 && a != 0 ==> spec_self_test(s) == (s3, Some(a)),
{
    reveal(spec_self_test);
}

/// A round whose buffer does not fit ends at once.
proof fn lemma_round_no_buffer(s0: Seq<FreeNode>, n: usize)
    requires
        spec_alloc(s0, 512, 8).1 == 0,
    ensures
        spec_boxes_round(s0, n) == (spec_alloc(s0, 512, 8).0, false),
{
    reveal(spec_boxes_round);
}

/// After `round` of the 64 rounds that started from `s1`, the list is
/// `cur`.
#[verifier::opaque]
pub open spec fn rounds_at(s1: Seq<FreeNode>, round: int, cur: Seq<FreeNode>) -> bool {
    spec_rounds(cur, (64 - round) as nat) == spec_rounds(s1, 64)
}

proof fn lemma_rounds_step(s1: Seq<FreeNode>, round: int, cur: Seq<FreeNode>, next: Seq<FreeNode>, ok: bool)
    requires
        0 <= round < 64,
        rounds_at(s1, round, cur),
        spec_boxes_round(cur, 64) == (next, ok),
    ensures
        !ok ==> spec_rounds(s1, 64) == (next, false),
        ok ==> rounds_at(s1, round + 1, next),
{
    reveal(rounds_at);
    reveal(spec_rounds);
}

proof fn lemma_rounds_bounds(s1: Seq<FreeNode>, cur: Seq<FreeNode>)
    ensures
        rounds_at(s1, 0, s1),
        rounds_at(s1, 64, cur) ==> spec_rounds(s1, 64) == (cur, true),
{
    reveal(rounds_at);
    reveal(spec_rounds);
}

impl FreeList {
    /// Allocate and free `size` bytes `n` times, as a buffer that is
    /// dropped right away; `false` as soon as an allocation fails.
    fn churn(&mut self, size: usize, n: usize) -> (r: bool)
        requires
            old(self).wf(),
            size >= NODE_SIZE,
            size & 7 == 0,
            size <= 0x10000,
        ensures
            final(self).wf(),
            (final(self)@, r) == spec_churn(old(self)@, size, n),
            r ==> final(self).free() == old(self).free(),
    {
        let ghost f0 = self.free();
        let ghost s0 = self@;
        proof {
            reveal(churn_at);
        }
        let mut i: usize = 0;
        while i < n
            invariant
                self.wf(),
                regions_wf(s0),
                size >= NODE_SIZE,
                size & 7 == 0,
                size <= 0x10000,
                self.free() == f0,
                i <= n,
                s0 == old(self)@,
                churn_at(s0, size, i as int, self@),
            decreases n - i,
        {
            let ghost s1 = self@;
            proof {
                lemma_pow2_8();
                lemma_round8(size);
            }
            let p = self.kmalloc_aligned(size, 8);
            proof {
                assert(layout_valid(size, 8));
                assert(spec_size_align(size, 8) == (size, 8usize));
                lemma_churn_step(s0, size, n, i as int, s1, self@, p);
            }
            if p == 0 {
                proof {
                    assert(spec_churn(s0, size, n) == (self@, false));
                }
                return false;
            }
            proof {
                if !has_fit(s1, size, 8) {
                    assert(false);
                }
                lemma_alloc(s1, size, 8);
            }
            self.dealloc(p, size);
            proof {
                assert(self.free() =~= f0);
            }
            i += 1;
        }
        proof {
            lemma_churn_end(s0, size, n, self@);
        }
        true
    }
}


/// A node of a block handed out.
pub open spec fn block(p: usize, size: usize) -> FreeNode {
    FreeNode { start: p, size }
}


/// The block `[r, r + size)` was free in `before` and is all that `after`
/// lacks.
pub open spec fn taken(before: Set<int>, after: Set<int>, r: usize, size: usize) -> bool {
    &&& addr_range(r as int, r + size) <= before
    &&& after == before - addr_range(r as int, r + size)
}

proof fn lemma_take(s: Seq<FreeNode>, size: usize)
    requires
        regions_wf(s),
        size >= NODE_SIZE,
        size & 7 == 0,
        has_fit(s, size, 8),
    ensures
        taken(free_addrs(s), free_addrs(spec_alloc(s, size, 8).0), spec_alloc(s, size, 8).1, size),
        block(spec_alloc(s, size, 8).1, size).ok(),
{
    lemma_pow2_8();
    lemma_alloc(s, size, 8);
}

/// The free set after a box is taken beside the live blocks `ps`.
proof fn lemma_box_taken(before: Set<int>, after: Set<int>, ps: Seq<usize>, p: usize, base: Set<int>)
    requires
        before == base - live(ps, 0, ps.len() as int, 16),
        addr_range(p as int, p + 16) <= before,
        after == before - addr_range(p as int, p + 16),
    ensures
        after == base - live(ps.push(p), 0, ps.len() + 1int, 16),
        addr_range(p as int, p + 16) <= base,
        forall|a: int| 0 <= a < ps.len() ==> disjoint(#[trigger] block(ps[a], 16), block(p, 16)),
{
    let rp = addr_range(p as int, p + 16);
    let l0 = live(ps, 0, ps.len() as int, 16);
    lemma_live_push(ps, p);
    lemma_fresh_block_disjoint(ps, p, after, base);
    lemma_diff_union(base, l0, rp);
}

proof fn lemma_diff_union(a: Set<int>, b: Set<int>, c: Set<int>)
    ensures
        (a - b) - c == a - (b + c),
{
    assert((a - b) - c =~= a - (b + c));
}

/// Pushing a block adds its addresses to the live set.
proof fn lemma_live_push(ps: Seq<usize>, p: usize)
    ensures
        live(ps.push(p), 0, ps.len() + 1int, 16) == live(ps, 0, ps.len() as int, 16) + addr_range(p as int, p + 16),
{
    reveal(live);
    let qs = ps.push(p);
    let j = ps.len() as int;
    let k = j + 1;
    let lq = live(qs, 0, k, 16);
    let lp = live(ps, 0, j, 16) + addr_range(p as int, p + 16);
    assert forall|x: int| #[trigger] lq.contains(x) implies lp.contains(x) by {
        let w = choose|w: int| 0 <= w < k && #[trigger] qs[w] <= x < qs[w] + 16;
        if w < j {
            assert(ps[w] <= x < ps[w] + 16);
        }
    }
    assert forall|x: int| #[trigger] lp.contains(x) implies lq.contains(x) by {
        if live(ps, 0, j, 16).contains(x) {
            let w = choose|w: int| 0 <= w < j && #[trigger] ps[w] <= x < ps[w] + 16;
            assert(qs[w] <= x < qs[w] + 16);
        } else {
            assert(qs[j] <= x < qs[j] + 16);
        }
    }
    assert(lq =~= lp);
}

/// A block taken from the free set overlaps none of the live blocks.
proof fn lemma_fresh_block_disjoint(ps: Seq<usize>, p: usize, free: Set<int>, base: Set<int>)
    requires
        addr_range(p as int, p + 16) <= base - live(ps, 0, ps.len() as int, 16),
    ensures
        forall|a: int| 0 <= a < ps.len() ==> disjoint(#[trigger] block(ps[a], 16), block(p, 16)),
        addr_range(p as int, p + 16) <= base,
{
    reveal(live);
    assert forall|a: int| 0 <= a < ps.len() implies disjoint(#[trigger] block(ps[a], 16), block(p, 16)) by {
        if !disjoint(block(ps[a], 16), block(p, 16)) {
            let x = if ps[a] >= p { ps[a] as int } else { p as int };
            assert(ps[a] <= x < ps[a] + 16);
            assert(live(ps, 0, ps.len() as int, 16).contains(x));
            assert(addr_range(p as int, p + 16).contains(x));
        }
    }
}

/// Giving back the first live block of `ps[i..n]` leaves the rest live.
proof fn lemma_live_pop(ps: Seq<usize>, i: int, n: int, base: Set<int>)
    requires
        0 <= i < n <= ps.len(),
        addr_range(ps[i] as int, ps[i] + 16) <= base,
        forall|a: int, b: int| 0 <= a < b < n ==> disjoint(#[trigger] block(ps[a], 16), #[trigger] block(ps[b], 16)),
    ensures
        base - live(ps, i, n, 16) + addr_range(ps[i] as int, ps[i] + 16) == base - live(ps, i + 1, n, 16),
{
    reveal(live);
    let rp = addr_range(ps[i] as int, ps[i] + 16);
    assert forall|x: int| #![auto] rp.contains(x) implies !live(ps, i + 1, n, 16).contains(x) by {
        if live(ps, i + 1, n, 16).contains(x) {
            let w = choose|w: int| i + 1 <= w < n && #[trigger] ps[w] <= x < ps[w] + 16;
            assert(disjoint(block(ps[i], 16), block(ps[w], 16)));
        }
    }
    assert forall|x: int| #![auto] live(ps, i, n, 16).contains(x) && !rp.contains(x) implies live(
        ps,
        i + 1,
        n,
        16,
    ).contains(x) by {
        let w = choose|w: int| i <= w < n && #[trigger] ps[w] <= x < ps[w] + 16;
        if w == i {
            assert(rp.contains(x));
        }
    }
    assert forall|x: int| #![auto] live(ps, i + 1, n, 16).contains(x) implies live(ps, i, n, 16).contains(x) by {
        let w = choose|w: int| i + 1 <= w < n && #[trigger] ps[w] <= x < ps[w] + 16;
        assert(ps[w] <= x < ps[w] + 16);
    }
    assert(base - live(ps, i, n, 16) + rp =~= base - live(ps, i + 1, n, 16));
}

impl FreeList {
    /// Allocate `size` bytes aligned to 8 (a size the heap hands out as it
    /// is).  0 when nothing fits.
    fn take(&mut self, size: usize) -> (r: usize)
        requires
            old(self).wf(),
            size >= NODE_SIZE,
            size & 7 == 0,
            size <= 0x10000,
        ensures
            final(self).wf(),
            (final(self)@, r) == spec_alloc(old(self)@, size, 8),
            r != 0 ==> {
                &&& taken(old(self).free(), final(self).free(), r, size)
                &&& block(r, size).ok()
            },
    {
        let ghost s1 = self@;
        proof {
            lemma_pow2_8();
            lemma_round8(size);
        }
        let p = self.kmalloc_aligned(size, 8);
        proof {
            assert(layout_valid(size, 8));
            assert(spec_size_align(size, 8) == (size, 8usize));
            assert((self@, p) == spec_alloc(s1, size, 8));
        }
        if p == 0 {
            return 0;
        }
        proof {
            if !has_fit(s1, size, 8) {
                assert(false);
            }
            lemma_take(s1, size);
        }
        p
    }

    /// Give back the live block `ps[i]` of `ps[i..n]`.
    fn free_box(&mut self, p: usize, Ghost(ps): Ghost<Seq<usize>>, Ghost(i): Ghost<int>, Ghost(n): Ghost<int>, Ghost(base): Ghost<Set<int>>)
        requires
            old(self).wf(),
            0 <= i < n <= ps.len(),
            p == ps[i],
            block(p, 16).ok(),
            addr_range(p as int, p + 16) <= base,
            old(self).free() == base - live(ps, i, n, 16),
            forall|a: int, b: int| 0 <= a < b < n ==> disjoint(#[trigger] block(ps[a], 16), #[trigger] block(ps[b], 16)),
        ensures
            final(self).wf(),
            final(self)@ == spec_dealloc(old(self)@, p, 16),
            final(self).free() == base - live(ps, i + 1, n, 16),
    {
        proof {
            reveal(live);
            let rp = addr_range(p as int, p + 16);
            assert forall|x: int| rp.contains(x) implies live(ps, i, n, 16).contains(x) by {
                assert(ps[i] <= x < ps[i] + 16);
            }
            assert(rp.disjoint(self.free()));
            lemma_outside_free(self@, block(p, 16));
        }
        self.dealloc(p, 16);
        proof {
            lemma_live_pop(ps, i, n, base);
        }
    }

    /// Allocate the 512-byte buffer of a vector and `n` boxes of 16 bytes,
    /// then drop the boxes in order and the buffer; `false` as soon as an
    /// allocation fails.
    fn boxes_round(&mut self, n: usize) -> (r: bool)
        requires
            old(self).wf(),
        ensures
            final(self).wf(),
            (final(self)@, r) == spec_boxes_round(old(self)@, n),
            r ==> final(self).free() == old(self).free(),
    {
        let ghost f0 = self.free();
        let ghost s0 = self@;
        proof {
            lemma_heap_constants();
        }
        let v = self.take(512);
        if v == 0 {
            proof {
                lemma_round_no_buffer(s0, n);
            }
            return false;
        }
        let ghost sv = self@;
        proof {
            lemma_takes_start(sv, n);
        }
        let ghost rv = addr_range(v as int, v + 512);
        let ghost base = f0 - rv;
        let mut ps: Vec<usize> = Vec::new();
        proof {
            reveal(live);
            assert(live(ps@, 0, 0, 16) =~= Set::<int>::empty());
            assert(self.free() =~= base - live(ps@, 0, 0, 16));
        }
        let mut j: usize = 0;
        while j < n
            invariant
                self.wf(),
                j == ps@.len(),
                j <= n,
                base == f0 - rv,
                sv == spec_alloc(s0, 512, 8).0,
                v == spec_alloc(s0, 512, 8).1,
                v != 0,
                s0 == old(self)@,
                takes_at(sv, n, j as int, self@, ps@),
                self.free() == base - live(ps@, 0, j as int, 16),
                forall|a: int| 0 <= a < j ==> #[trigger] block(ps@[a], 16).ok(),
                forall|a: int| 0 <= a < j ==> addr_range(ps@[a] as int, ps@[a] + 16) <= base,
                forall|a: int, b: int|
                    0 <= a < b < j ==> disjoint(#[trigger] block(ps@[a], 16), #[trigger] block(ps@[b], 16)),
            decreases n - j,
        {
            let ghost before = self.free();
            let ghost before_list = self@;
            proof {
                lemma_heap_constants();
            }
            let p = self.take(16);
            proof {
                lemma_takes_step(sv, n, j as int, before_list, ps@, self@, p);
            }
            if p == 0 {
                proof {
                    lemma_round_result(s0, n, sv, v, self@, ps@, false, self@);
                }
                return false;
            }
            let ghost old_ps = ps@;
            ps.push(p);
            proof {
                lemma_box_taken(before, self.free(), old_ps, p, base);
                assert(ps@ == old_ps.push(p));
                assert forall|a: int, b: int| 0 <= a < b < j + 1 implies disjoint(
                    #[trigger] block(ps@[a], 16),
                    #[trigger] block(ps@[b], 16),
                ) by {
                    if b < j {
                        assert(block(ps@[a], 16) == block(old_ps[a], 16));
                        assert(block(ps@[b], 16) == block(old_ps[b], 16));
                    } else {
                        assert(ps@[a] == old_ps[a]);
                    }
                }
                assert forall|a: int| 0 <= a < j + 1 implies #[trigger] block(ps@[a], 16).ok() by {
                    if a < j {
                        assert(ps@[a] == old_ps[a]);
                    }
                }
                assert forall|a: int| 0 <= a < j + 1 implies addr_range(ps@[a] as int, ps@[a] + 16) <= base by {
                    if a < j {
                        assert(ps@[a] == old_ps[a]);
                    }
                }
            }
            j += 1;
        }
        let ghost s2 = self@;
        proof {
            lemma_takes_end(sv, n, s2, ps@);
            lemma_freeing_start(ps@, s2);
        }
        // Drop the boxes in order.
        let mut i: usize = 0;
        while i < n
            invariant
                self.wf(),
                ps@.len() == n,
                i <= n,
                base == f0 - rv,
                sv == spec_alloc(s0, 512, 8).0,
                v == spec_alloc(s0, 512, 8).1,
                v != 0,
                spec_takes(sv, 16, n as nat, Seq::empty()) == (s2, ps@, true),
                s0 == old(self)@,
                freeing_at(self@, ps@, i as int, s2),
                self.free() == base - live(ps@, i as int, n as int, 16),
                forall|a: int| 0 <= a < n ==> #[trigger] block(ps@[a], 16).ok(),
                forall|a: int| 0 <= a < n ==> addr_range(ps@[a] as int, ps@[a] + 16) <= base,
                forall|a: int, b: int|
                    0 <= a < b < n ==> disjoint(#[trigger] block(ps@[a], 16), #[trigger] block(ps@[b], 16)),
            decreases n - i,
        {
            let p = ps[i];
            proof {
                assert(block(ps@[i as int], 16).ok());
                assert(addr_range(ps@[i as int] as int, ps@[i as int] + 16) <= base);
            }
            let ghost before_list = self@;
            self.free_box(p, Ghost(ps@), Ghost(i as int), Ghost(n as int), Ghost(base));
            proof {
                lemma_freeing_step(before_list, ps@, i as int, s2);
            }
            i += 1;
        }
        // Drop the buffer.
        proof {
            reveal(live);
            assert(live(ps@, n as int, n as int, 16) =~= Set::<int>::empty());
            assert(self.free() =~= f0 - rv);
            assert(rv.disjoint(self.free()));
            lemma_outside_free(self@, block(v, 512));
        }
        let ghost cur = self@;
        self.dealloc(v, 512);
        proof {
            assert(self.free() =~= f0);
            lemma_round_result(s0, n, sv, v, s2, ps@, true, cur);
        }
        true
    }

    /// Run the heap through its paces at boot: 4096 vector buffers of a
    /// page, each freed at once (a heap that never reuses memory runs out
    /// long before); 64 rounds of a vector of 64 boxes, all freed; and one
    /// block aligned to a page.  Returns the aligned block, which stays
    /// allocated, or `None` as soon as an allocation fails.  When it
    /// passes, everything but that block is free again.
    pub fn self_test(&mut self) -> (r: Option<usize>)
        requires
            old(self).wf(),
        ensures
            final(self).wf(),
            (final(self)@, r) == spec_self_test(old(self)@),
            r matches Some(a) ==> a != 0 && a % 4096 == 0 && addr_range(a as int, a + 4096) <= old(self).free()
                && final(self).free() == old(self).free() - addr_range(a as int, a + 4096),
    {
        let ghost f0 = self.free();
        let ghost start = self@;
        proof {
            lemma_heap_constants();
        }
        let ok1 = self.churn(4096, 4096);
        if !ok1 {
            proof {
                lemma_self_test_result(start, self@, false, self@, false, self@, 0);
            }
            return None;
        }
        let ghost s1 = self@;
        proof {
            lemma_rounds_bounds(s1, s1);
        }
        let mut round: usize = 0;
        while round < 64
            invariant
                self.wf(),
                self.free() == f0,
                round <= 64,
                start == old(self)@,
                spec_churn(start, 4096, 4096) == (s1, true),
                rounds_at(s1, round as int, self@),
            decreases 64 - round,
        {
            let ghost before_list = self@;
            let ok = self.boxes_round(64);
            proof {
                lemma_rounds_step(s1, round as int, before_list, self@, ok);
            }
            if !ok {
                proof {
                    lemma_self_test_result(start, s1, true, self@, false, self@, 0);
                }
                return None;
            }
            round += 1;
        }
        let ghost s0 = self@;
        proof {
            lemma_rounds_bounds(s1, s0);
            lemma_heap_constants();
            lemma_pow2_bound(4096);
        }
        let a = self.kmalloc_aligned(64, 4096);
        proof {
            assert(layout_valid(64, 4096));
            assert(spec_size_align(64, 4096) == (4096usize, 4096usize));
            lemma_self_test_result(start, s1, true, s0, true, self@, a);
        }
        if a == 0 {
            return None;
        }
        proof {
            if !has_fit(s0, 4096, 4096) {
                assert(false);
            }
            lemma_alloc(s0, 4096, 4096);
            assert(is_aligned(a, 4096));
            lemma_page_multiple(a);
        }
        Some(a)
    }
}


impl FreeList {
    /// Whether the block `[ptr, ptr + size)` can be given back: node
    /// aligned and sized, below the address limit, and overlapping no free
    /// region (a block given back twice would).
    pub fn can_dealloc(&self, ptr: usize, size: usize) -> (r: bool)
        requires
            self.wf(),
        ensures
            r == (ptr & 7 == 0 && size >= NODE_SIZE && ptr + size <= addr_limit() && forall|i: int|
                0 <= i < self@.len() ==> disjoint(#[trigger] self@[i], FreeNode { start: ptr, size })),
    {
        if ptr & 7 != 0 || size < NODE_SIZE {
            return false;
        }
        let half: usize = usize::MAX / 2;
        if ptr > half || size > half - ptr + 1 {
            return false;
        }
        let b = FreeNode { start: ptr, size };
        let mut i: usize = 0;
        while i < self.regions.len()
            invariant
                i <= self@.len(),
                self@ == self.regions@,
                forall|j: int| 0 <= j < i ==> disjoint(#[trigger] self@[j], b),
                b == (FreeNode { start: ptr, size }),
            decreases self@.len() - i,
        {
            let n = self.regions[i];
            if !(n.start as u128 + n.size as u128 <= ptr as u128 || ptr as u128 + size as u128 <= n.start as u128) {
                return false;
            }
            i += 1;
        }
        true
    }
}

} // verus!
