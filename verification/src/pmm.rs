//! Physical page allocator: one bit per 4 KiB page, 1 = used, 0 = free.
use vstd::prelude::*;

verus! {

/// Number of 64-bit words in the bitmap.
pub const BITMAP_WORDS: usize = 32768;

/// Number of pages the bitmap covers (8 GiB of physical memory).
pub const NUM_PAGES: u64 = 2097152;

/// Size of a page.
pub const PAGE_SIZE: u64 = 4096;

/// The first megabyte (BIOS, IVT, EBDA, video memory) is never handed out.
pub const LOW_MEMORY_END: u64 = 0x100000;

/// Bit `j` of `w` is set.
pub open spec fn bit_of(w: u64, j: u64) -> bool {
    (w >> j) & 1 == 1
}

/// Page `p` is marked used in the bitmap.
pub open spec fn page_used(bitmap: Seq<u64>, p: int) -> bool {
    bit_of(bitmap[p / 64], (p % 64) as u64)
}

/// Number of clear bits among the low `n` bits of `w`.
pub open spec fn zero_bits_below(w: u64, n: nat) -> nat
    decreases n,
{
    if n == 0 {
        0
    } else {
        zero_bits_below(w, (n - 1) as nat) + if bit_of(w, (n - 1) as u64) {
            0nat
        } else {
            1nat
        }
    }
}

/// Number of clear bits of `w` (what `u64::count_zeros` returns).
pub open spec fn zero_bits(w: u64) -> nat {
    zero_bits_below(w, 64)
}

/// Number of free pages in the first `k` words of the bitmap.
pub open spec fn free_count(bitmap: Seq<u64>, k: int) -> nat
    decreases k,
{
    if k <= 0 {
        0
    } else {
        free_count(bitmap, k - 1) + zero_bits(bitmap[k - 1])
    }
}

/// The number of clear bits of `w`.
fn count_zeros(w: u64) -> (r: u32)
    ensures
        r == zero_bits(w),
{
    let mut n: u32 = 0;
    let mut j: u64 = 0;
    while j < 64
        invariant
            j <= 64,
            n == zero_bits_below(w, j as nat),
            n <= j,
        decreases 64 - j,
    {
        if (w >> j) & 1 != 1 {
            n = n + 1;
        }
        j = j + 1;
    }
    n
}

proof fn lemma_bit_set(w: u64, b: u64, j: u64)
    requires
        b < 64,
        j < 64,
    ensures
        bit_of(w | (1u64 << b), j) == (j == b || bit_of(w, j)),
        bit_of(w, b) ==> w | (1u64 << b) == w,
{
    assert((w >> b) & 1 == 1 ==> w | (1u64 << b) == w) by (bit_vector)
        requires
            b < 64,
    ;
    assert(((w | (1u64 << b)) >> j) & 1 == 1 <==> (j == b || (w >> j) & 1 == 1)) by (bit_vector)
        requires
            b < 64,
            j < 64,
    ;
}

proof fn lemma_bit_clear(w: u64, b: u64, j: u64)
    requires
        b < 64,
        j < 64,
    ensures
        bit_of(w & !(1u64 << b), j) == (j != b && bit_of(w, j)),
{
    assert(((w & !(1u64 << b)) >> j) & 1 == 1 <==> (j != b && (w >> j) & 1 == 1)) by (bit_vector)
        requires
            b < 64,
            j < 64,
    ;
}

proof fn lemma_full_word(j: u64)
    requires
        j < 64,
    ensures
        bit_of(0xffff_ffff_ffff_ffffu64, j),
{
    assert((0xffff_ffff_ffff_ffffu64 >> j) & 1 == 1) by (bit_vector)
        requires
            j < 64,
    ;
}

proof fn lemma_bit_test(w: u64, b: u64)
    requires
        b < 64,
    ensures
        (w & (1u64 << b) == 0) == !bit_of(w, b),
{
    assert((w & (1u64 << b) == 0) == !((w >> b) & 1 == 1)) by (bit_vector)
        requires
            b < 64,
    ;
}

/// Changing one bit of a word changes its count of clear bits by one.
proof fn lemma_zero_bits_flip(w: u64, v: u64, b: u64, n: nat)
    requires
        b < 64,
        n <= 64,
        forall|j: u64| j < 64 && j != b ==> bit_of(v, j) == bit_of(w, j),
    ensures
        b < n && !bit_of(w, b) && bit_of(v, b) ==> zero_bits_below(v, n) + 1 == zero_bits_below(w, n),
        b < n && bit_of(w, b) && !bit_of(v, b) ==> zero_bits_below(v, n) == zero_bits_below(w, n) + 1,
        b >= n ==> zero_bits_below(v, n) == zero_bits_below(w, n),
    decreases n,
{
    if n > 0 {
        lemma_zero_bits_flip(w, v, b, (n - 1) as nat);
    }
}

/// Changing one word of the bitmap changes the free count by the change of
/// that word's count of clear bits.
proof fn lemma_free_count_update(bitmap: Seq<u64>, i: int, v: u64, k: int)
    requires
        0 <= i < bitmap.len(),
        0 <= k <= bitmap.len(),
    ensures
        k > i ==> free_count(bitmap.update(i, v), k) + zero_bits(bitmap[i]) == free_count(bitmap, k)
            + zero_bits(v),
        k <= i ==> free_count(bitmap.update(i, v), k) == free_count(bitmap, k),
    decreases k,
{
    if k > 0 {
        lemma_free_count_update(bitmap, i, v, k - 1);
    }
}

/// A memory-map entry as the boot loader describes it.
#[derive(Clone, Copy)]
pub struct MemoryEntry {
    pub base_addr: u64,
    pub length: u64,
    pub typ: u32,
}

/// First address that an available entry frees: its base, but never page 0.
pub open spec fn entry_start(e: MemoryEntry) -> int {
    if e.base_addr == 0 {
        PAGE_SIZE as int
    } else {
        e.base_addr as int
    }
}

/// Number of whole pages that an available entry frees.
pub open spec fn entry_pages(e: MemoryEntry) -> int {
    if e.base_addr + e.length >= entry_start(e) + PAGE_SIZE {
        (e.base_addr + e.length - entry_start(e)) / PAGE_SIZE as int
    } else {
        0
    }
}

/// Entry `e` is available memory (type 1) and frees page `p`.
pub open spec fn entry_frees(e: MemoryEntry, p: int) -> bool {
    &&& e.typ == 1
    &&& entry_start(e) / PAGE_SIZE as int <= p < entry_start(e) / PAGE_SIZE as int + entry_pages(e)
}

/// Page `p` is freed by the memory map: some available entry covers it.
pub open spec fn freed_by_map(entries: Seq<MemoryEntry>, p: int) -> bool {
    exists|k: int| 0 <= k < entries.len() && #[trigger] entry_frees(entries[k], p)
}

/// Page `p` holds part of the kernel image `[kstart, kend)`.
pub open spec fn kernel_page(kstart: u64, kend: u64, p: int) -> bool {
    kstart as int / PAGE_SIZE as int <= p && p * PAGE_SIZE < kend
}

/// Page `p` is reserved: low memory or the kernel image.
pub open spec fn reserved_page(kstart: u64, kend: u64, p: int) -> bool {
    p * PAGE_SIZE < LOW_MEMORY_END || kernel_page(kstart, kend, p)
}

/// Some page of the bitmap is free.
pub open spec fn has_free_page(s: Seq<u64>) -> bool {
    exists|p: int| 0 <= p < NUM_PAGES && !#[trigger] page_used(s, p)
}

/// The lowest free page of the bitmap.
pub open spec fn first_free_page(s: Seq<u64>) -> int {
    choose|p: int|
        0 <= p < NUM_PAGES && !page_used(s, p) && forall|q: int| 0 <= q < p ==> #[trigger] page_used(s, q)
}

/// The bitmap with page `p` marked used.
pub open spec fn set_page(s: Seq<u64>, p: int) -> Seq<u64> {
    s.update(p / 64, s[p / 64] | (1u64 << ((p % 64) as u64)))
}

/// The bitmap with page `p` marked free.
pub open spec fn clear_page(s: Seq<u64>, p: int) -> Seq<u64> {
    s.update(p / 64, s[p / 64] & !(1u64 << ((p % 64) as u64)))
}

/// The bitmap after allocating: the lowest free page marked used.
pub open spec fn spec_alloc_frame(s: Seq<u64>) -> Seq<u64> {
    if has_free_page(s) {
        set_page(s, first_free_page(s))
    } else {
        s
    }
}

/// The bitmap after freeing the page that holds `addr`: reserved pages,
/// pages past the bitmap and free pages stay as they are.
pub open spec fn spec_free(s: Seq<u64>, addr: u64, kstart: u64, kend: u64) -> Seq<u64> {
    let p = (addr / PAGE_SIZE) as int;
    if reserved_page(kstart, kend, p) || p >= NUM_PAGES || !page_used(s, p) {
        s
    } else {
        clear_page(s, p)
    }
}

/// The page bitmap.
pub struct Pmm {
    bitmap: Vec<u64>,
}

impl View for Pmm {
    type V = Seq<u64>;

    closed spec fn view(&self) -> Seq<u64> {
        self.bitmap@
    }
}

impl Pmm {
    pub open spec fn wf(&self) -> bool {
        self@.len() == BITMAP_WORDS
    }

    /// Page `p` is marked used.
    pub open spec fn used(&self, p: int) -> bool {
        page_used(self@, p)
    }

    /// Some page is free.
    pub open spec fn has_free(&self) -> bool {
        has_free_page(self@)
    }

    /// The lowest free page.
    pub open spec fn first_free(&self) -> int {
        first_free_page(self@)
    }

    /// Number of free pages.
    pub open spec fn free_total(&self) -> nat {
        free_count(self@, BITMAP_WORDS as int)
    }

    /// A bitmap in which every page is used.
    pub fn new() -> (r: Self)
        ensures
            r.wf(),
            forall|p: int| 0 <= p < NUM_PAGES ==> #[trigger] r.used(p),
    {
        let mut bitmap: Vec<u64> = Vec::new();
        let mut i: usize = 0;
        while i < BITMAP_WORDS
            invariant
                i <= BITMAP_WORDS,
                bitmap@.len() == i,
                forall|k: int| 0 <= k < i ==> bitmap@[k] == 0xffff_ffff_ffff_ffffu64,
            decreases BITMAP_WORDS - i,
        {
            bitmap.push(0xffff_ffff_ffff_ffffu64);
            i += 1;
        }
        let r = Pmm { bitmap };
        assert forall|p: int| 0 <= p < NUM_PAGES implies #[trigger] r.used(p) by {
            lemma_full_word((p % 64) as u64);
        }
        r
    }

    /// Mark the page that holds `addr` used (pages past the bitmap are ignored).
    fn mark_used(&mut self, addr: u64)
        requires
            old(self).wf(),
        ensures
            final(self).wf(),
            forall|p: int|
                0 <= p < NUM_PAGES ==> #[trigger] page_used(final(self)@, p) == (page_used(old(self)@, p) || p
                    == addr / PAGE_SIZE),
            addr / PAGE_SIZE < NUM_PAGES && !old(self).used((addr / PAGE_SIZE) as int) ==> final(self).free_total() + 1 == old(self).free_total(),
            addr / PAGE_SIZE >= NUM_PAGES || old(self).used((addr / PAGE_SIZE) as int) ==> final(self).free_total() == old(self).free_total(),
            addr / PAGE_SIZE < NUM_PAGES ==> final(self)@ == set_page(old(self)@, (addr / PAGE_SIZE) as int),
            addr / PAGE_SIZE >= NUM_PAGES ==> final(self)@ == old(self)@,
    {
        let page = addr / PAGE_SIZE;
        if page / 64 >= BITMAP_WORDS as u64 {
            return;
        }
        let idx = (page / 64) as usize;
        let bit = page % 64;
        let w = self.bitmap[idx];
        let v = w | (1u64 << bit);
        let ghost old_s = self@;
        self.bitmap.set(idx, v);
        proof {
            assert forall|p: int| 0 <= p < NUM_PAGES implies #[trigger] page_used(self@, p) == (
            page_used(old(self)@, p) || p == page) by {
                if p / 64 == idx {
                    lemma_bit_set(w, bit, (p % 64) as u64);
                    assert((p % 64 == bit) == (p == page));
                } else {
                    assert(self@[p / 64] == old_s[p / 64]);
                }
            }
            assert forall|j: u64| j < 64 && j != bit implies bit_of(v, j) == bit_of(w, j) by {
                lemma_bit_set(w, bit, j);
            }
            lemma_bit_set(w, bit, bit);
            lemma_zero_bits_flip(w, v, bit, 64);
            lemma_free_count_update(old_s, idx as int, v, BITMAP_WORDS as int);
            assert(self@ == old_s.update(idx as int, v));
        }
    }

    /// Mark the page that holds `addr` free (pages past the bitmap are ignored).
    fn mark_free(&mut self, addr: u64)
        requires
            old(self).wf(),
        ensures
            final(self).wf(),
            forall|p: int|
                0 <= p < NUM_PAGES ==> #[trigger] page_used(final(self)@, p) == (page_used(old(self)@, p) && p
                    != addr / PAGE_SIZE),
            addr / PAGE_SIZE < NUM_PAGES && old(self).used((addr / PAGE_SIZE) as int) ==> final(self).free_total() == old(self).free_total() + 1,
            addr / PAGE_SIZE < NUM_PAGES ==> final(self)@ == clear_page(old(self)@, (addr / PAGE_SIZE) as int),
            addr / PAGE_SIZE >= NUM_PAGES ==> final(self)@ == old(self)@,
    {
        let page = addr / PAGE_SIZE;
        if page / 64 >= BITMAP_WORDS as u64 {
            return;
        }
        let idx = (page / 64) as usize;
        let bit = page % 64;
        let w = self.bitmap[idx];
        let v = w & !(1u64 << bit);
        let ghost old_s = self@;
        self.bitmap.set(idx, v);
        proof {
            assert forall|p: int| 0 <= p < NUM_PAGES implies #[trigger] page_used(self@, p) == (
            page_used(old(self)@, p) && p != page) by {
                if p / 64 == idx {
                    lemma_bit_clear(w, bit, (p % 64) as u64);
                    assert((p % 64 == bit) == (p == page));
                } else {
                    assert(self@[p / 64] == old_s[p / 64]);
                }
            }
            assert forall|j: u64| j < 64 && j != bit implies bit_of(v, j) == bit_of(w, j) by {
                lemma_bit_clear(w, bit, j);
            }
            lemma_bit_clear(w, bit, bit);
            lemma_zero_bits_flip(w, v, bit, 64);
            lemma_free_count_update(old_s, idx as int, v, BITMAP_WORDS as int);
            assert(self@ == old_s.update(idx as int, v));
        }
    }

    /// Allocate the lowest free page: its address, or `None` when every page
    /// is used.
    pub fn try_alloc_frame(&mut self) -> (r: Option<u64>)
        requires
            old(self).wf(),
        ensures
            final(self).wf(),
            r is None <==> !old(self).has_free(),
            final(self)@ == spec_alloc_frame(old(self)@),
            r is None ==> final(self)@ == old(self)@,
            r is Some ==> ({
                let p = old(self).first_free();
                &&& 0 <= p < NUM_PAGES
                &&& r->0 == p * PAGE_SIZE
                &&& forall|q: int| 0 <= q < NUM_PAGES ==> #[trigger] final(self).used(q) == (old(self).used(q) || q == p)
                &&& final(self).free_total() + 1 == old(self).free_total()
            }),
    {
        let mut idx: usize = 0;
        while idx < BITMAP_WORDS
            invariant
                self.wf(),
                self@ == old(self)@,
                idx <= BITMAP_WORDS,
                forall|q: int| 0 <= q < idx * 64 ==> #[trigger] page_used(self@, q),
            decreases BITMAP_WORDS - idx,
        {
            let w = self.bitmap[idx];
            if w != 0xffff_ffff_ffff_ffffu64 {
                let bit = w.trailing_ones() as u64;
                let page = idx as u64 * 64 + bit;
                let addr = page * PAGE_SIZE;
                proof {
                    lemma_first_zero(self@, idx as int);
                    let p0 = page as int;
                    assert(forall|q: int| 0 <= q < p0 ==> #[trigger] page_used(self@, q));
                    assert(0 <= p0 < NUM_PAGES && !self.used(p0) && forall|q: int|
                        0 <= q < p0 ==> #[trigger] self.used(q));
                    let k = self.first_free();
                    assert(0 <= k < NUM_PAGES && !self.used(k) && forall|q: int|
                        0 <= q < k ==> #[trigger] self.used(q));
                    if k < p0 {
                        assert(self.used(k));
                    }
                    if k > p0 {
                        assert(self.used(p0));
                    }
                    assert(k == p0);
                    assert(addr / PAGE_SIZE == page);
                    assert(!old(self).used(p0));
                    assert(old(self).has_free());
                }
                self.mark_used(addr);
                return Some(addr);
            }
            proof {
                assert forall|q: int| 0 <= q < (idx + 1) * 64 implies #[trigger] page_used(self@, q) by {
                    if q >= idx * 64 {
                        assert(q / 64 == idx);
                        lemma_full_word((q % 64) as u64);
                    }
                }
            }
            idx += 1;
        }
        proof {
            assert forall|p: int| 0 <= p < NUM_PAGES implies #[trigger] old(self).used(p) by {
                assert(page_used(self@, p));
            }
        }
        None
    }

    /// Allocate the lowest free page and return its address.
    pub fn alloc_frame(&mut self) -> (r: u64)
        requires
            old(self).wf(),
            old(self).has_free(),
        ensures
            final(self).wf(),
            final(self)@ == spec_alloc_frame(old(self)@),
            ({
                let p = old(self).first_free();
                &&& 0 <= p < NUM_PAGES
                &&& r == p * PAGE_SIZE
                &&& forall|q: int| 0 <= q < NUM_PAGES ==> #[trigger] final(self).used(q) == (old(self).used(q) || q == p)
                &&& final(self).free_total() + 1 == old(self).free_total()
            }),
    {
        match self.try_alloc_frame() {
            Some(a) => a,
            None => 0,
        }
    }

    /// Give the page that holds `addr` back.  Low memory, the kernel image
    /// `[kstart, kend)`, pages past the bitmap and pages that are already
    /// free are left as they are.
    pub fn free(&mut self, addr: u64, kstart: u64, kend: u64)
        requires
            old(self).wf(),
            kend + 0xfff <= u64::MAX,
        ensures
            final(self).wf(),
            final(self)@ == spec_free(old(self)@, addr, kstart, kend),
            ({
                let p = (addr / PAGE_SIZE) as int;
                if reserved_page(kstart, kend, p) || p >= NUM_PAGES || !old(self).used(p) {
                    final(self)@ == old(self)@
                } else {
                    &&& forall|q: int| 0 <= q < NUM_PAGES ==> #[trigger] final(self).used(q) == (old(self).used(q) && q != p)
                    &&& final(self).free_total() == old(self).free_total() + 1
                }
            }),
    {
        let a = addr & !0xfff;
        let kstart_page = kstart & !0xfff;
        let kend_page = (kend + 0xfff) & !0xfff;
        proof {
            let p = addr as int / 4096;
            lemma_page_mask(addr);
            lemma_page_mask(kstart);
            lemma_page_mask((kend + 0xfff) as u64);
            lemma_page_bounds(p, kstart as int, kend as int);
        }
        if a < LOW_MEMORY_END || (a >= kstart_page && a < kend_page) {
            return;
        }
        let page = a / PAGE_SIZE;
        if page / 64 >= BITMAP_WORDS as u64 {
            return;
        }
        let idx = (page / 64) as usize;
        let bit = page % 64;
        proof {
            lemma_bit_test(self@[idx as int], bit);
        }
        if self.bitmap[idx] & (1u64 << bit) == 0 {
            return;
        }
        self.mark_free(a);
    }

    /// Number of free pages.
    pub fn free_pages(&self) -> (r: u64)
        requires
            self.wf(),
        ensures
            r == self.free_total(),
    {
        let mut free: u64 = 0;
        let mut idx: usize = 0;
        while idx < BITMAP_WORDS
            invariant
                self.wf(),
                idx <= BITMAP_WORDS,
                free == free_count(self@, idx as int),
                free <= idx * 64,
            decreases BITMAP_WORDS - idx,
        {
            let z = count_zeros(self.bitmap[idx]);
            proof {
                lemma_zero_bits_bound(self@[idx as int], 64);
            }
            free = free + z as u64;
            idx += 1;
        }
        free
    }
}

proof fn lemma_page_bounds(p: int, ks: int, ke: int)
    requires
        p >= 0,
        ks >= 0,
        ke >= 0,
    ensures
        (p * 4096 >= (ks / 4096) * 4096) == (p >= ks / 4096),
        (p * 4096 < ((ke + 4095) / 4096) * 4096) == (p * 4096 < ke),
        (p * 4096 < 0x100000) == (p < 256),
{
    assert((p * 4096 >= (ks / 4096) * 4096) == (p >= ks / 4096)) by (nonlinear_arith)
        requires
            p >= 0,
            ks >= 0,
    ;
    assert((p * 4096 < ((ke + 4095) / 4096) * 4096) == (p * 4096 < ke)) by (nonlinear_arith)
        requires
            p >= 0,
            ke >= 0,
    ;
}

/// In the first word that is not full, the first clear bit is the lowest
/// free page, when all earlier words are full.
proof fn lemma_first_zero(s: Seq<u64>, idx: int)
    requires
        0 <= idx < s.len(),
        s[idx] != 0xffff_ffff_ffff_ffffu64,
        forall|q: int| 0 <= q < idx * 64 ==> #[trigger] page_used(s, q),
    ensures
        ({
            let t = s[idx].trailing_ones() as int;
            &&& 0 <= t < 64
            &&& !page_used(s, idx * 64 + t)
            &&& forall|q: int| 0 <= q < idx * 64 + t ==> #[trigger] page_used(s, q)
        }),
{
    let w = s[idx];
    vstd::std_specs::bits::axiom_u64_trailing_ones(w);
    let t = w.trailing_ones() as int;
    let p0 = idx * 64 + t;
    assert(p0 / 64 == idx && p0 % 64 == t);
    assert forall|q: int| 0 <= q < p0 implies #[trigger] page_used(s, q) by {
        if q >= idx * 64 {
            assert(q / 64 == idx);
            assert(q % 64 < t);
            assert((w >> ((q % 64) as u64)) & 1u64 == 1u64);
        }
    }
}

proof fn lemma_div_step(s: int, i: int)
    requires
        s >= 0,
        i >= 0,
    ensures
        (s + 4096 * i) / 4096 == s / 4096 + i,
{
    assert((s + 4096 * i) / 4096 == s / 4096 + i) by (nonlinear_arith)
        requires
            s >= 0,
            i >= 0,
    ;
}

proof fn lemma_page_count(s: int, end: int, i: int)
    requires
        s >= 0,
        i >= 0,
        i == 0 || s + 4096 * i <= end,
        s + 4096 * i + 4096 > end,
    ensures
        i == (if end >= s + 4096 { (end - s) / 4096 } else { 0 }),
{
    if end >= s + 4096 {
        assert(i == (end - s) / 4096) by (nonlinear_arith)
            requires
                s >= 0,
                i >= 0,
                i == 0 || s + 4096 * i <= end,
                s + 4096 * i + 4096 > end,
                end >= s + 4096,
        ;
    }
}

/// Clearing the low 12 bits rounds down to a page boundary.
proof fn lemma_page_mask(x: u64)
    ensures
        x & !0xfffu64 == (x / 4096) * 4096,
{
    assert(x & !0xfffu64 == (x / 4096) * 4096) by (bit_vector);
}

proof fn lemma_zero_bits_bound(w: u64, n: nat)
    ensures
        zero_bits_below(w, n) <= n,
    decreases n,
{
    if n > 0 {
        lemma_zero_bits_bound(w, (n - 1) as nat);
    }
}

impl Pmm {
    /// Build the bitmap from the boot memory map: free every whole page of
    /// every available entry (page 0 excepted), then mark the first megabyte
    /// and the kernel image `[kstart, kend)` used.
    pub fn init(&mut self, entries: &[MemoryEntry], kstart: u64, kend: u64)
        requires
            old(self).wf(),
            kend + 0xfff <= u64::MAX,
            forall|k: int|
                0 <= k < entries@.len() && (#[trigger] entries@[k]).typ == 1 ==> entries@[k].base_addr
                    + entries@[k].length + PAGE_SIZE <= u64::MAX,
        ensures
            final(self).wf(),
            forall|p: int|
                0 <= p < NUM_PAGES ==> #[trigger] final(self).used(p) == (reserved_page(kstart, kend, p) || (
                old(self).used(p) && !freed_by_map(entries@, p))),
    {
        let ghost s0 = self@;
        // Step 1: free the pages of the available entries.
        let mut k: usize = 0;
        while k < entries.len()
            invariant
                self.wf(),
                k <= entries@.len(),
                forall|j: int|
                    0 <= j < entries@.len() && (#[trigger] entries@[j]).typ == 1 ==> entries@[j].base_addr
                        + entries@[j].length + PAGE_SIZE <= u64::MAX,
                forall|p: int|
                    0 <= p < NUM_PAGES ==> #[trigger] page_used(self@, p) == (page_used(s0, p)
                        && !freed_by_map(entries@.subrange(0, k as int), p)),
            decreases entries@.len() - k,
        {
            let e = entries[k];
            let ghost before = self@;
            if e.typ == 1 {
                let mut addr = e.base_addr;
                if addr == 0 {
                    addr = PAGE_SIZE;
                }
                let end = e.base_addr + e.length;
                let ghost st = addr as int;
                let ghost mut i: int = 0;
                while addr + PAGE_SIZE <= end
                    invariant
                        self.wf(),
                        st == entry_start(e),
                        end == e.base_addr + e.length,
                        end + PAGE_SIZE <= u64::MAX,
                        i >= 0,
                        addr == st + 4096 * i,
                        i == 0 || addr <= end,
                        forall|p: int|
                            0 <= p < NUM_PAGES ==> #[trigger] page_used(self@, p) == (page_used(
                                before,
                                p,
                            ) && !(st / 4096 <= p < st / 4096 + i)),
                    decreases end - addr,
                {
                    proof {
                        lemma_div_step(st, i);
                    }
                    self.mark_free(addr);
                    addr = addr + PAGE_SIZE;
                    proof {
                        i = i + 1;
                    }
                }
                proof {
                    lemma_page_count(st, end as int, i);
                }
            }
            proof {
                let sub0 = entries@.subrange(0, k as int);
                let sub1 = entries@.subrange(0, k as int + 1);
                assert forall|p: int| 0 <= p < NUM_PAGES implies #[trigger] page_used(self@, p) == (
                page_used(s0, p) && !freed_by_map(sub1, p)) by {
                    assert(sub1[k as int] == e);
                    if freed_by_map(sub1, p) {
                        let j = choose|j: int| 0 <= j < sub1.len() && #[trigger] entry_frees(sub1[j], p);
                        if j < k {
                            assert(sub0[j] == sub1[j]);
                            assert(entry_frees(sub0[j], p));
                        }
                    }
                    if freed_by_map(sub0, p) {
                        let j = choose|j: int| 0 <= j < sub0.len() && #[trigger] entry_frees(sub0[j], p);
                        assert(sub0[j] == sub1[j]);
                        assert(entry_frees(sub1[j], p));
                    }
                    if entry_frees(e, p) {
                        assert(entry_frees(sub1[k as int], p));
                    }
                }
            }
            k += 1;
        }
        proof {
            assert(entries@.subrange(0, entries@.len() as int) == entries@);
        }
        let ghost after1 = self@;
        // Step 2: reserve the first megabyte.
        let mut addr: u64 = 0;
        while addr < LOW_MEMORY_END
            invariant
                self.wf(),
                addr % 4096 == 0,
                addr <= LOW_MEMORY_END,
                forall|p: int|
                    0 <= p < NUM_PAGES ==> #[trigger] page_used(self@, p) == (page_used(after1, p) || p
                        < addr / 4096),
            decreases LOW_MEMORY_END - addr,
        {
            self.mark_used(addr);
            addr = addr + PAGE_SIZE;
        }
        let ghost after2 = self@;
        // Step 3: reserve the kernel image.
        let page_start = kstart & !0xfff;
        let page_end = (kend + 0xfff) & !0xfff;
        proof {
            lemma_page_mask(kstart);
            lemma_page_mask((kend + 0xfff) as u64);
        }
        let mut addr = page_start;
        while addr < page_end
            invariant
                self.wf(),
                page_start == (kstart / 4096) * 4096,
                page_end == ((kend + 0xfff) / 4096) * 4096,
                addr % 4096 == 0,
                page_start <= addr,
                addr == page_start || addr <= page_end,
                forall|p: int|
                    0 <= p < NUM_PAGES ==> #[trigger] page_used(self@, p) == (page_used(after2, p) || (
                    kstart / 4096 <= p < addr / 4096)),
            decreases page_end - addr,
        {
            self.mark_used(addr);
            addr = addr + PAGE_SIZE;
        }
        proof {
            assert forall|p: int| 0 <= p < NUM_PAGES implies #[trigger] self.used(p) == (
            reserved_page(kstart, kend, p) || (old(self).used(p) && !freed_by_map(entries@, p))) by {
                lemma_page_bounds(p, kstart as int, kend as int);
            }
        }
    }
}

// ---------------------------------------------------------------------------
// Laws of the page allocator
// ---------------------------------------------------------------------------

proof fn lemma_set_page_used(s: Seq<u64>, p: int, q: int)
    requires
        s.len() == BITMAP_WORDS,
        0 <= p < NUM_PAGES,
        0 <= q < NUM_PAGES,
    ensures
        page_used(set_page(s, p), q) == (page_used(s, q) || q == p),
{
    if q / 64 == p / 64 {
        lemma_bit_set(s[p / 64], (p % 64) as u64, (q % 64) as u64);
        assert((q % 64 == p % 64) == (q == p));
    }
}

proof fn lemma_clear_page_used(s: Seq<u64>, p: int, q: int)
    requires
        s.len() == BITMAP_WORDS,
        0 <= p < NUM_PAGES,
        0 <= q < NUM_PAGES,
    ensures
        page_used(clear_page(s, p), q) == (page_used(s, q) && q != p),
{
    if q / 64 == p / 64 {
        lemma_bit_clear(s[p / 64], (p % 64) as u64, (q % 64) as u64);
        assert((q % 64 == p % 64) == (q == p));
    }
}

proof fn lemma_first_free_exists(s: Seq<u64>, n: int)
    requires
        0 <= n <= NUM_PAGES,
        exists|p: int| 0 <= p < n && !#[trigger] page_used(s, p),
    ensures
        exists|p: int|
            0 <= p < n && !page_used(s, p) && forall|q: int| 0 <= q < p ==> #[trigger] page_used(s, q),
    decreases n,
{
    if exists|p: int| 0 <= p < n - 1 && !#[trigger] page_used(s, p) {
        lemma_first_free_exists(s, n - 1);
    } else {
        assert(!page_used(s, n - 1));
        assert forall|q: int| 0 <= q < n - 1 implies #[trigger] page_used(s, q) by {}
    }
}

/// `first_free_page` names the lowest free page.
pub proof fn lemma_first_free(s: Seq<u64>)
    requires
        has_free_page(s),
    ensures
        0 <= first_free_page(s) < NUM_PAGES,
        !page_used(s, first_free_page(s)),
        forall|q: int| 0 <= q < first_free_page(s) ==> #[trigger] page_used(s, q),
{
    lemma_first_free_exists(s, NUM_PAGES as int);
}

/// Law: freeing the page that was just allocated gives back the bitmap it
/// was allocated from (when that page is not reserved).
pub proof fn law_free_undoes_alloc(s: Seq<u64>, kstart: u64, kend: u64)
    requires
        s.len() == BITMAP_WORDS,
        has_free_page(s),
        !reserved_page(kstart, kend, first_free_page(s)),
    ensures
        spec_free(spec_alloc_frame(s), (first_free_page(s) * PAGE_SIZE) as u64, kstart, kend) == s,
{
    lemma_first_free(s);
    let p = first_free_page(s);
    let t = spec_alloc_frame(s);
    let addr = (p * PAGE_SIZE) as u64;
    assert(addr / PAGE_SIZE == p);
    lemma_set_page_used(s, p, p);
    let w = s[p / 64];
    let b = (p % 64) as u64;
    assert(!bit_of(w, b));
    assert((w >> b) & 1 != 1 ==> (w | (1u64 << b)) & !(1u64 << b) == w) by (bit_vector)
        requires
            b < 64,
    ;
    assert(spec_free(t, addr, kstart, kend) =~= s);
}

/// Law: once every reserved page is marked used, allocating and freeing
/// keep it so: the allocator never hands out low memory or the kernel image.
pub proof fn law_reserved_stay_used(s: Seq<u64>, kstart: u64, kend: u64, addr: u64)
    requires
        s.len() == BITMAP_WORDS,
        forall|p: int| 0 <= p < NUM_PAGES && reserved_page(kstart, kend, p) ==> #[trigger] page_used(s, p),
    ensures
        forall|p: int|
            0 <= p < NUM_PAGES && reserved_page(kstart, kend, p) ==> #[trigger] page_used(
                spec_alloc_frame(s),
                p,
            ),
        forall|p: int|
            0 <= p < NUM_PAGES && reserved_page(kstart, kend, p) ==> #[trigger] page_used(
                spec_free(s, addr, kstart, kend),
                p,
            ),
{
    if has_free_page(s) {
        lemma_first_free(s);
        assert forall|p: int| 0 <= p < NUM_PAGES && reserved_page(kstart, kend, p) implies #[trigger] page_used(
            spec_alloc_frame(s),
            p,
        ) by {
            lemma_set_page_used(s, first_free_page(s), p);
        }
    }
    let q = (addr / PAGE_SIZE) as int;
    assert forall|p: int| 0 <= p < NUM_PAGES && reserved_page(kstart, kend, p) implies #[trigger] page_used(
        spec_free(s, addr, kstart, kend),
        p,
    ) by {
        if !(reserved_page(kstart, kend, q) || q >= NUM_PAGES || !page_used(s, q)) {
            lemma_clear_page_used(s, q, p);
        }
    }
}

proof fn lemma_zero_bits_full(w: u64, n: nat)
    requires
        n <= 64,
        forall|j: u64| j < n ==> #[trigger] bit_of(w, j),
    ensures
        zero_bits_below(w, n) == 0,
    decreases n,
{
    if n > 0 {
        assert(bit_of(w, (n - 1) as u64));
        lemma_zero_bits_full(w, (n - 1) as nat);
    }
}

proof fn lemma_free_count_zero(s: Seq<u64>, k: int)
    requires
        0 <= k <= s.len(),
        s.len() == BITMAP_WORDS,
        forall|p: int| 0 <= p < NUM_PAGES ==> #[trigger] page_used(s, p),
    ensures
        free_count(s, k) == 0,
    decreases k,
{
    if k > 0 {
        lemma_free_count_zero(s, k - 1);
        assert forall|j: u64| j < 64 implies #[trigger] bit_of(s[k - 1], j) by {
            let p = (k - 1) * 64 + j;
            assert(p / 64 == k - 1 && p % 64 == j);
            assert(page_used(s, p));
        }
        lemma_zero_bits_full(s[k - 1], 64);
    }
}

/// A bitmap with a positive free count has a free page.
pub proof fn lemma_free_total_has_free(s: Seq<u64>)
    requires
        s.len() == BITMAP_WORDS,
        free_count(s, BITMAP_WORDS as int) > 0,
    ensures
        has_free_page(s),
{
    if !has_free_page(s) {
        assert forall|p: int| 0 <= p < NUM_PAGES implies #[trigger] page_used(s, p) by {}
        lemma_free_count_zero(s, BITMAP_WORDS as int);
    }
}

} // verus!
