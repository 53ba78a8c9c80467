//! Four-level x86-64 page tables with 4 KiB leaves.
//!
//! The PML4 is a `PageTable` of its own; the lower tables live in physical
//! pages handed out by the page allocator and are modelled by a
//! `TableMemory` that maps the physical address of each table to its 512
//! entries.
use vstd::prelude::*;
use crate::pmm::{Pmm, PAGE_SIZE, NUM_PAGES, spec_alloc_frame, page_used, has_free_page, first_free_page};

verus! {

pub const PAGE_PRESENT: u64 = 1;
pub const PAGE_WRITABLE: u64 = 2;
pub const PAGE_USER: u64 = 4;
pub const PAGE_NO_EXECUTE: u64 = 0x8000_0000_0000_0000;
/// Page-size bit: the entry maps a 1 GiB or 2 MiB page instead of a table.
pub const PAGE_HUGE: u64 = 0x80;
/// Bits of an entry that hold the physical address of the next table.
pub const ADDR_MASK: u64 = 0x000f_ffff_ffff_f000;

/// The entry is present.
pub open spec fn present(e: u64) -> bool {
    e & PAGE_PRESENT != 0
}

/// The entry maps a huge page.
pub open spec fn huge(e: u64) -> bool {
    e & PAGE_HUGE != 0
}

/// The entry allows user-mode access.
pub open spec fn user_ok(e: u64) -> bool {
    e & PAGE_USER != 0
}

/// Physical address of the table the entry points to.
pub open spec fn table_of(e: u64) -> u64 {
    e & ADDR_MASK
}

/// Index into the table of level `level` (3 = PML4, 0 = page table).
pub open spec fn level_index(virt: u64, level: u64) -> int {
    ((virt >> ((12 + 9 * level) as u64)) & 0x1ff) as int
}

/// A page table: 512 entries.
pub struct PageTable {
    pub entries: [u64; 512],
}

impl PageTable {
    /// An empty table.
    pub fn new() -> (r: Self)
        ensures
            forall|i: int| 0 <= i < 512 ==> #[trigger] r.entries@[i] == 0,
    {
        PageTable { entries: [0u64; 512] }
    }
}

/// The tables below the PML4, keyed by physical address.
pub struct TableMemory {
    addrs: Vec<u64>,
    tables: Vec<PageTable>,
}

impl TableMemory {
    pub closed spec fn wf(&self) -> bool {
        &&& self.addrs@.len() == self.tables@.len()
        &&& self.addrs@.no_duplicates()
    }

    /// The table at physical address `a`, if there is one.
    pub closed spec fn view(&self) -> Map<u64, Seq<u64>> {
        Map::new(
            |a: u64| self.addrs@.contains(a),
            |a: u64| self.tables@[self.addrs@.index_of(a)].entries@,
        )
    }

    /// No tables.
    pub fn new() -> (r: Self)
        ensures
            r.wf(),
            r@ == Map::<u64, Seq<u64>>::empty(),
    {
        let r = TableMemory { addrs: Vec::new(), tables: Vec::new() };
        assert(r@ =~= Map::<u64, Seq<u64>>::empty());
        r
    }

    /// Position of the table at `a`.
    fn find(&self, a: u64) -> (r: Option<usize>)
        requires
            self.wf(),
        ensures
            r is None ==> !self@.contains_key(a),
            r is Some ==> r->0 < self.addrs@.len() && self.addrs@[r->0 as int] == a
                && self.addrs@.index_of(a) == r->0,
    {
        let mut i: usize = 0;
        while i < self.addrs.len()
            invariant
                self.wf(),
                i <= self.addrs@.len(),
                forall|j: int| 0 <= j < i ==> self.addrs@[j] != a,
            decreases self.addrs@.len() - i,
        {
            if self.addrs[i] == a {
                proof {
                    self.addrs@.index_of_first_ensures(a);
                    assert(self.addrs@.contains(a));
                }
                return Some(i);
            }
            i += 1;
        }
        None
    }

    /// There is a table at `a`.
    pub fn contains(&self, a: u64) -> (r: bool)
        requires
            self.wf(),
        ensures
            r == self@.contains_key(a),
    {
        self.find(a).is_some()
    }

    /// Number of entries of the table at `a`.
    pub fn table_len(&self, a: u64) -> (r: usize)
        requires
            self.wf(),
            self@.contains_key(a),
        ensures
            r == self@[a].len(),
    {
        match self.find(a) {
            Some(k) => 512,
            None => 0,
        }
    }

    /// Entry `i` of the table at `a`.
    pub fn read(&self, a: u64, i: usize) -> (r: u64)
        requires
            self.wf(),
            self@.contains_key(a),
            i < self@[a].len(),
        ensures
            r == self@[a][i as int],
    {
        match self.find(a) {
            Some(k) => self.tables[k].entries[i],
            None => 0,
        }
    }

    /// Set entry `i` of the table at `a` to `v`.
    pub fn write(&mut self, a: u64, i: usize, v: u64)
        requires
            old(self).wf(),
            old(self)@.contains_key(a),
            i < 512,
        ensures
            final(self).wf(),
            final(self)@ == old(self)@.insert(a, old(self)@[a].update(i as int, v)),
    {
        match self.find(a) {
            Some(k) => {
                let mut t = PageTable { entries: self.tables[k].entries };
                t.entries[i] = v;
                self.tables.set(k, t);
                proof {
                    assert forall|b: u64| #[trigger] self.addrs@.contains(b) && b != a implies
                        self.addrs@.index_of(b) != k by {}
                }
                assert(self@ =~= old(self)@.insert(a, old(self)@[a].update(i as int, v)));
            },
            None => {},
        }
    }

    /// Add an empty table at `a`.
    pub fn add_table(&mut self, a: u64)
        requires
            old(self).wf(),
            !old(self)@.contains_key(a),
        ensures
            final(self).wf(),
            final(self)@ == old(self)@.insert(a, Seq::new(512, |i: int| 0u64)),
    {
        let ghost old_addrs = self.addrs@;
        let ghost old_tables = self.tables@;
        let t = PageTable::new();
        assert(t.entries@ =~= Seq::new(512, |i: int| 0u64));
        self.addrs.push(a);
        self.tables.push(t);
        proof {
            let n = old_addrs.len() as int;
            assert forall|j: int, k: int|
                0 <= j < self.addrs@.len() && 0 <= k < self.addrs@.len() && j != k implies self.addrs@[j]
                != self.addrs@[k] by {
                if j == n {
                    assert(old_addrs.contains(self.addrs@[k]) || k == n);
                }
                if k == n {
                    assert(old_addrs.contains(self.addrs@[j]) || j == n);
                }
            }
            assert forall|b: u64| #[trigger] old_addrs.contains(b) implies self.addrs@.index_of(b)
                == old_addrs.index_of(b) by {
                old_addrs.index_of_first_ensures(b);
                self.addrs@.index_of_first_ensures(b);
                assert(self.addrs@[old_addrs.index_of(b)] == b);
            }
            assert(self.addrs@.contains(a)) by {
                assert(self.addrs@[n] == a);
            }
            assert(self.addrs@.index_of(a) == n) by {
                self.addrs@.index_of_first_ensures(a);
            }
            assert forall|b: u64| #[trigger] self.addrs@.contains(b) <==> (old_addrs.contains(b) || b == a) by {
                if self.addrs@.contains(b) {
                    let j = choose|j: int| 0 <= j < self.addrs@.len() && self.addrs@[j] == b;
                    if j < n {
                        assert(old_addrs[j] == b);
                    }
                }
                if old_addrs.contains(b) {
                    let j = choose|j: int| 0 <= j < old_addrs.len() && old_addrs[j] == b;
                    assert(self.addrs@[j] == b);
                }
            }
            assert forall|b: u64| #[trigger] old_addrs.contains(b) implies self.tables@[self.addrs@.index_of(b)]
                == old_tables[old_addrs.index_of(b)] by {
                old_addrs.index_of_first_ensures(b);
            }
        }
        assert(self@ =~= old(self)@.insert(a, Seq::new(512, |i: int| 0u64)));
    }
}

/// The leaf entry that maps `virt`, following the tables from `pml4`:
/// `None` when some level is not present (or names a table that is not in
/// memory); a huge-page entry when the walk ends at one.
pub open spec fn translate(pml4: Seq<u64>, mem: Map<u64, Seq<u64>>, virt: u64) -> Option<u64> {
    let e4 = pml4[level_index(virt, 3)];
    if !present(e4) || !mem.contains_key(table_of(e4)) {
        None
    } else {
        let e3 = mem[table_of(e4)][level_index(virt, 2)];
        if !present(e3) {
            None
        } else if huge(e3) {
            Some(e3)
        } else if !mem.contains_key(table_of(e3)) {
            None
        } else {
            let e2 = mem[table_of(e3)][level_index(virt, 1)];
            if !present(e2) {
                None
            } else if huge(e2) {
                Some(e2)
            } else if !mem.contains_key(table_of(e2)) {
                None
            } else {
                let e1 = mem[table_of(e2)][level_index(virt, 0)];
                if present(e1) {
                    Some(e1)
                } else {
                    None
                }
            }
        }
    }
}

/// Every present table entry on the way to `virt` names a table that is in
/// memory, and those tables are distinct.
pub open spec fn path_ok(pml4: Seq<u64>, mem: Map<u64, Seq<u64>>, virt: u64) -> bool {
    let e4 = pml4[level_index(virt, 3)];
    present(e4) ==> {
        let t3 = table_of(e4);
        &&& mem.contains_key(t3)
        &&& mem[t3].len() == 512
        &&& {
            let e3 = mem[t3][level_index(virt, 2)];
            present(e3) && !huge(e3) ==> {
                let t2 = table_of(e3);
                &&& mem.contains_key(t2)
                &&& mem[t2].len() == 512
                &&& t2 != t3
                &&& {
                    let e2 = mem[t2][level_index(virt, 1)];
                    present(e2) && !huge(e2) ==> {
                        let t1 = table_of(e2);
                        &&& mem.contains_key(t1)
                        &&& mem[t1].len() == 512
                        &&& t1 != t2
                        &&& t1 != t3
                    }
                }
            }
        }
    }
}

/// Every entry above the leaf on the walk to `virt` allows user-mode access
/// (the walk ends early at a huge page).
pub open spec fn path_user(pml4: Seq<u64>, mem: Map<u64, Seq<u64>>, virt: u64) -> bool {
    let e4 = pml4[level_index(virt, 3)];
    let e3 = mem[table_of(e4)][level_index(virt, 2)];
    let e2 = mem[table_of(e3)][level_index(virt, 1)];
    &&& user_ok(e4)
    &&& user_ok(e3)
    &&& !huge(e3) ==> user_ok(e2)
}

/// The walk to `virt` meets a present huge-page entry.
pub open spec fn path_huge(pml4: Seq<u64>, mem: Map<u64, Seq<u64>>, virt: u64) -> bool {
    let e4 = pml4[level_index(virt, 3)];
    let e3 = mem[table_of(e4)][level_index(virt, 2)];
    let e2 = mem[table_of(e3)][level_index(virt, 1)];
    present(e4) && present(e3) && (huge(e3) || (present(e2) && huge(e2)))
}

/// Every table in memory sits in its own used page of the allocator, every
/// table has 512 entries, and page 0 is used (so a fresh table never lands
/// at address 0).
pub open spec fn tables_ok(mem: Map<u64, Seq<u64>>, pmm: Seq<u64>) -> bool {
    &&& forall|a: u64|
        #[trigger] mem.contains_key(a) ==> a % PAGE_SIZE == 0 && a / PAGE_SIZE < NUM_PAGES && page_used(
            pmm,
            (a / PAGE_SIZE) as int,
        ) && mem[a].len() == 512
    &&& page_used(pmm, 0)
}

/// A freshly allocated page gives a table entry that is present, not huge
/// and names that page.
proof fn lemma_new_entry(t: u64, user: u64)
    requires
        t % 4096 == 0,
        t < 0x1_0000_0000_0000,
        user == 0 || user == PAGE_USER,
    ensures
        present(t | PAGE_PRESENT | PAGE_WRITABLE | user),
        !huge(t | PAGE_PRESENT | PAGE_WRITABLE | user),
        table_of(t | PAGE_PRESENT | PAGE_WRITABLE | user) == t,
        user == PAGE_USER ==> user_ok(t | PAGE_PRESENT | PAGE_WRITABLE | user),
{
    assert(((t | 1u64 | 2u64 | user) & 1u64 != 0) && ((t | 1u64 | 2u64 | user) & 0x80u64 == 0) && ((
    t | 1u64 | 2u64 | user) & 0x000f_ffff_ffff_f000u64 == t) && (user == 4 ==> (t | 1u64 | 2u64 | user) & 4u64
        != 0)) by (bit_vector)
        requires
            t % 4096 == 0,
            t < 0x1_0000_0000_0000,
            user == 0 || user == 4,
    ;
}

/// Setting the user bit keeps an entry present, huge or not, and pointing
/// at the same table.
proof fn lemma_user_bit(e: u64)
    ensures
        present(e | PAGE_USER) == present(e),
        huge(e | PAGE_USER) == huge(e),
        table_of(e | PAGE_USER) == table_of(e),
        user_ok(e | PAGE_USER),
{
    assert(((e | 4u64) & 1u64 != 0) == (e & 1u64 != 0)) by (bit_vector);
    assert(((e | 4u64) & 0x80u64 != 0) == (e & 0x80u64 != 0)) by (bit_vector);
    assert(((e | 4u64) & 0x000f_ffff_ffff_f000u64) == (e & 0x000f_ffff_ffff_f000u64) && (e | 4u64) & 4u64 != 0)
        by (bit_vector);
}

/// Or-ing in a user bit that is 0 leaves an entry as it is.
proof fn lemma_or_zero(e: u64)
    by (bit_vector)
    ensures
        e | 0u64 == e,
{
}

proof fn lemma_leaf(phys: u64, flags: u64)
    ensures
        present(phys | flags | PAGE_PRESENT),
{
    assert((phys | flags | 1u64) & 1u64 != 0) by (bit_vector);
}

proof fn lemma_user_flag(flags: u64)
    ensures
        flags & PAGE_USER == 0 || flags & PAGE_USER == PAGE_USER,
{
    assert(flags & 4u64 == 0 || flags & 4u64 == 4u64) by (bit_vector);
}

proof fn lemma_index_bound(virt: u64, level: u64)
    requires
        level < 4,
    ensures
        0 <= level_index(virt, level) < 512,
{
    let s = (12 + 9 * level) as u64;
    assert((virt >> s) & 0x1ff < 512) by (bit_vector);
}

/// Allocate a zeroed table from the page allocator.
fn alloc_table(mem: &mut TableMemory, pmm: &mut Pmm) -> (t: u64)
    requires
        old(mem).wf(),
        old(pmm).wf(),
        old(pmm).has_free(),
        tables_ok(old(mem)@, old(pmm)@),
    ensures
        final(mem).wf(),
        final(pmm).wf(),
        final(pmm)@ == spec_alloc_frame(old(pmm)@),
        t == first_free_page(old(pmm)@) * PAGE_SIZE,
        t % 4096 == 0,
        0 < t < 0x1_0000_0000_0000,
        !old(mem)@.contains_key(t),
        final(mem)@ == old(mem)@.insert(t, Seq::new(512, |i: int| 0u64)),
        tables_ok(final(mem)@, final(pmm)@),
        final(pmm).free_total() + 1 == old(pmm).free_total(),
{
    let ghost p0 = first_free_page(pmm@);
    let t = pmm.alloc_frame();
    proof {
        crate::pmm::lemma_first_free(old(pmm)@);
        assert(t / PAGE_SIZE == p0);
        if old(mem)@.contains_key(t) {
            assert(page_used(old(pmm)@, p0));
        }
        assert(p0 != 0);
    }
    mem.add_table(t);
    proof {
        assert(pmm.used(0) == (old(pmm).used(0) || 0 == p0));
        assert forall|a: u64| #[trigger] mem@.contains_key(a) implies a % PAGE_SIZE == 0 && a / PAGE_SIZE
            < NUM_PAGES && page_used(pmm@, (a / PAGE_SIZE) as int) && mem@[a].len() == 512 by {
            assert(pmm.used((a / PAGE_SIZE) as int) == (old(pmm).used((a / PAGE_SIZE) as int) || (a / PAGE_SIZE) as int == p0));
            if a != t {
                assert(old(mem)@.contains_key(a));
            }
        }
    }
    t
}

/// One level of the walk below the PML4: make entry `idx` of the table at
/// `table` point to a next-level table (allocating one when the entry is
/// not present) and give it the user bit when `user_bit` is set.  Returns
/// the next table, or `None` when the entry maps a huge page.
fn walk_level(mem: &mut TableMemory, pmm: &mut Pmm, table: u64, idx: usize, user_bit: u64) -> (r: Option<u64>)
    requires
        old(mem).wf(),
        old(pmm).wf(),
        old(pmm).free_total() >= 1,
        tables_ok(old(mem)@, old(pmm)@),
        old(mem)@.contains_key(table),
        idx < 512,
        user_bit == 0 || user_bit == PAGE_USER,
        ({
            let e = old(mem)@[table][idx as int];
            present(e) && !huge(e) ==> old(mem)@.contains_key(table_of(e)) && table_of(e) != table
        }),
    ensures
        final(mem).wf(),
        final(pmm).wf(),
        tables_ok(final(mem)@, final(pmm)@),
        final(mem)@.contains_key(table),
        final(mem)@[table] == old(mem)@[table].update(idx as int, final(mem)@[table][idx as int]),
        forall|k: u64| #[trigger] old(mem)@.contains_key(k) && k != table ==> final(mem)@.contains_key(k)
            && final(mem)@[k] == old(mem)@[k],
        forall|k: u64| #[trigger] final(mem)@.contains_key(k) ==> old(mem)@.contains_key(k) || (r is Some
            && k == r->0),
        final(pmm).free_total() + 1 >= old(pmm).free_total(),
        user_bit != 0 ==> user_ok(final(mem)@[table][idx as int]),
        r is None ==> huge(final(mem)@[table][idx as int]),
        // A present entry only gains the user bit; no table is added.
        present(old(mem)@[table][idx as int]) ==> final(mem)@ == old(mem)@.insert(
            table,
            old(mem)@[table].update(idx as int, old(mem)@[table][idx as int] | user_bit),
        ),
        ({
            let e = old(mem)@[table][idx as int];
            &&& present(e) && huge(e) <==> r is None
            &&& r is Some ==> ({
                let e2 = final(mem)@[table][idx as int];
                &&& present(e2)
                &&& !huge(e2)
                &&& table_of(e2) == r->0
                &&& final(mem)@.contains_key(r->0)
                &&& r->0 != table
            })
            &&& present(e) && !huge(e) ==> r == Some(table_of(e)) && final(pmm).free_total() == old(pmm).free_total()
            &&& !present(e) ==> r is Some && !old(mem)@.contains_key(r->0) && final(mem)@[r->0] == Seq::new(
                512,
                |i: int| 0u64,
            )
        }),
{
    let entry = mem.read(table, idx);
    if entry & PAGE_PRESENT == 0 {
        proof {
            crate::pmm::lemma_free_total_has_free(pmm@);
        }
        let t = alloc_table(mem, pmm);
        proof {
            lemma_new_entry(t, user_bit);
        }
        mem.write(table, idx, t | PAGE_PRESENT | PAGE_WRITABLE | user_bit);
        proof {
            assert forall|a: u64| #[trigger] mem@.contains_key(a) implies a % PAGE_SIZE == 0 && a / PAGE_SIZE
                < NUM_PAGES && page_used(pmm@, (a / PAGE_SIZE) as int) && mem@[a].len() == 512 by {
                assert(mem@[a].len() == 512);
            }
            assert(mem@[table] =~= old(mem)@[table].update(idx as int, mem@[table][idx as int]));
        }
        Some(t)
    } else if entry & PAGE_HUGE != 0 {
        if user_bit != 0 {
            mem.write(table, idx, entry | PAGE_USER);
            proof {
                lemma_user_bit(entry);
                assert forall|a: u64| #[trigger] mem@.contains_key(a) implies a % PAGE_SIZE == 0 && a
                    / PAGE_SIZE < NUM_PAGES && page_used(pmm@, (a / PAGE_SIZE) as int) && mem@[a].len()
                    == 512 by {
                    assert(mem@[a].len() == 512);
                }
            }
        }
        proof {
            assert(mem@[table] =~= old(mem)@[table].update(idx as int, mem@[table][idx as int]));
            if user_bit == 0 {
                lemma_or_zero(entry);
                assert(old(mem)@[table].update(idx as int, entry | user_bit) =~= old(mem)@[table]);
                assert(old(mem)@.insert(table, old(mem)@[table]) =~= old(mem)@);
            }
        }
        None
    } else {
        if user_bit != 0 {
            mem.write(table, idx, entry | PAGE_USER);
            proof {
                lemma_user_bit(entry);
                assert forall|a: u64| #[trigger] mem@.contains_key(a) implies a % PAGE_SIZE == 0 && a
                    / PAGE_SIZE < NUM_PAGES && page_used(pmm@, (a / PAGE_SIZE) as int) && mem@[a].len()
                    == 512 by {
                    assert(mem@[a].len() == 512);
                }
            }
        }
        proof {
            assert(mem@[table] =~= old(mem)@[table].update(idx as int, mem@[table][idx as int]));
            if user_bit == 0 {
                lemma_or_zero(entry);
                assert(old(mem)@[table].update(idx as int, entry | user_bit) =~= old(mem)@[table]);
                assert(old(mem)@.insert(table, old(mem)@[table]) =~= old(mem)@);
            }
        }
        Some(entry & ADDR_MASK)
    }
}

/// The tables after a walk to `virt` that meets a huge page: the entries
/// it passes (the PDPT entry, and the PD entry when the PDPT entry is not
/// huge) gain the user bit `ub`, and nothing else changes.
pub open spec fn huge_walk(pml4: Seq<u64>, mem: Map<u64, Seq<u64>>, virt: u64, ub: u64) -> Map<u64, Seq<u64>> {
    let t3 = table_of(pml4[level_index(virt, 3)]);
    let e3 = mem[t3][level_index(virt, 2)];
    let m1 = mem.insert(t3, mem[t3].update(level_index(virt, 2), e3 | ub));
    if huge(e3) {
        m1
    } else {
        let t2 = table_of(e3);
        m1.insert(t2, mem[t2].update(level_index(virt, 1), mem[t2][level_index(virt, 1)] | ub))
    }
}

/// Every table of `after` was in `before` or is one of `t1`, `t2`, `t3`.
pub open spec fn added_within(before: Map<u64, Seq<u64>>, after: Map<u64, Seq<u64>>, t1: u64, t2: u64, t3: u64) -> bool {
    forall|k: u64| #[trigger] after.contains_key(k) ==> before.contains_key(k) || k == t1 || k == t2 || k == t3
}

/// Entry `i` of the table at `a` is in `after` as it was in `before`.
pub open spec fn entry_kept(before: Map<u64, Seq<u64>>, after: Map<u64, Seq<u64>>, a: u64, i: int) -> bool {
    after.contains_key(a) && after[a].len() == before[a].len() && after[a][i] == before[a][i]
}

/// Index `i` is one that a lower level of the walk to `virt` uses.
pub open spec fn on_walk(virt: u64, i: int) -> bool {
    i == level_index(virt, 2) || i == level_index(virt, 1) || i == level_index(virt, 0)
}

/// Every table of `before` is still in `after`, and every entry of it
/// that lies off the walk to `virt` (at an index that none of the lower
/// levels of the walk uses) is as it was.
pub open spec fn off_walk_kept(before: Map<u64, Seq<u64>>, after: Map<u64, Seq<u64>>, virt: u64) -> bool {
    forall|a: u64, i: int|
        before.contains_key(a) && 0 <= i < before[a].len() && !on_walk(virt, i) ==> #[trigger] entry_kept(before, after, a, i)
}

/// A change to at most one table `t`, at an index of the walk.
proof fn lemma_kept_one(m0: Map<u64, Seq<u64>>, m1: Map<u64, Seq<u64>>, virt: u64, t: u64, idx: int)
    requires
        on_walk(virt, idx),
        m0.contains_key(t) ==> 0 <= idx < m0[t].len(),
        forall|k: u64| #[trigger] m0.contains_key(k) && k != t ==> m1.contains_key(k) && m1[k] == m0[k],
        m0.contains_key(t) ==> m1.contains_key(t) && m1[t] == m0[t].update(idx, m1[t][idx]),
    ensures
        off_walk_kept(m0, m1, virt),
{
    assert forall|a: u64, i: int| m0.contains_key(a) && 0 <= i < m0[a].len() && !on_walk(virt, i) implies #[trigger] entry_kept(
        m0,
        m1,
        a,
        i,
    ) by {
        if a == t {
            assert(m1[t][i] == m0[t].update(idx, m1[t][idx])[i]);
        }
    }
}

proof fn lemma_kept_trans(m0: Map<u64, Seq<u64>>, m1: Map<u64, Seq<u64>>, m2: Map<u64, Seq<u64>>, virt: u64)
    requires
        off_walk_kept(m0, m1, virt),
        off_walk_kept(m1, m2, virt),
    ensures
        off_walk_kept(m0, m2, virt),
{
    assert forall|a: u64, i: int| m0.contains_key(a) && 0 <= i < m0[a].len() && !on_walk(virt, i) implies #[trigger] entry_kept(
        m0,
        m2,
        a,
        i,
    ) by {
        assert(entry_kept(m0, m1, a, i));
        assert(entry_kept(m1, m2, a, i));
    }
}

proof fn lemma_kept_refl(m0: Map<u64, Seq<u64>>, virt: u64)
    ensures
        off_walk_kept(m0, m0, virt),
{
}

impl PageTable {
    /// Physical address of the table that `entry` points to.
    pub fn entry_to_table(entry: u64) -> (r: u64)
        ensures
            r == table_of(entry),
    {
        entry & ADDR_MASK
    }

    /// Every present table entry on the way to `virt` names a distinct table
    /// of `mem` (what `map` needs to walk safely).
    pub fn path_known(&self, mem: &TableMemory, virt: u64) -> (r: bool)
        requires
            mem.wf(),
        ensures
            r == path_ok(self.entries@, mem@, virt),
    {
        proof {
            lemma_index_bound(virt, 1);
            lemma_index_bound(virt, 2);
            lemma_index_bound(virt, 3);
        }
        let e4 = self.entries[((virt >> 39) & 0x1ff) as usize];
        if e4 & PAGE_PRESENT == 0 {
            return true;
        }
        let t3 = Self::entry_to_table(e4);
        if !mem.contains(t3) || mem.table_len(t3) != 512 {
            return false;
        }
        let e3 = mem.read(t3, ((virt >> 30) & 0x1ff) as usize);
        if e3 & PAGE_PRESENT == 0 || e3 & PAGE_HUGE != 0 {
            return true;
        }
        let t2 = Self::entry_to_table(e3);
        if !mem.contains(t2) || mem.table_len(t2) != 512 || t2 == t3 {
            return false;
        }
        let e2 = mem.read(t2, ((virt >> 21) & 0x1ff) as usize);
        if e2 & PAGE_PRESENT == 0 || e2 & PAGE_HUGE != 0 {
            return true;
        }
        let t1 = Self::entry_to_table(e2);
        mem.contains(t1) && mem.table_len(t1) == 512 && t1 != t2 && t1 != t3
    }

    /// Map the 4 KiB page at `virt` to `phys` with `flags`.  Missing tables
    /// are allocated; `PAGE_USER` is propagated to every level; a huge page
    /// met on the way gets the user bit and the walk stops there.
    #[verifier::rlimit(30)]
    pub fn map(&mut self, mem: &mut TableMemory, pmm: &mut Pmm, virt: u64, phys: u64, flags: u64)
        requires
            old(mem).wf(),
            old(pmm).wf(),
            old(pmm).free_total() >= 3,
            tables_ok(old(mem)@, old(pmm)@),
            path_ok(old(self).entries@, old(mem)@, virt),
        ensures
            final(mem).wf(),
            final(pmm).wf(),
            tables_ok(final(mem)@, final(pmm)@),
            forall|a: u64| #[trigger] old(mem)@.contains_key(a) ==> final(mem)@.contains_key(a),
            !path_huge(old(self).entries@, old(mem)@, virt) ==> translate(final(self).entries@, final(mem)@, virt)
                == Some(phys | flags | PAGE_PRESENT),
            flags & PAGE_USER != 0 ==> path_user(final(self).entries@, final(mem)@, virt),
            // Nothing off the walk to `virt` changes.
            forall|i: int| 0 <= i < 512 && i != level_index(virt, 3) ==> #[trigger] final(self).entries@[i]
                == old(self).entries@[i],
            off_walk_kept(old(mem)@, final(mem)@, virt),
            // Through a huge page no leaf is written: the entries passed
            // only gain the user bit.
            path_huge(old(self).entries@, old(mem)@, virt) ==> final(self).entries@ == old(self).entries@.update(
                level_index(virt, 3),
                old(self).entries@[level_index(virt, 3)] | (flags & PAGE_USER),
            ) && final(mem)@ == huge_walk(old(self).entries@, old(mem)@, virt, flags & PAGE_USER),
            // At most three tables are added.
            exists|t1: u64, t2: u64, t3: u64| #[trigger] added_within(old(mem)@, final(mem)@, t1, t2, t3),
    {
        proof {
            lemma_index_bound(virt, 0);
            lemma_index_bound(virt, 1);
            lemma_index_bound(virt, 2);
            lemma_index_bound(virt, 3);
            lemma_user_flag(flags);
        }
        let pml4_idx = ((virt >> 39) & 0x1ff) as usize;
        let pdpt_idx = ((virt >> 30) & 0x1ff) as usize;
        let pd_idx = ((virt >> 21) & 0x1ff) as usize;
        let pt_idx = ((virt >> 12) & 0x1ff) as usize;
        let user_bit = flags & PAGE_USER;
        let ghost mem0 = mem@;
        let ghost pml0 = self.entries@;
        let ghost e4 = pml0[pml4_idx as int];
        assert(level_index(virt, 3) == pml4_idx);
        assert(level_index(virt, 2) == pdpt_idx);
        assert(level_index(virt, 1) == pd_idx);
        assert(level_index(virt, 0) == pt_idx);

        // PML4 -> PDPT
        let pml4_entry = self.entries[pml4_idx];
        if pml4_entry & PAGE_PRESENT == 0 {
            proof {
                crate::pmm::lemma_free_total_has_free(pmm@);
            }
            let t = alloc_table(mem, pmm);
            self.entries[pml4_idx] = t | PAGE_PRESENT | PAGE_WRITABLE | user_bit;
            proof {
                lemma_new_entry(t, user_bit);
            }
        } else if user_bit != 0 {
            self.entries[pml4_idx] = pml4_entry | PAGE_USER;
            proof {
                lemma_user_bit(pml4_entry);
            }
        }
        let pdpt = self.entries[pml4_idx] & ADDR_MASK;
        let ghost mem1 = mem@;
        proof {
            if present(e4) {
                if user_bit == 0 {
                    lemma_or_zero(e4);
                }
                assert(self.entries@ =~= pml0.update(pml4_idx as int, e4 | user_bit));
                assert(mem1 == mem0);
            }
            assert(added_within(mem0, mem1, pdpt, pdpt, pdpt));
            assert(present(self.entries@[pml4_idx as int]));
            assert(mem1.contains_key(pdpt));
            if !present(e4) {
                assert(mem1[pdpt][pdpt_idx as int] == 0u64);
                assert(0u64 & 1u64 == 0) by (bit_vector);
            }
            assert(forall|a: u64| #[trigger] mem0.contains_key(a) ==> mem1.contains_key(a));
            if mem1 == mem0 {
                lemma_kept_refl(mem0, virt);
            } else {
                lemma_kept_one(mem0, mem1, virt, pdpt, pdpt_idx as int);
            }
        }

        // PDPT -> PD
        let pd = match walk_level(mem, pmm, pdpt, pdpt_idx, user_bit) {
            Some(t) => t,
            None => {
                proof {
                    assert forall|a: u64| #[trigger] mem0.contains_key(a) implies mem@.contains_key(a) by {
                        assert(mem1.contains_key(a));
                    }
                    lemma_kept_one(mem1, mem@, virt, pdpt, pdpt_idx as int);
                    lemma_kept_trans(mem0, mem1, mem@, virt);
                    assert(added_within(mem0, mem@, pdpt, pdpt, pdpt));
                    if present(e4) {
                        assert(mem@ =~= huge_walk(pml0, mem0, virt, user_bit));
                    }
                }
                return;
            },
        };
        let ghost mem2 = mem@;
        proof {
            lemma_kept_one(mem1, mem2, virt, pdpt, pdpt_idx as int);
            lemma_kept_trans(mem0, mem1, mem2, virt);
            assert(added_within(mem0, mem2, pdpt, pd, pd));
            assert forall|a: u64| #[trigger] mem0.contains_key(a) implies mem2.contains_key(a) by {
                assert(mem1.contains_key(a));
            }
            let e3 = mem1[pdpt][pdpt_idx as int];
            if !present(e3) {
                assert(mem2[pd][pd_idx as int] == 0u64);
                assert(0u64 & 1u64 == 0) by (bit_vector);
            } else {
                assert(mem2[pd] == mem0[pd]);
            }
        }

        // PD -> PT
        let pt = match walk_level(mem, pmm, pd, pd_idx, user_bit) {
            Some(t) => t,
            None => {
                proof {
                    assert forall|a: u64| #[trigger] mem0.contains_key(a) implies mem@.contains_key(a) by {
                        assert(mem2.contains_key(a));
                    }
                    lemma_kept_one(mem2, mem@, virt, pd, pd_idx as int);
                    lemma_kept_trans(mem0, mem2, mem@, virt);
                    assert(added_within(mem0, mem@, pdpt, pd, pd));
                    if present(e4) && present(mem0[pdpt][pdpt_idx as int]) {
                        assert(mem2[pd] == mem0[pd]);
                        assert(mem@ =~= huge_walk(pml0, mem0, virt, user_bit));
                    }
                }
                return;
            },
        };
        let ghost mem3 = mem@;
        proof {
            lemma_kept_one(mem2, mem3, virt, pd, pd_idx as int);
            lemma_kept_trans(mem0, mem2, mem3, virt);
            assert(added_within(mem0, mem3, pdpt, pd, pt));
            assert forall|a: u64| #[trigger] mem0.contains_key(a) implies mem3.contains_key(a) by {
                assert(mem2.contains_key(a));
            }
            assert(pt != pdpt);
            assert(mem3[pdpt] == mem2[pdpt]);
        }

        // PT -> physical page
        mem.write(pt, pt_idx, phys | flags | PAGE_PRESENT);
        proof {
            lemma_kept_one(mem3, mem@, virt, pt, pt_idx as int);
            lemma_kept_trans(mem0, mem3, mem@, virt);
            assert(added_within(mem0, mem@, pdpt, pd, pt));
            lemma_leaf(phys, flags);
            assert(mem@[pdpt] == mem2[pdpt]);
            assert(mem@[pd] == mem3[pd]);
            assert forall|a: u64| #[trigger] mem0.contains_key(a) implies mem@.contains_key(a) by {
                assert(mem3.contains_key(a));
            }
            assert forall|a: u64| #[trigger] mem@.contains_key(a) implies a % PAGE_SIZE == 0 && a / PAGE_SIZE
                < NUM_PAGES && page_used(pmm@, (a / PAGE_SIZE) as int) && mem@[a].len() == 512 by {
                assert(mem@[a].len() == 512);
            }
        }
    }
}

} // verus!
