use tomorrow::pmm::{MemoryEntry, Pmm};
use tomorrow::vmm::{PageTable, TableMemory, PAGE_PRESENT, PAGE_USER, PAGE_WRITABLE};

fn two_mib_machine() -> Pmm {
    let mut pmm = Pmm::new();
    let entries = [MemoryEntry { base_addr: 0, length: 0x200000, typ: 1 }];
    pmm.init(&entries, 0x100000, 0x180000);
    pmm
}

#[test]
fn a_new_bitmap_has_nothing_free() {
    let pmm = Pmm::new();
    assert_eq!(pmm.free_pages(), 0);
}

#[test]
fn init_frees_available_pages_but_not_reserved_ones() {
    let pmm = two_mib_machine();
    // [0x180000, 0x200000): the first MiB and the kernel stay used.
    assert_eq!(pmm.free_pages(), 128);
}

#[test]
fn reserved_memory_types_stay_used() {
    let mut pmm = Pmm::new();
    let entries = [
        MemoryEntry { base_addr: 0x200000, length: 0x10000, typ: 2 },
        MemoryEntry { base_addr: 0x300000, length: 0x2000, typ: 1 },
    ];
    pmm.init(&entries, 0x100000, 0x100000);
    assert_eq!(pmm.free_pages(), 2);
    assert_eq!(pmm.alloc_frame(), 0x300000);
}

#[test]
fn alloc_takes_the_lowest_free_page() {
    let mut pmm = two_mib_machine();
    assert_eq!(pmm.alloc_frame(), 0x180000);
    assert_eq!(pmm.alloc_frame(), 0x181000);
    assert_eq!(pmm.free_pages(), 126);
}

#[test]
fn free_undoes_alloc() {
    let mut pmm = two_mib_machine();
    let a = pmm.alloc_frame();
    pmm.free(a, 0x100000, 0x180000);
    assert_eq!(pmm.free_pages(), 128);
    assert_eq!(pmm.alloc_frame(), a);
}

#[test]
fn freeing_a_kernel_or_low_page_does_nothing() {
    let mut pmm = two_mib_machine();
    pmm.free(0x1000, 0x100000, 0x180000);
    pmm.free(0x120000, 0x100000, 0x180000);
    assert_eq!(pmm.free_pages(), 128);
}

#[test]
fn try_alloc_on_a_full_bitmap_is_none() {
    let mut pmm = Pmm::new();
    assert_eq!(pmm.try_alloc_frame(), None);
}

#[test]
fn map_builds_the_walk_to_the_page() {
    let mut pmm = two_mib_machine();
    let mut mem = TableMemory::new();
    let mut pml4 = PageTable::new();
    let virt: u64 = 0x0000_0100_0000_0000;
    let phys: u64 = 0x0000_0000_0040_0000;
    pml4.map(&mut mem, &mut pmm, virt, phys, PAGE_WRITABLE | PAGE_USER);
    let e4 = pml4.entries[((virt >> 39) & 0x1ff) as usize];
    assert!(e4 & PAGE_PRESENT != 0);
    assert!(e4 & PAGE_USER != 0);
    let t3 = PageTable::entry_to_table(e4);
    let e3 = mem.read(t3, ((virt >> 30) & 0x1ff) as usize);
    let t2 = PageTable::entry_to_table(e3);
    let e2 = mem.read(t2, ((virt >> 21) & 0x1ff) as usize);
    let t1 = PageTable::entry_to_table(e2);
    let e1 = mem.read(t1, ((virt >> 12) & 0x1ff) as usize);
    assert_eq!(e1, phys | PAGE_WRITABLE | PAGE_USER | PAGE_PRESENT);
    // Three tables came from the page allocator.
    assert_eq!(pmm.free_pages(), 125);
}
