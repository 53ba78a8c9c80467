use tomorrow::heap::{align_up, size_align, FreeList, FreeNode};

#[test]
fn align_up_rounds_to_power_of_two() {
    assert_eq!(align_up(13, 8), 16);
    assert_eq!(align_up(16, 8), 16);
    assert_eq!(align_up(0x1001, 0x1000), 0x2000);
    assert_eq!(align_up(5, 1), 5);
    assert_eq!(align_up(5, 0), 5);
}

#[test]
fn size_align_normalizes_layouts() {
    assert_eq!(size_align(1, 1), (16, 8));
    assert_eq!(size_align(8, 8), (16, 8));
    assert_eq!(size_align(24, 8), (24, 8));
    assert_eq!(size_align(20, 16), (32, 16));
    assert_eq!(size_align(64, 4096), (4096, 4096));
}

#[test]
fn free_node_bounds() {
    let n = FreeNode::new(0x1000, 64);
    assert_eq!(n.start_addr(), 0x1000);
    assert_eq!(n.end_addr(), 0x1040);
}

fn heap_at(addr: usize, size: usize) -> FreeList {
    let mut h = FreeList::new();
    h.init(addr, size);
    h
}

#[test]
fn first_fit_from_the_start_of_the_region() {
    let mut h = heap_at(0x10000, 0x1000);
    assert_eq!(h.alloc_block(16, 8), 0x10000);
    assert_eq!(h.alloc_block(32, 8), 0x10010);
    assert_eq!(h.kmalloc(1), 0x10030);
}

#[test]
fn dealloc_undoes_alloc() {
    let mut h = heap_at(0x10000, 0x1000);
    let a = h.kmalloc(100);
    assert_eq!(a, 0x10000);
    h.dealloc(a, 104);
    // The block given back is at the head of the list and fits again.
    assert_eq!(h.kmalloc(100), a);
}

#[test]
fn successive_blocks_do_not_overlap() {
    let mut h = heap_at(0x20000, 0x400);
    let a = h.kmalloc(40);
    let b = h.kmalloc(40);
    assert!(a != 0 && b != 0);
    assert!(a + 40 <= b || b + 40 <= a);
}

#[test]
fn allocation_fails_when_nothing_fits() {
    let mut h = heap_at(0x10000, 0x100);
    assert_eq!(h.kmalloc(0x200), 0);
    // Still usable afterwards.
    assert_eq!(h.kmalloc(0x10), 0x10000);
}

#[test]
fn invalid_alignment_is_refused() {
    let mut h = heap_at(0x10000, 0x1000);
    assert_eq!(h.kmalloc_aligned(8, 3), 0);
    assert_eq!(h.kmalloc_aligned(8, 0), 0);
    assert_eq!(h.kmalloc_aligned(8, 8), 0x10000);
}

#[test]
fn aligned_allocation_skips_to_the_boundary() {
    let mut h = heap_at(0x10008, 0x2010);
    let a = h.kmalloc_aligned(64, 4096);
    assert_eq!(a, 0x11000);
    // Both gaps stay free, the tail one first.
    assert_eq!(h.alloc_block(24, 8), 0x12000);
    assert_eq!(h.alloc_block(16, 8), 0x10008);
}

#[test]
fn self_test_passes_on_a_sixteen_page_heap() {
    let mut h = heap_at(0x100000, 16 * 4096);
    let a = h.self_test().expect("heap self test failed");
    assert_eq!(a % 4096, 0);
}

#[test]
fn self_test_fails_on_a_tiny_heap() {
    let mut h = heap_at(0x100000, 1024);
    assert_eq!(h.self_test(), None);
}

#[test]
fn align_up_twice_is_align_up_once() {
    for &(a, n) in &[(0x1001usize, 8usize), (0x1000, 8), (5, 1), (13, 16), (0x1001, 0x1000)] {
        assert_eq!(align_up(align_up(a, n), n), align_up(a, n));
    }
    assert_eq!(align_up(0x1001, 8), 0x1008);
}

#[test]
fn block_given_back_is_handed_out_again() {
    let mut h = heap_at(0x100000, 16 * 4096);
    let p = h.kmalloc_aligned(100, 16);
    assert_ne!(p, 0);
    let (size, _) = size_align(100, 16);
    h.dealloc(p, size);
    assert_eq!(h.kmalloc_aligned(100, 16), p);
}
