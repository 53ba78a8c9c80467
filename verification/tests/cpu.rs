use tomorrow::hpet::init_hpet;
use tomorrow::idt::{Idt, IdtEntry, ENTRY_FLAGS, ENTRY_SELECTOR};
use tomorrow::ioapic::redirect;
use tomorrow::lapic::{enable, eoi};
use tomorrow::mmio::{MmioWrite, PortWrite};
use tomorrow::pic::disable;
use tomorrow::syscall::{
    efer_with_sce, init as syscall_init, msr_halves, return_value, syscall_handler, MsrWrite, SyscallAction,
    MSR_LSTAR, MSR_STAR, MSR_SYSCALL_MASK, STAR_VALUE,
};
use tomorrow::tss::{
    build_gdt, init as tss_init, GdtEntry, GdtPage, GdtPtr, Tss, TssDescriptor, GDT_USER_DATA, TSS_SIZE,
};

#[test]
fn the_gdt_holds_kernel_and_user_segments() {
    let g = build_gdt();
    assert_eq!(g[0], 0);
    assert_eq!(g[1], 0x00AF9A000000FFFF);
    assert_eq!(g[2], 0x00CF92000000FFFF);
    assert_eq!(g[3], 0x00CFF2000000FFFF);
    assert_eq!(g[4], 0x00AFFA000000FFFF);
    assert_eq!(g[5], 0);
    let page = GdtPage::new();
    assert_eq!(page.gdt_user_data(), GDT_USER_DATA);
}

#[test]
fn gdt_entries_split_and_join() {
    let e = GdtEntry::from_word(0x00CFF2000000FFFF);
    assert_eq!(e.limit_low, 0xFFFF);
    assert_eq!(e.access, 0xF2);
    assert_eq!(e.flags_limit, 0xCF);
    assert_eq!(e.to_word(), 0x00CFF2000000FFFF);
}

#[test]
fn tss_descriptor_encodes_base_and_limit() {
    let d = TssDescriptor::new(0xFFFF_8000_0012_3456, 103);
    let (lo, hi) = d.words();
    assert_eq!(lo & 0xFFFF, 103);
    assert_eq!((lo >> 16) & 0xFF_FFFF, 0x12_3456);
    assert_eq!((lo >> 40) & 0xFF, 0x89);
    assert_eq!(lo >> 56, 0x00);
    assert_eq!(hi, 0xFFFF_8000);
}

#[test]
fn tss_init_sets_the_stack_and_the_descriptor() {
    let mut tss = Tss::new();
    let mut gdt = GdtPage::new();
    let p: GdtPtr = tss_init(&mut tss, &mut gdt, 0x20_1000, 0x14_2000, 0x14_1000);
    assert_eq!(tss.rsp0, 0x20_1000);
    assert_eq!(tss.iomap_base as u64, TSS_SIZE);
    assert_eq!((p.limit, p.base), (55, 0x14_1000));
    let d = TssDescriptor::new(0x14_2000, TSS_SIZE - 1).words();
    assert_eq!(gdt.entries[5], d.0);
    assert_eq!(gdt.entries[6], d.1);
    assert_eq!(gdt.entries[3], GDT_USER_DATA);
    let bytes = tss.to_bytes();
    assert_eq!(bytes.len(), 104);
    assert_eq!(&bytes[4..12], &0x20_1000u64.to_le_bytes());
    assert_eq!(&bytes[102..104], &104u16.to_le_bytes());
    assert_eq!(p.to_bytes(), vec![55, 0, 0, 0x10, 0x14, 0, 0, 0, 0, 0]);
}

#[test]
fn an_idt_gate_holds_its_handler() {
    let e = IdtEntry::new(0xFFFF_8000_0010_ABCD);
    assert_eq!(e.offset_low, 0xABCD);
    assert_eq!(e.offset_mid, 0x0010);
    assert_eq!(e.offset_high, 0xFFFF_8000);
    assert_eq!(e.selector, ENTRY_SELECTOR);
    assert_eq!(e.flags, ENTRY_FLAGS);
    assert_eq!(e.handler(), 0xFFFF_8000_0010_ABCD);
    assert_eq!(e.to_bytes(), vec![0xCD, 0xAB, 0x08, 0x00, 0, 0x8E, 0x10, 0x00, 0x00, 0x80, 0xFF, 0xFF, 0, 0, 0, 0]);
}

#[test]
fn set_handler_changes_one_vector() {
    let mut idt = Idt::new();
    idt.init(0x1000);
    idt.set_handler(0x20, 0x2000);
    assert_eq!(idt.entry(0x20).handler(), 0x2000);
    assert_eq!(idt.entry(0x21).handler(), 0x1000);
    assert_eq!(idt.entry(0xFF).handler(), 0x1000);
    let bytes = idt.to_bytes();
    assert_eq!(bytes.len(), 4096);
    assert_eq!(&bytes[0x20 * 16..0x20 * 16 + 2], &[0x00, 0x20]);
}

#[test]
fn ioapic_redirection_writes() {
    let w = redirect(0xFEC0_0000, 1, 0x21, 0);
    assert_eq!(
        w,
        vec![
            MmioWrite { addr: 0xFEC0_0000, val: 0x12 },
            MmioWrite { addr: 0xFEC0_0010, val: 0x21 },
            MmioWrite { addr: 0xFEC0_0000, val: 0x13 },
            MmioWrite { addr: 0xFEC0_0010, val: 0 },
        ]
    );
    let w = redirect(0xFEC0_0000, 2, 0x20, 3);
    assert_eq!(w[2], MmioWrite { addr: 0xFEC0_0000, val: 0x15 });
    assert_eq!(w[3], MmioWrite { addr: 0xFEC0_0010, val: 3 << 24 });
}

#[test]
fn lapic_writes() {
    assert_eq!(enable(0xFEE0_0000), MmioWrite { addr: 0xFEE0_00F0, val: 0x1FF });
    assert_eq!(eoi(0xFEE0_0000), MmioWrite { addr: 0xFEE0_00B0, val: 0 });
}

#[test]
fn pic_is_remapped_then_masked() {
    let w = disable();
    assert_eq!(w.len(), 10);
    assert_eq!(w[0], PortWrite { port: 0x20, val: 0x11 });
    assert_eq!(w[2], PortWrite { port: 0x21, val: 32 });
    assert_eq!(w[3], PortWrite { port: 0xA1, val: 40 });
    assert_eq!(w[8], PortWrite { port: 0x21, val: 0xFF });
    assert_eq!(w[9], PortWrite { port: 0xA1, val: 0xFF });
}

#[test]
fn hpet_period_and_enable() {
    let h = init_hpet(0x0098_9680_8086_A201, 0x2);
    assert_eq!(h.period_fs, 0x0098_9680);
    assert_eq!(h.config, 0x3);
}

#[test]
fn msr_values_split_in_halves() {
    assert_eq!(msr_halves(0x0010_0008_0000_0000), (0, 0x0010_0008));
    assert_eq!(msr_halves(0x1234_5678_9ABC_DEF0), (0x9ABC_DEF0, 0x1234_5678));
    assert_eq!(efer_with_sce(0x500), 0x501);
}

#[test]
fn syscall_setup() {
    let s = syscall_init(0x30_0000, 0xFFFF_8000_0010_0000);
    assert_eq!(s.kernel_rsp, 0x30_1000);
    assert_eq!(
        s.msrs,
        vec![
            MsrWrite { msr: MSR_LSTAR, value: 0xFFFF_8000_0010_0000 },
            MsrWrite { msr: MSR_STAR, value: STAR_VALUE },
            MsrWrite { msr: MSR_SYSCALL_MASK, value: 0x200 },
        ]
    );
}

#[test]
fn syscall_dispatch() {
    assert_eq!(syscall_handler(1, 1, 0x4000, 3, 0, 0), SyscallAction::Output { len: 3 });
    assert_eq!(syscall_handler(1, 2, 0x4000, 3, 0, 0), SyscallAction::BadFd);
    assert_eq!(syscall_handler(60, 7, 0, 0, 0, 0), SyscallAction::Exit { code: 7 });
    assert_eq!(syscall_handler(24, 0, 0, 0, 0, 0), SyscallAction::Yield);
    assert_eq!(syscall_handler(0, 0, 0, 0, 0, 0), SyscallAction::Unknown);
    assert_eq!(return_value(SyscallAction::Output { len: 3 }), Some(3));
    assert_eq!(return_value(SyscallAction::BadFd), Some(u64::MAX));
    assert_eq!(return_value(SyscallAction::Yield), Some(0));
    assert_eq!(return_value(SyscallAction::Unknown), Some(u64::MAX));
    assert_eq!(return_value(SyscallAction::Exit { code: 0 }), None);
}
