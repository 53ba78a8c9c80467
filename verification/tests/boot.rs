use tomorrow::acpi::{mcfg_base, parse_madt, table_kind, xsdt_entries, MadtEntry, TableKind};
use tomorrow::bytes::{push_le, read_u16, read_u32, read_u64};
use tomorrow::multiboot::{memory_entries, parse, BootInfo, Framebuffer, MmapTag, Module};

fn le32(v: &mut Vec<u8>, x: u32) {
    v.extend_from_slice(&x.to_le_bytes());
}

fn le64(v: &mut Vec<u8>, x: u64) {
    v.extend_from_slice(&x.to_le_bytes());
}

#[test]
fn little_endian_reads_and_writes() {
    let s = [0x78u8, 0x56, 0x34, 0x12, 0xef, 0xcd, 0xab, 0x90];
    assert_eq!(read_u16(&s, 0), 0x5678);
    assert_eq!(read_u32(&s, 0), 0x1234_5678);
    assert_eq!(read_u64(&s, 0), 0x90ab_cdef_1234_5678);
    let mut v = vec![9u8];
    push_le(&mut v, 0x0102_0304, 3);
    assert_eq!(v, vec![9, 4, 3, 2]);
}

/// Boot information with a memory map (two entries), a framebuffer and
/// an ACPI 2.0 RSDP.
fn boot_info() -> Vec<u8> {
    let mut v = Vec::new();
    le32(&mut v, 0); // total size, patched below
    le32(&mut v, 0);
    // Memory map tag at 8: 16-byte header, two 24-byte entries.
    le32(&mut v, 6);
    le32(&mut v, 16 + 2 * 24);
    le32(&mut v, 24);
    le32(&mut v, 0);
    le64(&mut v, 0);
    le64(&mut v, 0x9f000);
    le32(&mut v, 1);
    le32(&mut v, 0);
    le64(&mut v, 0x100000);
    le64(&mut v, 0x700000);
    le32(&mut v, 1);
    le32(&mut v, 0);
    // Framebuffer tag at 72, 32 bytes.
    le32(&mut v, 8);
    le32(&mut v, 32);
    le64(&mut v, 0xfd00_0000);
    le32(&mut v, 4096);
    le32(&mut v, 1024);
    le32(&mut v, 768);
    v.push(32);
    v.push(1);
    v.push(0);
    v.push(0);
    // ACPI new tag at 104: 8-byte header, 36-byte RSDP, padded to 48.
    le32(&mut v, 15);
    le32(&mut v, 44);
    v.extend_from_slice(b"RSD PTR ");
    v.extend_from_slice(&[0u8; 16]);
    le64(&mut v, 0x7ffe_0000);
    v.extend_from_slice(&[0u8; 4]);
    v.extend_from_slice(&[0u8; 4]);
    // End tag.
    le32(&mut v, 0);
    le32(&mut v, 8);
    let n = v.len() as u32;
    v[0..4].copy_from_slice(&n.to_le_bytes());
    v
}

#[test]
fn multiboot_tags_are_read() {
    let info = boot_info();
    let b = parse(&info);
    assert_eq!(
        b,
        BootInfo {
            mmap: Some(MmapTag { offset: 8, size: 64, entry_size: 24 }),
            framebuffer: Some(Framebuffer { addr: 0xfd00_0000, pitch: 4096, width: 1024, height: 768, bpp: 32 }),
            xsdt: Some(0x7ffe_0000),
            module: None,
        }
    );
    let entries = memory_entries(&info, b.mmap.unwrap());
    assert_eq!(entries.len(), 2);
    assert_eq!((entries[0].base_addr, entries[0].length, entries[0].typ), (0, 0x9f000, 1));
    assert_eq!((entries[1].base_addr, entries[1].length, entries[1].typ), (0x100000, 0x700000, 1));
}

#[test]
fn multiboot_module_tag() {
    let mut v = Vec::new();
    le32(&mut v, 0);
    le32(&mut v, 0);
    le32(&mut v, 3);
    le32(&mut v, 21);
    le32(&mut v, 0x20_0000);
    le32(&mut v, 0x20_4000);
    v.extend_from_slice(b"fs\0\0\0\0\0\0");
    le32(&mut v, 0);
    le32(&mut v, 8);
    assert_eq!(parse(&v).module, Some(Module { start: 0x20_0000, end: 0x20_4000 }));
}

#[test]
fn multiboot_walk_stops_at_the_end_tag() {
    let mut v = Vec::new();
    le32(&mut v, 0);
    le32(&mut v, 0);
    le32(&mut v, 0);
    le32(&mut v, 8);
    le32(&mut v, 15);
    le32(&mut v, 44);
    let b = parse(&v);
    assert_eq!(b, BootInfo { mmap: None, framebuffer: None, xsdt: None, module: None });
}

#[test]
fn multiboot_tag_of_size_zero_ends_the_walk() {
    let mut v = Vec::new();
    le32(&mut v, 0);
    le32(&mut v, 0);
    le32(&mut v, 6);
    le32(&mut v, 0);
    le32(&mut v, 24);
    le32(&mut v, 0);
    let b = parse(&v);
    assert_eq!(b.mmap, Some(MmapTag { offset: 8, size: 0, entry_size: 24 }));
}

fn header(sig: &[u8; 4], len: u32) -> Vec<u8> {
    let mut v = Vec::new();
    v.extend_from_slice(sig);
    le32(&mut v, len);
    v.extend_from_slice(&[0u8; 28]);
    v
}

#[test]
fn xsdt_lists_table_addresses() {
    let mut t = header(b"XSDT", 36 + 16);
    le64(&mut t, 0x1000);
    le64(&mut t, 0x2000);
    assert_eq!(xsdt_entries(&t), vec![0x1000, 0x2000]);
    assert_eq!(xsdt_entries(&header(b"XSDT", 36)), Vec::<u64>::new());
}

#[test]
fn table_signatures() {
    assert_eq!(table_kind(*b"APIC"), TableKind::Madt);
    assert_eq!(table_kind(*b"MCFG"), TableKind::Mcfg);
    assert_eq!(table_kind(*b"FACP"), TableKind::Other);
}

#[test]
fn mcfg_names_the_configuration_base() {
    let mut t = header(b"MCFG", 60);
    t.extend_from_slice(&[0u8; 8]);
    le64(&mut t, 0xe000_0000);
    t.extend_from_slice(&[0u8; 8]);
    assert_eq!(mcfg_base(&t), 0xe000_0000);
}

fn madt() -> Vec<u8> {
    let mut t = header(b"APIC", 0);
    le32(&mut t, 0xfee0_0000);
    le32(&mut t, 1);
    // Local APIC: processor 0, APIC id 0, enabled.
    t.extend_from_slice(&[0, 8, 0, 0]);
    le32(&mut t, 1);
    // I/O APIC id 2 at 0xfec00000 serving from 0.
    t.extend_from_slice(&[1, 12, 2, 0]);
    le32(&mut t, 0xfec0_0000);
    le32(&mut t, 0);
    // Override: ISA 0 on GSI 2.
    t.extend_from_slice(&[2, 10, 0, 0]);
    le32(&mut t, 2);
    t.extend_from_slice(&[0, 0]);
    // A second I/O APIC serving from 24: not the one for interrupt 0.
    t.extend_from_slice(&[1, 12, 3, 0]);
    le32(&mut t, 0xfec1_0000);
    le32(&mut t, 24);
    let n = t.len() as u32;
    t[4..8].copy_from_slice(&n.to_le_bytes());
    t
}

#[test]
fn madt_finds_apics_and_the_timer_override() {
    let m = parse_madt(&madt());
    assert_eq!(m.local_apic_address, 0xfee0_0000);
    assert_eq!(
        m.entries,
        vec![
            MadtEntry::LocalApic { apic_id: 0, flags: 1 },
            MadtEntry::IoApic { id: 2, address: 0xfec0_0000, gsi_base: 0 },
            MadtEntry::Override { source: 0, gsi: 2 },
            MadtEntry::IoApic { id: 3, address: 0xfec1_0000, gsi_base: 24 },
        ]
    );
    assert_eq!(m.ioapic_base, Some(0xfec0_0000));
    assert_eq!(m.timer_gsi, Some(2));
}

#[test]
fn madt_without_entries() {
    let mut t = header(b"APIC", 44);
    le32(&mut t, 0xfee0_0000);
    le32(&mut t, 0);
    let m = parse_madt(&t);
    assert!(m.entries.is_empty());
    assert_eq!(m.ioapic_base, None);
    assert_eq!(m.timer_gsi, None);
}
