use vstd::prelude::*;

pub mod bytes;
pub mod heap;
pub mod pmm;
pub mod vmm;
pub mod fmt;
pub mod console;
pub mod font;
pub mod process;
pub mod scheduler;
pub mod shell;
pub mod tss;
pub mod idt;
pub mod mmio;
pub mod ioapic;
pub mod lapic;
pub mod pic;
pub mod hpet;
pub mod syscall;
pub mod multiboot;
pub mod acpi;
pub mod ramfs;
pub mod xhci_ring;
pub mod usb;
pub mod hid;
pub mod xhci;
pub mod pci;
pub mod keyboard;
pub mod hub;
pub mod enumerate;
pub mod root_ports;
pub mod controller;

verus! {
} // verus!
