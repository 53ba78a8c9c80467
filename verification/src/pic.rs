//! The legacy 8259 interrupt controllers, which the kernel turns off.
use vstd::prelude::*;
use crate::mmio::PortWrite;

verus! {

pub const PIC1_CMD: u16 = 0x20;
pub const PIC1_DATA: u16 = 0x21;
pub const PIC2_CMD: u16 = 0xA0;
pub const PIC2_DATA: u16 = 0xA1;

/// The port writes that remap both controllers (master to vectors 32,
/// slave to 40, slave on line 2, 8086 mode) and then mask every line.
pub fn disable() -> (r: Vec<PortWrite>)
    ensures
        r@ == seq![
            PortWrite { port: PIC1_CMD, val: 0x11 },
            PortWrite { port: PIC2_CMD, val: 0x11 },
            PortWrite { port: PIC1_DATA, val: 32 },
            PortWrite { port: PIC2_DATA, val: 40 },
            PortWrite { port: PIC1_DATA, val: 4 },
            PortWrite { port: PIC2_DATA, val: 2 },
            PortWrite { port: PIC1_DATA, val: 0x01 },
            PortWrite { port: PIC2_DATA, val: 0x01 },
            PortWrite { port: PIC1_DATA, val: 0xFF },
            PortWrite { port: PIC2_DATA, val: 0xFF },
        ],
{
    let mut r: Vec<PortWrite> = Vec::new();
    r.push(PortWrite { port: PIC1_CMD, val: 0x11 });
    r.push(PortWrite { port: PIC2_CMD, val: 0x11 });
    r.push(PortWrite { port: PIC1_DATA, val: 32 });
    r.push(PortWrite { port: PIC2_DATA, val: 40 });
    r.push(PortWrite { port: PIC1_DATA, val: 4 });
    r.push(PortWrite { port: PIC2_DATA, val: 2 });
    r.push(PortWrite { port: PIC1_DATA, val: 0x01 });
    r.push(PortWrite { port: PIC2_DATA, val: 0x01 });
    r.push(PortWrite { port: PIC1_DATA, val: 0xFF });
    r.push(PortWrite { port: PIC2_DATA, val: 0xFF });
    r
}

} // verus!
