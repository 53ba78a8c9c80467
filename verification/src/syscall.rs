//! The `syscall` entry: model-specific registers and dispatch.
use vstd::prelude::*;
use crate::tss::{initial_gdt, GDT_KERNEL_CODE, GDT_KERNEL_DATA, GDT_USER_CODE, GDT_USER_DATA};

verus! {

// Linux x86-64 numbers.
pub const SYS_READ: u64 = 0;
pub const SYS_WRITE: u64 = 1;
pub const SYS_OPEN: u64 = 2;
pub const SYS_CLOSE: u64 = 3;
pub const SYS_EXIT: u64 = 60;
pub const SYS_YIELD: u64 = 24;

pub const MSR_EFER: u32 = 0xC0000080;
pub const MSR_STAR: u32 = 0xC0000081;
pub const MSR_LSTAR: u32 = 0xC0000082;
pub const MSR_SYSCALL_MASK: u32 = 0xC0000084;

/// STAR: `syscall` loads kernel CS 0x08 (SS 0x10); `sysret` takes user
/// SS from base + 8 (0x18) and user CS from base + 16 (0x20).
pub const STAR_VALUE: u64 = 0x0010_0008_0000_0000;
/// Clear IF on entry.
pub const SYSCALL_MASK_VALUE: u64 = 0x200;
/// The value returned for a failed or unknown call.
pub const SYSCALL_ERROR: u64 = 0xFFFF_FFFF_FFFF_FFFF;

/// The two halves that `wrmsr` takes in EAX and EDX.
pub fn msr_halves(value: u64) -> (r: (u32, u32))
    ensures
        r.0 as u64 == value & 0xFFFF_FFFF,
        r.1 as u64 == value >> 32u64,
        (r.0 as u64) | ((r.1 as u64) << 32u64) == value,
{
    let low = value as u32;
    let high = (value >> 32) as u32;
    proof {
        lemma_halves(value);
    }
    (low, high)
}

proof fn lemma_halves(value: u64)
    by (bit_vector)
    ensures
        (value as u32) as u64 == value & 0xFFFF_FFFF,
        (value >> 32u64) as u32 as u64 == value >> 32u64,
        ((value as u32) as u64) | (((value >> 32u64) as u32 as u64) << 32u64) == value,
{
}

/// EFER with the syscall-enable bit set.
pub fn efer_with_sce(efer: u64) -> (r: u64)
    ensures
        r == efer | 1,
{
    efer | 1
}

/// A write to a model-specific register.
#[derive(Clone, Copy, PartialEq, Eq, Structural, Debug)]
pub struct MsrWrite {
    pub msr: u32,
    pub value: u64,
}

/// What turning on `syscall` takes: the kernel stack top and the MSR writes
/// (after EFER.SCE is set).
pub struct SyscallSetup {
    pub kernel_rsp: u64,
    pub msrs: Vec<MsrWrite>,
}

/// The setup for a kernel stack in the page at `page` and the entry point
/// `entry`: the stack starts at the top of the page, LSTAR points at the
/// entry, STAR holds the selectors, and the mask clears IF.
pub fn init(page: u64, entry: u64) -> (r: SyscallSetup)
    requires
        page + 4096 <= u64::MAX,
    ensures
        r.kernel_rsp == page + 4096,
        r.msrs@ == seq![
            MsrWrite { msr: MSR_LSTAR, value: entry },
            MsrWrite { msr: MSR_STAR, value: STAR_VALUE },
            MsrWrite { msr: MSR_SYSCALL_MASK, value: SYSCALL_MASK_VALUE },
        ],
{
    let mut msrs: Vec<MsrWrite> = Vec::new();
    msrs.push(MsrWrite { msr: MSR_LSTAR, value: entry });
    msrs.push(MsrWrite { msr: MSR_STAR, value: STAR_VALUE });
    msrs.push(MsrWrite { msr: MSR_SYSCALL_MASK, value: SYSCALL_MASK_VALUE });
    SyscallSetup { kernel_rsp: page + 4096, msrs }
}

/// Selector that `syscall` loads into CS.
pub open spec fn star_kernel_cs(star: u64) -> u64 {
    (star >> 32u64) & 0xFFFF
}

/// Base from which `sysret` takes the user selectors.
pub open spec fn star_user_base(star: u64) -> u64 {
    (star >> 48u64) & 0xFFFF
}

/// Law: the selectors in STAR name the right descriptors of the GDT:
/// kernel code and data for `syscall`, user data and code (with DPL 3)
/// for `sysret`.
pub proof fn law_star_matches_gdt()
    ensures
        initial_gdt(star_kernel_cs(STAR_VALUE) as int / 8) == GDT_KERNEL_CODE,
        initial_gdt((star_kernel_cs(STAR_VALUE) + 8) as int / 8) == GDT_KERNEL_DATA,
        initial_gdt((star_user_base(STAR_VALUE) + 8) as int / 8) == GDT_USER_DATA,
        initial_gdt((star_user_base(STAR_VALUE) + 16) as int / 8) == GDT_USER_CODE,
        (GDT_USER_DATA >> 45u64) & 3 == 3,
        (GDT_USER_CODE >> 45u64) & 3 == 3,
        (GDT_KERNEL_CODE >> 45u64) & 3 == 0,
{
    lemma_star_bits();
}

proof fn lemma_star_bits()
    by (bit_vector)
    ensures
        star_kernel_cs(STAR_VALUE) == 8,
        star_user_base(STAR_VALUE) == 0x10,
        (GDT_USER_DATA >> 45u64) & 3 == 3,
        (GDT_USER_CODE >> 45u64) & 3 == 3,
        (GDT_KERNEL_CODE >> 45u64) & 3 == 0,
{
}

/// What a system call asks the kernel to do.
#[derive(Clone, Copy, PartialEq, Eq, Structural, Debug)]
pub enum SyscallAction {
    /// `write` to stdout: hand the `len` bytes at the buffer to the shell,
    /// then return `len`.
    Output { len: u64 },
    /// `write` to any other descriptor: return the error value.
    BadFd,
    /// `exit`: the process never returns.
    Exit { code: u64 },
    /// `yield`: give up the CPU, then return 0.
    Yield,
    /// Any other number: return the error value.
    Unknown,
}

/// Decide what the call `nr` with its arguments asks for.
pub fn syscall_handler(nr: u64, arg1: u64, arg2: u64, arg3: u64, arg4: u64, arg5: u64) -> (r: SyscallAction)
    ensures
        r == (if nr == SYS_WRITE {
            if arg1 == 1 {
                SyscallAction::Output { len: arg3 }
            } else {
                SyscallAction::BadFd
            }
        } else if nr == SYS_EXIT {
            SyscallAction::Exit { code: arg1 }
        } else if nr == SYS_YIELD {
            SyscallAction::Yield
        } else {
            SyscallAction::Unknown
        }),
{
    if nr == SYS_WRITE {
        if arg1 == 1 {
            SyscallAction::Output { len: arg3 }
        } else {
            SyscallAction::BadFd
        }
    } else if nr == SYS_EXIT {
        SyscallAction::Exit { code: arg1 }
    } else if nr == SYS_YIELD {
        SyscallAction::Yield
    } else {
        SyscallAction::Unknown
    }
}

/// The value returned to user space once the action is done; `None` for
/// `exit`, which does not return.
pub fn return_value(a: SyscallAction) -> (r: Option<u64>)
    ensures
        r == (match a {
            SyscallAction::Output { len } => Some(len),
            SyscallAction::BadFd => Some(SYSCALL_ERROR),
            SyscallAction::Exit { .. } => None,
            SyscallAction::Yield => Some(0u64),
            SyscallAction::Unknown => Some(SYSCALL_ERROR),
        }),
{
    match a {
        SyscallAction::Output { len } => Some(len),
        SyscallAction::BadFd => Some(SYSCALL_ERROR),
        SyscallAction::Exit { .. } => None,
        SyscallAction::Yield => Some(0),
        SyscallAction::Unknown => Some(SYSCALL_ERROR),
    }
}

} // verus!
