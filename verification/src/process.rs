//! Processes: their state, and the initial context and user address-space
//! layout of a new one.
use vstd::prelude::*;
use crate::scheduler::Context;
use crate::vmm::{PAGE_WRITABLE, PAGE_USER};

verus! {

/// Base of the kernel's higher half.
pub const KERNEL_VIRT: u64 = 0xFFFF_8000_0000_0000;

/// Where the user stack page of a process is mapped.
pub const USER_STACK_BASE: u64 = 0x0000_0100_0000_0000;

/// Where the code page of a process is mapped.
pub const USER_CODE_BASE: u64 = 0x0000_0200_0000_0000;

/// Initial RFLAGS of a process: interrupts enabled.
pub const USER_RFLAGS: u64 = 0x202;

/// User code selector (GDT 0x20, RPL 3).
pub const USER_CS: u64 = 0x23;

/// User data selector (GDT 0x18, RPL 3).
pub const USER_SS: u64 = 0x1B;

#[derive(Clone, Copy, PartialEq, Eq, Structural, Debug)]
pub enum ProcessState {
    Running,
    Blocked,
    Dead,
}

#[derive(Clone, Copy)]
pub struct Process {
    pub pid: u64,
    pub syscall_mask: u64,
    pub domain: u8,
    pub token: u64,
    pub state: ProcessState,
    pub kernel_stack: u64,
    pub user_stack: u64,
    pub context: Context,
}

/// A page the new process needs mapped: `virt` -> `phys` with `flags`.
#[derive(Clone, Copy, PartialEq, Eq, Structural, Debug)]
pub struct UserMapping {
    pub virt: u64,
    pub phys: u64,
    pub flags: u64,
}

/// Top of the kernel stack in the page at `stack`: the page end, 16-byte aligned.
pub open spec fn stack_top(stack: u64) -> u64 {
    ((stack + 4096) as u64) & !0xfu64
}


/// Physical page that holds the kernel-half address `entry`.
pub open spec fn code_phys(entry: u64) -> u64 {
    ((entry - KERNEL_VIRT) as u64) & !0xfffu64
}

/// The arguments a new process can be made from without overflow.
pub open spec fn process_args_ok(pid: u64, entry: u64, stack: u64) -> bool {
    &&& stack + 4096 <= u64::MAX
    &&& entry >= KERNEL_VIRT
}

impl Process {
    /// The two pages a new process needs: its user stack (backed by
    /// `user_stack_phys`) and its code page (the page of the kernel image
    /// that holds `entry`), both writable and user-accessible.
    pub fn user_mappings(pid: u64, entry: u64, user_stack_phys: u64) -> (r: (UserMapping, UserMapping))
        requires
            entry >= KERNEL_VIRT,
        ensures
            r.0 == (UserMapping { virt: USER_STACK_BASE, phys: user_stack_phys, flags: PAGE_WRITABLE | PAGE_USER }),
            r.1 == (UserMapping { virt: USER_CODE_BASE, phys: code_phys(entry), flags: PAGE_WRITABLE | PAGE_USER }),
    {
        let fn_phys = (entry - KERNEL_VIRT) & !0xfff;
        (
            UserMapping { virt: USER_STACK_BASE, phys: user_stack_phys, flags: PAGE_WRITABLE | PAGE_USER },
            UserMapping { virt: USER_CODE_BASE, phys: fn_phys, flags: PAGE_WRITABLE | PAGE_USER },
        )
    }

    /// A new running process whose kernel stack is the page at `stack` and
    /// whose context starts it in ring 3 at its code page, on top of its
    /// user stack, with the page tables in `cr3`.
    pub fn new(
        pid: u64,
        syscall_mask: u64,
        domain: u8,
        entry: u64,
        stack: u64,
        cr3: u64,
    ) -> (r: Self)
        requires
            process_args_ok(pid, entry, stack),
        ensures
            r.pid == pid,
            r.syscall_mask == syscall_mask,
            r.domain == domain,
            r.token == 0,
            r.state == ProcessState::Running,
            r.kernel_stack == stack_top(stack),
            r.user_stack == USER_STACK_BASE + 4096,
            r.context == (Context {
                rax: 0,
                rbx: 0,
                rcx: 0,
                rdx: 0,
                rsi: 0,
                rdi: 0,
                rbp: 0,
                rsp: (USER_STACK_BASE + 4096) as u64,
                r8: 0,
                r9: 0,
                r10: 0,
                r11: 0,
                r12: 0,
                r13: 0,
                r14: 0,
                r15: 0,
                rip: (USER_CODE_BASE + (entry & 0xfff)) as u64,
                rflags: USER_RFLAGS,
                cs: USER_CS,
                ss: USER_SS,
                cr3,
                kernel_stack: stack_top(stack),
            }),
    {
        let stack_top = (stack + 4096) & !0xf;
        let fn_offset = entry & 0xfff;
        let user_stack_top = USER_STACK_BASE + 4096;
        proof {
            assert(fn_offset <= 0xfff) by (bit_vector)
                requires
                    fn_offset == entry & 0xfff,
            ;
        }
        Process {
            pid,
            syscall_mask,
            domain,
            token: 0,
            state: ProcessState::Running,
            kernel_stack: stack_top,
            user_stack: user_stack_top,
            context: Context {
                rax: 0,
                rbx: 0,
                rcx: 0,
                rdx: 0,
                rsi: 0,
                rdi: 0,
                rbp: 0,
                rsp: user_stack_top,
                r8: 0,
                r9: 0,
                r10: 0,
                r11: 0,
                r12: 0,
                r13: 0,
                r14: 0,
                r15: 0,
                rip: USER_CODE_BASE + fn_offset,
                rflags: USER_RFLAGS,
                cs: USER_CS,
                ss: USER_SS,
                cr3,
                kernel_stack: stack_top,
            },
        }
    }
}

/// Law: the entry point of a new process lands on the instruction it was
/// made from: its code page is backed by the physical page of `entry`, and
/// the start address lies at `entry`'s offset within that page, so the
/// physical address of the start is `entry - KERNEL_VIRT`.
pub proof fn law_entry_lands_on_code(entry: u64)
    requires
        entry >= KERNEL_VIRT,
    ensures
        code_phys(entry) + (entry & 0xfff) == entry - KERNEL_VIRT,
        code_phys(entry) & 0xfff == 0,
{
    let e = (entry - KERNEL_VIRT) as u64;
    assert((e & !0xfffu64) + (entry & 0xfff) == e && (e & !0xfffu64) & 0xfff == 0) by (bit_vector)
        requires
            e == entry - 0xFFFF_8000_0000_0000u64,
            entry >= 0xFFFF_8000_0000_0000u64,
    ;
}

/// Law: the kernel stack top lies inside its page and is 16-byte aligned.
pub proof fn law_stack_top(stack: u64)
    requires
        stack + 4096 <= u64::MAX,
        stack & 0xfff == 0,
    ensures
        stack_top(stack) == stack + 4096,
        stack_top(stack) & 0xf == 0,
{
    let t = (stack + 4096) as u64;
    assert(t & !0xfu64 == t && t & !0xfu64 & 0xf == 0) by (bit_vector)
        requires
            t == stack + 4096,
            stack & 0xfff == 0,
    ;
}

/// Law: the user stack page and the code page of a process are distinct
/// pages, and the start address lies inside the code page.
pub proof fn law_user_layout(entry: u64)
    ensures
        USER_STACK_BASE % 0x1000 == 0,
        USER_CODE_BASE % 0x1000 == 0,
        USER_STACK_BASE + 0x1000 <= USER_CODE_BASE,
        USER_CODE_BASE <= USER_CODE_BASE + (entry & 0xfff) < USER_CODE_BASE + 0x1000,
{
    assert(entry & 0xfff <= 0xfff) by (bit_vector);
}

} // verus!
