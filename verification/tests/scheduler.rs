use tomorrow::process::{Process, ProcessState, UserMapping, KERNEL_VIRT, USER_CODE_BASE, USER_STACK_BASE};
use tomorrow::scheduler::{timer_do_switch, IretFrame, KillResult, SavedRegs, Scheduler, CONTEXT_WORDS, TIMER_FRAME_WORDS};
use tomorrow::tss::Tss;
use tomorrow::vmm::{PAGE_USER, PAGE_WRITABLE};

fn demo(pid: u64) -> Process {
    Process::new(pid, 0b11, 0, KERNEL_VIRT + 0x10_2345, 0x40_0000 + pid * 0x1000, 0x9000)
}

#[test]
fn a_new_process_starts_in_ring_3_at_its_code_page() {
    let p = Process::new(7, 0b11, 2, KERNEL_VIRT + 0x10_2345, 0x50_0008, 0x9000);
    assert_eq!(p.pid, 7);
    assert_eq!(p.syscall_mask, 0b11);
    assert_eq!(p.domain, 2);
    assert_eq!(p.token, 0);
    assert_eq!(p.state, ProcessState::Running);
    // Top of the kernel stack page, 16-byte aligned.
    assert_eq!(p.kernel_stack, 0x50_1000);
    assert_eq!(p.user_stack, USER_STACK_BASE + 4096);
    assert_eq!(p.context.rip, 0x0200_0000_0345);
    assert_eq!(p.context.rsp, p.user_stack);
    assert_eq!(p.context.cs, 0x23);
    assert_eq!(p.context.ss, 0x1B);
    assert_eq!(p.context.rflags, 0x202);
    assert_eq!(p.context.cr3, 0x9000);
    assert_eq!(p.context.rax, 0);
}

#[test]
fn user_mappings_cover_stack_and_code() {
    let (stack, code) = Process::user_mappings(3, KERNEL_VIRT + 0x10_2345, 0x70_0000);
    assert_eq!(stack, UserMapping { virt: 0x0100_0000_0000, phys: 0x70_0000, flags: PAGE_WRITABLE | PAGE_USER });
    assert_eq!(code, UserMapping { virt: 0x0200_0000_0000, phys: 0x10_2000, flags: PAGE_WRITABLE | PAGE_USER });
}

fn scheduler_with(pids: &[u64]) -> Scheduler {
    let mut s = Scheduler::new();
    for &p in pids {
        s.add_process(demo(p));
    }
    s
}

#[test]
fn add_process_fills_the_first_free_slot() {
    let mut s = scheduler_with(&[1, 2, 3]);
    assert_eq!(s.count, 3);
    assert_eq!(s.kill(2), KillResult::Killed);
    assert_eq!(s.processes[1].unwrap().state, ProcessState::Dead);
    assert!(s.processes[3].is_none());
    s.add_process(demo(4));
    assert_eq!(s.processes[3].unwrap().pid, 4);
}

#[test]
fn round_robin_visits_each_running_process() {
    let mut s = scheduler_with(&[1, 2, 3]);
    assert_eq!(s.schedule(), Some(1));
    assert_eq!(s.schedule(), Some(2));
    assert_eq!(s.schedule(), Some(0));
    s.kill(2);
    assert_eq!(s.schedule(), Some(2));
    assert_eq!(s.schedule(), Some(0));
}

#[test]
fn schedule_with_nothing_running_is_none() {
    let mut s = Scheduler::new();
    assert_eq!(s.schedule(), None);
    let mut s = scheduler_with(&[1]);
    s.kill(1);
    assert_eq!(s.schedule(), None);
    assert_eq!(s.current, 0);
}

#[test]
fn kill_results() {
    let mut s = scheduler_with(&[5]);
    assert_eq!(s.kill(6), KillResult::NoSuchPid);
    assert_eq!(s.kill(5), KillResult::Killed);
    assert_eq!(s.kill(5), KillResult::AlreadyDead);
}

fn regs() -> SavedRegs {
    SavedRegs {
        rax: 1, rbx: 2, rcx: 3, rdx: 4, rbp: 5, rsi: 6, rdi: 7, r8: 8, r9: 9, r10: 10, r11: 11, r12: 12,
        r13: 13, r14: 14, r15: 15,
    }
}

fn frame() -> IretFrame {
    IretFrame { rip: 0x1234, cs: 0x23, rflags: 0x202, rsp: 0x8000, ss: 0x1B }
}

#[test]
fn timer_switches_every_fifth_tick() {
    let mut s = scheduler_with(&[1, 2]);
    assert_eq!(timer_do_switch(&mut s, 4, true, &regs(), &frame()), None);
    assert_eq!(s.current, 0);
    assert_eq!(timer_do_switch(&mut s, 5, false, &regs(), &frame()), None);
    assert_eq!(timer_do_switch(&mut s, 5, true, &regs(), &frame()), Some(1));
    assert_eq!(s.current, 1);
    let saved = s.processes[0].unwrap().context;
    assert_eq!((saved.rax, saved.r15, saved.rip, saved.rsp, saved.cs, saved.ss), (1, 15, 0x1234, 0x8000, 0x23, 0x1B));
    assert_eq!(saved.cr3, 0x9000);
}

#[test]
fn timer_does_not_switch_to_the_current_process_alone() {
    let mut s = scheduler_with(&[1]);
    assert_eq!(timer_do_switch(&mut s, 10, true, &regs(), &frame()), None);
    // The registers are saved all the same.
    assert_eq!(s.processes[0].unwrap().context.rip, 0x1234);
}

#[test]
fn context_words_follow_the_switch_layout() {
    let p = Process::new(7, 0b11, 2, KERNEL_VIRT + 0x10_2345, 0x50_0008, 0x9000);
    let w = p.context.to_words();
    assert_eq!(w.len(), CONTEXT_WORDS);
    // rsp at 0x38, rip at 0x80, rflags at 0x88, cs at 0x90, ss at 0x98,
    // cr3 at 0xA0, the kernel stack at 0xA8.
    assert_eq!(w[0x38 / 8], p.user_stack);
    assert_eq!(w[0x80 / 8], 0x0200_0000_0345);
    assert_eq!(w[0x88 / 8], 0x202);
    assert_eq!(w[0x90 / 8], 0x23);
    assert_eq!(w[0x98 / 8], 0x1B);
    assert_eq!(w[0xA0 / 8], 0x9000);
    assert_eq!(w[0xA8 / 8], p.kernel_stack);
    assert_eq!(w[0], 0);
}

#[test]
fn timer_words_saved_then_laid_out_again() {
    let words: Vec<u64> = (100..100 + TIMER_FRAME_WORDS as u64).collect();
    let regs = SavedRegs::from_words(&words);
    let frame = IretFrame::from_words(&words[15..]);
    assert_eq!(regs.rax, 100);
    assert_eq!(regs.rbp, 104);
    assert_eq!(regs.rdi, 106);
    assert_eq!(regs.r15, 114);
    assert_eq!(frame, IretFrame { rip: 115, cs: 116, rflags: 117, rsp: 118, ss: 119 });
    let mut s = scheduler_with(&[1, 2]);
    let slot = timer_do_switch(&mut s, 5, true, &regs, &frame);
    assert_eq!(slot, Some(1));
    let w = s.processes[0].as_ref().unwrap().context.to_words();
    assert_eq!(
        w[..20].to_vec(),
        vec![100, 101, 102, 103, 105, 106, 104, 118, 107, 108, 109, 110, 111, 112, 113, 114, 115, 117, 116, 119]
    );
}

#[test]
fn resuming_a_process_loads_its_kernel_stack() {
    let s = scheduler_with(&[1, 2]);
    let mut tss = Tss::new();
    let w = tomorrow::scheduler::resume(&s, 1, &mut tss).unwrap();
    let p = s.processes[1].as_ref().unwrap();
    assert_eq!(tss.rsp0, p.kernel_stack);
    assert_eq!(w, p.context.to_words());
    let mut tss2 = Tss::new();
    assert_eq!(tomorrow::scheduler::resume(&s, 5, &mut tss2), None);
    assert_eq!(tss2.rsp0, 0);
}

#[test]
fn a_lap_of_round_robin_visits_each_running_process_once() {
    let mut s = scheduler_with(&[1, 2, 3, 4]);
    s.kill(3);
    let mut seen = Vec::new();
    for _ in 0..3 {
        let slot = s.schedule().unwrap();
        seen.push(s.processes[slot].as_ref().unwrap().pid);
    }
    seen.sort();
    assert_eq!(seen, vec![1, 2, 4]);
}
