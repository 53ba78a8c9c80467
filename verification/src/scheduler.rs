//! Round-robin scheduler over 64 process slots, and the decisions of the
//! timer interrupt.
use vstd::prelude::*;
use crate::process::{Process, ProcessState};
use crate::tss::Tss;

verus! {

/// Number of process slots.
pub const MAX_PROCS: usize = 64;

/// The timer switches processes every this many ticks.
pub const SWITCH_PERIOD: u64 = 5;

/// Saved registers of a process.
#[derive(Clone, Copy, PartialEq, Eq, Structural, Debug)]
pub struct Context {
    pub rax: u64,
    pub rbx: u64,
    pub rcx: u64,
    pub rdx: u64,
    pub rsi: u64,
    pub rdi: u64,
    pub rbp: u64,
    pub rsp: u64,
    pub r8: u64,
    pub r9: u64,
    pub r10: u64,
    pub r11: u64,
    pub r12: u64,
    pub r13: u64,
    pub r14: u64,
    pub r15: u64,
    /// Address of the next instruction.
    pub rip: u64,
    pub rflags: u64,
    pub cs: u64,
    pub ss: u64,
    pub cr3: u64,
    pub kernel_stack: u64,
}

/// The general registers the timer entry pushes, in push order.
#[derive(Clone, Copy, PartialEq, Eq, Structural, Debug)]
pub struct SavedRegs {
    pub rax: u64,
    pub rbx: u64,
    pub rcx: u64,
    pub rdx: u64,
    pub rbp: u64,
    pub rsi: u64,
    pub rdi: u64,
    pub r8: u64,
    pub r9: u64,
    pub r10: u64,
    pub r11: u64,
    pub r12: u64,
    pub r13: u64,
    pub r14: u64,
    pub r15: u64,
}

/// The frame the CPU pushes on an interrupt.
#[derive(Clone, Copy, PartialEq, Eq, Structural, Debug)]
pub struct IretFrame {
    pub rip: u64,
    pub cs: u64,
    pub rflags: u64,
    pub rsp: u64,
    pub ss: u64,
}

/// Words of a context as the switch code reads it: the sixteen general
/// registers (rax, rbx, rcx, rdx, rsi, rdi, rbp, rsp, r8 to r15), then
/// rip, rflags, cs, ss, cr3 and the kernel stack; word `i` lies at byte
/// `8 * i`.
pub const CONTEXT_WORDS: usize = 22;

/// Words the timer entry leaves below the CPU's frame: the fifteen saved
/// registers, then rip, cs, rflags, rsp and ss.
pub const TIMER_FRAME_WORDS: usize = 20;

/// The words of `c` in the order the switch code reads them.
pub open spec fn context_words(c: Context) -> Seq<u64> {
    seq![
        c.rax, c.rbx, c.rcx, c.rdx, c.rsi, c.rdi, c.rbp, c.rsp,
        c.r8, c.r9, c.r10, c.r11, c.r12, c.r13, c.r14, c.r15,
        c.rip, c.rflags, c.cs, c.ss, c.cr3, c.kernel_stack,
    ]
}

impl Context {
    /// The context laid out for the switch code.
    pub fn to_words(&self) -> (r: [u64; 22])
        ensures
            r@ == context_words(*self),
    {
        let r = [
            self.rax, self.rbx, self.rcx, self.rdx, self.rsi, self.rdi, self.rbp, self.rsp,
            self.r8, self.r9, self.r10, self.r11, self.r12, self.r13, self.r14, self.r15,
            self.rip, self.rflags, self.cs, self.ss, self.cr3, self.kernel_stack,
        ];
        assert(r@ =~= context_words(*self));
        r
    }
}

impl SavedRegs {
    /// The registers from the words the timer entry pushed, first pushed
    /// first: rax, rbx, rcx, rdx, rbp, rsi, rdi, r8 to r15.
    pub fn from_words(w: &[u64]) -> (r: Self)
        requires
            w@.len() >= 15,
        ensures
            r == (SavedRegs {
                rax: w@[0],
                rbx: w@[1],
                rcx: w@[2],
                rdx: w@[3],
                rbp: w@[4],
                rsi: w@[5],
                rdi: w@[6],
                r8: w@[7],
                r9: w@[8],
                r10: w@[9],
                r11: w@[10],
                r12: w@[11],
                r13: w@[12],
                r14: w@[13],
                r15: w@[14],
            }),
    {
        SavedRegs {
            rax: w[0],
            rbx: w[1],
            rcx: w[2],
            rdx: w[3],
            rbp: w[4],
            rsi: w[5],
            rdi: w[6],
            r8: w[7],
            r9: w[8],
            r10: w[9],
            r11: w[10],
            r12: w[11],
            r13: w[12],
            r14: w[13],
            r15: w[14],
        }
    }
}

impl IretFrame {
    /// The frame from the words the CPU pushed, lowest address first: rip,
    /// cs, rflags, rsp, ss.
    pub fn from_words(w: &[u64]) -> (r: Self)
        requires
            w@.len() >= 5,
        ensures
            r == (IretFrame { rip: w@[0], cs: w@[1], rflags: w@[2], rsp: w@[3], ss: w@[4] }),
    {
        IretFrame { rip: w[0], cs: w[1], rflags: w[2], rsp: w[3], ss: w[4] }
    }
}

/// Resume the process in `slot`: the CPU's kernel stack for traps from
/// ring 3 becomes the process's own, and the words of its context are
/// what the switch code loads.  `None`, with the TSS unchanged, for an
/// empty slot.
pub fn resume(sched: &Scheduler, slot: usize, tss: &mut Tss) -> (r: Option<[u64; 22]>)
    requires
        slot < sched.processes@.len(),
    ensures
        match sched.processes@[slot as int] {
            Some(p) => {
                &&& *final(tss) == (Tss { rsp0: p.kernel_stack, ..*old(tss) })
                &&& r matches Some(w) && w@ == context_words(p.context)
            },
            None => r is None && *final(tss) == *old(tss),
        },
{
    match &sched.processes[slot] {
        Some(p) => {
            tss.rsp0 = p.kernel_stack;
            Some(p.context.to_words())
        },
        None => None,
    }
}

/// Law: a context saved from the timer's words and laid out again puts each
/// interrupted register where the switch code looks for it.
pub proof fn law_saved_words(c: Context, w: Seq<u64>, regs: SavedRegs, frame: IretFrame)
    requires
        w.len() == TIMER_FRAME_WORDS,
        regs == (SavedRegs {
            rax: w[0],
            rbx: w[1],
            rcx: w[2],
            rdx: w[3],
            rbp: w[4],
            rsi: w[5],
            rdi: w[6],
            r8: w[7],
            r9: w[8],
            r10: w[9],
            r11: w[10],
            r12: w[11],
            r13: w[12],
            r14: w[13],
            r15: w[14],
        }),
        frame == (IretFrame { rip: w[15], cs: w[16], rflags: w[17], rsp: w[18], ss: w[19] }),
    ensures
        context_words(saved_context(c, regs, frame)) == seq![
            w[0], w[1], w[2], w[3], w[5], w[6], w[4], w[18],
            w[7], w[8], w[9], w[10], w[11], w[12], w[13], w[14],
            w[15], w[17], w[16], w[19], c.cr3, c.kernel_stack,
        ],
{
    assert(context_words(saved_context(c, regs, frame)) =~= seq![
            w[0], w[1], w[2], w[3], w[5], w[6], w[4], w[18],
            w[7], w[8], w[9], w[10], w[11], w[12], w[13], w[14],
            w[15], w[17], w[16], w[19], c.cr3, c.kernel_stack,
        ]);
}

/// `c` with the interrupted registers saved into it.
pub open spec fn saved_context(c: Context, regs: SavedRegs, frame: IretFrame) -> Context {
    Context {
        rax: regs.rax,
        rbx: regs.rbx,
        rcx: regs.rcx,
        rdx: regs.rdx,
        rbp: regs.rbp,
        rsi: regs.rsi,
        rdi: regs.rdi,
        r8: regs.r8,
        r9: regs.r9,
        r10: regs.r10,
        r11: regs.r11,
        r12: regs.r12,
        r13: regs.r13,
        r14: regs.r14,
        r15: regs.r15,
        rip: frame.rip,
        cs: frame.cs,
        rflags: frame.rflags,
        rsp: frame.rsp,
        ss: frame.ss,
        ..c
    }
}

/// Number of occupied slots among the first `n`.
pub open spec fn occupied(s: Seq<Option<Process>>, n: int) -> nat
    decreases n,
{
    if n <= 0 {
        0
    } else {
        occupied(s, n - 1) + if s[n - 1] is Some {
            1nat
        } else {
            0nat
        }
    }
}

/// Slot `i` holds a running process.
pub open spec fn runnable(s: Seq<Option<Process>>, i: int) -> bool {
    s[i] is Some && s[i]->0.state == ProcessState::Running
}

/// The slot `k + 1` places after `cur`, cyclically.
pub open spec fn next_slot(cur: int, k: int) -> int {
    (cur + 1 + k) % (MAX_PROCS as int)
}

/// Some slot among the `bound` slots after `cur` is runnable.
pub open spec fn has_runnable_after(s: Seq<Option<Process>>, cur: int, bound: int) -> bool {
    exists|k: int| 0 <= k < bound && #[trigger] runnable(s, next_slot(cur, k))
}

/// How many places after `cur` the first runnable slot lies.
pub open spec fn first_runnable_offset(s: Seq<Option<Process>>, cur: int, bound: int) -> int {
    choose|k: int|
        0 <= k < bound && runnable(s, next_slot(cur, k)) && forall|j: int|
            0 <= j < k ==> !#[trigger] runnable(s, next_slot(cur, j))
}

/// The slot that round robin picks after `cur`: the first runnable slot
/// after it, `cur` itself coming last.
pub open spec fn rr_pick(s: Seq<Option<Process>>, cur: int) -> Option<int> {
    if has_runnable_after(s, cur, 64) {
        Some(next_slot(cur, first_runnable_offset(s, cur, 64)))
    } else {
        None
    }
}

/// The slot the timer switches to from `cur`: the first runnable slot
/// after it, not counting `cur` itself.
pub open spec fn timer_pick(s: Seq<Option<Process>>, cur: int) -> Option<int> {
    if has_runnable_after(s, cur, 63) {
        Some(next_slot(cur, first_runnable_offset(s, cur, 63)))
    } else {
        None
    }
}

/// The first free slot.
pub open spec fn first_empty(s: Seq<Option<Process>>) -> int {
    choose|i: int| 0 <= i < s.len() && s[i] is None && forall|j: int| 0 <= j < i ==> #[trigger] s[j] is Some
}

proof fn lemma_first_offset(s: Seq<Option<Process>>, cur: int, bound: int, n: int)
    requires
        0 <= n <= bound,
        exists|k: int| 0 <= k < n && #[trigger] runnable(s, next_slot(cur, k)),
    ensures
        exists|k: int|
            0 <= k < n && runnable(s, next_slot(cur, k)) && forall|j: int|
                0 <= j < k ==> !#[trigger] runnable(s, next_slot(cur, j)),
    decreases n,
{
    if exists|k: int| 0 <= k < n - 1 && #[trigger] runnable(s, next_slot(cur, k)) {
        lemma_first_offset(s, cur, bound, n - 1);
    } else {
        assert(runnable(s, next_slot(cur, n - 1)));
        assert forall|j: int| 0 <= j < n - 1 implies !#[trigger] runnable(s, next_slot(cur, j)) by {}
    }
}

/// `first_runnable_offset` names the first runnable slot.
pub proof fn lemma_first_runnable(s: Seq<Option<Process>>, cur: int, bound: int)
    requires
        has_runnable_after(s, cur, bound),
    ensures
        0 <= first_runnable_offset(s, cur, bound) < bound,
        runnable(s, next_slot(cur, first_runnable_offset(s, cur, bound))),
        forall|j: int|
            0 <= j < first_runnable_offset(s, cur, bound) ==> !#[trigger] runnable(s, next_slot(cur, j)),
{
    lemma_first_offset(s, cur, bound, bound);
}

proof fn lemma_occupied_full(s: Seq<Option<Process>>, n: int)
    requires
        0 <= n <= s.len(),
        forall|i: int| 0 <= i < n ==> #[trigger] s[i] is Some,
    ensures
        occupied(s, n) == n,
    decreases n,
{
    if n > 0 {
        lemma_occupied_full(s, n - 1);
    }
}

proof fn lemma_occupied_bound(s: Seq<Option<Process>>, n: int)
    requires
        0 <= n,
    ensures
        occupied(s, n) <= n,
    decreases n,
{
    if n > 0 {
        lemma_occupied_bound(s, n - 1);
    }
}

proof fn lemma_occupied_update(s: Seq<Option<Process>>, i: int, v: Option<Process>, n: int)
    requires
        0 <= i < s.len(),
        0 <= n <= s.len(),
    ensures
        n <= i ==> occupied(s.update(i, v), n) == occupied(s, n),
        n > i ==> occupied(s.update(i, v), n) + (if s[i] is Some { 1int } else { 0int }) == occupied(s, n)
            + (if v is Some { 1int } else { 0int }),
    decreases n,
{
    if n > 0 {
        lemma_occupied_update(s, i, v, n - 1);
    }
}

proof fn lemma_first_empty_exists(s: Seq<Option<Process>>, n: int)
    requires
        0 <= n <= s.len(),
        exists|i: int| 0 <= i < n && #[trigger] s[i] is None,
    ensures
        exists|i: int| 0 <= i < n && s[i] is None && forall|j: int| 0 <= j < i ==> #[trigger] s[j] is Some,
    decreases n,
{
    if exists|i: int| 0 <= i < n - 1 && #[trigger] s[i] is None {
        lemma_first_empty_exists(s, n - 1);
    } else {
        assert(s[n - 1] is None);
        assert forall|j: int| 0 <= j < n - 1 implies #[trigger] s[j] is Some by {}
    }
}

/// Outcome of killing a process by pid.
#[derive(Clone, Copy, PartialEq, Eq, Structural, Debug)]
pub enum KillResult {
    NoSuchPid,
    AlreadyDead,
    Killed,
}

/// The first slot holding a process with `pid`.
pub open spec fn first_with_pid(s: Seq<Option<Process>>, pid: u64) -> int {
    choose|i: int|
        0 <= i < s.len() && s[i] is Some && s[i]->0.pid == pid && forall|j: int|
            0 <= j < i ==> !(#[trigger] s[j] is Some && s[j]->0.pid == pid)
}

pub open spec fn has_pid(s: Seq<Option<Process>>, pid: u64) -> bool {
    exists|i: int| 0 <= i < s.len() && #[trigger] s[i] is Some && s[i]->0.pid == pid
}

/// What killing `pid` answers and leaves in the slots: the first process
/// with that pid is marked dead, unless it already is.
pub open spec fn spec_kill(s: Seq<Option<Process>>, pid: u64) -> (KillResult, Seq<Option<Process>>) {
    if !has_pid(s, pid) {
        (KillResult::NoSuchPid, s)
    } else {
        let i = first_with_pid(s, pid);
        let p = s[i]->0;
        if p.state == ProcessState::Dead {
            (KillResult::AlreadyDead, s)
        } else {
            (KillResult::Killed, s.update(i, Some(Process { state: ProcessState::Dead, ..p })))
        }
    }
}

pub struct Scheduler {
    pub processes: Vec<Option<Process>>,
    /// Slot of the current process.
    pub current: usize,
    /// Number of occupied slots.
    pub count: usize,
}

impl Scheduler {
    pub open spec fn wf(&self) -> bool {
        &&& self.processes@.len() == MAX_PROCS
        &&& self.current < MAX_PROCS
        &&& self.count == occupied(self.processes@, MAX_PROCS as int)
    }

    /// An empty scheduler.
    pub fn new() -> (r: Self)
        ensures
            r.wf(),
            r.current == 0,
            r.count == 0,
            forall|i: int| 0 <= i < MAX_PROCS ==> #[trigger] r.processes@[i] is None,
    {
        let mut processes: Vec<Option<Process>> = Vec::new();
        let mut i: usize = 0;
        while i < MAX_PROCS
            invariant
                i <= MAX_PROCS,
                processes@.len() == i,
                forall|j: int| 0 <= j < i ==> #[trigger] processes@[j] is None,
                occupied(processes@, i as int) == 0,
            decreases MAX_PROCS - i,
        {
            let ghost old_p = processes@;
            processes.push(None);
            proof {
                assert forall|n: int| 0 <= n <= i implies occupied(processes@, n) == occupied(old_p, n) by {
                    lemma_occupied_prefix(processes@, old_p, n);
                }
            }
            i += 1;
        }
        Scheduler { processes, current: 0, count: 0 }
    }

    /// Put `process` into the first free slot.
    pub fn add_process(&mut self, process: Process)
        requires
            old(self).wf(),
            old(self).count < MAX_PROCS,
        ensures
            final(self).wf(),
            ({
                let i = first_empty(old(self).processes@);
                &&& 0 <= i < MAX_PROCS
                &&& final(self).processes@ == old(self).processes@.update(i, Some(process))
            }),
            final(self).count == old(self).count + 1,
            final(self).current == old(self).current,
    {
        proof {
            if forall|i: int| 0 <= i < MAX_PROCS ==> #[trigger] self.processes@[i] is Some {
                lemma_occupied_full(self.processes@, MAX_PROCS as int);
            }
            let w = choose|i: int| 0 <= i < MAX_PROCS && !(#[trigger] self.processes@[i] is Some);
            assert(self.processes@[w] is None);
            lemma_first_empty_exists(self.processes@, MAX_PROCS as int);
        }
        let ghost s0 = self.processes@;
        let mut i: usize = 0;
        while i < MAX_PROCS
            invariant
                self.processes@ == s0,
                s0 == old(self).processes@,
                self.wf(),
                self.count == old(self).count,
                self.current == old(self).current,
                self.count < MAX_PROCS,
                i <= MAX_PROCS,
                forall|j: int| 0 <= j < i ==> #[trigger] s0[j] is Some,
                exists|k: int| 0 <= k < MAX_PROCS && s0[k] is None && forall|j: int| 0 <= j < k ==> #[trigger] s0[j] is Some,
            decreases MAX_PROCS - i,
        {
            if self.processes[i].is_none() {
                proof {
                    let k = first_empty(s0);
                    if k < i {
                        assert(s0[k] is Some);
                    }
                    if k > i {
                        assert(s0[i as int] is Some);
                    }
                    lemma_occupied_update(s0, i as int, Some(process), MAX_PROCS as int);
                }
                self.processes.set(i, Some(process));
                self.count = self.count + 1;
                return;
            }
            i += 1;
        }
        proof {
            let k = choose|k: int| 0 <= k < MAX_PROCS && s0[k] is None && forall|j: int| 0 <= j < k ==> #[trigger] s0[j] is Some;
            assert(s0[k] is Some);
        }
    }

    /// Pick the next running process after the current one, round robin
    /// (the current one comes last), and make it current.  Returns its slot.
    pub fn schedule(&mut self) -> (r: Option<usize>)
        requires
            old(self).wf(),
        ensures
            final(self).wf(),
            final(self).processes@ == old(self).processes@,
            final(self).count == old(self).count,
            r == (match rr_pick(old(self).processes@, old(self).current as int) {
                Some(i) => Some(i as usize),
                None => None::<usize>,
            }),
            final(self).current == (match r {
                Some(i) => i,
                None => old(self).current,
            }),
    {
        let ghost s = self.processes@;
        let ghost cur = self.current as int;
        let mut i: usize = 0;
        while i < MAX_PROCS
            invariant
                self.processes@ == s,
                self.current == cur,
                self.wf(),
                s == old(self).processes@,
                cur == old(self).current,
                self.count == old(self).count,
                i <= MAX_PROCS,
                forall|j: int| 0 <= j < i ==> !#[trigger] runnable(s, next_slot(cur, j)),
            decreases MAX_PROCS - i,
        {
            let idx = (self.current + 1 + i) % MAX_PROCS;
            let is_running = match &self.processes[idx] {
                Some(p) => p.state == ProcessState::Running,
                None => false,
            };
            if is_running {
                proof {
                    assert(runnable(s, next_slot(cur, i as int)));
                    lemma_first_runnable(s, cur, 64);
                    let k = first_runnable_offset(s, cur, 64);
                    if k < i {
                        assert(!runnable(s, next_slot(cur, k)));
                    }
                    if k > i {
                        assert(!runnable(s, next_slot(cur, i as int)));
                    }
                }
                self.current = idx;
                return Some(idx);
            }
            i += 1;
        }
        None
    }

    /// Mark the first process with `pid` dead.
    pub fn kill(&mut self, pid: u64) -> (r: KillResult)
        requires
            old(self).wf(),
        ensures
            final(self).wf(),
            final(self).count == old(self).count,
            final(self).current == old(self).current,
            (r, final(self).processes@) == spec_kill(old(self).processes@, pid),
            !has_pid(old(self).processes@, pid) ==> r == KillResult::NoSuchPid && final(self).processes@
                == old(self).processes@,
            has_pid(old(self).processes@, pid) ==> ({
                let i = first_with_pid(old(self).processes@, pid);
                let p = old(self).processes@[i]->0;
                &&& 0 <= i < MAX_PROCS
                &&& p.state == ProcessState::Dead ==> r == KillResult::AlreadyDead && final(self).processes@
                    == old(self).processes@
                &&& p.state != ProcessState::Dead ==> r == KillResult::Killed && final(self).processes@
                    == old(self).processes@.update(i, Some(Process { state: ProcessState::Dead, ..p }))
            }),
    {
        let ghost s = self.processes@;
        let mut i: usize = 0;
        while i < MAX_PROCS
            invariant
                self.processes@ == s,
                s == old(self).processes@,
                self.wf(),
                self.count == old(self).count,
                self.current == old(self).current,
                i <= MAX_PROCS,
                forall|j: int| 0 <= j < i ==> !(#[trigger] s[j] is Some && s[j]->0.pid == pid),
            decreases MAX_PROCS - i,
        {
            match self.processes[i] {
                Some(p) => {
                    if p.pid == pid {
                        proof {
                            let k = first_with_pid(s, pid);
                            assert(s[i as int] is Some && s[i as int]->0.pid == pid);
                            if k < i {
                                assert(!(s[k] is Some && s[k]->0.pid == pid));
                            }
                            if k > i {
                                assert(!(s[i as int] is Some && s[i as int]->0.pid == pid));
                            }
                        }
                        if p.state == ProcessState::Dead {
                            return KillResult::AlreadyDead;
                        }
                        proof {
                            lemma_occupied_update(s, i as int, Some(Process { state: ProcessState::Dead, ..p }), MAX_PROCS as int);
                        }
                        self.processes.set(i, Some(Process { state: ProcessState::Dead, ..p }));
                        return KillResult::Killed;
                    }
                },
                None => {},
            }
            i += 1;
        }
        KillResult::NoSuchPid
    }
}

proof fn lemma_occupied_prefix(a: Seq<Option<Process>>, b: Seq<Option<Process>>, n: int)
    requires
        0 <= n <= b.len(),
        b.len() <= a.len(),
        forall|i: int| 0 <= i < b.len() ==> a[i] == b[i],
    ensures
        occupied(a, n) == occupied(b, n),
    decreases n,
{
    if n > 0 {
        lemma_occupied_prefix(a, b, n - 1);
    }
}

/// Should the timer tick `ticks` switch processes?
pub open spec fn switch_due(ticks: u64, ready: bool) -> bool {
    ready && ticks % SWITCH_PERIOD == 0
}

/// Timer decision: on every fifth tick once scheduling has started, save
/// the interrupted registers into the current process and switch to the
/// next running process after it (not the current one itself).  Returns the
/// slot switched to, or `None` to resume the interrupted code.
pub fn timer_do_switch(
    sched: &mut Scheduler,
    ticks: u64,
    ready: bool,
    regs: &SavedRegs,
    frame: &IretFrame,
) -> (r: Option<usize>)
    requires
        old(sched).wf(),
    ensures
        final(sched).wf(),
        final(sched).count == old(sched).count,
        !switch_due(ticks, ready) ==> r is None && *final(sched) == *old(sched),
        switch_due(ticks, ready) ==> ({
            let cur = old(sched).current as int;
            let s = old(sched).processes@;
            let saved = match s[cur] {
                Some(p) => s.update(cur, Some(Process { context: saved_context(p.context, *regs, *frame), ..p })),
                None => s,
            };
            &&& final(sched).processes@ == saved
            &&& r == (match timer_pick(saved, cur) {
                Some(i) => Some(i as usize),
                None => None::<usize>,
            })
            &&& final(sched).current == (match r {
                Some(i) => i,
                None => old(sched).current,
            })
        }),
{
    if !ready || ticks % SWITCH_PERIOD != 0 {
        return None;
    }
    let current = sched.current;
    match sched.processes[current] {
        Some(p) => {
            let mut p = p;
            p.context.rax = regs.rax;
            p.context.rbx = regs.rbx;
            p.context.rcx = regs.rcx;
            p.context.rdx = regs.rdx;
            p.context.rbp = regs.rbp;
            p.context.rsi = regs.rsi;
            p.context.rdi = regs.rdi;
            p.context.r8 = regs.r8;
            p.context.r9 = regs.r9;
            p.context.r10 = regs.r10;
            p.context.r11 = regs.r11;
            p.context.r12 = regs.r12;
            p.context.r13 = regs.r13;
            p.context.r14 = regs.r14;
            p.context.r15 = regs.r15;
            p.context.rip = frame.rip;
            p.context.cs = frame.cs;
            p.context.rflags = frame.rflags;
            p.context.rsp = frame.rsp;
            p.context.ss = frame.ss;
            proof {
                lemma_occupied_update(sched.processes@, current as int, Some(p), MAX_PROCS as int);
            }
            sched.processes.set(current, Some(p));
        },
        None => {},
    }
    let ghost s = sched.processes@;
    let ghost cur = current as int;
    proof {
        let s0 = old(sched).processes@;
        let expected = match s0[cur] {
            Some(p) => s0.update(cur, Some(Process { context: saved_context(p.context, *regs, *frame), ..p })),
            None => s0,
        };
        assert(s =~= expected);
    }
    let mut i: usize = 1;
    while i < MAX_PROCS
        invariant
            switch_due(ticks, ready),
            cur == old(sched).current,
            s == (match old(sched).processes@[cur] {
                Some(p) => old(sched).processes@.update(cur, Some(Process { context: saved_context(p.context, *regs, *frame), ..p })),
                None => old(sched).processes@,
            }),
            sched.processes@ == s,
            sched.current == cur,
            current == cur,
            sched.wf(),
            sched.count == old(sched).count,
            1 <= i <= MAX_PROCS,
            forall|j: int| 0 <= j < i - 1 ==> !#[trigger] runnable(s, next_slot(cur, j)),
        decreases MAX_PROCS - i,
    {
        let idx = (current + i) % MAX_PROCS;
        let is_running = match &sched.processes[idx] {
            Some(p) => p.state == ProcessState::Running,
            None => false,
        };
        if is_running {
            proof {
                assert(next_slot(cur, i - 1) == idx);
                assert(runnable(s, next_slot(cur, i - 1)));
                lemma_first_runnable(s, cur, 63);
                let k = first_runnable_offset(s, cur, 63);
                if k < i - 1 {
                    assert(!runnable(s, next_slot(cur, k)));
                }
                if k > i - 1 {
                    assert(!runnable(s, next_slot(cur, i - 1)));
                }
            }
            sched.current = idx;
            return Some(idx);
        }
        proof {
            assert(next_slot(cur, i - 1) == idx);
        }
        i += 1;
    }
    None
}

/// The slot after `n` rounds of round robin from `cur`.
pub open spec fn rr_iterate(s: Seq<Option<Process>>, cur: int, n: nat) -> int
    decreases n,
{
    if n == 0 {
        cur
    } else {
        match rr_pick(s, rr_iterate(s, cur, (n - 1) as nat)) {
            Some(i) => i,
            None => rr_iterate(s, cur, (n - 1) as nat),
        }
    }
}

/// Cyclic distance from the slot after `a` to `b`.
pub open spec fn cyc_dist(a: int, b: int) -> int {
    (b - a - 1 + 128) % 64
}

proof fn lemma_cyc(cur: int, j: int, k: int)
    requires
        0 <= cur < 64,
        0 <= j < 64,
        0 <= k <= cyc_dist(cur, j),
    ensures
        0 <= cyc_dist(cur, j) < 64,
        next_slot(cur, cyc_dist(cur, j)) == j,
        0 <= next_slot(cur, k) < 64,
        k < cyc_dist(cur, j) ==> cyc_dist(next_slot(cur, k), j) == cyc_dist(cur, j) - k - 1,
{
    if j > cur {
        assert(cyc_dist(cur, j) == j - cur - 1);
    } else {
        assert(cyc_dist(cur, j) == j - cur - 1 + 64);
    }
    let c1 = next_slot(cur, k);
    if cur + 1 + k < 64 {
        assert(c1 == cur + 1 + k);
    } else {
        assert(c1 == cur + 1 + k - 64);
    }
}

/// Law: round robin is fair: while the slots do not change, every running
/// process is picked within `d + 1` rounds, where `d` is how many slots
/// after the current one it lies (at most 64 rounds).
pub proof fn law_round_robin_fair(s: Seq<Option<Process>>, cur: int, j: int)
    requires
        s.len() == MAX_PROCS,
        0 <= cur < 64,
        0 <= j < 64,
        runnable(s, j),
    ensures
        exists|n: nat| 1 <= n <= cyc_dist(cur, j) + 1 && #[trigger] rr_iterate(s, cur, n) == j,
    decreases cyc_dist(cur, j),
{
    let d = cyc_dist(cur, j);
    lemma_cyc(cur, j, 0);
    assert(next_slot(cur, d) == j);
    assert(runnable(s, next_slot(cur, d)));
    assert(has_runnable_after(s, cur, 64));
    lemma_first_runnable(s, cur, 64);
    let k = first_runnable_offset(s, cur, 64);
    assert(k <= d) by {
        if k > d {
            assert(!runnable(s, next_slot(cur, d)));
        }
    }
    lemma_cyc(cur, j, k);
    let c1 = next_slot(cur, k);
    assert(rr_iterate(s, cur, 1) == c1) by {
        assert(rr_iterate(s, cur, 0) == cur);
    }
    if k == d {
        assert(rr_iterate(s, cur, 1) == j);
    } else {
        assert(cyc_dist(c1, j) == d - k - 1);
        law_round_robin_fair(s, c1, j);
        let n = choose|n: nat| 1 <= n <= cyc_dist(c1, j) + 1 && #[trigger] rr_iterate(s, c1, n) == j;
        lemma_rr_iterate_shift(s, cur, n);
        assert(rr_iterate(s, cur, n + 1) == j);
    }
}

/// Running `n + 1` rounds from `cur` is running `n` rounds from the slot
/// the first round picks.
proof fn lemma_rr_iterate_shift(s: Seq<Option<Process>>, cur: int, n: nat)
    requires
        rr_pick(s, cur) is Some,
    ensures
        rr_iterate(s, cur, n + 1) == rr_iterate(s, rr_pick(s, cur)->0, n),
    decreases n,
{
    if n == 0 {
        assert(rr_iterate(s, cur, 0) == cur);
    } else {
        lemma_rr_iterate_shift(s, cur, (n - 1) as nat);
    }
}

/// How many of the `m` slots after `cur` (in cyclic order) hold a running
/// process.
pub open spec fn running_within(s: Seq<Option<Process>>, cur: int, m: int) -> nat
    decreases m,
{
    if m <= 0 {
        0
    } else {
        running_within(s, cur, m - 1) + if runnable(s, next_slot(cur, m - 1)) {
            1nat
        } else {
            0nat
        }
    }
}

/// The slot `o` places after `cur` lies `o` places after it.
proof fn lemma_offset_back(cur: int, o: int)
    requires
        0 <= cur < 64,
        0 <= o < 64,
    ensures
        0 <= next_slot(cur, o) < 64,
        cyc_dist(cur, next_slot(cur, o)) == o,
{
    if cur + 1 + o < 64 {
        assert(next_slot(cur, o) == cur + 1 + o);
    } else {
        assert(next_slot(cur, o) == cur + 1 + o - 64);
    }
}

/// Going `t + 1` places on from `o` places after `cur`.
proof fn lemma_offset_add(cur: int, o: int, t: int)
    requires
        0 <= cur < 64,
        0 <= o < 64,
        0 <= t < 64,
    ensures
        next_slot(next_slot(cur, o), t) == next_slot(cur, o + 1 + t),
{
    let x = next_slot(cur, o);
    if cur + 1 + o < 64 {
        assert(x == cur + 1 + o);
    } else {
        assert(x == cur + 1 + o - 64);
    }
}

proof fn lemma_running_mono(s: Seq<Option<Process>>, cur: int, a: int, b: int)
    requires
        0 <= a <= b,
    ensures
        running_within(s, cur, a) <= running_within(s, cur, b),
        (forall|d: int| a <= d < b ==> !#[trigger] runnable(s, next_slot(cur, d))) ==> running_within(s, cur, a)
            == running_within(s, cur, b),
    decreases b - a,
{
    if a < b {
        lemma_running_mono(s, cur, a, b - 1);
    }
}

/// The `n`-th round from `cur` picks the `n`-th running slot after `cur`,
/// at `o` places after it.
proof fn lemma_rr_nth(s: Seq<Option<Process>>, cur: int, n: nat) -> (o: int)
    requires
        s.len() == MAX_PROCS,
        0 <= cur < 64,
        1 <= n <= running_within(s, cur, 64),
    ensures
        0 <= o < 64,
        rr_iterate(s, cur, n) == next_slot(cur, o),
        runnable(s, next_slot(cur, o)),
        running_within(s, cur, o + 1) == n,
    decreases n,
{
    if n == 1 {
        assert(has_runnable_after(s, cur, 64)) by {
            if !has_runnable_after(s, cur, 64) {
                assert forall|d: int| 0 <= d < 64 implies !#[trigger] runnable(s, next_slot(cur, d)) by {
                    assert(!runnable(s, next_slot(cur, d)));
                }
                lemma_running_mono(s, cur, 0, 64);
            }
        }
        lemma_first_runnable(s, cur, 64);
        let f = first_runnable_offset(s, cur, 64);
        assert(rr_iterate(s, cur, 0) == cur);
        assert(rr_iterate(s, cur, 1) == next_slot(cur, f));
        lemma_running_mono(s, cur, 0, f);
        f
    } else {
        let o = lemma_rr_nth(s, cur, (n - 1) as nat);
        let x = next_slot(cur, o);
        lemma_offset_back(cur, o);
        // A running slot lies after offset `o`.
        assert(exists|d: int| o + 1 <= d < 64 && #[trigger] runnable(s, next_slot(cur, d))) by {
            if !exists|d: int| o + 1 <= d < 64 && #[trigger] runnable(s, next_slot(cur, d)) {
                lemma_running_mono(s, cur, o + 1, 64);
            }
        }
        let d = choose|d: int| o + 1 <= d < 64 && #[trigger] runnable(s, next_slot(cur, d));
        lemma_offset_add(cur, o, d - o - 1);
        assert(runnable(s, next_slot(x, d - o - 1)));
        assert(has_runnable_after(s, x, 64));
        lemma_first_runnable(s, x, 64);
        let f = first_runnable_offset(s, x, 64);
        assert(f <= d - o - 1) by {
            if f > d - o - 1 {
                assert(!runnable(s, next_slot(x, d - o - 1)));
            }
        }
        let o2 = o + 1 + f;
        lemma_offset_add(cur, o, f);
        assert(rr_iterate(s, cur, n) == next_slot(x, f));
        assert forall|e: int| o + 1 <= e < o2 implies !#[trigger] runnable(s, next_slot(cur, e)) by {
            lemma_offset_add(cur, o, e - o - 1);
            assert(!runnable(s, next_slot(x, e - o - 1)));
        }
        lemma_running_mono(s, cur, o + 1, o2);
        o2
    }
}

/// Law: round robin visits each running process exactly once per lap:
/// with `k` running processes (counted over the 64 slots after `cur`, that
/// is over all of them), `k` rounds from `cur` pick only running slots, no
/// slot twice, and every running slot.
pub proof fn law_round_robin_each_once(s: Seq<Option<Process>>, cur: int)
    requires
        s.len() == MAX_PROCS,
        0 <= cur < 64,
    ensures
        forall|n: nat| 1 <= n <= running_within(s, cur, 64) ==> runnable(s, #[trigger] rr_iterate(s, cur, n)),
        forall|a: nat, b: nat|
            1 <= a < b <= running_within(s, cur, 64) ==> #[trigger] rr_iterate(s, cur, a) != #[trigger] rr_iterate(
                s,
                cur,
                b,
            ),
        forall|j: int|
            0 <= j < 64 && #[trigger] runnable(s, j) ==> exists|n: nat|
                1 <= n <= running_within(s, cur, 64) && rr_iterate(s, cur, n) == j,
{
    let k = running_within(s, cur, 64);
    assert forall|n: nat| 1 <= n <= k implies runnable(s, #[trigger] rr_iterate(s, cur, n)) by {
        let _ = lemma_rr_nth(s, cur, n);
    }
    assert forall|a: nat, b: nat| 1 <= a < b <= k implies #[trigger] rr_iterate(s, cur, a) != #[trigger] rr_iterate(
        s,
        cur,
        b,
    ) by {
        let oa = lemma_rr_nth(s, cur, a);
        let ob = lemma_rr_nth(s, cur, b);
        lemma_offset_back(cur, oa);
        lemma_offset_back(cur, ob);
        if oa == ob {
            assert(running_within(s, cur, oa + 1) == running_within(s, cur, ob + 1));
        }
    }
    assert forall|j: int| 0 <= j < 64 && #[trigger] runnable(s, j) implies exists|n: nat|
        1 <= n <= k && rr_iterate(s, cur, n) == j by {
        let d = cyc_dist(cur, j);
        lemma_cyc(cur, j, 0);
        let c = running_within(s, cur, d + 1);
        assert(running_within(s, cur, d + 1) == running_within(s, cur, d) + 1);
        lemma_running_mono(s, cur, d + 1, 64);
        let o = lemma_rr_nth(s, cur, c);
        if o < d {
            lemma_running_mono(s, cur, o + 1, d);
        } else if o > d {
            lemma_running_mono(s, cur, d + 1, o);
            assert(running_within(s, cur, o + 1) == running_within(s, cur, o) + 1);
        }
        assert(o == d);
        assert(rr_iterate(s, cur, c) == j);
    }
}

} // verus!
