//! The kernel shell: line editing, command parsing, and the text of the
//! commands' answers.
use vstd::prelude::*;
use vstd::string::StringSliceAdditionalSpecFns;
use crate::fmt::{dec_digits, dec_value, all_dec, dec_text, lemma_dec_digits, lemma_dec_digits_u64};
use crate::console::{Console, ConsoleOp, spec_write_bytes};
use crate::process::ProcessState;
use crate::scheduler::{Scheduler, KillResult, MAX_PROCS, first_empty};
use crate::process::Process;
use crate::mmio::PortWrite;

verus! {

pub const PROMPT: &'static str = "User@Tomorrow> ";

/// Capacity of the line buffer.
pub const BUF_LEN: usize = 128;

/// Enter.
pub const KEY_ENTER: u8 = 10;

/// Backspace.
pub const KEY_BACKSPACE: u8 = 8;

/// Space.
pub const SPACE: u8 = 32;

/// Tab.
pub const TAB: u8 = 9;

// ---------------------------------------------------------------------------
// Byte-slice helpers
// ---------------------------------------------------------------------------

/// Append the bytes of `s` to `v`.
pub fn push_bytes(v: &mut Vec<u8>, s: &[u8])
    ensures
        final(v)@ == old(v)@ + s@,
{
    let mut i: usize = 0;
    while i < s.len()
        invariant
            i <= s@.len(),
            v@ == old(v)@ + s@.subrange(0, i as int),
        decreases s@.len() - i,
    {
        v.push(s[i]);
        i += 1;
        assert(v@ =~= old(v)@ + s@.subrange(0, i as int));
    }
    assert(s@.subrange(0, s@.len() as int) =~= s@);
}

/// The two byte strings are equal.
pub fn eq(a: &[u8], b: &[u8]) -> (r: bool)
    ensures
        r == (a@ == b@),
{
    if a.len() != b.len() {
        return false;
    }
    let mut i: usize = 0;
    while i < a.len()
        invariant
            a@.len() == b@.len(),
            i <= a@.len(),
            forall|j: int| 0 <= j < i ==> a@[j] == b@[j],
        decreases a@.len() - i,
    {
        if a[i] != b[i] {
            return false;
        }
        i += 1;
    }
    assert(a@ =~= b@);
    true
}

/// A space or a tab.
pub open spec fn blank(c: u8) -> bool {
    c == SPACE || c == TAB
}

/// `s` without its leading and trailing blanks is `s[lo..hi]`.
pub open spec fn trimmed_at(s: Seq<u8>, lo: int, hi: int) -> bool {
    &&& 0 <= lo <= hi <= s.len()
    &&& forall|i: int| 0 <= i < lo ==> #[trigger] blank(s[i])
    &&& forall|i: int| hi <= i < s.len() ==> #[trigger] blank(s[i])
    &&& lo < hi ==> !blank(s[lo]) && !blank(s[hi - 1])
}

/// Strip leading and trailing spaces and tabs.
pub fn trim(s: &[u8]) -> (r: &[u8])
    ensures
        exists|lo: int, hi: int| trimmed_at(s@, lo, hi) && r@ == s@.subrange(lo, hi),
{
    let mut lo: usize = 0;
    while lo < s.len() && (s[lo] == SPACE || s[lo] == TAB)
        invariant
            lo <= s@.len(),
            forall|i: int| 0 <= i < lo ==> #[trigger] blank(s@[i]),
        decreases s@.len() - lo,
    {
        lo += 1;
    }
    let mut hi: usize = s.len();
    while hi > lo && (s[hi - 1] == SPACE || s[hi - 1] == TAB)
        invariant
            lo <= hi <= s@.len(),
            forall|i: int| hi <= i < s@.len() ==> #[trigger] blank(s@[i]),
        decreases hi,
    {
        hi -= 1;
    }
    assert(trimmed_at(s@, lo as int, hi as int));
    &s[lo..hi]
}

/// The trimmed form of a byte string is unique.
pub proof fn lemma_trimmed_unique(s: Seq<u8>, lo1: int, hi1: int, lo2: int, hi2: int)
    requires
        trimmed_at(s, lo1, hi1),
        trimmed_at(s, lo2, hi2),
    ensures
        s.subrange(lo1, hi1) == s.subrange(lo2, hi2),
{
    if lo1 < hi1 && lo2 < hi2 {
        assert(lo1 == lo2) by {
            if lo1 < lo2 {
                assert(blank(s[lo1]));
            }
            if lo2 < lo1 {
                assert(blank(s[lo2]));
            }
        }
        assert(hi1 == hi2) by {
            if hi1 < hi2 {
                assert(blank(s[hi2 - 1]));
            }
            if hi2 < hi1 {
                assert(blank(s[hi1 - 1]));
            }
        }
    } else if lo1 < hi1 {
        assert(blank(s[lo1])) by {
            if lo1 < lo2 {
            } else {
                assert(lo1 >= hi2);
            }
        }
    } else if lo2 < hi2 {
        assert(blank(s[lo2])) by {
            if lo2 < lo1 {
            } else {
                assert(lo2 >= hi1);
            }
        }
    }
    assert(s.subrange(lo1, hi1) =~= s.subrange(lo2, hi2));
}

/// The trimmed form of `s`.
pub open spec fn spec_trim(s: Seq<u8>) -> Seq<u8> {
    let (lo, hi) = choose|lo: int, hi: int| trimmed_at(s, lo, hi);
    s.subrange(lo, hi)
}

proof fn lemma_trim_spec(s: Seq<u8>, r: Seq<u8>)
    requires
        exists|lo: int, hi: int| trimmed_at(s, lo, hi) && r == s.subrange(lo, hi),
    ensures
        r == spec_trim(s),
{
    let (lo, hi) = choose|lo: int, hi: int| trimmed_at(s, lo, hi) && r == s.subrange(lo, hi);
    let (lo2, hi2) = choose|lo: int, hi: int| trimmed_at(s, lo, hi);
    lemma_trimmed_unique(s, lo, hi, lo2, hi2);
}

/// Position of the first space, if any.
pub open spec fn first_space(s: Seq<u8>) -> Option<int> {
    if exists|i: int| 0 <= i < s.len() && s[i] == SPACE {
        Some(choose|i: int| 0 <= i < s.len() && s[i] == SPACE && forall|j: int| 0 <= j < i ==> s[j] != SPACE)
    } else {
        None
    }
}

/// The first word and the trimmed rest of a line.
pub open spec fn spec_split_first_word(s: Seq<u8>) -> (Seq<u8>, Seq<u8>) {
    match first_space(s) {
        Some(i) => (s.subrange(0, i), spec_trim(s.subrange(i + 1, s.len() as int))),
        None => (s, Seq::empty()),
    }
}

/// Split a line at its first space: the command word and its arguments
/// (trimmed).  Without a space the whole line is the word.
pub fn split_first_word(s: &[u8]) -> (r: (&[u8], &[u8]))
    ensures
        (r.0@, r.1@) == spec_split_first_word(s@),
{
    let mut i: usize = 0;
    while i < s.len()
        invariant
            i <= s@.len(),
            forall|j: int| 0 <= j < i ==> s@[j] != SPACE,
        decreases s@.len() - i,
    {
        if s[i] == SPACE {
            proof {
                let k = choose|k: int| 0 <= k < s@.len() && s@[k] == SPACE && forall|j: int| 0 <= j < k ==> s@[j] != SPACE;
                if k < i {
                    assert(s@[k] != SPACE);
                }
                if k > i {
                    assert(s@[i as int] != SPACE);
                }
            }
            let rest = trim(&s[i + 1..s.len()]);
            proof {
                lemma_trim_spec(s@.subrange(i + 1, s@.len() as int), rest@);
            }
            return (&s[0..i], rest);
        }
        i += 1;
    }
    let empty: &[u8] = &[];
    assert(empty@ =~= Seq::<u8>::empty());
    (s, empty)
}

// ---------------------------------------------------------------------------
// Numbers
// ---------------------------------------------------------------------------

/// Every prefix of a digit string spells at most what the whole string does.
proof fn lemma_dec_value_prefix(s: Seq<u8>, i: int)
    requires
        all_dec(s),
        0 <= i <= s.len(),
    ensures
        0 <= dec_value(s.subrange(0, i)) <= dec_value(s),
    decreases s.len() - i,
{
    if i < s.len() {
        lemma_dec_value_prefix(s, i + 1);
        let t = s.subrange(0, i + 1);
        assert(t.drop_last() =~= s.subrange(0, i));
        assert(dec_value(t) == dec_value(t.drop_last()) * 10 + (t.last() - 48));
        lemma_dec_value_nonneg(s.subrange(0, i));
    } else {
        assert(s.subrange(0, i) =~= s);
        lemma_dec_value_nonneg(s);
    }
}

proof fn lemma_dec_value_nonneg(s: Seq<u8>)
    requires
        all_dec(s),
    ensures
        dec_value(s) >= 0,
    decreases s.len(),
{
    if s.len() > 0 {
        lemma_dec_value_nonneg(s.drop_last());
    }
}

/// Parse a decimal number: `None` when the string is empty, holds a byte
/// that is not a digit, or spells a number that does not fit a `u64`.
pub fn parse_dec(s: &[u8]) -> (r: Option<u64>)
    ensures
        r == spec_parse_dec(s@),
{
    if s.len() == 0 {
        return None;
    }
    let mut n: u64 = 0;
    let mut i: usize = 0;
    while i < s.len()
        invariant
            i <= s@.len(),
            all_dec(s@.subrange(0, i as int)),
            n == dec_value(s@.subrange(0, i as int)),
        decreases s@.len() - i,
    {
        let c = s[i];
        let t = Ghost(s@.subrange(0, i + 1));
        proof {
            assert(t@.drop_last() =~= s@.subrange(0, i as int));
            assert(t@.last() == c);
        }
        if !(48 <= c && c <= 57) {
            proof {
                assert(!(48 <= s@[i as int] <= 57));
            }
            return None;
        }
        let m = match n.checked_mul(10) {
            Some(m) => m,
            None => {
                proof {
                    if all_dec(s@) {
                        lemma_dec_value_prefix(s@, i + 1);
                    }
                }
                return None;
            },
        };
        let v = match m.checked_add((c - 48) as u64) {
            Some(v) => v,
            None => {
                proof {
                    if all_dec(s@) {
                        lemma_dec_value_prefix(s@, i + 1);
                    }
                }
                return None;
            },
        };
        n = v;
        i += 1;
    }
    assert(s@.subrange(0, s@.len() as int) =~= s@);
    Some(n)
}

/// Law: parsing the decimal text of a number gives the number back.
pub proof fn law_parse_dec_round_trip(v: u64)
    ensures
        dec_digits(v as nat).len() > 0,
        all_dec(dec_digits(v as nat)),
        dec_value(dec_digits(v as nat)) == v,
{
    lemma_dec_digits(v as nat);
}

// ---------------------------------------------------------------------------
// Line editing
// ---------------------------------------------------------------------------

/// What the shell makes of a character.
#[derive(Clone, PartialEq, Eq, Debug)]
pub enum LineEvent {
    /// The shell is not ready, or the line is full: nothing happens.
    Ignored,
    /// The character was added to the line: echo it.
    Echo(u8),
    /// The last character was removed: erase it on screen.
    Erase,
    /// Enter: echo a newline, run the line, show the prompt.
    Submit(Vec<u8>),
}

/// The line after one key is typed into `line`: Enter starts a new line,
/// Backspace drops the last character, and any other character is added
/// while the line has room.
pub open spec fn spec_key(line: Seq<u8>, ch: u8) -> Seq<u8> {
    if ch == KEY_ENTER {
        Seq::empty()
    } else if ch == KEY_BACKSPACE {
        if line.len() > 0 {
            line.drop_last()
        } else {
            line
        }
    } else if line.len() < BUF_LEN {
        line.push(ch)
    } else {
        line
    }
}

/// The line after the keys `keys` are typed into `line`, in order.
pub open spec fn spec_keys(line: Seq<u8>, keys: Seq<u8>) -> Seq<u8>
    decreases keys.len(),
{
    if keys.len() == 0 {
        line
    } else {
        spec_key(spec_keys(line, keys.drop_last()), keys.last())
    }
}

/// Law: characters typed into an empty line, none of them Enter or
/// Backspace and no more than the line holds, make up the line that the
/// next Enter submits.
pub proof fn law_typed_line_is_submitted(keys: Seq<u8>)
    requires
        keys.len() <= BUF_LEN,
        forall|i: int| 0 <= i < keys.len() ==> #[trigger] keys[i] != KEY_ENTER && keys[i] != KEY_BACKSPACE,
    ensures
        spec_keys(Seq::empty(), keys) == keys,
    decreases keys.len(),
{
    if keys.len() > 0 {
        let init = keys.drop_last();
        assert forall|i: int| 0 <= i < init.len() implies #[trigger] init[i] != KEY_ENTER && init[i]
            != KEY_BACKSPACE by {
            assert(init[i] == keys[i]);
        }
        law_typed_line_is_submitted(init);
        assert(keys.last() == keys[keys.len() - 1]);
        assert(init.push(keys.last()) =~= keys);
    }
}

/// Law: Backspace takes back a character just typed into a line with room.
pub proof fn law_backspace_undoes_key(line: Seq<u8>, ch: u8)
    requires
        line.len() < BUF_LEN,
        ch != KEY_ENTER,
        ch != KEY_BACKSPACE,
    ensures
        spec_key(spec_key(line, ch), KEY_BACKSPACE) == line,
{
    assert(line.push(ch).drop_last() =~= line);
}

/// The line being typed.
pub struct Shell {
    line: Vec<u8>,
    ready: bool,
}

impl View for Shell {
    type V = Seq<u8>;

    closed spec fn view(&self) -> Seq<u8> {
        self.line@
    }
}

impl Shell {
    pub open spec fn wf(&self) -> bool {
        self@.len() <= BUF_LEN
    }

    pub closed spec fn is_ready(&self) -> bool {
        self.ready
    }

    /// A shell that takes no input yet.
    pub fn new() -> (r: Self)
        ensures
            r.wf(),
            r@ == Seq::<u8>::empty(),
            !r.is_ready(),
    {
        Shell { line: Vec::new(), ready: false }
    }

    /// Start taking input with an empty line.  Returns what to print: the
    /// greeting and the prompt.
    pub fn init(&mut self) -> (r: Vec<u8>)
        ensures
            final(self).wf(),
            final(self)@ == Seq::<u8>::empty(),
            final(self).is_ready(),
            r@ == "\nType 'help' for a list of commands.\n".spec_bytes() + PROMPT.spec_bytes(),
    {
        self.line = Vec::new();
        self.ready = true;
        let mut r: Vec<u8> = Vec::new();
        push_bytes(&mut r, "\nType 'help' for a list of commands.\n".as_bytes());
        push_bytes(&mut r, prompt());
        r
    }

    /// Take one decoded character from a keyboard driver.
    pub fn on_char(&mut self, ch: u8) -> (r: LineEvent)
        requires
            old(self).wf(),
        ensures
            final(self).wf(),
            final(self).is_ready() == old(self).is_ready(),
            !old(self).is_ready() ==> r == LineEvent::Ignored && final(self)@ == old(self)@,
            old(self).is_ready() ==> final(self)@ == spec_key(old(self)@, ch),
            old(self).is_ready() && ch == KEY_ENTER ==> r is Submit && r->Submit_0@ == old(self)@ && final(
                self)@ == Seq::<u8>::empty(),
            old(self).is_ready() && ch == KEY_BACKSPACE ==> if old(self)@.len() > 0 {
                r == LineEvent::Erase && final(self)@ == old(self)@.drop_last()
            } else {
                r == LineEvent::Ignored && final(self)@ == old(self)@
            },
            old(self).is_ready() && ch != KEY_ENTER && ch != KEY_BACKSPACE ==> if old(self)@.len() < BUF_LEN {
                r == LineEvent::Echo(ch) && final(self)@ == old(self)@.push(ch)
            } else {
                r == LineEvent::Ignored && final(self)@ == old(self)@
            },
    {
        if !self.ready {
            return LineEvent::Ignored;
        }
        if ch == KEY_ENTER {
            let mut line: Vec<u8> = Vec::new();
            core::mem::swap(&mut line, &mut self.line);
            LineEvent::Submit(line)
        } else if ch == KEY_BACKSPACE {
            if self.line.len() > 0 {
                self.line.pop();
                LineEvent::Erase
            } else {
                LineEvent::Ignored
            }
        } else {
            if self.line.len() < BUF_LEN {
                self.line.push(ch);
                LineEvent::Echo(ch)
            } else {
                LineEvent::Ignored
            }
        }
    }
}

// ---------------------------------------------------------------------------
// Commands
// ---------------------------------------------------------------------------

/// Which demo program `spawn` starts.
#[derive(Clone, Copy, PartialEq, Eq, Structural, Debug)]
pub enum Program {
    A,
    B,
}

/// A parsed command line.
#[derive(Clone, PartialEq, Eq, Debug)]
pub enum Command {
    Empty,
    Help,
    Clear,
    Echo(Vec<u8>),
    Ticks,
    Ps,
    /// `spawn a` / `spawn b`; `None` for any other argument.
    Spawn(Option<Program>),
    /// `kill <pid>`; `None` when the argument is not a number.
    Kill(Option<u64>),
    Mem,
    Reboot,
    Unknown(Vec<u8>),
}

/// A command, with the byte strings it carries as sequences.
pub enum CommandView {
    Empty,
    Help,
    Clear,
    Echo(Seq<u8>),
    Ticks,
    Ps,
    Spawn(Option<Program>),
    Kill(Option<u64>),
    Mem,
    Reboot,
    Unknown(Seq<u8>),
}

impl View for Command {
    type V = CommandView;

    open spec fn view(&self) -> CommandView {
        match self {
            Command::Empty => CommandView::Empty,
            Command::Help => CommandView::Help,
            Command::Clear => CommandView::Clear,
            Command::Echo(v) => CommandView::Echo(v@),
            Command::Ticks => CommandView::Ticks,
            Command::Ps => CommandView::Ps,
            Command::Spawn(p) => CommandView::Spawn(*p),
            Command::Kill(p) => CommandView::Kill(*p),
            Command::Mem => CommandView::Mem,
            Command::Reboot => CommandView::Reboot,
            Command::Unknown(v) => CommandView::Unknown(v@),
        }
    }
}

/// The pid that `kill` arguments name, if they are a number.
pub open spec fn spec_parse_dec(args: Seq<u8>) -> Option<u64> {
    if args.len() > 0 && all_dec(args) && dec_value(args) <= u64::MAX {
        Some(dec_value(args) as u64)
    } else {
        None
    }
}

/// The command a line asks for.
pub open spec fn spec_parse_command(line: Seq<u8>) -> CommandView {
    let t = spec_trim(line);
    let (cmd, args) = spec_split_first_word(t);
    if t.len() == 0 {
        CommandView::Empty
    } else if cmd == "help".spec_bytes() {
        CommandView::Help
    } else if cmd == "clear".spec_bytes() || cmd == "cls".spec_bytes() {
        CommandView::Clear
    } else if cmd == "echo".spec_bytes() {
        CommandView::Echo(args)
    } else if cmd == "ticks".spec_bytes() {
        CommandView::Ticks
    } else if cmd == "ps".spec_bytes() {
        CommandView::Ps
    } else if cmd == "spawn".spec_bytes() {
        CommandView::Spawn(
            if args == "a".spec_bytes() {
                Some(Program::A)
            } else if args == "b".spec_bytes() {
                Some(Program::B)
            } else {
                None
            },
        )
    } else if cmd == "kill".spec_bytes() {
        CommandView::Kill(spec_parse_dec(args))
    } else if cmd == "mem".spec_bytes() {
        CommandView::Mem
    } else if cmd == "reboot".spec_bytes() {
        CommandView::Reboot
    } else {
        CommandView::Unknown(cmd)
    }
}

/// Copy a byte string into a vector.
fn to_vec(s: &[u8]) -> (r: Vec<u8>)
    ensures
        r@ == s@,
{
    let mut r: Vec<u8> = Vec::new();
    push_bytes(&mut r, s);
    assert(r@ =~= s@);
    r
}

/// Parse a command line: trim it, split off the command word, and read
/// the arguments the command takes.
pub fn parse_command(line: &[u8]) -> (r: Command)
    ensures
        r@ == spec_parse_command(line@),
{
    let t = trim(line);
    proof {
        lemma_trim_spec(line@, t@);
    }
    if t.len() == 0 {
        return Command::Empty;
    }
    let (cmd, args) = split_first_word(t);
    proof {
        reveal_strlit("help");
        reveal_strlit("clear");
        reveal_strlit("cls");
        reveal_strlit("echo");
        reveal_strlit("ticks");
        reveal_strlit("ps");
        reveal_strlit("spawn");
        reveal_strlit("kill");
        reveal_strlit("mem");
        reveal_strlit("reboot");
        reveal_strlit("a");
        reveal_strlit("b");
    }
    if eq(cmd, "help".as_bytes()) {
        Command::Help
    } else if eq(cmd, "clear".as_bytes()) || eq(cmd, "cls".as_bytes()) {
        Command::Clear
    } else if eq(cmd, "echo".as_bytes()) {
        Command::Echo(to_vec(args))
    } else if eq(cmd, "ticks".as_bytes()) {
        Command::Ticks
    } else if eq(cmd, "ps".as_bytes()) {
        Command::Ps
    } else if eq(cmd, "spawn".as_bytes()) {
        Command::Spawn(
            if eq(args, "a".as_bytes()) {
                Some(Program::A)
            } else if eq(args, "b".as_bytes()) {
                Some(Program::B)
            } else {
                None
            },
        )
    } else if eq(cmd, "kill".as_bytes()) {
        Command::Kill(parse_dec(args))
    } else if eq(cmd, "mem".as_bytes()) {
        Command::Mem
    } else if eq(cmd, "reboot".as_bytes()) {
        Command::Reboot
    } else {
        Command::Unknown(to_vec(cmd))
    }
}

/// The prompt.
pub fn prompt() -> (r: &'static [u8])
    ensures
        r@ == PROMPT.spec_bytes(),
{
    PROMPT.as_bytes()
}

pub const HELP_TEXT: &'static str = "commands:\n  help          show this help\n  clear / cls   clear the screen\n  echo <text>   print text\n  ticks         show timer tick count\n  ps            list processes\n  spawn <a|b>   create a new demo process (a or b)\n  kill <pid>    terminate a process by pid\n  mem           show free physical memory\n  reboot        restart the machine\n";

/// The answer to `help`.
pub fn cmd_help() -> (r: &'static [u8])
    ensures
        r@ == HELP_TEXT.spec_bytes(),
{
    HELP_TEXT.as_bytes()
}

/// The answer to `echo`: the arguments and a newline.
pub fn cmd_echo(args: &[u8]) -> (r: Vec<u8>)
    ensures
        r@ == args@.push(KEY_ENTER),
{
    let mut r = to_vec(args);
    r.push(KEY_ENTER);
    r
}

/// The answer to an unknown command.
pub fn cmd_unknown(cmd: &[u8]) -> (r: Vec<u8>)
    ensures
        r@ == "unknown command: ".spec_bytes() + cmd@ + "\n".spec_bytes(),
{
    let mut r: Vec<u8> = Vec::new();
    push_bytes(&mut r, "unknown command: ".as_bytes());
    push_bytes(&mut r, cmd);
    push_bytes(&mut r, "\n".as_bytes());
    r
}

/// The answer to `ticks`.
pub fn cmd_ticks(ticks: u64) -> (r: Vec<u8>)
    ensures
        r@ == "ticks: ".spec_bytes() + dec_digits(ticks as nat) + "\n".spec_bytes(),
{
    let mut r: Vec<u8> = Vec::new();
    push_bytes(&mut r, "ticks: ".as_bytes());
    let d = dec_text(ticks);
    push_bytes(&mut r, d.as_slice());
    push_bytes(&mut r, "\n".as_bytes());
    r
}

/// The answer to `mem`, given the number of free pages.
pub fn cmd_mem(free: u64) -> (r: Vec<u8>)
    requires
        free * 4096 <= u64::MAX,
    ensures
        r@ == "free pages: ".spec_bytes() + dec_digits(free as nat) + " (".spec_bytes() + dec_digits(
            (free * 4096 / 1024) as nat,
        ) + " KiB)\n".spec_bytes(),
{
    let mut r: Vec<u8> = Vec::new();
    push_bytes(&mut r, "free pages: ".as_bytes());
    let d = dec_text(free);
    push_bytes(&mut r, d.as_slice());
    push_bytes(&mut r, " (".as_bytes());
    let k = dec_text(free * 4096 / 1024);
    push_bytes(&mut r, k.as_slice());
    push_bytes(&mut r, " KiB)\n".as_bytes());
    r
}

/// Name of a process state.
pub open spec fn state_name(s: ProcessState) -> Seq<u8> {
    match s {
        ProcessState::Running => "running".spec_bytes(),
        ProcessState::Blocked => "blocked".spec_bytes(),
        ProcessState::Dead => "dead".spec_bytes(),
    }
}

/// Lines of the process table for the first `n` slots.
pub open spec fn ps_lines(s: Seq<Option<crate::process::Process>>, n: int) -> Seq<u8>
    decreases n,
{
    if n <= 0 {
        Seq::empty()
    } else {
        ps_lines(s, n - 1) + match s[n - 1] {
            Some(p) => dec_digits(p.pid as nat) + "    ".spec_bytes() + state_name(p.state) + "\n".spec_bytes(),
            None => Seq::empty(),
        }
    }
}

/// The answer to `ps`: one line per process, then the total.
pub fn cmd_ps(sched: &Scheduler) -> (r: Vec<u8>)
    requires
        sched.wf(),
    ensures
        r@ == "PID  STATE\n".spec_bytes() + ps_lines(sched.processes@, MAX_PROCS as int) + "total: ".spec_bytes()
            + dec_digits(sched.count as nat) + "\n".spec_bytes(),
{
    let mut r: Vec<u8> = Vec::new();
    push_bytes(&mut r, "PID  STATE\n".as_bytes());
    let ghost head = r@;
    let mut i: usize = 0;
    while i < MAX_PROCS
        invariant
            sched.wf(),
            i <= MAX_PROCS,
            head == "PID  STATE\n".spec_bytes(),
            r@ == head + ps_lines(sched.processes@, i as int),
        decreases MAX_PROCS - i,
    {
        match &sched.processes[i] {
            Some(p) => {
                let d = dec_text(p.pid);
                push_bytes(&mut r, d.as_slice());
                push_bytes(&mut r, "    ".as_bytes());
                let name: &str = match p.state {
                    ProcessState::Running => "running",
                    ProcessState::Blocked => "blocked",
                    ProcessState::Dead => "dead",
                };
                push_bytes(&mut r, name.as_bytes());
                push_bytes(&mut r, "\n".as_bytes());
            },
            None => {},
        }
        i += 1;
        assert(r@ =~= head + ps_lines(sched.processes@, i as int));
    }
    push_bytes(&mut r, "total: ".as_bytes());
    let d = dec_text(sched.count as u64);
    push_bytes(&mut r, d.as_slice());
    push_bytes(&mut r, "\n".as_bytes());
    r
}

/// What `kill` answers for a kill outcome.
pub open spec fn kill_text(r: KillResult, pid: u64) -> Seq<u8> {
    match r {
        KillResult::AlreadyDead => "already dead\n".spec_bytes(),
        KillResult::NoSuchPid => "no such pid\n".spec_bytes(),
        KillResult::Killed => "killed pid ".spec_bytes() + dec_digits(pid as nat) + "\n".spec_bytes(),
    }
}

/// The answer to `kill <args>`: kill the process and say what happened.
pub fn cmd_kill(sched: &mut Scheduler, args: &[u8]) -> (r: Vec<u8>)
    requires
        old(sched).wf(),
    ensures
        final(sched).wf(),
        final(sched).count == old(sched).count,
        final(sched).current == old(sched).current,
        match spec_parse_dec(args@) {
            None => r@ == "usage: kill <pid>\n".spec_bytes() && final(sched).processes@ == old(sched).processes@,
            Some(pid) => {
                let (k, procs) = crate::scheduler::spec_kill(old(sched).processes@, pid);
                r@ == kill_text(k, pid) && final(sched).processes@ == procs
            },
        },
{
    let pid = match parse_dec(args) {
        Some(p) => p,
        None => {
            let mut r: Vec<u8> = Vec::new();
            push_bytes(&mut r, "usage: kill <pid>\n".as_bytes());
            return r;
        },
    };
    let mut r: Vec<u8> = Vec::new();
    match sched.kill(pid) {
        KillResult::AlreadyDead => push_bytes(&mut r, "already dead\n".as_bytes()),
        KillResult::NoSuchPid => push_bytes(&mut r, "no such pid\n".as_bytes()),
        KillResult::Killed => {
            push_bytes(&mut r, "killed pid ".as_bytes());
            let d = dec_text(pid);
            push_bytes(&mut r, d.as_slice());
            push_bytes(&mut r, "\n".as_bytes());
        },
    }
    r
}

/// Write a byte string to the console.
pub fn write_bytes(console: &mut Console, s: &[u8]) -> (r: Vec<ConsoleOp>)
    requires
        old(console).wf(),
    ensures
        final(console).wf(),
        (*final(console), r@) == spec_write_bytes(*old(console), s@),
{
    console.write_bytes(s)
}


/// What `spawn` does with its arguments.
#[derive(Clone, Copy, PartialEq, Eq, Structural, Debug)]
pub enum SpawnPlan {
    /// The argument names no demo program.
    Usage,
    /// Every slot is taken.
    Full,
    /// Start this program.
    Start(Program),
}

/// Decide `spawn <args>`: the program must be `a` or `b`, and a slot must
/// be free.
pub fn cmd_spawn(sched: &Scheduler, args: &[u8]) -> (r: SpawnPlan)
    ensures
        r == (if args@ != "a".spec_bytes() && args@ != "b".spec_bytes() {
            SpawnPlan::Usage
        } else if sched.count >= MAX_PROCS {
            SpawnPlan::Full
        } else if args@ == "a".spec_bytes() {
            SpawnPlan::Start(Program::A)
        } else {
            SpawnPlan::Start(Program::B)
        }),
{
    proof {
        reveal_strlit("a");
        reveal_strlit("b");
    }
    let prog = if eq(args, "a".as_bytes()) {
        Program::A
    } else if eq(args, "b".as_bytes()) {
        Program::B
    } else {
        return SpawnPlan::Usage;
    };
    if sched.count >= MAX_PROCS {
        return SpawnPlan::Full;
    }
    SpawnPlan::Start(prog)
}

/// What `spawn` prints when it starts nothing.
pub fn spawn_refusal(plan: SpawnPlan) -> (r: Vec<u8>)
    ensures
        plan == SpawnPlan::Usage ==> r@ == "usage: spawn <a|b>\n".spec_bytes(),
        plan == SpawnPlan::Full ==> r@ == "scheduler full\n".spec_bytes(),
        plan is Start ==> r@ == Seq::<u8>::empty(),
{
    let mut r: Vec<u8> = Vec::new();
    match plan {
        SpawnPlan::Usage => push_bytes(&mut r, "usage: spawn <a|b>\n".as_bytes()),
        SpawnPlan::Full => push_bytes(&mut r, "scheduler full\n".as_bytes()),
        SpawnPlan::Start(_) => {
            assert(r@ =~= Seq::<u8>::empty());
        },
    }
    r
}

/// Add the new process `p` and say so.
pub fn finish_spawn(sched: &mut Scheduler, p: Process) -> (r: Vec<u8>)
    requires
        old(sched).wf(),
        old(sched).count < MAX_PROCS,
    ensures
        final(sched).wf(),
        final(sched).processes@ == old(sched).processes@.update(first_empty(old(sched).processes@), Some(p)),
        final(sched).count == old(sched).count + 1,
        final(sched).current == old(sched).current,
        r@ == "spawned pid ".spec_bytes() + dec_digits(p.pid as nat) + "\n".spec_bytes(),
{
    let pid = p.pid;
    sched.add_process(p);
    let mut r: Vec<u8> = Vec::new();
    push_bytes(&mut r, "spawned pid ".as_bytes());
    let d = dec_text(pid);
    push_bytes(&mut r, d.as_slice());
    push_bytes(&mut r, "\n".as_bytes());
    r
}

/// The reset control register of the chipset.
pub const RESET_CONTROL: u16 = 0xCF9;
/// The keyboard controller's command port, and its reset pulse.
pub const KBC_COMMAND: u16 = 0x64;
pub const KBC_RESET_PULSE: u8 = 0xFE;

/// The first way `reboot` tries: a system reset through the reset control
/// register (SYS_RST, then SYS_RST with RST_CPU).
pub fn cmd_reboot() -> (r: Vec<PortWrite>)
    ensures
        r@ == seq![PortWrite { port: RESET_CONTROL, val: 0x02 }, PortWrite { port: RESET_CONTROL, val: 0x06 }],
{
    let mut r: Vec<PortWrite> = Vec::new();
    r.push(PortWrite { port: RESET_CONTROL, val: 0x02 });
    r.push(PortWrite { port: RESET_CONTROL, val: 0x06 });
    r
}

} // verus!
