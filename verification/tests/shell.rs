use tomorrow::console::Console;
use tomorrow::process::{Process, ProcessState, KERNEL_VIRT};
use tomorrow::scheduler::Scheduler;
use tomorrow::shell::{
    cmd_echo, cmd_help, cmd_kill, cmd_mem, cmd_ps, cmd_reboot, cmd_spawn, cmd_ticks, cmd_unknown, eq,
    finish_spawn, parse_command, parse_dec, prompt, split_first_word, spawn_refusal, trim, write_bytes,
    Command, LineEvent, Program, Shell, SpawnPlan, BUF_LEN,
};

#[test]
fn trim_strips_spaces_and_tabs() {
    assert_eq!(trim(b"  hi \t"), b"hi");
    assert_eq!(trim(b"   "), b"");
    assert_eq!(trim(b"a b"), b"a b");
}

#[test]
fn split_first_word_trims_the_rest() {
    assert_eq!(split_first_word(b"echo  hello world "), (&b"echo"[..], &b"hello world"[..]));
    assert_eq!(split_first_word(b"ps"), (&b"ps"[..], &b""[..]));
}

#[test]
fn byte_string_equality() {
    assert!(eq(b"kill", b"kill"));
    assert!(!eq(b"kill", b"kil"));
    assert!(!eq(b"kill", b"kilt"));
}

#[test]
fn decimal_parsing() {
    assert_eq!(parse_dec(b"123"), Some(123));
    assert_eq!(parse_dec(b"0"), Some(0));
    assert_eq!(parse_dec(b""), None);
    assert_eq!(parse_dec(b"12a"), None);
    assert_eq!(parse_dec(b"18446744073709551615"), Some(u64::MAX));
    assert_eq!(parse_dec(b"18446744073709551616"), None);
}

#[test]
fn commands_are_recognized() {
    assert_eq!(parse_command(b""), Command::Empty);
    assert_eq!(parse_command(b"   "), Command::Empty);
    assert_eq!(parse_command(b"  help "), Command::Help);
    assert_eq!(parse_command(b"clear"), Command::Clear);
    assert_eq!(parse_command(b"cls"), Command::Clear);
    assert_eq!(parse_command(b"echo hi  there"), Command::Echo(b"hi  there".to_vec()));
    assert_eq!(parse_command(b"ticks"), Command::Ticks);
    assert_eq!(parse_command(b"ps"), Command::Ps);
    assert_eq!(parse_command(b"spawn a"), Command::Spawn(Some(Program::A)));
    assert_eq!(parse_command(b"spawn b"), Command::Spawn(Some(Program::B)));
    assert_eq!(parse_command(b"spawn c"), Command::Spawn(None));
    assert_eq!(parse_command(b"kill 5"), Command::Kill(Some(5)));
    assert_eq!(parse_command(b"kill x"), Command::Kill(None));
    assert_eq!(parse_command(b"mem"), Command::Mem);
    assert_eq!(parse_command(b"reboot"), Command::Reboot);
    assert_eq!(parse_command(b"foo bar"), Command::Unknown(b"foo".to_vec()));
}

#[test]
fn line_editing() {
    let mut sh = Shell::new();
    assert_eq!(sh.on_char(b'a'), LineEvent::Ignored);
    let greeting = sh.init();
    assert_eq!(greeting, b"\nType 'help' for a list of commands.\nUser@Tomorrow> ".to_vec());
    assert_eq!(sh.on_char(8), LineEvent::Ignored);
    assert_eq!(sh.on_char(b'p'), LineEvent::Echo(b'p'));
    assert_eq!(sh.on_char(b'x'), LineEvent::Echo(b'x'));
    assert_eq!(sh.on_char(8), LineEvent::Erase);
    assert_eq!(sh.on_char(b's'), LineEvent::Echo(b's'));
    assert_eq!(sh.on_char(10), LineEvent::Submit(b"ps".to_vec()));
    assert_eq!(sh.on_char(10), LineEvent::Submit(Vec::new()));
}

#[test]
fn a_full_line_takes_no_more() {
    let mut sh = Shell::new();
    sh.init();
    for _ in 0..BUF_LEN {
        assert_eq!(sh.on_char(b'z'), LineEvent::Echo(b'z'));
    }
    assert_eq!(sh.on_char(b'z'), LineEvent::Ignored);
    assert_eq!(sh.on_char(10), LineEvent::Submit(vec![b'z'; BUF_LEN]));
}

#[test]
fn command_answers() {
    assert_eq!(prompt(), b"User@Tomorrow> ");
    assert!(cmd_help().starts_with(b"commands:\n  help"));
    assert_eq!(cmd_echo(b"hi there"), b"hi there\n".to_vec());
    assert_eq!(cmd_unknown(b"foo"), b"unknown command: foo\n".to_vec());
    assert_eq!(cmd_ticks(7), b"ticks: 7\n".to_vec());
    assert_eq!(cmd_mem(3), b"free pages: 3 (12 KiB)\n".to_vec());
}

fn demo(pid: u64) -> Process {
    Process::new(pid, 0b11, 0, KERNEL_VIRT + 0x10_2345, 0x40_0000 + pid * 0x1000, 0x9000)
}

fn scheduler_with(pids: &[u64]) -> Scheduler {
    let mut s = Scheduler::new();
    for &p in pids {
        s.add_process(demo(p));
    }
    s
}

#[test]
fn ps_lists_every_process() {
    let s = scheduler_with(&[1, 2]);
    assert_eq!(cmd_ps(&s), b"PID  STATE\n1    running\n2    running\ntotal: 2\n".to_vec());
}

#[test]
fn kill_answers_each_case() {
    let mut s = scheduler_with(&[1, 2]);
    assert_eq!(cmd_kill(&mut s, b"1"), b"killed pid 1\n".to_vec());
    assert_eq!(s.processes[0].unwrap().state, ProcessState::Dead);
    assert_eq!(cmd_kill(&mut s, b"1"), b"already dead\n".to_vec());
    assert_eq!(cmd_kill(&mut s, b"9"), b"no such pid\n".to_vec());
    assert_eq!(cmd_kill(&mut s, b"x"), b"usage: kill <pid>\n".to_vec());
    assert_eq!(cmd_ps(&s), b"PID  STATE\n1    dead\n2    running\ntotal: 2\n".to_vec());
}

#[test]
fn spawn_decides_and_reports() {
    let mut s = scheduler_with(&[1, 2]);
    assert_eq!(cmd_spawn(&s, b"c"), SpawnPlan::Usage);
    assert_eq!(spawn_refusal(SpawnPlan::Usage), b"usage: spawn <a|b>\n".to_vec());
    assert_eq!(cmd_spawn(&s, b"a"), SpawnPlan::Start(Program::A));
    assert_eq!(cmd_spawn(&s, b"b"), SpawnPlan::Start(Program::B));
    assert_eq!(finish_spawn(&mut s, demo(3)), b"spawned pid 3\n".to_vec());
    assert_eq!(s.count, 3);
    assert_eq!(s.processes[2].unwrap().pid, 3);
}

#[test]
fn spawn_refuses_when_full() {
    let pids: Vec<u64> = (1..=64).collect();
    let s = scheduler_with(&pids);
    assert_eq!(cmd_spawn(&s, b"a"), SpawnPlan::Full);
    assert_eq!(spawn_refusal(SpawnPlan::Full), b"scheduler full\n".to_vec());
    assert_eq!(cmd_spawn(&s, b"zz"), SpawnPlan::Usage);
}

#[test]
fn reboot_writes_the_reset_register() {
    let w = cmd_reboot();
    assert_eq!(w.len(), 2);
    assert_eq!((w[0].port, w[0].val), (0xCF9, 0x02));
    assert_eq!((w[1].port, w[1].val), (0xCF9, 0x06));
}

#[test]
fn write_bytes_goes_through_the_console() {
    let mut c = Console::new(4 * 640, 640, 480);
    let ops = write_bytes(&mut c, b"ok");
    assert_eq!(ops.len(), 2);
    assert_eq!((c.cx, c.cy), (2, 0));
}

#[test]
fn typed_line_is_submitted_on_enter() {
    let mut sh = Shell::new();
    sh.init();
    for &c in b"echo hi" {
        assert_eq!(sh.on_char(c), LineEvent::Echo(c));
    }
    assert_eq!(sh.on_char(b'x'), LineEvent::Echo(b'x'));
    assert_eq!(sh.on_char(8), LineEvent::Erase);
    assert_eq!(sh.on_char(10), LineEvent::Submit(b"echo hi".to_vec()));
    assert_eq!(sh.on_char(10), LineEvent::Submit(Vec::new()));
}
