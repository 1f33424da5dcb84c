use std::collections::HashMap;

use deet::breakpoints::BreakpointTable;
use deet::command::DebuggerCommand;
use deet::engine::{after_single_step, begin_continue, ContinueAction};
use deet::memory::{align_addr_to_word, patch_word, TRAP_OPCODE};
use deet::parse::{parse_address, parse_breakpoint_spec, parse_unsigned_from, BreakpointSpec};
use deet::session::{resolve_breakpoint, Session};
use deet::status::{Status, SIGTRAP};
use deet::unwind::{is_entry_function, Backtrace, UnwindStep};

/// A word-addressed stand-in for the traced process's memory.
struct Memory {
    words: HashMap<u64, u64>,
}

impl Memory {
    fn read(&self, addr: u64) -> u64 {
        *self.words.get(&align_addr_to_word(addr)).unwrap_or(&0)
    }

    fn write_byte(&mut self, addr: u64, val: u8) -> u8 {
        let (word, orig) = patch_word(self.read(addr), addr, val);
        self.words.insert(align_addr_to_word(addr), word);
        orig
    }

    fn byte(&self, addr: u64) -> u8 {
        let off = addr - align_addr_to_word(addr);
        ((self.read(addr) >> (8 * off)) & 0xff) as u8
    }
}

fn program_memory() -> Memory {
    let mut words = HashMap::new();
    words.insert(0x1000, 0x1122_3344_5566_7788u64);
    words.insert(0x2000, 0xa1a2_a3a4_a5a6_a7a8u64);
    Memory { words }
}

fn start(session: &mut Session, mem: &mut Memory) {
    let kill = session.begin_run();
    assert!(!kill);
    assert!(Status::Stopped(SIGTRAP, 0x400).is_trap());
    session.process_started();
    for i in 0..session.table().len() {
        let addr = session.table().address(i);
        let word = mem.read(addr);
        let patched = session.install_breakpoint(addr, word);
        mem.words.insert(align_addr_to_word(addr), patched);
        session.breakpoint_installed(addr, word);
    }
}

/// Runs one continue against the simulated memory; `step` and `resume` are
/// what the process reports after a single step and after a resume.
fn cont(session: &mut Session, mem: &mut Memory, pc: u64, step: Status, resume: Status) -> Status {
    let status = match begin_continue(session.table(), pc) {
        ContinueAction::Resume => resume,
        ContinueAction::RestoreAndStep { addr, original } => {
            mem.write_byte(addr, original);
            match after_single_step(addr, step) {
                ContinueAction::RearmAndResume { addr } => {
                    mem.write_byte(addr, TRAP_OPCODE);
                    resume
                }
                ContinueAction::Report(s) => s,
                other => panic!("unexpected action {:?}", other),
            }
        }
        other => panic!("unexpected action {:?}", other),
    };
    session.finish_resume(status);
    status
}

#[test]
fn align_and_patch_exact_values() {
    assert_eq!(align_addr_to_word(0x1007), 0x1000);
    assert_eq!(align_addr_to_word(0x1008), 0x1008);
    assert_eq!(align_addr_to_word(3), 0);
    assert_eq!(patch_word(0x1122_3344_5566_7788, 0x1001, 0xcc), (0x1122_3344_5566_cc88, 0x77));
    assert_eq!(patch_word(0x1122_3344_5566_7788, 0x1007, 0xcc), (0xcc22_3344_5566_7788, 0x11));
    assert_eq!(patch_word(0x1122_3344_5566_7788, 0x1000, 0x88), (0x1122_3344_5566_7788, 0x88));
}

#[test]
fn breakpoints_set_before_run_are_trapped_at_start() {
    let mut session = Session::new("prog".to_string());
    let mut mem = program_memory();
    assert_eq!(session.set_breakpoint(Some(0x1000)), Some((0, false)));
    assert_eq!(session.set_breakpoint(Some(0x2003)), Some((1, false)));
    start(&mut session, &mut mem);
    assert_eq!(mem.byte(0x1000), 0xcc);
    assert_eq!(mem.byte(0x2003), 0xcc);
    assert_eq!(session.table().original_byte(0x1000), Some(0x88));
    assert_eq!(session.table().original_byte(0x2003), Some(0xa5));
    assert_eq!(session.table().original_byte(0x1001), None);
    assert_eq!(mem.byte(0x1001), 0x77);
}

#[test]
fn stepping_over_a_breakpoint_rearms_it() {
    let mut session = Session::new("prog".to_string());
    let mut mem = program_memory();
    session.set_breakpoint(Some(0x1000));
    start(&mut session, &mut mem);
    let armed = mem.read(0x1000);
    let s = cont(&mut session, &mut mem, 0x1001, Status::Stopped(SIGTRAP, 0x1003), Status::Stopped(SIGTRAP, 0x1001));
    assert_eq!(s, Status::Stopped(SIGTRAP, 0x1001));
    assert_eq!(mem.read(0x1000), armed);
    assert_eq!(mem.byte(0x1000), 0xcc);
    // The second pass traps again and is stepped over the same way.
    assert_eq!(
        begin_continue(session.table(), 0x1001),
        ContinueAction::RestoreAndStep { addr: 0x1000, original: 0x88 }
    );
}

#[test]
fn step_that_ends_the_process_is_reported_without_rearming() {
    let mut session = Session::new("prog".to_string());
    let mut mem = program_memory();
    session.set_breakpoint(Some(0x1000));
    start(&mut session, &mut mem);
    let s = cont(&mut session, &mut mem, 0x1001, Status::Exited(3), Status::Exited(99));
    assert_eq!(s, Status::Exited(3));
    assert!(!session.has_process());
    assert_eq!(after_single_step(0x1000, Status::Signaled(9)), ContinueAction::Report(Status::Signaled(9)));
}

#[test]
fn step_that_stops_on_another_signal_still_rearms() {
    assert_eq!(
        after_single_step(0x1000, Status::Stopped(11, 0x1000)),
        ContinueAction::RearmAndResume { addr: 0x1000 }
    );
    let mut session = Session::new("prog".to_string());
    let mut mem = program_memory();
    session.set_breakpoint(Some(0x1000));
    start(&mut session, &mut mem);
    let armed = mem.read(0x1000);
    let s = cont(&mut session, &mut mem, 0x1001, Status::Stopped(11, 0x1000), Status::Stopped(SIGTRAP, 0x1001));
    assert_eq!(s, Status::Stopped(SIGTRAP, 0x1001));
    assert_eq!(mem.read(0x1000), armed);
    assert_eq!(mem.byte(0x1000), 0xcc);
}

#[test]
fn continue_without_breakpoint_is_a_plain_resume() {
    let mut table = BreakpointTable::new();
    assert_eq!(begin_continue(&table, 0x1001), ContinueAction::Resume);
    table.add(0x1000);
    assert_eq!(begin_continue(&table, 0x1001), ContinueAction::Resume);
    table.record_original(0x1000, 0x55);
    assert_eq!(begin_continue(&table, 0x1002), ContinueAction::Resume);
    assert_eq!(begin_continue(&table, 0), ContinueAction::Resume);
    assert_eq!(
        begin_continue(&table, 0x1001),
        ContinueAction::RestoreAndStep { addr: 0x1000, original: 0x55 }
    );
}

#[test]
fn alternating_breakpoints_until_exit() {
    let mut session = Session::new("prog".to_string());
    let mut mem = program_memory();
    let foo = resolve_breakpoint(&parse_breakpoint_spec("foo"), Some(0x1000));
    let bar = resolve_breakpoint(&parse_breakpoint_spec("bar"), Some(0x2000));
    assert_eq!(session.set_breakpoint(foo), Some((0, false)));
    assert_eq!(session.set_breakpoint(bar), Some((1, false)));
    start(&mut session, &mut mem);
    let trap = |pc: u64| Status::Stopped(SIGTRAP, pc);
    let s = cont(&mut session, &mut mem, 0x400, trap(0), trap(0x1001));
    assert_eq!(s, trap(0x1001));
    let s = cont(&mut session, &mut mem, 0x1001, trap(0x1004), trap(0x2001));
    assert_eq!(s, trap(0x2001));
    let s = cont(&mut session, &mut mem, 0x2001, trap(0x2002), trap(0x1001));
    assert_eq!(s, trap(0x1001));
    assert_eq!(mem.byte(0x2000), 0xcc);
    let s = cont(&mut session, &mut mem, 0x1001, trap(0x1004), trap(0x2001));
    assert_eq!(s, trap(0x2001));
    let s = cont(&mut session, &mut mem, 0x2001, trap(0x2002), Status::Exited(0));
    assert_eq!(s, Status::Exited(0));
    assert!(!session.has_process());
    assert_eq!(session.table().len(), 2);
    assert_eq!(session.table().original_byte(0x1000), None);
    // The table is ready for the next run.
    let mut fresh = program_memory();
    start(&mut session, &mut fresh);
    assert_eq!(fresh.byte(0x1000), 0xcc);
    assert_eq!(fresh.byte(0x2000), 0xcc);
    assert_eq!(session.table().original_byte(0x2000), Some(0xa8));
}

#[test]
fn run_twice_kills_the_first_process() {
    let mut session = Session::new("prog".to_string());
    assert!(!session.begin_run());
    session.process_started();
    assert!(session.has_process());
    assert!(session.begin_run());
    assert!(!session.has_process());
    session.process_started();
    assert!(session.quit());
    assert!(!session.has_process());
    assert!(!session.quit());
}

#[test]
fn breakpoint_set_while_stopped_is_installed_now() {
    let mut session = Session::new("prog".to_string());
    let mut mem = program_memory();
    start(&mut session, &mut mem);
    assert_eq!(session.set_breakpoint(Some(0x2000)), Some((0, true)));
    let word = mem.read(0x2000);
    let patched = session.install_breakpoint(0x2000, word);
    assert_eq!(patched, 0xa1a2_a3a4_a5a6_a7cc);
    // Until the write is known to have succeeded nothing is recorded.
    assert_eq!(session.table().original_byte(0x2000), None);
    session.breakpoint_installed(0x2000, word);
    assert_eq!(session.table().original_byte(0x2000), Some(0xa8));
}

#[test]
fn invalid_breakpoint_leaves_table_unchanged() {
    let mut session = Session::new("prog".to_string());
    session.set_breakpoint(Some(0x1000));
    let spec = parse_breakpoint_spec("xyz");
    assert_eq!(spec, BreakpointSpec::Function("xyz".to_string()));
    let resolved = resolve_breakpoint(&spec, None);
    assert_eq!(resolved, None);
    assert_eq!(session.set_breakpoint(resolved), None);
    assert_eq!(session.table().len(), 1);
    let bad = parse_breakpoint_spec("*zz");
    assert_eq!(bad, BreakpointSpec::BadAddress);
    assert_eq!(resolve_breakpoint(&bad, Some(5)), None);
}

#[test]
fn parse_addresses_and_numbers() {
    assert_eq!(parse_address("0x1A"), Some(26));
    assert_eq!(parse_address("0X401000"), Some(0x401000));
    assert_eq!(parse_address("ff"), Some(255));
    assert_eq!(parse_address("+ff"), Some(255));
    assert_eq!(parse_address("ffffffffffffffff"), Some(u64::MAX));
    assert_eq!(parse_address("10000000000000000"), None);
    assert_eq!(parse_address(""), None);
    assert_eq!(parse_address("0x"), None);
    assert_eq!(parse_address("+"), None);
    assert_eq!(parse_address("12g"), None);
    assert_eq!(parse_address("-1"), None);
    assert_eq!(parse_unsigned_from("line 42", 5, 10, 1000), Some(42));
    assert_eq!(parse_unsigned_from("1001", 0, 10, 1000), None);
}

#[test]
fn parse_breakpoint_specs() {
    assert_eq!(parse_breakpoint_spec("*0x401000"), BreakpointSpec::Address(0x401000));
    assert_eq!(parse_breakpoint_spec("*401000"), BreakpointSpec::Address(0x401000));
    assert_eq!(parse_breakpoint_spec("*"), BreakpointSpec::BadAddress);
    assert_eq!(parse_breakpoint_spec("12"), BreakpointSpec::Line(12));
    assert_eq!(parse_breakpoint_spec("main"), BreakpointSpec::Function("main".to_string()));
    assert_eq!(resolve_breakpoint(&BreakpointSpec::Line(12), Some(0x401136)), Some(0x401136));
    assert_eq!(resolve_breakpoint(&BreakpointSpec::Address(7), None), Some(7));
}

#[test]
fn backtrace_walks_to_main() {
    assert!(is_entry_function("main"));
    assert!(!is_entry_function("mainly"));
    assert!(!is_entry_function(""));
    let mut bt = Backtrace::new(0x401200, 0x7ff0);
    assert_eq!(bt.pc(), 0x401200);
    assert_eq!(
        bt.record("inner".to_string(), 7),
        UnwindStep::ReadCaller { return_slot: 0x7ff8, base_slot: 0x7ff0 }
    );
    bt.advance(0x401150, 0x8010);
    assert_eq!(bt.pc(), 0x401150);
    assert_eq!(
        bt.record("outer".to_string(), 12),
        UnwindStep::ReadCaller { return_slot: 0x8018, base_slot: 0x8010 }
    );
    bt.advance(0x401100, 0x8040);
    assert_eq!(bt.record("main".to_string(), 20), UnwindStep::Done);
    let names: Vec<&str> = bt.frames().iter().map(|f| f.function.as_str()).collect();
    assert_eq!(names, vec!["inner", "outer", "main"]);
    assert_eq!(bt.frames()[2].line, 20);
}

#[test]
fn backtrace_guards_against_bad_chains() {
    let mut bt = Backtrace::new(1, u64::MAX - 3);
    assert_eq!(bt.record("f".to_string(), 1), UnwindStep::BadFrame);
    let mut deep = Backtrace::new(1, 0x1000);
    let mut last = UnwindStep::Done;
    for _ in 0..deet::unwind::MAX_FRAMES {
        last = deep.record("loop".to_string(), 1);
    }
    assert_eq!(last, UnwindStep::TooDeep);
    assert_eq!(deep.frames().len(), deet::unwind::MAX_FRAMES);
}

#[test]
fn commands_from_tokens() {
    assert_eq!(DebuggerCommand::from_tokens(&vec!["q"]), Some(DebuggerCommand::Quit));
    assert_eq!(DebuggerCommand::from_tokens(&vec!["quit"]), Some(DebuggerCommand::Quit));
    assert_eq!(
        DebuggerCommand::from_tokens(&vec!["run", "a", "bb"]),
        Some(DebuggerCommand::Run(vec!["a".to_string(), "bb".to_string()]))
    );
    assert_eq!(DebuggerCommand::from_tokens(&vec!["r"]), Some(DebuggerCommand::Run(vec![])));
    assert_eq!(DebuggerCommand::from_tokens(&vec!["cont"]), Some(DebuggerCommand::Continue));
    assert_eq!(DebuggerCommand::from_tokens(&vec!["bt"]), Some(DebuggerCommand::BackTrace));
    assert_eq!(
        DebuggerCommand::from_tokens(&vec!["b", "*0x401000"]),
        Some(DebuggerCommand::BreakPoint("*0x401000".to_string()))
    );
    assert_eq!(DebuggerCommand::from_tokens(&vec!["break"]), None);
    assert_eq!(DebuggerCommand::from_tokens(&vec!["xyz"]), None);
    assert_eq!(DebuggerCommand::from_tokens(&vec![]), None);
}

#[test]
fn duplicate_breakpoint_keeps_the_program_byte() {
    let mut session = Session::new("prog".to_string());
    let mut mem = program_memory();
    assert_eq!(session.set_breakpoint(Some(0x1000)), Some((0, false)));
    assert_eq!(session.set_breakpoint(Some(0x1000)), Some((1, false)));
    start(&mut session, &mut mem);
    assert_eq!(mem.byte(0x1000), 0xcc);
    assert_eq!(session.table().original_byte(0x1000), Some(0x88));
}

#[test]
fn status_classification() {
    assert!(Status::Stopped(SIGTRAP, 1).is_alive());
    assert!(Status::Stopped(11, 1).is_alive());
    assert!(!Status::Stopped(11, 1).is_trap());
    assert!(!Status::Exited(0).is_alive());
    assert!(!Status::Signaled(SIGTRAP).is_alive());
    assert!(!Status::Signaled(SIGTRAP).is_trap());
}

#[test]
fn failed_start_leaves_breakpoints_pending() {
    let mut session = Session::new("prog".to_string());
    session.set_breakpoint(Some(0x1000));
    assert!(!session.begin_run());
    session.process_started();
    session.process_ended();
    assert!(!session.has_process());
    assert_eq!(session.table().len(), 1);
    assert_eq!(session.table().original_byte(0x1000), None);
    assert_eq!(session.set_breakpoint(Some(0x2000)), Some((1, false)));
}

#[test]
fn finished_walk_lists_frames_innermost_first() {
    let mut bt = Backtrace::new(0x401200, 0x7ff0);
    bt.record("inner".to_string(), 7);
    bt.advance(0x401150, 0x8010);
    assert_eq!(bt.record("main".to_string(), 20), UnwindStep::Done);
    assert_eq!(bt.frames()[0].pc, 0x401200);
    assert_eq!(bt.frames()[1].pc, 0x401150);
}
