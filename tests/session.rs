use deet::debugger::{is_entry_function, Action, BreakSpec, Command, Debugger, Event, Message};
use deet::inferior::{Status, SIGTRAP};

fn start_process(d: &mut Debugger) -> Action {
    let a = d.command(Command::Run(vec!["x".to_string()]));
    assert!(matches!(a, Action::Launch(ref args) if args == &vec!["x".to_string()]));
    d.step(Event::Launched(Some((4242, Status::Stopped(SIGTRAP, 0x401000)))))
}

#[test]
fn line_breakpoint_hit_then_exit() {
    let mut d = Debugger::new();
    let a = d.command(Command::Break("12".to_string(), Some(0x401136)));
    assert!(matches!(a, Action::Idle));
    assert_eq!(d.take_messages(), vec![Message::BreakpointSet(0, 0x401136)]);

    let a = start_process(&mut d);
    assert!(matches!(a, Action::Patch(0x401136, 0xcc)));
    let a = d.step(Event::Patched(Some(0x55)));
    assert!(matches!(a, Action::ReadRegs));
    assert_eq!(d.inferior.as_ref().unwrap().bp_map.get(&0x401136), Some(&0x55));
    let a = d.step(Event::Regs(0x401000, 0x7ffe0000));
    assert!(matches!(a, Action::Cont));
    let a = d.step(Event::Waited(Some(Status::Stopped(SIGTRAP, 0x401137))));
    assert!(matches!(a, Action::Patch(0x401136, 0x55)));
    let a = d.step(Event::Patched(Some(0xcc)));
    assert!(matches!(a, Action::SetIp(0x401136)));
    let a = d.step(Event::IpSet);
    assert!(matches!(a, Action::Idle));
    assert_eq!(
        d.take_messages(),
        vec![
            Message::StartingProgram,
            Message::HitBreakpoint(0x401136, SIGTRAP),
            Message::Location(0x401137),
        ]
    );

    // continue: step over the breakpoint, plant it again, run to exit
    let a = d.command(Command::Continue);
    assert!(matches!(a, Action::ReadRegs));
    let a = d.step(Event::Regs(0x401136, 0x7ffe0000));
    assert!(matches!(a, Action::Step));
    let a = d.step(Event::Waited(Some(Status::Stopped(SIGTRAP, 0x40113a))));
    assert!(matches!(a, Action::Patch(0x401136, 0xcc)));
    let a = d.step(Event::Patched(Some(0x55)));
    assert!(matches!(a, Action::Cont));
    let a = d.step(Event::Waited(Some(Status::Exited(0))));
    assert!(matches!(a, Action::Idle));
    assert_eq!(d.take_messages(), vec![Message::Exited(0)]);
    assert!(!d.has_process());
    assert_eq!(d.breakpoints, vec![0x401136]);
}

#[test]
fn same_breakpoint_hit_again_in_a_loop() {
    let mut d = Debugger::new();
    d.command(Command::Break("*0x401136".to_string(), None));
    start_process(&mut d);
    d.step(Event::Patched(Some(0x55)));
    d.step(Event::Regs(0x401000, 0));
    for _ in 0..3 {
        let a = d.step(Event::Waited(Some(Status::Stopped(SIGTRAP, 0x401137))));
        assert!(matches!(a, Action::Patch(0x401136, 0x55)));
        assert!(matches!(d.step(Event::Patched(Some(0xcc))), Action::SetIp(0x401136)));
        assert!(matches!(d.step(Event::IpSet), Action::Idle));
        assert!(matches!(d.command(Command::Continue), Action::ReadRegs));
        assert!(matches!(d.step(Event::Regs(0x401136, 0)), Action::Step));
        let a = d.step(Event::Waited(Some(Status::Stopped(SIGTRAP, 0x40113a))));
        assert!(matches!(a, Action::Patch(0x401136, 0xcc)));
        assert!(matches!(d.step(Event::Patched(Some(0x55))), Action::Cont));
        assert_eq!(d.inferior.as_ref().unwrap().bp_map.get(&0x401136), Some(&0x55));
    }
}

#[test]
fn address_breakpoint_and_bad_address() {
    let mut d = Debugger::new();
    assert_eq!(Debugger::parse_break_spec("*0x4011a1"), BreakSpec::Address(0x4011a1));
    d.command(Command::Break("*0x4011a1".to_string(), None));
    assert_eq!(d.breakpoints, vec![0x4011a1]);
    assert_eq!(Debugger::parse_break_spec("*0x40zz"), BreakSpec::BadAddress);
    let a = d.command(Command::Break("*0x40zz".to_string(), Some(0x1234)));
    assert!(matches!(a, Action::Idle));
    assert_eq!(d.breakpoints, vec![0x4011a1]);
    assert_eq!(
        d.take_messages(),
        vec![
            Message::BreakpointSet(0, 0x4011a1),
            Message::MalformedAddress("0x40zz".to_string()),
        ]
    );
}

#[test]
fn unresolved_specs_register_nothing() {
    let mut d = Debugger::new();
    d.command(Command::Break("99".to_string(), None));
    d.command(Command::Break("nosuch".to_string(), None));
    assert!(d.breakpoints.is_empty());
    assert_eq!(d.take_messages(), vec![Message::UnknownLine(99), Message::UnknownFunction("nosuch".to_string())]);
}

#[test]
fn duplicate_request_kept_once() {
    let mut d = Debugger::new();
    d.command(Command::Break("loop_body".to_string(), Some(0x401136)));
    let a = d.command(Command::Break("3".to_string(), Some(0x401136)));
    assert!(matches!(a, Action::Idle));
    assert_eq!(d.breakpoints, vec![0x401136]);
    assert_eq!(
        d.take_messages(),
        vec![Message::BreakpointSet(0, 0x401136), Message::DuplicateBreakpoint(0x401136)]
    );
}

#[test]
fn breakpoint_set_while_running_is_planted() {
    let mut d = Debugger::new();
    let a = start_process(&mut d);
    assert!(matches!(a, Action::ReadRegs));
    d.step(Event::Regs(0x401000, 0));
    d.step(Event::Waited(Some(Status::Stopped(2, 0x401050))));
    let a = d.command(Command::Break("*0x401200".to_string(), None));
    assert!(matches!(a, Action::Patch(0x401200, 0xcc)));
    let a = d.step(Event::Patched(None));
    assert!(matches!(a, Action::Idle));
    assert_eq!(d.breakpoints, vec![0x401200]);
    let msgs = d.take_messages();
    assert_eq!(msgs.last(), Some(&Message::InstallFailed(0x401200)));
}

#[test]
fn commands_without_process() {
    let mut d = Debugger::new();
    assert!(matches!(d.command(Command::Backtrace), Action::Idle));
    assert!(matches!(d.command(Command::Continue), Action::Idle));
    assert_eq!(d.take_messages(), vec![Message::NoProgramRunning, Message::NoProcessToResume]);
    assert!(matches!(d.command(Command::Quit), Action::Exit));
}

#[test]
fn run_kills_running_process_first() {
    let mut d = Debugger::new();
    start_process(&mut d);
    d.step(Event::Regs(0x401000, 0));
    d.step(Event::Waited(Some(Status::Stopped(2, 0x401050))));
    assert!(d.has_process());
    let a = d.command(Command::Run(vec![]));
    assert!(matches!(a, Action::Kill));
    let a = d.step(Event::Killed);
    assert!(matches!(a, Action::Launch(_)));
    assert!(!d.has_process());
}

#[test]
fn launch_needs_initial_trap() {
    let mut d = Debugger::new();
    d.command(Command::Run(vec![]));
    let a = d.step(Event::Launched(Some((7, Status::Exited(1)))));
    assert!(matches!(a, Action::Idle));
    assert!(!d.has_process());
    d.command(Command::Run(vec![]));
    let a = d.step(Event::Launched(None));
    assert!(matches!(a, Action::Idle));
    let msgs = d.take_messages();
    assert_eq!(msgs.iter().filter(|m| **m == Message::LaunchFailed).count(), 2);
}

#[test]
fn unexpected_signal_during_step_over() {
    let mut d = Debugger::new();
    d.command(Command::Break("*0x401136".to_string(), None));
    start_process(&mut d);
    d.step(Event::Patched(Some(0x55)));
    d.step(Event::Regs(0x401000, 0));
    d.step(Event::Waited(Some(Status::Stopped(SIGTRAP, 0x401137))));
    d.step(Event::Patched(Some(0xcc)));
    d.step(Event::IpSet);
    d.command(Command::Continue);
    d.step(Event::Regs(0x401136, 0));
    let a = d.step(Event::Waited(Some(Status::Stopped(11, 0x401136))));
    assert!(matches!(a, Action::Fatal(11)));
}

#[test]
fn killed_by_signal_drops_process() {
    let mut d = Debugger::new();
    start_process(&mut d);
    d.step(Event::Regs(0x401000, 0));
    let a = d.step(Event::Waited(Some(Status::Signaled(9))));
    assert!(matches!(a, Action::Idle));
    assert!(!d.has_process());
    assert_eq!(d.take_messages().last(), Some(&Message::Signaled(9)));
}

#[test]
fn backtrace_walks_frames_to_main() {
    let mut d = Debugger::new();
    start_process(&mut d);
    d.step(Event::Regs(0x401000, 0));
    d.step(Event::Waited(Some(Status::Stopped(2, 0x401050))));
    d.take_messages();
    assert!(matches!(d.command(Command::Backtrace), Action::ReadRegs));
    assert!(matches!(d.step(Event::Regs(0x401050, 0x7000)), Action::Describe(0, 0x401050)));
    assert!(matches!(d.step(Event::Named(Some("helper".to_string()))), Action::ReadWord(0x7008)));
    assert!(matches!(d.step(Event::Word(Some(0x401200))), Action::ReadWord(0x7000)));
    assert!(matches!(d.step(Event::Word(Some(0x7100))), Action::Describe(1, 0x401200)));
    assert!(matches!(d.step(Event::Named(Some("main".to_string()))), Action::Idle));
    assert!(d.take_messages().is_empty());
}

#[test]
fn backtrace_truncated_on_read_failure() {
    let mut d = Debugger::new();
    start_process(&mut d);
    d.step(Event::Regs(0x401000, 0));
    d.step(Event::Waited(Some(Status::Stopped(2, 0x401050))));
    d.take_messages();
    d.command(Command::Backtrace);
    d.step(Event::Regs(0x401050, 0x7000));
    d.step(Event::Named(None));
    let a = d.step(Event::Word(None));
    assert!(matches!(a, Action::Idle));
    assert_eq!(d.take_messages(), vec![Message::BacktraceIncomplete]);
}

#[test]
fn quit_kills_running_process() {
    let mut d = Debugger::new();
    start_process(&mut d);
    assert!(matches!(d.step(Event::Regs(0x401000, 0)), Action::Cont));
    d.step(Event::Waited(Some(Status::Stopped(2, 0x401050))));
    assert!(matches!(d.command(Command::Quit), Action::Kill));
    assert!(matches!(d.step(Event::Killed), Action::Exit));
    assert!(!d.has_process());
}

#[test]
fn entry_function_name() {
    assert!(is_entry_function("main"));
    assert!(!is_entry_function("mainx"));
    assert!(!is_entry_function("Main"));
    assert!(!is_entry_function(""));
}

#[test]
fn mismatched_event_ends_command() {
    let mut d = Debugger::new();
    let a = d.step(Event::IpSet);
    assert!(matches!(a, Action::Idle));
    assert!(d.messages.is_empty());
}

#[test]
fn backtrace_and_resume_without_process() {
    let mut d = Debugger::new();
    assert!(matches!(d.backtrace(), Action::Idle));
    assert!(matches!(d.resume(), Action::Idle));
    assert_eq!(d.take_messages(), vec![Message::NoProgramRunning, Message::NoProcessToResume]);
}

#[test]
fn set_breakpoint_names_bad_input() {
    let mut d = Debugger::new();
    assert!(matches!(d.set_breakpoint("*zz", None), Action::Idle));
    assert!(matches!(d.set_breakpoint("helper", None), Action::Idle));
    assert!(matches!(d.set_breakpoint("helper", Some(0x401010)), Action::Idle));
    assert_eq!(
        d.take_messages(),
        vec![
            Message::MalformedAddress("zz".to_string()),
            Message::UnknownFunction("helper".to_string()),
            Message::BreakpointSet(0, 0x401010),
        ]
    );
}
