use vstd::prelude::*;

use crate::inferior::{Inferior, Status, SIGTRAP};
use crate::parse::{address_value, parse_unsigned, unsigned_value};
use crate::word::TRAP_OPCODE;

verus! {

broadcast use vstd::std_specs::hash::group_hash_axioms;

/// How a breakpoint was asked for.
#[derive(Clone, Copy, Debug, PartialEq, Eq, Structural)]
pub enum BreakSpec {
    /// `*ADDR`: a hexadecimal address, taken as it is.
    Address(usize),
    /// `*` followed by something that is not a hexadecimal address.
    BadAddress,
    /// A decimal source line number, to be resolved by the symbol data.
    Line(usize),
    /// Anything else: a function name, to be resolved by the symbol data.
    Function,
}

/// A command from the front end. `Break` carries the spec as typed and the
/// address that the symbol data gave for it when it reads as a line or a
/// function (ignored for the other specs).
pub enum Command {
    Run(Vec<String>),
    Continue,
    Backtrace,
    Break(String, Option<usize>),
    Quit,
}

/// A line of output for the user.
#[derive(Clone, Debug, PartialEq, Eq)]
pub enum Message {
    StartingProgram,
    LaunchFailed,
    /// The text after `*` is not a hexadecimal address.
    MalformedAddress(String),
    UnknownLine(usize),
    /// No function of this name.
    UnknownFunction(String),
    DuplicateBreakpoint(usize),
    BreakpointSet(usize, usize),
    AlreadyInstalled(usize),
    InstallFailed(usize),
    RestoreFailed(usize),
    HitBreakpoint(usize, i32),
    StoppedBySignal(i32),
    Location(usize),
    Exited(i32),
    Signaled(i32),
    ResumeFailed,
    NoProcessToResume,
    NoProgramRunning,
    BacktraceIncomplete,
}

/// What the driver must do next on behalf of the session.
#[derive(Debug)]
pub enum Action {
    /// Nothing is pending: read the next command.
    Idle,
    /// The session is over.
    Exit,
    /// Kill and reap the current process; answer `Killed`.
    Kill,
    /// Spawn the target under trace with these arguments and wait for its
    /// first stop; answer `Launched`.
    Launch(Vec<String>),
    /// Read the word holding the address, splice the byte in with
    /// `Inferior::write_byte` and write the word back; answer `Patched` with
    /// the byte it replaced.
    Patch(usize, u8),
    /// Read the instruction pointer and frame base; answer `Regs`.
    ReadRegs,
    /// Set the instruction pointer; answer `IpSet`.
    SetIp(usize),
    /// Execute one instruction and wait; answer `Waited`.
    Step,
    /// Continue and wait; answer `Waited`.
    Cont,
    /// Read the word at the address; answer `Word`.
    ReadWord(usize),
    /// Show backtrace frame (index, instruction pointer); answer `Named` with
    /// the function that holds the pointer.
    Describe(usize, usize),
    /// The stepped-over instruction raised this signal instead of the trap.
    Fatal(i32),
}

/// The driver's answer to the last action.
pub enum Event {
    Killed,
    Launched(Option<(i32, Status)>),
    Patched(Option<u8>),
    Regs(usize, usize),
    IpSet,
    Waited(Option<Status>),
    Word(Option<u64>),
    Named(Option<String>),
}

/// What the session is waiting for.
pub enum Phase {
    Idle,
    /// Killing the old process before a new run with these arguments.
    Killing(Vec<String>),
    Launching,
    /// Planting the trap for `breakpoints[i]`; resume afterwards if set.
    Installing(usize, bool),
    Resuming,
    /// Stepping over the trap planted at this address.
    SteppingOver(usize),
    /// Planting the trap again at this address after the step.
    Rearming(usize),
    Continuing,
    /// Writing back the original byte at this breakpoint.
    Restoring(usize),
    Rewinding,
    Tracing,
    /// Frame (index, frame base) shown; waiting for its function.
    Naming(usize, usize),
    /// Reading the return address of frame (index, frame base).
    ReadingReturn(usize, usize),
    /// Reading the saved frame base of frame (index, return address, frame base).
    ReadingFrame(usize, usize, usize),
    Quitting,
}

/// A debugging session: the requested breakpoints, the current process, what
/// the session waits for, and the output not yet shown.
pub struct Debugger {
    pub breakpoints: Vec<usize>,
    pub inferior: Option<Inferior>,
    pub phase: Phase,
    pub messages: Vec<Message>,
}

/// The name of the function at the base of the call chain.
pub open spec fn entry_name() -> Seq<char> {
    seq!['m', 'a', 'i', 'n']
}

/// True iff `name` is the program's entry function.
pub fn is_entry_function(name: &str) -> (r: bool)
    ensures
        r == (name@ == entry_name()),
{
    let n = name.unicode_len();
    if n != 4 {
        return false;
    }
    let r = name.get_char(0) == 'm' && name.get_char(1) == 'a' && name.get_char(2) == 'i'
        && name.get_char(3) == 'n';
    if r {
        assert(name@ =~= entry_name());
    }
    r
}

/// True iff `a` is one of the addresses in `v`.
pub fn contains_addr(v: &Vec<usize>, a: usize) -> (r: bool)
    ensures
        r == v@.contains(a),
{
    let mut i: usize = 0;
    while i < v.len()
        invariant
            i <= v.len(),
            forall|j: int| 0 <= j < i ==> v@[j] != a,
        decreases v.len() - i,
    {
        if v[i] == a {
            return true;
        }
        i = i + 1;
    }
    false
}

/// How a breakpoint spec reads: `*` and a hexadecimal address, a decimal line
/// number, or else a function name.
pub open spec fn break_spec_of(s: Seq<char>) -> BreakSpec {
    if s.len() > 0 && s[0] == '*' {
        match address_value(s.drop_first()) {
            Some(v) => BreakSpec::Address(v as usize),
            None => BreakSpec::BadAddress,
        }
    } else {
        match unsigned_value(s, 10) {
            Some(v) => BreakSpec::Line(v as usize),
            None => BreakSpec::Function,
        }
    }
}

/// The first index from `from` on whose address has no trap planted yet
/// (the length if there is none).
pub open spec fn next_uninstalled(bps: Seq<usize>, planted: Map<usize, u8>, from: int) -> int
    decreases bps.len() - from,
{
    if from >= bps.len() {
        bps.len() as int
    } else if !planted.contains_key(bps[from]) {
        from
    } else {
        next_uninstalled(bps, planted, from + 1)
    }
}

proof fn lemma_next_uninstalled_range(bps: Seq<usize>, planted: Map<usize, u8>, from: int)
    requires
        0 <= from,
    ensures
        from <= next_uninstalled(bps, planted, from) || from > bps.len(),
        next_uninstalled(bps, planted, from) <= bps.len(),
    decreases bps.len() - from,
{
    if from < bps.len() && planted.contains_key(bps[from]) {
        lemma_next_uninstalled_range(bps, planted, from + 1);
    }
}

/// The address a breakpoint spec stands for: the address itself, or what
/// the symbol data gave for a line or a function.
pub open spec fn break_target(spec: BreakSpec, resolved: Option<usize>) -> Option<usize> {
    match spec {
        BreakSpec::Address(a) => Some(a),
        BreakSpec::BadAddress => None,
        BreakSpec::Line(_) => resolved,
        BreakSpec::Function => resolved,
    }
}

/// `m` reports that the spec `inp` names no address, and names what was
/// typed: the text after `*`, the line number, or the function name.
pub open spec fn reports_unresolved(inp: Seq<char>, m: Message) -> bool {
    match break_spec_of(inp) {
        BreakSpec::Line(n) => m == Message::UnknownLine(n),
        BreakSpec::Function => m matches Message::UnknownFunction(t) && t@ == inp,
        _ => m matches Message::MalformedAddress(t) && t@ == inp.drop_first(),
    }
}

/// True iff `ev` answers the action issued in `phase`.
pub open spec fn answers(phase: Phase, ev: Event) -> bool {
    match (phase, ev) {
        (Phase::Killing(_), Event::Killed) => true,
        (Phase::Quitting, Event::Killed) => true,
        (Phase::Launching, Event::Launched(_)) => true,
        (Phase::Installing(_, _), Event::Patched(_)) => true,
        (Phase::Rearming(_), Event::Patched(_)) => true,
        (Phase::Restoring(_), Event::Patched(_)) => true,
        (Phase::Resuming, Event::Regs(_, _)) => true,
        (Phase::Tracing, Event::Regs(_, _)) => true,
        (Phase::SteppingOver(_), Event::Waited(_)) => true,
        (Phase::Continuing, Event::Waited(_)) => true,
        (Phase::Rewinding, Event::IpSet) => true,
        (Phase::Naming(_, _), Event::Named(_)) => true,
        (Phase::ReadingReturn(_, _), Event::Word(_)) => true,
        (Phase::ReadingFrame(_, _, _), Event::Word(_)) => true,
        _ => false,
    }
}

impl Debugger {
    /// The session's invariant: requested addresses are distinct, every
    /// planted trap is a requested breakpoint, and the process that the
    /// pending action needs is there.
    pub open spec fn wf(&self) -> bool {
        &&& self.tables_ok()
        &&& match self.phase {
            Phase::Idle => true,
            Phase::Launching => self.inferior is None,
            Phase::Installing(i, _) => self.inferior is Some && i < self.breakpoints.len(),
            _ => self.inferior is Some,
        }
    }

    /// Requested addresses are distinct and every planted trap is requested.
    pub open spec fn tables_ok(&self) -> bool {
        &&& self.breakpoints@.no_duplicates()
        &&& (self.inferior matches Some(inf) ==> forall|a: usize|
            #[trigger] inf.bp_map@.contains_key(a) ==> self.breakpoints@.contains(a))
    }

    /// The traps planted in the current process (none without a process).
    pub open spec fn planted(&self) -> Map<usize, u8> {
        match self.inferior {
            Some(inf) => inf.bp_map@,
            None => Map::empty(),
        }
    }

    /// The breakpoint that a stop at `ip` hit: the trap is one byte, so the
    /// reported pointer is one past it.
    pub open spec fn hit_breakpoint(&self, ip: usize) -> Option<usize> {
        if ip > 0 && self.breakpoints@.contains((ip - 1) as usize) && self.planted().contains_key(
            (ip - 1) as usize,
        ) {
            Some((ip - 1) as usize)
        } else {
            None
        }
    }

    /// `r` and this state are what planting traps from index `from` on leads
    /// to: a `Patch` of the first address still without a trap, else the
    /// resume (or the end of the command).
    pub open spec fn installs_from(&self, r: Action, from: int, resume: bool) -> bool {
        let j = next_uninstalled(self.breakpoints@, self.planted(), from);
        if j < self.breakpoints.len() {
            r == Action::Patch(self.breakpoints@[j], TRAP_OPCODE)
                && self.phase == Phase::Installing(
                j as usize,
                resume,
            )
        } else if resume {
            r == Action::ReadRegs && self.phase is Resuming
        } else {
            r == Action::Idle && self.phase is Idle
        }
    }

    /// `post` and `r` are how the session acts on the status `st` in state
    /// `pre`: at a planted breakpoint, write its original byte back; on any
    /// other stop, report the signal; on exit or death, drop the process.
    pub open spec fn stop_handled(pre: Debugger, post: Debugger, st: Status, r: Action) -> bool {
        &&& post.breakpoints == pre.breakpoints
        &&& match st {
            Status::Stopped(sig, ip) => {
                &&& post.inferior == pre.inferior
                &&& match pre.hit_breakpoint(ip) {
                    Some(a) => {
                        &&& r == Action::Patch(a, pre.planted()[a])
                        &&& post.phase == Phase::Restoring(a)
                        &&& post.messages@ == pre.messages@.push(
                            Message::HitBreakpoint(a, sig),
                        ).push(Message::Location(ip))
                    },
                    None => {
                        &&& r == Action::Idle
                        &&& post.phase is Idle
                        &&& post.messages@ == pre.messages@.push(
                            Message::StoppedBySignal(sig),
                        ).push(Message::Location(ip))
                    },
                }
            },
            Status::Exited(code) => {
                &&& r == Action::Idle
                &&& post.phase is Idle
                &&& post.inferior is None
                &&& post.messages@ == pre.messages@.push(Message::Exited(code))
            },
            Status::Signaled(sig) => {
                &&& r == Action::Idle
                &&& post.phase is Idle
                &&& post.inferior is None
                &&& post.messages@ == pre.messages@.push(Message::Signaled(sig))
            },
        }
    }

    /// `post` and `r` end the current command with `msg` and nothing else changed
    /// but the phase.
    pub open spec fn ends_with(pre: Debugger, post: Debugger, r: Action, msg: Message) -> bool {
        &&& r == Action::Idle
        &&& post.phase is Idle
        &&& post.inferior == pre.inferior
        &&& post.messages@ == pre.messages@.push(msg)
    }

    /// `post` and `r` are what requesting a breakpoint by the spec `inp` (with
    /// the address `resolved` for a line or function) leads to in state `pre`.
    pub open spec fn breaks_to(
        pre: Debugger,
        inp: Seq<char>,
        resolved: Option<usize>,
        post: Debugger,
        r: Action,
    ) -> bool {
        &&& post.inferior == pre.inferior
        &&& match break_target(break_spec_of(inp), resolved) {
            None => {
                &&& post.breakpoints == pre.breakpoints
                &&& r == Action::Idle
                &&& post.phase is Idle
                &&& post.messages@.len() == pre.messages@.len() + 1
                &&& post.messages@.drop_last() == pre.messages@
                &&& reports_unresolved(inp, post.messages@.last())
            },
            Some(a) => if pre.breakpoints@.contains(a) {
                &&& post.breakpoints == pre.breakpoints
                &&& Debugger::ends_with(pre, post, r, Message::DuplicateBreakpoint(a))
            } else {
                &&& post.breakpoints@ == pre.breakpoints@.push(a)
                &&& post.messages@ == pre.messages@.push(
                    Message::BreakpointSet(pre.breakpoints.len(), a),
                )
                &&& pre.inferior is Some ==> {
                    &&& r == Action::Patch(a, TRAP_OPCODE)
                    &&& post.phase == Phase::Installing(pre.breakpoints.len(), false)
                }
                &&& pre.inferior is None ==> r == Action::Idle && post.phase is Idle
            },
        }
    }

    /// `post` and `r` are the state and the first action of the command
    /// `cmd` given in state `pre`.
    pub open spec fn commands_to(pre: Debugger, cmd: Command, post: Debugger, r: Action) -> bool {
        match cmd {
            Command::Run(args) => {
                &&& post.breakpoints == pre.breakpoints
                &&& post.inferior == pre.inferior
                &&& pre.inferior is Some ==> {
                    &&& r == Action::Kill
                    &&& post.phase == Phase::Killing(args)
                    &&& post.messages == pre.messages
                }
                &&& pre.inferior is None ==> {
                    &&& r == Action::Launch(args)
                    &&& post.phase is Launching
                    &&& post.messages@ == pre.messages@.push(Message::StartingProgram)
                }
            },
            Command::Continue => {
                &&& post.breakpoints == pre.breakpoints
                &&& pre.inferior is None ==> Debugger::ends_with(
                    pre,
                    post,
                    r,
                    Message::NoProcessToResume,
                )
                &&& pre.inferior is Some ==> {
                    &&& r == Action::ReadRegs
                    &&& post.phase is Resuming
                    &&& post.inferior == pre.inferior
                    &&& post.messages == pre.messages
                }
            },
            Command::Backtrace => {
                &&& post.breakpoints == pre.breakpoints
                &&& pre.inferior is None ==> Debugger::ends_with(
                    pre,
                    post,
                    r,
                    Message::NoProgramRunning,
                )
                &&& pre.inferior is Some ==> {
                    &&& r == Action::ReadRegs
                    &&& post.phase is Tracing
                    &&& post.inferior == pre.inferior
                    &&& post.messages == pre.messages
                }
            },
            Command::Break(inp, resolved) => Debugger::breaks_to(pre, inp@, resolved, post, r),
            Command::Quit => {
                &&& post.breakpoints == pre.breakpoints
                &&& post.inferior == pre.inferior
                &&& post.messages == pre.messages
                &&& pre.inferior is Some ==> r == Action::Kill && post.phase is Quitting
                &&& pre.inferior is None ==> r == Action::Exit && post.phase is Idle
            },
        }
    }

    /// Nothing but the phase and the action changes.
    pub open spec fn quiet(pre: Debugger, post: Debugger) -> bool {
        &&& post.inferior == pre.inferior
        &&& post.messages == pre.messages
    }

    /// `post` and `r` are the state and the next action after the event `ev`
    /// in state `pre`.
    pub open spec fn steps_to(pre: Debugger, ev: Event, post: Debugger, r: Action) -> bool {
        &&& post.breakpoints == pre.breakpoints
        // an event that answers nothing pending ends the command
        &&& !answers(pre.phase, ev) ==> {
            &&& r == Action::Idle
            &&& post.phase is Idle
            &&& Debugger::quiet(pre, post)
        }
        // a new run: launch once the old process is gone
        &&& (pre.phase, ev) matches (Phase::Killing(args), Event::Killed) ==> {
            &&& r == Action::Launch(args)
            &&& post.phase is Launching
            &&& post.inferior is None
            &&& post.messages@ == pre.messages@.push(Message::StartingProgram)
        }
        // the first stop of a new process decides whether it is usable
        &&& (pre.phase, ev) matches (Phase::Launching, Event::Launched(l)) ==> match l {
            Some((pid, first)) if first matches Status::Stopped(sig, _) && sig == SIGTRAP => {
                &&& post.inferior matches Some(inf) && inf.pid == pid && inf.bp_map@ == Map::<
                    usize,
                    u8,
                >::empty()
                &&& post.installs_from(r, 0, true)
                &&& post.messages == pre.messages
            },
            _ => Debugger::ends_with(pre, post, r, Message::LaunchFailed),
        }
        // one trap planted: record its byte and go on with the next address
        &&& (pre.phase, ev) matches (Phase::Installing(i, resume), Event::Patched(p)) ==> match p {
            Some(orig) => {
                &&& post.inferior matches Some(inf) && inf.pid == pre.inferior->Some_0.pid
                &&& post.planted() == pre.planted().insert(pre.breakpoints@[i as int], orig)
                &&& post.installs_from(r, i + 1, resume)
            },
            None => {
                &&& post.inferior == pre.inferior
                &&& post.messages@ == pre.messages@.push(
                    Message::InstallFailed(pre.breakpoints@[i as int]),
                )
                &&& resume ==> r == Action::ReadRegs && post.phase is Resuming
                &&& !resume ==> r == Action::Idle && post.phase is Idle
            },
        }
        // resume: step over a trap of ours, else continue at once
        &&& (pre.phase, ev) matches (Phase::Resuming, Event::Regs(ip, _)) ==> {
            &&& Debugger::quiet(pre, post)
            &&& pre.breakpoints@.contains(ip) ==> r == Action::Step && post.phase
                == Phase::SteppingOver(ip)
            &&& !pre.breakpoints@.contains(ip) ==> r == Action::Cont && post.phase is Continuing
        }
        // after the step: plant the trap again, unless another signal came
        &&& (pre.phase, ev) matches (Phase::SteppingOver(ip), Event::Waited(w)) ==> match w {
            Some(Status::Stopped(sig, _)) => {
                &&& Debugger::quiet(pre, post)
                &&& sig == SIGTRAP ==> r == Action::Patch(ip, TRAP_OPCODE) && post.phase
                    == Phase::Rearming(ip)
                &&& sig != SIGTRAP ==> r == Action::Fatal(sig) && post.phase is Idle
            },
            Some(st) => Debugger::stop_handled(pre, post, st, r),
            None => Debugger::ends_with(pre, post, r, Message::ResumeFailed),
        }
        // trap back in place: continue
        &&& (pre.phase, ev) matches (Phase::Rearming(ip), Event::Patched(p)) ==> {
            &&& r == Action::Cont
            &&& post.phase is Continuing
            &&& post.inferior == pre.inferior
            &&& p is Some ==> post.messages == pre.messages
            &&& p is None ==> post.messages@ == pre.messages@.push(Message::InstallFailed(ip))
        }
        &&& (pre.phase, ev) matches (Phase::Continuing, Event::Waited(w)) ==> match w {
            Some(st) => Debugger::stop_handled(pre, post, st, r),
            None => Debugger::ends_with(pre, post, r, Message::ResumeFailed),
        }
        // original byte back: rewind the instruction pointer onto the breakpoint
        &&& (pre.phase, ev) matches (Phase::Restoring(a), Event::Patched(p)) ==> match p {
            Some(_) => {
                &&& r == Action::SetIp(a)
                &&& post.phase is Rewinding
                &&& Debugger::quiet(pre, post)
            },
            None => Debugger::ends_with(pre, post, r, Message::RestoreFailed(a)),
        }
        &&& (pre.phase, ev) matches (Phase::Rewinding, Event::IpSet) ==> {
            &&& r == Action::Idle
            &&& post.phase is Idle
            &&& Debugger::quiet(pre, post)
        }
        // backtrace: frame 0 is where the process stands
        &&& (pre.phase, ev) matches (Phase::Tracing, Event::Regs(ip, bp)) ==> {
            &&& r == Action::Describe(0, ip)
            &&& post.phase == Phase::Naming(0, bp)
            &&& Debugger::quiet(pre, post)
        }
        // stop at the entry function, else read the caller's return address
        &&& (pre.phase, ev) matches (Phase::Naming(k, bp), Event::Named(name)) ==> {
            &&& post.inferior == pre.inferior
            &&& if name matches Some(n) && n@ == entry_name() {
                r == Action::Idle && post.phase is Idle && post.messages == pre.messages
            } else if bp <= usize::MAX - 8 {
                &&& r == Action::ReadWord((bp + 8) as usize)
                &&& post.phase == Phase::ReadingReturn(k, bp)
                &&& post.messages == pre.messages
            } else {
                Debugger::ends_with(pre, post, r, Message::BacktraceIncomplete)
            }
        }
        // then the caller's saved frame base
        &&& (pre.phase, ev) matches (Phase::ReadingReturn(k, bp), Event::Word(w)) ==> match w {
            Some(ret) => {
                &&& r == Action::ReadWord(bp)
                &&& post.phase == Phase::ReadingFrame(k, ret as usize, bp)
                &&& Debugger::quiet(pre, post)
            },
            None => Debugger::ends_with(pre, post, r, Message::BacktraceIncomplete),
        }
        // and show the caller's frame
        &&& (pre.phase, ev) matches (Phase::ReadingFrame(k, ret, _), Event::Word(w)) ==> match w {
            Some(fb) if k < usize::MAX => {
                &&& r == Action::Describe((k + 1) as usize, ret)
                &&& post.phase == Phase::Naming((k + 1) as usize, fb as usize)
                &&& Debugger::quiet(pre, post)
            },
            _ => Debugger::ends_with(pre, post, r, Message::BacktraceIncomplete),
        }
        &&& (pre.phase, ev) matches (Phase::Quitting, Event::Killed) ==> {
            &&& r == Action::Exit
            &&& post.phase is Idle
            &&& post.inferior is None
            &&& post.messages == pre.messages
        }
    }

    /// A new session with no breakpoints and no process.
    pub fn new() -> (r: Debugger)
        ensures
            r.wf(),
            r.breakpoints@ == Seq::<usize>::empty(),
            r.inferior is None,
            r.phase is Idle,
            r.messages@ == Seq::<Message>::empty(),
    {
        Debugger {
            breakpoints: Vec::new(),
            inferior: None,
            phase: Phase::Idle,
            messages: Vec::new(),
        }
    }

    /// True iff a process is being debugged.
    pub fn has_process(&self) -> (r: bool)
        ensures
            r == self.inferior is Some,
    {
        self.inferior.is_some()
    }

    /// Hands out the output gathered so far and clears it.
    pub fn take_messages(&mut self) -> (r: Vec<Message>)
        ensures
            r@ == old(self).messages@,
            final(self).messages@ == Seq::<Message>::empty(),
            final(self).breakpoints == old(self).breakpoints,
            final(self).inferior == old(self).inferior,
            final(self).phase == old(self).phase,
    {
        let mut out = Vec::new();
        std::mem::swap(&mut out, &mut self.messages);
        out
    }

    /// Parses a hexadecimal address such as `0x4011a1` (the `0x` is optional).
    pub fn parse_address(addr: &str) -> (r: Option<usize>)
        ensures
            r matches Some(v) ==> address_value(addr@) == Some(v as nat),
            r is None ==> address_value(addr@) is None,
    {
        let n = addr.unicode_len();
        if n >= 2 && addr.get_char(0) == '0' && (addr.get_char(1) == 'x' || addr.get_char(1)
            == 'X') {
            parse_unsigned(addr, 2, 16)
        } else {
            let r = parse_unsigned(addr, 0, 16);
            assert(addr@.subrange(0, addr@.len() as int) =~= addr@);
            r
        }
    }

    /// Reads a breakpoint spec.
    pub fn parse_break_spec(inp: &str) -> (r: BreakSpec)
        ensures
            r == break_spec_of(inp@),
    {
        let n = inp.unicode_len();
        if n > 0 && inp.get_char(0) == '*' {
            let rest = inp.substring_char(1, n);
            assert(rest@ =~= inp@.drop_first());
            match Debugger::parse_address(rest) {
                Some(a) => BreakSpec::Address(a),
                None => BreakSpec::BadAddress,
            }
        } else {
            let r = parse_unsigned(inp, 0, 10);
            assert(inp@.subrange(0, inp@.len() as int) =~= inp@);
            match r {
                Some(l) => BreakSpec::Line(l),
                None => BreakSpec::Function,
            }
        }
    }

    /// Plants traps for the requested addresses from index `from` on, one
    /// `Patch` at a time, skipping those already planted. When none is left,
    /// resumes the process if `resume` is set.
    fn write_breakpoints(&mut self, from: usize, resume: bool) -> (r: Action)
        requires
            old(self).tables_ok(),
            old(self).inferior is Some,
            from <= old(self).breakpoints.len(),
        ensures
            final(self).wf(),
            final(self).breakpoints == old(self).breakpoints,
            final(self).inferior == old(self).inferior,
            final(self).installs_from(r, from as int, resume),
            next_uninstalled(old(self).breakpoints@, old(self).planted(), from as int) == from
                ==> final(self).messages == old(self).messages,
    {
        let ghost planted = self.planted();
        let mut i: usize = from;
        while i < self.breakpoints.len()
            invariant
                from <= i <= self.breakpoints.len(),
                self.tables_ok(),
                self.inferior is Some,
                self.breakpoints == old(self).breakpoints,
                self.inferior == old(self).inferior,
                planted == self.planted(),
                next_uninstalled(self.breakpoints@, planted, from as int) == next_uninstalled(
                    self.breakpoints@,
                    planted,
                    i as int,
                ),
                next_uninstalled(self.breakpoints@, planted, from as int) == from ==> (i == from
                    && self.messages == old(self).messages),
            decreases self.breakpoints.len() - i,
        {
            let addr = self.breakpoints[i];
            let saved = match &self.inferior {
                Some(inf) => inf.saved_byte(addr),
                None => None,
            };
            if saved.is_some() {
                proof {
                    lemma_next_uninstalled_range(self.breakpoints@, planted, i as int + 1);
                }
                self.messages.push(Message::AlreadyInstalled(addr));
                i = i + 1;
            } else {
                self.phase = Phase::Installing(i, resume);
                return Action::Patch(addr, TRAP_OPCODE);
            }
        }
        self.after_install(resume)
    }

    /// Ends an installation: resumes the process, or waits for a command.
    fn after_install(&mut self, resume: bool) -> (r: Action)
        requires
            old(self).tables_ok(),
            old(self).inferior is Some,
        ensures
            final(self).wf(),
            final(self).breakpoints == old(self).breakpoints,
            final(self).inferior == old(self).inferior,
            final(self).messages == old(self).messages,
            resume ==> r == Action::ReadRegs && final(self).phase is Resuming,
            !resume ==> r == Action::Idle && final(self).phase is Idle,
    {
        if resume {
            self.phase = Phase::Resuming;
            Action::ReadRegs
        } else {
            self.phase = Phase::Idle;
            Action::Idle
        }
    }

    /// Acts on the status that a continue (or a step) ended with.
    pub fn handle_stop(&mut self, st: Status) -> (r: Action)
        requires
            old(self).tables_ok(),
            old(self).inferior is Some,
        ensures
            final(self).wf(),
            Debugger::stop_handled(*old(self), *final(self), st, r),
    {
        match st {
            Status::Stopped(sig, ip) => {
                let saved = if ip > 0 && contains_addr(&self.breakpoints, ip - 1) {
                    match &self.inferior {
                        Some(inf) => inf.saved_byte(ip - 1),
                        None => None,
                    }
                } else {
                    None
                };
                match saved {
                    Some(orig) => {
                        let addr = ip - 1;
                        self.messages.push(Message::HitBreakpoint(addr, sig));
                        self.messages.push(Message::Location(ip));
                        self.phase = Phase::Restoring(addr);
                        Action::Patch(addr, orig)
                    },
                    None => {
                        self.messages.push(Message::StoppedBySignal(sig));
                        self.messages.push(Message::Location(ip));
                        self.phase = Phase::Idle;
                        Action::Idle
                    },
                }
            },
            Status::Exited(code) => {
                self.messages.push(Message::Exited(code));
                self.inferior = None;
                self.phase = Phase::Idle;
                Action::Idle
            },
            Status::Signaled(sig) => {
                self.messages.push(Message::Signaled(sig));
                self.inferior = None;
                self.phase = Phase::Idle;
                Action::Idle
            },
        }
    }

    /// Requests a breakpoint. A new address is appended to the requested
    /// ones under the next index and, with a process running, planted at once.
    /// A spec that names no address, or an address already requested, changes
    /// nothing but the output.
    pub fn set_breakpoint(&mut self, inp: &str, resolved: Option<usize>) -> (r: Action)
        requires
            old(self).wf(),
            old(self).phase is Idle,
        ensures
            final(self).wf(),
            final(self).inferior == old(self).inferior,
            Debugger::breaks_to(*old(self), inp@, resolved, *final(self), r),
    {
        let ghost before = self.messages@;
        let addr = match Debugger::parse_break_spec(inp) {
            BreakSpec::Address(a) => a,
            BreakSpec::BadAddress => {
                let rest = inp.substring_char(1, inp.unicode_len());
                assert(rest@ =~= inp@.drop_first());
                self.messages.push(Message::MalformedAddress(String::from_str(rest)));
                assert(self.messages@.drop_last() =~= before);
                return Action::Idle;
            },
            BreakSpec::Line(n) => match resolved {
                Some(a) => a,
                None => {
                    self.messages.push(Message::UnknownLine(n));
                    assert(self.messages@.drop_last() =~= before);
                    return Action::Idle;
                },
            },
            BreakSpec::Function => match resolved {
                Some(a) => a,
                None => {
                    self.messages.push(Message::UnknownFunction(String::from_str(inp)));
                    assert(self.messages@.drop_last() =~= before);
                    return Action::Idle;
                },
            },
        };
        if contains_addr(&self.breakpoints, addr) {
            self.messages.push(Message::DuplicateBreakpoint(addr));
            return Action::Idle;
        }
        let index = self.breakpoints.len();
        self.messages.push(Message::BreakpointSet(index, addr));
        let ghost old_bps = self.breakpoints@;
        self.breakpoints.push(addr);
        proof {
            assert(self.breakpoints@[index as int] == addr);
            assert forall|i: int, j: int|
                0 <= i < j < self.breakpoints@.len() implies self.breakpoints@[i]
                != self.breakpoints@[j] by {
                if j == index {
                    assert(old_bps[i] == self.breakpoints@[i]);
                    assert(old_bps.contains(old_bps[i]));
                } else {
                    assert(old_bps[i] == self.breakpoints@[i]
                        && old_bps[j] == self.breakpoints@[j]);
                }
            }
            if self.inferior is Some {
                let inf = self.inferior->Some_0;
                assert forall|a: usize| #[trigger]
                    inf.bp_map@.contains_key(a) implies self.breakpoints@.contains(a) by {
                    let k = choose|k: int| 0 <= k < old_bps.len() && old_bps[k] == a;
                    assert(self.breakpoints@[k] == a);
                }
                assert(!inf.bp_map@.contains_key(addr));
            }
        }
        if self.inferior.is_some() {
            self.write_breakpoints(index, false)
        } else {
            Action::Idle
        }
    }

    /// Starts the resume protocol: first look where the process stands, to
    /// step over a trap of ours before continuing. Without a process, reports
    /// that there is nothing to resume.
    pub fn resume(&mut self) -> (r: Action)
        requires
            old(self).tables_ok(),
        ensures
            final(self).wf(),
            final(self).breakpoints == old(self).breakpoints,
            old(self).inferior is None ==> Debugger::ends_with(
                *old(self),
                *final(self),
                r,
                Message::NoProcessToResume,
            ),
            old(self).inferior is Some ==> {
                &&& r == Action::ReadRegs
                &&& final(self).phase is Resuming
                &&& Debugger::quiet(*old(self), *final(self))
            },
    {
        if self.inferior.is_some() {
            self.phase = Phase::Resuming;
            Action::ReadRegs
        } else {
            self.phase = Phase::Idle;
            self.messages.push(Message::NoProcessToResume);
            Action::Idle
        }
    }

    /// Starts a backtrace: read the instruction pointer and frame base, then
    /// walk the saved frame bases up to the entry function. Without a
    /// process, reports that no program runs and reads nothing.
    pub fn backtrace(&mut self) -> (r: Action)
        requires
            old(self).tables_ok(),
        ensures
            final(self).wf(),
            final(self).breakpoints == old(self).breakpoints,
            old(self).inferior is None ==> Debugger::ends_with(
                *old(self),
                *final(self),
                r,
                Message::NoProgramRunning,
            ),
            old(self).inferior is Some ==> {
                &&& r == Action::ReadRegs
                &&& final(self).phase is Tracing
                &&& Debugger::quiet(*old(self), *final(self))
            },
    {
        if self.inferior.is_some() {
            self.phase = Phase::Tracing;
            Action::ReadRegs
        } else {
            self.phase = Phase::Idle;
            self.messages.push(Message::NoProgramRunning);
            Action::Idle
        }
    }

    /// Takes a command from the front end and returns the first action it
    /// needs. `Run` kills a running process before it launches a new one;
    /// `Continue` and `Backtrace` need a process and touch nothing without one;
    /// `Quit` kills a running process (the front end has asked the user).
    pub fn command(&mut self, cmd: Command) -> (r: Action)
        requires
            old(self).wf(),
            old(self).phase is Idle,
        ensures
            final(self).wf(),
            Debugger::commands_to(*old(self), cmd, *final(self), r),
    {
        match cmd {
            Command::Run(args) => {
                if self.inferior.is_some() {
                    self.phase = Phase::Killing(args);
                    Action::Kill
                } else {
                    self.messages.push(Message::StartingProgram);
                    self.phase = Phase::Launching;
                    Action::Launch(args)
                }
            },
            Command::Continue => self.resume(),
            Command::Backtrace => self.backtrace(),
            Command::Break(inp, resolved) => self.set_breakpoint(inp.as_str(), resolved),
            Command::Quit => {
                if self.inferior.is_some() {
                    self.phase = Phase::Quitting;
                    Action::Kill
                } else {
                    Action::Exit
                }
            },
        }
    }

    /// Takes the driver's answer to the last action and returns the next one.
    /// An event that does not answer the pending action ends the command and
    /// changes nothing else.
    pub fn step(&mut self, ev: Event) -> (r: Action)
        requires
            old(self).wf(),
        ensures
            final(self).wf(),
            Debugger::steps_to(*old(self), ev, *final(self), r),
    {
        let mut phase = Phase::Idle;
        std::mem::swap(&mut phase, &mut self.phase);
        match (phase, ev) {
            (Phase::Killing(args), Event::Killed) => {
                self.inferior = None;
                self.messages.push(Message::StartingProgram);
                self.phase = Phase::Launching;
                Action::Launch(args)
            },
            (Phase::Launching, Event::Launched(l)) => {
                let inf = match l {
                    Some((pid, first)) => Inferior::new(pid, first),
                    None => None,
                };
                match inf {
                    Some(inf) => {
                        self.inferior = Some(inf);
                        self.write_breakpoints(0, true)
                    },
                    None => {
                        self.messages.push(Message::LaunchFailed);
                        Action::Idle
                    },
                }
            },
            (Phase::Installing(i, resume), Event::Patched(p)) => {
                let addr = self.breakpoints[i];
                match p {
                    Some(orig) => {
                        let ghost pre = self.planted();
                        let mut inf = self.inferior.take().unwrap();
                        inf.record(addr, orig);
                        self.inferior = Some(inf);
                        assert(self.planted() == pre.insert(addr, orig));
                        self.write_breakpoints(i + 1, resume)
                    },
                    None => {
                        self.messages.push(Message::InstallFailed(addr));
                        self.after_install(resume)
                    },
                }
            },
            (Phase::Resuming, Event::Regs(ip, _bp)) => {
                if contains_addr(&self.breakpoints, ip) {
                    self.phase = Phase::SteppingOver(ip);
                    Action::Step
                } else {
                    self.phase = Phase::Continuing;
                    Action::Cont
                }
            },
            (Phase::SteppingOver(ip), Event::Waited(w)) => match w {
                Some(Status::Stopped(sig, _at)) => {
                    if sig == SIGTRAP {
                        self.phase = Phase::Rearming(ip);
                        Action::Patch(ip, TRAP_OPCODE)
                    } else {
                        Action::Fatal(sig)
                    }
                },
                Some(st) => self.handle_stop(st),
                None => {
                    self.messages.push(Message::ResumeFailed);
                    Action::Idle
                },
            },
            (Phase::Rearming(ip), Event::Patched(p)) => {
                if p.is_none() {
                    self.messages.push(Message::InstallFailed(ip));
                }
                self.phase = Phase::Continuing;
                Action::Cont
            },
            (Phase::Continuing, Event::Waited(w)) => match w {
                Some(st) => self.handle_stop(st),
                None => {
                    self.messages.push(Message::ResumeFailed);
                    Action::Idle
                },
            },
            (Phase::Restoring(a), Event::Patched(p)) => {
                if p.is_some() {
                    self.phase = Phase::Rewinding;
                    Action::SetIp(a)
                } else {
                    self.messages.push(Message::RestoreFailed(a));
                    Action::Idle
                }
            },
            (Phase::Rewinding, Event::IpSet) => Action::Idle,
            (Phase::Tracing, Event::Regs(ip, bp)) => {
                self.phase = Phase::Naming(0, bp);
                Action::Describe(0, ip)
            },
            (Phase::Naming(k, bp), Event::Named(name)) => {
                let at_entry = match &name {
                    Some(n) => is_entry_function(n.as_str()),
                    None => false,
                };
                if at_entry {
                    Action::Idle
                } else if bp <= usize::MAX - 8 {
                    self.phase = Phase::ReadingReturn(k, bp);
                    Action::ReadWord(bp + 8)
                } else {
                    self.messages.push(Message::BacktraceIncomplete);
                    Action::Idle
                }
            },
            (Phase::ReadingReturn(k, bp), Event::Word(w)) => match w {
                Some(ret) => {
                    self.phase = Phase::ReadingFrame(k, ret as usize, bp);
                    Action::ReadWord(bp)
                },
                None => {
                    self.messages.push(Message::BacktraceIncomplete);
                    Action::Idle
                },
            },
            (Phase::ReadingFrame(k, ret, _bp), Event::Word(w)) => match w {
                Some(fb) if k < usize::MAX => {
                    self.phase = Phase::Naming(k + 1, fb as usize);
                    Action::Describe(k + 1, ret)
                },
                _ => {
                    self.messages.push(Message::BacktraceIncomplete);
                    Action::Idle
                },
            },
            (Phase::Quitting, Event::Killed) => {
                self.inferior = None;
                Action::Exit
            },
            _ => Action::Idle,
        }
    }
}

} // verus!
