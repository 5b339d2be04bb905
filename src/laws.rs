use vstd::prelude::*;

use crate::debugger::{break_spec_of, break_target, Action, Command, Debugger, Event, Message, Phase};
use crate::inferior::{Status, SIGTRAP};
use crate::word::{byte_of, lemma_restore_round_trip, with_byte, TRAP_OPCODE};

verus! {

/// A stop one byte past a planted breakpoint `a` writes back, at `a`, the byte
/// that planting the trap replaced in `word`, which gives back `word` as it was
/// before the trap; once that write is done the instruction pointer is set to
/// `a` itself, not `a + 1`.
pub proof fn lemma_breakpoint_stop_restores(
    s0: Debugger,
    s1: Debugger,
    s2: Debugger,
    sig: i32,
    a: usize,
    word: u64,
    b: u8,
    r1: Action,
    r2: Action,
)
    requires
        s0.wf(),
        s0.phase is Continuing,
        a < usize::MAX,
        s0.breakpoints@.contains(a),
        s0.planted().contains_key(a),
        s0.planted()[a] == byte_of(word, (a % 8) as nat),
        Debugger::steps_to(s0, Event::Waited(Some(Status::Stopped(sig, (a + 1) as usize))), s1, r1),
        Debugger::steps_to(s1, Event::Patched(Some(b)), s2, r2),
    ensures
        r1 == Action::Patch(a, byte_of(word, (a % 8) as nat)),
        with_byte(with_byte(word, (a % 8) as nat, TRAP_OPCODE), (a % 8) as nat, byte_of(
            word,
            (a % 8) as nat,
        )) == word,
        s1.messages@.last() == Message::Location((a + 1) as usize),
        s1.messages@.drop_last().last() == Message::HitBreakpoint(a, sig),
        r2 == Action::SetIp(a),
{
    assert(s0.hit_breakpoint((a + 1) as usize) == Some(a));
    lemma_restore_round_trip(word, (a % 8) as nat, TRAP_OPCODE);
    assert(s1.phase == Phase::Restoring(a));
}

/// Resuming from a planted breakpoint `ip` steps over it, plants the trap at
/// `ip` again once the step has trapped, then continues. The recorded
/// original bytes stay as they were, so every later hit goes the same way.
pub proof fn lemma_step_over_rearms(
    s0: Debugger,
    s1: Debugger,
    s2: Debugger,
    s3: Debugger,
    ip: usize,
    bp: usize,
    at: usize,
    p: Option<u8>,
    r1: Action,
    r2: Action,
    r3: Action,
)
    requires
        s0.wf(),
        s0.phase is Resuming,
        s0.breakpoints@.contains(ip),
        Debugger::steps_to(s0, Event::Regs(ip, bp), s1, r1),
        Debugger::steps_to(s1, Event::Waited(Some(Status::Stopped(SIGTRAP, at))), s2, r2),
        Debugger::steps_to(s2, Event::Patched(p), s3, r3),
    ensures
        r1 == Action::Step,
        r2 == Action::Patch(ip, TRAP_OPCODE),
        r3 == Action::Cont,
        s3.phase is Continuing,
        s3.planted() == s0.planted(),
        s3.breakpoints == s0.breakpoints,
{
    assert(s1.phase == Phase::SteppingOver(ip));
    assert(s2.phase == Phase::Rearming(ip));
}

/// Requesting the same address twice leaves it requested exactly once: the
/// second request changes nothing.
pub proof fn lemma_request_twice(
    s0: Debugger,
    s1: Debugger,
    s2: Debugger,
    s3: Debugger,
    inp1: String,
    res1: Option<usize>,
    inp2: String,
    res2: Option<usize>,
    a: usize,
    r1: Action,
    r3: Action,
)
    requires
        s0.wf(),
        s0.phase is Idle,
        break_target(break_spec_of(inp1@), res1) == Some(a),
        break_target(break_spec_of(inp2@), res2) == Some(a),
        Debugger::commands_to(s0, Command::Break(inp1, res1), s1, r1),
        s1.wf(),
        s2.wf(),
        s2.phase is Idle,
        s2.breakpoints == s1.breakpoints,
        Debugger::commands_to(s2, Command::Break(inp2, res2), s3, r3),
    ensures
        s3.breakpoints@ == s1.breakpoints@,
        s3.breakpoints@.contains(a),
        s3.breakpoints@.filter(|x: usize| x == a).len() == 1,
{
    let bps = s3.breakpoints@;
    if !s0.breakpoints@.contains(a) {
        assert(s1.breakpoints@.last() == a);
    }
    assert(bps.contains(a));
    let i = choose|i: int| 0 <= i < bps.len() && bps[i] == a;
    lemma_filter_single(bps, a, i);
}

proof fn lemma_filter_single(s: Seq<usize>, a: usize, i: int)
    requires
        s.no_duplicates(),
        0 <= i < s.len(),
        s[i] == a,
    ensures
        s.filter(|x: usize| x == a).len() == 1,
    decreases s.len(),
{
    let f = |x: usize| x == a;
    reveal(Seq::filter);
    let t = s.drop_last();
    assert(t.no_duplicates()) by {
        assert forall|j: int, k: int| 0 <= j < t.len() && 0 <= k < t.len() && j != k implies t[j]
            != t[k] by {
            assert(t[j] == s[j] && t[k] == s[k]);
        }
    }
    if i == s.len() - 1 {
        assert(!t.contains(a)) by {
            if t.contains(a) {
                let j = choose|j: int| 0 <= j < t.len() && t[j] == a;
                assert(s[j] == a);
            }
        }
        lemma_filter_none(t, a);
    } else {
        assert(t[i] == a);
        lemma_filter_single(t, a, i);
        assert(s.last() != a) by {
            assert(s[s.len() - 1] != s[i]);
        }
    }
    assert(s.filter(f) == (if f(s.last()) {
        t.filter(f).push(s.last())
    } else {
        t.filter(f)
    }));
}

proof fn lemma_filter_none(s: Seq<usize>, a: usize)
    requires
        !s.contains(a),
    ensures
        s.filter(|x: usize| x == a).len() == 0,
    decreases s.len(),
{
    reveal(Seq::filter);
    if s.len() > 0 {
        let t = s.drop_last();
        assert(!t.contains(a)) by {
            if t.contains(a) {
                let j = choose|j: int| 0 <= j < t.len() && t[j] == a;
                assert(s[j] == a);
            }
        }
        lemma_filter_none(t, a);
        assert(s[s.len() - 1] != a);
    }
}

/// A backtrace without a process reports that nothing runs, and asks for no
/// register or memory read: the command ends at once.
pub proof fn lemma_backtrace_without_process(s0: Debugger, s1: Debugger, r: Action)
    requires
        s0.wf(),
        s0.phase is Idle,
        s0.inferior is None,
        Debugger::commands_to(s0, Command::Backtrace, s1, r),
    ensures
        r == Action::Idle,
        s1.phase is Idle,
        s1.messages@ == s0.messages@.push(Message::NoProgramRunning),
{
}

/// A run while a process is active first kills that process, and launches
/// the new one only once the old one is gone.
pub proof fn lemma_run_kills_first(
    s0: Debugger,
    s1: Debugger,
    s2: Debugger,
    args: Vec<String>,
    r1: Action,
    r2: Action,
)
    requires
        s0.wf(),
        s0.phase is Idle,
        s0.inferior is Some,
        Debugger::commands_to(s0, Command::Run(args), s1, r1),
        Debugger::steps_to(s1, Event::Killed, s2, r2),
    ensures
        r1 == Action::Kill,
        s2.inferior is None,
        r2 == Action::Launch(args),
        s2.phase is Launching,
{
}

} // verus!
