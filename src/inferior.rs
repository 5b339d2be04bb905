use std::collections::HashMap;
use vstd::prelude::*;

use crate::word::{align_addr_to_word, byte_of, with_byte};

verus! {

broadcast use vstd::std_specs::hash::group_hash_axioms;

/// The signal number of `SIGTRAP`: a breakpoint trap or a finished single step.
pub const SIGTRAP: i32 = 5;

/// What waiting on the traced process reported.
#[derive(Clone, Copy, Debug, PartialEq, Eq, Structural)]
pub enum Status {
    /// Stopped by a signal, with the instruction pointer at the stop.
    Stopped(i32, usize),
    /// Exited normally, with its exit code.
    Exited(i32),
    /// Terminated by a signal.
    Signaled(i32),
}

impl Status {
    /// Exited and Signaled end the process for good.
    pub open spec fn is_terminal(self) -> bool {
        !(self is Stopped)
    }
}

/// One child process under trace control, with the original bytes of the
/// addresses where a trap opcode is planted.
pub struct Inferior {
    pub pid: i32,
    pub bp_map: HashMap<usize, u8>,
}

impl Inferior {
    /// Takes over a freshly spawned child given the status of its first stop.
    /// The child is usable only if that stop is the trap raised on image load.
    pub fn new(pid: i32, first: Status) -> (r: Option<Inferior>)
        ensures
            r is Some <==> (first matches Status::Stopped(sig, _) && sig == SIGTRAP),
            r matches Some(inf) ==> inf.pid == pid && inf.bp_map@ == Map::<usize, u8>::empty(),
    {
        match first {
            Status::Stopped(sig, _ip) => {
                if sig == SIGTRAP {
                    Some(Inferior { pid, bp_map: HashMap::new() })
                } else {
                    None
                }
            },
            _ => None,
        }
    }

    /// The process id of this inferior.
    pub fn pid(&self) -> (r: i32)
        ensures
            r == self.pid,
    {
        self.pid
    }

    /// Puts `val` at `addr` within `word`, the word read from the aligned
    /// address that holds `addr`. Returns the word to write back and the byte
    /// it replaces.
    pub fn write_byte(addr: usize, word: u64, val: u8) -> (r: (u64, u8))
        ensures
            r.0 == with_byte(word, (addr % 8) as nat, val),
            r.1 == byte_of(word, (addr % 8) as nat),
    {
        let aligned = align_addr_to_word(addr);
        let offset = (addr - aligned) as u64;
        let shift: u64 = 8 * offset;
        let orig = ((word >> shift) & 0xff) as u8;
        let masked = word & !((0xff as u64) << shift);
        let updated = masked | ((val as u64) << shift);
        (updated, orig)
    }

    /// The byte that the trap at `addr` replaced, if one is planted there.
    pub fn saved_byte(&self, addr: usize) -> (r: Option<u8>)
        ensures
            r == (if self.bp_map@.contains_key(addr) {
                Some(self.bp_map@[addr])
            } else {
                None
            }),
    {
        match self.bp_map.get(&addr) {
            Some(b) => Some(*b),
            None => None,
        }
    }

    /// Records that a trap now stands at `addr` in place of `orig`.
    pub fn record(&mut self, addr: usize, orig: u8)
        ensures
            final(self).pid == old(self).pid,
            final(self).bp_map@ == old(self).bp_map@.insert(addr, orig),
    {
        self.bp_map.insert(addr, orig);
    }
}

} // verus!
