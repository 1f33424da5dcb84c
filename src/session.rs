//! The debugging session: the target, the breakpoints, and whether a traced
//! process exists.
//!
//! The caller drives the process. It asks the session what a command needs
//! (kill the old process first? patch a new breakpoint now?) and tells it
//! what happened (the process started; a wait reported a status).

use vstd::prelude::*;
use crate::breakpoints::BreakpointTable;
use crate::memory::{
    byte_of, lemma_with_byte_restore, lemma_with_same_byte, lemma_write_mem,
    mem_byte, patch_word, with_byte, word_base, word_offset, write_mem, TRAP_OPCODE,
};
use crate::parse::BreakpointSpec;
use crate::status::Status;

verus! {

pub struct Session {
    target: String,
    table: BreakpointTable,
    live: bool,
}

/// The address a breakpoint argument stands for, given what the symbol
/// lookup returned for a line or a function (raw addresses need none).
pub fn resolve_breakpoint(spec: &BreakpointSpec, found: Option<usize>) -> (r: Option<u64>)
    ensures
        *spec matches BreakpointSpec::Address(a) ==> r == Some(a),
        spec is BadAddress ==> r is None,
        (spec is Line || spec is Function) ==> r == (match found {
            Some(a) => Some(a as u64),
            None => None::<u64>,
        }),
{
    match spec {
        BreakpointSpec::Address(a) => Some(*a),
        BreakpointSpec::BadAddress => None,
        _ => match found {
            Some(a) => Some(a as u64),
            None => None,
        },
    }
}

/// The displaced bytes after a trap is patched over `displaced` at `addr`:
/// the first patch at an address records what it displaced.
pub open spec fn record_install(originals: Map<u64, u8>, addr: u64, displaced: u8) -> Map<u64, u8> {
    if originals.contains_key(addr) {
        originals
    } else {
        originals.insert(addr, displaced)
    }
}

/// Memory and displaced bytes after installing `addrs` in order into a
/// process whose memory was `mem`, as `run` does.
pub open spec fn install_all(mem: Map<u64, u64>, addrs: Seq<u64>) -> (Map<u64, u64>, Map<u64, u8>)
    decreases addrs.len(),
{
    if addrs.len() == 0 {
        (mem, Map::empty())
    } else {
        let (m, o) = install_all(mem, addrs.drop_last());
        let a = addrs.last();
        (write_mem(m, a, TRAP_OPCODE), record_install(o, a, mem_byte(m, a)))
    }
}

impl Session {
    pub closed spec fn spec_target(&self) -> Seq<char> {
        self.target@
    }

    pub closed spec fn spec_table(&self) -> BreakpointTable {
        self.table
    }

    pub closed spec fn spec_has_process(&self) -> bool {
        self.live
    }

    /// The table is well formed, and holds displaced bytes only while a
    /// process exists.
    pub open spec fn wf(&self) -> bool {
        &&& self.spec_table().wf()
        &&& !self.spec_has_process() ==> self.spec_table().originals() == Map::<u64, u8>::empty()
    }

    /// A session on `target`, with no breakpoint and no process.
    pub fn new(target: String) -> (r: Session)
        ensures
            r.wf(),
            r.spec_target() == target@,
            r.spec_table().addresses() == Seq::<u64>::empty(),
            !r.spec_has_process(),
    {
        Session { target, table: BreakpointTable::new(), live: false }
    }

    /// Path of the program being debugged.
    pub fn target(&self) -> (r: &String)
        ensures
            r@ == self.spec_target(),
    {
        &self.target
    }

    /// The breakpoint table.
    pub fn table(&self) -> (r: &BreakpointTable)
        ensures
            *r == self.spec_table(),
    {
        &self.table
    }

    /// Whether a traced process exists (it is then stopped).
    pub fn has_process(&self) -> (r: bool)
        ensures
            r == self.spec_has_process(),
    {
        self.live
    }

    /// Starts a `run`: returns whether a process exists that must be killed
    /// (and waited for) first. Afterwards no process exists, so the old one
    /// is gone before a new one can be spawned.
    pub fn begin_run(&mut self) -> (kill_first: bool)
        requires
            old(self).wf(),
        ensures
            final(self).wf(),
            kill_first == old(self).spec_has_process(),
            !final(self).spec_has_process(),
            final(self).spec_table().addresses() == old(self).spec_table().addresses(),
            final(self).spec_target() == old(self).spec_target(),
    {
        let kill_first = self.live;
        self.process_ended();
        kill_first
    }

    /// A freshly spawned process stopped at its initial trap. Its
    /// breakpoints are installed next, with `install_breakpoint` and
    /// `breakpoint_installed`.
    pub fn process_started(&mut self)
        requires
            old(self).wf(),
            !old(self).spec_has_process(),
        ensures
            final(self).wf(),
            final(self).spec_has_process(),
            final(self).spec_table().addresses() == old(self).spec_table().addresses(),
            final(self).spec_table().originals() == Map::<u64, u8>::empty(),
            final(self).spec_target() == old(self).spec_target(),
    {
        self.live = true;
    }

    /// The word to write back to install the breakpoint at `addr`, given
    /// `word`, the word the process holds at the aligned address: the trap
    /// stands at `addr` and the other bytes are kept. Nothing is recorded
    /// until the write has succeeded (`breakpoint_installed`).
    pub fn install_breakpoint(&self, addr: u64, word: u64) -> (r: u64)
        requires
            self.wf(),
            self.spec_has_process(),
            self.spec_table().addresses().contains(addr),
        ensures
            r == with_byte(word, word_offset(addr), TRAP_OPCODE),
            byte_of(r, word_offset(addr)) == TRAP_OPCODE,
            forall|j: u64| j < 8 && j != word_offset(addr) ==> byte_of(r, j) == byte_of(word, j),
    {
        let (patched, _displaced) = patch_word(word, addr, TRAP_OPCODE);
        patched
    }

    /// Takes in that the trap at `addr` was written over `word`, the word
    /// the process held there before. The displaced byte is recorded, unless
    /// this process already has a trap at `addr`, whose recorded byte is
    /// then kept.
    pub fn breakpoint_installed(&mut self, addr: u64, word: u64)
        requires
            old(self).wf(),
            old(self).spec_has_process(),
            old(self).spec_table().addresses().contains(addr),
        ensures
            final(self).wf(),
            final(self).spec_has_process(),
            final(self).spec_table().addresses() == old(self).spec_table().addresses(),
            final(self).spec_table().originals() == record_install(
                old(self).spec_table().originals(),
                addr,
                byte_of(word, word_offset(addr)),
            ),
            final(self).spec_target() == old(self).spec_target(),
    {
        let (_patched, displaced) = patch_word(word, addr, TRAP_OPCODE);
        if self.table.original_byte(addr).is_none() {
            self.table.record_original(addr, displaced);
        }
    }

    /// Takes in that the process is gone (killed after a failed start, or
    /// lost): its displaced bytes are forgotten, the addresses stay.
    pub fn process_ended(&mut self)
        requires
            old(self).wf(),
        ensures
            final(self).wf(),
            !final(self).spec_has_process(),
            final(self).spec_table().addresses() == old(self).spec_table().addresses(),
            final(self).spec_table().originals() == Map::<u64, u8>::empty(),
            final(self).spec_target() == old(self).spec_target(),
    {
        self.live = false;
        self.table.clear_installed();
    }

    /// Records a new breakpoint at the resolved address, if there is one.
    /// Returns its number and whether it must be installed at once, which
    /// it must while a process exists. An unresolved argument changes
    /// nothing.
    pub fn set_breakpoint(&mut self, resolved: Option<u64>) -> (r: Option<(usize, bool)>)
        requires
            old(self).wf(),
        ensures
            final(self).wf(),
            final(self).spec_has_process() == old(self).spec_has_process(),
            final(self).spec_target() == old(self).spec_target(),
            final(self).spec_table().originals() == old(self).spec_table().originals(),
            resolved is None ==> r is None && final(self).spec_table() == old(self).spec_table(),
            resolved matches Some(a) ==> r == Some(
                (old(self).spec_table().addresses().len() as usize, old(self).spec_has_process()),
            ) && final(self).spec_table().addresses() == old(self).spec_table().addresses().push(
                a,
            ),
    {
        match resolved {
            None => None,
            Some(a) => {
                let index = self.table.add(a);
                Some((index, self.live))
            },
        }
    }

    /// Takes in the status that a `run` or `continue` ended with. The
    /// process exists afterwards exactly when it is stopped; once it is gone
    /// its displaced bytes are forgotten and the addresses stay for the next
    /// run.
    pub fn finish_resume(&mut self, status: Status)
        requires
            old(self).wf(),
            old(self).spec_has_process(),
        ensures
            final(self).wf(),
            final(self).spec_has_process() == status.is_alive(),
            final(self).spec_table().addresses() == old(self).spec_table().addresses(),
            status.is_alive() ==> final(self).spec_table() == old(self).spec_table(),
            final(self).spec_target() == old(self).spec_target(),
    {
        if !status.is_alive() {
            self.live = false;
            self.table.clear_installed();
        }
    }

    /// Ends the session: returns whether a process exists that must be
    /// killed first.
    pub fn quit(&mut self) -> (kill_first: bool)
        requires
            old(self).wf(),
        ensures
            final(self).wf(),
            kill_first == old(self).spec_has_process(),
            !final(self).spec_has_process(),
            final(self).spec_table().addresses() == old(self).spec_table().addresses(),
    {
        let kill_first = self.live;
        self.process_ended();
        kill_first
    }
}

/// After a run has installed every recorded breakpoint, each of their
/// addresses holds the trap, and the byte recorded for it is the byte the
/// unmodified program had there. Every other byte is untouched.
pub proof fn lemma_run_traps_every_breakpoint(mem: Map<u64, u64>, addrs: Seq<u64>)
    ensures
        forall|a: u64|
            addrs.contains(a) ==> {
                &&& mem_byte(#[trigger] install_all(mem, addrs).0, a) == TRAP_OPCODE
                &&& install_all(mem, addrs).1.contains_key(a)
                &&& install_all(mem, addrs).1[a] == mem_byte(mem, a)
            },
        forall|b: u64|
            !addrs.contains(b) ==> mem_byte(#[trigger] install_all(mem, addrs).0, b) == mem_byte(
                mem,
                b,
            ),
        forall|a: u64| #[trigger] install_all(mem, addrs).1.contains_key(a) <==> addrs.contains(a),
    decreases addrs.len(),
{
    if addrs.len() > 0 {
        let p = addrs.drop_last();
        let a = addrs.last();
        lemma_run_traps_every_breakpoint(mem, p);
        let (m, o) = install_all(mem, p);
        assert forall|b: u64| addrs.contains(b) <==> (p.contains(b) || b == a) by {
            if addrs.contains(b) && b != a {
                let k = choose|k: int| 0 <= k < addrs.len() && addrs[k] == b;
                assert(k < addrs.len() - 1);
                assert(p[k] == b);
            }
            if p.contains(b) {
                let k = choose|k: int| 0 <= k < p.len() && p[k] == b;
                assert(addrs[k] == b);
            }
            if b == a {
                assert(addrs[addrs.len() - 1] == b);
            }
        }
        assert forall|b: u64| addrs.contains(b) implies {
            &&& mem_byte(#[trigger] install_all(mem, addrs).0, b) == TRAP_OPCODE
            &&& install_all(mem, addrs).1.contains_key(b)
            &&& install_all(mem, addrs).1[b] == mem_byte(mem, b)
        } by {
            lemma_write_mem(m, a, TRAP_OPCODE, b);
            if b != a {
                assert(p.contains(b));
                assert(mem_byte(m, b) == TRAP_OPCODE);
            } else if !p.contains(a) {
                assert(mem_byte(m, a) == mem_byte(mem, a));
            }
        }
        assert forall|b: u64| !addrs.contains(b) implies mem_byte(
            #[trigger] install_all(mem, addrs).0,
            b,
        ) == mem_byte(mem, b) by {
            lemma_write_mem(m, a, TRAP_OPCODE, b);
            assert(!p.contains(b));
        }
    }
}

/// Stepping over an armed breakpoint at `addr`: putting back the recorded
/// byte gives the program its instruction there and touches no other byte,
/// and writing the trap again gives back exactly the armed memory, so the
/// next pass through `addr` traps again.
pub proof fn lemma_step_over_rearms(armed: Map<u64, u64>, addr: u64, original: u8)
    requires
        armed.contains_key(word_base(addr)),
        mem_byte(armed, addr) == TRAP_OPCODE,
    ensures
        mem_byte(write_mem(armed, addr, original), addr) == original,
        forall|other: u64|
            other != addr ==> mem_byte(#[trigger] write_mem(armed, addr, original), other)
                == mem_byte(armed, other),
        write_mem(write_mem(armed, addr, original), addr, TRAP_OPCODE) == armed,
{
    let w = armed[word_base(addr)];
    let off = word_offset(addr);
    assert forall|other: u64|
        other != addr implies mem_byte(#[trigger] write_mem(armed, addr, original), other)
        == mem_byte(armed, other) by {
        lemma_write_mem(armed, addr, original, other);
    }
    lemma_write_mem(armed, addr, original, addr);
    lemma_with_byte_restore(w, off, original, TRAP_OPCODE);
    lemma_with_same_byte(w, off);
    assert(write_mem(write_mem(armed, addr, original), addr, TRAP_OPCODE) =~= armed);
}

} // verus!
