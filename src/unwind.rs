//! Walking the saved frame-pointer chain.
//!
//! Each step resolves the current program counter to a function and a line
//! (the caller does the lookup), records the frame, and either stops at the
//! entry function or names the two words to read next: the return address
//! one word above the frame base, and the caller's frame base at it.

use vstd::prelude::*;
use crate::memory::WORD_BYTES;

verus! {

/// Walks longer than this are taken as a corrupt frame chain.
pub const MAX_FRAMES: usize = 1024;

/// Name of the program's entry function, where a walk ends.
pub open spec fn is_entry_name(name: Seq<char>) -> bool {
    name == seq!['m', 'a', 'i', 'n']
}

/// Whether `name` is the entry function.
pub fn is_entry_function(name: &str) -> (r: bool)
    ensures
        r == is_entry_name(name@),
{
    if name.unicode_len() != 4 {
        return false;
    }
    let r = name.get_char(0) == 'm' && name.get_char(1) == 'a' && name.get_char(2) == 'i'
        && name.get_char(3) == 'n';
    proof {
        if r {
            assert(name@ =~= seq!['m', 'a', 'i', 'n']);
        }
    }
    r
}

/// One frame of a backtrace.
#[derive(Clone, Debug, PartialEq, Eq)]
pub struct Frame {
    /// The program counter this frame was resolved from.
    pub pc: u64,
    pub function: String,
    pub line: usize,
}

/// What the caller does after a frame has been recorded.
#[derive(Clone, Copy, Debug, PartialEq, Eq, Structural)]
pub enum UnwindStep {
    /// The entry function was reached: the backtrace is complete.
    Done,
    /// Read the return address at `return_slot` and the caller's frame base
    /// at `base_slot`, then call `advance` with them.
    ReadCaller { return_slot: u64, base_slot: u64 },
    /// The walk reached `MAX_FRAMES` frames without meeting the entry
    /// function.
    TooDeep,
    /// The frame base is so high that the slot above it does not exist.
    BadFrame,
}

/// A backtrace in progress, innermost frame first.
pub struct Backtrace {
    frames: Vec<Frame>,
    pc: u64,
    fp: u64,
    start: Ghost<u64>,
}

impl Backtrace {
    pub closed spec fn frame_seq(&self) -> Seq<Frame> {
        self.frames@
    }

    pub closed spec fn spec_pc(&self) -> u64 {
        self.pc
    }

    pub closed spec fn spec_fp(&self) -> u64 {
        self.fp
    }

    /// The program counter the walk started from.
    pub closed spec fn spec_start(&self) -> u64 {
        self.start@
    }

    /// The walk has reached the entry function.
    pub open spec fn is_complete(&self) -> bool {
        self.frame_seq().len() > 0 && is_entry_name(self.frame_seq().last().function@)
    }

    /// The innermost frame is the one the walk started from, and no frame
    /// but the last is the entry function.
    pub open spec fn wf(&self) -> bool {
        &&& self.frame_seq().len() == 0 ==> self.spec_pc() == self.spec_start()
        &&& self.frame_seq().len() > 0 ==> self.frame_seq()[0].pc == self.spec_start()
        &&& forall|i: int|
            0 <= i < self.frame_seq().len() - 1 ==> !is_entry_name(
                #[trigger] self.frame_seq()[i].function@,
            )
    }

    /// Starts a walk from the registers of the stopped process.
    pub fn new(pc: u64, fp: u64) -> (r: Backtrace)
        ensures
            r.wf(),
            r.frame_seq() == Seq::<Frame>::empty(),
            r.spec_pc() == pc,
            r.spec_fp() == fp,
            r.spec_start() == pc,
    {
        Backtrace { frames: Vec::new(), pc, fp, start: Ghost(pc) }
    }

    /// The program counter to resolve next.
    pub fn pc(&self) -> (r: u64)
        ensures
            r == self.spec_pc(),
    {
        self.pc
    }

    /// The frames recorded so far.
    pub fn frames(&self) -> (r: &Vec<Frame>)
        ensures
            r@ == self.frame_seq(),
    {
        &self.frames
    }

    /// Records the frame that the current program counter resolved to and
    /// decides how the walk goes on. A walk that is done holds at least one
    /// frame, innermost first: the first is the frame the walk started
    /// from, the last is the entry function, and no other is.
    pub fn record(&mut self, function: String, line: usize) -> (r: UnwindStep)
        requires
            old(self).wf(),
            !old(self).is_complete(),
        ensures
            final(self).wf(),
            final(self).frame_seq() == old(self).frame_seq().push(
                (Frame { pc: old(self).spec_pc(), function, line }),
            ),
            final(self).spec_pc() == old(self).spec_pc(),
            final(self).spec_fp() == old(self).spec_fp(),
            final(self).spec_start() == old(self).spec_start(),
            is_entry_name(function@) <==> r == UnwindStep::Done,
            r == UnwindStep::Done <==> final(self).is_complete(),
            r == UnwindStep::Done ==> {
                &&& final(self).frame_seq().len() > 0
                &&& final(self).frame_seq()[0].pc == final(self).spec_start()
                &&& is_entry_name(final(self).frame_seq().last().function@)
                &&& forall|i: int|
                    0 <= i < final(self).frame_seq().len() - 1 ==> !is_entry_name(
                        #[trigger] final(self).frame_seq()[i].function@,
                    )
            },
            !is_entry_name(function@) && final(self).frame_seq().len() >= MAX_FRAMES ==> r
                == UnwindStep::TooDeep,
            !is_entry_name(function@) && final(self).frame_seq().len() < MAX_FRAMES
                && old(self).spec_fp() > u64::MAX - 8 ==> r == UnwindStep::BadFrame,
            !is_entry_name(function@) && final(self).frame_seq().len() < MAX_FRAMES
                && old(self).spec_fp() <= u64::MAX - 8 ==> r == (UnwindStep::ReadCaller {
                return_slot: (old(self).spec_fp() + 8) as u64,
                base_slot: old(self).spec_fp(),
            }),
    {
        let entry = is_entry_function(function.as_str());
        let ghost before = self.frames@;
        self.frames.push(Frame { pc: self.pc, function, line });
        proof {
            if before.len() > 0 {
                assert(!is_entry_name(before.last().function@));
            }
            assert forall|i: int| 0 <= i < self.frames@.len() - 1 implies !is_entry_name(
                #[trigger] self.frames@[i].function@,
            ) by {
                assert(self.frames@[i] == before[i]);
                if i < before.len() - 1 {
                    assert(!is_entry_name(before[i].function@));
                }
            }
        }
        if entry {
            UnwindStep::Done
        } else if self.frames.len() >= MAX_FRAMES {
            UnwindStep::TooDeep
        } else if self.fp > u64::MAX - WORD_BYTES {
            UnwindStep::BadFrame
        } else {
            UnwindStep::ReadCaller { return_slot: self.fp + WORD_BYTES, base_slot: self.fp }
        }
    }

    /// Moves one frame out, to the caller's return address and frame base,
    /// once the current frame has been recorded.
    pub fn advance(&mut self, return_addr: u64, caller_fp: u64)
        requires
            old(self).wf(),
            old(self).frame_seq().len() > 0,
        ensures
            final(self).wf(),
            final(self).frame_seq() == old(self).frame_seq(),
            final(self).spec_start() == old(self).spec_start(),
            final(self).spec_pc() == return_addr,
            final(self).spec_fp() == caller_fp,
    {
        self.pc = return_addr;
        self.fp = caller_fp;
    }
}

} // verus!
