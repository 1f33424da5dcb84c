//! The continue protocol.
//!
//! A trap leaves the program counter one byte past the breakpoint. To go on,
//! the original byte is put back, the counter rewound, one instruction
//! stepped, and the trap written again so that it fires the next time.

use vstd::prelude::*;
use crate::breakpoints::BreakpointTable;
use crate::status::Status;

verus! {

/// What the caller does next while continuing the process.
#[derive(Clone, Copy, Debug, PartialEq, Eq, Structural)]
pub enum ContinueAction {
    /// Resume until the next stop and report what the wait returns.
    Resume,
    /// Write `original` at `addr`, set the program counter to `addr`,
    /// single-step, and hand the resulting status to `after_single_step`.
    RestoreAndStep { addr: u64, original: u8 },
    /// Write the trap opcode at `addr`, then resume until the next stop and
    /// report what the wait returns.
    RearmAndResume { addr: u64 },
    /// The step ended the process: report this status; there is nothing
    /// to resume or re-arm.
    Report(Status),
}

/// The breakpoint whose trap left the process at `pc`, if there is one.
pub open spec fn trapped_at(table: BreakpointTable, pc: u64) -> bool {
    pc >= 1 && table.originals().contains_key((pc - 1) as u64)
}

/// First decision of a continue, from the program counter of the stopped
/// process.
pub fn begin_continue(table: &BreakpointTable, pc: u64) -> (r: ContinueAction)
    ensures
        trapped_at(*table, pc) ==> r == (ContinueAction::RestoreAndStep {
            addr: (pc - 1) as u64,
            original: table.originals()[(pc - 1) as u64],
        }),
        !trapped_at(*table, pc) ==> r == ContinueAction::Resume,
{
    if pc == 0 {
        return ContinueAction::Resume;
    }
    match table.original_byte(pc - 1) {
        Some(original) => ContinueAction::RestoreAndStep { addr: pc - 1, original },
        None => ContinueAction::Resume,
    }
}

/// Second decision of a continue that stepped over the breakpoint at
/// `addr`. While the process still exists (the step stopped, whatever the
/// signal) the trap is written back and the process resumed; only when the
/// step ended the process is the status reported as it is, with nothing
/// left to re-arm.
pub fn after_single_step(addr: u64, status: Status) -> (r: ContinueAction)
    ensures
        status is Stopped ==> r == (ContinueAction::RearmAndResume { addr }),
        (status is Exited || status is Signaled) ==> r == ContinueAction::Report(status),
{
    if status.is_alive() {
        ContinueAction::RearmAndResume { addr }
    } else {
        ContinueAction::Report(status)
    }
}

} // verus!
