//! What a wait on the traced process reports.

use vstd::prelude::*;

verus! {

/// Signal number of `SIGTRAP`, raised by a trap instruction, by a finished
/// single step and by the exec of a traced program.
pub const SIGTRAP: i32 = 5;

/// State of the traced process after it last changed.
#[derive(Clone, Copy, Debug, PartialEq, Eq, Structural)]
pub enum Status {
    /// Stopped by the signal, at the given program counter.
    Stopped(i32, u64),
    /// Exited normally with the given code.
    Exited(i32),
    /// Killed by the signal.
    Signaled(i32),
}

impl Status {
    /// True while the process still exists.
    pub open spec fn spec_is_alive(self) -> bool {
        self is Stopped
    }

    /// Whether the process still exists, that is, whether it is stopped.
    #[verifier::when_used_as_spec(spec_is_alive)]
    pub fn is_alive(self) -> (r: bool)
        ensures
            r == self.spec_is_alive(),
    {
        match self {
            Status::Stopped(_, _) => true,
            _ => false,
        }
    }

    /// True of a stop caused by `SIGTRAP`.
    pub open spec fn spec_is_trap(self) -> bool {
        self is Stopped && self->Stopped_0 == SIGTRAP
    }

    /// Whether this is a stop caused by `SIGTRAP`.
    #[verifier::when_used_as_spec(spec_is_trap)]
    pub fn is_trap(self) -> (r: bool)
        ensures
            r == self.spec_is_trap(),
    {
        match self {
            Status::Stopped(signal, _) => signal == SIGTRAP,
            _ => false,
        }
    }
}

} // verus!
