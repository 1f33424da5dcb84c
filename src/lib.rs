//! Core of a process-level debugger: software breakpoints patched into a
//! target's memory, the step-over protocol that keeps them armed, the
//! frame-pointer unwinder and the session that ties them together. Every
//! piece here is a pure decision procedure; the process itself (spawn,
//! ptrace, waitpid) is driven by the caller, which hands back what it saw.

pub mod memory;
pub mod status;
pub mod breakpoints;
pub mod engine;
pub mod parse;
pub mod unwind;
pub mod session;
pub mod command;
pub mod list;
pub mod warmup;
pub mod upstream;
