//! A source-level debugger engine for native executables: breakpoint
//! bookkeeping, the resume protocol that steps over a displaced trap byte,
//! line stepping and frame-pointer backtraces, all stated over a small model
//! of the traced process.

pub mod memory;
pub mod tracee;
pub mod ptrace;
pub mod breakpoint;
pub mod inferior;
pub mod symbols;
pub mod debugger;
pub mod target;
pub mod linked_list;
