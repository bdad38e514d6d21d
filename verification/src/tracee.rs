//! The operations a traced process offers to the engine.

use vstd::prelude::*;

verus! {

/// Why an operating-system call on the traced process failed.
#[derive(Clone, Copy, Debug, PartialEq, Eq, Structural)]
pub enum OsError {
    /// The call failed with this `errno` value.
    Errno(i32),
    /// The call failed without an `errno`.
    Other,
}

/// What a wait on the traced process observed.
#[derive(Clone, Copy, Debug, PartialEq, Eq, Structural)]
pub enum WaitEvent {
    /// The process exited normally with this code.
    Exited(i32),
    /// The process was killed by this signal.
    Signaled(i32),
    /// The process is stopped on this signal.
    Stopped(i32),
    /// The process is stopped by a tracing event that carries this signal
    /// and this event number.
    TraceEvent(i32, i32),
    /// The process is stopped at a system call.
    TraceSyscall,
    /// The process went on after a stop.
    Continued,
    /// A non-blocking wait found no change of state.
    StillAlive,
}

/// The registers the engine reads.
#[derive(Clone, Copy, Debug, PartialEq, Eq, Structural)]
pub struct Registers {
    /// Instruction pointer.
    pub rip: usize,
    /// Frame pointer.
    pub rbp: usize,
}

/// One traced process, seen through the primitive operations of the
/// operating system's tracing interface.
///
/// Nothing is assumed of an implementation: whatever the engine proves holds
/// for every outcome of every call. The handle itself does not change when the
/// process does: every operation takes it by shared reference.
pub trait Tracee {
    /// Process identifier.
    fn pid(&self) -> i32;

    /// Reads the word at `addr`.
    fn peek_word(&self, addr: usize) -> Result<u64, OsError>;

    /// Writes `word` at `addr`.
    fn poke_word(&self, addr: usize, word: u64) -> Result<(), OsError>;

    /// Reads the registers.
    fn registers(&self) -> Result<Registers, OsError>;

    /// Sets the instruction pointer, leaving every other register as it is.
    fn set_rip(&self, rip: usize) -> Result<(), OsError>;

    /// Lets the process run until its next stop.
    fn resume(&self) -> Result<(), OsError>;

    /// Lets the process run for one instruction.
    fn single_step(&self) -> Result<(), OsError>;

    /// Waits for the next change of state; with `block` unset, returns at once.
    fn wait_event(&self, block: bool) -> Result<WaitEvent, OsError>;

    /// Sends the process a kill signal.
    fn send_kill(&self) -> Result<(), OsError>;
}

/// Whether reading the word at `addr` of `tracee` can come out as `r`.
pub open spec fn peeks<T: Tracee>(tracee: T, addr: usize, r: Result<u64, OsError>) -> bool {
    call_ensures(T::peek_word, (&tracee, addr), r)
}

/// Whether writing `word` at `addr` of `tracee` can come out as `r`.
pub open spec fn pokes<T: Tracee>(tracee: T, addr: usize, word: u64, r: Result<(), OsError>) -> bool {
    call_ensures(T::poke_word, (&tracee, addr, word), r)
}

/// Whether reading the registers of `tracee` can come out as `r`.
pub open spec fn reads_registers<T: Tracee>(tracee: T, r: Result<Registers, OsError>) -> bool {
    call_ensures(T::registers, (&tracee,), r)
}

/// Whether setting the instruction pointer of `tracee` to `rip` can come out
/// as `r`.
pub open spec fn sets_rip<T: Tracee>(tracee: T, rip: usize, r: Result<(), OsError>) -> bool {
    call_ensures(T::set_rip, (&tracee, rip), r)
}

/// Whether asking `tracee` to run on can come out as `r`.
pub open spec fn resumes<T: Tracee>(tracee: T, r: Result<(), OsError>) -> bool {
    call_ensures(T::resume, (&tracee,), r)
}

/// Whether asking `tracee` to run for one instruction can come out as `r`.
pub open spec fn steps<T: Tracee>(tracee: T, r: Result<(), OsError>) -> bool {
    call_ensures(T::single_step, (&tracee,), r)
}

/// Whether waiting for `tracee`, blocking or not, can come out as `r`.
pub open spec fn awaits<T: Tracee>(tracee: T, block: bool, r: Result<WaitEvent, OsError>) -> bool {
    call_ensures(T::wait_event, (&tracee, block), r)
}

/// Whether sending `tracee` the kill signal can come out as `r`.
pub open spec fn kills<T: Tracee>(tracee: T, r: Result<(), OsError>) -> bool {
    call_ensures(T::send_kill, (&tracee,), r)
}

} // verus!
