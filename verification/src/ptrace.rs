//! A traced child process driven through `ptrace(2)` and `waitpid(2)`.

use vstd::prelude::*;
use nix::sys::wait::{waitpid, WaitPidFlag, WaitStatus};
use nix::unistd::Pid;
use nix::Error;
use crate::inferior::{can_wait, ControlError, Status};
use crate::tracee::{OsError, Registers, Tracee, WaitEvent};

verus! {

/// `libc::user_regs_struct`, the user registers as `ptrace` hands them over;
/// carried through unread.
#[verifier::external_type_specification]
#[verifier::external_body]
pub struct ExUserRegs(nix::libc::user_regs_struct);

/// Calls `nix::sys::ptrace::read`, which fetches one word of the process's
/// memory. Nothing is claimed of the word: it is whatever the process holds.
/// A failure is handed on as the `errno` it carries: `read` fails only with
/// the `errno` of the system call, and never with the number zero, which
/// stands for an `errno` that nix does not know: such a call it takes to have
/// read a word.
#[verifier::external_body]
fn ptrace_read(pid: i32, addr: usize) -> (r: Result<u64, Option<i32>>)
    ensures
        r matches Err(code) ==> code is Some && code != Some(0i32),
{
    match nix::sys::ptrace::read(
        Pid::from_raw(pid),
        addr as nix::sys::ptrace::AddressType,
    ) {
        Ok(word) => Ok(word as u64),
        Err(Error::Sys(errno)) => Err(Some(errno as i32)),
        Err(_) => Err(None),
    }
}

/// Calls `nix::sys::ptrace::write`, which stores one word into the process's
/// memory. A failure is handed on as the `errno` it carries: `write` fails
/// only with the `errno` of the system call.
#[verifier::external_body]
fn ptrace_write(pid: i32, addr: usize, word: u64) -> (r: Result<(), Option<i32>>)
    ensures
        r matches Err(code) ==> code is Some,
{
    match nix::sys::ptrace::write(
        Pid::from_raw(pid),
        addr as nix::sys::ptrace::AddressType,
        word as nix::sys::ptrace::AddressType,
    ) {
        Ok(()) => Ok(()),
        Err(Error::Sys(errno)) => Err(Some(errno as i32)),
        Err(_) => Err(None),
    }
}

/// Calls `nix::sys::ptrace::getregs`, which copies the process's user
/// registers. Nothing is claimed of them. A failure is handed on as the
/// `errno` it carries: `getregs` fails only with the `errno` of the system
/// call.
#[verifier::external_body]
fn ptrace_getregs(pid: i32) -> (r: Result<nix::libc::user_regs_struct, Option<i32>>)
    ensures
        r matches Err(code) ==> code is Some,
{
    match nix::sys::ptrace::getregs(Pid::from_raw(pid)) {
        Ok(regs) => Ok(regs),
        Err(Error::Sys(errno)) => Err(Some(errno as i32)),
        Err(_) => Err(None),
    }
}

/// Calls `nix::sys::ptrace::setregs`, which replaces the process's user
/// registers. A failure is handed on as the `errno` it carries: `setregs`
/// fails only with the `errno` of the system call.
#[verifier::external_body]
fn ptrace_setregs(pid: i32, regs: nix::libc::user_regs_struct) -> (r: Result<(), Option<i32>>)
    ensures
        r matches Err(code) ==> code is Some,
{
    match nix::sys::ptrace::setregs(Pid::from_raw(pid), regs) {
        Ok(()) => Ok(()),
        Err(Error::Sys(errno)) => Err(Some(errno as i32)),
        Err(_) => Err(None),
    }
}

/// Reads the fields `rip` and `rbp` of a `libc::user_regs_struct`. Nothing
/// is claimed of them.
#[verifier::external_body]
fn pointers_of(regs: &nix::libc::user_regs_struct) -> Registers {
    Registers { rip: regs.rip as usize, rbp: regs.rbp as usize }
}

/// Copies a `libc::user_regs_struct` with `rip` in its field `rip`. Nothing
/// is claimed of the copy.
#[verifier::external_body]
fn with_rip(regs: nix::libc::user_regs_struct, rip: usize) -> nix::libc::user_regs_struct {
    let mut changed = regs;
    changed.rip = rip as u64;
    changed
}

/// Calls `nix::sys::ptrace::cont` without a signal to deliver. A failure is
/// handed on as the `errno` it carries: `cont` fails only with the `errno`
/// of the system call.
#[verifier::external_body]
fn ptrace_cont(pid: i32) -> (r: Result<(), Option<i32>>)
    ensures
        r matches Err(code) ==> code is Some,
{
    match nix::sys::ptrace::cont(Pid::from_raw(pid), None) {
        Ok(()) => Ok(()),
        Err(Error::Sys(errno)) => Err(Some(errno as i32)),
        Err(_) => Err(None),
    }
}

/// Calls `nix::sys::ptrace::step` without a signal to deliver. A failure is
/// handed on as the `errno` it carries: `step` fails only with the `errno`
/// of the system call.
#[verifier::external_body]
fn ptrace_step(pid: i32) -> (r: Result<(), Option<i32>>)
    ensures
        r matches Err(code) ==> code is Some,
{
    match nix::sys::ptrace::step(Pid::from_raw(pid), None) {
        Ok(()) => Ok(()),
        Err(Error::Sys(errno)) => Err(Some(errno as i32)),
        Err(_) => Err(None),
    }
}

/// Calls `nix::sys::wait::waitpid` on one process, with `WNOHANG` when
/// `nohang` is set, and hands its status on variant by variant without the
/// process identifier. `waitpid` reports that nothing changed only when it was
/// told not to block. A failure is handed on as the `errno` it carries:
/// `waitpid` fails only with the `errno` of the system call, or with `EINVAL`
/// for a status that names no signal.
#[verifier::external_body]
fn wait_pid(pid: i32, nohang: bool) -> (r: Result<WaitEvent, Option<i32>>)
    requires
        pid > 0,
    ensures
        r matches Ok(WaitEvent::StillAlive) ==> nohang,
        r matches Err(code) ==> code is Some,
{
    match waitpid(Pid::from_raw(pid), nohang.then_some(WaitPidFlag::WNOHANG)) {
        Ok(WaitStatus::Exited(_, code)) => Ok(WaitEvent::Exited(code)),
        Ok(WaitStatus::Signaled(_, signal, _)) => Ok(WaitEvent::Signaled(signal as i32)),
        Ok(WaitStatus::Stopped(_, signal)) => Ok(WaitEvent::Stopped(signal as i32)),
        Ok(WaitStatus::PtraceEvent(_, signal, event)) => Ok(
            WaitEvent::TraceEvent(signal as i32, event),
        ),
        Ok(WaitStatus::PtraceSyscall(_)) => Ok(WaitEvent::TraceSyscall),
        Ok(WaitStatus::Continued(_)) => Ok(WaitEvent::Continued),
        Ok(WaitStatus::StillAlive) => Ok(WaitEvent::StillAlive),
        Err(Error::Sys(errno)) => Err(Some(errno as i32)),
        Err(_) => Err(None),
    }
}

/// Calls `nix::sys::signal::kill` with `SIGKILL` on one process. A failure is
/// handed on as the `errno` it carries: `kill` fails only with the `errno` of
/// the system call.
#[verifier::external_body]
fn kill_pid(pid: i32) -> (r: Result<(), Option<i32>>)
    requires
        pid > 0,
    ensures
        r matches Err(code) ==> code is Some,
{
    match nix::sys::signal::kill(Pid::from_raw(pid), nix::sys::signal::Signal::SIGKILL) {
        Ok(()) => Ok(()),
        Err(Error::Sys(errno)) => Err(Some(errno as i32)),
        Err(_) => Err(None),
    }
}

/// What the failure of a system call is to the engine, by the `errno` that
/// came with it.
pub open spec fn failure_of(code: Option<i32>) -> OsError {
    match code {
        Some(errno) => OsError::Errno(errno),
        None => OsError::Other,
    }
}

/// Turns the `errno` of a failed system call into the engine's error.
pub fn os_error(code: Option<i32>) -> (e: OsError)
    ensures
        e == failure_of(code),
{
    match code {
        Some(errno) => OsError::Errno(errno),
        None => OsError::Other,
    }
}

/// A child process that this process traces.
pub struct PtraceChild {
    pid: i32,
}

impl PtraceChild {
    #[verifier::type_invariant]
    spec fn names_one_process(self) -> bool {
        self.pid > 0
    }

    /// The process identifier this handle was made with.
    pub closed spec fn id(&self) -> i32 {
        self.pid
    }

    /// Takes over the traced child with process identifier `pid`. Identifiers
    /// that name no single process are refused.
    pub fn new(pid: i32) -> (child: Option<PtraceChild>)
        ensures
            child is Some <==> pid > 0,
            child matches Some(c) ==> c.id() == pid,
    {
        if pid > 0 {
            Some(PtraceChild { pid })
        } else {
            None
        }
    }
}

impl Tracee for PtraceChild {
    fn pid(&self) -> (pid: i32)
        ensures
            pid == self.id(),
            pid > 0,
    {
        proof {
            use_type_invariant(self);
        }
        self.pid
    }

    /// A failure carries the `errno` of the system call, which is not zero.
    fn peek_word(&self, addr: usize) -> (r: Result<u64, OsError>)
        ensures
            r matches Err(e) ==> e is Errno && e != OsError::Errno(0),
    {
        match ptrace_read(self.pid, addr) {
            Ok(word) => Ok(word),
            Err(code) => Err(os_error(code)),
        }
    }

    /// A failure carries the `errno` of the system call.
    fn poke_word(&self, addr: usize, word: u64) -> (r: Result<(), OsError>)
        ensures
            r matches Err(e) ==> e is Errno,
    {
        match ptrace_write(self.pid, addr, word) {
            Ok(()) => Ok(()),
            Err(code) => Err(os_error(code)),
        }
    }

    /// A failure carries the `errno` of the system call.
    fn registers(&self) -> (r: Result<Registers, OsError>)
        ensures
            r matches Err(e) ==> e is Errno,
    {
        match ptrace_getregs(self.pid) {
            Ok(regs) => Ok(pointers_of(&regs)),
            Err(code) => Err(os_error(code)),
        }
    }

    /// The registers are read and written back with the one pointer
    /// replaced. A failure of either step carries the `errno` of its system
    /// call.
    fn set_rip(&self, rip: usize) -> (r: Result<(), OsError>)
        ensures
            r matches Err(e) ==> e is Errno,
    {
        match ptrace_getregs(self.pid) {
            Ok(regs) => match ptrace_setregs(self.pid, with_rip(regs, rip)) {
                Ok(()) => Ok(()),
                Err(code) => Err(os_error(code)),
            },
            Err(code) => Err(os_error(code)),
        }
    }

    /// A failure carries the `errno` of the system call.
    fn resume(&self) -> (r: Result<(), OsError>)
        ensures
            r matches Err(e) ==> e is Errno,
    {
        match ptrace_cont(self.pid) {
            Ok(()) => Ok(()),
            Err(code) => Err(os_error(code)),
        }
    }

    /// A failure carries the `errno` of the system call.
    fn single_step(&self) -> (r: Result<(), OsError>)
        ensures
            r matches Err(e) ==> e is Errno,
    {
        match ptrace_step(self.pid) {
            Ok(()) => Ok(()),
            Err(code) => Err(os_error(code)),
        }
    }

    /// A wait that blocks does not come back without news. A failure carries
    /// the `errno` of the system call.
    fn wait_event(&self, block: bool) -> (r: Result<WaitEvent, OsError>)
        ensures
            r matches Ok(WaitEvent::StillAlive) ==> !block,
            r matches Err(e) ==> e is Errno,
    {
        proof {
            use_type_invariant(self);
        }
        match wait_pid(self.pid, !block) {
            Ok(event) => Ok(event),
            Err(code) => Err(os_error(code)),
        }
    }

    /// A failure carries the `errno` of the system call.
    fn send_kill(&self) -> (r: Result<(), OsError>)
        ensures
            r matches Err(e) ==> e is Errno,
    {
        proof {
            use_type_invariant(self);
        }
        match kill_pid(self.pid) {
            Ok(()) => Ok(()),
            Err(code) => Err(os_error(code)),
        }
    }
}

/// A blocking wait for a traced child does not come back without news: what
/// the engine makes of it is never the complaint that nothing has changed.
pub proof fn blocking_wait_has_news(child: PtraceChild, r: Result<Status, ControlError>)
    requires
        can_wait(child, r),
    ensures
        r != Err::<Status, ControlError>(ControlError::Unexpected(WaitEvent::StillAlive)),
{
}

} // verus!
