//! The debugging session: one optional traced process, the breakpoint table,
//! and the protocol that resumes a process across a breakpoint.
//!
//! A software breakpoint overwrites one byte of an instruction with a trap
//! opcode. When the trap has fired the instruction pointer sits one byte past
//! the breakpoint. The session then puts the displaced byte back and rewinds
//! the instruction pointer, and remembers that it is halted at that address.
//! On the next request to run it executes the one real instruction with a
//! single step, puts the trap back, and only then lets the process run.

use vstd::prelude::*;
use crate::breakpoint::{
    declared_in,
    distinct_addresses,
    patched,
    position_in,
    same_addresses,
    Breakpoint,
    BreakpointTable,
    PatchError,
    TRAP_OPCODE,
};
use crate::inferior::{
    can_backtrace,
    can_cont,
    can_get_rip,
    can_kill,
    can_probe,
    can_set_rip,
    can_step,
    can_take_over,
    can_write,
    walked,
    ControlError,
    Inferior,
    MemoryError,
    SpawnError,
    Status,
    UnwindError,
    UnwindFailure,
    SIGTRAP,
};
use crate::symbols::{
    finds_function,
    finds_line,
    resolves_line,
    Frame,
    SourceLocation,
    SymbolResolver,
};
use crate::target::{classify_target, target_of, BreakTarget};
use crate::tracee::Tracee;

verus! {

/// What a command did, for the caller to tell the user.
#[derive(Clone, Debug, PartialEq, Eq)]
pub enum Report {
    /// The command needs a running process and there is none.
    NoProcess,
    /// The process exited with this code; it is gone.
    Exited(i32),
    /// The process was killed by this signal; it is gone.
    Signaled(i32),
    /// The process stopped on a signal, at this source line if it is known.
    Stopped(i32, Option<SourceLocation>),
    /// The process ran into the breakpoint at this address and is halted
    /// there, at this source line if it is known.
    BreakpointHit(usize, Option<SourceLocation>),
    /// The process could not be made to run; it has been given up.
    ControlFailed(ControlError),
    /// The process stopped past a breakpoint, but the displaced byte could not
    /// be put back; the process has been given up.
    RestoreFailed(PatchError),
    /// The process stopped past a breakpoint, but its instruction pointer
    /// could not be moved back; the process has been given up.
    RewindFailed(MemoryError),
    /// The trap could not be put back after the step over a breakpoint; the
    /// process is still halted at that breakpoint.
    RearmFailed(PatchError),
    /// The process has reached the next source line.
    Stepped(SourceLocation),
    /// The process has executed as many instructions as the step was allowed
    /// and has not reached the next source line.
    StepLimit,
    /// The instruction pointer could not be read; nothing was done.
    RegistersFailed(MemoryError),
    /// No source line is known for this instruction pointer; nothing was
    /// done.
    LineUnknown(usize),
    /// A breakpoint with this index is declared at this address.
    BreakpointSet(usize, usize),
    /// The token names no place in the program; nothing was declared.
    InvalidBreakpoint,
    /// The trap could not be put into the running process; nothing was
    /// declared.
    PatchFailed(PatchError),
    /// The call stack, innermost frame first.
    Frames(Vec<Frame>),
    /// The call stack could not be walked up to the entry function.
    UnwindFailed(UnwindFailure),
    /// The process with this identifier was killed; it is gone.
    Killed(i32),
    /// The process that was started could not be taken over.
    SpawnFailed(SpawnError),
}

/// The byte that the session keeps at a breakpoint's address in a running
/// process: the displaced byte at the breakpoint the process is halted at, the
/// trap opcode everywhere else.
pub open spec fn byte_kept(record: Breakpoint, halted: Option<usize>) -> u8 {
    if halted == Some(record.addr) {
        record.orig_byte
    } else {
        TRAP_OPCODE
    }
}

/// Whether `patches` holds, at the address of every record, the byte that the
/// session keeps there.
pub open spec fn patched_as_kept(
    records: Seq<Breakpoint>,
    patches: Map<usize, u8>,
    halted: Option<usize>,
) -> bool {
    forall|i: int|
        0 <= i < records.len() ==> patches.contains_key(#[trigger] records[i].addr)
            && patches[records[i].addr] == byte_kept(records[i], halted)
}

/// Whether the stop of a process on `signal` with instruction pointer `rip`
/// is the hit of a declared breakpoint: the signal is the trap signal, the
/// byte just before the instruction pointer is a declared address, and that
/// address is not `stepped_off`, the breakpoint whose real instruction the
/// process has just executed.
pub open spec fn hits_breakpoint(
    records: Seq<Breakpoint>,
    signal: i32,
    rip: usize,
    stepped_off: Option<usize>,
) -> bool {
    &&& signal == SIGTRAP
    &&& rip >= 1
    &&& declared_in(records, (rip - 1) as usize)
    &&& stepped_off != Some((rip - 1) as usize)
}

/// Whether a step that began on source line `start` is complete on source
/// line `line`: it is on the line that follows.
pub open spec fn is_next_line(start: usize, line: usize) -> bool {
    line == start + 1
}

/// Tells whether the stop of a process on `signal` with instruction pointer
/// `rip` is the hit of a breakpoint of `table`, and of which: the one at the
/// byte before the instruction pointer. `stepped_off` is the breakpoint whose
/// real instruction the process has just executed, if it has.
pub fn breakpoint_hit(
    table: &BreakpointTable,
    signal: i32,
    rip: usize,
    stepped_off: Option<usize>,
) -> (hit: Option<usize>)
    requires
        table.wf(),
    ensures
        hit == (if hits_breakpoint(table@, signal, rip, stepped_off) {
            Some((rip - 1) as usize)
        } else {
            None
        }),
{
    if signal == SIGTRAP && rip >= 1 && stepped_off != Some(rip - 1) && table.position(
        rip - 1,
    ).is_some() {
        Some(rip - 1)
    } else {
        None
    }
}

/// Tells whether a step that began on source line `start` is complete on
/// source line `line`.
pub fn reached_next_line(start: usize, line: usize) -> (done: bool)
    ensures
        done == is_next_line(start, line),
{
    start < usize::MAX && line == start + 1
}

/// The breakpoint that the stop of a process on `signal` with instruction
/// pointer `rip` is the hit of, if it is one.
pub open spec fn hit_of(
    records: Seq<Breakpoint>,
    signal: i32,
    rip: usize,
    stepped_off: Option<usize>,
) -> Option<usize> {
    if hits_breakpoint(records, signal, rip, stepped_off) {
        Some((rip - 1) as usize)
    } else {
        None
    }
}

/// What a session keeps of its process: the bytes written into it and the
/// breakpoint it is halted at.
pub struct Kept {
    /// At each address the byte of the last write that succeeded.
    pub patches: Map<usize, u8>,
    /// The breakpoint at which the process is halted with its trap displaced.
    pub halted: Option<usize>,
}

/// A process that has executed one instruction and stopped, with every trap
/// in place.
pub struct Stepped {
    /// At each address the byte of the last write that succeeded.
    pub patches: Map<usize, u8>,
    /// The signal the process stopped on.
    pub signal: i32,
    /// The instruction pointer of the stop.
    pub rip: usize,
    /// The breakpoint whose real instruction the process has just executed.
    pub stepped_off: Option<usize>,
}

/// Whether a process that has stopped on `signal` at `rip` with every trap in
/// place can be settled as `end` and `report` say.
///
/// Where the stop is the hit of a breakpoint, the displaced byte is written
/// back, then the instruction pointer is set to the breakpoint, then the
/// source line is looked up; the process is kept halted at the breakpoint,
/// and given up where the write or the rewind fails. Any other stop keeps the
/// process as it is and looks up the source line of the stop.
pub open spec fn can_arrive<T: Tracee, S: SymbolResolver>(
    records: Seq<Breakpoint>,
    symbols: S,
    tracee: T,
    patches: Map<usize, u8>,
    signal: i32,
    rip: usize,
    stepped_off: Option<usize>,
    end: Option<Kept>,
    report: Report,
) -> bool {
    match hit_of(records, signal, rip, stepped_off) {
        Some(addr) => {
            let displaced = records[position_in(records, addr)].orig_byte;
            exists|written: Result<u8, MemoryError>| #[trigger]
                can_write(tracee, addr, displaced, written) && match written {
                    Err(e) => end is None && report == Report::RestoreFailed(
                        PatchError::Memory(addr, e),
                    ),
                    Ok(_) => exists|set: Result<(), MemoryError>| #[trigger]
                        can_set_rip(tracee, addr, set) && match set {
                            Err(e) => end is None && report == Report::RewindFailed(e),
                            Ok(()) => exists|line: Option<SourceLocation>| #[trigger]
                                resolves_line(symbols, addr, line) && end == Some(
                                    Kept {
                                        patches: patches.insert(addr, displaced),
                                        halted: Some(addr),
                                    },
                                ) && report == Report::BreakpointHit(addr, line),
                        },
                }
        },
        None => exists|line: Option<SourceLocation>| #[trigger]
            resolves_line(symbols, rip, line) && end == Some(Kept { patches, halted: None })
                && report == Report::Stopped(signal, line),
    }
}

/// Whether a process with every trap in place can be let run and settled as
/// `end` and `report` say: it is resumed and waited for; its end or a failure
/// to resume it gives it up, a stop is settled as [`can_arrive`] says.
pub open spec fn can_run_on<T: Tracee, S: SymbolResolver>(
    records: Seq<Breakpoint>,
    symbols: S,
    tracee: T,
    patches: Map<usize, u8>,
    end: Option<Kept>,
    report: Report,
) -> bool {
    exists|status: Result<Status, ControlError>| #[trigger]
        can_cont(tracee, status) && match status {
            Ok(Status::Exited(code)) => end is None && report == Report::Exited(code),
            Ok(Status::Signaled(signal)) => end is None && report == Report::Signaled(signal),
            Ok(Status::Stopped(signal, rip)) => can_arrive(
                records,
                symbols,
                tracee,
                patches,
                signal,
                rip,
                None,
                end,
                report,
            ),
            Err(e) => end is None && report == Report::ControlFailed(e),
        }
}

/// Whether a process can execute one instruction as `r` says: it is stepped
/// and waited for; its end or a failure to step it gives it up. Where it has
/// stopped and the session was halted at a breakpoint, the trap is written
/// back there; where that write fails the process stays halted as it was.
pub open spec fn can_step_once<T: Tracee>(
    tracee: T,
    kept: Kept,
    r: Result<Stepped, (Option<Kept>, Report)>,
) -> bool {
    exists|status: Result<Status, ControlError>| #[trigger]
        can_step(tracee, status) && match status {
            Ok(Status::Exited(code)) => r == Err::<Stepped, (Option<Kept>, Report)>(
                (None, Report::Exited(code)),
            ),
            Ok(Status::Signaled(signal)) => r == Err::<Stepped, (Option<Kept>, Report)>(
                (None, Report::Signaled(signal)),
            ),
            Ok(Status::Stopped(signal, rip)) => match kept.halted {
                None => r == Ok::<Stepped, (Option<Kept>, Report)>(
                    Stepped { patches: kept.patches, signal, rip, stepped_off: None },
                ),
                Some(addr) => exists|written: Result<u8, MemoryError>| #[trigger]
                    can_write(tracee, addr, TRAP_OPCODE, written) && match written {
                        Ok(_) => r == Ok::<Stepped, (Option<Kept>, Report)>(
                            Stepped {
                                patches: kept.patches.insert(addr, TRAP_OPCODE),
                                signal,
                                rip,
                                stepped_off: Some(addr),
                            },
                        ),
                        Err(e) => r == Err::<Stepped, (Option<Kept>, Report)>(
                            (Some(kept), Report::RearmFailed(PatchError::Memory(addr, e))),
                        ),
                    },
            },
            Err(e) => r == Err::<Stepped, (Option<Kept>, Report)>(
                (None, Report::ControlFailed(e)),
            ),
        }
}

/// A process that is kept after the hit of a breakpoint is halted at that
/// breakpoint, and the last byte written there is the displaced byte of the
/// breakpoint's record: the instruction under the trap is whole again before
/// anything lets the process run.
pub proof fn hit_puts_the_displaced_byte_back<T: Tracee, S: SymbolResolver>(
    records: Seq<Breakpoint>,
    symbols: S,
    tracee: T,
    patches: Map<usize, u8>,
    signal: i32,
    rip: usize,
    stepped_off: Option<usize>,
    end: Option<Kept>,
    report: Report,
)
    requires
        hits_breakpoint(records, signal, rip, stepped_off),
        can_arrive(records, symbols, tracee, patches, signal, rip, stepped_off, end, report),
        end is Some,
    ensures
        report is BreakpointHit,
        end.unwrap().halted == Some((rip - 1) as usize),
        end.unwrap().patches.contains_key((rip - 1) as usize),
        end.unwrap().patches[(rip - 1) as usize] == records[position_in(
            records,
            (rip - 1) as usize,
        )].orig_byte,
{
}

/// A process that has come through the one step of [`can_step_once`] has the
/// trap at every declared breakpoint, also at the one it was halted at: the
/// trap is back before the process is let run. Where the process was not
/// halted at a breakpoint the step writes nothing.
pub proof fn step_puts_the_trap_back<T: Tracee>(
    records: Seq<Breakpoint>,
    tracee: T,
    kept: Kept,
    stepped: Result<Stepped, (Option<Kept>, Report)>,
)
    requires
        patched_as_kept(records, kept.patches, kept.halted),
        can_step_once(tracee, kept, stepped),
        stepped is Ok,
    ensures
        patched_as_kept(records, stepped->Ok_0.patches, None),
        stepped->Ok_0.stepped_off == kept.halted,
        kept.halted is None ==> stepped->Ok_0.patches == kept.patches,
{
}

/// Whether a request to continue can end as `end` and `report` say.
///
/// Without a process there is nothing to do. A process is first probed, and
/// given up where it is found dead. Where the session is halted at a
/// breakpoint the process executes one instruction as [`can_step_once`]
/// says; then, and only with every trap in place, it is let run as
/// [`can_run_on`] says.
pub open spec fn can_continue<T: Tracee, S: SymbolResolver>(
    records: Seq<Breakpoint>,
    symbols: S,
    tracee: T,
    before: Option<Kept>,
    end: Option<Kept>,
    report: Report,
) -> bool {
    match before {
        None => end is None && report == Report::NoProcess,
        Some(kept) => exists|alive: bool| #[trigger]
            can_probe(tracee, alive) && if !alive {
                end is None && report == Report::NoProcess
            } else if kept.halted is None {
                can_run_on(records, symbols, tracee, kept.patches, end, report)
            } else {
                exists|stepped: Result<Stepped, (Option<Kept>, Report)>| #[trigger]
                    can_step_once(tracee, kept, stepped) && match stepped {
                        Ok(at) => can_run_on(records, symbols, tracee, at.patches, end, report),
                        Err(ended) => end == ended.0 && report == ended.1,
                    }
            },
    }
}

/// Whether the declaration of a breakpoint at `addr` can end as `after`,
/// `end` and `report` say.
///
/// A process is first probed, and given up where it is found dead. An address
/// that is declared already keeps its record. A new one is declared with no
/// byte to remember where there is no process; where there is one the trap is
/// written first, and the address is declared with the displaced byte, or not
/// at all where the write fails.
pub open spec fn can_break_at<T: Tracee>(
    records: Seq<Breakpoint>,
    tracee: T,
    before: Option<Kept>,
    addr: usize,
    after: Seq<Breakpoint>,
    end: Option<Kept>,
    report: Report,
) -> bool {
    let index = if declared_in(records, addr) {
        position_in(records, addr) as usize
    } else {
        records.len() as usize
    };
    match before {
        None => end is None && report == Report::BreakpointSet(index, addr) && after == (if declared_in(
            records,
            addr,
        ) {
            records
        } else {
            records.push(Breakpoint { addr, orig_byte: 0 })
        }),
        Some(kept) => exists|alive: bool| #[trigger]
            can_probe(tracee, alive) && if declared_in(records, addr) {
                after == records && report == Report::BreakpointSet(index, addr) && end == (if alive {
                    before
                } else {
                    None
                })
            } else if !alive {
                after == records.push(Breakpoint { addr, orig_byte: 0 }) && end is None && report
                    == Report::BreakpointSet(index, addr)
            } else {
                exists|written: Result<u8, MemoryError>| #[trigger]
                    can_write(tracee, addr, TRAP_OPCODE, written) && match written {
                        Ok(displaced) => after == records.push(
                            Breakpoint { addr, orig_byte: displaced },
                        ) && end == Some(
                            Kept {
                                patches: kept.patches.insert(addr, TRAP_OPCODE),
                                halted: kept.halted,
                            },
                        ) && report == Report::BreakpointSet(index, addr),
                        Err(e) => after == records && end == before && report
                            == Report::PatchFailed(PatchError::Memory(addr, e)),
                    }
            },
    }
}

/// Whether the place that `token` names can be found to be `found`: an
/// address is what the token says, a line or a function is looked up in the
/// debugging symbols, and a token without a place names none.
pub open spec fn can_find<S: SymbolResolver>(symbols: S, token: &str, found: Option<usize>) -> bool {
    match target_of(token@) {
        BreakTarget::Address(addr) => found == Some(addr),
        BreakTarget::Line(line) => finds_line(symbols, line, found),
        BreakTarget::Function => finds_function(symbols, token, found),
        BreakTarget::Invalid => found is None,
    }
}

/// Whether the declaration of a breakpoint at the place that `token` names
/// can end as `after`, `end` and `report` say: the place is found as
/// [`can_find`] says and declared as [`can_break_at`] says; a token that
/// names no place changes nothing.
pub open spec fn can_set_bp<T: Tracee, S: SymbolResolver>(
    records: Seq<Breakpoint>,
    symbols: S,
    tracee: T,
    before: Option<Kept>,
    token: &str,
    after: Seq<Breakpoint>,
    end: Option<Kept>,
    report: Report,
) -> bool {
    exists|found: Option<usize>| #[trigger]
        can_find(symbols, token, found) && match found {
            Some(addr) => can_break_at(records, tracee, before, addr, after, end, report),
            None => report == Report::InvalidBreakpoint && after == records && end == before,
        }
}

/// The frames and the cause of a report on a walk up the call stack, as
/// [`walked`] gives them; no other report stands for a walk.
pub open spec fn walk_reported(report: Report) -> Option<(Seq<Frame>, Option<UnwindError>)> {
    match report {
        Report::Frames(frames) => Some(walked(Ok(frames))),
        Report::UnwindFailed(failure) => Some(walked(Err(failure))),
        _ => None,
    }
}

/// Whether a request for the call stack, walked for at most `max_frames`
/// frames, can end as `end` and `report` say.
///
/// Without a process there is nothing to do. A process is first probed, and
/// given up where it is found dead. Otherwise its stack is walked as
/// [`can_backtrace`] says, and the session stays as it was.
pub open spec fn can_trace<T: Tracee, S: SymbolResolver>(
    symbols: S,
    tracee: T,
    before: Option<Kept>,
    max_frames: usize,
    end: Option<Kept>,
    report: Report,
) -> bool {
    match before {
        None => end is None && report == Report::NoProcess,
        Some(_) => exists|alive: bool| #[trigger]
            can_probe(tracee, alive) && if !alive {
                end is None && report == Report::NoProcess
            } else {
                end == before && match walk_reported(report) {
                    Some(walk) => can_backtrace(tracee, symbols, max_frames, walk),
                    None => false,
                }
            },
    }
}

/// Whether a request to kill the process can end with `report`: a process is
/// probed and, where it is alive, asked for its identifier, killed and waited
/// for. The session holds no process afterwards.
pub open spec fn can_terminate<T: Tracee>(tracee: T, before: Option<Kept>, report: Report) -> bool {
    match before {
        None => report == Report::NoProcess,
        Some(_) => exists|alive: bool| #[trigger]
            can_probe(tracee, alive) && if !alive {
                report == Report::NoProcess
            } else {
                exists|pid: i32| #[trigger]
                    call_ensures(T::pid, (&tracee,), pid) && exists|killed: Result<
                        Status,
                        ControlError,
                    >| #[trigger]
                        can_kill(tracee, killed) && report == match killed {
                            Ok(_) => Report::Killed(pid),
                            Err(e) => Report::ControlFailed(e),
                        }
            },
    }
}

/// Whether taking a newly started process `tracee` into the session can end
/// as `after`, `end` and `report` say: the process held before is killed as
/// [`can_terminate`] says, the new one is taken over with every trap put into
/// it, and only then let run as [`can_run_on`] says.
pub open spec fn can_launch<T: Tracee, S: SymbolResolver>(
    records: Seq<Breakpoint>,
    symbols: S,
    held: T,
    before: Option<Kept>,
    tracee: T,
    after: Seq<Breakpoint>,
    end: Option<Kept>,
    report: Report,
) -> bool {
    exists|ended: Report| #[trigger]
        can_terminate(held, before, ended) && exists|taken: Result<Map<usize, u8>, SpawnError>| #[trigger]
            can_take_over(tracee, records, after, taken) && match taken {
                Ok(patches) => can_run_on(after, symbols, tracee, patches, end, report),
                Err(e) => end is None && report == Report::SpawnFailed(e),
            }
}

/// Whether a process can go on, one instruction at a time and for at most
/// `left` instructions, from the source line `start` as `end` and `report`
/// say.
///
/// Every instruction is executed as [`can_step_once`] says. A stop on another
/// signal than the trap signal ends the step and is reported with its source
/// line. The hit of a breakpoint is settled as [`can_arrive`] says. Otherwise
/// the source line is looked up, and the step is complete on the line that
/// follows `start`.
pub open spec fn can_step_on<T: Tracee, S: SymbolResolver>(
    records: Seq<Breakpoint>,
    symbols: S,
    tracee: T,
    kept: Kept,
    start: usize,
    left: nat,
    end: Option<Kept>,
    report: Report,
) -> bool
    decreases left,
{
    if left == 0 {
        end == Some(kept) && report == Report::StepLimit
    } else {
        exists|stepped: Result<Stepped, (Option<Kept>, Report)>| #[trigger]
            can_step_once(tracee, kept, stepped) && match stepped {
                Err(ended) => end == ended.0 && report == ended.1,
                Ok(at) => if at.signal != SIGTRAP {
                    exists|line: Option<SourceLocation>| #[trigger]
                        resolves_line(symbols, at.rip, line) && end == Some(
                            Kept { patches: at.patches, halted: None },
                        ) && report == Report::Stopped(at.signal, line)
                } else if hit_of(records, at.signal, at.rip, at.stepped_off) is Some {
                    can_arrive(
                        records,
                        symbols,
                        tracee,
                        at.patches,
                        at.signal,
                        at.rip,
                        at.stepped_off,
                        end,
                        report,
                    )
                } else {
                    exists|line: Option<SourceLocation>| #[trigger]
                        resolves_line(symbols, at.rip, line) && if line is Some && is_next_line(
                            start,
                            line->0.number,
                        ) {
                            end == Some(Kept { patches: at.patches, halted: None }) && report
                                == Report::Stepped(line->0)
                        } else {
                            can_step_on(
                                records,
                                symbols,
                                tracee,
                                Kept { patches: at.patches, halted: None },
                                start,
                                (left - 1) as nat,
                                end,
                                report,
                            )
                        }
                },
            }
    }
}

/// A step that is complete has reached the source line that follows the one
/// it began on, and leaves the process stopped there with every trap in
/// place.
pub proof fn step_ends_on_the_next_line<T: Tracee, S: SymbolResolver>(
    records: Seq<Breakpoint>,
    symbols: S,
    tracee: T,
    kept: Kept,
    start: usize,
    left: nat,
    end: Option<Kept>,
    report: Report,
)
    requires
        patched_as_kept(records, kept.patches, kept.halted),
        can_step_on(records, symbols, tracee, kept, start, left, end, report),
        report is Stepped,
    ensures
        report->Stepped_0.number == start + 1,
        end is Some,
        end.unwrap().halted is None,
        patched_as_kept(records, end.unwrap().patches, None),
    decreases left,
{
    let stepped = choose|stepped: Result<Stepped, (Option<Kept>, Report)>| #[trigger]
        can_step_once(tracee, kept, stepped) && match stepped {
            Err(ended) => end == ended.0 && report == ended.1,
            Ok(at) => if at.signal != SIGTRAP {
                exists|line: Option<SourceLocation>| #[trigger]
                    resolves_line(symbols, at.rip, line) && end == Some(
                        Kept { patches: at.patches, halted: None },
                    ) && report == Report::Stopped(at.signal, line)
            } else if hit_of(records, at.signal, at.rip, at.stepped_off) is Some {
                can_arrive(
                    records,
                    symbols,
                    tracee,
                    at.patches,
                    at.signal,
                    at.rip,
                    at.stepped_off,
                    end,
                    report,
                )
            } else {
                exists|line: Option<SourceLocation>| #[trigger]
                    resolves_line(symbols, at.rip, line) && if line is Some && is_next_line(
                        start,
                        line->0.number,
                    ) {
                        end == Some(Kept { patches: at.patches, halted: None }) && report
                            == Report::Stepped(line->0)
                    } else {
                        can_step_on(
                            records,
                            symbols,
                            tracee,
                            Kept { patches: at.patches, halted: None },
                            start,
                            (left - 1) as nat,
                            end,
                            report,
                        )
                    }
            },
        };
    step_puts_the_trap_back(records, tracee, kept, stepped);
    let at = stepped->Ok_0;
    let line = choose|line: Option<SourceLocation>| #[trigger]
        resolves_line(symbols, at.rip, line) && if line is Some && is_next_line(
            start,
            line->0.number,
        ) {
            end == Some(Kept { patches: at.patches, halted: None }) && report == Report::Stepped(
                line->0,
            )
        } else {
            can_step_on(
                records,
                symbols,
                tracee,
                Kept { patches: at.patches, halted: None },
                start,
                (left - 1) as nat,
                end,
                report,
            )
        };
    if !(line is Some && is_next_line(start, line->0.number)) {
        step_ends_on_the_next_line(
            records,
            symbols,
            tracee,
            Kept { patches: at.patches, halted: None },
            start,
            (left - 1) as nat,
            end,
            report,
        );
    }
}

/// Whether a request to step to the next source line, with at most
/// `max_steps` instructions, can end as `end` and `report` say.
///
/// Without a process there is nothing to do. A process is first probed, and
/// given up where it is found dead. Then its instruction pointer is read and
/// the source line of it looked up; where either fails nothing is done. From
/// that line the process goes on as [`can_step_on`] says.
pub open spec fn can_step_line<T: Tracee, S: SymbolResolver>(
    records: Seq<Breakpoint>,
    symbols: S,
    tracee: T,
    before: Option<Kept>,
    max_steps: usize,
    end: Option<Kept>,
    report: Report,
) -> bool {
    match before {
        None => end is None && report == Report::NoProcess,
        Some(kept) => exists|alive: bool| #[trigger]
            can_probe(tracee, alive) && if !alive {
                end is None && report == Report::NoProcess
            } else {
                exists|rip: Result<usize, MemoryError>| #[trigger]
                    can_get_rip(tracee, rip) && match rip {
                        Err(e) => end == before && report == Report::RegistersFailed(e),
                        Ok(from) => exists|line: Option<SourceLocation>| #[trigger]
                            resolves_line(symbols, from, line) && match line {
                                None => end == before && report == Report::LineUnknown(from),
                                Some(found) => can_step_on(
                                    records,
                                    symbols,
                                    tracee,
                                    kept,
                                    found.number,
                                    max_steps as nat,
                                    end,
                                    report,
                                ),
                            },
                    }
            },
    }
}

/// A command to a debugging session.
pub enum Command<'a, T: Tracee> {
    /// Take over this process, which has just been started under tracing,
    /// and let it run.
    Run(T),
    /// Let the process run until it stops or ends.
    Continue,
    /// Let the process run to the next source line.
    Step,
    /// Name the frames of the call stack.
    Backtrace,
    /// Declare a breakpoint at the place that this token names.
    SetBreakpoint(&'a str),
    /// Kill the process; the session is over.
    Quit,
}

/// Whether `command` can end as `after`, `end` and `report` say, where a
/// step executes at most `limit` instructions and a walk up the call stack
/// visits at most `limit` frames.
pub open spec fn can_run<T: Tracee, S: SymbolResolver>(
    records: Seq<Breakpoint>,
    symbols: S,
    held: T,
    before: Option<Kept>,
    command: Command<'_, T>,
    limit: usize,
    after: Seq<Breakpoint>,
    end: Option<Kept>,
    report: Report,
) -> bool {
    match command {
        Command::Run(tracee) => can_launch(
            records,
            symbols,
            held,
            before,
            tracee,
            after,
            end,
            report,
        ),
        Command::Continue => after == records && can_continue(
            records,
            symbols,
            held,
            before,
            end,
            report,
        ),
        Command::Step => after == records && can_step_line(
            records,
            symbols,
            held,
            before,
            limit,
            end,
            report,
        ),
        Command::Backtrace => after == records && can_trace(
            symbols,
            held,
            before,
            limit,
            end,
            report,
        ),
        Command::SetBreakpoint(token) => can_set_bp(
            records,
            symbols,
            held,
            before,
            token,
            after,
            end,
            report,
        ),
        Command::Quit => after == records && end is None && can_terminate(held, before, report),
    }
}

/// A process that has stopped after one instruction, with every trap in
/// place.
struct Arrival<T: Tracee> {
    /// The process.
    inferior: Inferior<T>,
    /// The signal it stopped on.
    signal: i32,
    /// Its instruction pointer.
    rip: usize,
    /// The breakpoint whose real instruction it has just executed.
    stepped_off: Option<usize>,
}

/// A debugging session.
pub struct Debugger<T: Tracee, S: SymbolResolver> {
    inferior: Option<Inferior<T>>,
    symbols: S,
    breakpoints: BreakpointTable,
    halted: Option<usize>,
}

impl<T: Tracee, S: SymbolResolver> Debugger<T, S> {
    /// Whether the session holds a process.
    pub closed spec fn running(&self) -> bool {
        self.inferior is Some
    }

    /// The breakpoint at which the process is halted with its trap displaced.
    pub closed spec fn halted_at(&self) -> Option<usize> {
        self.halted
    }

    /// The declared breakpoints, in the order of their declaration.
    pub closed spec fn table(&self) -> Seq<Breakpoint> {
        self.breakpoints@
    }

    /// The process that the session holds, while it holds one.
    pub closed spec fn process(&self) -> T {
        self.inferior.unwrap().handle()
    }

    /// The debugging symbols that the session looks places up in.
    pub closed spec fn lookups(&self) -> S {
        self.symbols
    }

    /// What the session keeps of its process, while it holds one.
    pub open spec fn kept(&self) -> Option<Kept> {
        if self.running() {
            Some(Kept { patches: self.patches(), halted: self.halted_at() })
        } else {
            None
        }
    }

    /// The bytes written into the process that the session holds.
    pub closed spec fn patches(&self) -> Map<usize, u8> {
        match self.inferior {
            Some(inferior) => inferior.patches(),
            None => Map::empty(),
        }
    }

    /// The invariant of a session.
    ///
    /// No address is declared twice. The session is halted only while it
    /// holds a process, and only at a declared breakpoint. While it holds a
    /// process, every declared breakpoint has its trap in the process, but for
    /// the one at which the process is halted, which has its displaced byte.
    pub open spec fn wf(&self) -> bool {
        &&& distinct_addresses(self.table())
        &&& self.halted_at() matches Some(addr) ==> self.running() && declared_in(
            self.table(),
            addr,
        )
        &&& self.running() ==> patched_as_kept(self.table(), self.patches(), self.halted_at())
    }

    /// A session without a process and without breakpoints.
    pub fn new(symbols: S) -> (session: Debugger<T, S>)
        ensures
            session.wf(),
            !session.running(),
            session.halted_at() is None,
            session.table() == Seq::<Breakpoint>::empty(),
    {
        Debugger { inferior: None, symbols, breakpoints: BreakpointTable::new(), halted: None }
    }

    /// While a session holds a process halted at a breakpoint, the process has
    /// the displaced byte at that breakpoint: the instruction that the trap
    /// stood in for is whole again, and the next step executes it.
    pub proof fn halted_breakpoint_is_restored(&self)
        requires
            self.wf(),
            self.halted_at() is Some,
        ensures
            self.running(),
            declared_in(self.table(), self.halted_at().unwrap()),
            self.patches().contains_key(self.halted_at().unwrap()),
            self.patches()[self.halted_at().unwrap()] == self.table()[position_in(
                self.table(),
                self.halted_at().unwrap(),
            )].orig_byte,
    {
        let addr = self.halted_at().unwrap();
        let i = position_in(self.table(), addr);
        assert(self.table()[i].addr == addr);
    }

    /// While a session holds a process, the process has the trap at every
    /// declared breakpoint other than the one it is halted at. A process that
    /// is not halted at a breakpoint has every trap.
    pub proof fn other_breakpoints_are_armed(&self, addr: usize)
        requires
            self.wf(),
            self.running(),
            declared_in(self.table(), addr),
            self.halted_at() != Some(addr),
        ensures
            self.patches().contains_key(addr),
            self.patches()[addr] == TRAP_OPCODE,
    {
        let i = position_in(self.table(), addr);
        assert(self.table()[i].addr == addr);
    }

    /// Whether the session holds a process.
    pub fn has_process(&self) -> (held: bool)
        ensures
            held == self.running(),
    {
        self.inferior.is_some()
    }

    /// The breakpoint at which the process is halted with its trap displaced.
    pub fn halted(&self) -> (addr: Option<usize>)
        ensures
            addr == self.halted_at(),
    {
        self.halted
    }

    /// The table of declared breakpoints.
    pub fn breakpoints(&self) -> (table: &BreakpointTable)
        ensures
            table@ == self.table(),
    {
        &self.breakpoints
    }

    /// Whether the session holds a process that is alive. A process that is
    /// found dead is given up.
    pub fn is_running(&mut self) -> (alive: bool)
        requires
            old(self).wf(),
        ensures
            final(self).wf(),
            final(self).table() == old(self).table(),
            alive == final(self).running(),
            alive ==> old(self).running() && final(self).halted_at() == old(self).halted_at()
                && final(self).patches() == old(self).patches(),
            alive ==> final(self).process() == old(self).process(),
            old(self).running() ==> can_probe(old(self).process(), alive),
            final(self).lookups() == old(self).lookups(),
    {
        match self.inferior.take() {
            Some(inferior) => {
                if inferior.running() {
                    self.inferior = Some(inferior);
                    true
                } else {
                    self.halted = None;
                    false
                }
            },
            None => false,
        }
    }

    /// Settles the session on a process that has stopped on `signal` with
    /// instruction pointer `rip` while every trap was in place.
    ///
    /// Where the stop is the hit of a breakpoint, the displaced byte is put
    /// back, the instruction pointer is moved back onto the breakpoint, and
    /// the session is halted there. Any other stop is reported as it is.
    fn arrive(
        &mut self,
        inferior: Inferior<T>,
        signal: i32,
        rip: usize,
        stepped_off: Option<usize>,
    ) -> (report: Report)
        requires
            !old(self).running(),
            old(self).halted_at() is None,
            distinct_addresses(old(self).table()),
            patched_as_kept(old(self).table(), inferior.patches(), None),
        ensures
            final(self).wf(),
            final(self).table() == old(self).table(),
            hits_breakpoint(old(self).table(), signal, rip, stepped_off) ==> match report {
                Report::BreakpointHit(addr, _) => addr == rip - 1 && final(self).running()
                    && final(self).halted_at() == Some(addr),
                Report::RestoreFailed(_) | Report::RewindFailed(_) => !final(self).running(),
                _ => false,
            },
            !hits_breakpoint(old(self).table(), signal, rip, stepped_off) ==> match report {
                Report::Stopped(reported, _) => reported == signal && final(self).running()
                    && final(self).halted_at() is None && final(self).patches()
                    == inferior.patches(),
                _ => false,
            },
            final(self).running() ==> final(self).process() == inferior.handle(),
            can_arrive(
                old(self).table(),
                old(self).lookups(),
                inferior.handle(),
                inferior.patches(),
                signal,
                rip,
                stepped_off,
                final(self).kept(),
                report,
            ),
            final(self).lookups() == old(self).lookups(),
    {
        let mut inferior = inferior;
        if let Some(addr) = breakpoint_hit(&self.breakpoints, signal, rip, stepped_off) {
            match self.breakpoints.restore_original(&mut inferior, addr) {
                Ok(()) => {},
                Err(e) => {
                    return Report::RestoreFailed(e);
                },
            }
            match inferior.set_rip(addr) {
                Ok(()) => {},
                Err(e) => {
                    return Report::RewindFailed(e);
                },
            }
            let location = self.symbols.resolve_line(addr);
            assert(resolves_line(self.lookups(), addr, location));
            self.inferior = Some(inferior);
            self.halted = Some(addr);
            return Report::BreakpointHit(addr, location);
        }
        let location = self.symbols.resolve_line(rip);
        assert(resolves_line(self.lookups(), rip, location));
        self.inferior = Some(inferior);
        Report::Stopped(signal, location)
    }

    /// Lets a process run whose traps are all in place, and settles the
    /// session on what became of it.
    fn resume(&mut self, inferior: Inferior<T>) -> (report: Report)
        requires
            !old(self).running(),
            old(self).halted_at() is None,
            distinct_addresses(old(self).table()),
            patched_as_kept(old(self).table(), inferior.patches(), None),
        ensures
            final(self).wf(),
            final(self).table() == old(self).table(),
            match report {
                Report::Exited(_) | Report::Signaled(_) | Report::ControlFailed(_)
                | Report::RestoreFailed(_) | Report::RewindFailed(_) => !final(self).running(),
                Report::Stopped(_, _) => final(self).running() && final(self).halted_at() is None,
                Report::BreakpointHit(addr, _) => final(self).running() && final(self).halted_at()
                    == Some(addr),
                _ => false,
            },
            final(self).running() ==> final(self).process() == inferior.handle(),
            can_run_on(
                old(self).table(),
                old(self).lookups(),
                inferior.handle(),
                inferior.patches(),
                final(self).kept(),
                report,
            ),
            final(self).lookups() == old(self).lookups(),
    {
        match inferior.cont() {
            Ok(Status::Exited(code)) => Report::Exited(code),
            Ok(Status::Signaled(signal)) => Report::Signaled(signal),
            Ok(Status::Stopped(signal, rip)) => self.arrive(inferior, signal, rip, None),
            Err(e) => Report::ControlFailed(e),
        }
    }

    /// Lets the process run until it stops or ends.
    ///
    /// Where the process is halted at a breakpoint, it first executes the
    /// instruction at the breakpoint with a single step and gets its trap
    /// back; the process is never resumed while a trap is displaced.
    pub fn cont(&mut self) -> (report: Report)
        requires
            old(self).wf(),
        ensures
            final(self).wf(),
            final(self).table() == old(self).table(),
            !old(self).running() ==> report == Report::NoProcess,
            match report {
                Report::NoProcess | Report::Exited(_) | Report::Signaled(_)
                | Report::ControlFailed(_) | Report::RestoreFailed(_) | Report::RewindFailed(
                    _,
                ) => !final(self).running(),
                Report::Stopped(_, _) => final(self).running() && final(self).halted_at() is None,
                Report::BreakpointHit(addr, _) => final(self).running() && final(self).halted_at()
                    == Some(addr),
                Report::RearmFailed(_) => old(self).halted_at() is Some && final(self).running()
                    && final(self).halted_at() == old(self).halted_at(),
                _ => false,
            },
            final(self).running() ==> final(self).process() == old(self).process(),
            final(self).lookups() == old(self).lookups(),
            can_continue(
                old(self).table(),
                old(self).lookups(),
                old(self).process(),
                old(self).kept(),
                final(self).kept(),
                report,
            ),
    {
        if !self.is_running() {
            return Report::NoProcess;
        }
        let inferior = self.inferior.take().unwrap();
        if self.halted.is_some() {
            match self.single_step(inferior) {
                Ok(arrival) => self.resume(arrival.inferior),
                Err(report) => report,
            }
        } else {
            self.resume(inferior)
        }
    }

    /// Lets the process execute instructions until it reaches the source line
    /// after the one it is on, runs into a breakpoint, stops on another
    /// signal, or ends; at most `max_steps` instructions.
    ///
    /// The first step from a breakpoint executes the instruction at the
    /// breakpoint and gets the trap back, as in [`Debugger::cont`]. Reaching
    /// the address just behind that breakpoint is then no hit of it.
    pub fn step_line(&mut self, max_steps: usize) -> (report: Report)
        requires
            old(self).wf(),
        ensures
            final(self).wf(),
            final(self).table() == old(self).table(),
            !old(self).running() ==> report == Report::NoProcess,
            match report {
                Report::NoProcess | Report::Exited(_) | Report::Signaled(_)
                | Report::ControlFailed(_) | Report::RestoreFailed(_) | Report::RewindFailed(
                    _,
                ) => !final(self).running(),
                Report::Stopped(signal, _) => signal != SIGTRAP && final(self).running()
                    && final(self).halted_at() is None,
                Report::Stepped(_) => final(self).running() && final(self).halted_at() is None,
                Report::BreakpointHit(addr, _) => final(self).running() && final(self).halted_at()
                    == Some(addr),
                Report::RearmFailed(_) => old(self).halted_at() is Some && final(self).running()
                    && final(self).halted_at() == old(self).halted_at(),
                Report::StepLimit => final(self).running() && (if max_steps == 0 {
                    final(self).halted_at() == old(self).halted_at() && final(self).patches()
                        == old(self).patches()
                } else {
                    final(self).halted_at() is None
                }),
                Report::RegistersFailed(_) | Report::LineUnknown(_) => final(self).running()
                    && final(self).halted_at() == old(self).halted_at() && final(self).patches()
                    == old(self).patches(),
                _ => false,
            },
            final(self).running() ==> final(self).process() == old(self).process(),
            final(self).lookups() == old(self).lookups(),
            can_step_line(
                old(self).table(),
                old(self).lookups(),
                old(self).process(),
                old(self).kept(),
                max_steps,
                final(self).kept(),
                report,
            ),
    {
        let alive = self.is_running();
        if !alive {
            return Report::NoProcess;
        }
        assert(can_probe(old(self).process(), alive));
        let mut inferior = self.inferior.take().unwrap();
        let pointer = inferior.get_rip();
        assert(can_get_rip(old(self).process(), pointer));
        let from = match pointer {
            Ok(rip) => rip,
            Err(e) => {
                self.inferior = Some(inferior);
                return Report::RegistersFailed(e);
            },
        };
        let origin = self.symbols.resolve_line(from);
        assert(resolves_line(self.lookups(), from, origin));
        let start: usize = match origin {
            Some(line) => line.number,
            None => {
                self.inferior = Some(inferior);
                return Report::LineUnknown(from);
            },
        };
        let ghost tracee = inferior.handle();
        let ghost first = Kept { patches: inferior.patches(), halted: self.halted };
        let mut left: usize = max_steps;
        assert(old(self).kept() == Some(first));
        assert forall|end: Option<Kept>, report: Report| #[trigger]
            can_step_on(
                self.table(),
                self.lookups(),
                tracee,
                first,
                start,
                max_steps as nat,
                end,
                report,
            ) implies can_step_line(
            self.table(),
            self.lookups(),
            tracee,
            Some(first),
            max_steps,
            end,
            report,
        ) by {
            assert(can_probe(tracee, true));
            assert(can_get_rip(tracee, Ok(from)));
            assert(resolves_line(self.lookups(), from, origin));
        }
        while left > 0
            invariant
                left <= max_steps,
                old(self).running(),
                !self.running(),
                self.table() == old(self).table(),
                self.lookups() == old(self).lookups(),
                inferior.handle() == tracee,
                tracee == old(self).process(),
                old(self).kept() == Some(first),
                distinct_addresses(self.table()),
                self.halted_at() matches Some(addr) ==> declared_in(self.table(), addr),
                patched_as_kept(self.table(), inferior.patches(), self.halted_at()),
                left == max_steps ==> self.halted_at() == old(self).halted_at()
                    && inferior.patches() == old(self).patches(),
                left < max_steps ==> self.halted_at() is None,
                forall|end: Option<Kept>, report: Report| #[trigger]
                    can_step_on(
                        self.table(),
                        self.lookups(),
                        tracee,
                        Kept { patches: inferior.patches(), halted: self.halted_at() },
                        start,
                        left as nat,
                        end,
                        report,
                    ) ==> can_step_line(
                        self.table(),
                        self.lookups(),
                        tracee,
                        Some(first),
                        max_steps,
                        end,
                        report,
                    ),
            decreases left,
        {
            let ghost now = Kept { patches: inferior.patches(), halted: self.halted_at() };
            let ghost budget = left as nat;
            left -= 1;
            let arrival = match self.single_step(inferior) {
                Ok(arrival) => {
                    assert(can_step_once(
                        tracee,
                        now,
                        Ok(
                            Stepped {
                                patches: arrival.inferior.patches(),
                                signal: arrival.signal,
                                rip: arrival.rip,
                                stepped_off: arrival.stepped_off,
                            },
                        ),
                    ));
                    arrival
                },
                Err(report) => {
                    assert(can_step_once(tracee, now, Err((self.kept(), report))));
                    assert(can_step_on(
                        self.table(),
                        self.lookups(),
                        tracee,
                        now,
                        start,
                        budget,
                        self.kept(),
                        report,
                    ));
                    return report;
                },
            };
            let signal = arrival.signal;
            let rip = arrival.rip;
            let stepped_off = arrival.stepped_off;
            inferior = arrival.inferior;
            if signal != SIGTRAP {
                let location = self.symbols.resolve_line(rip);
                assert(resolves_line(self.lookups(), rip, location));
                self.inferior = Some(inferior);
                assert(can_step_on(
                    self.table(),
                    self.lookups(),
                    tracee,
                    now,
                    start,
                    budget,
                    self.kept(),
                    Report::Stopped(signal, location),
                ));
                return Report::Stopped(signal, location);
            }
            if breakpoint_hit(&self.breakpoints, signal, rip, stepped_off).is_some() {
                let report = self.arrive(inferior, signal, rip, stepped_off);
                assert(can_step_on(
                    self.table(),
                    self.lookups(),
                    tracee,
                    now,
                    start,
                    budget,
                    self.kept(),
                    report,
                ));
                return report;
            }
            let location = self.symbols.resolve_line(rip);
            assert(resolves_line(self.lookups(), rip, location));
            match location {
                Some(line) => {
                    if reached_next_line(start, line.number) {
                        self.inferior = Some(inferior);
                        assert(can_step_on(
                            self.table(),
                            self.lookups(),
                            tracee,
                            now,
                            start,
                            budget,
                            self.kept(),
                            Report::Stepped(line),
                        ));
                        return Report::Stepped(line);
                    }
                },
                None => {},
            }
            assert forall|end: Option<Kept>, report: Report| #[trigger]
                can_step_on(
                    self.table(),
                    self.lookups(),
                    tracee,
                    Kept { patches: inferior.patches(), halted: self.halted_at() },
                    start,
                    left as nat,
                    end,
                    report,
                ) implies can_step_line(
                self.table(),
                self.lookups(),
                tracee,
                Some(first),
                max_steps,
                end,
                report,
            ) by {
                assert(can_step_on(
                    self.table(),
                    self.lookups(),
                    tracee,
                    now,
                    start,
                    budget,
                    end,
                    report,
                ));
            }
        }
        self.inferior = Some(inferior);
        assert(can_step_on(
            self.table(),
            self.lookups(),
            tracee,
            Kept { patches: self.patches(), halted: self.halted_at() },
            start,
            0,
            self.kept(),
            Report::StepLimit,
        ));
        Report::StepLimit
    }

    /// Lets a process execute one instruction. Where the session is halted at
    /// a breakpoint, that instruction is the one the trap stood in for, and
    /// the trap is put back once it has been executed.
    ///
    /// On success the process is handed back stopped with every trap in
    /// place, together with the signal and the instruction pointer of the
    /// stop; the breakpoint that was stepped off goes with the process.
    fn single_step(&mut self, inferior: Inferior<T>) -> (r: Result<Arrival<T>, Report>)
        requires
            !old(self).running(),
            distinct_addresses(old(self).table()),
            old(self).halted_at() matches Some(addr) ==> declared_in(old(self).table(), addr),
            patched_as_kept(old(self).table(), inferior.patches(), old(self).halted_at()),
        ensures
            final(self).table() == old(self).table(),
            match r {
                Ok(arrival) => !final(self).running() && final(self).halted_at() is None
                    && arrival.stepped_off == old(self).halted_at() && patched_as_kept(
                    final(self).table(),
                    arrival.inferior.patches(),
                    None,
                ),
                Err(report) => final(self).wf() && match report {
                    Report::Exited(_) | Report::Signaled(_) | Report::ControlFailed(_) =>
                        !final(self).running(),
                    Report::RearmFailed(_) => old(self).halted_at() is Some && final(self).running()
                        && final(self).halted_at() == old(self).halted_at(),
                    _ => false,
                },
            },
            final(self).lookups() == old(self).lookups(),
            final(self).running() ==> final(self).process() == inferior.handle(),
            r matches Ok(arrival) ==> arrival.inferior.handle() == inferior.handle(),
            can_step_once(
                inferior.handle(),
                Kept { patches: inferior.patches(), halted: old(self).halted_at() },
                match r {
                    Ok(arrival) => Ok(
                        Stepped {
                            patches: arrival.inferior.patches(),
                            signal: arrival.signal,
                            rip: arrival.rip,
                            stepped_off: arrival.stepped_off,
                        },
                    ),
                    Err(report) => Err((final(self).kept(), report)),
                },
            ),
    {
        let mut inferior = inferior;
        let stepped_off = self.halted;
        match inferior.step() {
            Ok(Status::Exited(code)) => {
                self.halted = None;
                Err(Report::Exited(code))
            },
            Ok(Status::Signaled(signal)) => {
                self.halted = None;
                Err(Report::Signaled(signal))
            },
            Ok(Status::Stopped(signal, rip)) => {
                if let Some(addr) = stepped_off {
                    match self.breakpoints.reinsert(&mut inferior, addr) {
                        Ok(()) => {
                            self.halted = None;
                        },
                        Err(e) => {
                            self.inferior = Some(inferior);
                            return Err(Report::RearmFailed(e));
                        },
                    }
                }
                Ok(Arrival { inferior, signal, rip, stepped_off })
            },
            Err(e) => {
                self.halted = None;
                Err(Report::ControlFailed(e))
            },
        }
    }

    /// Declares a breakpoint at `addr`.
    ///
    /// An address that is declared already keeps its record. A new one gets
    /// its trap at once where a process is alive; where that fails nothing is
    /// declared.
    pub fn break_at(&mut self, addr: usize) -> (report: Report)
        requires
            old(self).wf(),
        ensures
            final(self).wf(),
            final(self).running() ==> old(self).running()
                && final(self).halted_at() == old(self).halted_at(),
            declared_in(old(self).table(), addr) ==> report == Report::BreakpointSet(
                position_in(old(self).table(), addr) as usize,
                addr,
            ) && final(self).table() == old(self).table(),
            !declared_in(old(self).table(), addr) ==> match report {
                Report::BreakpointSet(index, at) => at == addr && index == old(self).table().len()
                    && final(self).table().len() == index + 1 && final(self).table().drop_last()
                    == old(self).table() && final(self).table().last().addr == addr,
                Report::PatchFailed(e) => old(self).running() && final(self).running()
                    && final(self).table() == old(self).table() && e is Memory && e->Memory_0
                    == addr,
                _ => false,
            },
            !old(self).running() ==> report is BreakpointSet,
            report matches Report::BreakpointSet(index, _) ==> declared_in(
                final(self).table(),
                addr,
            ) && index == position_in(final(self).table(), addr),
            final(self).running() ==> final(self).process() == old(self).process(),
            final(self).lookups() == old(self).lookups(),
            can_break_at(
                old(self).table(),
                old(self).process(),
                old(self).kept(),
                addr,
                final(self).table(),
                final(self).kept(),
                report,
            ),
    {
        let alive = self.is_running();
        if let Some(index) = self.breakpoints.position(addr) {
            return Report::BreakpointSet(index, addr);
        }
        let ghost before = self.breakpoints@;
        let index = self.breakpoints.declare(addr);
        assert(self.breakpoints@.drop_last() == before);
        if alive {
            let mut inferior = self.inferior.take().unwrap();
            let ghost declared = self.breakpoints@;
            let ghost tracee = inferior.handle();
            let patch = self.breakpoints.patch_one(&mut inferior, addr);
            let ghost written = choose|written: Result<u8, MemoryError>| #[trigger]
                can_write(tracee, addr, TRAP_OPCODE, written) && (self.breakpoints@, patch)
                    == patched(declared, position_in(declared, addr), written);
            match patch {
                Ok(()) => {
                    assert(self.breakpoints@.drop_last() == before);
                    proof {
                        self.breakpoints.position_is_unique(addr, index as int);
                        assert(self.breakpoints@ =~= before.push(
                            Breakpoint { addr, orig_byte: written->Ok_0 },
                        ));
                    }
                    self.inferior = Some(inferior);
                    Report::BreakpointSet(index, addr)
                },
                Err(e) => {
                    self.breakpoints.retract();
                    assert(self.breakpoints@ =~= before);
                    self.inferior = Some(inferior);
                    Report::PatchFailed(e)
                },
            }
        } else {
            Report::BreakpointSet(index, addr)
        }
    }

    /// Declares a breakpoint at the place that `token` names: `*` and a
    /// hexadecimal address, a decimal line number, or the name of a function.
    /// Lines and functions are looked up in the debugging symbols. A token
    /// that names no place leaves the session as it is.
    pub fn set_bp(&mut self, token: &str) -> (report: Report)
        requires
            old(self).wf(),
        ensures
            final(self).wf(),
            final(self).running() ==> old(self).running()
                && final(self).halted_at() == old(self).halted_at(),
            target_of(token@) is Invalid ==> report == Report::InvalidBreakpoint,
            match report {
                Report::InvalidBreakpoint => !(target_of(token@) is Address) && final(self).table()
                    == old(self).table() && final(self).running() == old(self).running(),
                Report::BreakpointSet(index, at) => declared_in(final(self).table(), at) && index
                    == position_in(final(self).table(), at) && (target_of(token@) is Address
                    ==> at == target_of(token@)->Address_0) && (if declared_in(
                    old(self).table(),
                    at,
                ) {
                    final(self).table() == old(self).table()
                } else {
                    final(self).table().drop_last() == old(self).table()
                        && final(self).table().last().addr == at
                }),
                Report::PatchFailed(_) => final(self).table() == old(self).table(),
                _ => false,
            },
            final(self).running() ==> final(self).process() == old(self).process(),
            final(self).lookups() == old(self).lookups(),
            can_set_bp(
                old(self).table(),
                old(self).lookups(),
                old(self).process(),
                old(self).kept(),
                token,
                final(self).table(),
                final(self).kept(),
                report,
            ),
    {
        let found = match classify_target(token) {
            BreakTarget::Address(addr) => Some(addr),
            BreakTarget::Line(line) => self.symbols.address_for_line(line),
            BreakTarget::Function => self.symbols.address_for_function(token),
            BreakTarget::Invalid => None,
        };
        assert(can_find(self.lookups(), token, found));
        match found {
            Some(addr) => {
                self.break_at(addr)
            },
            None => Report::InvalidBreakpoint,
        }
    }

    /// The call stack of the process, walked for at most `max_frames` frames.
    pub fn backtrace(&mut self, max_frames: usize) -> (report: Report)
        requires
            old(self).wf(),
        ensures
            final(self).wf(),
            final(self).table() == old(self).table(),
            !old(self).running() ==> report == Report::NoProcess,
            match report {
                Report::NoProcess => !final(self).running(),
                Report::Frames(_) | Report::UnwindFailed(_) => final(self).running()
                    && final(self).halted_at() == old(self).halted_at() && final(self).patches()
                    == old(self).patches(),
                _ => false,
            },
            final(self).running() ==> final(self).process() == old(self).process(),
            final(self).lookups() == old(self).lookups(),
            can_trace(
                old(self).lookups(),
                old(self).process(),
                old(self).kept(),
                max_frames,
                final(self).kept(),
                report,
            ),
    {
        let alive = self.is_running();
        if !alive {
            return Report::NoProcess;
        }
        assert(can_probe(old(self).process(), alive));
        let inferior = self.inferior.take().unwrap();
        let walked = inferior.print_backtrace(&self.symbols, max_frames);
        self.inferior = Some(inferior);
        match walked {
            Ok(frames) => Report::Frames(frames),
            Err(failure) => Report::UnwindFailed(failure),
        }
    }

    /// Kills the process, if the session holds one that is alive. Afterwards
    /// the session holds none.
    pub fn terminate(&mut self) -> (report: Report)
        requires
            old(self).wf(),
        ensures
            final(self).wf(),
            !final(self).running(),
            final(self).table() == old(self).table(),
            !old(self).running() ==> report == Report::NoProcess,
            report is NoProcess || report is Killed || report is ControlFailed,
            final(self).lookups() == old(self).lookups(),
            can_terminate(old(self).process(), old(self).kept(), report),
    {
        if !self.is_running() {
            return Report::NoProcess;
        }
        let inferior = self.inferior.take().unwrap();
        self.halted = None;
        let pid = inferior.pid();
        match inferior.kill() {
            Ok(_) => Report::Killed(pid),
            Err(e) => Report::ControlFailed(e),
        }
    }

    /// Takes over a process that has just been started under tracing, puts
    /// every declared breakpoint into it, and lets it run to its first stop or
    /// its end. A process that the session held before is killed first.
    ///
    /// The session keeps the process only with every trap in place: where a
    /// trap cannot be written the start fails, and the session holds no
    /// process.
    pub fn launch(&mut self, tracee: T) -> (report: Report)
        requires
            old(self).wf(),
        ensures
            final(self).wf(),
            same_addresses(old(self).table(), final(self).table()),
            match report {
                Report::SpawnFailed(_) | Report::Exited(_) | Report::Signaled(_)
                | Report::ControlFailed(_) | Report::RestoreFailed(_) | Report::RewindFailed(
                    _,
                ) => !final(self).running(),
                Report::Stopped(_, _) => final(self).running() && final(self).halted_at() is None,
                Report::BreakpointHit(addr, _) => final(self).running() && final(self).halted_at()
                    == Some(addr),
                _ => false,
            },
            final(self).running() ==> final(self).process() == tracee,
            final(self).lookups() == old(self).lookups(),
            can_launch(
                old(self).table(),
                old(self).lookups(),
                old(self).process(),
                old(self).kept(),
                tracee,
                final(self).table(),
                final(self).kept(),
                report,
            ),
    {
        let _ = self.terminate();
        match Inferior::new(tracee, &mut self.breakpoints) {
            Ok(inferior) => self.resume(inferior),
            Err(e) => Report::SpawnFailed(e),
        }
    }

    /// Carries out one command and reports what it did. A step executes at
    /// most `limit` instructions, and a walk up the call stack visits at most
    /// `limit` frames.
    ///
    /// No command ends the session by failing: every failure is a report.
    pub fn run(&mut self, command: Command<'_, T>, limit: usize) -> (report: Report)
        requires
            old(self).wf(),
        ensures
            final(self).wf(),
            final(self).lookups() == old(self).lookups(),
            can_run(
                old(self).table(),
                old(self).lookups(),
                old(self).process(),
                old(self).kept(),
                command,
                limit,
                final(self).table(),
                final(self).kept(),
                report,
            ),
    {
        match command {
            Command::Run(tracee) => self.launch(tracee),
            Command::Continue => self.cont(),
            Command::Step => self.step_line(limit),
            Command::Backtrace => self.backtrace(limit),
            Command::SetBreakpoint(token) => self.set_bp(token),
            Command::Quit => self.terminate(),
        }
    }
}

} // verus!
