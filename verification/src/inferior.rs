//! The traced process and the operations the engine performs on it.

use vstd::prelude::*;
use crate::breakpoint::{
    can_apply,
    same_addresses,
    Breakpoint,
    BreakpointTable,
    PatchError,
    TRAP_OPCODE,
};
use crate::memory::{
    align_addr_to_word,
    byte_index,
    extract_byte,
    load_byte,
    splice_byte,
    store_byte,
    with_byte,
    word_base,
    word_bytes,
    WordMemory,
};
use crate::symbols::{resolves_function, resolves_line, Frame, SourceLocation, SymbolResolver};
use crate::tracee::{
    awaits,
    kills,
    peeks,
    pokes,
    reads_registers,
    resumes,
    sets_rip,
    steps,
    OsError,
    Registers,
    Tracee,
    WaitEvent,
};

verus! {

/// The signal a process stops on when it runs into a trap instruction or
/// completes a single step.
pub const SIGTRAP: i32 = 5;

/// The state in which a wait left the traced process.
#[derive(Clone, Copy, Debug, PartialEq, Eq, Structural)]
pub enum Status {
    /// Stopped on a signal; holds the signal and the instruction pointer.
    Stopped(i32, usize),
    /// Exited normally; holds the exit code.
    Exited(i32),
    /// Killed by a signal; holds the signal.
    Signaled(i32),
}

/// A failure to make the process run or to learn what became of it.
#[derive(Clone, Copy, Debug, PartialEq, Eq, Structural)]
pub enum ControlError {
    /// The request to resume failed.
    Resume(OsError),
    /// The request to step one instruction failed.
    Step(OsError),
    /// The request to kill failed.
    Kill(OsError),
    /// The wait failed.
    Wait(OsError),
    /// The process stopped, but its registers could not be read.
    Registers(OsError),
    /// The wait reported a change of state that is neither a stop on a signal
    /// nor an end of the process.
    Unexpected(WaitEvent),
}

/// A failure to read or write the memory or the registers of the process.
#[derive(Clone, Copy, Debug, PartialEq, Eq, Structural)]
pub enum MemoryError {
    /// Reading the word at this address failed.
    Peek(usize, OsError),
    /// Writing the word at this address failed.
    Poke(usize, OsError),
    /// Reading or writing the registers failed.
    Registers(OsError),
}

/// Why a process that was started could not be taken over.
#[derive(Clone, Copy, Debug, PartialEq, Eq, Structural)]
pub enum SpawnError {
    /// Waiting for the first stop of the process failed.
    Wait(OsError),
    /// The first change of state of the process was not a stop on a signal.
    NotStopped(WaitEvent),
    /// A declared breakpoint could not be put into the process.
    Patch(PatchError),
}

/// Why the walk up the call stack ended before it reached the entry function.
#[derive(Clone, Copy, Debug, PartialEq, Eq, Structural)]
pub enum UnwindError {
    /// The registers could not be read.
    Registers(MemoryError),
    /// No function is known for this return address.
    FunctionUnknown(usize),
    /// No source line is known for this return address.
    LineUnknown(usize),
    /// The frame at this frame pointer lies at the very end of the address
    /// space and has no room for a return address.
    FrameOutOfRange(usize),
    /// A saved return address or frame pointer could not be read.
    Memory(MemoryError),
    /// The walk was given up after the number of frames it was allowed.
    FrameLimit,
}

/// A walk up the call stack that did not reach the entry function.
#[derive(Clone, Debug, PartialEq, Eq)]
pub struct UnwindFailure {
    /// The frames found before the walk ended, innermost first.
    pub frames: Vec<Frame>,
    /// Why the walk ended.
    pub cause: UnwindError,
}

/// Whether `name` is the name of the function at which every call stack
/// begins.
pub open spec fn is_entry_function(name: Seq<char>) -> bool {
    name == "main"@
}

/// Whether none of `frames` belongs to the entry function.
pub open spec fn below_entry(frames: Seq<Frame>) -> bool {
    forall|i: int| 0 <= i < frames.len() ==> !is_entry_function(#[trigger] frames[i].function@)
}

/// What a wait event means for the engine, given the registers read at a
/// stop: a stop on a signal carries the instruction pointer, an end of the
/// process carries its code or signal, and every other event is an error.
pub open spec fn status_of(event: WaitEvent, registers: Result<Registers, OsError>) -> Result<
    Status,
    ControlError,
> {
    match event {
        WaitEvent::Exited(code) => Ok(Status::Exited(code)),
        WaitEvent::Signaled(signal) => Ok(Status::Signaled(signal)),
        WaitEvent::Stopped(signal) => match registers {
            Ok(regs) => Ok(Status::Stopped(signal, regs.rip)),
            Err(e) => Err(ControlError::Registers(e)),
        },
        other => Err(ControlError::Unexpected(other)),
    }
}

/// Whether a non-blocking wait shows the process to be alive: it is, exactly
/// when the wait finds no change of state.
pub open spec fn alive_after(probe: Result<WaitEvent, OsError>) -> bool {
    probe == Ok::<WaitEvent, OsError>(WaitEvent::StillAlive)
}

/// What a read of the byte at `addr` gives, for each outcome of the read of
/// the word around it.
pub open spec fn byte_read(addr: usize, peek: Result<u64, OsError>) -> Result<u8, MemoryError> {
    match peek {
        Ok(word) => Ok(word_bytes(word)[byte_index(addr)]),
        Err(e) => Err(MemoryError::Peek(word_base(addr), e)),
    }
}

/// What a write of the byte at `addr` gives, for each outcome of the read of
/// the word around it and of the write of the changed word.
pub open spec fn byte_written(
    addr: usize,
    peek: Result<u64, OsError>,
    poke: Result<(), OsError>,
) -> Result<u8, MemoryError> {
    match peek {
        Ok(word) => match poke {
            Ok(()) => Ok(word_bytes(word)[byte_index(addr)]),
            Err(e) => Err(MemoryError::Poke(word_base(addr), e)),
        },
        Err(e) => Err(MemoryError::Peek(word_base(addr), e)),
    }
}

/// What a read or a write of the registers gives, for each outcome of it.
pub open spec fn register_access<A>(outcome: Result<A, OsError>) -> Result<A, MemoryError> {
    match outcome {
        Ok(value) => Ok(value),
        Err(e) => Err(MemoryError::Registers(e)),
    }
}

/// Whether reading the byte at `addr` of `tracee` can give `r`: the word
/// around the address is read, and the byte is taken out of it.
pub open spec fn can_read<T: Tracee>(tracee: T, addr: usize, r: Result<u8, MemoryError>) -> bool {
    exists|peek: Result<u64, OsError>| #[trigger]
        peeks(tracee, word_base(addr), peek) && r == byte_read(addr, peek)
}

/// Whether writing `val` at `addr` of `tracee` can give `r`: the word around
/// the address is read and, where that succeeds, written back with the one
/// byte replaced.
pub open spec fn can_write<T: Tracee>(
    tracee: T,
    addr: usize,
    val: u8,
    r: Result<u8, MemoryError>,
) -> bool {
    exists|peek: Result<u64, OsError>| #[trigger]
        peeks(tracee, word_base(addr), peek) && match peek {
            Ok(word) => exists|poke: Result<(), OsError>| #[trigger]
                pokes(tracee, word_base(addr), with_byte(word, byte_index(addr), val), poke) && r
                    == byte_written(addr, peek, poke),
            Err(_) => r == byte_written(addr, peek, Ok(())),
        }
}

/// A write that succeeds in a process whose memory is `mem` is a store into
/// `mem`: it returns the byte that `mem` holds at `addr`, and the word that
/// it writes is the word that the store puts in place. That the memory of the
/// process is `mem` means here that reading the word around `addr` gives the
/// word of `mem`.
pub proof fn write_is_a_store<T: Tracee>(
    tracee: T,
    mem: WordMemory,
    addr: usize,
    val: u8,
    r: Result<u8, MemoryError>,
)
    requires
        mem.dom().contains(word_base(addr)),
        forall|word: u64| #[trigger]
            peeks(tracee, word_base(addr), Ok(word)) ==> word == mem[word_base(addr)],
        can_write(tracee, addr, val, r),
        r is Ok,
    ensures
        r == Ok::<u8, MemoryError>(load_byte(mem, addr)),
        pokes(tracee, word_base(addr), store_byte(mem, addr, val)[word_base(addr)], Ok(())),
{
    let base = word_base(addr);
    let peek = choose|peek: Result<u64, OsError>| #[trigger]
        peeks(tracee, base, peek) && match peek {
            Ok(word) => exists|poke: Result<(), OsError>| #[trigger]
                pokes(tracee, base, with_byte(word, byte_index(addr), val), poke) && r
                    == byte_written(addr, peek, poke),
            Err(_) => r == byte_written(addr, peek, Ok(())),
        };
    assert(peek is Ok);
    let word = peek->Ok_0;
    assert(peek == Ok::<u64, OsError>(word));
    assert(word == mem[base]);
    let poke = choose|poke: Result<(), OsError>| #[trigger]
        pokes(tracee, base, with_byte(word, byte_index(addr), val), poke) && r == byte_written(
            addr,
            peek,
            poke,
        );
    assert(poke is Ok);
    assert(poke->Ok_0 == ());
    assert(poke == Ok::<(), OsError>(poke->Ok_0));
}

/// A read that succeeds in a process whose memory is `mem` gives the byte
/// that `mem` holds at `addr`.
pub proof fn read_is_a_load<T: Tracee>(
    tracee: T,
    mem: WordMemory,
    addr: usize,
    r: Result<u8, MemoryError>,
)
    requires
        mem.dom().contains(word_base(addr)),
        forall|word: u64| #[trigger]
            peeks(tracee, word_base(addr), Ok(word)) ==> word == mem[word_base(addr)],
        can_read(tracee, addr, r),
        r is Ok,
    ensures
        r == Ok::<u8, MemoryError>(load_byte(mem, addr)),
{
}

/// Whether a blocking wait on `tracee` can give `r`: the process is waited
/// for and, where it has stopped on a signal, its registers are read for the
/// instruction pointer.
pub open spec fn can_wait<T: Tracee>(tracee: T, r: Result<Status, ControlError>) -> bool {
    exists|event: Result<WaitEvent, OsError>| #[trigger]
        awaits(tracee, true, event) && match event {
            Ok(WaitEvent::Stopped(signal)) => exists|regs: Result<Registers, OsError>| #[trigger]
                reads_registers(tracee, regs) && r == status_of(WaitEvent::Stopped(signal), regs),
            Ok(other) => r == status_of(other, Err(OsError::Other)),
            Err(e) => r == Err::<Status, ControlError>(ControlError::Wait(e)),
        }
}

/// Whether resuming `tracee` can give `r`: the process is asked to run on
/// and, where that succeeds, waited for.
pub open spec fn can_cont<T: Tracee>(tracee: T, r: Result<Status, ControlError>) -> bool {
    exists|asked: Result<(), OsError>| #[trigger]
        resumes(tracee, asked) && match asked {
            Ok(()) => can_wait(tracee, r),
            Err(e) => r == Err::<Status, ControlError>(ControlError::Resume(e)),
        }
}

/// Whether stepping `tracee` can give `r`: the process is asked to run for
/// one instruction and, where that succeeds, waited for.
pub open spec fn can_step<T: Tracee>(tracee: T, r: Result<Status, ControlError>) -> bool {
    exists|asked: Result<(), OsError>| #[trigger]
        steps(tracee, asked) && match asked {
            Ok(()) => can_wait(tracee, r),
            Err(e) => r == Err::<Status, ControlError>(ControlError::Step(e)),
        }
}

/// Whether killing `tracee` can give `r`: the process is sent the kill signal
/// and, where that succeeds, waited for.
pub open spec fn can_kill<T: Tracee>(tracee: T, r: Result<Status, ControlError>) -> bool {
    exists|asked: Result<(), OsError>| #[trigger]
        kills(tracee, asked) && match asked {
            Ok(()) => can_wait(tracee, r),
            Err(e) => r == Err::<Status, ControlError>(ControlError::Kill(e)),
        }
}

/// Whether probing `tracee` can find it alive or not: the process is waited
/// for without blocking.
pub open spec fn can_probe<T: Tracee>(tracee: T, alive: bool) -> bool {
    exists|probe: Result<WaitEvent, OsError>| #[trigger]
        awaits(tracee, false, probe) && alive == alive_after(probe)
}

/// Whether reading the registers of `tracee` can give `r`.
pub open spec fn can_read_registers<T: Tracee>(tracee: T, r: Result<Registers, MemoryError>) -> bool {
    exists|regs: Result<Registers, OsError>| #[trigger]
        reads_registers(tracee, regs) && r == register_access(regs)
}

/// Whether setting the instruction pointer of `tracee` to `addr` can give
/// `r`.
pub open spec fn can_set_rip<T: Tracee>(tracee: T, addr: usize, r: Result<(), MemoryError>) -> bool {
    exists|set: Result<(), OsError>| #[trigger]
        sets_rip(tracee, addr, set) && r == register_access(set)
}

/// Whether reading the instruction pointer of `tracee` can give `r`.
pub open spec fn can_get_rip<T: Tracee>(tracee: T, r: Result<usize, MemoryError>) -> bool {
    exists|regs: Result<Registers, MemoryError>| #[trigger]
        can_read_registers(tracee, regs) && r == match regs {
            Ok(found) => Ok::<usize, MemoryError>(found.rip),
            Err(e) => Err(e),
        }
}

/// Whether reading the word at `addr` in `tracee` can give `r`.
pub open spec fn can_read_word<T: Tracee>(tracee: T, addr: usize, r: Result<u64, MemoryError>) -> bool {
    exists|peek: Result<u64, OsError>| #[trigger]
        peeks(tracee, addr, peek) && r == match peek {
            Ok(word) => Ok::<u64, MemoryError>(word),
            Err(e) => Err(MemoryError::Peek(addr, e)),
        }
}

/// A walk up the call stack as plain values: the frames that it found,
/// innermost first, and why it ended, where it did not reach the entry
/// function.
pub open spec fn walked(r: Result<Vec<Frame>, UnwindFailure>) -> (Seq<Frame>, Option<UnwindError>) {
    match r {
        Ok(frames) => (frames@, None),
        Err(failure) => (failure.frames@, Some(failure.cause)),
    }
}

/// Whether a walk up the call stack of `tracee` that has found `found` and
/// stands at a frame with instruction pointer `rip` and frame pointer `rbp`
/// can end as `end` says, visiting at most `left` more frames.
///
/// The frame is named by the function and the source line of `rip`; where
/// either is unknown the walk ends. The frame of the entry function ends the
/// walk with success. From any other frame the walk goes on with the return
/// address, read one word above `rbp`, and the frame pointer of the caller,
/// read at `rbp`.
pub open spec fn can_unwind<T: Tracee, S: SymbolResolver>(
    tracee: T,
    symbols: S,
    rip: usize,
    rbp: usize,
    found: Seq<Frame>,
    left: nat,
    end: (Seq<Frame>, Option<UnwindError>),
) -> bool
    decreases left, 1nat,
{
    if left == 0 {
        end == (found, Some(UnwindError::FrameLimit))
    } else {
        exists|function: Option<String>| #[trigger]
            resolves_function(symbols, rip, function) && match function {
                None => end == (found, Some(UnwindError::FunctionUnknown(rip))),
                Some(name) => exists|line: Option<SourceLocation>| #[trigger]
                    resolves_line(symbols, rip, line) && match line {
                        None => end == (found, Some(UnwindError::LineUnknown(rip))),
                        Some(location) => can_leave(
                            tracee,
                            symbols,
                            rbp,
                            found.push(Frame { function: name, location }),
                            (left - 1) as nat,
                            end,
                        ),
                    },
            }
    }
}

/// Whether a walk up the call stack of `tracee` that has just added the
/// frame with frame pointer `rbp` to `frames` can end as `end` says,
/// visiting at most `rest` more frames.
pub open spec fn can_leave<T: Tracee, S: SymbolResolver>(
    tracee: T,
    symbols: S,
    rbp: usize,
    frames: Seq<Frame>,
    rest: nat,
    end: (Seq<Frame>, Option<UnwindError>),
) -> bool
    decreases rest, 2nat,
{
    if is_entry_function(frames.last().function@) {
        end == (frames, None::<UnwindError>)
    } else if rbp + 8 > usize::MAX {
        end == (frames, Some(UnwindError::FrameOutOfRange(rbp)))
    } else {
        exists|ret: Result<u64, MemoryError>| #[trigger]
            can_read_word(tracee, (rbp + 8) as usize, ret) && match ret {
                Err(e) => end == (frames, Some(UnwindError::Memory(e))),
                Ok(caller) => exists|link: Result<u64, MemoryError>| #[trigger]
                    can_read_word(tracee, rbp, link) && match link {
                        Err(e) => end == (frames, Some(UnwindError::Memory(e))),
                        Ok(base) => can_unwind(
                            tracee,
                            symbols,
                            caller as usize,
                            base as usize,
                            frames,
                            rest,
                            end,
                        ),
                    },
            }
    }
}

/// Whether a walk up the call stack of `tracee` of at most `max_frames`
/// frames can end as `end` says: the registers are read, and the walk starts
/// at the frame that they point to.
pub open spec fn can_backtrace<T: Tracee, S: SymbolResolver>(
    tracee: T,
    symbols: S,
    max_frames: usize,
    end: (Seq<Frame>, Option<UnwindError>),
) -> bool {
    exists|regs: Result<Registers, MemoryError>| #[trigger]
        can_read_registers(tracee, regs) && match regs {
            Err(e) => end == (Seq::<Frame>::empty(), Some(UnwindError::Registers(e))),
            Ok(at) => can_unwind(
                tracee,
                symbols,
                at.rip,
                at.rbp,
                Seq::<Frame>::empty(),
                max_frames as nat,
                end,
            ),
        }
}

/// The address one byte before `rip`, wrapping around at zero.
pub open spec fn one_back(rip: usize) -> usize {
    if rip > 0 {
        (rip - 1) as usize
    } else {
        usize::MAX
    }
}

/// Whether taking over `tracee` can end as `after` and `r` say: the process
/// is waited for; where its first change of state is a stop on a signal the
/// traps of `records` are put into it, and the bytes written come with it.
pub open spec fn can_take_over<T: Tracee>(
    tracee: T,
    records: Seq<Breakpoint>,
    after: Seq<Breakpoint>,
    r: Result<Map<usize, u8>, SpawnError>,
) -> bool {
    exists|event: Result<WaitEvent, OsError>| #[trigger]
        awaits(tracee, true, event) && match event {
            Ok(WaitEvent::Stopped(_)) => exists|patches: Map<usize, u8>, applied: Result<
                (),
                PatchError,
            >| #[trigger]
                can_apply(tracee, records, 0, Map::empty(), after, patches, applied) && r
                    == match applied {
                    Ok(()) => Ok::<Map<usize, u8>, SpawnError>(patches),
                    Err(e) => Err(SpawnError::Patch(e)),
                },
            Ok(other) => after == records && r == Err::<Map<usize, u8>, SpawnError>(
                SpawnError::NotStopped(other),
            ),
            Err(e) => after == records && r == Err::<Map<usize, u8>, SpawnError>(
                SpawnError::Wait(e),
            ),
        }
}

/// One traced process.
///
/// Besides the process itself the value keeps, for the proofs only, the byte
/// that was last written with success at each address through
/// [`Inferior::write_byte`].
pub struct Inferior<T: Tracee> {
    tracee: T,
    written: Ghost<Map<usize, u8>>,
}

impl<T: Tracee> Inferior<T> {
    /// The bytes written into the process so far: at each address the byte of
    /// the last write that succeeded.
    pub closed spec fn patches(&self) -> Map<usize, u8> {
        self.written@
    }

    /// The process that the value holds.
    pub closed spec fn handle(&self) -> T {
        self.tracee
    }

    /// Whether the last successful write at `addr` wrote `byte`.
    pub open spec fn holds(&self, addr: usize, byte: u8) -> bool {
        self.patches().contains_key(addr) && self.patches()[addr] == byte
    }

    /// Whether the same was written at `addr` into this process as into
    /// `other`.
    pub open spec fn agrees_at(&self, other: &Self, addr: usize) -> bool {
        &&& self.patches().contains_key(addr) == other.patches().contains_key(addr)
        &&& self.patches().contains_key(addr) ==> self.patches()[addr] == other.patches()[addr]
    }

    /// Takes charge of a process into which nothing has been written yet.
    pub fn adopt(tracee: T) -> (inferior: Inferior<T>)
        ensures
            inferior.handle() == tracee,
            inferior.patches() == Map::<usize, u8>::empty(),
    {
        Inferior { tracee, written: Ghost(Map::empty()) }
    }

    /// Takes over a process that has just been started under tracing: waits
    /// for its first stop and puts the trap opcode at every declared
    /// breakpoint, remembering the bytes displaced.
    ///
    /// The process is handed out only with every trap in place.
    pub fn new(tracee: T, breakpoints: &mut BreakpointTable) -> (r: Result<
        Inferior<T>,
        SpawnError,
    >)
        requires
            old(breakpoints).wf(),
        ensures
            final(breakpoints).wf(),
            same_addresses(old(breakpoints)@, final(breakpoints)@),
            r matches Ok(inferior) ==> forall|i: int|
                0 <= i < final(breakpoints)@.len() ==> inferior.holds(
                    #[trigger] final(breakpoints)@[i].addr,
                    TRAP_OPCODE,
                ),
            r matches Ok(inferior) ==> forall|a: usize|
                inferior.patches().contains_key(a) ==> old(breakpoints).contains(a),
            r matches Err(SpawnError::Patch(e)) ==> e is Memory && old(breakpoints).contains(
                e->Memory_0,
            ),
            r is Err && !(r matches Err(SpawnError::Patch(_)))
                ==> final(breakpoints)@ == old(breakpoints)@,
            r matches Ok(inferior) ==> inferior.handle() == tracee,
            can_take_over(
                tracee,
                old(breakpoints)@,
                final(breakpoints)@,
                match r {
                    Ok(inferior) => Ok(inferior.patches()),
                    Err(e) => Err(e),
                },
            ),
    {
        let mut inferior = Inferior::adopt(tracee);
        let event = inferior.tracee.wait_event(true);
        assert(awaits(tracee, true, event));
        match event {
            Ok(WaitEvent::Stopped(_)) => match breakpoints.apply_all(&mut inferior) {
                Ok(()) => Ok(inferior),
                Err(e) => Err(SpawnError::Patch(e)),
            },
            Ok(event) => Err(SpawnError::NotStopped(event)),
            Err(e) => Err(SpawnError::Wait(e)),
        }
    }

    /// The process identifier.
    pub fn pid(&self) -> (pid: i32)
        ensures
            call_ensures(T::pid, (&self.handle(),), pid),
    {
        self.tracee.pid()
    }

    /// Waits until the process changes state and reports the state it is in.
    pub fn wait(&self) -> (r: Result<Status, ControlError>)
        ensures
            can_wait(self.handle(), r),
    {
        let event = self.tracee.wait_event(true);
        assert(awaits(self.handle(), true, event));
        match event {
            Ok(WaitEvent::Stopped(signal)) => {
                let registers = self.tracee.registers();
                assert(reads_registers(self.handle(), registers));
                interpret(WaitEvent::Stopped(signal), registers)
            },
            Ok(other) => interpret(other, Err(OsError::Other)),
            Err(e) => Err(ControlError::Wait(e)),
        }
    }

    /// Resumes the process and waits for its next stop or its end.
    pub fn cont(&self) -> (r: Result<Status, ControlError>)
        ensures
            can_cont(self.handle(), r),
    {
        let asked = self.tracee.resume();
        assert(resumes(self.handle(), asked));
        match asked {
            Ok(()) => self.wait(),
            Err(e) => Err(ControlError::Resume(e)),
        }
    }

    /// Lets the process execute one instruction and waits for the stop that
    /// follows, or for its end.
    pub fn step(&self) -> (r: Result<Status, ControlError>)
        ensures
            can_step(self.handle(), r),
    {
        let asked = self.tracee.single_step();
        assert(steps(self.handle(), asked));
        match asked {
            Ok(()) => self.wait(),
            Err(e) => Err(ControlError::Step(e)),
        }
    }

    /// Kills the process and waits for its end.
    pub fn kill(&self) -> (r: Result<Status, ControlError>)
        ensures
            can_kill(self.handle(), r),
    {
        let asked = self.tracee.send_kill();
        assert(kills(self.handle(), asked));
        match asked {
            Ok(()) => self.wait(),
            Err(e) => Err(ControlError::Kill(e)),
        }
    }

    /// Whether the process is alive, found out without blocking.
    pub fn running(&self) -> (alive: bool)
        ensures
            can_probe(self.handle(), alive),
    {
        let probe = self.tracee.wait_event(false);
        assert(awaits(self.handle(), false, probe));
        is_alive(probe)
    }

    /// Reads the byte at `addr`.
    pub fn read_byte(&self, addr: usize) -> (r: Result<u8, MemoryError>)
        ensures
            can_read(self.handle(), addr, r),
    {
        let base = align_addr_to_word(addr);
        let peek = self.tracee.peek_word(base);
        assert(peeks(self.handle(), base, peek));
        match peek {
            Ok(word) => Ok(extract_byte(word, addr - base)),
            Err(e) => Err(MemoryError::Peek(base, e)),
        }
    }

    /// Writes `val` at `addr` and returns the byte that was there.
    ///
    /// The word around `addr` is read, one byte of it is replaced, and the
    /// word is written back. When either step fails nothing has been written.
    pub fn write_byte(&mut self, addr: usize, val: u8) -> (r: Result<u8, MemoryError>)
        ensures
            final(self).handle() == old(self).handle(),
            can_write(old(self).handle(), addr, val, r),
            r is Ok ==> final(self).patches() == old(self).patches().insert(addr, val),
            r is Err ==> final(self).patches() == old(self).patches(),
    {
        let base = align_addr_to_word(addr);
        let peek = self.tracee.peek_word(base);
        assert(peeks(self.handle(), base, peek));
        match peek {
            Ok(word) => {
                let (previous, updated) = splice_byte(word, addr - base, val);
                let poke = self.tracee.poke_word(base, updated);
                assert(pokes(self.handle(), base, updated, poke));
                match poke {
                    Ok(()) => {
                        self.written = Ghost(self.written@.insert(addr, val));
                        Ok(previous)
                    },
                    Err(e) => Err(MemoryError::Poke(base, e)),
                }
            },
            Err(e) => Err(MemoryError::Peek(base, e)),
        }
    }

    /// The instruction pointer and the frame pointer.
    pub fn registers(&self) -> (r: Result<Registers, MemoryError>)
        ensures
            can_read_registers(self.handle(), r),
    {
        let regs = self.tracee.registers();
        assert(reads_registers(self.handle(), regs));
        match regs {
            Ok(found) => Ok(found),
            Err(e) => Err(MemoryError::Registers(e)),
        }
    }

    /// The instruction pointer.
    pub fn get_rip(&self) -> (r: Result<usize, MemoryError>)
        ensures
            can_get_rip(self.handle(), r),
    {
        let regs = self.registers();
        match regs {
            Ok(found) => Ok(found.rip),
            Err(e) => Err(e),
        }
    }

    /// Sets the instruction pointer to `addr`.
    pub fn set_rip(&self, addr: usize) -> (r: Result<(), MemoryError>)
        ensures
            can_set_rip(self.handle(), addr, r),
    {
        let set = self.tracee.set_rip(addr);
        assert(sets_rip(self.handle(), addr, set));
        match set {
            Ok(()) => Ok(()),
            Err(e) => Err(MemoryError::Registers(e)),
        }
    }

    /// Moves the instruction pointer back by one byte: onto the trap opcode
    /// that the process has just executed.
    pub fn step_back_rip(&self) -> (r: Result<(), MemoryError>)
        ensures
            exists|regs: Result<Registers, MemoryError>| #[trigger]
                can_read_registers(self.handle(), regs) && match regs {
                    Ok(found) => can_set_rip(self.handle(), one_back(found.rip), r),
                    Err(e) => r == Err::<(), MemoryError>(e),
                },
    {
        let regs = self.registers();
        match regs {
            Ok(found) => {
                let target: usize = if found.rip > 0 {
                    found.rip - 1
                } else {
                    usize::MAX
                };
                self.set_rip(target)
            },
            Err(e) => Err(e),
        }
    }

    /// Gathers the call stack for printing: walks up along the chain of frame
    /// pointers and names, innermost first, the function and source line of
    /// every frame up to the entry function. The walk visits at most
    /// `max_frames` frames.
    ///
    /// The return address of a frame lies one word above its frame pointer,
    /// the frame pointer of its caller at the frame pointer itself. This holds
    /// of programs that were built to keep frame pointers.
    pub fn print_backtrace<S: SymbolResolver>(&self, symbols: &S, max_frames: usize) -> (r: Result<
        Vec<Frame>,
        UnwindFailure,
    >)
        ensures
            match r {
                Ok(frames) => 1 <= frames@.len() <= max_frames && is_entry_function(
                    frames@.last().function@,
                ) && below_entry(frames@.drop_last()),
                Err(failure) => failure.frames@.len() <= max_frames && below_entry(
                    failure.frames@,
                ) && (failure.cause is FrameLimit ==> failure.frames@.len() == max_frames),
            },
            can_backtrace(self.handle(), *symbols, max_frames, walked(r)),
    {
        let mut frames: Vec<Frame> = Vec::new();
        let regs = self.registers();
        let (mut rip, mut rbp) = match regs {
            Ok(at) => (at.rip, at.rbp),
            Err(e) => {
                return Err(UnwindFailure { frames, cause: UnwindError::Registers(e) });
            },
        };
        let entry = String::from_str("main");
        while frames.len() < max_frames
            invariant
                frames@.len() <= max_frames,
                below_entry(frames@),
                entry@ == "main"@,
                forall|end: (Seq<Frame>, Option<UnwindError>)| #[trigger]
                    can_unwind(
                        self.handle(),
                        *symbols,
                        rip,
                        rbp,
                        frames@,
                        (max_frames - frames@.len()) as nat,
                        end,
                    ) ==> can_backtrace(self.handle(), *symbols, max_frames, end),
            decreases max_frames - frames@.len(),
        {
            let ghost below = frames@;
            let ghost left = (max_frames - frames@.len()) as nat;
            let named = symbols.resolve_function(rip);
            assert(resolves_function(*symbols, rip, named));
            let function = match named {
                Some(name) => name,
                None => {
                    let failure = UnwindFailure { frames, cause: UnwindError::FunctionUnknown(rip) };
                    assert(can_unwind(
                        self.handle(),
                        *symbols,
                        rip,
                        rbp,
                        below,
                        left,
                        walked(Err(failure)),
                    ));
                    return Err(failure);
                },
            };
            let line = symbols.resolve_line(rip);
            assert(resolves_line(*symbols, rip, line));
            let location = match line {
                Some(found) => found,
                None => {
                    let failure = UnwindFailure { frames, cause: UnwindError::LineUnknown(rip) };
                    assert(can_unwind(
                        self.handle(),
                        *symbols,
                        rip,
                        rbp,
                        below,
                        left,
                        walked(Err(failure)),
                    ));
                    return Err(failure);
                },
            };
            let at_entry = function == entry;
            frames.push(Frame { function, location });
            let ghost rest = (left - 1) as nat;
            if at_entry {
                assert(frames@.drop_last() == below);
                assert(can_leave(self.handle(), *symbols, rbp, frames@, rest, (frames@, None)));
                assert(can_unwind(self.handle(), *symbols, rip, rbp, below, left, (frames@, None)));
                return Ok(frames);
            }
            let return_slot: usize = match rbp.checked_add(8) {
                Some(slot) => slot,
                None => {
                    let failure = UnwindFailure { frames, cause: UnwindError::FrameOutOfRange(rbp) };
                    assert(can_leave(
                        self.handle(),
                        *symbols,
                        rbp,
                        failure.frames@,
                        rest,
                        walked(Err(failure)),
                    ));
                    assert(can_unwind(
                        self.handle(),
                        *symbols,
                        rip,
                        rbp,
                        below,
                        left,
                        walked(Err(failure)),
                    ));
                    return Err(failure);
                },
            };
            let caller = self.read_word(return_slot);
            let next_rip = match caller {
                Ok(word) => word as usize,
                Err(e) => {
                    let failure = UnwindFailure { frames, cause: UnwindError::Memory(e) };
                    assert(can_leave(
                        self.handle(),
                        *symbols,
                        rbp,
                        failure.frames@,
                        rest,
                        walked(Err(failure)),
                    ));
                    assert(can_unwind(
                        self.handle(),
                        *symbols,
                        rip,
                        rbp,
                        below,
                        left,
                        walked(Err(failure)),
                    ));
                    return Err(failure);
                },
            };
            let link = self.read_word(rbp);
            let next_rbp = match link {
                Ok(word) => word as usize,
                Err(e) => {
                    let failure = UnwindFailure { frames, cause: UnwindError::Memory(e) };
                    assert(can_leave(
                        self.handle(),
                        *symbols,
                        rbp,
                        failure.frames@,
                        rest,
                        walked(Err(failure)),
                    ));
                    assert(can_unwind(
                        self.handle(),
                        *symbols,
                        rip,
                        rbp,
                        below,
                        left,
                        walked(Err(failure)),
                    ));
                    return Err(failure);
                },
            };
            assert forall|end: (Seq<Frame>, Option<UnwindError>)| #[trigger]
                can_unwind(
                    self.handle(),
                    *symbols,
                    next_rip,
                    next_rbp,
                    frames@,
                    rest,
                    end,
                ) implies can_backtrace(self.handle(), *symbols, max_frames, end) by {
                assert(can_leave(self.handle(), *symbols, rbp, frames@, rest, end));
                assert(can_unwind(self.handle(), *symbols, rip, rbp, below, left, end));
            }
            rip = next_rip;
            rbp = next_rbp;
        }
        let ghost found = frames@;
        let failure = UnwindFailure { frames, cause: UnwindError::FrameLimit };
        assert(can_unwind(
            self.handle(),
            *symbols,
            rip,
            rbp,
            found,
            (max_frames - found.len()) as nat,
            walked(Err(failure)),
        ));
        Err(failure)
    }

    /// Reads the word at `addr`.
    pub fn read_word(&self, addr: usize) -> (r: Result<u64, MemoryError>)
        ensures
            can_read_word(self.handle(), addr, r),
    {
        let peek = self.tracee.peek_word(addr);
        assert(peeks(self.handle(), addr, peek));
        match peek {
            Ok(word) => Ok(word),
            Err(e) => Err(MemoryError::Peek(addr, e)),
        }
    }
}

/// The status that a wait event and the registers read at a stop amount to.
pub fn interpret(event: WaitEvent, registers: Result<Registers, OsError>) -> (r: Result<
    Status,
    ControlError,
>)
    ensures
        r == status_of(event, registers),
{
    match event {
        WaitEvent::Exited(code) => Ok(Status::Exited(code)),
        WaitEvent::Signaled(signal) => Ok(Status::Signaled(signal)),
        WaitEvent::Stopped(signal) => match registers {
            Ok(regs) => Ok(Status::Stopped(signal, regs.rip)),
            Err(e) => Err(ControlError::Registers(e)),
        },
        WaitEvent::TraceEvent(signal, number) => Err(
            ControlError::Unexpected(WaitEvent::TraceEvent(signal, number)),
        ),
        WaitEvent::TraceSyscall => Err(ControlError::Unexpected(WaitEvent::TraceSyscall)),
        WaitEvent::Continued => Err(ControlError::Unexpected(WaitEvent::Continued)),
        WaitEvent::StillAlive => Err(ControlError::Unexpected(WaitEvent::StillAlive)),
    }
}

/// What a non-blocking wait says of the life of the process.
pub fn is_alive(probe: Result<WaitEvent, OsError>) -> (alive: bool)
    ensures
        alive == alive_after(probe),
{
    match probe {
        Ok(WaitEvent::StillAlive) => true,
        _ => false,
    }
}

} // verus!
