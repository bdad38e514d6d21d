//! The debugging session driven against a simulated process.
//!
//! The simulated process has a byte-addressed memory behind a word-sized
//! access, a list of instructions, and a stack of frames. It executes the trap
//! opcode wherever the memory holds one.

use deet::breakpoint::{Breakpoint, BreakpointTable, PatchError, TRAP_OPCODE};
use deet::debugger::{breakpoint_hit, reached_next_line, Command, Debugger, Report};
use deet::inferior::{ControlError, MemoryError, SpawnError, UnwindError, SIGTRAP};
use deet::symbols::{SourceLocation, SymbolResolver};
use deet::tracee::{OsError, Registers, Tracee, WaitEvent};
use std::cell::RefCell;
use std::collections::HashMap;
use std::rc::Rc;

const SIGSEGV: i32 = 11;
const SIGKILL: i32 = 9;
const ESRCH: i32 = 3;
const EIO: i32 = 5;

#[derive(Clone, Copy)]
enum Op {
    /// Goes on with the instruction behind it.
    Plain,
    /// Goes on at the given address.
    Jump(usize),
    /// Calls the function at the given address.
    Call(usize),
    /// Returns to the caller.
    Ret,
    /// Ends the process with the given code.
    Exit(i32),
    /// Stops the process on the given signal before it executes.
    Fault(i32),
}

#[derive(Clone, Copy)]
struct Instruction {
    addr: usize,
    len: usize,
    op: Op,
}

struct Machine {
    memory: HashMap<usize, u8>,
    code: Vec<Instruction>,
    rip: usize,
    rbp: usize,
    returns: Vec<usize>,
    pending: Option<WaitEvent>,
    alive: bool,
    reaped: bool,
    fail_poke_at: Option<usize>,
    fail_set_rip: bool,
    fail_step: bool,
    fail_resume: bool,
    fail_registers: bool,
    resumes: usize,
    steps: usize,
    log: Vec<String>,
}

impl Machine {
    fn new(code: Vec<Instruction>, entry: usize) -> Machine {
        let mut memory = HashMap::new();
        for instruction in &code {
            for offset in 0..instruction.len {
                memory.insert(instruction.addr + offset, 0x50 + (offset as u8));
            }
        }
        Machine {
            memory,
            code,
            rip: entry,
            rbp: 0,
            returns: Vec::new(),
            pending: Some(WaitEvent::Stopped(SIGTRAP)),
            alive: true,
            reaped: false,
            fail_poke_at: None,
            fail_set_rip: false,
            fail_step: false,
            fail_resume: false,
            fail_registers: false,
            resumes: 0,
            steps: 0,
            log: Vec::new(),
        }
    }

    fn byte(&self, addr: usize) -> u8 {
        *self.memory.get(&addr).unwrap_or(&0)
    }

    fn word(&self, addr: usize) -> u64 {
        let mut word: u64 = 0;
        for i in 0..8 {
            word |= (self.byte(addr + i) as u64) << (8 * i);
        }
        word
    }

    fn set_word(&mut self, addr: usize, word: u64) {
        for i in 0..8 {
            self.memory.insert(addr + i, ((word >> (8 * i)) & 0xff) as u8);
        }
    }

    /// Executes one instruction and says what became of the process.
    fn execute(&mut self) -> WaitEvent {
        if self.byte(self.rip) == TRAP_OPCODE {
            self.rip += 1;
            return WaitEvent::Stopped(SIGTRAP);
        }
        let found = self.code.iter().find(|i| i.addr == self.rip).copied();
        let instruction = match found {
            Some(instruction) => instruction,
            None => {
                self.alive = false;
                return WaitEvent::Signaled(SIGSEGV);
            }
        };
        match instruction.op {
            Op::Plain => self.rip += instruction.len,
            Op::Jump(target) => self.rip = target,
            Op::Call(target) => {
                self.returns.push(instruction.addr + instruction.len);
                self.rip = target;
            }
            Op::Ret => self.rip = self.returns.pop().unwrap(),
            Op::Exit(code) => {
                self.alive = false;
                return WaitEvent::Exited(code);
            }
            Op::Fault(signal) => {
                return WaitEvent::Stopped(signal);
            }
        }
        WaitEvent::Stopped(SIGTRAP)
    }
}

#[derive(Clone)]
struct Simulated {
    machine: Rc<RefCell<Machine>>,
}

impl Simulated {
    fn new(machine: Machine) -> Simulated {
        Simulated { machine: Rc::new(RefCell::new(machine)) }
    }
}

impl Tracee for Simulated {
    fn pid(&self) -> i32 {
        4242
    }

    fn peek_word(&self, addr: usize) -> Result<u64, OsError> {
        let machine = self.machine.borrow();
        if !machine.alive {
            return Err(OsError::Errno(ESRCH));
        }
        Ok(machine.word(addr))
    }

    fn poke_word(&self, addr: usize, word: u64) -> Result<(), OsError> {
        let mut machine = self.machine.borrow_mut();
        if !machine.alive {
            return Err(OsError::Errno(ESRCH));
        }
        if let Some(bad) = machine.fail_poke_at {
            if addr <= bad && bad < addr + 8 {
                return Err(OsError::Errno(EIO));
            }
        }
        machine.log.push(format!("poke {:#x}", addr));
        machine.set_word(addr, word);
        Ok(())
    }

    fn registers(&self) -> Result<Registers, OsError> {
        let machine = self.machine.borrow();
        if !machine.alive || machine.fail_registers {
            return Err(OsError::Errno(ESRCH));
        }
        Ok(Registers { rip: machine.rip, rbp: machine.rbp })
    }

    fn set_rip(&self, rip: usize) -> Result<(), OsError> {
        let mut machine = self.machine.borrow_mut();
        if !machine.alive || machine.fail_set_rip {
            return Err(OsError::Errno(ESRCH));
        }
        machine.log.push(format!("rip {:#x}", rip));
        machine.rip = rip;
        Ok(())
    }

    fn resume(&self) -> Result<(), OsError> {
        let mut machine = self.machine.borrow_mut();
        if !machine.alive || machine.fail_resume {
            return Err(OsError::Errno(ESRCH));
        }
        machine.resumes += 1;
        machine.log.push(format!("resume"));
        let mut budget = 10_000;
        loop {
            let at = machine.rip;
            let event = machine.execute();
            let trapped = machine.rip == at + 1 && machine.byte(at) == TRAP_OPCODE;
            let stays = matches!(event, WaitEvent::Stopped(signal) if signal == SIGTRAP) && !trapped;
            budget -= 1;
            if !stays || budget == 0 {
                machine.pending = Some(event);
                return Ok(());
            }
        }
    }

    fn single_step(&self) -> Result<(), OsError> {
        let mut machine = self.machine.borrow_mut();
        if !machine.alive || machine.fail_step {
            return Err(OsError::Errno(ESRCH));
        }
        machine.steps += 1;
        machine.log.push(format!("step"));
        let event = machine.execute();
        machine.pending = Some(event);
        Ok(())
    }

    fn wait_event(&self, block: bool) -> Result<WaitEvent, OsError> {
        let mut machine = self.machine.borrow_mut();
        if machine.reaped {
            return Err(OsError::Errno(10));
        }
        match machine.pending.take() {
            Some(event) => {
                if matches!(event, WaitEvent::Exited(_) | WaitEvent::Signaled(_)) {
                    machine.reaped = true;
                }
                Ok(event)
            }
            None => {
                if block {
                    Err(OsError::Other)
                } else {
                    Ok(WaitEvent::StillAlive)
                }
            }
        }
    }

    fn send_kill(&self) -> Result<(), OsError> {
        let mut machine = self.machine.borrow_mut();
        if machine.reaped {
            return Err(OsError::Errno(ESRCH));
        }
        machine.alive = false;
        machine.pending = Some(WaitEvent::Signaled(SIGKILL));
        Ok(())
    }
}

struct Symbols {
    /// First address, address behind the last, line number.
    lines: Vec<(usize, usize, usize)>,
    /// First address, address behind the last, name.
    functions: Vec<(usize, usize, String)>,
}

impl SymbolResolver for Symbols {
    fn resolve_line(&self, addr: usize) -> Option<SourceLocation> {
        self.lines.iter().find(|(from, to, _)| *from <= addr && addr < *to).map(|(_, _, n)| {
            SourceLocation { file: String::from("sample.c"), number: *n, address: addr }
        })
    }

    fn resolve_function(&self, addr: usize) -> Option<String> {
        self.functions
            .iter()
            .find(|(from, to, _)| *from <= addr && addr < *to)
            .map(|(_, _, name)| name.clone())
    }

    fn address_for_line(&self, line: usize) -> Option<usize> {
        self.lines.iter().find(|(_, _, n)| *n == line).map(|(from, _, _)| *from)
    }

    fn address_for_function(&self, name: &str) -> Option<usize> {
        self.functions.iter().find(|(_, _, n)| n == name).map(|(from, _, _)| *from)
    }
}

const MAIN: usize = 0x1000;
const COMPUTE: usize = 0x2000;

/// A program whose `main` runs three lines, calls `compute` on the second, and
/// exits with code 7.
///
/// ```text
/// main:    0x1000 (1 byte)  line 10
///          0x1001 (3 bytes) line 10
///          0x1004 (5 bytes) line 11   call compute
///          0x1009 (2 bytes) line 12
///          0x100b (2 bytes) line 12   exit 7
/// compute: 0x2000 (1 byte)  line 3
///          0x2001 (4 bytes) line 4
///          0x2005 (1 byte)  line 5    ret
/// ```
fn sample_code() -> Vec<Instruction> {
    vec![
        Instruction { addr: 0x1000, len: 1, op: Op::Plain },
        Instruction { addr: 0x1001, len: 3, op: Op::Plain },
        Instruction { addr: 0x1004, len: 5, op: Op::Call(COMPUTE) },
        Instruction { addr: 0x1009, len: 2, op: Op::Plain },
        Instruction { addr: 0x100b, len: 2, op: Op::Exit(7) },
        Instruction { addr: 0x2000, len: 1, op: Op::Plain },
        Instruction { addr: 0x2001, len: 4, op: Op::Plain },
        Instruction { addr: 0x2005, len: 1, op: Op::Ret },
    ]
}

fn sample_symbols() -> Symbols {
    Symbols {
        lines: vec![
            (0x1000, 0x1004, 10),
            (0x1004, 0x1009, 11),
            (0x1009, 0x100d, 12),
            (0x2000, 0x2001, 3),
            (0x2001, 0x2005, 4),
            (0x2005, 0x2006, 5),
        ],
        functions: vec![
            (0x1000, 0x100d, String::from("main")),
            (0x2000, 0x2006, String::from("compute")),
        ],
    }
}

fn sample() -> Simulated {
    Simulated::new(Machine::new(sample_code(), MAIN))
}

fn session() -> Debugger<Simulated, Symbols> {
    Debugger::new(sample_symbols())
}

fn line(number: usize, address: usize) -> Option<SourceLocation> {
    Some(SourceLocation { file: String::from("sample.c"), number, address })
}

#[test]
fn new_session_holds_nothing() {
    let session = session();
    assert!(!session.has_process());
    assert_eq!(session.halted(), None);
    assert_eq!(session.breakpoints().len(), 0);
}

#[test]
fn continue_without_process_reports_it() {
    let mut session = session();
    assert_eq!(session.cont(), Report::NoProcess);
    assert_eq!(session.step_line(100), Report::NoProcess);
    assert_eq!(session.backtrace(100), Report::NoProcess);
    assert_eq!(session.terminate(), Report::NoProcess);
    assert!(!session.has_process());
}

#[test]
fn run_without_breakpoints_runs_to_the_end() {
    let mut session = session();
    let process = sample();
    assert_eq!(session.launch(process.clone()), Report::Exited(7));
    assert!(!session.has_process());
    assert_eq!(session.halted(), None);
    assert_eq!(process.machine.borrow().resumes, 1);
    assert_eq!(session.cont(), Report::NoProcess);
}

#[test]
fn breakpoint_before_run_is_declared_without_a_patch() {
    let mut session = session();
    assert_eq!(session.set_bp("compute"), Report::BreakpointSet(0, COMPUTE));
    assert_eq!(session.breakpoints().len(), 1);
    assert_eq!(session.breakpoints().get(0), Some(Breakpoint { addr: COMPUTE, orig_byte: 0 }));
    assert_eq!(session.breakpoints().get(1), None);
}

#[test]
fn breakpoint_at_function_stops_at_its_first_line() {
    let mut session = session();
    let process = sample();
    assert_eq!(session.set_bp("compute"), Report::BreakpointSet(0, COMPUTE));
    assert_eq!(session.launch(process.clone()), Report::BreakpointHit(COMPUTE, line(3, COMPUTE)));
    assert!(session.has_process());
    assert_eq!(session.halted(), Some(COMPUTE));
    {
        let machine = process.machine.borrow();
        assert_eq!(machine.rip, COMPUTE);
        assert_eq!(machine.byte(COMPUTE), 0x50);
    }
    assert_eq!(session.breakpoints().get(0), Some(Breakpoint { addr: COMPUTE, orig_byte: 0x50 }));
    // The second continue steps over the breakpoint and does not report it again.
    assert_eq!(session.cont(), Report::Exited(7));
    assert!(!session.has_process());
    let machine = process.machine.borrow();
    assert_eq!(machine.steps, 1);
    assert_eq!(machine.resumes, 2);
}

#[test]
fn trap_is_back_before_the_process_is_resumed() {
    let mut session = session();
    let process = sample();
    assert_eq!(session.set_bp("*0x2000"), Report::BreakpointSet(0, COMPUTE));
    assert_eq!(session.set_bp("*0x1009"), Report::BreakpointSet(1, 0x1009));
    assert_eq!(session.launch(process.clone()), Report::BreakpointHit(COMPUTE, line(3, COMPUTE)));
    process.machine.borrow_mut().log.clear();
    assert_eq!(session.cont(), Report::BreakpointHit(0x1009, line(12, 0x1009)));
    let machine = process.machine.borrow();
    assert_eq!(
        machine.log,
        vec![
            String::from("step"),
            String::from("poke 0x2000"),
            String::from("resume"),
            String::from("poke 0x1008"),
            String::from("rip 0x1009"),
        ]
    );
    assert_eq!(machine.byte(COMPUTE), TRAP_OPCODE);
    assert_eq!(machine.byte(0x1009), 0x50);
    assert_eq!(machine.rip, 0x1009);
    assert_eq!(session.halted(), Some(0x1009));
}

#[test]
fn run_patches_every_declared_breakpoint() {
    let mut session = session();
    let process = sample();
    assert_eq!(session.set_bp("*0x1001"), Report::BreakpointSet(0, 0x1001));
    assert_eq!(session.set_bp("11"), Report::BreakpointSet(1, 0x1004));
    assert_eq!(session.set_bp("compute"), Report::BreakpointSet(2, COMPUTE));
    assert_eq!(session.launch(process.clone()), Report::BreakpointHit(0x1001, line(10, 0x1001)));
    let machine = process.machine.borrow();
    assert_eq!(machine.byte(0x1001), 0x50);
    assert_eq!(machine.byte(0x1004), TRAP_OPCODE);
    assert_eq!(machine.byte(COMPUTE), TRAP_OPCODE);
    assert_eq!(session.breakpoints().get(0), Some(Breakpoint { addr: 0x1001, orig_byte: 0x50 }));
    assert_eq!(session.breakpoints().get(1), Some(Breakpoint { addr: 0x1004, orig_byte: 0x50 }));
    assert_eq!(session.breakpoints().get(2), Some(Breakpoint { addr: COMPUTE, orig_byte: 0x50 }));
}

#[test]
fn run_fails_when_a_patch_fails() {
    let mut session = session();
    let process = sample();
    process.machine.borrow_mut().fail_poke_at = Some(COMPUTE);
    assert_eq!(session.set_bp("*0x1001"), Report::BreakpointSet(0, 0x1001));
    assert_eq!(session.set_bp("compute"), Report::BreakpointSet(1, COMPUTE));
    assert_eq!(
        session.launch(process.clone()),
        Report::SpawnFailed(SpawnError::Patch(PatchError::Memory(
            COMPUTE,
            MemoryError::Poke(COMPUTE, OsError::Errno(EIO))
        )))
    );
    assert!(!session.has_process());
    assert_eq!(session.halted(), None);
    assert_eq!(session.breakpoints().len(), 2);
    assert_eq!(process.machine.borrow().resumes, 0);
}

#[test]
fn run_fails_when_the_process_does_not_stop_first() {
    let mut session = session();
    let process = sample();
    process.machine.borrow_mut().pending = Some(WaitEvent::Exited(1));
    assert_eq!(
        session.launch(process),
        Report::SpawnFailed(SpawnError::NotStopped(WaitEvent::Exited(1)))
    );
    assert!(!session.has_process());
    let process = sample();
    process.machine.borrow_mut().pending = None;
    assert_eq!(session.launch(process), Report::SpawnFailed(SpawnError::Wait(OsError::Other)));
    assert!(!session.has_process());
}

#[test]
fn redeclaring_a_breakpoint_keeps_one_record() {
    let mut session = session();
    assert_eq!(session.set_bp("*0x1004"), Report::BreakpointSet(0, 0x1004));
    assert_eq!(session.set_bp("*1004"), Report::BreakpointSet(0, 0x1004));
    assert_eq!(session.set_bp("11"), Report::BreakpointSet(0, 0x1004));
    assert_eq!(session.breakpoints().len(), 1);
    assert_eq!(session.set_bp("compute"), Report::BreakpointSet(1, COMPUTE));
    assert_eq!(session.set_bp("compute"), Report::BreakpointSet(1, COMPUTE));
    assert_eq!(session.breakpoints().len(), 2);
}

#[test]
fn redeclaring_in_a_running_process_keeps_the_displaced_byte() {
    let mut session = session();
    let process = sample();
    assert_eq!(session.set_bp("*0x1001"), Report::BreakpointSet(0, 0x1001));
    assert_eq!(session.launch(process.clone()), Report::BreakpointHit(0x1001, line(10, 0x1001)));
    assert_eq!(session.set_bp("compute"), Report::BreakpointSet(1, COMPUTE));
    assert_eq!(process.machine.borrow().byte(COMPUTE), TRAP_OPCODE);
    assert_eq!(session.set_bp("compute"), Report::BreakpointSet(1, COMPUTE));
    assert_eq!(session.breakpoints().get(1), Some(Breakpoint { addr: COMPUTE, orig_byte: 0x50 }));
    assert_eq!(session.breakpoints().len(), 2);
    assert_eq!(session.halted(), Some(0x1001));
}

#[test]
fn invalid_breakpoints_change_nothing() {
    let mut session = session();
    assert_eq!(session.set_bp("*"), Report::InvalidBreakpoint);
    assert_eq!(session.set_bp("*zz"), Report::InvalidBreakpoint);
    assert_eq!(session.set_bp("*0x"), Report::InvalidBreakpoint);
    assert_eq!(session.set_bp("99"), Report::InvalidBreakpoint);
    assert_eq!(session.set_bp("nowhere"), Report::InvalidBreakpoint);
    assert_eq!(session.set_bp(""), Report::InvalidBreakpoint);
    assert_eq!(session.breakpoints().len(), 0);
}

#[test]
fn breakpoint_that_cannot_be_patched_is_not_declared() {
    let mut session = session();
    let process = sample();
    assert_eq!(session.set_bp("*0x1001"), Report::BreakpointSet(0, 0x1001));
    assert_eq!(session.launch(process.clone()), Report::BreakpointHit(0x1001, line(10, 0x1001)));
    process.machine.borrow_mut().fail_poke_at = Some(COMPUTE);
    assert_eq!(
        session.set_bp("compute"),
        Report::PatchFailed(PatchError::Memory(
            COMPUTE,
            MemoryError::Poke(COMPUTE, OsError::Errno(EIO))
        ))
    );
    assert_eq!(session.breakpoints().len(), 1);
    assert!(session.has_process());
    assert_eq!(session.halted(), Some(0x1001));
}

#[test]
fn step_advances_one_line() {
    let mut session = session();
    let process = sample();
    assert_eq!(session.set_bp("*0x1000"), Report::BreakpointSet(0, MAIN));
    assert_eq!(session.launch(process.clone()), Report::BreakpointHit(MAIN, line(10, MAIN)));
    // Line 10 has two instructions; the first is one byte long and holds the
    // breakpoint.
    assert_eq!(
        session.step_line(1000),
        Report::Stepped(SourceLocation {
            file: String::from("sample.c"),
            number: 11,
            address: 0x1004
        })
    );
    assert_eq!(session.halted(), None);
    assert_eq!(process.machine.borrow().steps, 2);
    assert_eq!(process.machine.borrow().byte(MAIN), TRAP_OPCODE);
}

#[test]
fn step_over_a_call_does_not_stop_in_the_callee() {
    let mut session = session();
    let process = sample();
    assert_eq!(session.set_bp("11"), Report::BreakpointSet(0, 0x1004));
    assert_eq!(session.launch(process.clone()), Report::BreakpointHit(0x1004, line(11, 0x1004)));
    assert_eq!(
        session.step_line(1000),
        Report::Stepped(SourceLocation {
            file: String::from("sample.c"),
            number: 12,
            address: 0x1009
        })
    );
    // The call, the three instructions of the callee.
    assert_eq!(process.machine.borrow().steps, 4);
}

#[test]
fn step_stops_at_a_breakpoint_on_the_way() {
    let mut session = session();
    let process = sample();
    assert_eq!(session.set_bp("11"), Report::BreakpointSet(0, 0x1004));
    assert_eq!(session.set_bp("*0x2001"), Report::BreakpointSet(1, 0x2001));
    assert_eq!(session.launch(process.clone()), Report::BreakpointHit(0x1004, line(11, 0x1004)));
    assert_eq!(session.step_line(1000), Report::BreakpointHit(0x2001, line(4, 0x2001)));
    assert_eq!(session.halted(), Some(0x2001));
    let machine = process.machine.borrow();
    assert_eq!(machine.rip, 0x2001);
    assert_eq!(machine.byte(0x2001), 0x50);
    assert_eq!(machine.byte(0x1004), TRAP_OPCODE);
}

#[test]
fn step_reports_the_end_of_the_process() {
    let mut session = session();
    let process = sample();
    assert_eq!(session.set_bp("12"), Report::BreakpointSet(0, 0x1009));
    assert_eq!(session.launch(process), Report::BreakpointHit(0x1009, line(12, 0x1009)));
    assert_eq!(session.step_line(1000), Report::Exited(7));
    assert!(!session.has_process());
    assert_eq!(session.halted(), None);
}

#[test]
fn step_gives_up_at_its_limit() {
    let mut session = session();
    let process = sample();
    assert_eq!(session.set_bp("11"), Report::BreakpointSet(0, 0x1004));
    assert_eq!(session.launch(process.clone()), Report::BreakpointHit(0x1004, line(11, 0x1004)));
    assert_eq!(session.step_line(0), Report::StepLimit);
    assert_eq!(session.halted(), Some(0x1004));
    assert_eq!(process.machine.borrow().steps, 0);
    assert_eq!(session.step_line(2), Report::StepLimit);
    assert_eq!(session.halted(), None);
    assert!(session.has_process());
    assert_eq!(process.machine.borrow().steps, 2);
    assert_eq!(process.machine.borrow().byte(0x1004), TRAP_OPCODE);
}

#[test]
fn step_needs_a_known_line() {
    let mut session: Debugger<Simulated, Symbols> =
        Debugger::new(Symbols { lines: vec![], functions: vec![] });
    let process = sample();
    assert_eq!(session.set_bp("*0x1001"), Report::BreakpointSet(0, 0x1001));
    assert_eq!(session.launch(process.clone()), Report::BreakpointHit(0x1001, None));
    assert_eq!(session.step_line(1000), Report::LineUnknown(0x1001));
    assert_eq!(session.halted(), Some(0x1001));
    process.machine.borrow_mut().fail_registers = true;
    assert_eq!(
        session.step_line(1000),
        Report::RegistersFailed(MemoryError::Registers(OsError::Errno(ESRCH)))
    );
    assert!(session.has_process());
}

#[test]
fn stop_on_another_signal_is_reported_as_it_is() {
    let mut code = sample_code();
    code[3] = Instruction { addr: 0x1009, len: 2, op: Op::Fault(SIGSEGV) };
    let process = Simulated::new(Machine::new(code, MAIN));
    let mut session = session();
    assert_eq!(session.launch(process.clone()), Report::Stopped(SIGSEGV, line(12, 0x1009)));
    assert!(session.has_process());
    assert_eq!(session.halted(), None);
    assert_eq!(session.step_line(10), Report::Stopped(SIGSEGV, line(12, 0x1009)));
    assert_eq!(session.halted(), None);
}

#[test]
fn trap_that_is_no_breakpoint_is_an_ordinary_stop() {
    let process = sample();
    process.machine.borrow_mut().memory.insert(0x1001, TRAP_OPCODE);
    let mut session = session();
    assert_eq!(session.set_bp("compute"), Report::BreakpointSet(0, COMPUTE));
    assert_eq!(session.launch(process.clone()), Report::Stopped(SIGTRAP, line(10, 0x1002)));
    assert_eq!(session.halted(), None);
    assert_eq!(process.machine.borrow().rip, 0x1002);
}

#[test]
fn killed_process_is_reported_and_given_up() {
    let mut code = sample_code();
    code.truncate(2);
    let process = Simulated::new(Machine::new(code, MAIN));
    let mut session = session();
    assert_eq!(session.launch(process), Report::Signaled(SIGSEGV));
    assert!(!session.has_process());
}

#[test]
fn failing_resume_gives_the_process_up() {
    let mut session = session();
    let process = sample();
    assert_eq!(session.set_bp("*0x1001"), Report::BreakpointSet(0, 0x1001));
    assert_eq!(session.launch(process.clone()), Report::BreakpointHit(0x1001, line(10, 0x1001)));
    process.machine.borrow_mut().fail_resume = true;
    assert_eq!(
        session.cont(),
        Report::ControlFailed(ControlError::Resume(OsError::Errno(ESRCH)))
    );
    assert!(!session.has_process());
    assert_eq!(session.halted(), None);
}

#[test]
fn failing_step_gives_the_process_up() {
    let mut session = session();
    let process = sample();
    assert_eq!(session.set_bp("*0x1001"), Report::BreakpointSet(0, 0x1001));
    assert_eq!(session.launch(process.clone()), Report::BreakpointHit(0x1001, line(10, 0x1001)));
    process.machine.borrow_mut().fail_step = true;
    assert_eq!(session.cont(), Report::ControlFailed(ControlError::Step(OsError::Errno(ESRCH))));
    assert!(!session.has_process());
    assert_eq!(session.halted(), None);
}

#[test]
fn failing_rearm_keeps_the_session_halted() {
    let mut session = session();
    let process = sample();
    assert_eq!(session.set_bp("*0x1001"), Report::BreakpointSet(0, 0x1001));
    assert_eq!(session.launch(process.clone()), Report::BreakpointHit(0x1001, line(10, 0x1001)));
    process.machine.borrow_mut().fail_poke_at = Some(0x1001);
    assert_eq!(
        session.cont(),
        Report::RearmFailed(PatchError::Memory(
            0x1001,
            MemoryError::Poke(0x1000, OsError::Errno(EIO))
        ))
    );
    assert!(session.has_process());
    assert_eq!(session.halted(), Some(0x1001));
    assert_eq!(process.machine.borrow().resumes, 1);
    assert_eq!(process.machine.borrow().byte(0x1001), 0x50);
}

#[test]
fn failing_restore_gives_the_process_up() {
    let mut session = session();
    let process = sample();
    assert_eq!(session.set_bp("*0x1001"), Report::BreakpointSet(0, 0x1001));
    assert_eq!(session.set_bp("compute"), Report::BreakpointSet(1, COMPUTE));
    assert_eq!(session.launch(process.clone()), Report::BreakpointHit(0x1001, line(10, 0x1001)));
    process.machine.borrow_mut().fail_poke_at = Some(COMPUTE);
    assert_eq!(
        session.cont(),
        Report::RestoreFailed(PatchError::Memory(
            COMPUTE,
            MemoryError::Poke(COMPUTE, OsError::Errno(EIO))
        ))
    );
    assert!(!session.has_process());
    assert_eq!(session.halted(), None);
}

#[test]
fn failing_rewind_gives_the_process_up() {
    let mut session = session();
    let process = sample();
    process.machine.borrow_mut().fail_set_rip = true;
    assert_eq!(session.set_bp("compute"), Report::BreakpointSet(0, COMPUTE));
    assert_eq!(
        session.launch(process),
        Report::RewindFailed(MemoryError::Registers(OsError::Errno(ESRCH)))
    );
    assert!(!session.has_process());
    assert_eq!(session.halted(), None);
}

#[test]
fn quit_kills_a_live_process() {
    let mut session = session();
    let process = sample();
    assert_eq!(session.set_bp("compute"), Report::BreakpointSet(0, COMPUTE));
    assert_eq!(session.launch(process.clone()), Report::BreakpointHit(COMPUTE, line(3, COMPUTE)));
    assert!(process.machine.borrow().alive);
    assert_eq!(session.terminate(), Report::Killed(4242));
    assert!(!process.machine.borrow().alive);
    assert!(!session.has_process());
    assert_eq!(session.halted(), None);
    assert_eq!(session.terminate(), Report::NoProcess);
    assert_eq!(session.breakpoints().len(), 1);
}

#[test]
fn run_kills_the_process_that_was_running() {
    let mut session = session();
    let first = sample();
    let second = sample();
    assert_eq!(session.set_bp("compute"), Report::BreakpointSet(0, COMPUTE));
    assert_eq!(session.launch(first.clone()), Report::BreakpointHit(COMPUTE, line(3, COMPUTE)));
    assert_eq!(session.launch(second.clone()), Report::BreakpointHit(COMPUTE, line(3, COMPUTE)));
    assert!(!first.machine.borrow().alive);
    assert!(second.machine.borrow().alive);
    assert_eq!(second.machine.borrow().byte(COMPUTE), 0x50);
    assert_eq!(session.halted(), Some(COMPUTE));
}

#[test]
fn process_found_dead_is_given_up() {
    let mut session = session();
    let process = sample();
    assert_eq!(session.set_bp("compute"), Report::BreakpointSet(0, COMPUTE));
    assert_eq!(session.launch(process.clone()), Report::BreakpointHit(COMPUTE, line(3, COMPUTE)));
    {
        let mut machine = process.machine.borrow_mut();
        machine.alive = false;
        machine.pending = Some(WaitEvent::Signaled(SIGKILL));
    }
    assert!(!session.is_running());
    assert!(!session.has_process());
    assert_eq!(session.halted(), None);
    assert_eq!(session.cont(), Report::NoProcess);
}

/// Lays out the stack of a process that is stopped in `compute`, called from
/// `main`.
fn in_compute() -> Simulated {
    let process = sample();
    {
        let mut machine = process.machine.borrow_mut();
        machine.rip = 0x2001;
        machine.rbp = 0x7000;
        machine.set_word(0x7008, 0x1009);
        machine.set_word(0x7000, 0x7100);
        machine.set_word(0x7108, 0xdead);
        machine.set_word(0x7100, 0);
        machine.pending = None;
    }
    process
}

fn frames_of(report: Report) -> Vec<(String, usize)> {
    match report {
        Report::Frames(frames) => {
            frames.into_iter().map(|f| (f.function, f.location.number)).collect()
        }
        other => panic!("no frames: {:?}", other),
    }
}

#[test]
fn backtrace_in_a_callee_names_it_and_main() {
    let process = in_compute();
    process.machine.borrow_mut().pending = Some(WaitEvent::Stopped(SIGTRAP));
    process.machine.borrow_mut().memory.insert(0x2001, TRAP_OPCODE);
    let mut session = session();
    assert_eq!(session.launch(process.clone()), Report::Stopped(SIGTRAP, line(4, 0x2002)));
    process.machine.borrow_mut().rip = 0x2001;
    assert_eq!(
        frames_of(session.backtrace(64)),
        vec![(String::from("compute"), 4), (String::from("main"), 12)]
    );
    assert!(session.has_process());
}

#[test]
fn backtrace_in_main_is_one_frame() {
    let mut session = session();
    let process = sample();
    assert_eq!(session.set_bp("*0x1001"), Report::BreakpointSet(0, 0x1001));
    assert_eq!(session.launch(process), Report::BreakpointHit(0x1001, line(10, 0x1001)));
    assert_eq!(frames_of(session.backtrace(64)), vec![(String::from("main"), 10)]);
    assert_eq!(session.halted(), Some(0x1001));
}

#[test]
fn backtrace_reports_what_it_cannot_resolve() {
    let process = in_compute();
    process.machine.borrow_mut().pending = Some(WaitEvent::Stopped(SIGTRAP));
    process.machine.borrow_mut().memory.insert(0x2001, TRAP_OPCODE);
    process.machine.borrow_mut().set_word(0x7008, 0x5555);
    let mut session = session();
    assert_eq!(session.launch(process.clone()), Report::Stopped(SIGTRAP, line(4, 0x2002)));
    match session.backtrace(64) {
        Report::UnwindFailed(failure) => {
            assert_eq!(failure.cause, UnwindError::FunctionUnknown(0x5555));
            assert_eq!(failure.frames.len(), 1);
            assert_eq!(failure.frames[0].function, "compute");
        }
        other => panic!("unexpected: {:?}", other),
    }
    match session.backtrace(1) {
        Report::UnwindFailed(failure) => {
            assert_eq!(failure.cause, UnwindError::FrameLimit);
            assert_eq!(failure.frames.len(), 1);
        }
        other => panic!("unexpected: {:?}", other),
    }
    match session.backtrace(0) {
        Report::UnwindFailed(failure) => {
            assert_eq!(failure.cause, UnwindError::FrameLimit);
            assert_eq!(failure.frames.len(), 0);
        }
        other => panic!("unexpected: {:?}", other),
    }
    process.machine.borrow_mut().rbp = usize::MAX - 3;
    match session.backtrace(64) {
        Report::UnwindFailed(failure) => {
            assert_eq!(failure.cause, UnwindError::FrameOutOfRange(usize::MAX - 3));
        }
        other => panic!("unexpected: {:?}", other),
    }
    process.machine.borrow_mut().fail_registers = true;
    match session.backtrace(64) {
        Report::UnwindFailed(failure) => {
            assert_eq!(
                failure.cause,
                UnwindError::Registers(MemoryError::Registers(OsError::Errno(ESRCH)))
            );
        }
        other => panic!("unexpected: {:?}", other),
    }
}

#[test]
fn a_hit_is_a_trap_one_byte_past_a_breakpoint() {
    let mut table = BreakpointTable::new();
    table.declare(0x1000);
    table.declare(0x2000);
    assert_eq!(breakpoint_hit(&table, SIGTRAP, 0x1001, None), Some(0x1000));
    assert_eq!(breakpoint_hit(&table, SIGTRAP, 0x2001, None), Some(0x2000));
    assert_eq!(breakpoint_hit(&table, SIGTRAP, 0x2001, Some(0x1000)), Some(0x2000));
    // The instruction pointer is on the breakpoint, not past it.
    assert_eq!(breakpoint_hit(&table, SIGTRAP, 0x1000, None), None);
    assert_eq!(breakpoint_hit(&table, SIGTRAP, 0x1002, None), None);
    // Another signal.
    assert_eq!(breakpoint_hit(&table, SIGSEGV, 0x1001, None), None);
    // The one-byte instruction at the breakpoint has just been executed.
    assert_eq!(breakpoint_hit(&table, SIGTRAP, 0x1001, Some(0x1000)), None);
    assert_eq!(breakpoint_hit(&table, SIGTRAP, 0, None), None);
    assert_eq!(breakpoint_hit(&BreakpointTable::new(), SIGTRAP, 0x1001, None), None);
}

#[test]
fn a_step_ends_on_the_line_that_follows() {
    assert!(reached_next_line(10, 11));
    assert!(!reached_next_line(10, 10));
    assert!(!reached_next_line(10, 12));
    assert!(!reached_next_line(10, 9));
    assert!(!reached_next_line(10, 3));
    assert!(reached_next_line(0, 1));
    assert!(reached_next_line(usize::MAX - 1, usize::MAX));
    assert!(!reached_next_line(usize::MAX, 0));
    assert!(!reached_next_line(usize::MAX, usize::MAX));
}

#[test]
fn commands_without_a_process_report_it() {
    let mut session = session();
    assert_eq!(session.run(Command::Continue, 1000), Report::NoProcess);
    assert_eq!(session.run(Command::Step, 1000), Report::NoProcess);
    assert_eq!(session.run(Command::Backtrace, 1000), Report::NoProcess);
    assert_eq!(session.run(Command::Quit, 1000), Report::NoProcess);
    assert_eq!(session.run(Command::SetBreakpoint("nowhere"), 1000), Report::InvalidBreakpoint);
    assert_eq!(session.breakpoints().len(), 0);
    assert!(!session.has_process());
}

#[test]
fn commands_reach_their_handlers() {
    let mut session = session();
    let process = sample();
    assert_eq!(
        session.run(Command::SetBreakpoint("*0x1001"), 1000),
        Report::BreakpointSet(0, 0x1001)
    );
    assert_eq!(
        session.run(Command::Run(process.clone()), 1000),
        Report::BreakpointHit(0x1001, line(10, 0x1001))
    );
    assert_eq!(
        frames_of(session.run(Command::Backtrace, 64)),
        vec![(String::from("main"), 10)]
    );
    match session.run(Command::Backtrace, 0) {
        Report::UnwindFailed(failure) => assert_eq!(failure.cause, UnwindError::FrameLimit),
        other => panic!("unexpected: {:?}", other),
    }
    assert_eq!(
        session.run(Command::Step, 1000),
        Report::Stepped(SourceLocation {
            file: String::from("sample.c"),
            number: 11,
            address: 0x1004
        })
    );
    // One instruction, the call, does not reach the next line.
    assert_eq!(session.run(Command::Step, 1), Report::StepLimit);
    assert_eq!(process.machine.borrow().rip, COMPUTE);
    assert_eq!(
        session.run(Command::SetBreakpoint("12"), 1000),
        Report::BreakpointSet(1, 0x1009)
    );
    assert_eq!(
        session.run(Command::Continue, 1000),
        Report::BreakpointHit(0x1009, line(12, 0x1009))
    );
    assert_eq!(session.run(Command::Quit, 1000), Report::Killed(4242));
    assert!(!process.machine.borrow().alive);
    assert!(!session.has_process());
    assert_eq!(session.breakpoints().len(), 2);
}

#[test]
fn run_command_replaces_the_process() {
    let mut session = session();
    let first = sample();
    let second = sample();
    assert_eq!(session.run(Command::SetBreakpoint("compute"), 1000), Report::BreakpointSet(0, COMPUTE));
    assert_eq!(
        session.run(Command::Run(first.clone()), 1000),
        Report::BreakpointHit(COMPUTE, line(3, COMPUTE))
    );
    assert_eq!(
        session.run(Command::Run(second.clone()), 1000),
        Report::BreakpointHit(COMPUTE, line(3, COMPUTE))
    );
    assert!(!first.machine.borrow().alive);
    assert!(second.machine.borrow().alive);
    assert_eq!(session.run(Command::Continue, 1000), Report::Exited(7));
    assert!(!session.has_process());
}
