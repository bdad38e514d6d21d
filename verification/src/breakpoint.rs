//! The table of breakpoints the user has declared.
//!
//! A record states an intent: stop when execution reaches this address. It
//! exists whether or not a process is running. The byte it remembers is the
//! one that the trap opcode displaced in the process that was patched last.

use vstd::prelude::*;
use crate::inferior::{can_write, Inferior, MemoryError};
use crate::tracee::Tracee;

verus! {

/// The one-byte opcode of the breakpoint trap instruction.
pub const TRAP_OPCODE: u8 = 0xcc;

/// A declared breakpoint.
#[derive(Clone, Copy, Debug, PartialEq, Eq, Structural)]
pub struct Breakpoint {
    /// Address of the instruction to stop at.
    pub addr: usize,
    /// The byte of the instruction that the trap opcode replaced.
    pub orig_byte: u8,
}

/// A failure to put a trap opcode into the process or to take it out again.
#[derive(Clone, Copy, Debug, PartialEq, Eq, Structural)]
pub enum PatchError {
    /// No breakpoint is declared at this address.
    NotDeclared(usize),
    /// The memory at this breakpoint's address could not be patched.
    Memory(usize, MemoryError),
}

/// Breakpoints in the order of their declaration, at most one per address.
pub struct BreakpointTable {
    records: Vec<Breakpoint>,
}

/// Whether no address occurs twice among `records`.
pub open spec fn distinct_addresses(records: Seq<Breakpoint>) -> bool {
    forall|i: int, j: int|
        0 <= i < records.len() && 0 <= j < records.len() && i != j ==> records[i].addr
            != records[j].addr
}

/// Whether some record of `records` is at `addr`.
pub open spec fn declared_in(records: Seq<Breakpoint>, addr: usize) -> bool {
    exists|i: int| 0 <= i < records.len() && #[trigger] records[i].addr == addr
}

/// The position of the record at `addr`, for an address that has one.
pub open spec fn position_in(records: Seq<Breakpoint>, addr: usize) -> int {
    choose|i: int| 0 <= i < records.len() && #[trigger] records[i].addr == addr
}

impl View for BreakpointTable {
    type V = Seq<Breakpoint>;

    closed spec fn view(&self) -> Seq<Breakpoint> {
        self.records@
    }
}

impl BreakpointTable {
    /// The table's invariant: one record per address.
    pub open spec fn wf(&self) -> bool {
        distinct_addresses(self@)
    }

    /// Whether a breakpoint is declared at `addr`.
    pub open spec fn contains(&self, addr: usize) -> bool {
        declared_in(self@, addr)
    }

    /// The index of the breakpoint at `addr`.
    pub open spec fn index_of(&self, addr: usize) -> int {
        position_in(self@, addr)
    }

    /// In a table without duplicates, the record at an address is found at one
    /// position only.
    pub proof fn position_is_unique(&self, addr: usize, i: int)
        requires
            self.wf(),
            0 <= i < self@.len(),
            self@[i].addr == addr,
        ensures
            self.contains(addr),
            self.index_of(addr) == i,
    {
    }

    /// An empty table.
    pub fn new() -> (table: BreakpointTable)
        ensures
            table@ == Seq::<Breakpoint>::empty(),
            table.wf(),
    {
        BreakpointTable { records: Vec::new() }
    }

    /// Number of declared breakpoints.
    pub fn len(&self) -> (n: usize)
        ensures
            n == self@.len(),
    {
        self.records.len()
    }

    /// The record at position `index`.
    pub fn get(&self, index: usize) -> (found: Option<Breakpoint>)
        ensures
            found == (if index < self@.len() {
                Some(self@[index as int])
            } else {
                None
            }),
    {
        if index < self.records.len() {
            Some(self.records[index])
        } else {
            None
        }
    }

    /// The index of the breakpoint declared at `addr`, if there is one.
    pub fn position(&self, addr: usize) -> (found: Option<usize>)
        requires
            self.wf(),
        ensures
            found is Some <==> self.contains(addr),
            found matches Some(i) ==> i == self.index_of(addr) && i < self@.len()
                && self@[i as int].addr == addr,
    {
        let mut i: usize = 0;
        while i < self.records.len()
            invariant
                i <= self.records.len(),
                self.wf(),
                forall|k: int| 0 <= k < i ==> self@[k].addr != addr,
            decreases self.records.len() - i,
        {
            if self.records[i].addr == addr {
                proof {
                    self.position_is_unique(addr, i as int);
                }
                return Some(i);
            }
            i += 1;
        }
        None
    }

    /// The breakpoint declared at `addr`, if there is one.
    pub fn lookup(&self, addr: usize) -> (found: Option<&Breakpoint>)
        requires
            self.wf(),
        ensures
            found is Some <==> self.contains(addr),
            found matches Some(record) ==> *record == self@[self.index_of(addr)] && record.addr
                == addr,
    {
        match self.position(addr) {
            Some(i) => Some(&self.records[i]),
            None => None,
        }
    }

    /// Declares a breakpoint at `addr` and returns its index. An address that
    /// is declared already keeps its record and its index: the table does not
    /// change.
    pub fn declare(&mut self, addr: usize) -> (index: usize)
        requires
            old(self).wf(),
        ensures
            final(self).wf(),
            final(self).contains(addr),
            index == final(self).index_of(addr),
            old(self).contains(addr) ==> final(self)@ == old(self)@,
            !old(self).contains(addr) ==> final(self)@ == old(self)@.push(
                Breakpoint { addr, orig_byte: 0 },
            ) && index == old(self)@.len(),
    {
        match self.position(addr) {
            Some(i) => i,
            None => {
                let index = self.records.len();
                self.records.push(Breakpoint { addr, orig_byte: 0 });
                proof {
                    self.position_is_unique(addr, index as int);
                }
                index
            },
        }
    }

    /// Takes back the declaration made last.
    pub(crate) fn retract(&mut self)
        requires
            old(self).wf(),
            old(self)@.len() > 0,
        ensures
            final(self).wf(),
            final(self)@ == old(self)@.drop_last(),
    {
        self.records.pop();
    }

    /// Stores `byte` as the displaced byte of the record at `index`.
    fn remember(&mut self, index: usize, byte: u8)
        requires
            old(self).wf(),
            index < old(self)@.len(),
        ensures
            final(self).wf(),
            final(self)@ == old(self)@.update(
                index as int,
                Breakpoint { addr: old(self)@[index as int].addr, orig_byte: byte },
            ),
    {
        let addr = self.records[index].addr;
        self.records.set(index, Breakpoint { addr, orig_byte: byte });
    }
}

/// Whether two tables declare the same addresses in the same order.
pub open spec fn same_addresses(a: Seq<Breakpoint>, b: Seq<Breakpoint>) -> bool {
    a.len() == b.len() && forall|i: int| 0 <= i < a.len() ==> a[i].addr == b[i].addr
}

/// What putting a trap in place gives, for each outcome of the write: on
/// success the record at `index` remembers the displaced byte, on failure the
/// table stays as it is.
pub open spec fn patched(
    records: Seq<Breakpoint>,
    index: int,
    written: Result<u8, MemoryError>,
) -> (Seq<Breakpoint>, Result<(), PatchError>) {
    match written {
        Ok(displaced) => (
            records.update(index, Breakpoint { addr: records[index].addr, orig_byte: displaced }),
            Ok(()),
        ),
        Err(e) => (records, Err(PatchError::Memory(records[index].addr, e))),
    }
}

/// What a write at the breakpoint at `addr` gives, for each outcome of it,
/// where nothing is to be remembered.
pub open spec fn armed(addr: usize, written: Result<u8, MemoryError>) -> Result<(), PatchError> {
    match written {
        Ok(_) => Ok(()),
        Err(e) => Err(PatchError::Memory(addr, e)),
    }
}

/// Whether putting the traps of the records from position `from` on into
/// `tracee` can end as `after`, `after_patches` and `r` say: the trap is
/// written at one address after the other, each record remembers the byte its
/// trap displaced, and the first write that fails ends the work.
pub open spec fn can_apply<T: Tracee>(
    tracee: T,
    records: Seq<Breakpoint>,
    from: int,
    patches: Map<usize, u8>,
    after: Seq<Breakpoint>,
    after_patches: Map<usize, u8>,
    r: Result<(), PatchError>,
) -> bool
    decreases records.len() - from,
{
    if 0 <= from < records.len() {
        exists|written: Result<u8, MemoryError>| #[trigger]
            can_write(tracee, records[from].addr, TRAP_OPCODE, written) && match written {
                Ok(_) => can_apply(
                    tracee,
                    patched(records, from, written).0,
                    from + 1,
                    patches.insert(records[from].addr, TRAP_OPCODE),
                    after,
                    after_patches,
                    r,
                ),
                Err(_) => after == records && after_patches == patches && r == patched(
                    records,
                    from,
                    written,
                ).1,
            }
    } else {
        after == records && after_patches == patches && r == Ok::<(), PatchError>(())
    }
}

impl BreakpointTable {
    /// Puts the trap opcode at the declared address `addr` of a running
    /// process and remembers the byte it displaced.
    ///
    /// Meant for a breakpoint that is not in place yet: where the trap is in
    /// place already, the byte remembered afterwards is the trap opcode.
    pub fn patch_one<T: Tracee>(&mut self, inferior: &mut Inferior<T>, addr: usize) -> (r: Result<
        (),
        PatchError,
    >)
        requires
            old(self).wf(),
        ensures
            final(self).wf(),
            same_addresses(old(self)@, final(self)@),
            r == Err::<(), PatchError>(PatchError::NotDeclared(addr)) <==> !old(self).contains(addr),
            r is Ok ==> final(inferior).patches() == old(inferior).patches().insert(
                addr,
                TRAP_OPCODE,
            ),
            r is Ok ==> forall|i: int|
                0 <= i < old(self)@.len() && i != old(self).index_of(addr) ==> final(self)@[i]
                    == old(self)@[i],
            r is Err ==> final(self)@ == old(self)@
                && final(inferior).patches() == old(inferior).patches(),
            r matches Err(PatchError::Memory(at, _)) ==> at == addr,
            r matches Err(PatchError::NotDeclared(at)) ==> at == addr,
            final(inferior).handle() == old(inferior).handle(),
            old(self).contains(addr) ==> exists|written: Result<u8, MemoryError>| #[trigger]
                can_write(old(inferior).handle(), addr, TRAP_OPCODE, written) && (final(self)@, r)
                    == patched(old(self)@, old(self).index_of(addr), written),
    {
        match self.position(addr) {
            Some(index) => {
                let written = inferior.write_byte(addr, TRAP_OPCODE);
                match written {
                    Ok(displaced) => {
                        self.remember(index, displaced);
                        Ok(())
                    },
                    Err(e) => Err(PatchError::Memory(addr, e)),
                }
            },
            None => Err(PatchError::NotDeclared(addr)),
        }
    }

    /// Puts the trap opcode at every declared address of a process that has
    /// just been started, and remembers the bytes displaced. Stops at the
    /// first address that cannot be patched.
    pub fn apply_all<T: Tracee>(&mut self, inferior: &mut Inferior<T>) -> (r: Result<
        (),
        PatchError,
    >)
        requires
            old(self).wf(),
        ensures
            final(self).wf(),
            same_addresses(old(self)@, final(self)@),
            r is Ok ==> forall|i: int|
                0 <= i < final(self)@.len() ==> final(inferior).holds(
                    #[trigger] final(self)@[i].addr,
                    TRAP_OPCODE,
                ),
            forall|a: usize| !old(self).contains(a) ==> final(inferior).agrees_at(old(inferior), a),
            r matches Err(e) ==> e is Memory && old(self).contains(e->Memory_0),
            final(inferior).handle() == old(inferior).handle(),
            can_apply(
                old(inferior).handle(),
                old(self)@,
                0,
                old(inferior).patches(),
                final(self)@,
                final(inferior).patches(),
                r,
            ),
    {
        let mut i: usize = 0;
        let ghost tracee = inferior.handle();
        while i < self.records.len()
            invariant
                inferior.handle() == old(inferior).handle(),
                tracee == old(inferior).handle(),
                forall|after: Seq<Breakpoint>, after_patches: Map<usize, u8>, r: Result<(), PatchError>|
                    #[trigger] can_apply(
                        tracee,
                        self@,
                        i as int,
                        inferior.patches(),
                        after,
                        after_patches,
                        r,
                    ) ==> can_apply(
                        tracee,
                        old(self)@,
                        0,
                        old(inferior).patches(),
                        after,
                        after_patches,
                        r,
                    ),
                i <= self@.len(),
                self.wf(),
                same_addresses(old(self)@, self@),
                forall|k: int| 0 <= k < i ==> inferior.holds(#[trigger] self@[k].addr, TRAP_OPCODE),
                forall|a: usize| !old(self).contains(a) ==> inferior.agrees_at(old(inferior), a),
            decreases self@.len() - i,
        {
            let addr = self.records[i].addr;
            assert(old(self)@[i as int].addr == addr);
            let ghost records = self@;
            let ghost patches = inferior.patches();
            let written = inferior.write_byte(addr, TRAP_OPCODE);
            match written {
                Ok(displaced) => {
                    self.remember(i, displaced);
                    assert(self@ == patched(records, i as int, written).0);
                    assert forall|after: Seq<Breakpoint>, after_patches: Map<usize, u8>, r: Result<
                        (),
                        PatchError,
                    >| #[trigger]
                        can_apply(
                            tracee,
                            self@,
                            i + 1,
                            inferior.patches(),
                            after,
                            after_patches,
                            r,
                        ) implies can_apply(
                        tracee,
                        old(self)@,
                        0,
                        old(inferior).patches(),
                        after,
                        after_patches,
                        r,
                    ) by {
                        assert(can_apply(tracee, records, i as int, patches, after, after_patches, r));
                    }
                },
                Err(e) => {
                    assert(can_apply(
                        tracee,
                        records,
                        i as int,
                        patches,
                        self@,
                        inferior.patches(),
                        Err(PatchError::Memory(addr, e)),
                    ));
                    return Err(PatchError::Memory(addr, e));
                },
            }
            i += 1;
        }
        assert(can_apply(tracee, self@, i as int, inferior.patches(), self@, inferior.patches(), Ok(())));
        Ok(())
    }

    /// Writes the remembered byte back at the declared address `addr`, so that
    /// the process can execute the instruction the trap stood in for.
    pub fn restore_original<T: Tracee>(&self, inferior: &mut Inferior<T>, addr: usize) -> (r:
        Result<(), PatchError>)
        requires
            self.wf(),
        ensures
            r == Err::<(), PatchError>(PatchError::NotDeclared(addr)) <==> !self.contains(addr),
            r is Ok ==> final(inferior).patches() == old(inferior).patches().insert(
                addr,
                self@[self.index_of(addr)].orig_byte,
            ),
            r is Err ==> final(inferior).patches() == old(inferior).patches(),
            r matches Err(PatchError::Memory(at, _)) ==> at == addr,
            r matches Err(PatchError::NotDeclared(at)) ==> at == addr,
            final(inferior).handle() == old(inferior).handle(),
            self.contains(addr) ==> exists|written: Result<u8, MemoryError>| #[trigger]
                can_write(
                    old(inferior).handle(),
                    addr,
                    self@[self.index_of(addr)].orig_byte,
                    written,
                ) && r == armed(addr, written),
    {
        match self.lookup(addr) {
            Some(record) => {
                let written = inferior.write_byte(addr, record.orig_byte);
                match written {
                    Ok(_) => Ok(()),
                    Err(e) => Err(PatchError::Memory(addr, e)),
                }
            },
            None => Err(PatchError::NotDeclared(addr)),
        }
    }

    /// Writes the trap opcode again at the declared address `addr`. The
    /// remembered byte stays as it is, so that doing this twice is the same as
    /// doing it once.
    pub fn reinsert<T: Tracee>(&self, inferior: &mut Inferior<T>, addr: usize) -> (r: Result<
        (),
        PatchError,
    >)
        requires
            self.wf(),
        ensures
            r == Err::<(), PatchError>(PatchError::NotDeclared(addr)) <==> !self.contains(addr),
            r is Ok ==> final(inferior).patches() == old(inferior).patches().insert(
                addr,
                TRAP_OPCODE,
            ),
            r is Err ==> final(inferior).patches() == old(inferior).patches(),
            r matches Err(PatchError::Memory(at, _)) ==> at == addr,
            r matches Err(PatchError::NotDeclared(at)) ==> at == addr,
            final(inferior).handle() == old(inferior).handle(),
            self.contains(addr) ==> exists|written: Result<u8, MemoryError>| #[trigger]
                can_write(old(inferior).handle(), addr, TRAP_OPCODE, written) && r == armed(
                    addr,
                    written,
                ),
    {
        match self.lookup(addr) {
            Some(_) => {
                let written = inferior.write_byte(addr, TRAP_OPCODE);
                match written {
                    Ok(_) => Ok(()),
                    Err(e) => Err(PatchError::Memory(addr, e)),
                }
            },
            None => Err(PatchError::NotDeclared(addr)),
        }
    }
}

} // verus!
