use vstd::prelude::*;
use std::collections::HashMap;
use crate::memory::{Addressable, LinearMemory, word_at, after_write_word, put_word, in_bounds};
use crate::op::{Op, DecodeError, decode_word};
use crate::register::{Register, REGISTER_COUNT};

verus! {

broadcast use vstd::std_specs::hash::group_hash_axioms;

/// Size in bytes of the memory that a new machine gets.
pub const MEMORY_SIZE: usize = 8192;

/// A fault of one operation of the machine.
#[derive(Clone, Debug, PartialEq, Eq)]
pub enum Fault {
    /// A read or write at `addr` fell outside the memory.
    Memory { addr: u16 },
    /// The fetched word is not an instruction.
    Decode(DecodeError),
    /// No handler is registered for the signal `code`.
    UnhandledSignal { code: u8 },
    /// A signal handler reported a failure.
    Handler(String),
}

/// A failed step: the fault, with the address of the instruction that caused it.
#[derive(Clone, Debug, PartialEq, Eq)]
pub struct StepError {
    pub pc: u16,
    pub fault: Fault,
}

/// What a machine holds, as values: the register file, the memory contents and
/// the halt flag.
pub struct MachineView {
    pub registers: Seq<u16>,
    pub memory: Seq<u8>,
    pub halt: bool,
}

/// A trap routine that a `Signal` instruction runs with full access to the machine.
pub trait SignalHandler: Sized + Copy {
    /// How the handler may change the machine, and whether it reports success;
    /// by default, nothing is claimed.
    open spec fn effect(&self, before: MachineView, after: MachineView, r: Result<(), String>) -> bool {
        true
    }

    fn handle(&self, vm: &mut Machine<Self>) -> (r: Result<(), String>)
        ensures
            self.effect(old(vm)@, final(vm)@, r),
    ;
}

/// The handler that stops the machine: it sets the halt flag and changes
/// nothing else.
#[derive(Clone, Copy, Debug)]
pub struct Halt;

impl SignalHandler for Halt {
    open spec fn effect(&self, before: MachineView, after: MachineView, r: Result<(), String>) -> bool {
        &&& after == MachineView { halt: true, ..before }
        &&& r is Ok
    }

    fn handle(&self, vm: &mut Machine<Self>) -> (r: Result<(), String>) {
        signal_halt(vm)
    }
}

/// Sets the halt flag.
pub fn signal_halt<H>(vm: &mut Machine<H>) -> (r: Result<(), String>)
    ensures
        final(vm)@ == (MachineView { halt: true, ..old(vm)@ }),
        final(vm).handlers() == old(vm).handlers(),
        r is Ok,
{
    vm.halt = true;
    Ok(())
}

/// Slot of the stack pointer.
pub open spec fn sp_slot() -> int {
    Register::SP.slot() as int
}

/// Slot of the program counter.
pub open spec fn pc_slot() -> int {
    Register::PC.slot() as int
}

/// `a + b` in 16-bit arithmetic, wrapping on overflow.
pub open spec fn add16(a: int, b: int) -> u16 {
    ((a + b) % 0x10000) as u16
}

/// Whether a push succeeds: the word at SP lies in memory.
pub open spec fn push_ok(s: MachineView) -> bool {
    let sp = s.registers[sp_slot()] as int;
    in_bounds(s.memory, sp) && in_bounds(s.memory, sp + 1)
}

/// The machine after pushing `v`: the word goes to SP, and SP moves up by 2.
/// Where it fails, SP stays and only a low byte in bounds may have been written.
pub open spec fn push_state(s: MachineView, v: u16) -> MachineView {
    let sp = s.registers[sp_slot()] as int;
    if push_ok(s) {
        MachineView {
            registers: s.registers.update(sp_slot(), add16(sp, 2)),
            memory: put_word(s.memory, sp, v),
            ..s
        }
    } else {
        MachineView { memory: after_write_word(s.memory, sp, v), ..s }
    }
}

/// The address that a pop reads: SP - 2, wrapping below zero.
pub open spec fn pop_addr(s: MachineView) -> u16 {
    add16(s.registers[sp_slot()] as int, 0x10000 - 2)
}

/// What a pop returns: the word below SP, or a memory fault at its address.
pub open spec fn pop_result(s: MachineView) -> Result<u16, Fault> {
    match word_at(s.memory, pop_addr(s) as int) {
        Some(v) => Ok(v),
        None => Err(Fault::Memory { addr: pop_addr(s) }),
    }
}

/// The machine after a pop: SP moves down by 2 where the read succeeds.
pub open spec fn pop_state(s: MachineView) -> MachineView {
    if pop_result(s) is Ok {
        MachineView { registers: s.registers.update(sp_slot(), pop_addr(s)), ..s }
    } else {
        s
    }
}

/// A push that succeeds, followed by a pop, returns the pushed value and
/// leaves every register, SP included, as it was before the push.
pub proof fn lemma_push_pop(s: MachineView, v: u16)
    requires
        s.registers.len() == REGISTER_COUNT,
        push_ok(s),
    ensures
        pop_result(push_state(s, v)) == Ok::<u16, Fault>(v),
        pop_state(push_state(s, v)).registers == s.registers,
{
    let sp = s.registers[sp_slot()] as int;
    let s1 = push_state(s, v);
    assert(pop_addr(s1) == sp);
    assert(s1.registers.update(sp_slot(), sp as u16) == s.registers);
}

/// The machine and the outcome after running `op`, an instruction other than
/// `Signal`, on `s`.
pub open spec fn run_op(s: MachineView, op: Op) -> (MachineView, Result<(), Fault>) {
    match op {
        Op::Nop => (s, Ok(())),
        Op::Push(v) => (
            push_state(s, v),
            if push_ok(s) {
                Ok(())
            } else {
                Err(Fault::Memory { addr: s.registers[sp_slot()] })
            },
        ),
        Op::PopRegister(r) => match pop_result(s) {
            Ok(v) => {
                let s1 = pop_state(s);
                (MachineView { registers: s1.registers.update(r.slot() as int, v), ..s1 }, Ok(()))
            },
            Err(f) => (s, Err(f)),
        },
        Op::AddStack => match pop_result(s) {
            Ok(a) => {
                let s1 = pop_state(s);
                match pop_result(s1) {
                    Ok(b) => {
                        let s2 = pop_state(s1);
                        let sum = add16(a as int, b as int);
                        (
                            push_state(s2, sum),
                            if push_ok(s2) {
                                Ok(())
                            } else {
                                Err(Fault::Memory { addr: s2.registers[sp_slot()] })
                            },
                        )
                    },
                    Err(f) => (s1, Err(f)),
                }
            },
            Err(f) => (s, Err(f)),
        },
        Op::AddRegister(r1, r2) => {
            let v = add16(s.registers[r1.slot() as int] as int, s.registers[r2.slot() as int] as int);
            (MachineView { registers: s.registers.update(r1.slot() as int, v), ..s }, Ok(()))
        },
        Op::Signal(code) => (s, Err(Fault::UnhandledSignal { code })),
    }
}

/// A fault of the instruction at `pc`, tagged with that address.
pub open spec fn at_pc(res: Result<(), Fault>, pc: u16) -> Result<(), StepError> {
    match res {
        Ok(()) => Ok(()),
        Err(f) => Err(StepError { pc, fault: f }),
    }
}

/// The machine `s` with its program counter moved past the instruction at `pc`.
pub open spec fn advanced(s: MachineView, pc: u16) -> MachineView {
    MachineView { registers: s.registers.update(pc_slot(), add16(pc as int, 2)), ..s }
}

/// Whether `after` and `r` are a possible outcome of running `op`, fetched at
/// `pc`, on `s`. A `Signal` runs the handler registered for its code, or fails
/// where there is none.
pub open spec fn op_outcome<H: SignalHandler>(
    s: MachineView,
    handlers: Map<u8, H>,
    op: Op,
    pc: u16,
    after: MachineView,
    r: Result<(), StepError>,
) -> bool {
    match op {
        Op::Signal(code) => if handlers.contains_key(code) {
            match r {
                Ok(()) => handlers[code].effect(s, after, Ok::<(), String>(())),
                Err(e) => e.pc == pc && e.fault is Handler && handlers[code].effect(
                    s,
                    after,
                    Err(e.fault->Handler_0),
                ),
            }
        } else {
            after == s && r == Err::<(), StepError>(
                StepError { pc, fault: Fault::UnhandledSignal { code } },
            )
        },
        _ => after == run_op(s, op).0 && r == at_pc(run_op(s, op).1, pc),
    }
}

/// Whether `after` and `r` are a possible outcome of one step from `s`, with
/// the handlers `handlers`: fetch the word at PC (a memory fault at PC where it
/// fails), move PC past it, decode it, and run it.
pub open spec fn step_outcome<H: SignalHandler>(
    s: MachineView,
    handlers: Map<u8, H>,
    after: MachineView,
    r: Result<(), StepError>,
) -> bool {
    let pc = s.registers[pc_slot()];
    match word_at(s.memory, pc as int) {
        None => after == s && r == Err::<(), StepError>(
            StepError { pc, fault: Fault::Memory { addr: pc } },
        ),
        Some(w) => {
            let s1 = advanced(s, pc);
            match decode_word(w) {
                Err(e) => after == s1 && r == Err::<(), StepError>(
                    StepError { pc, fault: Fault::Decode(e) },
                ),
                Ok(op) => op_outcome(s1, handlers, op, pc, after, r),
            }
        },
    }
}

/// Whether `w` is a `Signal` instruction.
pub open spec fn is_signal_word(w: Option<u16>) -> bool {
    match w {
        Some(w) => decode_word(w) matches Ok(Op::Signal(_)),
        None => false,
    }
}

/// The machine's state: registers, memory, halt flag and signal handlers.
pub struct Machine<H> {
    registers: [u16; 8],
    signal_handlers: HashMap<u8, H>,
    pub halt: bool,
    pub memory: Box<dyn Addressable>,
}

impl<H: SignalHandler> Default for Machine<H> {
    fn default() -> (m: Self)
        ensures
            m@.registers == Seq::new(REGISTER_COUNT as nat, |i: int| 0u16),
            m@.memory == Seq::new(MEMORY_SIZE as nat, |i: int| 0u8),
            !m@.halt,
            m.handlers() == Map::<u8, H>::empty(),
    {
        Self::new()
    }
}

impl<H> View for Machine<H> {
    type V = MachineView;

    closed spec fn view(&self) -> MachineView {
        MachineView { registers: self.registers@, memory: self.memory.contents(), halt: self.halt }
    }
}

impl<H> Machine<H> {
    /// The registered signal handlers, by code.
    pub closed spec fn handlers(&self) -> Map<u8, H> {
        self.signal_handlers@
    }
}

impl<H: SignalHandler> Machine<H> {
    /// A machine with zeroed registers, `MEMORY_SIZE` bytes of zeroed memory,
    /// no handlers, not halted.
    pub fn new() -> (m: Self)
        ensures
            m@.registers == Seq::new(REGISTER_COUNT as nat, |i: int| 0u16),
            m@.memory == Seq::new(MEMORY_SIZE as nat, |i: int| 0u8),
            !m@.halt,
            m.handlers() == Map::<u8, H>::empty(),
    {
        let m = Self {
            registers: [0u16; 8],
            memory: Box::new(LinearMemory::new(MEMORY_SIZE)),
            signal_handlers: HashMap::new(),
            halt: false,
        };
        assert(m@.registers == Seq::new(REGISTER_COUNT as nat, |i: int| 0u16));
        m
    }

    /// Registers `f` for the signal `index`, replacing any handler it had.
    pub fn define_handler(&mut self, index: u8, f: H)
        ensures
            final(self).handlers() == old(self).handlers().insert(index, f),
            final(self)@ == old(self)@,
    {
        self.signal_handlers.insert(index, f);
    }

    /// The value held in `register`.
    pub fn get_register(&self, register: Register) -> (r: u16)
        ensures
            r == self@.registers[register.slot() as int],
    {
        self.registers[register.index()]
    }

    fn set_register(&mut self, register: Register, value: u16)
        ensures
            final(self)@ == (MachineView {
                registers: old(self)@.registers.update(register.slot() as int, value),
                ..old(self)@
            }),
            final(self).handlers() == old(self).handlers(),
    {
        self.registers[register.index()] = value;
    }

    /// Writes `value` as a word at SP and moves SP up by 2; a memory fault
    /// where the word does not lie in memory.
    pub fn push(&mut self, value: u16) -> (r: Result<(), Fault>)
        ensures
            final(self)@ == push_state(old(self)@, value),
            r == (if push_ok(old(self)@) {
                Ok(())
            } else {
                Err(Fault::Memory { addr: old(self)@.registers[sp_slot()] })
            }),
            final(self).handlers() == old(self).handlers(),
    {
        let sp = self.get_register(Register::SP);
        if !self.memory.write_word(sp, value) {
            return Err(Fault::Memory { addr: sp });
        }
        self.set_register(Register::SP, sp.wrapping_add(2));
        Ok(())
    }

    /// Reads the word at SP - 2 and moves SP down by 2; a memory fault naming
    /// that address where it does not lie in memory.
    pub fn pop(&mut self) -> (r: Result<u16, Fault>)
        ensures
            r == pop_result(old(self)@),
            final(self)@ == pop_state(old(self)@),
            final(self).handlers() == old(self).handlers(),
    {
        let sp = self.get_register(Register::SP).wrapping_sub(2);
        if let Some(value) = self.memory.read_word(sp) {
            self.set_register(Register::SP, sp);
            Ok(value)
        } else {
            Err(Fault::Memory { addr: sp })
        }
    }

    /// Runs one instruction: fetches the word at PC, moves PC past it, decodes
    /// it and executes it. A `Signal` runs the handler registered for its code.
    pub fn step(&mut self) -> (r: Result<(), StepError>)
        ensures
            step_outcome(old(self)@, old(self).handlers(), final(self)@, r),
            !is_signal_word(word_at(old(self)@.memory, old(self)@.registers[pc_slot()] as int))
                ==> final(self).handlers() == old(self).handlers(),
    {
        let pc = self.get_register(Register::PC);
        let instruction = match self.memory.read_word(pc) {
            Some(w) => w,
            None => {
                return Err(StepError { pc, fault: Fault::Memory { addr: pc } });
            },
        };
        self.set_register(Register::PC, pc.wrapping_add(2));
        let op = match Op::decode(instruction) {
            Ok(op) => op,
            Err(e) => {
                return Err(StepError { pc, fault: Fault::Decode(e) });
            },
        };
        self.execute(op, pc)
    }

    /// Pops `a`, then `b`, and pushes `a + b`, wrapping on overflow.
    fn add_stack(&mut self) -> (r: Result<(), Fault>)
        ensures
            final(self)@ == run_op(old(self)@, Op::AddStack).0,
            r == run_op(old(self)@, Op::AddStack).1,
            final(self).handlers() == old(self).handlers(),
    {
        let a = match self.pop() {
            Ok(v) => v,
            Err(f) => {
                return Err(f);
            },
        };
        let b = match self.pop() {
            Ok(v) => v,
            Err(f) => {
                return Err(f);
            },
        };
        self.push(a.wrapping_add(b))
    }

    /// Runs the decoded instruction `op`, which was fetched at `pc`.
    fn execute(&mut self, op: Op, pc: u16) -> (r: Result<(), StepError>)
        ensures
            op_outcome(old(self)@, old(self).handlers(), op, pc, final(self)@, r),
            !(op is Signal) ==> final(self).handlers() == old(self).handlers(),
    {
        match op {
            Op::Nop => Ok(()),
            Op::Push(v) => match self.push(v) {
                Ok(()) => Ok(()),
                Err(f) => Err(StepError { pc, fault: f }),
            },
            Op::PopRegister(r) => match self.pop() {
                Ok(v) => {
                    self.set_register(r, v);
                    Ok(())
                },
                Err(f) => Err(StepError { pc, fault: f }),
            },
            Op::AddStack => match self.add_stack() {
                Ok(()) => Ok(()),
                Err(f) => Err(StepError { pc, fault: f }),
            },
            Op::AddRegister(r1, r2) => {
                let v = self.get_register(r1).wrapping_add(self.get_register(r2));
                self.set_register(r1, v);
                Ok(())
            },
            Op::Signal(signal) => {
                let handler = match self.signal_handlers.get(&signal) {
                    Some(h) => *h,
                    None => {
                        return Err(StepError { pc, fault: Fault::UnhandledSignal { code: signal } });
                    },
                };
                assert(old(self).handlers()[signal] == handler);
                let res = handler.handle(self);
                match res {
                    Ok(()) => {
                        assert(res->Ok_0 == ());
                        Ok(())
                    },
                    Err(msg) => Err(StepError { pc, fault: Fault::Handler(msg) }),
                }
            },
        }
    }
}

} // verus!
