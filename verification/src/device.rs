//! Controllers: their states, the model that the contracts speak of, and
//! the execution of a line of code.

use vstd::prelude::*;
use crate::code::{next_runnable, ring};
use crate::devices::mc::execute_loc;
use crate::digits::{digit_at, with_digit, wrap16};
use crate::op::{Opcode, Pin, RegImm, Register, LOC};
use crate::wire::{pin_protocol, protocol_of, Attachment, Wire};

verus! {

/// What a controller is doing.
#[derive(Copy, Clone, Debug, PartialEq, Eq, Structural)]
pub enum DeviceState {
    /// Asleep for the given number of ticks.
    Sleep(u32),
    /// Ready to run a line.
    Exec,
    /// Waiting to write to a handshake wire.
    Write,
    /// Waiting to read from a handshake wire.
    Read,
}

/// The outcome of the last test, which decides which guarded lines run.
#[derive(Copy, Clone, Debug, PartialEq, Eq, Structural)]
pub enum CondState {
    /// No guarded line runs.
    Neither,
    /// The lines guarded by `+` run.
    Plus,
    /// The lines guarded by `-` run.
    Minus,
    /// Every guarded line runs.
    All,
}

/// The fatal conditions that a controller can meet.
#[derive(Copy, Clone, Debug, PartialEq, Eq, Structural)]
pub enum Fault {
    /// The program names a register or a pin that the controller does not
    /// have or that is wired to the wrong kind of wire, or hands a value
    /// that is no decimal digit to `dst`.
    Configuration,
    /// The program jumps out of its bounds.
    Execution,
}

/// What a controller finds when it looks at an operand.
#[derive(Copy, Clone, Debug, PartialEq, Eq, Structural)]
pub enum Peek {
    /// The value is there; `slot` is the handshake wire that hands it out
    /// and that the read empties.
    Ready { value: i16, slot: Option<usize> },
    /// The operand is a handshake pin that serves no read in this tick.
    Blocked,
    /// The operand cannot be read at all.
    Fault(Fault),
}

/// What looking at two operands in turn finds.
pub enum PeekPair {
    /// Both values are there; `wires` are the wires after both reads.
    Ready { first: i16, second: i16, wires: Seq<Attachment> },
    /// One of the operands serves no read in this tick.
    Blocked,
    /// One of the operands cannot be read at all.
    Fault(Fault),
}

/// What a write to the wire of a pin does.
pub enum PinStore {
    /// The write is taken; these are the wires after it.
    Stored(Seq<Attachment>),
    /// The pin is a handshake pin that serves no write in this tick.
    Blocked,
    /// The pin cannot be written at all.
    Fault(Fault),
}

/// What a write to a register does.
pub enum Store {
    /// The write is taken; these are the controller and the wires after it.
    Stored(Machine, Seq<Attachment>),
    /// The register is a handshake pin that serves no write in this tick.
    Blocked,
    /// The register cannot be written at all.
    Fault(Fault),
}

/// The wires as the read of an operand leaves them: the handshake wire that
/// handed out the value, if one did, has an empty slot.
pub open spec fn taken(wires: Seq<Attachment>, slot: Option<usize>) -> Seq<Attachment> {
    match slot {
        Some(at) => if at < wires.len() {
            wires.update(at as int, wires[at as int].after_get())
        } else {
            wires
        },
        None => wires,
    }
}

/// What a read of `pin` finds on wire `at`.  A latched wire hands out its
/// value.  A handshake wire hands out the value in its slot if the slot was
/// full when the tick began and still is.  A wire that is not there, or of
/// the other protocol, is a fault.
pub open spec fn peek_pin(wires: Seq<Attachment>, pin: Pin, at: usize) -> Peek {
    if at >= wires.len() || wires[at as int].protocol() != protocol_of(pin) {
        Peek::Fault(Fault::Configuration)
    } else {
        match wires[at as int] {
            Attachment::Latched(w) => Peek::Ready { value: w.value, slot: None },
            Attachment::Handshake(w) => if w.serves_read() {
                Peek::Ready { value: w.value.unwrap(), slot: Some(at) }
            } else {
                Peek::Blocked
            },
        }
    }
}

/// What a write of `value` to `pin` does on wire `at`.  A latched wire takes
/// every write.  A handshake wire takes it if its slot was empty when the
/// tick began and still is.  A wire that is not there, or of the other
/// protocol, is a fault.
pub open spec fn store_pin(wires: Seq<Attachment>, pin: Pin, at: usize, value: i16) -> PinStore {
    if at >= wires.len() || wires[at as int].protocol() != protocol_of(pin) {
        PinStore::Fault(Fault::Configuration)
    } else {
        match wires[at as int] {
            Attachment::Latched(w) => PinStore::Stored(
                wires.update(at as int, wires[at as int].after_push(value)),
            ),
            Attachment::Handshake(w) => if w.serves_write() {
                PinStore::Stored(wires.update(at as int, wires[at as int].after_push(value)))
            } else {
                PinStore::Blocked
            },
        }
    }
}

/// The new value of the accumulator `acc` under an operation with one
/// operand of value `v`.
pub open spec fn alu(op: Opcode, acc: i16, v: i16) -> i16 {
    match op {
        Opcode::Add(_) => wrap16(acc + v) as i16,
        Opcode::Sub(_) => wrap16(acc - v) as i16,
        Opcode::Mul(_) => wrap16(acc * v) as i16,
        Opcode::Dgt(_) => digit_at(acc as int, v as int) as i16,
        _ => acc,
    }
}

/// The outcome of the test `op` on the values `a` and `b`.
pub open spec fn verdict(op: Opcode, a: i16, b: i16) -> CondState {
    match op {
        Opcode::Teq(_, _) => if a == b {
            CondState::Plus
        } else {
            CondState::Minus
        },
        Opcode::Tgt(_, _) => if a > b {
            CondState::Plus
        } else {
            CondState::Minus
        },
        Opcode::Tlt(_, _) => if a < b {
            CondState::Plus
        } else {
            CondState::Minus
        },
        _ => if a == b {
            CondState::Neither
        } else if a > b {
            CondState::Plus
        } else {
            CondState::Minus
        },
    }
}

/// The number of ticks that `slp` with an operand of value `v` sleeps.
pub open spec fn nap(v: i16) -> u32 {
    if v < 0 {
        0
    } else {
        v as u32
    }
}

/// The model of a controller: what its contracts speak of.
pub struct Machine {
    /// The accumulator, if the controller has one.
    pub acc: Option<i16>,
    /// The second register, if the controller has one.
    pub dat: Option<i16>,
    /// The pins that the controller has.
    pub layout: Set<Pin>,
    /// The wire that each attached pin leads to, as its place among the
    /// wires of the board.
    pub pins: Map<Pin, usize>,
    /// What the controller is doing.
    pub state: DeviceState,
    /// The outcome of the last test.
    pub cond: CondState,
    /// The program counter.
    pub pc: int,
    /// The program, slot by slot.
    pub code: Seq<LOC>,
}

/// A controller and the wires after one of its actions, and the fault that
/// the action met, if it met one.
pub struct Outcome {
    pub machine: Machine,
    pub wires: Seq<Attachment>,
    pub fault: Option<Fault>,
}

impl Outcome {
    /// What the action hands back.
    pub open spec fn result(self) -> Result<(), Fault> {
        match self.fault {
            Some(f) => Err(f),
            None => Ok(()),
        }
    }
}

impl Machine {
    /// The program has between 1 and 255 slots and the program counter
    /// points at one of them.
    pub open spec fn wf(self) -> bool {
        &&& 0 < self.code.len() <= 255
        &&& 0 <= self.pc < self.code.len()
    }

    /// The action is done: the controller is ready for the next line.
    pub open spec fn completed(self, wires: Seq<Attachment>) -> Outcome {
        Outcome { machine: Machine { state: DeviceState::Exec, ..self }, wires, fault: None }
    }

    /// The action could not be done in this tick: the controller waits in
    /// `state`, and nothing else changes.
    pub open spec fn blocked(self, wires: Seq<Attachment>, state: DeviceState) -> Outcome {
        Outcome { machine: Machine { state, ..self }, wires, fault: None }
    }

    /// The action met the fault `f`: nothing changes.
    pub open spec fn failed(self, wires: Seq<Attachment>, f: Fault) -> Outcome {
        Outcome { machine: self, wires, fault: Some(f) }
    }

    /// What a read of `reg` finds.  A register that the controller does not
    /// have, and a pin that is not attached, is a fault.
    pub open spec fn peek_reg(self, wires: Seq<Attachment>, reg: Register) -> Peek {
        match reg {
            Register::Acc => match self.acc {
                Some(value) => Peek::Ready { value, slot: None },
                None => Peek::Fault(Fault::Configuration),
            },
            Register::Dat => match self.dat {
                Some(value) => Peek::Ready { value, slot: None },
                None => Peek::Fault(Fault::Configuration),
            },
            Register::Pin(pin) => if self.pins.contains_key(pin) {
                peek_pin(wires, pin, self.pins[pin])
            } else {
                Peek::Fault(Fault::Configuration)
            },
        }
    }

    /// What a read of the operand `src` finds.
    pub open spec fn peek(self, wires: Seq<Attachment>, src: RegImm) -> Peek {
        match src {
            RegImm::Imm(value) => Peek::Ready { value, slot: None },
            RegImm::Reg(reg) => self.peek_reg(wires, reg),
        }
    }

    /// What reading `a` and then `b` finds.  The second operand is looked at
    /// on the wires as the first read leaves them, so one handshake wire
    /// cannot serve both.
    pub open spec fn peek_pair(self, wires: Seq<Attachment>, a: RegImm, b: RegImm) -> PeekPair {
        match self.peek(wires, a) {
            Peek::Fault(f) => PeekPair::Fault(f),
            Peek::Blocked => PeekPair::Blocked,
            Peek::Ready { value: first, slot } => match self.peek(taken(wires, slot), b) {
                Peek::Fault(f) => PeekPair::Fault(f),
                Peek::Blocked => PeekPair::Blocked,
                Peek::Ready { value: second, slot: slot2 } => PeekPair::Ready {
                    first,
                    second,
                    wires: taken(taken(wires, slot), slot2),
                },
            },
        }
    }

    /// What a write of `value` to `reg` does.  A register that the
    /// controller does not have, and a pin that is not attached, is a fault.
    pub open spec fn store(self, wires: Seq<Attachment>, reg: Register, value: i16) -> Store {
        match reg {
            Register::Acc => if self.acc is Some {
                Store::Stored(Machine { acc: Some(value), ..self }, wires)
            } else {
                Store::Fault(Fault::Configuration)
            },
            Register::Dat => if self.dat is Some {
                Store::Stored(Machine { dat: Some(value), ..self }, wires)
            } else {
                Store::Fault(Fault::Configuration)
            },
            Register::Pin(pin) => if self.pins.contains_key(pin) {
                match store_pin(wires, pin, self.pins[pin], value) {
                    PinStore::Stored(w) => Store::Stored(self, w),
                    PinStore::Blocked => Store::Blocked,
                    PinStore::Fault(f) => Store::Fault(f),
                }
            } else {
                Store::Fault(Fault::Configuration)
            },
        }
    }

    /// What a read of the operand `src` by the controller does: the value is
    /// handed out and the wire that held it is emptied, or the controller
    /// waits in `Read`, or nothing changes on a fault.
    pub open spec fn read(self, wires: Seq<Attachment>, src: RegImm) -> Outcome {
        match self.peek(wires, src) {
            Peek::Ready { value, slot } => Outcome {
                machine: self,
                wires: taken(wires, slot),
                fault: None,
            },
            Peek::Blocked => self.blocked(wires, DeviceState::Read),
            Peek::Fault(f) => self.failed(wires, f),
        }
    }

    /// What a read of the operand `src` hands back: the value, `None` where
    /// the controller has to wait, or the fault.
    pub open spec fn read_value(self, wires: Seq<Attachment>, src: RegImm) -> Result<
        Option<i16>,
        Fault,
    > {
        match self.peek(wires, src) {
            Peek::Ready { value, slot } => Ok(Some(value)),
            Peek::Blocked => Ok(None),
            Peek::Fault(f) => Err(f),
        }
    }

    /// What a write of `value` to `reg` by the controller does: the value is
    /// stored, or the controller waits in `Write`, or nothing changes on a
    /// fault.
    pub open spec fn write(self, wires: Seq<Attachment>, reg: Register, value: i16) -> Outcome {
        match self.store(wires, reg, value) {
            Store::Stored(m, w) => Outcome { machine: m, wires: w, fault: None },
            Store::Blocked => self.blocked(wires, DeviceState::Write),
            Store::Fault(f) => self.failed(wires, f),
        }
    }

    /// What an operation on the accumulator with the operand `src` does.
    pub open spec fn accumulate(self, wires: Seq<Attachment>, op: Opcode, src: RegImm) -> Outcome {
        match self.acc {
            None => self.failed(wires, Fault::Configuration),
            Some(acc) => match self.peek(wires, src) {
                Peek::Fault(f) => self.failed(wires, f),
                Peek::Blocked => self.blocked(wires, DeviceState::Read),
                Peek::Ready { value, slot } => Machine {
                    acc: Some(alu(op, acc, value)),
                    ..self
                }.completed(taken(wires, slot)),
            },
        }
    }

    /// What a test of `a` against `b` does.
    pub open spec fn test(
        self,
        wires: Seq<Attachment>,
        op: Opcode,
        a: RegImm,
        b: RegImm,
    ) -> Outcome {
        match self.peek_pair(wires, a, b) {
            PeekPair::Fault(f) => self.failed(wires, f),
            PeekPair::Blocked => self.blocked(wires, DeviceState::Read),
            PeekPair::Ready { first, second, wires: w } => Machine {
                cond: verdict(op, first, second),
                ..self
            }.completed(w),
        }
    }

    /// What the operation `op` does to the controller and the wires.
    ///
    /// An operation is done as a whole or not at all.  Where one of its
    /// operands cannot be read in this tick the controller waits in `Read`,
    /// where its result cannot be written it waits in `Write`, and nothing
    /// else changes.  Where it is done, the controller is left in `Exec`, or
    /// asleep after `slp`.  The program counter moves only under `jmp`.
    #[verifier::opaque]
    pub open spec fn effect(self, wires: Seq<Attachment>, op: Opcode) -> Outcome {
        match op {
            Opcode::Nop => self.completed(wires),
            Opcode::MovReg(src, dst) => match self.peek(wires, src) {
                Peek::Fault(f) => self.failed(wires, f),
                Peek::Blocked => self.blocked(wires, DeviceState::Read),
                Peek::Ready { value, slot } => match self.store(taken(wires, slot), dst, value) {
                    Store::Stored(m, w) => m.completed(w),
                    Store::Blocked => self.blocked(wires, DeviceState::Write),
                    Store::Fault(f) => self.failed(wires, f),
                },
            },
            Opcode::Jmp(addr) => if addr < self.code.len() {
                Machine { pc: addr as int, ..self }.completed(wires)
            } else {
                self.failed(wires, Fault::Execution)
            },
            Opcode::Slp(src) => match self.peek(wires, src) {
                Peek::Fault(f) => self.failed(wires, f),
                Peek::Blocked => self.blocked(wires, DeviceState::Read),
                Peek::Ready { value, slot } => Outcome {
                    machine: Machine { state: DeviceState::Sleep(nap(value)), ..self },
                    wires: taken(wires, slot),
                    fault: None,
                },
            },
            Opcode::Add(src) => self.accumulate(wires, op, src),
            Opcode::Sub(src) => self.accumulate(wires, op, src),
            Opcode::Mul(src) => self.accumulate(wires, op, src),
            Opcode::Dgt(src) => self.accumulate(wires, op, src),
            Opcode::Not => match self.acc {
                None => self.failed(wires, Fault::Configuration),
                Some(acc) => Machine {
                    acc: Some(
                        if acc == 0 {
                            100i16
                        } else {
                            0i16
                        },
                    ),
                    ..self
                }.completed(wires),
            },
            Opcode::Dst(pos, digit) => match self.acc {
                None => self.failed(wires, Fault::Configuration),
                Some(acc) => match self.peek_pair(wires, pos, digit) {
                    PeekPair::Fault(f) => self.failed(wires, f),
                    PeekPair::Blocked => self.blocked(wires, DeviceState::Read),
                    PeekPair::Ready { first, second, wires: w } => if 0 <= second <= 9 {
                        Machine {
                            acc: Some(
                                wrap16(with_digit(acc as int, first as int, second as int)) as i16,
                            ),
                            ..self
                        }.completed(w)
                    } else {
                        self.failed(wires, Fault::Configuration)
                    },
                },
            },
            Opcode::Teq(a, b) => self.test(wires, op, a, b),
            Opcode::Tgt(a, b) => self.test(wires, op, a, b),
            Opcode::Tlt(a, b) => self.test(wires, op, a, b),
            Opcode::Tcp(a, b) => self.test(wires, op, a, b),
        }
    }

    /// What the line `line` does where it is executed as it stands: the
    /// effect of its operation, and nothing but readiness where it has none.
    pub open spec fn effect_of(self, wires: Seq<Attachment>, line: LOC) -> Outcome {
        match line.op {
            Some(op) => self.effect(wires, op),
            None => self.completed(wires),
        }
    }

    /// Whether a line that was done moves the program counter on to the
    /// next slot: every line but a jump, and but `slp`, which holds the
    /// program counter until the controller wakes.
    pub open spec fn moves_on(line: LOC, after: Outcome) -> bool {
        &&& after.fault is None
        &&& after.machine.state is Exec
        &&& !(line.op matches Some(Opcode::Jmp(_)))
    }

    /// What one attempt to run the line `line` does: its effect, and where
    /// the line was done the move of the program counter to the next slot.
    pub open spec fn attempt(self, wires: Seq<Attachment>, line: LOC) -> Outcome {
        let after = self.effect_of(wires, line);
        if Self::moves_on(line, after) {
            Outcome {
                machine: Machine {
                    pc: ring(after.machine.pc, 1, self.code.len() as int),
                    ..after.machine
                },
                ..after
            }
        } else {
            after
        }
    }

    /// What one tick does to the controller and the wires.
    ///
    /// A sleeping controller counts one tick down; with the last tick of its
    /// sleep it wakes and moves on to the next slot.  Any other controller
    /// fetches the next line that may run and attempts it: a line that
    /// waited for a wire is thus tried again.  Where no line may run the
    /// controller idles.
    pub open spec fn step(self, wires: Seq<Attachment>) -> Outcome {
        match self.state {
            DeviceState::Sleep(ticks) => if ticks <= 1 {
                Machine {
                    pc: ring(self.pc, 1, self.code.len() as int),
                    ..self
                }.completed(wires)
            } else {
                self.blocked(wires, DeviceState::Sleep((ticks - 1) as u32))
            },
            _ => match next_runnable(self.code, self.cond, self.pc) {
                Some(at) => Machine { pc: at, ..self }.attempt(wires, self.code[at]),
                None => self.completed(wires),
            },
        }
    }
}

/// Whether `after` is `m` but for its registers, its state and the outcome
/// of its last test: the program, the program counter, the pins and their
/// wiring are those of `m`.
pub open spec fn same_program(m: Machine, after: Machine) -> bool {
    &&& after.code == m.code
    &&& after.pc == m.pc
    &&& after.layout == m.layout
    &&& after.pins == m.pins
}

/// A write to a register leaves the program and the number of wires alone.
pub proof fn lemma_store_frame(m: Machine, wires: Seq<Attachment>, reg: Register, value: i16)
    ensures
        match m.store(wires, reg, value) {
            Store::Stored(after, w) => same_program(m, after) && after.state == m.state
                && w.len() == wires.len(),
            _ => true,
        },
{
}

/// Looking at two operands leaves the number of wires alone.
pub proof fn lemma_peek_pair_frame(m: Machine, wires: Seq<Attachment>, a: RegImm, b: RegImm)
    ensures
        match m.peek_pair(wires, a, b) {
            PeekPair::Ready { first, second, wires: w } => w.len() == wires.len(),
            _ => true,
        },
{
}

/// An outcome that leaves the program and the number of wires alone and
/// changes nothing at all on a fault.
pub open spec fn framed(m: Machine, wires: Seq<Attachment>, o: Outcome) -> bool {
    &&& same_program(m, o.machine)
    &&& o.wires.len() == wires.len()
    &&& o.fault is Some ==> o.machine == m && o.wires == wires
}

/// An operation on the accumulator is framed.
pub proof fn lemma_accumulate_frame(m: Machine, wires: Seq<Attachment>, op: Opcode, src: RegImm)
    ensures
        framed(m, wires, m.accumulate(wires, op, src)),
{
}

/// A test is framed.
pub proof fn lemma_test_frame(m: Machine, wires: Seq<Attachment>, op: Opcode, a: RegImm, b: RegImm)
    ensures
        framed(m, wires, m.test(wires, op, a, b)),
{
    lemma_peek_pair_frame(m, wires, a, b);
}

/// What no operation touches: the program, the pins and their wiring, and
/// the number of wires.  The program counter stays within the program and
/// moves only under a jump, and a fault changes nothing at all.
pub proof fn lemma_effect_frame(m: Machine, wires: Seq<Attachment>, op: Opcode)
    requires
        m.wf(),
    ensures
        m.effect(wires, op).machine.wf(),
        m.effect(wires, op).machine.code == m.code,
        m.effect(wires, op).machine.layout == m.layout,
        m.effect(wires, op).machine.pins == m.pins,
        m.effect(wires, op).wires.len() == wires.len(),
        !(op is Jmp) ==> m.effect(wires, op).machine.pc == m.pc,
        m.effect(wires, op).fault is Some ==> m.effect(wires, op).machine == m && m.effect(
            wires,
            op,
        ).wires == wires,
{
    reveal(Machine::effect);
    match op {
        Opcode::MovReg(src, dst) => {
            match m.peek(wires, src) {
                Peek::Ready { value, slot } => {
                    lemma_store_frame(m, taken(wires, slot), dst, value);
                },
                _ => {},
            }
        },
        Opcode::Add(src) => {
            lemma_accumulate_frame(m, wires, op, src);
        },
        Opcode::Sub(src) => {
            lemma_accumulate_frame(m, wires, op, src);
        },
        Opcode::Mul(src) => {
            lemma_accumulate_frame(m, wires, op, src);
        },
        Opcode::Dgt(src) => {
            lemma_accumulate_frame(m, wires, op, src);
        },
        Opcode::Dst(pos, digit) => {
            lemma_peek_pair_frame(m, wires, pos, digit);
        },
        Opcode::Teq(a, b) => {
            lemma_test_frame(m, wires, op, a, b);
        },
        Opcode::Tgt(a, b) => {
            lemma_test_frame(m, wires, op, a, b);
        },
        Opcode::Tlt(a, b) => {
            lemma_test_frame(m, wires, op, a, b);
        },
        Opcode::Tcp(a, b) => {
            lemma_test_frame(m, wires, op, a, b);
        },
        _ => {},
    }
}

/// One tick leaves a controller well formed and leaves its program, its
/// pins and the number of wires alone.
pub proof fn lemma_step_frame(m: Machine, wires: Seq<Attachment>)
    requires
        m.wf(),
    ensures
        m.step(wires).machine.wf(),
        m.step(wires).machine.code == m.code,
        m.step(wires).machine.layout == m.layout,
        m.step(wires).machine.pins == m.pins,
        m.step(wires).wires.len() == wires.len(),
{
    crate::code::lemma_ring(m.pc, 1, m.code.len() as int);
    match m.state {
        DeviceState::Sleep(_) => {},
        _ => {
            crate::code::lemma_scan_finds_first(m.code, m.cond, m.pc, 0);
            match next_runnable(m.code, m.cond, m.pc) {
                Some(at) => {
                    crate::code::lemma_ring(at, 1, m.code.len() as int);
                    let fetched = Machine { pc: at, ..m };
                    match m.code[at].op {
                        Some(op) => {
                            lemma_effect_frame(fetched, wires, op);
                            crate::code::lemma_ring(
                                fetched.effect(wires, op).machine.pc,
                                1,
                                m.code.len() as int,
                            );
                        },
                        None => {},
                    }
                },
                None => {},
            }
        },
    }
}

/// A read of a latched pin never waits and changes nothing: it hands out
/// the value of the wire, and so does the read that follows it.
pub proof fn lemma_latched_pin_never_blocks(m: Machine, wires: Seq<Attachment>, pin: Pin)
    requires
        m.pins.contains_key(pin),
        m.pins[pin] < wires.len(),
        wires[m.pins[pin] as int] is Latched,
        protocol_of(pin) == crate::wire::Protocol::Latched,
    ensures
        m.read_value(wires, RegImm::Reg(Register::Pin(pin))) == Ok::<Option<i16>, Fault>(
            Some(wires[m.pins[pin] as int]->Latched_0.value),
        ),
        m.read(wires, RegImm::Reg(Register::Pin(pin))).machine == m,
        m.read(wires, RegImm::Reg(Register::Pin(pin))).wires == wires,
{
}

/// A value crosses a handshake wire in two ticks.  A write to a wire whose
/// slot is empty is taken.  A reader that looks in the same tick finds
/// nothing and waits in `Read`.  Once the tick has passed for the wire the
/// reader is handed exactly the written value and the slot is empty again,
/// and a second read finds nothing and waits in `Read`.
pub proof fn lemma_handshake_transfer(
    writer: Machine,
    reader: Machine,
    wires: Seq<Attachment>,
    out: Pin,
    inp: Pin,
    value: i16,
)
    requires
        writer.pins.contains_key(out),
        reader.pins.contains_key(inp),
        writer.pins[out] == reader.pins[inp],
        protocol_of(out) == crate::wire::Protocol::Handshake,
        protocol_of(inp) == crate::wire::Protocol::Handshake,
        writer.pins[out] < wires.len(),
        wires[writer.pins[out] as int] is Handshake,
        wires[writer.pins[out] as int]->Handshake_0.serves_write(),
    ensures
        ({
            let at = writer.pins[out] as int;
            let src = RegImm::Reg(Register::Pin(inp));
            let sent = writer.write(wires, Register::Pin(out), value);
            let aged = sent.wires.update(at, sent.wires[at].after_step());
            let got = reader.read(aged, src);
            &&& sent.fault is None
            &&& sent.machine == writer
            &&& reader.read(sent.wires, src) == reader.blocked(sent.wires, DeviceState::Read)
            &&& reader.read_value(aged, src) == Ok::<Option<i16>, Fault>(Some(value))
            &&& got.machine == reader
            &&& got.wires[at]->Handshake_0.value is None
            &&& reader.read(got.wires, src) == reader.blocked(got.wires, DeviceState::Read)
        }),
{
}

/// A write to a handshake wire whose slot is full is not taken: the writer
/// waits in `Write` and the value that was there stays.
pub proof fn lemma_full_slot_blocks_writer(
    writer: Machine,
    wires: Seq<Attachment>,
    out: Pin,
    value: i16,
)
    requires
        writer.pins.contains_key(out),
        protocol_of(out) == crate::wire::Protocol::Handshake,
        writer.pins[out] < wires.len(),
        wires[writer.pins[out] as int] is Handshake,
        wires[writer.pins[out] as int]->Handshake_0.value is Some,
    ensures
        writer.write(wires, Register::Pin(out), value) == writer.blocked(
            wires,
            DeviceState::Write,
        ),
{
}

/// A line that has to wait is tried again.  A controller that a tick left
/// waiting for a wire stands on the line that has to wait, with nothing but
/// its state changed by that tick, and its next tick attempts that same
/// line.
pub proof fn lemma_waiting_line_is_retried(
    m: Machine,
    wires: Seq<Attachment>,
    later: Seq<Attachment>,
)
    requires
        m.wf(),
        !(m.state is Sleep),
        m.step(wires).fault is None,
        m.step(wires).machine.state is Read || m.step(wires).machine.state is Write,
    ensures
        ({
            let waiting = m.step(wires).machine;
            &&& next_runnable(m.code, m.cond, m.pc) == Some(waiting.pc)
            &&& waiting == (Machine { state: waiting.state, pc: waiting.pc, ..m })
            &&& m.step(wires).wires == wires
            &&& waiting.step(later) == waiting.attempt(later, m.code[waiting.pc])
        }),
{
    crate::code::lemma_refetch(m.code, m.cond, m.pc);
    match next_runnable(m.code, m.cond, m.pc) {
        Some(at) => {
            let fetched = Machine { pc: at, ..m };
            crate::code::lemma_ring(at, 1, m.code.len() as int);
            match m.code[at].op {
                Some(op) => {
                    lemma_effect_frame(fetched, wires, op);
                    lemma_waits_in_place(fetched, wires, op);
                },
                None => {},
            }
        },
        None => {},
    }
}

/// An operation that leaves the controller waiting for a wire changes
/// nothing but its state.
pub proof fn lemma_waits_in_place(m: Machine, wires: Seq<Attachment>, op: Opcode)
    requires
        m.effect(wires, op).fault is None,
        m.effect(wires, op).machine.state is Read || m.effect(wires, op).machine.state is Write,
    ensures
        m.effect(wires, op).wires == wires,
        m.effect(wires, op).machine == (Machine {
            state: m.effect(wires, op).machine.state,
            ..m
        }),
{
    reveal(Machine::effect);
}

/// The controller `m` after `ticks` ticks on its own, and the wires; the
/// ticks end with the first fault.
pub open spec fn run(m: Machine, wires: Seq<Attachment>, ticks: nat) -> Outcome
    decreases ticks,
{
    if ticks == 0 {
        Outcome { machine: m, wires, fault: None }
    } else {
        let before = run(m, wires, (ticks - 1) as nat);
        if before.fault is Some {
            before
        } else {
            before.machine.step(before.wires)
        }
    }
}

/// However many ticks pass, the program counter of a controller stays
/// within its program, and its program stays what it was.
pub proof fn lemma_run_stays_in_program(m: Machine, wires: Seq<Attachment>, ticks: nat)
    requires
        m.wf(),
    ensures
        run(m, wires, ticks).machine.wf(),
        0 <= run(m, wires, ticks).machine.pc < m.code.len(),
        run(m, wires, ticks).machine.code == m.code,
    decreases ticks,
{
    if ticks > 0 {
        lemma_run_stays_in_program(m, wires, (ticks - 1) as nat);
        let before = run(m, wires, (ticks - 1) as nat);
        lemma_step_frame(before.machine, before.wires);
    }
}

/// `slp` holds the program counter: the controller goes to sleep on the
/// line that put it to sleep.
pub proof fn lemma_slp_holds_the_line(m: Machine, wires: Seq<Attachment>, line: LOC, ticks: i16)
    requires
        line.op == Some(Opcode::Slp(RegImm::Imm(ticks))),
    ensures
        m.attempt(wires, line).machine == (Machine {
            state: DeviceState::Sleep(nap(ticks)),
            ..m
        }),
        m.attempt(wires, line).wires == wires,
        m.attempt(wires, line).fault is None,
{
    reveal(Machine::effect);
}

/// A controller that sleeps for `ticks` ticks, at least one, is asleep in
/// each of them, with its program counter where it was, and is awake after
/// the last of them, with its program counter on the next slot.  Nothing
/// else changes.
pub proof fn lemma_sleep_lasts(m: Machine, wires: Seq<Attachment>, ticks: u32, passed: nat)
    requires
        m.wf(),
        m.state == DeviceState::Sleep(ticks),
        1 <= ticks,
        passed <= ticks,
    ensures
        run(m, wires, passed).wires == wires,
        run(m, wires, passed).fault is None,
        passed < ticks ==> run(m, wires, passed).machine == (Machine {
            state: DeviceState::Sleep((ticks - passed) as u32),
            ..m
        }),
        passed == ticks ==> run(m, wires, passed).machine == (Machine {
            state: DeviceState::Exec,
            pc: ring(m.pc, 1, m.code.len() as int),
            ..m
        }),
    decreases passed,
{
    if passed > 0 {
        lemma_sleep_lasts(m, wires, ticks, (passed - 1) as nat);
    }
}

/// What every controller offers to the code that runs its program.
///
/// A controller is known to its callers by its model, `view()`.  Each
/// method says what it does to the model and changes nothing else.
pub trait Device: Sized {
    /// The model of the controller.
    spec fn view(&self) -> Machine;

    /// The accumulator; `None` where the controller has none.
    fn get_acc(&self) -> (r: Option<i16>)
        ensures
            r == self@.acc,
    ;

    /// Sets the accumulator.  A fault, and nothing changes, where the
    /// controller has none.
    fn set_acc(&mut self, val: i16) -> (r: Result<(), Fault>)
        ensures
            r == if old(self)@.acc is Some {
                Ok::<(), Fault>(())
            } else {
                Err::<(), Fault>(Fault::Configuration)
            },
            final(self)@ == if old(self)@.acc is Some {
                Machine { acc: Some(val), ..old(self)@ }
            } else {
                old(self)@
            },
    ;

    /// The second register; `None` where the controller has none.
    fn get_dat(&self) -> (r: Option<i16>)
        ensures
            r == self@.dat,
    ;

    /// Sets the second register.  A fault, and nothing changes, where the
    /// controller has none.
    fn set_dat(&mut self, val: i16) -> (r: Result<(), Fault>)
        ensures
            r == if old(self)@.dat is Some {
                Ok::<(), Fault>(())
            } else {
                Err::<(), Fault>(Fault::Configuration)
            },
            final(self)@ == if old(self)@.dat is Some {
                Machine { dat: Some(val), ..old(self)@ }
            } else {
                old(self)@
            },
    ;

    /// Whether the controller has the pin `pin`.
    fn has_pin(&self, pin: Pin) -> (r: bool)
        ensures
            r == self@.layout.contains(pin),
    ;

    /// The wire that `pin` is attached to; `None` where the controller has
    /// no such pin or nothing is attached to it.
    fn get_pin(&self, pin: Pin) -> (r: Option<usize>)
        ensures
            r == if self@.pins.contains_key(pin) {
                Some(self@.pins[pin])
            } else {
                None
            },
    ;

    /// Attaches `pin` to the wire `wire`.  A fault, and nothing changes,
    /// where the controller has no such pin.
    fn set_pin(&mut self, pin: Pin, wire: usize) -> (r: Result<(), Fault>)
        ensures
            r == if old(self)@.layout.contains(pin) {
                Ok::<(), Fault>(())
            } else {
                Err::<(), Fault>(Fault::Configuration)
            },
            final(self)@ == if old(self)@.layout.contains(pin) {
                Machine { pins: old(self)@.pins.insert(pin, wire), ..old(self)@ }
            } else {
                old(self)@
            },
    ;

    /// The outcome of the last test.
    fn get_cnd(&self) -> (r: CondState)
        ensures
            r == self@.cond,
    ;

    /// Sets the outcome of the last test.
    fn set_cnd(&mut self, cnd: CondState)
        ensures
            final(self)@ == (Machine { cond: cnd, ..old(self)@ }),
    ;

    /// What the controller is doing.
    fn get_state(&self) -> (r: DeviceState)
        ensures
            r == self@.state,
    ;

    /// Sets what the controller is doing.
    fn set_state(&mut self, state: DeviceState)
        ensures
            final(self)@ == (Machine { state, ..old(self)@ }),
    ;

    /// Puts the controller to sleep for `duration` ticks, for none where
    /// `duration` is negative.  The program counter stays where it is until
    /// the controller wakes.
    fn sleep(&mut self, duration: i16)
        ensures
            final(self)@ == (Machine { state: DeviceState::Sleep(nap(duration)), ..old(self)@ }),
    ;

    /// The program counter.
    fn get_pc(&self) -> (r: u8)
        ensures
            r == self@.pc,
    ;

    /// The line in slot `at`; `None` where the program has no such slot.
    fn get_line(&self, at: u8) -> (r: Option<LOC>)
        ensures
            r == if at < self@.code.len() {
                Some(self@.code[at as int])
            } else {
                None
            },
    ;

    /// Fetches the next line that may run: moves the program counter to the
    /// first slot at or after it, going round once, whose line may run
    /// under the last test, and hands out that line.  Where no line may run
    /// nothing changes and `None` is returned.
    fn get_loc(&mut self) -> (r: Option<LOC>)
        requires
            old(self)@.wf(),
        ensures
            match next_runnable(old(self)@.code, old(self)@.cond, old(self)@.pc) {
                Some(at) => r == Some(old(self)@.code[at]) && final(self)@ == (Machine {
                    pc: at,
                    ..old(self)@
                }),
                None => r is None && final(self)@ == old(self)@,
            },
    ;

    /// Moves the program counter to the next slot, from the last slot to
    /// slot 0.
    fn next_slot(&mut self)
        requires
            old(self)@.wf(),
        ensures
            final(self)@ == (Machine {
                pc: ring(old(self)@.pc, 1, old(self)@.code.len() as int),
                ..old(self)@
            }),
    ;

    /// Moves the program counter to slot `addr`.  A fault, and nothing
    /// changes, where the program has no such slot.
    fn jump(&mut self, addr: u8) -> (r: Result<(), Fault>)
        requires
            old(self)@.wf(),
        ensures
            r == if addr < old(self)@.code.len() {
                Ok::<(), Fault>(())
            } else {
                Err::<(), Fault>(Fault::Execution)
            },
            final(self)@ == if addr < old(self)@.code.len() {
                Machine { pc: addr as int, ..old(self)@ }
            } else {
                old(self)@
            },
    ;
}

/// What a controller shows of itself after a tick.
#[derive(Copy, Clone, Debug, PartialEq, Eq, Structural)]
pub struct Snapshot {
    /// What the controller is doing.
    pub state: DeviceState,
    /// The accumulator, if the controller has one.
    pub acc: Option<i16>,
    /// The second register, if the controller has one.
    pub dat: Option<i16>,
    /// The program counter.
    pub pc: u8,
    /// The outcome of the last test.
    pub cond: CondState,
}

/// What `device` shows of itself: its state, its registers, its program
/// counter and the outcome of its last test.
pub fn snapshot<D: Device>(device: &D) -> (r: Snapshot)
    ensures
        r.state == device@.state,
        r.acc == device@.acc,
        r.dat == device@.dat,
        r.pc == device@.pc,
        r.cond == device@.cond,
{
    Snapshot {
        state: device.get_state(),
        acc: device.get_acc(),
        dat: device.get_dat(),
        pc: device.get_pc(),
        cond: device.get_cnd(),
    }
}

/// Looks at wire `at` for a read of `pin`, and changes nothing.
pub fn peek_wire(wires: &Vec<Attachment>, pin: Pin, at: usize) -> (r: Peek)
    ensures
        r == peek_pin(wires@, pin, at),
{
    if at >= wires.len() {
        return Peek::Fault(Fault::Configuration);
    }
    let wire = wires[at];
    if wire.get_protocol() != pin_protocol(pin) {
        return Peek::Fault(Fault::Configuration);
    }
    match wire {
        Attachment::Latched(w) => Peek::Ready { value: w.value, slot: None },
        Attachment::Handshake(w) => match w.value {
            Some(value) => if w.held {
                Peek::Ready { value, slot: Some(at) }
            } else {
                Peek::Blocked
            },
            None => Peek::Blocked,
        },
    }
}

/// Looks at the register `reg` of `device`, and changes nothing.
pub fn peek_reg<D: Device>(device: &D, wires: &Vec<Attachment>, reg: Register) -> (r: Peek)
    ensures
        r == device@.peek_reg(wires@, reg),
{
    match reg {
        Register::Acc => match device.get_acc() {
            Some(value) => Peek::Ready { value, slot: None },
            None => Peek::Fault(Fault::Configuration),
        },
        Register::Dat => match device.get_dat() {
            Some(value) => Peek::Ready { value, slot: None },
            None => Peek::Fault(Fault::Configuration),
        },
        Register::Pin(pin) => match device.get_pin(pin) {
            Some(at) => peek_wire(wires, pin, at),
            None => Peek::Fault(Fault::Configuration),
        },
    }
}

/// Looks at the operand `src` of `device`, and changes nothing.
pub fn peek<D: Device>(device: &D, wires: &Vec<Attachment>, src: RegImm) -> (r: Peek)
    ensures
        r == device@.peek(wires@, src),
{
    match src {
        RegImm::Imm(value) => Peek::Ready { value, slot: None },
        RegImm::Reg(reg) => peek_reg(device, wires, reg),
    }
}

/// Empties the slot of the handshake wire that handed out a value.
pub fn take(wires: &mut Vec<Attachment>, slot: Option<usize>)
    ensures
        final(wires)@ == taken(old(wires)@, slot),
{
    match slot {
        Some(at) => {
            if at < wires.len() {
                let mut wire = wires[at];
                let _ = wire.get();
                wires.set(at, wire);
            }
        },
        None => {},
    }
}

/// Writes `value` to wire `at` for `pin`: `Ok(true)` where the write is
/// taken, `Ok(false)` where the wire serves no write in this tick, and the
/// fault where the wire cannot be written at all.  Nothing changes unless
/// the write is taken.
pub fn push_wire(wires: &mut Vec<Attachment>, pin: Pin, at: usize, value: i16) -> (r: Result<
    bool,
    Fault,
>)
    ensures
        match store_pin(old(wires)@, pin, at, value) {
            PinStore::Stored(w) => r == Ok::<bool, Fault>(true) && final(wires)@ == w,
            PinStore::Blocked => r == Ok::<bool, Fault>(false) && final(wires)@ == old(wires)@,
            PinStore::Fault(f) => r == Err::<bool, Fault>(f) && final(wires)@ == old(wires)@,
        },
{
    if at >= wires.len() {
        return Err(Fault::Configuration);
    }
    let mut wire = wires[at];
    if wire.get_protocol() != pin_protocol(pin) {
        return Err(Fault::Configuration);
    }
    match wire {
        Attachment::Latched(_) => {},
        Attachment::Handshake(w) => {
            if w.held || w.value.is_some() {
                return Ok(false);
            }
        },
    }
    let _ = wire.push(value);
    wires.set(at, wire);
    Ok(true)
}

/// Writes `value` to the register `reg` of `device`: `Ok(true)` where the
/// write is taken, `Ok(false)` where `reg` is a handshake pin that serves no
/// write in this tick, and the fault where `reg` cannot be written at all.
/// Nothing changes unless the write is taken.
pub fn store<D: Device>(
    device: &mut D,
    wires: &mut Vec<Attachment>,
    reg: Register,
    value: i16,
) -> (r: Result<bool, Fault>)
    ensures
        match old(device)@.store(old(wires)@, reg, value) {
            Store::Stored(m, w) => {
                &&& r == Ok::<bool, Fault>(true)
                &&& final(device)@ == m
                &&& final(wires)@ == w
            },
            Store::Blocked => {
                &&& r == Ok::<bool, Fault>(false)
                &&& final(device)@ == old(device)@
                &&& final(wires)@ == old(wires)@
            },
            Store::Fault(f) => {
                &&& r == Err::<bool, Fault>(f)
                &&& final(device)@ == old(device)@
                &&& final(wires)@ == old(wires)@
            },
        },
{
    match reg {
        Register::Acc => match device.set_acc(value) {
            Ok(()) => Ok(true),
            Err(f) => Err(f),
        },
        Register::Dat => match device.set_dat(value) {
            Ok(()) => Ok(true),
            Err(f) => Err(f),
        },
        Register::Pin(pin) => match device.get_pin(pin) {
            Some(at) => push_wire(wires, pin, at, value),
            None => Err(Fault::Configuration),
        },
    }
}

/// Reads the operand `regimm` for `device`: the value, `None` where the
/// operand is a handshake pin that serves no read in this tick, or the
/// fault where it cannot be read at all.  A value that a handshake wire
/// hands out leaves its slot; a controller that finds none waits in `Read`.
pub fn regimm_to_imm<D: Device>(
    device: &mut D,
    wires: &mut Vec<Attachment>,
    regimm: RegImm,
) -> (r: Result<Option<i16>, Fault>)
    ensures
        r == old(device)@.read_value(old(wires)@, regimm),
        final(device)@ == old(device)@.read(old(wires)@, regimm).machine,
        final(wires)@ == old(device)@.read(old(wires)@, regimm).wires,
{
    match peek(device, wires, regimm) {
        Peek::Ready { value, slot } => {
            take(wires, slot);
            Ok(Some(value))
        },
        Peek::Blocked => {
            device.set_state(DeviceState::Read);
            Ok(None)
        },
        Peek::Fault(f) => Err(f),
    }
}

/// Reads the register `reg` for `device`, as `regimm_to_imm` reads an
/// operand that names it.
pub fn read_reg<D: Device>(device: &mut D, wires: &mut Vec<Attachment>, reg: Register) -> (r:
    Result<Option<i16>, Fault>)
    ensures
        r == old(device)@.read_value(old(wires)@, RegImm::Reg(reg)),
        final(device)@ == old(device)@.read(old(wires)@, RegImm::Reg(reg)).machine,
        final(wires)@ == old(device)@.read(old(wires)@, RegImm::Reg(reg)).wires,
{
    regimm_to_imm(device, wires, RegImm::Reg(reg))
}

/// Writes `val` to the register `reg` for `device`: `Ok(true)` where the
/// write is taken, `Ok(false)` where `reg` is a handshake pin that serves no
/// write in this tick, and the fault where `reg` cannot be written at all.
/// A controller whose write is not served waits in `Write`.
pub fn write_reg<D: Device>(
    device: &mut D,
    wires: &mut Vec<Attachment>,
    reg: Register,
    val: i16,
) -> (r: Result<bool, Fault>)
    ensures
        r == match old(device)@.store(old(wires)@, reg, val) {
            Store::Stored(_, _) => Ok::<bool, Fault>(true),
            Store::Blocked => Ok::<bool, Fault>(false),
            Store::Fault(f) => Err::<bool, Fault>(f),
        },
        final(device)@ == old(device)@.write(old(wires)@, reg, val).machine,
        final(wires)@ == old(device)@.write(old(wires)@, reg, val).wires,
{
    match store(device, wires, reg, val) {
        Ok(true) => Ok(true),
        Ok(false) => {
            device.set_state(DeviceState::Write);
            Ok(false)
        },
        Err(f) => Err(f),
    }
}

/// Makes one attempt to run the line `loc` on `device`: executes its
/// operation and, where the line was done, moves the program counter on to
/// the next slot.  A jump sets the program counter itself, `slp` holds it
/// until the controller wakes, and a line that has to wait or meets a fault
/// leaves it where it is.
pub fn exec<D: Device>(loc: LOC, device: &mut D, wires: &mut Vec<Attachment>) -> (r: Result<
    (),
    Fault,
>)
    requires
        old(device)@.wf(),
    ensures
        final(device)@ == old(device)@.attempt(old(wires)@, loc).machine,
        final(wires)@ == old(device)@.attempt(old(wires)@, loc).wires,
        r == old(device)@.attempt(old(wires)@, loc).result(),
        final(device)@.wf(),
{
    let jump = match loc.op {
        Some(Opcode::Jmp(_)) => true,
        _ => false,
    };
    proof {
        match loc.op {
            Some(op) => {
                lemma_effect_frame(device@, wires@, op);
            },
            None => {},
        }
    }
    let r = execute_loc(loc, device, wires);
    let ready = match device.get_state() {
        DeviceState::Exec => true,
        _ => false,
    };
    if r.is_ok() && ready && !jump {
        device.next_slot();
    }
    proof {
        crate::code::lemma_ring(device@.pc, 0, device@.code.len() as int);
        crate::code::lemma_ring(old(device)@.pc, 1, old(device)@.code.len() as int);
    }
    r
}

/// Lets one tick pass for `device`.
///
/// A sleeping controller counts one tick down; with the last tick of its
/// sleep it wakes and moves on to the next slot.  Any other controller
/// fetches the next line that may run and attempts it, so a line that
/// waited for a wire is tried again.  Where no line may run the controller
/// idles.  The program counter stays within the program.
pub fn step<D: Device>(device: &mut D, wires: &mut Vec<Attachment>) -> (r: Result<(), Fault>)
    requires
        old(device)@.wf(),
    ensures
        final(device)@ == old(device)@.step(old(wires)@).machine,
        final(wires)@ == old(device)@.step(old(wires)@).wires,
        r == old(device)@.step(old(wires)@).result(),
        final(device)@.wf(),
{
    match device.get_state() {
        DeviceState::Sleep(ticks) => {
            if ticks <= 1 {
                device.next_slot();
                device.set_state(DeviceState::Exec);
            } else {
                device.set_state(DeviceState::Sleep(ticks - 1));
            }
            proof {
                crate::code::lemma_ring(old(device)@.pc, 1, old(device)@.code.len() as int);
            }
            Ok(())
        },
        _ => {
            proof {
                crate::code::lemma_scan_finds_first(
                    old(device)@.code,
                    old(device)@.cond,
                    old(device)@.pc,
                    0,
                );
            }
            match device.get_loc() {
                Some(loc) => exec(loc, device, wires),
                None => {
                    device.set_state(DeviceState::Exec);
                    Ok(())
                },
            }
        },
    }
}

} // verus!
