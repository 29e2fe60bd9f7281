//! Looking a program over before it runs: which of its lines can never be
//! done, and what a program without such lines can still meet.

use vstd::prelude::*;
use crate::device::{
    lemma_effect_frame, peek, Device, DeviceState, Fault, Machine, Peek, PeekPair, Store,
};
use crate::op::{Opcode, RegImm, Register, LOC};
use crate::wire::{pin_protocol, Attachment};

verus! {

/// The fault `fault` where `sound` does not hold, and none where it does.
pub open spec fn fault_unless(sound: bool, fault: Fault) -> Option<Fault> {
    if sound {
        None
    } else {
        Some(fault)
    }
}

/// Whether `digit` can be the digit that `dst` is handed: a register, whose
/// value shows when the line runs, or a number from 0 to 9.
pub open spec fn is_digit_operand(digit: RegImm) -> bool {
    digit matches RegImm::Imm(d) ==> 0 <= d <= 9
}

impl Machine {
    /// Whether the operand `src` can be read, in this tick or a later one:
    /// it names a register that the controller has or a pin that is
    /// attached to a wire of its protocol.
    pub open spec fn can_read(self, wires: Seq<Attachment>, src: RegImm) -> bool {
        !(self.peek(wires, src) is Fault)
    }

    /// Whether the register `reg` can be written, in this tick or a later
    /// one.
    pub open spec fn can_write(self, wires: Seq<Attachment>, reg: Register) -> bool {
        !(self.store(wires, reg, 0) is Fault)
    }

    /// The fault that keeps the operation `op` from ever being done: it
    /// names a register that cannot be read or written, it needs an
    /// accumulator that is not there, it jumps out of the program, or it
    /// hands `dst` a number that is no decimal digit.
    pub open spec fn flaw(self, wires: Seq<Attachment>, op: Opcode) -> Option<Fault> {
        match op {
            Opcode::Nop => None,
            Opcode::MovReg(src, dst) => fault_unless(
                self.can_read(wires, src) && self.can_write(wires, dst),
                Fault::Configuration,
            ),
            Opcode::Jmp(addr) => fault_unless(addr < self.code.len(), Fault::Execution),
            Opcode::Slp(src) => fault_unless(self.can_read(wires, src), Fault::Configuration),
            Opcode::Add(src) | Opcode::Sub(src) | Opcode::Mul(src) | Opcode::Dgt(src) => {
                fault_unless(self.acc is Some && self.can_read(wires, src), Fault::Configuration)
            },
            Opcode::Not => fault_unless(self.acc is Some, Fault::Configuration),
            Opcode::Dst(pos, digit) => fault_unless(
                self.acc is Some && self.can_read(wires, pos) && self.can_read(wires, digit)
                    && is_digit_operand(digit),
                Fault::Configuration,
            ),
            Opcode::Teq(a, b) | Opcode::Tgt(a, b) | Opcode::Tlt(a, b) | Opcode::Tcp(a, b) => {
                fault_unless(
                    self.can_read(wires, a) && self.can_read(wires, b),
                    Fault::Configuration,
                )
            },
        }
    }

    /// The flaw of the line `line`: that of its operation, if it has one.
    pub open spec fn line_flaw(self, wires: Seq<Attachment>, line: LOC) -> Option<Fault> {
        match line.op {
            Some(op) => self.flaw(wires, op),
            None => None,
        }
    }

    /// The flaw of the first line from slot `from` on that has one.
    pub open spec fn first_flaw(self, wires: Seq<Attachment>, from: int) -> Option<Fault>
        decreases self.code.len() - from,
    {
        if from < 0 || from >= self.code.len() {
            None
        } else if self.line_flaw(wires, self.code[from]) is Some {
            self.line_flaw(wires, self.code[from])
        } else {
            self.first_flaw(wires, from + 1)
        }
    }

    /// No line of the program has a flaw.
    pub open spec fn sound(self, wires: Seq<Attachment>) -> bool {
        forall|i: int|
            0 <= i < self.code.len() ==> self.line_flaw(wires, #[trigger] self.code[i]) is None
    }
}

/// Whether the wires `after` are the wires `before` in number and protocol.
pub open spec fn same_wiring(before: Seq<Attachment>, after: Seq<Attachment>) -> bool {
    &&& after.len() == before.len()
    &&& forall|i: int|
        0 <= i < before.len() ==> (#[trigger] after[i]).protocol() == before[i].protocol()
}

/// Whether the controller `after` is `before` in its program, its pins and
/// the registers that it has.
pub open spec fn same_build(before: Machine, after: Machine) -> bool {
    &&& after.code == before.code
    &&& after.pins == before.pins
    &&& (after.acc is Some) == (before.acc is Some)
    &&& (after.dat is Some) == (before.dat is Some)
}

/// Whether an operand can be read depends on how the controller is built
/// and wired, not on what its registers and the wires hold.
pub proof fn lemma_can_read_is_stable(
    m: Machine,
    wires: Seq<Attachment>,
    after: Machine,
    later: Seq<Attachment>,
    src: RegImm,
)
    requires
        same_build(m, after),
        same_wiring(wires, later),
    ensures
        m.can_read(wires, src) == after.can_read(later, src),
{
}

/// Whether a register can be written depends on how the controller is built
/// and wired, not on what its registers and the wires hold.
pub proof fn lemma_can_write_is_stable(
    m: Machine,
    wires: Seq<Attachment>,
    after: Machine,
    later: Seq<Attachment>,
    reg: Register,
)
    requires
        same_build(m, after),
        same_wiring(wires, later),
    ensures
        m.can_write(wires, reg) == after.can_write(later, reg),
{
}

/// The flaw of an operation depends on how the controller is built and
/// wired, not on what its registers and the wires hold.
pub proof fn lemma_flaw_is_stable(
    m: Machine,
    wires: Seq<Attachment>,
    after: Machine,
    later: Seq<Attachment>,
    op: Opcode,
)
    requires
        same_build(m, after),
        same_wiring(wires, later),
    ensures
        m.flaw(wires, op) == after.flaw(later, op),
{
    match op {
        Opcode::MovReg(src, dst) => {
            lemma_can_read_is_stable(m, wires, after, later, src);
            lemma_can_write_is_stable(m, wires, after, later, dst);
        },
        Opcode::Slp(src) | Opcode::Add(src) | Opcode::Sub(src) | Opcode::Mul(src) | Opcode::Dgt(
            src,
        ) => {
            lemma_can_read_is_stable(m, wires, after, later, src);
        },
        Opcode::Dst(a, b) | Opcode::Teq(a, b) | Opcode::Tgt(a, b) | Opcode::Tlt(a, b) | Opcode::Tcp(
            a,
            b,
        ) => {
            lemma_can_read_is_stable(m, wires, after, later, a);
            lemma_can_read_is_stable(m, wires, after, later, b);
        },
        _ => {},
    }
}

/// A program that is sound stays sound while the controller is built and
/// wired as it was.
pub proof fn lemma_sound_is_stable(
    m: Machine,
    wires: Seq<Attachment>,
    after: Machine,
    later: Seq<Attachment>,
)
    requires
        same_build(m, after),
        same_wiring(wires, later),
    ensures
        m.sound(wires) == after.sound(later),
{
    assert forall|i: int| 0 <= i < m.code.len() implies m.line_flaw(wires, #[trigger] m.code[i])
        == after.line_flaw(later, after.code[i]) by {
        match m.code[i].op {
            Some(op) => {
                lemma_flaw_is_stable(m, wires, after, later, op);
            },
            None => {},
        }
    }
}

/// Reading an operand leaves the wires what they were in number and
/// protocol.
pub proof fn lemma_taken_keeps_wiring(wires: Seq<Attachment>, slot: Option<usize>)
    ensures
        same_wiring(wires, crate::device::taken(wires, slot)),
{
}

/// A write to a register does not change how the controller is built and
/// wired.
pub proof fn lemma_store_keeps_build(
    m: Machine,
    wires: Seq<Attachment>,
    reg: Register,
    value: i16,
)
    ensures
        match m.store(wires, reg, value) {
            Store::Stored(after, w) => same_build(m, after) && same_wiring(wires, w),
            _ => true,
        },
{
}

/// Reading two operands leaves the wires what they were in number and
/// protocol.
pub proof fn lemma_peek_pair_keeps_wiring(m: Machine, wires: Seq<Attachment>, a: RegImm, b: RegImm)
    ensures
        match m.peek_pair(wires, a, b) {
            PeekPair::Ready { first, second, wires: w } => same_wiring(wires, w),
            _ => true,
        },
{
    match m.peek(wires, a) {
        Peek::Ready { value, slot } => {
            lemma_taken_keeps_wiring(wires, slot);
            match m.peek(crate::device::taken(wires, slot), b) {
                Peek::Ready { value: second, slot: slot2 } => {
                    lemma_taken_keeps_wiring(crate::device::taken(wires, slot), slot2);
                },
                _ => {},
            }
        },
        _ => {},
    }
}

/// An operation on the accumulator does not change how the controller is
/// built and wired.
pub proof fn lemma_accumulate_keeps_build(
    m: Machine,
    wires: Seq<Attachment>,
    op: Opcode,
    src: RegImm,
)
    ensures
        same_build(m, m.accumulate(wires, op, src).machine),
        same_wiring(wires, m.accumulate(wires, op, src).wires),
{
    match m.peek(wires, src) {
        Peek::Ready { value, slot } => {
            lemma_taken_keeps_wiring(wires, slot);
        },
        _ => {},
    }
}

/// A test does not change how the controller is built and wired.
pub proof fn lemma_test_keeps_build(
    m: Machine,
    wires: Seq<Attachment>,
    op: Opcode,
    a: RegImm,
    b: RegImm,
)
    ensures
        same_build(m, m.test(wires, op, a, b).machine),
        same_wiring(wires, m.test(wires, op, a, b).wires),
{
    lemma_peek_pair_keeps_wiring(m, wires, a, b);
}

/// No operation changes how the controller is built and wired.
pub proof fn lemma_effect_keeps_build(m: Machine, wires: Seq<Attachment>, op: Opcode)
    ensures
        same_build(m, m.effect(wires, op).machine),
        same_wiring(wires, m.effect(wires, op).wires),
{
    reveal(Machine::effect);
    match op {
        Opcode::MovReg(src, dst) => {
            match m.peek(wires, src) {
                Peek::Ready { value, slot } => {
                    lemma_taken_keeps_wiring(wires, slot);
                    lemma_store_keeps_build(m, crate::device::taken(wires, slot), dst, value);
                },
                _ => {},
            }
        },
        Opcode::Slp(src) => {
            match m.peek(wires, src) {
                Peek::Ready { value, slot } => {
                    lemma_taken_keeps_wiring(wires, slot);
                },
                _ => {},
            }
        },
        Opcode::Add(src) | Opcode::Sub(src) | Opcode::Mul(src) | Opcode::Dgt(src) => {
            lemma_accumulate_keeps_build(m, wires, op, src);
        },
        Opcode::Dst(a, b) => {
            lemma_peek_pair_keeps_wiring(m, wires, a, b);
        },
        Opcode::Teq(a, b) | Opcode::Tgt(a, b) | Opcode::Tlt(a, b) | Opcode::Tcp(a, b) => {
            lemma_test_keeps_build(m, wires, op, a, b);
        },
        _ => {},
    }
}

/// Two operands that can be read are read without a fault.
pub proof fn lemma_flawless_pair(m: Machine, wires: Seq<Attachment>, a: RegImm, b: RegImm)
    requires
        m.can_read(wires, a),
        m.can_read(wires, b),
    ensures
        !(m.peek_pair(wires, a, b) is Fault),
{
    match m.peek(wires, a) {
        Peek::Ready { value, slot } => {
            lemma_taken_keeps_wiring(wires, slot);
            lemma_can_read_is_stable(m, wires, m, crate::device::taken(wires, slot), b);
        },
        _ => {},
    }
}

/// An operand that can be read is moved without a fault to a register that
/// can be written.
pub proof fn lemma_flawless_move(m: Machine, wires: Seq<Attachment>, src: RegImm, dst: Register)
    requires
        m.can_read(wires, src),
        m.can_write(wires, dst),
    ensures
        m.effect(wires, Opcode::MovReg(src, dst)).fault is None,
{
    reveal(Machine::effect);
    match m.peek(wires, src) {
        Peek::Ready { value, slot } => {
            lemma_taken_keeps_wiring(wires, slot);
            lemma_can_write_is_stable(m, wires, m, crate::device::taken(wires, slot), dst);
        },
        _ => {},
    }
}

/// An operand that can be read sends the controller to sleep without a
/// fault.
pub proof fn lemma_flawless_slp(m: Machine, wires: Seq<Attachment>, src: RegImm)
    requires
        m.can_read(wires, src),
    ensures
        m.effect(wires, Opcode::Slp(src)).fault is None,
{
    reveal(Machine::effect);
}

/// An accumulator that is there takes an operand that can be read without
/// a fault.
pub proof fn lemma_flawless_accumulate(m: Machine, wires: Seq<Attachment>, op: Opcode, src: RegImm)
    requires
        m.acc is Some,
        m.can_read(wires, src),
        op == Opcode::Add(src) || op == Opcode::Sub(src) || op == Opcode::Mul(src) || op
            == Opcode::Dgt(src),
    ensures
        m.effect(wires, op).fault is None,
{
    reveal(Machine::effect);
    assert(m.effect(wires, op) == m.accumulate(wires, op, src));
}

/// Two operands that can be read are tested without a fault.
pub proof fn lemma_flawless_test(
    m: Machine,
    wires: Seq<Attachment>,
    op: Opcode,
    a: RegImm,
    b: RegImm,
)
    requires
        m.can_read(wires, a),
        m.can_read(wires, b),
        op == Opcode::Teq(a, b) || op == Opcode::Tgt(a, b) || op == Opcode::Tlt(a, b) || op
            == Opcode::Tcp(a, b),
    ensures
        m.effect(wires, op).fault is None,
{
    reveal(Machine::effect);
    lemma_flawless_pair(m, wires, a, b);
    assert(m.effect(wires, op) == m.test(wires, op, a, b));
}

/// `dst` on an accumulator that is there, with operands that can be read,
/// meets a fault only where the digit comes from a register.
pub proof fn lemma_flawless_dst(m: Machine, wires: Seq<Attachment>, pos: RegImm, digit: RegImm)
    requires
        m.acc is Some,
        m.can_read(wires, pos),
        m.can_read(wires, digit),
        digit matches RegImm::Imm(d) ==> 0 <= d <= 9,
    ensures
        m.effect(wires, Opcode::Dst(pos, digit)).fault is Some ==> {
            &&& m.effect(wires, Opcode::Dst(pos, digit)).fault == Some(Fault::Configuration)
            &&& digit is Reg
        },
{
    reveal(Machine::effect);
    lemma_flawless_pair(m, wires, pos, digit);
}

/// A jump into the program, `nop` and `not` on an accumulator that is there
/// meet no fault.
pub proof fn lemma_flawless_plain(m: Machine, wires: Seq<Attachment>, op: Opcode)
    requires
        op is Nop || (op is Not && m.acc is Some) || (op matches Opcode::Jmp(addr) && addr
            < m.code.len()),
    ensures
        m.effect(wires, op).fault is None,
{
    reveal(Machine::effect);
}

/// An operation without a flaw meets no fault, but for `dst` where the
/// digit comes from a register and is no decimal digit.
pub proof fn lemma_flawless_effect(m: Machine, wires: Seq<Attachment>, op: Opcode)
    requires
        m.flaw(wires, op) is None,
    ensures
        m.effect(wires, op).fault is Some ==> {
            &&& m.effect(wires, op).fault == Some(Fault::Configuration)
            &&& op matches Opcode::Dst(_, RegImm::Reg(_))
        },
{
    match op {
        Opcode::MovReg(src, dst) => {
            lemma_flawless_move(m, wires, src, dst);
        },
        Opcode::Slp(src) => {
            lemma_flawless_slp(m, wires, src);
        },
        Opcode::Add(src) | Opcode::Sub(src) | Opcode::Mul(src) | Opcode::Dgt(src) => {
            lemma_flawless_accumulate(m, wires, op, src);
        },
        Opcode::Dst(a, b) => {
            lemma_flawless_dst(m, wires, a, b);
        },
        Opcode::Teq(a, b) | Opcode::Tgt(a, b) | Opcode::Tlt(a, b) | Opcode::Tcp(a, b) => {
            lemma_flawless_test(m, wires, op, a, b);
        },
        _ => {
            lemma_flawless_plain(m, wires, op);
        },
    }
}

/// Whether the outcome `o` of an operation on `m` is that the operation was
/// not done: it met a fault, or the controller waits for a wire and nothing
/// else changed.
pub open spec fn not_done(m: Machine, wires: Seq<Attachment>, o: crate::device::Outcome) -> bool {
    ||| o.fault is Some
    ||| o == m.blocked(wires, DeviceState::Read)
    ||| o == m.blocked(wires, DeviceState::Write)
}

/// Two operands of which one cannot be read are never both read.
pub proof fn lemma_flawed_pair(m: Machine, wires: Seq<Attachment>, a: RegImm, b: RegImm)
    requires
        !m.can_read(wires, a) || !m.can_read(wires, b),
    ensures
        !(m.peek_pair(wires, a, b) is Ready),
{
    match m.peek(wires, a) {
        Peek::Ready { value, slot } => {
            lemma_taken_keeps_wiring(wires, slot);
            lemma_can_read_is_stable(m, wires, m, crate::device::taken(wires, slot), b);
        },
        _ => {},
    }
}

/// A `mov` with a flaw is never done.
pub proof fn lemma_flawed_move(m: Machine, wires: Seq<Attachment>, src: RegImm, dst: Register)
    requires
        !m.can_read(wires, src) || !m.can_write(wires, dst),
    ensures
        not_done(m, wires, m.effect(wires, Opcode::MovReg(src, dst))),
{
    reveal(Machine::effect);
    match m.peek(wires, src) {
        Peek::Ready { value, slot } => {
            lemma_taken_keeps_wiring(wires, slot);
            lemma_can_write_is_stable(m, wires, m, crate::device::taken(wires, slot), dst);
        },
        _ => {},
    }
}

/// An operation with one operand and a flaw is never done.
pub proof fn lemma_flawed_unary(m: Machine, wires: Seq<Attachment>, op: Opcode, src: RegImm)
    requires
        op == Opcode::Slp(src) || op == Opcode::Add(src) || op == Opcode::Sub(src) || op
            == Opcode::Mul(src) || op == Opcode::Dgt(src),
        m.flaw(wires, op) is Some,
    ensures
        not_done(m, wires, m.effect(wires, op)),
{
    reveal(Machine::effect);
}

/// An operation with two operands and a flaw is never done.
pub proof fn lemma_flawed_binary(
    m: Machine,
    wires: Seq<Attachment>,
    op: Opcode,
    a: RegImm,
    b: RegImm,
)
    requires
        op == Opcode::Dst(a, b) || op == Opcode::Teq(a, b) || op == Opcode::Tgt(a, b) || op
            == Opcode::Tlt(a, b) || op == Opcode::Tcp(a, b),
        m.flaw(wires, op) is Some,
    ensures
        not_done(m, wires, m.effect(wires, op)),
{
    reveal(Machine::effect);
    if !m.can_read(wires, a) || !m.can_read(wires, b) {
        lemma_flawed_pair(m, wires, a, b);
    }
}

/// An operation with a flaw is never done: whenever it is run it meets a
/// fault or waits for a wire.
pub proof fn lemma_flawed_is_never_done(m: Machine, wires: Seq<Attachment>, op: Opcode)
    requires
        m.flaw(wires, op) is Some,
    ensures
        not_done(m, wires, m.effect(wires, op)),
{
    match op {
        Opcode::MovReg(src, dst) => {
            lemma_flawed_move(m, wires, src, dst);
        },
        Opcode::Slp(src) | Opcode::Add(src) | Opcode::Sub(src) | Opcode::Mul(src) | Opcode::Dgt(
            src,
        ) => {
            lemma_flawed_unary(m, wires, op, src);
        },
        Opcode::Dst(a, b) | Opcode::Teq(a, b) | Opcode::Tgt(a, b) | Opcode::Tlt(a, b) | Opcode::Tcp(
            a,
            b,
        ) => {
            lemma_flawed_binary(m, wires, op, a, b);
        },
        _ => {
            reveal(Machine::effect);
        },
    }
}

/// One tick does not change how a controller is built and wired.
pub proof fn lemma_step_keeps_build(m: Machine, wires: Seq<Attachment>)
    requires
        m.wf(),
    ensures
        same_build(m, m.step(wires).machine),
        same_wiring(wires, m.step(wires).wires),
{
    match m.state {
        DeviceState::Sleep(_) => {},
        _ => {
            crate::code::lemma_scan_finds_first(m.code, m.cond, m.pc, 0);
            match crate::code::next_runnable(m.code, m.cond, m.pc) {
                Some(at) => {
                    match m.code[at].op {
                        Some(op) => {
                            lemma_effect_keeps_build(Machine { pc: at, ..m }, wires, op);
                            lemma_effect_frame(Machine { pc: at, ..m }, wires, op);
                        },
                        None => {},
                    }
                },
                None => {},
            }
        },
    }
}

/// A controller with a sound program meets no fault in a tick, but for a
/// `dst` whose digit comes from a register and is no decimal digit; the
/// program counter then points at that line.  Its program stays sound.
pub proof fn lemma_sound_step(m: Machine, wires: Seq<Attachment>)
    requires
        m.wf(),
        m.sound(wires),
    ensures
        m.step(wires).machine.sound(m.step(wires).wires),
        m.step(wires).fault is Some ==> {
            let after = m.step(wires).machine;
            &&& m.step(wires).fault == Some(Fault::Configuration)
            &&& 0 <= after.pc < after.code.len()
            &&& after.code[after.pc].op matches Some(Opcode::Dst(_, RegImm::Reg(_)))
        },
{
    lemma_step_keeps_build(m, wires);
    lemma_sound_is_stable(m, wires, m.step(wires).machine, m.step(wires).wires);
    match m.state {
        DeviceState::Sleep(_) => {},
        _ => {
            crate::code::lemma_scan_finds_first(m.code, m.cond, m.pc, 0);
            match crate::code::next_runnable(m.code, m.cond, m.pc) {
                Some(at) => {
                    let fetched = Machine { pc: at, ..m };
                    match m.code[at].op {
                        Some(op) => {
                            assert(m.line_flaw(wires, m.code[at]) is None);
                            lemma_flaw_is_stable(m, wires, fetched, wires, op);
                            lemma_flawless_effect(fetched, wires, op);
                            lemma_effect_frame(fetched, wires, op);
                        },
                        None => {},
                    }
                },
                None => {},
            }
        },
    }
}

/// A program is sound exactly if it has no first flaw.
pub proof fn lemma_first_flaw(m: Machine, wires: Seq<Attachment>, from: int)
    requires
        0 <= from,
    ensures
        m.first_flaw(wires, from) is None <==> forall|i: int|
            from <= i < m.code.len() ==> m.line_flaw(wires, #[trigger] m.code[i]) is None,
    decreases m.code.len() - from,
{
    if from < m.code.len() {
        lemma_first_flaw(m, wires, from + 1);
    }
}

/// Whether the register `reg` of `device` can be written, in this tick or
/// a later one.
pub fn can_store<D: Device>(device: &D, wires: &Vec<Attachment>, reg: Register) -> (r: bool)
    ensures
        r == device@.can_write(wires@, reg),
{
    match reg {
        Register::Acc => device.get_acc().is_some(),
        Register::Dat => device.get_dat().is_some(),
        Register::Pin(pin) => match device.get_pin(pin) {
            Some(at) => at < wires.len() && wires[at].get_protocol() == pin_protocol(pin),
            None => false,
        },
    }
}

/// Whether the operand `src` of `device` can be read, in this tick or a
/// later one.
pub fn can_load<D: Device>(device: &D, wires: &Vec<Attachment>, src: RegImm) -> (r: bool)
    ensures
        r == device@.can_read(wires@, src),
{
    match peek(device, wires, src) {
        Peek::Fault(_) => false,
        _ => true,
    }
}

/// The fault `fault` where `sound` does not hold, and none where it does.
fn unless(sound: bool, fault: Fault) -> (r: Option<Fault>)
    ensures
        r == fault_unless(sound, fault),
{
    if sound {
        None
    } else {
        Some(fault)
    }
}

/// The flaw of the operation `op` on `device`: the fault that keeps it from
/// ever being done.
pub fn flaw_of<D: Device>(device: &D, wires: &Vec<Attachment>, op: Opcode) -> (r: Option<Fault>)
    ensures
        r == device@.flaw(wires@, op),
{
    match op {
        Opcode::Nop => None,
        Opcode::MovReg(src, dst) => unless(
            can_load(device, wires, src) && can_store(device, wires, dst),
            Fault::Configuration,
        ),
        Opcode::Jmp(addr) => unless(device.get_line(addr).is_some(), Fault::Execution),
        Opcode::Slp(src) => unless(can_load(device, wires, src), Fault::Configuration),
        Opcode::Add(src) | Opcode::Sub(src) | Opcode::Mul(src) | Opcode::Dgt(src) => unless(
            device.get_acc().is_some() && can_load(device, wires, src),
            Fault::Configuration,
        ),
        Opcode::Not => unless(device.get_acc().is_some(), Fault::Configuration),
        Opcode::Dst(pos, digit) => {
            let digit_fits = match digit {
                RegImm::Imm(d) => 0 <= d && d <= 9,
                RegImm::Reg(_) => true,
            };
            unless(
                device.get_acc().is_some() && can_load(device, wires, pos) && can_load(
                    device,
                    wires,
                    digit,
                ) && digit_fits,
                Fault::Configuration,
            )
        },
        Opcode::Teq(a, b) | Opcode::Tgt(a, b) | Opcode::Tlt(a, b) | Opcode::Tcp(a, b) => unless(
            can_load(device, wires, a) && can_load(device, wires, b),
            Fault::Configuration,
        ),
    }
}

/// Looks the program of `device` over: the flaw of its first line that has
/// one, `None` exactly where the program is sound.
pub fn vet<D: Device>(device: &D, wires: &Vec<Attachment>) -> (r: Option<Fault>)
    requires
        device@.wf(),
    ensures
        r == device@.first_flaw(wires@, 0),
        r is None <==> device@.sound(wires@),
{
    let mut at: u8 = 0;
    loop
        invariant
            device@.wf(),
            at <= device@.code.len(),
            device@.first_flaw(wires@, at as int) == device@.first_flaw(wires@, 0),
        decreases 255 - at,
    {
        proof {
            lemma_first_flaw(device@, wires@, 0);
        }
        let line = match device.get_line(at) {
            Some(line) => line,
            None => {
                return None;
            },
        };
        match line.op {
            Some(op) => {
                let flaw = flaw_of(device, wires, op);
                if flaw.is_some() {
                    return flaw;
                }
            },
            None => {},
        }
        at = at + 1;
    }
}

} // verus!
