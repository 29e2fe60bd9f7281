//! The three controllers: the basic one with two latched and two handshake
//! pins, the one with four handshake pins, and the large one with a second
//! register and all six pins.

use vstd::prelude::*;
use crate::code::Code;
use crate::device::{
    alu, peek, step, store, take, taken, verdict, CondState, Device, DeviceState, Fault, Machine,
    Peek, PeekPair,
};
use crate::digits::{digit, set_digit, wrapping_difference, wrapping_product, wrapping_sum};
use crate::op::{Opcode, Pin, RegImm, Register, LOC};
use crate::wire::Attachment;

verus! {

/// The wire of `pin`, given the wire of each of the six pins.
pub open spec fn pick(
    pin: Pin,
    p0: Option<usize>,
    p1: Option<usize>,
    x0: Option<usize>,
    x1: Option<usize>,
    x2: Option<usize>,
    x3: Option<usize>,
) -> Option<usize> {
    match pin {
        Pin::P0 => p0,
        Pin::P1 => p1,
        Pin::X0 => x0,
        Pin::X1 => x1,
        Pin::X2 => x2,
        Pin::X3 => x3,
    }
}

/// The wires of the attached pins, given the wire of each of the six pins.
pub open spec fn wiring(
    p0: Option<usize>,
    p1: Option<usize>,
    x0: Option<usize>,
    x1: Option<usize>,
    x2: Option<usize>,
    x3: Option<usize>,
) -> Map<Pin, usize> {
    Map::new(
        |pin: Pin| pick(pin, p0, p1, x0, x1, x2, x3) is Some,
        |pin: Pin| pick(pin, p0, p1, x0, x1, x2, x3).unwrap(),
    )
}

/// Two values that were found, and the handshake wires that hand them out.
pub struct Pair {
    pub first: i16,
    pub first_slot: Option<usize>,
    pub second: i16,
    pub second_slot: Option<usize>,
}

/// Looks at the operands `a` and `b` of `device` in turn, and changes
/// nothing: the two values with the wires to empty, `None` where one of the
/// operands serves no read in this tick, or the fault.
pub fn peek_pair<D: Device>(device: &D, wires: &Vec<Attachment>, a: RegImm, b: RegImm) -> (r:
    Result<Option<Pair>, Fault>)
    ensures
        match device@.peek_pair(wires@, a, b) {
            PeekPair::Ready { first, second, wires: w } => {
                &&& r is Ok
                &&& r.unwrap() is Some
                &&& r.unwrap().unwrap().first == first
                &&& r.unwrap().unwrap().second == second
                &&& r.unwrap().unwrap().first_slot == device@.peek(wires@, a)->slot
                &&& r.unwrap().unwrap().second_slot == device@.peek(wires@, b)->slot
                &&& taken(
                    taken(wires@, r.unwrap().unwrap().first_slot),
                    r.unwrap().unwrap().second_slot,
                ) == w
            },
            PeekPair::Blocked => r is Ok && r.unwrap() is None,
            PeekPair::Fault(f) => r == Err::<Option<Pair>, Fault>(f),
        },
{
    match peek(device, wires, a) {
        Peek::Fault(f) => Err(f),
        Peek::Blocked => Ok(None),
        Peek::Ready { value: first, slot: first_slot } => match peek(device, wires, b) {
            Peek::Fault(f) => Err(f),
            Peek::Blocked => Ok(None),
            Peek::Ready { value: second, slot: second_slot } => {
                let same = match (first_slot, second_slot) {
                    (Some(i), Some(j)) => i == j,
                    _ => false,
                };
                if same {
                    Ok(None)
                } else {
                    Ok(Some(Pair { first, first_slot, second, second_slot }))
                }
            },
        },
    }
}

/// The new value of the accumulator `acc` under the operation `op` with an
/// operand of value `v`.
pub fn compute(op: Opcode, acc: i16, v: i16) -> (r: i16)
    ensures
        r == alu(op, acc, v),
{
    match op {
        Opcode::Add(_) => wrapping_sum(acc, v),
        Opcode::Sub(_) => wrapping_difference(acc, v),
        Opcode::Mul(_) => wrapping_product(acc, v),
        Opcode::Dgt(_) => digit(acc, v),
        _ => acc,
    }
}

/// The outcome of the test `op` on the values `a` and `b`.
pub fn judge(op: Opcode, a: i16, b: i16) -> (r: CondState)
    ensures
        r == verdict(op, a, b),
{
    match op {
        Opcode::Teq(_, _) => if a == b {
            CondState::Plus
        } else {
            CondState::Minus
        },
        Opcode::Tgt(_, _) => if a > b {
            CondState::Plus
        } else {
            CondState::Minus
        },
        Opcode::Tlt(_, _) => if a < b {
            CondState::Plus
        } else {
            CondState::Minus
        },
        _ => if a == b {
            CondState::Neither
        } else if a > b {
            CondState::Plus
        } else {
            CondState::Minus
        },
    }
}

/// Moves the value of `src` to `dst`.
fn transfer<D: Device>(
    device: &mut D,
    wires: &mut Vec<Attachment>,
    src: RegImm,
    dst: Register,
) -> (r: Result<(), Fault>)
    ensures
        final(device)@ == old(device)@.effect(old(wires)@, Opcode::MovReg(src, dst)).machine,
        final(wires)@ == old(device)@.effect(old(wires)@, Opcode::MovReg(src, dst)).wires,
        r == old(device)@.effect(old(wires)@, Opcode::MovReg(src, dst)).result(),
{
    reveal(Machine::effect);
    match peek(device, wires, src) {
        Peek::Fault(f) => Err(f),
        Peek::Blocked => {
            device.set_state(DeviceState::Read);
            Ok(())
        },
        Peek::Ready { value, slot } => {
            let saved = match slot {
                Some(at) => Some(wires[at]),
                None => None,
            };
            take(wires, slot);
            match store(device, wires, dst, value) {
                Ok(true) => {
                    device.set_state(DeviceState::Exec);
                    Ok(())
                },
                Ok(false) => {
                    match slot {
                        Some(at) => {
                            wires.set(at, saved.unwrap());
                        },
                        None => {},
                    }
                    assert(wires@ =~= old(wires)@);
                    device.set_state(DeviceState::Write);
                    Ok(())
                },
                Err(f) => {
                    match slot {
                        Some(at) => {
                            wires.set(at, saved.unwrap());
                        },
                        None => {},
                    }
                    assert(wires@ =~= old(wires)@);
                    Err(f)
                },
            }
        },
    }
}

/// Applies the operation `op` to the accumulator and the operand `src`.
fn accumulate<D: Device>(
    device: &mut D,
    wires: &mut Vec<Attachment>,
    op: Opcode,
    src: RegImm,
) -> (r: Result<(), Fault>)
    ensures
        final(device)@ == old(device)@.accumulate(old(wires)@, op, src).machine,
        final(wires)@ == old(device)@.accumulate(old(wires)@, op, src).wires,
        r == old(device)@.accumulate(old(wires)@, op, src).result(),
{
    let acc = match device.get_acc() {
        Some(acc) => acc,
        None => {
            return Err(Fault::Configuration);
        },
    };
    match peek(device, wires, src) {
        Peek::Fault(f) => Err(f),
        Peek::Blocked => {
            device.set_state(DeviceState::Read);
            Ok(())
        },
        Peek::Ready { value, slot } => {
            take(wires, slot);
            let _ = device.set_acc(compute(op, acc, value));
            device.set_state(DeviceState::Exec);
            Ok(())
        },
    }
}

/// Tests `a` against `b` under the test `op`.
fn test<D: Device>(
    device: &mut D,
    wires: &mut Vec<Attachment>,
    op: Opcode,
    a: RegImm,
    b: RegImm,
) -> (r: Result<(), Fault>)
    ensures
        final(device)@ == old(device)@.test(old(wires)@, op, a, b).machine,
        final(wires)@ == old(device)@.test(old(wires)@, op, a, b).wires,
        r == old(device)@.test(old(wires)@, op, a, b).result(),
{
    match peek_pair(device, wires, a, b) {
        Err(f) => Err(f),
        Ok(None) => {
            device.set_state(DeviceState::Read);
            Ok(())
        },
        Ok(Some(pair)) => {
            take(wires, pair.first_slot);
            take(wires, pair.second_slot);
            device.set_cnd(judge(op, pair.first, pair.second));
            device.set_state(DeviceState::Exec);
            Ok(())
        },
    }
}

/// Replaces the digit of the accumulator at the place that `pos` gives by
/// the value of `digit`.
fn replace_digit<D: Device>(
    device: &mut D,
    wires: &mut Vec<Attachment>,
    pos: RegImm,
    digit: RegImm,
) -> (r: Result<(), Fault>)
    ensures
        final(device)@ == old(device)@.effect(old(wires)@, Opcode::Dst(pos, digit)).machine,
        final(wires)@ == old(device)@.effect(old(wires)@, Opcode::Dst(pos, digit)).wires,
        r == old(device)@.effect(old(wires)@, Opcode::Dst(pos, digit)).result(),
{
    reveal(Machine::effect);
    let acc = match device.get_acc() {
        Some(acc) => acc,
        None => {
            return Err(Fault::Configuration);
        },
    };
    match peek_pair(device, wires, pos, digit) {
        Err(f) => Err(f),
        Ok(None) => {
            device.set_state(DeviceState::Read);
            Ok(())
        },
        Ok(Some(pair)) => match set_digit(acc, pair.first, pair.second) {
            Some(next) => {
                take(wires, pair.first_slot);
                take(wires, pair.second_slot);
                let _ = device.set_acc(next);
                device.set_state(DeviceState::Exec);
                Ok(())
            },
            None => Err(Fault::Configuration),
        },
    }
}

/// Executes the operation of the line `loc` on `device` and the wires.
///
/// The operation is done as a whole or not at all: where one of its operands
/// cannot be read in this tick the controller waits in `Read`, where its
/// result cannot be written it waits in `Write`, and on a fault nothing
/// changes.  The program counter moves only under `jmp`.  A line without
/// an operation does nothing.
pub fn execute_loc<D: Device>(loc: LOC, device: &mut D, wires: &mut Vec<Attachment>) -> (r:
    Result<(), Fault>)
    requires
        old(device)@.wf(),
    ensures
        final(device)@ == old(device)@.effect_of(old(wires)@, loc).machine,
        final(wires)@ == old(device)@.effect_of(old(wires)@, loc).wires,
        r == old(device)@.effect_of(old(wires)@, loc).result(),
{
    reveal(Machine::effect);
    let op = match loc.op {
        Some(op) => op,
        None => {
            device.set_state(DeviceState::Exec);
            return Ok(());
        },
    };
    match op {
        Opcode::Nop => {
            device.set_state(DeviceState::Exec);
            Ok(())
        },
        Opcode::MovReg(src, dst) => transfer(device, wires, src, dst),
        Opcode::Jmp(addr) => match device.jump(addr) {
            Ok(()) => {
                device.set_state(DeviceState::Exec);
                Ok(())
            },
            Err(f) => Err(f),
        },
        Opcode::Slp(src) => match peek(device, wires, src) {
            Peek::Fault(f) => Err(f),
            Peek::Blocked => {
                device.set_state(DeviceState::Read);
                Ok(())
            },
            Peek::Ready { value, slot } => {
                take(wires, slot);
                device.sleep(value);
                Ok(())
            },
        },
        Opcode::Add(src) => accumulate(device, wires, op, src),
        Opcode::Sub(src) => accumulate(device, wires, op, src),
        Opcode::Mul(src) => accumulate(device, wires, op, src),
        Opcode::Dgt(src) => accumulate(device, wires, op, src),
        Opcode::Not => match device.get_acc() {
            Some(acc) => {
                let next: i16 = if acc == 0 {
                    100
                } else {
                    0
                };
                let _ = device.set_acc(next);
                device.set_state(DeviceState::Exec);
                Ok(())
            },
            None => Err(Fault::Configuration),
        },
        Opcode::Dst(pos, digit) => replace_digit(device, wires, pos, digit),
        Opcode::Teq(a, b) => test(device, wires, op, a, b),
        Opcode::Tgt(a, b) => test(device, wires, op, a, b),
        Opcode::Tlt(a, b) => test(device, wires, op, a, b),
        Opcode::Tcp(a, b) => test(device, wires, op, a, b),
    }
}

/// The pins of the basic controller.
pub open spec fn basic_layout() -> Set<Pin> {
    set![Pin::P0, Pin::P1, Pin::X0, Pin::X1]
}

/// The basic controller: nine lines of code, an accumulator, the latched
/// pins `P0` and `P1` and the handshake pins `X0` and `X1`.
pub struct MC4000 {
    acc: i16,
    state: DeviceState,
    p0: Option<usize>,
    p1: Option<usize>,
    x0: Option<usize>,
    x1: Option<usize>,
    code: Code<9>,
}

impl MC4000 {
    /// A controller that holds `code`, with nothing attached to its pins,
    /// the accumulator at 0 and the program counter at slot 0.
    pub fn new(code: [LOC; 9]) -> (r: Self)
        ensures
            r@.wf(),
            r@ == (Machine {
                acc: Some(0i16),
                dat: None,
                layout: basic_layout(),
                pins: Map::empty(),
                state: DeviceState::Exec,
                cond: CondState::Neither,
                pc: 0,
                code: code@,
            }),
    {
        let store = Code::new(code).unwrap();
        proof {
            store.lemma_slots();
        }
        let r = MC4000 {
            acc: 0,
            state: DeviceState::Exec,
            p0: None,
            p1: None,
            x0: None,
            x1: None,
            code: store,
        };
        assert(r@.pins =~= Map::empty());
        r
    }

    /// Lets one tick pass for this controller, as `step` does for any.
    pub fn step(&mut self, wires: &mut Vec<Attachment>) -> (r: Result<(), Fault>)
        requires
            old(self)@.wf(),
        ensures
            final(self)@ == old(self)@.step(old(wires)@).machine,
            final(wires)@ == old(self)@.step(old(wires)@).wires,
            r == old(self)@.step(old(wires)@).result(),
            final(self)@.wf(),
    {
        step(self, wires)
    }
}

impl Device for MC4000 {
    closed spec fn view(&self) -> Machine {
        Machine {
            acc: Some(self.acc),
            dat: None,
            layout: basic_layout(),
            pins: wiring(self.p0, self.p1, self.x0, self.x1, None, None),
            state: self.state,
            cond: self.code.condition(),
            pc: self.code.counter(),
            code: self.code.lines(),
        }
    }

    fn get_acc(&self) -> (r: Option<i16>) {
        Some(self.acc)
    }

    fn set_acc(&mut self, val: i16) -> (r: Result<(), Fault>) {
        self.acc = val;
        Ok(())
    }

    fn get_dat(&self) -> (r: Option<i16>) {
        None
    }

    fn set_dat(&mut self, val: i16) -> (r: Result<(), Fault>) {
        Err(Fault::Configuration)
    }

    fn has_pin(&self, pin: Pin) -> (r: bool) {
        match pin {
            Pin::P0 => true,
            Pin::P1 => true,
            Pin::X0 => true,
            Pin::X1 => true,
            _ => false,
        }
    }

    fn get_pin(&self, pin: Pin) -> (r: Option<usize>) {
        match pin {
            Pin::P0 => self.p0,
            Pin::P1 => self.p1,
            Pin::X0 => self.x0,
            Pin::X1 => self.x1,
            _ => None,
        }
    }

    fn set_pin(&mut self, pin: Pin, wire: usize) -> (r: Result<(), Fault>) {
        match pin {
            Pin::P0 => {
                self.p0 = Some(wire);
            },
            Pin::P1 => {
                self.p1 = Some(wire);
            },
            Pin::X0 => {
                self.x0 = Some(wire);
            },
            Pin::X1 => {
                self.x1 = Some(wire);
            },
            _ => {
                return Err(Fault::Configuration);
            },
        }
        assert(self@.pins =~= old(self)@.pins.insert(pin, wire));
        Ok(())
    }

    fn get_cnd(&self) -> (r: CondState) {
        self.code.cnd()
    }

    fn set_cnd(&mut self, cnd: CondState) {
        self.code.set_cnd(cnd);
    }

    fn get_state(&self) -> (r: DeviceState) {
        self.state
    }

    fn set_state(&mut self, state: DeviceState) {
        self.state = state;
    }

    fn sleep(&mut self, duration: i16) {
        let ticks: u32 = if duration < 0 {
            0
        } else {
            duration as u32
        };
        self.state = DeviceState::Sleep(ticks);
    }

    fn get_pc(&self) -> (r: u8) {
        self.code.pc()
    }

    fn get_line(&self, at: u8) -> (r: Option<LOC>) {
        self.code.line(at)
    }

    fn get_loc(&mut self) -> (r: Option<LOC>) {
        proof {
            self.code.lemma_slots();
        }
        self.code.step()
    }

    fn next_slot(&mut self) {
        proof {
            self.code.lemma_slots();
        }
        self.code.advance();
    }

    fn jump(&mut self, addr: u8) -> (r: Result<(), Fault>) {
        proof {
            self.code.lemma_slots();
        }
        if self.code.jump(addr) {
            Ok(())
        } else {
            Err(Fault::Execution)
        }
    }
}

/// The pins of the controller with four handshake pins.
pub open spec fn extended_layout() -> Set<Pin> {
    set![Pin::X0, Pin::X1, Pin::X2, Pin::X3]
}

/// The controller with four handshake pins: nine lines of code, an
/// accumulator and the pins `X0` to `X3`.
pub struct MC4000X {
    acc: i16,
    state: DeviceState,
    x0: Option<usize>,
    x1: Option<usize>,
    x2: Option<usize>,
    x3: Option<usize>,
    code: Code<9>,
}

impl MC4000X {
    /// A controller that holds `code`, with nothing attached to its pins,
    /// the accumulator at 0 and the program counter at slot 0.
    pub fn new(code: [LOC; 9]) -> (r: Self)
        ensures
            r@.wf(),
            r@ == (Machine {
                acc: Some(0i16),
                dat: None,
                layout: extended_layout(),
                pins: Map::empty(),
                state: DeviceState::Exec,
                cond: CondState::Neither,
                pc: 0,
                code: code@,
            }),
    {
        let store = Code::new(code).unwrap();
        proof {
            store.lemma_slots();
        }
        let r = MC4000X {
            acc: 0,
            state: DeviceState::Exec,
            x0: None,
            x1: None,
            x2: None,
            x3: None,
            code: store,
        };
        assert(r@.pins =~= Map::empty());
        r
    }

    /// Lets one tick pass for this controller, as `step` does for any.
    pub fn step(&mut self, wires: &mut Vec<Attachment>) -> (r: Result<(), Fault>)
        requires
            old(self)@.wf(),
        ensures
            final(self)@ == old(self)@.step(old(wires)@).machine,
            final(wires)@ == old(self)@.step(old(wires)@).wires,
            r == old(self)@.step(old(wires)@).result(),
            final(self)@.wf(),
    {
        step(self, wires)
    }
}

impl Device for MC4000X {
    closed spec fn view(&self) -> Machine {
        Machine {
            acc: Some(self.acc),
            dat: None,
            layout: extended_layout(),
            pins: wiring(None, None, self.x0, self.x1, self.x2, self.x3),
            state: self.state,
            cond: self.code.condition(),
            pc: self.code.counter(),
            code: self.code.lines(),
        }
    }

    fn get_acc(&self) -> (r: Option<i16>) {
        Some(self.acc)
    }

    fn set_acc(&mut self, val: i16) -> (r: Result<(), Fault>) {
        self.acc = val;
        Ok(())
    }

    fn get_dat(&self) -> (r: Option<i16>) {
        None
    }

    fn set_dat(&mut self, val: i16) -> (r: Result<(), Fault>) {
        Err(Fault::Configuration)
    }

    fn has_pin(&self, pin: Pin) -> (r: bool) {
        match pin {
            Pin::X0 => true,
            Pin::X1 => true,
            Pin::X2 => true,
            Pin::X3 => true,
            _ => false,
        }
    }

    fn get_pin(&self, pin: Pin) -> (r: Option<usize>) {
        match pin {
            Pin::X0 => self.x0,
            Pin::X1 => self.x1,
            Pin::X2 => self.x2,
            Pin::X3 => self.x3,
            _ => None,
        }
    }

    fn set_pin(&mut self, pin: Pin, wire: usize) -> (r: Result<(), Fault>) {
        match pin {
            Pin::X0 => {
                self.x0 = Some(wire);
            },
            Pin::X1 => {
                self.x1 = Some(wire);
            },
            Pin::X2 => {
                self.x2 = Some(wire);
            },
            Pin::X3 => {
                self.x3 = Some(wire);
            },
            _ => {
                return Err(Fault::Configuration);
            },
        }
        assert(self@.pins =~= old(self)@.pins.insert(pin, wire));
        Ok(())
    }

    fn get_cnd(&self) -> (r: CondState) {
        self.code.cnd()
    }

    fn set_cnd(&mut self, cnd: CondState) {
        self.code.set_cnd(cnd);
    }

    fn get_state(&self) -> (r: DeviceState) {
        self.state
    }

    fn set_state(&mut self, state: DeviceState) {
        self.state = state;
    }

    fn sleep(&mut self, duration: i16) {
        let ticks: u32 = if duration < 0 {
            0
        } else {
            duration as u32
        };
        self.state = DeviceState::Sleep(ticks);
    }

    fn get_pc(&self) -> (r: u8) {
        self.code.pc()
    }

    fn get_line(&self, at: u8) -> (r: Option<LOC>) {
        self.code.line(at)
    }

    fn get_loc(&mut self) -> (r: Option<LOC>) {
        proof {
            self.code.lemma_slots();
        }
        self.code.step()
    }

    fn next_slot(&mut self) {
        proof {
            self.code.lemma_slots();
        }
        self.code.advance();
    }

    fn jump(&mut self, addr: u8) -> (r: Result<(), Fault>) {
        proof {
            self.code.lemma_slots();
        }
        if self.code.jump(addr) {
            Ok(())
        } else {
            Err(Fault::Execution)
        }
    }
}

/// The pins of the large controller.
pub open spec fn large_layout() -> Set<Pin> {
    set![Pin::P0, Pin::P1, Pin::X0, Pin::X1, Pin::X2, Pin::X3]
}

/// The large controller: fifteen lines of code, an accumulator, a second
/// register, the latched pins `P0` and `P1` and the handshake pins `X0` to
/// `X3`.
pub struct MC6000 {
    acc: i16,
    dat: i16,
    state: DeviceState,
    p0: Option<usize>,
    p1: Option<usize>,
    x0: Option<usize>,
    x1: Option<usize>,
    x2: Option<usize>,
    x3: Option<usize>,
    code: Code<15>,
}

impl MC6000 {
    /// A controller that holds `code`, with nothing attached to its pins,
    /// both registers at 0 and the program counter at slot 0.
    pub fn new(code: [LOC; 15]) -> (r: Self)
        ensures
            r@.wf(),
            r@ == (Machine {
                acc: Some(0i16),
                dat: Some(0i16),
                layout: large_layout(),
                pins: Map::empty(),
                state: DeviceState::Exec,
                cond: CondState::Neither,
                pc: 0,
                code: code@,
            }),
    {
        let store = Code::new(code).unwrap();
        proof {
            store.lemma_slots();
        }
        let r = MC6000 {
            acc: 0,
            dat: 0,
            state: DeviceState::Exec,
            p0: None,
            p1: None,
            x0: None,
            x1: None,
            x2: None,
            x3: None,
            code: store,
        };
        assert(r@.pins =~= Map::empty());
        r
    }

    /// Lets one tick pass for this controller, as `step` does for any.
    pub fn step(&mut self, wires: &mut Vec<Attachment>) -> (r: Result<(), Fault>)
        requires
            old(self)@.wf(),
        ensures
            final(self)@ == old(self)@.step(old(wires)@).machine,
            final(wires)@ == old(self)@.step(old(wires)@).wires,
            r == old(self)@.step(old(wires)@).result(),
            final(self)@.wf(),
    {
        step(self, wires)
    }
}

impl Device for MC6000 {
    closed spec fn view(&self) -> Machine {
        Machine {
            acc: Some(self.acc),
            dat: Some(self.dat),
            layout: large_layout(),
            pins: wiring(self.p0, self.p1, self.x0, self.x1, self.x2, self.x3),
            state: self.state,
            cond: self.code.condition(),
            pc: self.code.counter(),
            code: self.code.lines(),
        }
    }

    fn get_acc(&self) -> (r: Option<i16>) {
        Some(self.acc)
    }

    fn set_acc(&mut self, val: i16) -> (r: Result<(), Fault>) {
        self.acc = val;
        Ok(())
    }

    fn get_dat(&self) -> (r: Option<i16>) {
        Some(self.dat)
    }

    fn set_dat(&mut self, val: i16) -> (r: Result<(), Fault>) {
        self.dat = val;
        Ok(())
    }

    fn has_pin(&self, pin: Pin) -> (r: bool) {
        match pin {
            Pin::P0 => true,
            Pin::P1 => true,
            Pin::X0 => true,
            Pin::X1 => true,
            Pin::X2 => true,
            Pin::X3 => true,
        }
    }

    fn get_pin(&self, pin: Pin) -> (r: Option<usize>) {
        match pin {
            Pin::P0 => self.p0,
            Pin::P1 => self.p1,
            Pin::X0 => self.x0,
            Pin::X1 => self.x1,
            Pin::X2 => self.x2,
            Pin::X3 => self.x3,
        }
    }

    fn set_pin(&mut self, pin: Pin, wire: usize) -> (r: Result<(), Fault>) {
        match pin {
            Pin::P0 => {
                self.p0 = Some(wire);
            },
            Pin::P1 => {
                self.p1 = Some(wire);
            },
            Pin::X0 => {
                self.x0 = Some(wire);
            },
            Pin::X1 => {
                self.x1 = Some(wire);
            },
            Pin::X2 => {
                self.x2 = Some(wire);
            },
            Pin::X3 => {
                self.x3 = Some(wire);
            },
        }
        assert(self@.pins =~= old(self)@.pins.insert(pin, wire));
        Ok(())
    }

    fn get_cnd(&self) -> (r: CondState) {
        self.code.cnd()
    }

    fn set_cnd(&mut self, cnd: CondState) {
        self.code.set_cnd(cnd);
    }

    fn get_state(&self) -> (r: DeviceState) {
        self.state
    }

    fn set_state(&mut self, state: DeviceState) {
        self.state = state;
    }

    fn sleep(&mut self, duration: i16) {
        let ticks: u32 = if duration < 0 {
            0
        } else {
            duration as u32
        };
        self.state = DeviceState::Sleep(ticks);
    }

    fn get_pc(&self) -> (r: u8) {
        self.code.pc()
    }

    fn get_line(&self, at: u8) -> (r: Option<LOC>) {
        self.code.line(at)
    }

    fn get_loc(&mut self) -> (r: Option<LOC>) {
        proof {
            self.code.lemma_slots();
        }
        self.code.step()
    }

    fn next_slot(&mut self) {
        proof {
            self.code.lemma_slots();
        }
        self.code.advance();
    }

    fn jump(&mut self, addr: u8) -> (r: Result<(), Fault>) {
        proof {
            self.code.lemma_slots();
        }
        if self.code.jump(addr) {
            Ok(())
        } else {
            Err(Fault::Execution)
        }
    }
}

} // verus!
