//! The board: the controllers, the wires between them and the clock.

use vstd::prelude::*;
use crate::device::{step, CondState, Device, DeviceState, Fault, Machine};
use crate::devices::mc::{MC4000, MC4000X, MC6000};
use crate::op::{Opcode, Pin, RegImm, LOC};
use crate::validate::{
    lemma_sound_is_stable, lemma_sound_step, lemma_step_keeps_build, same_wiring, vet,
};
use crate::wire::{
    pin_protocol, protocol_of, Attachment, Protocol, SimpleIOWire, Wire, XBusWire,
};

verus! {

/// A controller of any of the three kinds.
pub enum Controller {
    Basic(MC4000),
    Extended(MC4000X),
    Large(MC6000),
}

impl Device for Controller {
    open spec fn view(&self) -> Machine {
        match self {
            Controller::Basic(d) => d@,
            Controller::Extended(d) => d@,
            Controller::Large(d) => d@,
        }
    }

    fn get_acc(&self) -> (r: Option<i16>) {
        match self {
            Controller::Basic(d) => d.get_acc(),
            Controller::Extended(d) => d.get_acc(),
            Controller::Large(d) => d.get_acc(),
        }
    }

    fn set_acc(&mut self, val: i16) -> (r: Result<(), Fault>) {
        match self {
            Controller::Basic(d) => d.set_acc(val),
            Controller::Extended(d) => d.set_acc(val),
            Controller::Large(d) => d.set_acc(val),
        }
    }

    fn get_dat(&self) -> (r: Option<i16>) {
        match self {
            Controller::Basic(d) => d.get_dat(),
            Controller::Extended(d) => d.get_dat(),
            Controller::Large(d) => d.get_dat(),
        }
    }

    fn set_dat(&mut self, val: i16) -> (r: Result<(), Fault>) {
        match self {
            Controller::Basic(d) => d.set_dat(val),
            Controller::Extended(d) => d.set_dat(val),
            Controller::Large(d) => d.set_dat(val),
        }
    }

    fn has_pin(&self, pin: Pin) -> (r: bool) {
        match self {
            Controller::Basic(d) => d.has_pin(pin),
            Controller::Extended(d) => d.has_pin(pin),
            Controller::Large(d) => d.has_pin(pin),
        }
    }

    fn get_pin(&self, pin: Pin) -> (r: Option<usize>) {
        match self {
            Controller::Basic(d) => d.get_pin(pin),
            Controller::Extended(d) => d.get_pin(pin),
            Controller::Large(d) => d.get_pin(pin),
        }
    }

    fn set_pin(&mut self, pin: Pin, wire: usize) -> (r: Result<(), Fault>) {
        match self {
            Controller::Basic(d) => d.set_pin(pin, wire),
            Controller::Extended(d) => d.set_pin(pin, wire),
            Controller::Large(d) => d.set_pin(pin, wire),
        }
    }

    fn get_cnd(&self) -> (r: CondState) {
        match self {
            Controller::Basic(d) => d.get_cnd(),
            Controller::Extended(d) => d.get_cnd(),
            Controller::Large(d) => d.get_cnd(),
        }
    }

    fn set_cnd(&mut self, cnd: CondState) {
        match self {
            Controller::Basic(d) => d.set_cnd(cnd),
            Controller::Extended(d) => d.set_cnd(cnd),
            Controller::Large(d) => d.set_cnd(cnd),
        }
    }

    fn get_state(&self) -> (r: DeviceState) {
        match self {
            Controller::Basic(d) => d.get_state(),
            Controller::Extended(d) => d.get_state(),
            Controller::Large(d) => d.get_state(),
        }
    }

    fn set_state(&mut self, state: DeviceState) {
        match self {
            Controller::Basic(d) => d.set_state(state),
            Controller::Extended(d) => d.set_state(state),
            Controller::Large(d) => d.set_state(state),
        }
    }

    fn sleep(&mut self, duration: i16) {
        match self {
            Controller::Basic(d) => d.sleep(duration),
            Controller::Extended(d) => d.sleep(duration),
            Controller::Large(d) => d.sleep(duration),
        }
    }

    fn get_pc(&self) -> (r: u8) {
        match self {
            Controller::Basic(d) => d.get_pc(),
            Controller::Extended(d) => d.get_pc(),
            Controller::Large(d) => d.get_pc(),
        }
    }

    fn get_line(&self, at: u8) -> (r: Option<LOC>) {
        match self {
            Controller::Basic(d) => d.get_line(at),
            Controller::Extended(d) => d.get_line(at),
            Controller::Large(d) => d.get_line(at),
        }
    }

    fn get_loc(&mut self) -> (r: Option<LOC>) {
        match self {
            Controller::Basic(d) => d.get_loc(),
            Controller::Extended(d) => d.get_loc(),
            Controller::Large(d) => d.get_loc(),
        }
    }

    fn next_slot(&mut self) {
        match self {
            Controller::Basic(d) => d.next_slot(),
            Controller::Extended(d) => d.next_slot(),
            Controller::Large(d) => d.next_slot(),
        }
    }

    fn jump(&mut self, addr: u8) -> (r: Result<(), Fault>) {
        match self {
            Controller::Basic(d) => d.jump(addr),
            Controller::Extended(d) => d.jump(addr),
            Controller::Large(d) => d.jump(addr),
        }
    }
}

/// The kinds of fatal condition that end a simulation.
#[derive(Copy, Clone, Debug, PartialEq, Eq, Structural)]
pub enum ErrorKind {
    /// A program names a register or a pin that its controller does not
    /// have, a wire does not fit the pin it is attached to, or `dst` is
    /// handed a value that is no decimal digit.
    Configuration,
    /// A value waited on a handshake wire beyond the timeout.
    Deadlock,
    /// A jump leaves the program, or the clock cannot count one tick more.
    Execution,
}

/// Where a fatal condition arose.
#[derive(Copy, Clone, Debug, PartialEq, Eq, Structural)]
pub enum Source {
    /// The controller at this place among the controllers of the board.
    Device(usize),
    /// The wire at this place among the wires of the board.
    Wire(usize),
    /// The clock of the board.
    Clock,
}

/// A fatal condition: its kind and where it arose.
#[derive(Copy, Clone, Debug, PartialEq, Eq, Structural)]
pub struct SimError {
    pub kind: ErrorKind,
    pub source: Source,
}

/// The error that the fault `f` of the controller `device` gives.
pub open spec fn fault_at(f: Fault, device: usize) -> SimError {
    SimError {
        kind: match f {
            Fault::Configuration => ErrorKind::Configuration,
            Fault::Execution => ErrorKind::Execution,
        },
        source: Source::Device(device),
    }
}

/// The error that the fault `f` of the controller `device` gives.
pub fn report(f: Fault, device: usize) -> (e: SimError)
    ensures
        e == fault_at(f, device),
{
    SimError {
        kind: match f {
            Fault::Configuration => ErrorKind::Configuration,
            Fault::Execution => ErrorKind::Execution,
        },
        source: Source::Device(device),
    }
}

/// The clock: the ticks that have passed, and the full seconds among them.
#[derive(Copy, Clone, Debug, PartialEq, Eq, Structural)]
pub struct GlobalState {
    pub seconds: u32,
    pub ticks: u32,
}

impl GlobalState {
    /// A clock at which no tick has passed.
    pub fn new() -> (r: Self)
        ensures
            r == (GlobalState { seconds: 0, ticks: 0 }),
    {
        GlobalState { seconds: 0, ticks: 0 }
    }
}

/// The model of a board: what its contracts speak of.
pub struct Circuit {
    /// The controllers, in the order in which they were added and in which
    /// they are stepped.
    pub machines: Seq<Machine>,
    /// The wires.
    pub wires: Seq<Attachment>,
    /// The clock.
    pub clock: GlobalState,
    /// The number of ticks in a second.
    pub rate: u32,
    /// The fatal condition that ended the simulation, if one did.
    pub halted: Option<SimError>,
}

/// The controllers and the wires after a pass over the controllers, and the
/// controller that met a fault, with the fault, if one did.
pub struct Pass {
    pub machines: Seq<Machine>,
    pub wires: Seq<Attachment>,
    pub fault: Option<(usize, Fault)>,
}

/// The wires after a pass over the wires, and the wire that was found
/// jammed, if one was.
pub struct Aging {
    pub wires: Seq<Attachment>,
    pub jammed: Option<usize>,
}

/// A board after a tick, and what the tick hands back.
pub struct Tick {
    pub circuit: Circuit,
    pub result: Result<(), SimError>,
}

/// Steps the controllers from place `from` on, each one on the wires as the
/// one before it left them, and stops at the first fault.
pub open spec fn run_devices(machines: Seq<Machine>, wires: Seq<Attachment>, from: int) -> Pass
    decreases machines.len() - from,
{
    if from < 0 || from >= machines.len() {
        Pass { machines, wires, fault: None }
    } else {
        let o = machines[from].step(wires);
        match o.fault {
            Some(f) => Pass {
                machines: machines.update(from, o.machine),
                wires: o.wires,
                fault: Some((from as usize, f)),
            },
            None => run_devices(machines.update(from, o.machine), o.wires, from + 1),
        }
    }
}

/// Lets a tick pass for the wires from place `from` on, and stops at the
/// first wire that is jammed.
pub open spec fn age_wires(wires: Seq<Attachment>, from: int) -> Aging
    decreases wires.len() - from,
{
    if from < 0 || from >= wires.len() {
        Aging { wires, jammed: None }
    } else if wires[from].jammed() {
        Aging { wires, jammed: Some(from as usize) }
    } else {
        age_wires(wires.update(from, wires[from].after_step()), from + 1)
    }
}

/// The clock after one more tick at `rate` ticks to the second.
pub open spec fn tick(clock: GlobalState, rate: u32) -> GlobalState {
    GlobalState {
        ticks: (clock.ticks + 1) as u32,
        seconds: if (clock.ticks + 1) % (rate as int) == 0 {
            (clock.seconds + 1) as u32
        } else {
            clock.seconds
        },
    }
}

impl Circuit {
    /// Every controller is well formed, the controllers and the wires can
    /// be counted, a second has at least one tick, and the clock shows the
    /// full seconds among its ticks.
    pub open spec fn wf(self) -> bool {
        &&& forall|i: int| 0 <= i < self.machines.len() ==> (#[trigger] self.machines[i]).wf()
        &&& self.machines.len() <= usize::MAX
        &&& self.wires.len() <= usize::MAX
        &&& self.rate > 0
        &&& self.clock.seconds == self.clock.ticks / self.rate
    }

    /// The board that the fatal condition `e` has ended, and `e` as what the
    /// tick hands back.
    pub open spec fn halt(self, e: SimError) -> Tick {
        Tick { circuit: Circuit { halted: Some(e), ..self }, result: Err(e) }
    }

    /// What one tick does to the board.
    ///
    /// Every controller is stepped once, in order; then every wire lets the
    /// tick pass, in order; then the clock counts the tick.  The first fatal
    /// condition ends the tick where it arose: what was done before it
    /// stays done, and the clock does not count the tick.  A clock that
    /// cannot count one tick more ends the tick before anything is done.
    /// A fatal condition ends the simulation for good: every later tick
    /// does nothing and hands the same condition back.
    pub open spec fn advance(self) -> Tick {
        match self.halted {
            Some(e) => Tick { circuit: self, result: Err(e) },
            None => if self.clock.ticks == u32::MAX {
                self.halt(SimError { kind: ErrorKind::Execution, source: Source::Clock })
            } else {
                let pass = run_devices(self.machines, self.wires, 0);
                match pass.fault {
                    Some((device, f)) => Circuit {
                        machines: pass.machines,
                        wires: pass.wires,
                        ..self
                    }.halt(fault_at(f, device)),
                    None => {
                        let aging = age_wires(pass.wires, 0);
                        match aging.jammed {
                            Some(wire) => Circuit {
                                machines: pass.machines,
                                wires: aging.wires,
                                ..self
                            }.halt(
                                SimError { kind: ErrorKind::Deadlock, source: Source::Wire(wire) },
                            ),
                            None => Tick {
                                circuit: Circuit {
                                    machines: pass.machines,
                                    wires: aging.wires,
                                    clock: tick(self.clock, self.rate),
                                    ..self
                                },
                                result: Ok(()),
                            },
                        }
                    },
                }
            },
        }
    }
}

/// A tick that hands back a fatal condition leaves the board ended by that
/// condition, and a board that is ended stays as it is: every further tick
/// hands the same condition back.
pub proof fn lemma_fatal_is_final(c: Circuit)
    ensures
        c.advance().result is Err ==> c.advance().circuit.halted == Some(
            c.advance().result->Err_0,
        ),
        c.advance().result is Ok ==> c.advance().circuit.halted is None,
        c.halted is Some ==> c.advance().circuit == c,
        c.advance().result is Err ==> c.advance().circuit.advance() == c.advance(),
{
}

/// Whether the controller `m` stands on a `dst` whose digit comes from a
/// register.
pub open spec fn stands_on_digit(m: Machine) -> bool {
    &&& 0 <= m.pc < m.code.len()
    &&& m.code[m.pc].op matches Some(Opcode::Dst(_, RegImm::Reg(_)))
}

impl Circuit {
    /// The program of every controller is sound: none of its lines has a
    /// flaw.
    pub open spec fn sound(self) -> bool {
        forall|i: int|
            0 <= i < self.machines.len() ==> (#[trigger] self.machines[i]).sound(self.wires)
    }

    /// The first flaw of the first controller from place `from` on whose
    /// program has one, as the error that it would give.
    pub open spec fn first_flaw(self, from: int) -> Option<SimError>
        decreases self.machines.len() - from,
    {
        if from < 0 || from >= self.machines.len() {
            None
        } else {
            match self.machines[from].first_flaw(self.wires, 0) {
                Some(f) => Some(fault_at(f, from as usize)),
                None => self.first_flaw(from + 1),
            }
        }
    }
}

/// A board has no first flaw from place `from` on exactly if the programs
/// of the controllers from that place on are sound.
pub proof fn lemma_board_first_flaw(c: Circuit, from: int)
    requires
        0 <= from,
    ensures
        c.first_flaw(from) is None <==> forall|i: int|
            from <= i < c.machines.len() ==> (#[trigger] c.machines[i]).sound(c.wires),
    decreases c.machines.len() - from,
{
    if from < c.machines.len() {
        crate::validate::lemma_first_flaw(c.machines[from], c.wires, 0);
        lemma_board_first_flaw(c, from + 1);
    }
}

/// A pass over controllers whose programs are sound leaves the programs
/// sound and the wires what they were in number and protocol, and ends in a
/// fault only where a `dst` is handed a digit from a register that is no
/// decimal digit.
pub proof fn lemma_run_devices_sound(machines: Seq<Machine>, wires: Seq<Attachment>, from: int)
    requires
        0 <= from,
        machines.len() <= usize::MAX,
        forall|i: int| 0 <= i < machines.len() ==> (#[trigger] machines[i]).wf(),
        forall|i: int| 0 <= i < machines.len() ==> (#[trigger] machines[i]).sound(wires),
    ensures
        ({
            let pass = run_devices(machines, wires, from);
            &&& pass.machines.len() == machines.len()
            &&& same_wiring(wires, pass.wires)
            &&& forall|i: int|
                0 <= i < machines.len() ==> (#[trigger] pass.machines[i]).sound(pass.wires)
            &&& pass.fault matches Some((at, f)) ==> {
                &&& f == Fault::Configuration
                &&& at < machines.len()
                &&& stands_on_digit(pass.machines[at as int])
            }
        }),
    decreases machines.len() - from,
{
    if from < machines.len() {
        let o = machines[from].step(wires);
        lemma_sound_step(machines[from], wires);
        lemma_step_keeps_build(machines[from], wires);
        crate::device::lemma_step_frame(machines[from], wires);
        let next = machines.update(from, o.machine);
        assert forall|i: int| 0 <= i < next.len() implies (#[trigger] next[i]).sound(o.wires) by {
            if i != from {
                lemma_sound_is_stable(machines[i], wires, machines[i], o.wires);
            }
        }
        assert forall|i: int| 0 <= i < next.len() implies (#[trigger] next[i]).wf() by {
            if i != from {
                assert(machines[i].wf());
            }
        }
        let pass = run_devices(machines, wires, from);
        if o.fault is None {
            lemma_run_devices_sound(next, o.wires, from + 1);
            assert(pass == run_devices(next, o.wires, from + 1));
            assert forall|i: int| 0 <= i < wires.len() implies (#[trigger] pass.wires[i]).protocol()
                == wires[i].protocol() by {
                assert(o.wires[i].protocol() == wires[i].protocol());
            }
        } else {
            assert(pass.machines == next);
            assert(pass.wires == o.wires);
            assert(stands_on_digit(next[from]));
        }
    }
}

/// A pass over the wires leaves them what they were in number and
/// protocol.
pub proof fn lemma_age_wires_keeps_wiring(wires: Seq<Attachment>, from: int)
    ensures
        same_wiring(wires, age_wires(wires, from).wires),
    decreases wires.len() - from,
{
    if 0 <= from < wires.len() && !wires[from].jammed() {
        lemma_age_wires_keeps_wiring(wires.update(from, wires[from].after_step()), from + 1);
    }
}

/// What a board with sound programs can meet.  A tick leaves the programs
/// sound.  It ends in no execution error but that of the clock, and in no
/// configuration error but that of a `dst` which is handed a digit from a
/// register that is no decimal digit; the controller that the error names
/// then stands on that line.
pub proof fn lemma_sound_board(c: Circuit)
    requires
        c.wf(),
        c.sound(),
        c.halted is None,
    ensures
        c.advance().circuit.sound(),
        c.advance().result matches Err(e) ==> {
            ||| e == (SimError { kind: ErrorKind::Execution, source: Source::Clock })
            ||| e.kind == ErrorKind::Deadlock && e.source is Wire
            ||| {
                &&& e.kind == ErrorKind::Configuration
                &&& e.source matches Source::Device(at)
                &&& at < c.advance().circuit.machines.len()
                &&& stands_on_digit(c.advance().circuit.machines[at as int])
            }
        },
{
    if c.clock.ticks != u32::MAX {
        lemma_run_devices_sound(c.machines, c.wires, 0);
        let pass = run_devices(c.machines, c.wires, 0);
        if pass.fault is None {
            lemma_age_wires_keeps_wiring(pass.wires, 0);
            let aging = age_wires(pass.wires, 0);
            assert forall|i: int| 0 <= i < pass.machines.len() implies (
            #[trigger] pass.machines[i]).sound(aging.wires) by {
                lemma_sound_is_stable(pass.machines[i], pass.wires, pass.machines[i], aging.wires);
            }
        }
    }
}

/// A new wire of `protocol`: a latched wire that holds 0, or a handshake
/// wire with an empty slot.
pub open spec fn fresh(protocol: Protocol) -> Attachment {
    match protocol {
        Protocol::Latched => Attachment::Latched(SimpleIOWire { value: 0 }),
        Protocol::Handshake => Attachment::Handshake(
            XBusWire { value: None, timeout: 0, held: false },
        ),
    }
}

/// A new wire of `protocol`.
pub fn new_wire(protocol: Protocol) -> (w: Attachment)
    ensures
        w == fresh(protocol),
{
    match protocol {
        Protocol::Latched => Attachment::Latched(SimpleIOWire { value: 0 }),
        Protocol::Handshake => Attachment::Handshake(XBusWire::new(None)),
    }
}

impl Circuit {
    /// Whether the end `end`, a controller and one of its pins, cannot take
    /// a wire of `protocol`: there is no such controller, the pin speaks
    /// the other protocol, the controller has no such pin, or the pin has a
    /// wire already.
    pub open spec fn refuses(self, end: (usize, Pin), protocol: Protocol) -> bool {
        ||| end.0 >= self.machines.len()
        ||| protocol_of(end.1) != protocol
        ||| !self.machines[end.0 as int].layout.contains(end.1)
        ||| self.machines[end.0 as int].pins.contains_key(end.1)
    }

    /// The error that wiring `a` to `b` with a wire of `protocol` meets, if
    /// it meets one: the first end that cannot take the wire, where `b`
    /// cannot take it either if it is `a` itself.
    pub open spec fn connect_fault(
        self,
        a: (usize, Pin),
        b: (usize, Pin),
        protocol: Protocol,
    ) -> Option<SimError> {
        if self.refuses(a, protocol) {
            Some(SimError { kind: ErrorKind::Configuration, source: Source::Device(a.0) })
        } else if self.refuses(b, protocol) || a == b {
            Some(SimError { kind: ErrorKind::Configuration, source: Source::Device(b.0) })
        } else {
            None
        }
    }

    /// The controllers with the pin of the end `end` attached to `wire`.
    pub open spec fn attached(machines: Seq<Machine>, end: (usize, Pin), wire: usize) -> Seq<
        Machine,
    > {
        machines.update(
            end.0 as int,
            Machine {
                pins: machines[end.0 as int].pins.insert(end.1, wire),
                ..machines[end.0 as int]
            },
        )
    }

    /// The board with a new wire of `protocol` behind its wires, and `a` and
    /// `b` attached to it.
    pub open spec fn connected(
        self,
        a: (usize, Pin),
        b: (usize, Pin),
        protocol: Protocol,
    ) -> Circuit {
        let wire = self.wires.len() as usize;
        Circuit {
            machines: Self::attached(Self::attached(self.machines, a, wire), b, wire),
            wires: self.wires.push(fresh(protocol)),
            ..self
        }
    }
}

/// The models of the controllers `devices`.
pub open spec fn models(devices: Seq<Controller>) -> Seq<Machine> {
    Seq::new(devices.len(), |i: int| devices[i]@)
}

/// A pass over the controllers keeps their number and the number of wires,
/// and leaves every controller well formed.
pub proof fn lemma_run_devices_frame(machines: Seq<Machine>, wires: Seq<Attachment>, from: int)
    requires
        forall|i: int| 0 <= i < machines.len() ==> (#[trigger] machines[i]).wf(),
    ensures
        run_devices(machines, wires, from).machines.len() == machines.len(),
        run_devices(machines, wires, from).wires.len() == wires.len(),
        forall|i: int|
            0 <= i < machines.len() ==> (#[trigger] run_devices(
                machines,
                wires,
                from,
            ).machines[i]).wf(),
    decreases machines.len() - from,
{
    if 0 <= from < machines.len() {
        let o = machines[from].step(wires);
        crate::device::lemma_step_frame(machines[from], wires);
        let next = machines.update(from, o.machine);
        if o.fault is None {
            lemma_run_devices_frame(next, o.wires, from + 1);
        }
    }
}

/// A pass over the wires keeps their number.
pub proof fn lemma_age_wires_frame(wires: Seq<Attachment>, from: int)
    ensures
        age_wires(wires, from).wires.len() == wires.len(),
    decreases wires.len() - from,
{
    if 0 <= from < wires.len() && !wires[from].jammed() {
        lemma_age_wires_frame(wires.update(from, wires[from].after_step()), from + 1);
    }
}

/// The seconds of the clock keep step with its ticks.
pub proof fn lemma_tick(clock: GlobalState, rate: u32)
    requires
        rate > 0,
        clock.ticks < u32::MAX,
        clock.seconds == clock.ticks / rate,
    ensures
        tick(clock, rate).ticks == clock.ticks + 1,
        tick(clock, rate).seconds == tick(clock, rate).ticks / rate,
{
    let t = clock.ticks as int;
    let r = rate as int;
    vstd::arithmetic::div_mod::lemma_fundamental_div_mod(t, r);
    vstd::arithmetic::div_mod::lemma_fundamental_div_mod(t + 1, r);
    vstd::arithmetic::div_mod::lemma_mod_bound(t, r);
    vstd::arithmetic::div_mod::lemma_mod_bound(t + 1, r);
    let q = t / r;
    let q1 = (t + 1) / r;
    assert(q1 == if (t + 1) % r == 0 {
        q + 1
    } else {
        q
    }) by (nonlinear_arith)
        requires
            r > 0,
            t == r * q + t % r,
            t + 1 == r * q1 + (t + 1) % r,
            0 <= t % r < r,
            0 <= (t + 1) % r < r,
    ;
    assert(q <= t) by (nonlinear_arith)
        requires
            r > 0,
            t >= 0,
            t == r * q + t % r,
            0 <= t % r < r,
    ;
}

/// A board: controllers, the wires between their pins, and a clock.
pub struct Board {
    state: GlobalState,
    rate: u32,
    devices: Vec<Controller>,
    wires: Vec<Attachment>,
    halted: Option<SimError>,
}

impl Board {
    /// The model of the board.
    pub closed spec fn view(&self) -> Circuit {
        Circuit {
            machines: models(self.devices@),
            wires: self.wires@,
            clock: self.state,
            rate: self.rate,
            halted: self.halted,
        }
    }

    /// An empty board whose clock counts `rate` ticks to the second; `None`
    /// exactly where `rate` is 0.
    pub fn new(rate: u32) -> (r: Option<Board>)
        ensures
            r is Some <==> rate > 0,
            r is Some ==> r.unwrap()@.wf() && r.unwrap()@ == (Circuit {
                machines: Seq::empty(),
                wires: Seq::empty(),
                clock: GlobalState { seconds: 0, ticks: 0 },
                rate,
                halted: None,
            }),
    {
        if rate == 0 {
            return None;
        }
        let board = Board {
            state: GlobalState::new(),
            rate,
            devices: Vec::new(),
            wires: Vec::new(),
            halted: None,
        };
        assert(board@.machines =~= Seq::empty());
        Some(board)
    }

    /// The number of ticks that have passed.
    pub fn ticks(&self) -> (r: u32)
        ensures
            r == self@.clock.ticks,
    {
        self.state.ticks
    }

    /// The number of full seconds that have passed.
    pub fn seconds(&self) -> (r: u32)
        ensures
            r == self@.clock.seconds,
    {
        self.state.seconds
    }

    /// Forces the outcome of the last test of the controller at place `at`
    /// to `cnd`; `false`, and nothing changes, where the board has no
    /// controller there.
    pub fn force_condition(&mut self, at: usize, cnd: CondState) -> (done: bool)
        requires
            old(self)@.wf(),
        ensures
            final(self)@.wf(),
            done == (at < old(self)@.machines.len()),
            final(self)@ == if done {
                Circuit {
                    machines: old(self)@.machines.update(
                        at as int,
                        Machine { cond: cnd, ..old(self)@.machines[at as int] },
                    ),
                    ..old(self)@
                }
            } else {
                old(self)@
            },
    {
        if at >= self.devices.len() {
            return false;
        }
        self.devices[at].set_cnd(cnd);
        assert(self@.machines =~= old(self)@.machines.update(
            at as int,
            Machine { cond: cnd, ..old(self)@.machines[at as int] },
        ));
        proof {
            self.lemma_counts();
        }
        true
    }

    /// Sets the clock to `ticks` ticks and the full seconds among them.
    pub fn set_clock(&mut self, ticks: u32)
        requires
            old(self)@.wf(),
        ensures
            final(self)@.wf(),
            final(self)@ == (Circuit {
                clock: GlobalState { ticks, seconds: ticks / old(self)@.rate },
                ..old(self)@
            }),
    {
        self.state = GlobalState { ticks, seconds: ticks / self.rate };
    }

    /// The controllers and the wires of a board can be counted.
    proof fn lemma_counts(&self)
        ensures
            self@.machines.len() <= usize::MAX,
            self@.wires.len() <= usize::MAX,
    {
        assert(self.devices@.len() == self.devices.len());
        assert(self.wires@.len() == self.wires.len());
    }

    /// The fatal condition that ended the simulation, if one did.
    pub fn halted(&self) -> (r: Option<SimError>)
        ensures
            r == self@.halted,
    {
        self.halted
    }

    /// The number of controllers on the board.
    pub fn device_count(&self) -> (r: usize)
        ensures
            r == self@.machines.len(),
    {
        self.devices.len()
    }

    /// The number of wires on the board.
    pub fn wire_count(&self) -> (r: usize)
        ensures
            r == self@.wires.len(),
    {
        self.wires.len()
    }

    /// The controller at place `at`; `None` where the board has none
    /// there.
    pub fn device(&self, at: usize) -> (r: Option<&Controller>)
        ensures
            r is Some <==> at < self@.machines.len(),
            r is Some ==> r.unwrap()@ == self@.machines[at as int],
    {
        if at < self.devices.len() {
            Some(&self.devices[at])
        } else {
            None
        }
    }

    /// The wire at place `at`; `None` where the board has none there.
    pub fn wire(&self, at: usize) -> (r: Option<Attachment>)
        ensures
            r == if at < self@.wires.len() {
                Some(self@.wires[at as int])
            } else {
                None
            },
    {
        if at < self.wires.len() {
            Some(self.wires[at])
        } else {
            None
        }
    }

    /// Puts `device` on the board, behind the controllers that are there,
    /// and hands back its place.
    pub fn add_device(&mut self, device: Controller) -> (at: usize)
        requires
            old(self)@.wf(),
            device@.wf(),
        ensures
            final(self)@.wf(),
            final(self)@ == (Circuit {
                machines: old(self)@.machines.push(device@),
                ..old(self)@
            }),
            at == old(self)@.machines.len(),
    {
        let at = self.devices.len();
        self.devices.push(device);
        assert(self@.machines =~= old(self)@.machines.push(device@));
        proof {
            self.lemma_counts();
        }
        at
    }

    /// Whether the end `end` cannot take a wire of `protocol`.
    fn refuses(&self, end: (usize, Pin), protocol: Protocol) -> (r: bool)
        ensures
            r == self@.refuses(end, protocol),
    {
        if end.0 >= self.devices.len() {
            return true;
        }
        if pin_protocol(end.1) != protocol {
            return true;
        }
        let device = &self.devices[end.0];
        !device.has_pin(end.1) || device.get_pin(end.1).is_some()
    }

    /// Wires the pin `a.1` of the controller `a.0` to the pin `b.1` of the
    /// controller `b.0` with a new wire of `protocol`, and hands back the
    /// place of the wire.  An error of kind `Configuration`, and nothing
    /// changes, where one of the ends cannot take the wire.
    pub fn connect(&mut self, a: (usize, Pin), b: (usize, Pin), protocol: Protocol) -> (r: Result<
        usize,
        SimError,
    >)
        requires
            old(self)@.wf(),
        ensures
            match old(self)@.connect_fault(a, b, protocol) {
                Some(e) => r == Err::<usize, SimError>(e) && final(self)@ == old(self)@,
                None => r == Ok::<usize, SimError>(old(self)@.wires.len() as usize) && final(self)@
                    == old(self)@.connected(a, b, protocol),
            },
            final(self)@.wf(),
    {
        if self.refuses(a, protocol) {
            return Err(SimError { kind: ErrorKind::Configuration, source: Source::Device(a.0) });
        }
        if self.refuses(b, protocol) || (a.0 == b.0 && a.1 == b.1) {
            return Err(SimError { kind: ErrorKind::Configuration, source: Source::Device(b.0) });
        }
        let wire = self.wires.len();
        self.wires.push(new_wire(protocol));
        let ghost start = self@.machines;
        let _ = self.devices[a.0].set_pin(a.1, wire);
        let ghost middle = self@.machines;
        assert(middle =~= Circuit::attached(start, a, wire));
        let _ = self.devices[b.0].set_pin(b.1, wire);
        assert(self@.machines =~= Circuit::attached(middle, b, wire));
        proof {
            self.lemma_counts();
        }
        Ok(wire)
    }

    /// Looks the programs over before they run: the first flaw of the first
    /// controller whose program has one, as the error that names the
    /// controller, and `Ok` exactly where every program is sound.  A flaw is
    /// a line that can never be done: it names a register or a pin that
    /// cannot be used, it jumps out of the program, or it hands `dst` a
    /// number that is no decimal digit.
    pub fn validate(&self) -> (r: Result<(), SimError>)
        requires
            self@.wf(),
        ensures
            r == match self@.first_flaw(0) {
                Some(e) => Err::<(), SimError>(e),
                None => Ok::<(), SimError>(()),
            },
            r is Ok <==> self@.sound(),
    {
        let mut i: usize = 0;
        while i < self.devices.len()
            invariant
                i <= self.devices.len(),
                self@.wf(),
                self@.first_flaw(i as int) == self@.first_flaw(0),
            decreases self.devices.len() - i,
        {
            proof {
                lemma_board_first_flaw(self@, 0);
            }
            match vet(&self.devices[i], &self.wires) {
                Some(f) => {
                    return Err(report(f, i));
                },
                None => {},
            }
            i = i + 1;
        }
        proof {
            lemma_board_first_flaw(self@, 0);
        }
        Ok(())
    }

    /// Lets one tick pass: steps every controller once, in the order in
    /// which they were added, then lets every wire age, then counts the
    /// tick.  The first fatal condition ends the tick where it arose and is
    /// handed back with its kind and its source.
    pub fn advance(&mut self) -> (r: Result<(), SimError>)
        requires
            old(self)@.wf(),
        ensures
            final(self)@ == old(self)@.advance().circuit,
            r == old(self)@.advance().result,
            final(self)@.wf(),
    {
        match self.halted {
            Some(e) => {
                return Err(e);
            },
            None => {},
        }
        if self.state.ticks == u32::MAX {
            let e = SimError { kind: ErrorKind::Execution, source: Source::Clock };
            self.halted = Some(e);
            return Err(e);
        }
        proof {
            lemma_run_devices_frame(self@.machines, self@.wires, 0);
            lemma_tick(self.state, self.rate);
        }
        let mut i: usize = 0;
        while i < self.devices.len()
            invariant
                i <= self.devices.len(),
                self.state == old(self).state,
                self.rate == old(self).rate,
                self.halted is None,
                old(self).halted is None,
                old(self)@.wf(),
                old(self)@.clock.ticks != u32::MAX,
                forall|k: int|
                    0 <= k < self@.machines.len() ==> (#[trigger] self@.machines[k]).wf(),
                run_devices(self@.machines, self@.wires, i as int) == run_devices(
                    old(self)@.machines,
                    old(self)@.wires,
                    0,
                ),
            decreases self.devices.len() - i,
        {
            let ghost before = self@;
            let stepped = step(&mut self.devices[i], &mut self.wires);
            proof {
                let o = before.machines[i as int].step(before.wires);
                crate::device::lemma_step_frame(before.machines[i as int], before.wires);
                assert(self@.machines =~= before.machines.update(i as int, o.machine));
            }
            match stepped {
                Err(f) => {
                    let e = report(f, i);
                    self.halted = Some(e);
                    proof {
                        self.lemma_counts();
                    }
                    return Err(e);
                },
                Ok(()) => {},
            }
            i = i + 1;
        }
        let ghost pass = self@;
        proof {
            lemma_age_wires_frame(pass.wires, 0);
        }
        let mut j: usize = 0;
        while j < self.wires.len()
            invariant
                j <= self.wires.len(),
                self.state == old(self).state,
                self.rate == old(self).rate,
                self.halted is None,
                old(self).halted is None,
                old(self)@.wf(),
                old(self)@.clock.ticks != u32::MAX,
                run_devices(old(self)@.machines, old(self)@.wires, 0) == (Pass {
                    machines: pass.machines,
                    wires: pass.wires,
                    fault: None,
                }),
                forall|k: int| 0 <= k < pass.machines.len() ==> (#[trigger] pass.machines[k]).wf(),
                self@.machines == pass.machines,
                age_wires(self@.wires, j as int) == age_wires(pass.wires, 0),
            decreases self.wires.len() - j,
        {
            let mut wire = self.wires[j];
            match wire.step() {
                Err(_) => {
                    let e = SimError { kind: ErrorKind::Deadlock, source: Source::Wire(j) };
                    self.halted = Some(e);
                    proof {
                        self.lemma_counts();
                    }
                    return Err(e);
                },
                Ok(()) => {},
            }
            self.wires.set(j, wire);
            j = j + 1;
        }
        self.state.ticks = self.state.ticks + 1;
        if self.state.ticks % self.rate == 0 {
            self.state.seconds = self.state.seconds + 1;
        }
        proof {
            self.lemma_counts();
        }
        Ok(())
    }
}

} // verus!
