use mcsim::board::{
    new_wire, report, Board, Controller, ErrorKind, GlobalState, SimError, Source,
};
use mcsim::device::{CondState, Device, DeviceState, Fault};
use mcsim::devices::mc::{MC4000, MC4000X, MC6000};
use mcsim::op::{Opcode, Pin, RegImm, Register, LOC};
use mcsim::wire::{Attachment, Protocol, SimpleIOWire, XBusWire};

fn line(op: Opcode) -> LOC {
    LOC { cond: None, lab: None, op: Some(op) }
}

fn blank() -> LOC {
    LOC { cond: None, lab: None, op: None }
}

fn repeated(op: Opcode) -> [LOC; 9] {
    [(); 9].map(|_| line(op))
}

fn program(first: Vec<Opcode>) -> [LOC; 9] {
    let mut code = [(); 9].map(|_| blank());
    for (i, op) in first.into_iter().enumerate() {
        code[i] = line(op);
    }
    code
}

fn basic(code: [LOC; 9]) -> Controller {
    Controller::Basic(MC4000::new(code))
}

fn p0() -> RegImm {
    RegImm::Reg(Register::Pin(Pin::P0))
}

fn x0() -> RegImm {
    RegImm::Reg(Register::Pin(Pin::X0))
}

/// Two basic controllers, wired P0 to P0 and X0 to X0.
fn pair(a: [LOC; 9], b: [LOC; 9]) -> Board {
    let mut board = Board::new(10).unwrap();
    assert_eq!(board.add_device(basic(a)), 0);
    assert_eq!(board.add_device(basic(b)), 1);
    assert_eq!(board.connect((0, Pin::P0), (1, Pin::P0), Protocol::Latched), Ok(0));
    assert_eq!(board.connect((0, Pin::X0), (1, Pin::X0), Protocol::Handshake), Ok(1));
    board
}

fn acc(board: &Board, at: usize) -> Option<i16> {
    board.device(at).unwrap().get_acc()
}

#[test]
fn a_board_needs_a_rate() {
    assert!(Board::new(0).is_none());
    let board = Board::new(1).unwrap();
    assert_eq!((board.ticks(), board.seconds()), (0, 0));
    assert_eq!((board.device_count(), board.wire_count()), (0, 0));
    assert!(board.device(0).is_none());
    assert_eq!(board.wire(0), None);
    assert_eq!(GlobalState::new(), GlobalState { seconds: 0, ticks: 0 });
}

#[test]
fn a_latched_value_is_seen_in_the_tick_of_its_write_and_stays() {
    let mut board =
        pair(repeated(Opcode::MovReg(RegImm::Imm(5), Register::Pin(Pin::P0))), repeated(Opcode::MovReg(p0(), Register::Acc)));
    assert_eq!(board.advance(), Ok(()));
    assert_eq!(acc(&board, 1), Some(5));
    for _ in 0..20 {
        assert_eq!(board.advance(), Ok(()));
        assert_eq!(acc(&board, 1), Some(5));
        assert_eq!(board.wire(0), Some(Attachment::Latched(SimpleIOWire { value: 5 })));
    }
}

#[test]
fn a_latched_value_stays_without_being_written_again() {
    let mut board = pair(
        program(vec![
            Opcode::MovReg(RegImm::Imm(5), Register::Pin(Pin::P0)),
            Opcode::Slp(RegImm::Imm(1000)),
        ]),
        repeated(Opcode::MovReg(p0(), Register::Acc)),
    );
    for _ in 0..30 {
        assert_eq!(board.advance(), Ok(()));
        assert_eq!(acc(&board, 1), Some(5));
    }
}

#[test]
fn controllers_are_stepped_in_the_order_they_were_added() {
    // The reader stands before the writer: it reads the wire before the
    // write of the same tick.
    let mut board = Board::new(10).unwrap();
    board.add_device(basic(repeated(Opcode::MovReg(p0(), Register::Acc))));
    board.add_device(basic(repeated(Opcode::MovReg(RegImm::Imm(5), Register::Pin(Pin::P0)))));
    board.connect((0, Pin::P0), (1, Pin::P0), Protocol::Latched).unwrap();
    assert_eq!(board.advance(), Ok(()));
    assert_eq!(acc(&board, 0), Some(0));
    assert_eq!(board.advance(), Ok(()));
    assert_eq!(acc(&board, 0), Some(5));
}

#[test]
fn a_handshake_value_arrives_in_the_tick_after_its_write() {
    let mut board = pair(
        program(vec![
            Opcode::MovReg(RegImm::Imm(5), Register::Pin(Pin::X0)),
            Opcode::Slp(RegImm::Imm(1000)),
        ]),
        program(vec![Opcode::MovReg(x0(), Register::Acc), Opcode::Slp(RegImm::Imm(1000))]),
    );
    assert_eq!(board.advance(), Ok(()));
    assert_eq!(acc(&board, 1), Some(0));
    assert_eq!(board.device(1).unwrap().get_state(), DeviceState::Read);
    assert_eq!(board.device(1).unwrap().get_pc(), 0);
    assert_eq!(board.wire(1), Some(Attachment::Handshake(XBusWire { value: Some(5), timeout: 1, held: true })));
    assert_eq!(board.advance(), Ok(()));
    assert_eq!(acc(&board, 1), Some(5));
    assert_eq!(board.device(1).unwrap().get_state(), DeviceState::Exec);
    assert_eq!(board.device(1).unwrap().get_pc(), 1);
    assert_eq!(board.wire(1), Some(Attachment::Handshake(XBusWire { value: None, timeout: 1, held: false })));
}

#[test]
fn a_handshake_does_not_depend_on_the_order_of_the_controllers() {
    let mut board = pair(
        program(vec![Opcode::MovReg(x0(), Register::Acc), Opcode::Slp(RegImm::Imm(1000))]),
        program(vec![
            Opcode::MovReg(RegImm::Imm(5), Register::Pin(Pin::X0)),
            Opcode::Slp(RegImm::Imm(1000)),
        ]),
    );
    assert_eq!(board.advance(), Ok(()));
    assert_eq!(acc(&board, 0), Some(0));
    assert_eq!(board.advance(), Ok(()));
    assert_eq!(acc(&board, 0), Some(5));
}

#[test]
fn a_writer_waits_while_the_slot_is_full() {
    let mut board = pair(
        repeated(Opcode::MovReg(RegImm::Imm(5), Register::Pin(Pin::X0))),
        program(vec![
            Opcode::Slp(RegImm::Imm(3)),
            Opcode::MovReg(x0(), Register::Acc),
            Opcode::Slp(RegImm::Imm(1000)),
        ]),
    );
    assert_eq!(board.advance(), Ok(()));
    assert_eq!(board.device(0).unwrap().get_state(), DeviceState::Exec);
    assert_eq!(board.device(0).unwrap().get_pc(), 1);
    assert_eq!(board.advance(), Ok(()));
    assert_eq!(board.device(0).unwrap().get_state(), DeviceState::Write);
    assert_eq!(board.device(0).unwrap().get_pc(), 1);
    assert_eq!(board.advance(), Ok(()));
    assert_eq!(board.advance(), Ok(()));
    // The reader woke and takes the value in the fifth tick; the writer,
    // which stands before it, is served again in the sixth.
    assert_eq!(board.advance(), Ok(()));
    assert_eq!(acc(&board, 1), Some(5));
    assert_eq!(board.device(0).unwrap().get_state(), DeviceState::Write);
    assert_eq!(board.advance(), Ok(()));
    assert_eq!(board.device(0).unwrap().get_state(), DeviceState::Exec);
    assert_eq!(board.device(0).unwrap().get_pc(), 2);
}

#[test]
fn an_unread_value_jams_the_board() {
    let mut board = pair(
        program(vec![
            Opcode::MovReg(RegImm::Imm(5), Register::Pin(Pin::X0)),
            Opcode::Slp(RegImm::Imm(1000)),
        ]),
        [(); 9].map(|_| blank()),
    );
    // The tick of the write and the eleven that follow pass.
    for tick in 1..=11 {
        assert_eq!(board.advance(), Ok(()), "tick {}", tick);
        assert_eq!(board.ticks(), tick);
    }
    assert_eq!(
        board.advance(),
        Err(SimError { kind: ErrorKind::Deadlock, source: Source::Wire(1) })
    );
    // The clock does not count the tick that ended in the jam.
    assert_eq!(board.ticks(), 11);
    assert_eq!(
        board.advance(),
        Err(SimError { kind: ErrorKind::Deadlock, source: Source::Wire(1) })
    );
}

#[test]
fn a_fault_names_the_controller() {
    let mut board = pair(
        repeated(Opcode::Add(RegImm::Imm(1))),
        program(vec![Opcode::Nop, Opcode::MovReg(RegImm::Imm(1), Register::Dat)]),
    );
    assert_eq!(board.advance(), Ok(()));
    assert_eq!(
        board.advance(),
        Err(SimError { kind: ErrorKind::Configuration, source: Source::Device(1) })
    );
    // The controller before it was stepped, the clock did not count.
    assert_eq!(acc(&board, 0), Some(2));
    assert_eq!(board.ticks(), 1);
    assert_eq!(board.device(1).unwrap().get_pc(), 1);
}

#[test]
fn a_fatal_condition_ends_the_simulation_for_good() {
    let mut board = pair(
        repeated(Opcode::Add(RegImm::Imm(1))),
        program(vec![Opcode::Nop, Opcode::Jmp(77)]),
    );
    assert_eq!(board.halted(), None);
    assert_eq!(board.advance(), Ok(()));
    assert_eq!(board.halted(), None);
    let fatal = SimError { kind: ErrorKind::Execution, source: Source::Device(1) };
    assert_eq!(board.advance(), Err(fatal));
    assert_eq!(board.halted(), Some(fatal));
    assert_eq!(acc(&board, 0), Some(2));
    for _ in 0..5 {
        assert_eq!(board.advance(), Err(fatal));
        assert_eq!(acc(&board, 0), Some(2));
        assert_eq!(board.ticks(), 1);
    }
}

#[test]
fn a_jump_out_of_the_program_is_an_execution_error() {
    let mut board = Board::new(1).unwrap();
    board.add_device(basic(program(vec![Opcode::Jmp(9)])));
    assert_eq!(
        board.advance(),
        Err(SimError { kind: ErrorKind::Execution, source: Source::Device(0) })
    );
    let mut board = Board::new(1).unwrap();
    board.add_device(Controller::Large(MC6000::new([(); 15].map(|_| line(Opcode::Jmp(14))))));
    assert_eq!(board.advance(), Ok(()));
    assert_eq!(board.device(0).unwrap().get_pc(), 14);
}

#[test]
fn a_pin_that_is_not_wired_cannot_be_used() {
    let mut board = Board::new(1).unwrap();
    board.add_device(basic(program(vec![Opcode::MovReg(p0(), Register::Acc)])));
    assert_eq!(
        board.advance(),
        Err(SimError { kind: ErrorKind::Configuration, source: Source::Device(0) })
    );
}

#[test]
fn faults_are_reported_with_their_kind() {
    assert_eq!(
        report(Fault::Configuration, 3),
        SimError { kind: ErrorKind::Configuration, source: Source::Device(3) }
    );
    assert_eq!(
        report(Fault::Execution, 0),
        SimError { kind: ErrorKind::Execution, source: Source::Device(0) }
    );
}

#[test]
fn the_clock_counts_ticks_and_seconds() {
    let mut board = Board::new(3).unwrap();
    let mut seen = Vec::new();
    for _ in 0..7 {
        assert_eq!(board.advance(), Ok(()));
        seen.push((board.ticks(), board.seconds()));
    }
    assert_eq!(seen, vec![(1, 0), (2, 0), (3, 1), (4, 1), (5, 1), (6, 2), (7, 2)]);
    let mut board = Board::new(1).unwrap();
    assert_eq!(board.advance(), Ok(()));
    assert_eq!((board.ticks(), board.seconds()), (1, 1));
}

#[test]
fn new_wires_are_empty() {
    assert_eq!(new_wire(Protocol::Latched), Attachment::Latched(SimpleIOWire { value: 0 }));
    assert_eq!(
        new_wire(Protocol::Handshake),
        Attachment::Handshake(XBusWire { value: None, timeout: 0, held: false })
    );
}

#[test]
fn wiring_attaches_both_ends() {
    let board = pair([(); 9].map(|_| blank()), [(); 9].map(|_| blank()));
    assert_eq!(board.device(0).unwrap().get_pin(Pin::P0), Some(0));
    assert_eq!(board.device(1).unwrap().get_pin(Pin::P0), Some(0));
    assert_eq!(board.device(0).unwrap().get_pin(Pin::X0), Some(1));
    assert_eq!(board.device(1).unwrap().get_pin(Pin::X0), Some(1));
    assert_eq!(board.device(0).unwrap().get_pin(Pin::X1), None);
    assert_eq!(board.wire(0), Some(new_wire(Protocol::Latched)));
    assert_eq!(board.wire(1), Some(new_wire(Protocol::Handshake)));
    assert_eq!(board.wire(2), None);
}

#[test]
fn two_pins_of_one_controller_can_be_wired() {
    let mut board = Board::new(1).unwrap();
    board.add_device(basic(program(vec![
        Opcode::MovReg(RegImm::Imm(8), Register::Pin(Pin::X0)),
        Opcode::MovReg(RegImm::Reg(Register::Pin(Pin::X1)), Register::Acc),
    ])));
    assert_eq!(board.connect((0, Pin::X0), (0, Pin::X1), Protocol::Handshake), Ok(0));
    assert_eq!(board.advance(), Ok(()));
    assert_eq!(board.advance(), Ok(()));
    assert_eq!(acc(&board, 0), Some(8));
}

#[test]
fn a_wire_must_fit_both_pins() {
    let mut board = Board::new(1).unwrap();
    board.add_device(basic([(); 9].map(|_| blank())));
    board.add_device(Controller::Extended(MC4000X::new([(); 9].map(|_| blank()))));
    let refused = |device| Err(SimError { kind: ErrorKind::Configuration, source: Source::Device(device) });
    // The protocol does not fit the pin.
    assert_eq!(board.connect((0, Pin::P0), (1, Pin::X0), Protocol::Handshake), refused(0));
    assert_eq!(board.connect((0, Pin::X0), (1, Pin::X0), Protocol::Latched), refused(0));
    assert_eq!(board.connect((0, Pin::P0), (1, Pin::X0), Protocol::Latched), refused(1));
    // The controller does not have the pin.
    assert_eq!(board.connect((0, Pin::X2), (1, Pin::X0), Protocol::Handshake), refused(0));
    assert_eq!(board.connect((0, Pin::P0), (1, Pin::P0), Protocol::Latched), refused(1));
    // There is no such controller.
    assert_eq!(board.connect((2, Pin::X0), (1, Pin::X0), Protocol::Handshake), refused(2));
    assert_eq!(board.connect((0, Pin::X0), (7, Pin::X0), Protocol::Handshake), refused(7));
    // A pin cannot be wired to itself.
    assert_eq!(board.connect((0, Pin::X0), (0, Pin::X0), Protocol::Handshake), refused(0));
    // Nothing was wired so far.
    assert_eq!(board.wire(0), None);
    assert_eq!(board.device(0).unwrap().get_pin(Pin::X0), None);
    assert_eq!(board.connect((0, Pin::X0), (1, Pin::X0), Protocol::Handshake), Ok(0));
    // A pin takes one wire only.
    assert_eq!(board.connect((0, Pin::X0), (1, Pin::X1), Protocol::Handshake), refused(0));
    assert_eq!(board.connect((0, Pin::X1), (1, Pin::X0), Protocol::Handshake), refused(1));
    assert_eq!(board.wire(1), None);
    assert_eq!(board.connect((0, Pin::X1), (1, Pin::X1), Protocol::Handshake), Ok(1));
}

#[test]
fn a_controller_of_any_kind_is_a_device() {
    let mut c = Controller::Large(MC6000::new([(); 15].map(|_| line(Opcode::Nop))));
    assert_eq!(c.get_acc(), Some(0));
    assert_eq!(c.set_acc(3), Ok(()));
    assert_eq!(c.get_acc(), Some(3));
    assert_eq!(c.set_dat(4), Ok(()));
    assert_eq!(c.get_dat(), Some(4));
    assert!(c.has_pin(Pin::X3));
    assert_eq!(c.set_pin(Pin::X3, 2), Ok(()));
    assert_eq!(c.get_pin(Pin::X3), Some(2));
    c.set_cnd(CondState::All);
    assert_eq!(c.get_cnd(), CondState::All);
    c.set_state(DeviceState::Read);
    assert_eq!(c.get_state(), DeviceState::Read);
    c.sleep(2);
    assert_eq!(c.get_state(), DeviceState::Sleep(2));
    assert_eq!(c.get_loc(), Some(line(Opcode::Nop)));
    c.next_slot();
    assert_eq!(c.get_pc(), 1);
    assert_eq!(c.jump(14), Ok(()));
    assert_eq!(c.jump(15), Err(Fault::Execution));
    let mut x = Controller::Extended(MC4000X::new([(); 9].map(|_| blank())));
    assert_eq!(x.set_dat(1), Err(Fault::Configuration));
    assert_eq!(x.set_pin(Pin::P0, 0), Err(Fault::Configuration));
    assert_eq!(x.get_loc(), None);
}

#[test]
fn a_sleeper_skips_its_ticks_on_the_board() {
    let mut board = Board::new(100).unwrap();
    board.add_device(basic(program(vec![Opcode::Slp(RegImm::Imm(3)), Opcode::Add(RegImm::Imm(1))])));
    let mut seen = Vec::new();
    for _ in 0..6 {
        assert_eq!(board.advance(), Ok(()));
        let d = board.device(0).unwrap();
        seen.push((d.get_state(), d.get_pc(), d.get_acc()));
    }
    assert_eq!(
        seen,
        vec![
            (DeviceState::Sleep(3), 0, Some(0)),
            (DeviceState::Sleep(2), 0, Some(0)),
            (DeviceState::Sleep(1), 0, Some(0)),
            (DeviceState::Exec, 1, Some(0)),
            (DeviceState::Exec, 2, Some(1)),
            (DeviceState::Sleep(3), 0, Some(1)),
        ]
    );
}

#[test]
fn the_clock_ends_the_simulation_when_it_cannot_count_on() {
    let mut board = Board::new(1000).unwrap();
    board.add_device(basic(repeated(Opcode::Add(RegImm::Imm(1)))));
    board.set_clock(u32::MAX - 1);
    assert_eq!((board.ticks(), board.seconds()), (u32::MAX - 1, 4294967));
    assert_eq!(board.advance(), Ok(()));
    assert_eq!((board.ticks(), board.seconds()), (u32::MAX, 4294967));
    assert_eq!(acc(&board, 0), Some(1));
    let fatal = SimError { kind: ErrorKind::Execution, source: Source::Clock };
    assert_eq!(board.advance(), Err(fatal));
    assert_eq!(board.halted(), Some(fatal));
    // Nothing was stepped in the tick that the clock could not count.
    assert_eq!(acc(&board, 0), Some(1));
    assert_eq!(board.ticks(), u32::MAX);
}

#[test]
fn the_clock_can_be_set() {
    let mut board = Board::new(7).unwrap();
    board.set_clock(20);
    assert_eq!((board.ticks(), board.seconds()), (20, 2));
    assert_eq!(board.advance(), Ok(()));
    assert_eq!((board.ticks(), board.seconds()), (21, 3));
}

#[test]
fn a_board_shows_what_it_holds() {
    let mut board = pair(
        program(vec![
            Opcode::MovReg(RegImm::Imm(5), Register::Pin(Pin::X0)),
            Opcode::Tcp(RegImm::Imm(1), RegImm::Imm(2)),
            Opcode::Slp(RegImm::Imm(9)),
        ]),
        [(); 9].map(|_| blank()),
    );
    for _ in 0..3 {
        assert_eq!(board.advance(), Ok(()));
    }
    assert_eq!(
        mcsim::device::snapshot(board.device(0).unwrap()),
        mcsim::device::Snapshot {
            state: DeviceState::Sleep(9),
            acc: Some(0),
            dat: None,
            pc: 2,
            cond: CondState::Minus,
        }
    );
    let latched = board.wire(0).unwrap();
    let handshake = board.wire(1).unwrap();
    assert_eq!((latched.pending(), latched.waited()), (true, 0));
    assert_eq!((handshake.pending(), handshake.waited()), (true, 3));
    assert!(!new_wire(Protocol::Handshake).pending());
}

#[test]
fn the_program_counter_stays_in_the_program() {
    let mut board = pair(
        program(vec![
            Opcode::Add(RegImm::Imm(1)),
            Opcode::Tgt(RegImm::Reg(Register::Acc), RegImm::Imm(3)),
            Opcode::MovReg(RegImm::Reg(Register::Acc), Register::Pin(Pin::X0)),
            Opcode::Jmp(8),
        ]),
        [(); 9].map(|_| {
            LOC {
                cond: None,
                lab: None,
                op: Some(Opcode::MovReg(x0(), Register::Pin(Pin::P0))),
            }
        }),
    );
    let mut large = [(); 15].map(|_| line(Opcode::Nop));
    large[14] = line(Opcode::Slp(RegImm::Imm(2)));
    board.add_device(Controller::Large(MC6000::new(large)));
    for _ in 0..200 {
        assert_eq!(board.advance(), Ok(()));
        assert!(board.device(0).unwrap().get_pc() < 9);
        assert!(board.device(1).unwrap().get_pc() < 9);
        assert!(board.device(2).unwrap().get_pc() < 15);
    }
}

#[test]
fn the_outcome_of_the_last_test_can_be_forced() {
    let mut board = Board::new(1).unwrap();
    let guarded = LOC {
        cond: Some(mcsim::op::Condition(true)),
        lab: None,
        op: Some(Opcode::Add(RegImm::Imm(1))),
    };
    board.add_device(basic([(); 9].map(|_| guarded.clone())));
    assert_eq!(board.advance(), Ok(()));
    assert_eq!(acc(&board, 0), Some(0));
    assert!(board.force_condition(0, CondState::All));
    assert!(!board.force_condition(1, CondState::All));
    assert_eq!(board.advance(), Ok(()));
    assert_eq!(acc(&board, 0), Some(1));
    assert!(board.force_condition(0, CondState::Neither));
    assert_eq!(board.advance(), Ok(()));
    assert_eq!(acc(&board, 0), Some(1));
}
