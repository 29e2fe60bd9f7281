use mcsim::board::{Board, Controller, ErrorKind, SimError, Source};
use mcsim::device::{Device, Fault};
use mcsim::devices::mc::{MC4000, MC4000X, MC6000};
use mcsim::op::{Opcode, Pin, RegImm, Register, LOC};
use mcsim::validate::{can_load, can_store, flaw_of, vet};
use mcsim::wire::{Attachment, Protocol, SimpleIOWire, XBusWire};

fn line(op: Opcode) -> LOC {
    LOC { cond: None, lab: None, op: Some(op) }
}

fn program(first: Vec<Opcode>) -> [LOC; 9] {
    let mut code = [(); 9].map(|_| LOC { cond: None, lab: None, op: None });
    for (i, op) in first.into_iter().enumerate() {
        code[i] = line(op);
    }
    code
}

fn pin(p: Pin) -> RegImm {
    RegImm::Reg(Register::Pin(p))
}

/// A basic controller with P0 on a latched wire, X0 on a handshake wire,
/// P1 on a handshake wire, which does not fit, and X1 on a wire that is
/// not there.
fn wired(code: [LOC; 9]) -> (MC4000, Vec<Attachment>) {
    let wires = vec![
        Attachment::Latched(SimpleIOWire { value: 0 }),
        Attachment::Handshake(XBusWire::new(None)),
    ];
    let mut device = MC4000::new(code);
    device.set_pin(Pin::P0, 0).unwrap();
    device.set_pin(Pin::X0, 1).unwrap();
    device.set_pin(Pin::P1, 1).unwrap();
    device.set_pin(Pin::X1, 2).unwrap();
    (device, wires)
}

#[test]
fn what_can_be_read_does_not_depend_on_what_is_there() {
    let (device, wires) = wired(program(vec![]));
    assert!(can_load(&device, &wires, RegImm::Imm(1)));
    assert!(can_load(&device, &wires, RegImm::Reg(Register::Acc)));
    assert!(!can_load(&device, &wires, RegImm::Reg(Register::Dat)));
    assert!(can_load(&device, &wires, pin(Pin::P0)));
    // The slot is empty: a read would wait, but it can be served.
    assert!(can_load(&device, &wires, pin(Pin::X0)));
    assert!(!can_load(&device, &wires, pin(Pin::P1)));
    assert!(!can_load(&device, &wires, pin(Pin::X1)));
    assert!(!can_load(&device, &wires, pin(Pin::X2)));
}

#[test]
fn what_can_be_written_does_not_depend_on_what_is_there() {
    let (device, mut wires) = wired(program(vec![]));
    wires[1] = Attachment::Handshake(XBusWire::new(Some(3)));
    assert!(can_store(&device, &wires, Register::Acc));
    assert!(!can_store(&device, &wires, Register::Dat));
    assert!(can_store(&device, &wires, Register::Pin(Pin::P0)));
    // The slot is full: a write would wait, but it can be served.
    assert!(can_store(&device, &wires, Register::Pin(Pin::X0)));
    assert!(!can_store(&device, &wires, Register::Pin(Pin::P1)));
    assert!(!can_store(&device, &wires, Register::Pin(Pin::X1)));
    assert!(!can_store(&device, &wires, Register::Pin(Pin::X3)));
}

#[test]
fn flaws_of_operations() {
    let (device, wires) = wired(program(vec![]));
    let i = RegImm::Imm;
    let dat = RegImm::Reg(Register::Dat);
    let config = Some(Fault::Configuration);
    for (op, want) in [
        (Opcode::Nop, None),
        (Opcode::Not, None),
        (Opcode::MovReg(i(1), Register::Acc), None),
        (Opcode::MovReg(pin(Pin::X0), Register::Pin(Pin::P0)), None),
        (Opcode::MovReg(dat, Register::Acc), config),
        (Opcode::MovReg(i(1), Register::Dat), config),
        (Opcode::MovReg(i(1), Register::Pin(Pin::X1)), config),
        (Opcode::Jmp(0), None),
        (Opcode::Jmp(8), None),
        (Opcode::Jmp(9), Some(Fault::Execution)),
        (Opcode::Slp(i(-1)), None),
        (Opcode::Slp(pin(Pin::P1)), config),
        (Opcode::Add(pin(Pin::P0)), None),
        (Opcode::Add(dat), config),
        (Opcode::Sub(dat), config),
        (Opcode::Mul(dat), config),
        (Opcode::Dgt(dat), config),
        (Opcode::Dgt(i(77)), None),
        (Opcode::Dst(i(0), i(9)), None),
        (Opcode::Dst(i(0), i(0)), None),
        (Opcode::Dst(i(0), i(10)), config),
        (Opcode::Dst(i(0), i(-1)), config),
        (Opcode::Dst(i(0), pin(Pin::X0)), None),
        (Opcode::Dst(dat, i(1)), config),
        (Opcode::Dst(i(1), dat), config),
        (Opcode::Teq(i(1), i(2)), None),
        (Opcode::Teq(dat, i(2)), config),
        (Opcode::Tgt(i(1), dat), config),
        (Opcode::Tlt(pin(Pin::X2), i(2)), config),
        (Opcode::Tcp(pin(Pin::X0), pin(Pin::X0)), None),
    ] {
        assert_eq!(flaw_of(&device, &wires, op), want, "{:?}", op);
    }
}

#[test]
fn the_first_flawed_line_decides() {
    let (device, wires) = wired(program(vec![
        Opcode::Nop,
        Opcode::Add(RegImm::Imm(1)),
        Opcode::Jmp(200),
        Opcode::Add(RegImm::Reg(Register::Dat)),
    ]));
    assert_eq!(vet(&device, &wires), Some(Fault::Execution));
    let (device, wires) = wired(program(vec![
        Opcode::Add(RegImm::Reg(Register::Dat)),
        Opcode::Jmp(200),
    ]));
    assert_eq!(vet(&device, &wires), Some(Fault::Configuration));
    let (device, wires) = wired(program(vec![Opcode::Nop, Opcode::Jmp(8)]));
    assert_eq!(vet(&device, &wires), None);
    let (device, wires) = wired(program(vec![]));
    assert_eq!(vet(&device, &wires), None);
    // The last slot is looked at too.
    let mut code = program(vec![]);
    code[8] = line(Opcode::Jmp(9));
    let (device, wires) = wired(code);
    assert_eq!(vet(&device, &wires), Some(Fault::Execution));
}

#[test]
fn a_large_program_is_looked_over_to_its_end() {
    let mut code = [(); 15].map(|_| line(Opcode::MovReg(RegImm::Imm(1), Register::Dat)));
    let wires: Vec<Attachment> = Vec::new();
    assert_eq!(vet(&MC6000::new(code.clone()), &wires), None);
    code[14] = line(Opcode::Jmp(15));
    assert_eq!(vet(&MC6000::new(code), &wires), Some(Fault::Execution));
}

#[test]
fn a_board_is_looked_over_before_it_runs() {
    let mut board = Board::new(10).unwrap();
    board.add_device(Controller::Basic(MC4000::new(program(vec![
        Opcode::MovReg(RegImm::Imm(1), Register::Pin(Pin::X0)),
        Opcode::MovReg(pin(Pin::P0), Register::Acc),
    ]))));
    board.add_device(Controller::Extended(MC4000X::new(program(vec![Opcode::Add(pin(
        Pin::X3,
    ))]))));
    let flawed = |at| Err(SimError { kind: ErrorKind::Configuration, source: Source::Device(at) });
    // Nothing is wired yet.
    assert_eq!(board.validate(), flawed(0));
    board.connect((0, Pin::X0), (1, Pin::X0), Protocol::Handshake).unwrap();
    assert_eq!(board.validate(), flawed(0));
    board.connect((0, Pin::P0), (0, Pin::P1), Protocol::Latched).unwrap();
    assert_eq!(board.validate(), flawed(1));
    board.connect((1, Pin::X3), (1, Pin::X2), Protocol::Handshake).unwrap();
    assert_eq!(board.validate(), Ok(()));
}

#[test]
fn a_jump_out_of_the_program_is_found_before_it_runs() {
    let mut board = Board::new(10).unwrap();
    board.add_device(Controller::Basic(MC4000::new(program(vec![Opcode::Nop]))));
    board.add_device(Controller::Basic(MC4000::new(program(vec![
        Opcode::Slp(RegImm::Imm(100)),
        Opcode::Jmp(9),
    ]))));
    assert_eq!(
        board.validate(),
        Err(SimError { kind: ErrorKind::Execution, source: Source::Device(1) })
    );
    // Looking over changes nothing and does not end the simulation.
    assert_eq!(board.halted(), None);
    assert_eq!(board.advance(), Ok(()));
}

#[test]
fn a_sound_board_can_still_be_handed_a_bad_digit() {
    let mut board = Board::new(10).unwrap();
    board.add_device(Controller::Basic(MC4000::new(program(vec![
        Opcode::MovReg(RegImm::Imm(12), Register::Acc),
        Opcode::Dst(RegImm::Imm(0), RegImm::Reg(Register::Acc)),
    ]))));
    assert_eq!(board.validate(), Ok(()));
    assert_eq!(board.advance(), Ok(()));
    assert_eq!(
        board.advance(),
        Err(SimError { kind: ErrorKind::Configuration, source: Source::Device(0) })
    );
    assert_eq!(board.device(0).unwrap().get_pc(), 1);
}
