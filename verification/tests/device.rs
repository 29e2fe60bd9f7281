use mcsim::device::{exec, read_reg, regimm_to_imm, write_reg, Device, DeviceState};
use mcsim::devices::mc::MC4000;
use mcsim::op::{Opcode, Pin, RegImm, Register, LOC};
use mcsim::wire::{Attachment, SimpleIOWire, Wire, XBusWire};

fn blank() -> [LOC; 9] {
    [(); 9].map(|_| LOC { op: None, lab: None, cond: None })
}

#[test]
fn test_regimm_to_imm() {
    let mut wires: Vec<Attachment> = Vec::new();
    let mut device = MC4000::new(blank());
    device.set_acc(5).unwrap();
    assert_eq!(regimm_to_imm(&mut device, &mut wires, RegImm::Imm(3)), Ok(Some(3)));
    assert_eq!(
        regimm_to_imm(&mut device, &mut wires, RegImm::Reg(Register::Acc)),
        Ok(Some(5))
    );
}

#[test]
fn test_read_reg() {
    let siowire = Attachment::Latched(SimpleIOWire { value: 4 });
    let xbwire = Attachment::Handshake(XBusWire::new(Some(7)));
    let mut wires = vec![siowire, xbwire];
    let mut device = MC4000::new(blank());
    device.set_pin(Pin::P0, 0).unwrap();
    device.set_pin(Pin::X0, 1).unwrap();
    device.set_acc(5).unwrap();
    assert_eq!(read_reg(&mut device, &mut wires, Register::Acc), Ok(Some(5)));
    assert_eq!(read_reg(&mut device, &mut wires, Register::Pin(Pin::P0)), Ok(Some(4)));
    assert_eq!(read_reg(&mut device, &mut wires, Register::Pin(Pin::X0)), Ok(Some(7)));
}

#[test]
fn test_write_reg() {
    let siowire = Attachment::Latched(SimpleIOWire { value: 4 });
    let xbwire = Attachment::Handshake(XBusWire::new(Some(7)));
    let mut wires = vec![siowire, xbwire];
    let mut device = MC4000::new(blank());
    device.set_pin(Pin::P0, 0).unwrap();
    device.set_pin(Pin::X0, 1).unwrap();
    write_reg(&mut device, &mut wires, Register::Acc, 5).unwrap();
    write_reg(&mut device, &mut wires, Register::Pin(Pin::P0), 5).unwrap();
    // The slot of the handshake wire is full: the write waits and the value
    // that was there stays.
    let taken = write_reg(&mut device, &mut wires, Register::Pin(Pin::X0), 5).unwrap();
    assert_eq!(device.get_acc(), Some(5));
    assert_eq!(wires[0].get(), Some(5));
    assert_eq!((taken, device.get_state(), wires[1].get()), (false, DeviceState::Write, Some(7)));
}

// opcode tests
#[test]
fn test_nop() {
    let mut wires: Vec<Attachment> = Vec::new();
    let mut device =
        MC4000::new([(); 9].map(|_| LOC { op: Some(Opcode::Nop), lab: None, cond: None }));
    let loc = device.get_loc().unwrap();
    exec(loc, &mut device, &mut wires).unwrap();
    assert_eq!(device.get_pc(), 1);
}

#[test]
fn test_movreg() {
    let mut wires = vec![Attachment::Latched(SimpleIOWire { value: 4 })];
    let mut device = MC4000::new([0, 1, 2, 3, 4, 5, 6, 7, 8].map(|i| LOC {
        op: Some(Opcode::MovReg(RegImm::Imm(i), Register::Acc)),
        lab: None,
        cond: None,
    }));
    device.set_pin(Pin::P0, 0).unwrap();

    let loc = device.get_loc().unwrap();
    exec(loc, &mut device, &mut wires).unwrap();
    assert_eq!(device.get_pc(), 1);
    assert_eq!(device.get_acc(), Some(0));

    let loc = device.get_loc().unwrap();
    exec(loc, &mut device, &mut wires).unwrap();
    assert_eq!(device.get_pc(), 2);
    assert_eq!(device.get_acc(), Some(1));

    let loc = device.get_loc().unwrap();
    exec(loc, &mut device, &mut wires).unwrap();
    assert_eq!(device.get_pc(), 3);
    assert_eq!(device.get_acc(), Some(2));

    let loc = device.get_loc().unwrap();
    exec(loc, &mut device, &mut wires).unwrap();
    assert_eq!(device.get_pc(), 4);
    assert_eq!(device.get_acc(), Some(3));

    let loc = device.get_loc().unwrap();
    exec(loc, &mut device, &mut wires).unwrap();
    assert_eq!(device.get_pc(), 5);
    assert_eq!(device.get_acc(), Some(4));

    let loc = device.get_loc().unwrap();
    exec(loc, &mut device, &mut wires).unwrap();
    assert_eq!(device.get_pc(), 6);
    assert_eq!(device.get_acc(), Some(5));

    let loc = device.get_loc().unwrap();
    exec(loc, &mut device, &mut wires).unwrap();
    assert_eq!(device.get_pc(), 7);
    assert_eq!(device.get_acc(), Some(6));

    let loc = device.get_loc().unwrap();
    exec(loc, &mut device, &mut wires).unwrap();
    assert_eq!(device.get_pc(), 8);
    assert_eq!(device.get_acc(), Some(7));

    let loc = device.get_loc().unwrap();
    exec(loc, &mut device, &mut wires).unwrap();
    assert_eq!(device.get_pc(), 0);
    assert_eq!(device.get_acc(), Some(8));
}
