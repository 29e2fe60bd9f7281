//! The instruction set: pins, registers, operands, operations and lines of
//! code.

use vstd::prelude::*;

verus! {

/// A pin of a controller.  `P0` and `P1` carry the latched protocol, `X0` to
/// `X3` the handshake protocol.
#[derive(Copy, Clone, Debug, PartialEq, Eq, Hash, Structural)]
pub enum Pin {
    P0,
    P1,
    X0,
    X1,
    X2,
    X3,
}

/// A register that an operand can name.
#[derive(Copy, Clone, Debug, PartialEq, Eq, Hash, Structural)]
pub enum Register {
    /// The accumulator.
    Acc,
    /// The second register, which only the large controller has.
    Dat,
    /// A pin, which is read and written through the wire attached to it.
    Pin(Pin),
}

/// The name that a line of code can carry.
#[derive(Debug, PartialEq, Eq, Hash)]
pub struct Label(pub String);

impl Clone for Label {
    fn clone(&self) -> (r: Self)
        ensures
            r == *self,
    {
        Label(self.0.clone())
    }
}

/// The guard of a line: `true` for `+`, `false` for `-`.
#[derive(Copy, Clone, Debug, PartialEq, Eq, Hash, Structural)]
pub struct Condition(pub bool);

/// An operand: a register or an immediate value.
#[derive(Copy, Clone, Debug, PartialEq, Eq, Hash, Structural)]
pub enum RegImm {
    Reg(Register),
    Imm(i16),
}

/// An operation.
#[derive(Copy, Clone, Debug, PartialEq, Eq, Hash, Structural)]
pub enum Opcode {
    /// Does nothing.
    Nop,
    /// Moves the value of the operand to the register.
    MovReg(RegImm, Register),
    /// Goes on at the slot with this address.
    Jmp(u8),
    /// Sleeps for as many ticks as the operand says, for none where it is
    /// negative.
    Slp(RegImm),
    /// Adds the operand to the accumulator.
    Add(RegImm),
    /// Subtracts the operand from the accumulator.
    Sub(RegImm),
    /// Multiplies the accumulator by the operand.
    Mul(RegImm),
    /// Sets the accumulator to 100 where it is 0, and to 0 where it is not.
    Not,
    /// Sets the accumulator to its decimal digit at the place that the
    /// operand gives.
    Dgt(RegImm),
    /// Replaces the decimal digit of the accumulator at the place that the
    /// first operand gives by the second operand.
    Dst(RegImm, RegImm),
    /// Tests whether the first operand equals the second.
    Teq(RegImm, RegImm),
    /// Tests whether the first operand is greater than the second.
    Tgt(RegImm, RegImm),
    /// Tests whether the first operand is less than the second.
    Tlt(RegImm, RegImm),
    /// Compares the operands: `Plus` where the first is greater, `Minus`
    /// where it is less, and neither where they are equal.
    Tcp(RegImm, RegImm),
}

/// One line of code: an optional label, an optional guard and an optional
/// operation.  A line without an operation only occupies its slot.
#[derive(Debug, PartialEq, Eq, Hash)]
pub struct LOC {
    pub cond: Option<Condition>,
    pub lab: Option<Label>,
    pub op: Option<Opcode>,
}

impl Clone for LOC {
    fn clone(&self) -> (r: Self)
        ensures
            r == *self,
    {
        let lab = match &self.lab {
            Some(label) => Some(label.clone()),
            None => None,
        };
        LOC { cond: self.cond, lab, op: self.op }
    }
}

} // verus!
