//! A tick-driven simulator of small programmable controllers wired together
//! on a board.
//!
//! Each controller runs a program of a few lines in a tiny assembly
//! language, at most one line per tick, and talks to its neighbours through
//! wires attached to its pins.  A board steps its controllers in the order
//! in which they were added, lets its wires age, and counts the tick.
//!
//! Every executable function carries a contract over a mathematical model
//! of the machine, and Verus proves that the function meets it.  The models
//! are `device::Machine` for a controller and `board::Circuit` for a board;
//! `Machine::step` and `Circuit::advance` say what a tick does.
//!
//! The rules that the contracts fix:
//!
//! - Arithmetic on the accumulator wraps to sixteen bits.
//! - A latched wire hands out the value that was written last, at once.  A
//!   handshake wire serves a controller by what its slot held when the tick
//!   began: a value is read in the tick after its write at the earliest, and
//!   a slot is filled again in the tick after its read at the earliest.
//! - A line is run as a whole or not at all.  A line that has to wait for a
//!   wire is tried again in the next tick.
//! - The program counter moves to the next slot when a line is done.  A
//!   jump sets it; `slp` holds it until the controller wakes.
//! - A fatal condition ends the simulation for good.
//!
//! The modules: `op` holds the instruction set and `lex` its written form,
//! `digits` the arithmetic, `wire` the two kinds of wire, `code` the
//! program store, `device` the model of a controller and the execution of
//! a line, `devices::mc` the three controllers, `validate` the look over a
//! program before it runs, and `board` the board.

pub mod board;
pub mod code;
pub mod device;
pub mod devices;
pub mod digits;
pub mod lex;
pub mod op;
pub mod validate;
pub mod wire;
