//! Wires: the channels between the pins of two controllers.
//!
//! A latched wire holds a value that can always be read and written.  A
//! handshake wire holds at most one value in its slot: a write fills the
//! slot, a read empties it, and a value that waits too long jams the wire.

use vstd::prelude::*;
use crate::op::Pin;

verus! {

/// The number of ticks that a value may wait in the slot of a handshake wire
/// and still be aged.
pub const TIMEOUT: u8 = 10;

/// A value has waited in the slot of a handshake wire beyond the timeout.
#[derive(Copy, Clone, Debug, PartialEq, Eq, Structural)]
pub struct Jammed;

/// The two protocols.
#[derive(Copy, Clone, Debug, PartialEq, Eq, Structural)]
pub enum Protocol {
    Latched,
    Handshake,
}

/// The protocol that a pin speaks: latched on the `P` pins, handshake on the
/// `X` pins.
pub open spec fn protocol_of(pin: Pin) -> Protocol {
    match pin {
        Pin::P0 | Pin::P1 => Protocol::Latched,
        _ => Protocol::Handshake,
    }
}

/// The protocol that `pin` speaks.
pub fn pin_protocol(pin: Pin) -> (p: Protocol)
    ensures
        p == protocol_of(pin),
{
    match pin {
        Pin::P0 | Pin::P1 => Protocol::Latched,
        _ => Protocol::Handshake,
    }
}

/// What every wire offers: a read, a write and the passing of a tick.
pub trait Wire: Sized {
    /// The value that a read hands out now; `None` where a read finds
    /// nothing.
    spec fn readable(&self) -> Option<i16>;

    /// The wire as a read leaves it.
    spec fn after_get(&self) -> Self;

    /// Whether a write is taken now.
    spec fn writable(&self) -> bool;

    /// The wire as a write of `value` that was taken leaves it.
    spec fn after_push(&self, value: i16) -> Self;

    /// Whether the wire is jammed: the next tick does not pass.
    spec fn jammed(&self) -> bool;

    /// The wire as a tick that passed leaves it.
    spec fn after_step(&self) -> Self;

    /// Reads the wire.
    fn get(&mut self) -> (r: Option<i16>)
        ensures
            r == old(self).readable(),
            *final(self) == old(self).after_get(),
    ;

    /// Writes `value` to the wire; `false`, and nothing changes, where the
    /// write is not taken.
    fn push(&mut self, value: i16) -> (taken: bool)
        ensures
            taken == old(self).writable(),
            taken ==> *final(self) == old(self).after_push(value),
            !taken ==> *final(self) == *old(self),
    ;

    /// Lets one tick pass; an error, and nothing changes, where the wire is
    /// jammed.
    fn step(&mut self) -> (r: Result<(), Jammed>)
        ensures
            r is Err <==> old(self).jammed(),
            r is Ok ==> *final(self) == old(self).after_step(),
            r is Err ==> *final(self) == *old(self),
    ;
}

/// A latched wire.
#[derive(Copy, Clone, Debug, PartialEq, Eq, Structural)]
pub struct SimpleIOWire {
    /// The value that was written last.
    pub value: i16,
}

impl Wire for SimpleIOWire {
    open spec fn readable(&self) -> Option<i16> {
        Some(self.value)
    }

    open spec fn after_get(&self) -> Self {
        *self
    }

    open spec fn writable(&self) -> bool {
        true
    }

    open spec fn after_push(&self, value: i16) -> Self {
        SimpleIOWire { value }
    }

    open spec fn jammed(&self) -> bool {
        false
    }

    open spec fn after_step(&self) -> Self {
        *self
    }

    fn get(&mut self) -> (r: Option<i16>) {
        Some(self.value)
    }

    fn push(&mut self, value: i16) -> (taken: bool) {
        self.value = value;
        true
    }

    fn step(&mut self) -> (r: Result<(), Jammed>) {
        Ok(())
    }
}

/// A handshake wire.
#[derive(Copy, Clone, Debug, PartialEq, Eq, Structural)]
pub struct XBusWire {
    /// The value that waits in the slot.
    pub value: Option<i16>,
    /// The number of ticks that the value has waited.
    pub timeout: u8,
    /// Whether the slot was full when the last tick passed.  Within a tick a
    /// controller is served by what the slot held when the tick began.
    pub held: bool,
}

impl XBusWire {
    /// A wire with `value` in its slot, as it stands when a tick begins.
    pub fn new(value: Option<i16>) -> (w: Self)
        ensures
            w == (XBusWire { value, timeout: 0, held: value is Some }),
    {
        XBusWire { value, timeout: 0, held: value.is_some() }
    }

    /// Whether a controller's read is served in this tick: the slot was full
    /// when the tick began and has not been emptied since.
    pub open spec fn serves_read(&self) -> bool {
        self.held && self.value is Some
    }

    /// Whether a controller's write is served in this tick: the slot was
    /// empty when the tick began and has not been filled since.
    pub open spec fn serves_write(&self) -> bool {
        !self.held && self.value is None
    }
}

impl Wire for XBusWire {
    open spec fn readable(&self) -> Option<i16> {
        self.value
    }

    open spec fn after_get(&self) -> Self {
        XBusWire { value: None, timeout: self.timeout, held: self.held }
    }

    open spec fn writable(&self) -> bool {
        self.value is None
    }

    open spec fn after_push(&self, value: i16) -> Self {
        XBusWire { value: Some(value), timeout: 0, held: self.held }
    }

    open spec fn jammed(&self) -> bool {
        self.value is Some && self.timeout > TIMEOUT
    }

    open spec fn after_step(&self) -> Self {
        XBusWire {
            value: self.value,
            timeout: if self.value is Some {
                (self.timeout + 1) as u8
            } else {
                self.timeout
            },
            held: self.value is Some,
        }
    }

    fn get(&mut self) -> (r: Option<i16>) {
        let r = self.value;
        self.value = None;
        r
    }

    fn push(&mut self, value: i16) -> (taken: bool) {
        if self.value.is_some() {
            false
        } else {
            self.value = Some(value);
            self.timeout = 0;
            true
        }
    }

    fn step(&mut self) -> (r: Result<(), Jammed>) {
        if self.value.is_some() {
            if self.timeout > TIMEOUT {
                return Err(Jammed);
            }
            self.timeout = self.timeout + 1;
        }
        self.held = self.value.is_some();
        Ok(())
    }
}

/// The handshake wire `w` after `ticks` ticks in which nobody reads or
/// writes it; `None` where one of those ticks found the wire jammed.
pub open spec fn aged(w: XBusWire, ticks: nat) -> Option<XBusWire>
    decreases ticks,
{
    if ticks == 0 {
        Some(w)
    } else {
        match aged(w, (ticks - 1) as nat) {
            Some(v) => if v.jammed() {
                None
            } else {
                Some(v.after_step())
            },
            None => None,
        }
    }
}

/// A read of a latched wire always hands out the stored value and leaves the
/// wire as it was, so a second read hands out the same value.
pub proof fn lemma_latched_read_is_pure(w: SimpleIOWire)
    ensures
        w.readable() == Some(w.value),
        w.after_get() == w,
        w.after_get().readable() == w.readable(),
{
}

/// A write to an empty handshake wire is taken; the read that follows hands
/// out exactly the written value and empties the slot, and a second read
/// finds nothing.
pub proof fn lemma_handshake_write_then_read(w: XBusWire, v: i16)
    requires
        w.value is None,
    ensures
        w.writable(),
        w.after_push(v).readable() == Some(v),
        w.after_push(v).after_get().value is None,
        w.after_push(v).after_get().readable() is None,
{
}

/// A write to a handshake wire whose slot is full is not taken.
pub proof fn lemma_handshake_full_slot_refuses(w: XBusWire)
    requires
        w.value is Some,
    ensures
        !w.writable(),
{
}

/// A value that has waited for exactly the timeout is aged once more; one
/// that has waited longer jams the wire.
pub proof fn lemma_jam_threshold(w: XBusWire)
    requires
        w.value is Some,
    ensures
        w.timeout <= TIMEOUT ==> !w.jammed() && w.after_step().timeout == w.timeout + 1,
        w.timeout > TIMEOUT ==> w.jammed(),
{
}

/// A value that is written and then left alone is aged by every tick up to
/// the one after the timeout, and the tick after that finds the wire jammed.
pub proof fn lemma_unread_value_jams(w: XBusWire, ticks: nat)
    requires
        w.value is Some,
        w.timeout == 0,
    ensures
        ticks <= TIMEOUT + 1 ==> aged(w, ticks) == Some(
            XBusWire { value: w.value, timeout: ticks as u8, held: ticks > 0 || w.held },
        ),
        ticks > TIMEOUT + 1 ==> aged(w, ticks) is None,
    decreases ticks,
{
    if ticks > 0 {
        lemma_unread_value_jams(w, (ticks - 1) as nat);
    }
}

/// An empty handshake wire never jams.
pub proof fn lemma_empty_wire_never_jams(w: XBusWire, ticks: nat)
    requires
        w.value is None,
    ensures
        aged(w, ticks) is Some,
        aged(w, ticks).unwrap().value is None,
    decreases ticks,
{
    if ticks > 0 {
        lemma_empty_wire_never_jams(w, (ticks - 1) as nat);
    }
}

/// A wire of either protocol.
#[derive(Copy, Clone, Debug, PartialEq, Eq, Structural)]
pub enum Attachment {
    Latched(SimpleIOWire),
    Handshake(XBusWire),
}

impl Attachment {
    /// Whether a value is there to be read: always on a latched wire, and
    /// on a handshake wire while its slot is full.
    pub fn pending(&self) -> (r: bool)
        ensures
            r == self.readable() is Some,
    {
        match self {
            Attachment::Latched(_) => true,
            Attachment::Handshake(w) => w.value.is_some(),
        }
    }

    /// The number of ticks that the value in the slot of a handshake wire
    /// has waited; 0 on a latched wire, where nothing waits.
    pub fn waited(&self) -> (r: u8)
        ensures
            r == match self {
                Attachment::Latched(_) => 0u8,
                Attachment::Handshake(w) => w.timeout,
            },
    {
        match self {
            Attachment::Latched(_) => 0,
            Attachment::Handshake(w) => w.timeout,
        }
    }

    /// The protocol of the wire.
    pub open spec fn protocol(&self) -> Protocol {
        match self {
            Attachment::Latched(_) => Protocol::Latched,
            Attachment::Handshake(_) => Protocol::Handshake,
        }
    }

    /// The protocol of the wire.
    pub fn get_protocol(&self) -> (p: Protocol)
        ensures
            p == self.protocol(),
    {
        match self {
            Attachment::Latched(_) => Protocol::Latched,
            Attachment::Handshake(_) => Protocol::Handshake,
        }
    }
}

impl Wire for Attachment {
    open spec fn readable(&self) -> Option<i16> {
        match self {
            Attachment::Latched(w) => w.readable(),
            Attachment::Handshake(w) => w.readable(),
        }
    }

    open spec fn after_get(&self) -> Self {
        match self {
            Attachment::Latched(w) => Attachment::Latched(w.after_get()),
            Attachment::Handshake(w) => Attachment::Handshake(w.after_get()),
        }
    }

    open spec fn writable(&self) -> bool {
        match self {
            Attachment::Latched(w) => w.writable(),
            Attachment::Handshake(w) => w.writable(),
        }
    }

    open spec fn after_push(&self, value: i16) -> Self {
        match self {
            Attachment::Latched(w) => Attachment::Latched(w.after_push(value)),
            Attachment::Handshake(w) => Attachment::Handshake(w.after_push(value)),
        }
    }

    open spec fn jammed(&self) -> bool {
        match self {
            Attachment::Latched(w) => w.jammed(),
            Attachment::Handshake(w) => w.jammed(),
        }
    }

    open spec fn after_step(&self) -> Self {
        match self {
            Attachment::Latched(w) => Attachment::Latched(w.after_step()),
            Attachment::Handshake(w) => Attachment::Handshake(w.after_step()),
        }
    }

    fn get(&mut self) -> (r: Option<i16>) {
        match self {
            Attachment::Latched(w) => w.get(),
            Attachment::Handshake(w) => w.get(),
        }
    }

    fn push(&mut self, value: i16) -> (taken: bool) {
        match self {
            Attachment::Latched(w) => w.push(value),
            Attachment::Handshake(w) => w.push(value),
        }
    }

    fn step(&mut self) -> (r: Result<(), Jammed>) {
        match self {
            Attachment::Latched(w) => w.step(),
            Attachment::Handshake(w) => w.step(),
        }
    }
}

} // verus!
