//! The four capabilities of the adapter: the SPI bus, the chip select line,
//! and the two auxiliary pins.
//!
//! All four work on one engine. `Parts` owns it and lends it to one
//! capability at a time, so that two of them can never be at work at once.

use crate::channel::Line;
use crate::mutex::Mutex;
use crate::wire::{
    chunked_transfer_script, chunked_write_script, cs_script, pin_script, select_script,
    unselect_script, PIN_A, PIN_B,
};
use vstd::prelude::*;

verus! {

/// What the capabilities ask of the engine behind them. Each request is
/// queued behind whatever the engine still has pending.
pub trait Comms {
    /// The conversation of the engine with the adapter.
    spec fn line(&self) -> Line;

    /// Drives the chip select line high or low. The line is active when it
    /// is low.
    fn set_cs(&mut self, high: bool)
        ensures
            final(self).line() == old(self).line().queue(cs_script(high)),
    ;

    /// Sets the active state of auxiliary pin A.
    fn set_a(&mut self, active: bool)
        ensures
            final(self).line() == old(self).line().queue(pin_script(PIN_A, active)),
    ;

    /// Sets the active state of auxiliary pin B.
    fn set_b(&mut self, active: bool)
        ensures
            final(self).line() == old(self).line().queue(pin_script(PIN_B, active)),
    ;

    /// Writes a payload of any length, in chunks of at most 64 bytes.
    fn write(&mut self, data: &[u8])
        ensures
            final(self).line() == old(self).line().queue(chunked_write_script(data@)),
    ;

    /// Transfers a payload of any length, in chunks of at most 64 bytes. One
    /// byte comes back for each byte of the payload, in order.
    fn transfer(&mut self, data: &[u8])
        ensures
            final(self).line() == old(self).line().queue(chunked_transfer_script(data@)),
    ;
}

/// `Parts` is a container for the various parts of a SPIDriver that can be
/// used separately.
///
/// It keeps the engine under a mutex and lends it to one part at a time:
/// each part borrows the whole container for as long as it lives.
pub struct Parts<MUT: Mutex> where MUT::Target: Comms {
    m: MUT,
}

impl<MUT: Mutex> Parts<MUT> where MUT::Target: Comms {
    /// The engine that the parts work on.
    pub closed spec fn held(&self) -> MUT::Target {
        self.m.held()
    }

    /// Puts the engine `sd` behind a mutex of its own.
    pub(crate) fn new(sd: MUT::Target) -> (parts: Self)
        ensures
            parts.held() == sd,
    {
        let m = MUT::wrap(sd);
        Self { m: m }
    }

    /// The SPI bus of the adapter.
    pub fn spi(&mut self) -> (part: SPI<'_, MUT::Target>)
        ensures
            *part.sd == old(self).held(),
            final(self).held() == *final(part.sd),
    {
        SPI::new(self.m.borrow())
    }

    /// The chip select line of the adapter.
    pub fn cs(&mut self) -> (part: CS<'_, MUT::Target>)
        ensures
            *part.sd == old(self).held(),
            final(self).held() == *final(part.sd),
    {
        CS::new(self.m.borrow())
    }

    /// Auxiliary pin A of the adapter.
    pub fn pin_a(&mut self) -> (part: PinA<'_, MUT::Target>)
        ensures
            *part.sd == old(self).held(),
            final(self).held() == *final(part.sd),
    {
        PinA::new(self.m.borrow())
    }

    /// Auxiliary pin B of the adapter.
    pub fn pin_b(&mut self) -> (part: PinB<'_, MUT::Target>)
        ensures
            *part.sd == old(self).held(),
            final(self).held() == *final(part.sd),
    {
        PinB::new(self.m.borrow())
    }

    /// The engine itself, for whoever carries out what the parts have
    /// queued.
    pub fn device(&mut self) -> (sd: &mut MUT::Target)
        ensures
            *sd == old(self).held(),
            final(self).held() == *final(sd),
    {
        self.m.borrow()
    }
}

/// `SPI` is the SPI bus of an SPIDriver device.
pub struct SPI<'a, SD: Comms> {
    /// The engine, borrowed for as long as this part lives. The field is
    /// public so that contracts can speak of what the borrow gives back.
    pub sd: &'a mut SD,
}

impl<'a, SD: Comms> SPI<'a, SD> {
    /// The SPI bus of the engine `sd`.
    fn new(sd: &'a mut SD) -> (part: Self)
        ensures
            *part.sd == *old(sd),
            *final(part.sd) == *final(sd),
    {
        Self { sd: sd }
    }

    /// Sends out `data`, however long, and asks for as many bytes back,
    /// which become the reply.
    pub fn transfer(&mut self, data: &[u8])
        ensures
            final(self).sd.line() == old(self).sd.line().queue(chunked_transfer_script(data@)),
            *final(final(self).sd) == *final(old(self).sd),
    {
        self.sd.transfer(data)
    }

    /// Sends out `data`, however long.
    pub fn write(&mut self, data: &[u8])
        ensures
            final(self).sd.line() == old(self).sd.line().queue(chunked_write_script(data@)),
            *final(final(self).sd) == *final(old(self).sd),
    {
        self.sd.write(data)
    }
}

/// `CS` is the Chip Select pin of an SPIDriver device.
pub struct CS<'a, SD: Comms> {
    /// The engine, borrowed for as long as this part lives. The field is
    /// public so that contracts can speak of what the borrow gives back.
    pub sd: &'a mut SD,
}

impl<'a, SD: Comms> CS<'a, SD> {
    /// The chip select line of the engine `sd`.
    fn new(sd: &'a mut SD) -> (part: Self)
        ensures
            *part.sd == *old(sd),
            *final(part.sd) == *final(sd),
    {
        Self { sd: sd }
    }

    /// Drives the line low, which selects the target chip.
    pub fn set_low(&mut self)
        ensures
            final(self).sd.line() == old(self).sd.line().queue(select_script()),
            *final(final(self).sd) == *final(old(self).sd),
    {
        self.sd.set_cs(false)
    }

    /// Drives the line high, which releases the target chip.
    pub fn set_high(&mut self)
        ensures
            final(self).sd.line() == old(self).sd.line().queue(unselect_script()),
            *final(final(self).sd) == *final(old(self).sd),
    {
        self.sd.set_cs(true)
    }
}

/// `PinA` is the auxiliary output pin A of an SPIDriver device.
pub struct PinA<'a, SD: Comms> {
    /// The engine, borrowed for as long as this part lives. The field is
    /// public so that contracts can speak of what the borrow gives back.
    pub sd: &'a mut SD,
}

impl<'a, SD: Comms> PinA<'a, SD> {
    /// Pin A of the engine `sd`.
    fn new(sd: &'a mut SD) -> (part: Self)
        ensures
            *part.sd == *old(sd),
            *final(part.sd) == *final(sd),
    {
        Self { sd: sd }
    }

    /// Makes the pin inactive.
    pub fn set_low(&mut self)
        ensures
            final(self).sd.line() == old(self).sd.line().queue(pin_script(PIN_A, false)),
            *final(final(self).sd) == *final(old(self).sd),
    {
        self.sd.set_a(false)
    }

    /// Makes the pin active.
    pub fn set_high(&mut self)
        ensures
            final(self).sd.line() == old(self).sd.line().queue(pin_script(PIN_A, true)),
            *final(final(self).sd) == *final(old(self).sd),
    {
        self.sd.set_a(true)
    }
}

/// `PinB` is the auxiliary output pin B of an SPIDriver device.
pub struct PinB<'a, SD: Comms> {
    /// The engine, borrowed for as long as this part lives. The field is
    /// public so that contracts can speak of what the borrow gives back.
    pub sd: &'a mut SD,
}

impl<'a, SD: Comms> PinB<'a, SD> {
    /// Pin B of the engine `sd`.
    fn new(sd: &'a mut SD) -> (part: Self)
        ensures
            *part.sd == *old(sd),
            *final(part.sd) == *final(sd),
    {
        Self { sd: sd }
    }

    /// Makes the pin inactive.
    pub fn set_low(&mut self)
        ensures
            final(self).sd.line() == old(self).sd.line().queue(pin_script(PIN_B, false)),
            *final(final(self).sd) == *final(old(self).sd),
    {
        self.sd.set_b(false)
    }

    /// Makes the pin active.
    pub fn set_high(&mut self)
        ensures
            final(self).sd.line() == old(self).sd.line().queue(pin_script(PIN_B, true)),
            *final(final(self).sd) == *final(old(self).sd),
    {
        self.sd.set_b(true)
    }
}

/// Driving the chip select line low puts on the serial line what `select`
/// puts there, and driving it high what `unselect` puts there.
pub proof fn lemma_cs_matches_select(line: Line)
    ensures
        line.queue(cs_script(false)) == line.queue(select_script()),
        line.queue(cs_script(true)) == line.queue(unselect_script()),
{
}

} // verus!
