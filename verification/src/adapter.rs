//! The engine as the capabilities need it: payloads of any length, and the
//! chip select signal as a line that is driven high or low.

use crate::channel::{lemma_run, Line};
use crate::driver::SPIDriver;
use crate::hal::{Comms, Parts};
use crate::mutex::NoOpMutex;
use crate::wire::{
    chunked_transfer_script, chunked_write_script, lemma_chunked_expected, transfer_script,
    write_script, Step, MAX_PAYLOAD,
};
use vstd::prelude::*;

verus! {

/// `SPIDriverHAL` is the entry point for the capabilities: it takes an
/// `SPIDriver` and is split into the parts that use it.
#[derive(Debug)]
pub struct SPIDriverHAL {
    sd: SPIDriver,
}

impl View for SPIDriverHAL {
    type V = Line;

    closed spec fn view(&self) -> Line {
        self.sd@
    }
}

impl SPIDriverHAL {
    /// Wraps the driver `sd`, with whatever it has pending.
    pub fn new(sd: SPIDriver) -> (hal: Self)
        ensures
            hal@ == sd@,
    {
        Self { sd: sd }
    }

    /// Hands the engine over to a bundle of parts.
    pub fn split(self) -> (parts: Parts<NoOpMutex<SPIDriverHAL>>)
        ensures
            parts.held() == self,
    {
        Parts::new(self)
    }

    /// The driver underneath, for whoever carries out what has been queued.
    pub fn driver(&mut self) -> (sd: &mut SPIDriver)
        ensures
            sd@ == old(self)@,
            final(self)@ == final(sd)@,
    {
        &mut self.sd
    }
}

impl Comms for SPIDriverHAL {
    open spec fn line(&self) -> Line {
        self@
    }

    fn set_cs(&mut self, high: bool) {
        if high {
            // the line is active low, so high means unselected
            self.sd.unselect()
        } else {
            self.sd.select()
        }
    }

    fn set_a(&mut self, active: bool) {
        self.sd.set_a(active)
    }

    fn set_b(&mut self, active: bool) {
        self.sd.set_b(active)
    }

    fn write(&mut self, data: &[u8]) {
        let mut remain = data;
        while remain.len() > 0
            invariant
                self@.reply == old(self)@.reply,
                self@.pending + chunked_write_script(remain@) == old(self)@.pending
                    + chunked_write_script(data@),
            decreases remain@.len(),
        {
            let len: usize = if remain.len() > MAX_PAYLOAD {
                MAX_PAYLOAD
            } else {
                remain.len()
            };
            let (this, next) = remain.split_at(len);
            let ghost before = self@.pending;
            self.sd.write_frame(this);
            proof {
                assert(this@ == remain@.take(len as int));
                assert(next@ == remain@.skip(len as int));
                assert(chunked_write_script(remain@) == write_script(this@)
                    + chunked_write_script(next@));
                assert(self@.pending + chunked_write_script(next@) =~= before
                    + chunked_write_script(remain@));
            }
            remain = next;
        }
        assert(self@.pending + Seq::<Step>::empty() =~= self@.pending);
    }

    fn transfer(&mut self, data: &[u8]) {
        let mut remain = data;
        while remain.len() > 0
            invariant
                self@.reply == old(self)@.reply,
                self@.pending + chunked_transfer_script(remain@) == old(self)@.pending
                    + chunked_transfer_script(data@),
            decreases remain@.len(),
        {
            let len: usize = if remain.len() > MAX_PAYLOAD {
                MAX_PAYLOAD
            } else {
                remain.len()
            };
            let (this, next) = remain.split_at(len);
            let ghost before = self@.pending;
            self.sd.transfer_frame(this);
            proof {
                assert(this@ == remain@.take(len as int));
                assert(next@ == remain@.skip(len as int));
                assert(chunked_transfer_script(remain@) == transfer_script(this@)
                    + chunked_transfer_script(next@));
                assert(self@.pending + chunked_transfer_script(next@) =~= before
                    + chunked_transfer_script(remain@));
            }
            remain = next;
        }
        assert(self@.pending + Seq::<Step>::empty() =~= self@.pending);
    }
}

/// A write of any length that goes through reads nothing and leaves nothing
/// pending. A transfer of any length that goes through reads exactly one
/// byte for each byte of the payload, so that the reply is as long as the
/// payload and holds what came back for every chunk, in order.
pub proof fn lemma_chunked_round_trip(payload: Seq<u8>, answers: Seq<u8>)
    requires
        answers.len() == payload.len(),
    ensures
        Line::idle().queue(chunked_write_script(payload)).run(Seq::empty()) == Line::idle(),
        Line::idle().queue(chunked_transfer_script(payload)).run(answers) == (Line {
            pending: Seq::empty(),
            reply: answers,
        }),
{
    lemma_chunked_expected(payload);
    let written = Line::idle().queue(chunked_write_script(payload));
    assert(written.pending =~= chunked_write_script(payload));
    lemma_run(written, Seq::empty());
    assert(written.reply + Seq::<u8>::empty() =~= Seq::<u8>::empty());
    let transferred = Line::idle().queue(chunked_transfer_script(payload));
    assert(transferred.pending =~= chunked_transfer_script(payload));
    lemma_run(transferred, answers);
    assert(transferred.reply + answers =~= answers);
}

} // verus!
