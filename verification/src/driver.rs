//! The protocol engine: one method for each command of the adapter.

use crate::channel::{lemma_run, overwritten, Channel, Line};
use crate::error::Error;
use crate::wire::{
    disconnect_script, echo_script, expected, header, lemma_transfer_script, pin_script,
    receives, select_script, sends, transfer_frame, transfer_script, unselect_script,
    write_frame, write_script, Event, Step, ACTIVE, DISCONNECT, ECHO, INACTIVE, MAX_PAYLOAD,
    PIN_A, PIN_B, SELECT, TRANSFER_BASE, UNSELECT, WRITE_BASE,
};
use vstd::prelude::*;

verus! {

/// `SPIDriver` represents a connected SPIDriver device.
///
/// Each command queues the steps that carry it out on the serial line, behind
/// whatever is still pending, so that commands reach the adapter whole and in
/// the order in which they were given. `next_step` and `advance` then walk
/// through the queue.
#[derive(Debug)]
pub struct SPIDriver {
    ch: Channel,
}

impl View for SPIDriver {
    type V = Line;

    closed spec fn view(&self) -> Line {
        self.ch@
    }
}

impl SPIDriver {
    /// A driver with nothing to do and nothing read.
    pub fn new() -> (sd: Self)
        ensures
            sd@ == Line::idle(),
    {
        SPIDriver { ch: Channel::new() }
    }

    /// Queues the control byte of a frame of the family that starts at
    /// `base`, and then the payload.
    fn frame(&mut self, base: u8, data: &[u8])
        requires
            1 <= data@.len() <= MAX_PAYLOAD,
            1 <= base <= 0xc0,
        ensures
            final(self)@ == old(self)@.queue(
                seq![Step::Send(header(base, data@.len()))] + sends(data@),
            ),
    {
        let len: u8 = data.len() as u8;
        self.ch.write(base - 1 + len);
        let mut i: usize = 0;
        while i < data.len()
            invariant
                i <= data@.len(),
                self@ == old(self)@.queue(
                    seq![Step::Send(header(base, data@.len()))] + sends(data@.take(i as int)),
                ),
            decreases data@.len() - i,
        {
            self.ch.write(data[i]);
            proof {
                let head = seq![Step::Send(header(base, data@.len()))];
                assert(sends(data@.take(i as int)) + seq![Step::Send(data@[i as int])] =~= sends(
                    data@.take(i + 1),
                ));
                assert(self@.pending =~= old(self)@.pending + (head + sends(data@.take(i + 1))));
            }
            i += 1;
        }
        assert(data@.take(data@.len() as int) =~= data@);
    }

    /// Queues one write frame for a payload of 1 to 64 bytes.
    pub(crate) fn write_frame(&mut self, data: &[u8])
        requires
            1 <= data@.len() <= MAX_PAYLOAD,
        ensures
            final(self)@ == old(self)@.queue(write_frame(data@)),
    {
        self.frame(WRITE_BASE, data);
    }

    /// Queues one transfer frame for a payload of 1 to 64 bytes.
    pub(crate) fn transfer_frame(&mut self, data: &[u8])
        requires
            1 <= data@.len() <= MAX_PAYLOAD,
        ensures
            final(self)@ == old(self)@.queue(transfer_frame(data@)),
    {
        self.frame(TRANSFER_BASE, data);
        let mut i: usize = 0;
        while i < data.len()
            invariant
                i <= data@.len(),
                self@ == old(self)@.queue(
                    seq![Step::Send(header(TRANSFER_BASE, data@.len()))] + sends(data@)
                        + receives(i as nat),
                ),
            decreases data@.len() - i,
        {
            self.ch.read();
            proof {
                assert(receives(i as nat) + seq![Step::Receive] =~= receives((i + 1) as nat));
                assert(self@.pending =~= old(self)@.pending + (seq![
                    Step::Send(header(TRANSFER_BASE, data@.len())),
                ] + sends(data@) + receives((i + 1) as nat)));
            }
            i += 1;
        }
    }

    /// `transfer` sends up to 64 bytes out over the SPIDriver's MOSI line and
    /// asks for as many bytes back as it sends, which become the reply.
    ///
    /// An empty payload queues nothing. A payload of more than 64 bytes is
    /// refused with the `Request` error, and nothing is queued.
    pub fn transfer<TXErr, RXErr>(&mut self, data: &[u8]) -> (result: Result<
        (),
        Error<TXErr, RXErr>,
    >)
        ensures
            data@.len() <= MAX_PAYLOAD ==> result == Ok::<(), Error<TXErr, RXErr>>(())
                && final(self)@ == old(self)@.queue(transfer_script(data@)),
            data@.len() > MAX_PAYLOAD ==> result == Err::<(), Error<TXErr, RXErr>>(
                Error::Request,
            ) && final(self)@ == old(self)@,
    {
        if data.len() == 0 {
            assert(self@.pending + Seq::<Step>::empty() =~= self@.pending);
            return Ok(());
        }
        if data.len() > MAX_PAYLOAD {
            return Err(Error::Request);
        }
        self.transfer_frame(data);
        Ok(())
    }

    /// `write` sends up to 64 bytes out over the SPIDriver's MOSI line.
    ///
    /// An empty payload queues nothing. A payload of more than 64 bytes is
    /// refused with the `Request` error, and nothing is queued.
    pub fn write<TXErr, RXErr>(&mut self, data: &[u8]) -> (result: Result<
        (),
        Error<TXErr, RXErr>,
    >)
        ensures
            data@.len() <= MAX_PAYLOAD ==> result == Ok::<(), Error<TXErr, RXErr>>(())
                && final(self)@ == old(self)@.queue(write_script(data@)),
            data@.len() > MAX_PAYLOAD ==> result == Err::<(), Error<TXErr, RXErr>>(
                Error::Request,
            ) && final(self)@ == old(self)@,
    {
        if data.len() == 0 {
            assert(self@.pending + Seq::<Step>::empty() =~= self@.pending);
            return Ok(());
        }
        if data.len() > MAX_PAYLOAD {
            return Err(Error::Request);
        }
        self.write_frame(data);
        Ok(())
    }

    /// Queues the command byte `pin`, the digit for `active`, and a flush.
    fn set_pin(&mut self, pin: u8, active: bool)
        ensures
            final(self)@ == old(self)@.queue(pin_script(pin, active)),
    {
        self.ch.write(pin);
        if active {
            self.ch.write(ACTIVE);
        } else {
            self.ch.write(INACTIVE);
        }
        self.ch.flush();
        assert(self@.pending =~= old(self)@.pending + pin_script(pin, active));
    }

    /// `set_a` sets the active state of the auxiliary "A" pin on the
    /// SPIDriver.
    pub fn set_a(&mut self, active: bool)
        ensures
            final(self)@ == old(self)@.queue(pin_script(PIN_A, active)),
    {
        self.set_pin(PIN_A, active);
    }

    /// `set_b` sets the active state of the auxiliary "B" pin on the
    /// SPIDriver.
    pub fn set_b(&mut self, active: bool)
        ensures
            final(self)@ == old(self)@.queue(pin_script(PIN_B, active)),
    {
        self.set_pin(PIN_B, active);
    }

    /// `echo` asks the SPIDriver to echo back the given character, which
    /// becomes the reply.
    ///
    /// This method can be useful for detecting whether the remote device on
    /// the serial line is actually a SPIDriver: ask it to echo back a few
    /// bytes and verify that it does.
    pub fn echo(&mut self, ch: u8)
        ensures
            final(self)@ == old(self)@.queue(echo_script(ch)),
    {
        self.ch.write(ECHO);
        self.ch.write(ch);
        self.ch.flush();
        self.ch.read();
        assert(self@.pending =~= old(self)@.pending + echo_script(ch));
    }

    /// `select` asserts the chip select signal by driving it low.
    pub fn select(&mut self)
        ensures
            final(self)@ == old(self)@.queue(select_script()),
    {
        self.ch.write(SELECT);
        self.ch.flush();
        assert(self@.pending =~= old(self)@.pending + select_script());
    }

    /// `unselect` de-asserts the chip select signal by driving it high.
    pub fn unselect(&mut self)
        ensures
            final(self)@ == old(self)@.queue(unselect_script()),
    {
        self.ch.write(UNSELECT);
        self.ch.flush();
        assert(self@.pending =~= old(self)@.pending + unselect_script());
    }

    /// `write_byte` is like `write` but writes only a single byte.
    ///
    /// What it queues is what `write` queues for a payload of that one byte.
    pub fn write_byte(&mut self, b: u8)
        ensures
            final(self)@ == old(self)@.queue(write_script(seq![b])),
    {
        self.ch.write(WRITE_BASE);
        self.ch.write(b);
        assert(self@.pending =~= old(self)@.pending + write_script(seq![b]));
    }

    /// `disconnect` requests that the SPIDriver disconnect from the SPI
    /// signals. The command is not followed by a flush.
    pub fn disconnect(&mut self)
        ensures
            final(self)@ == old(self)@.queue(disconnect_script()),
    {
        self.ch.write(DISCONNECT);
    }

    /// The step to carry out next on the serial line: the oldest that is
    /// pending, if any.
    pub fn next_step(&self) -> (step: Option<Step>)
        ensures
            step == if self@.pending.len() > 0 {
                Some(self@.pending[0])
            } else {
                None::<Step>
            },
    {
        self.ch.next_step()
    }

    /// Takes note of what came of the step that `next_step` handed out.
    ///
    /// A completed write or flush and a byte that was read each retire the
    /// oldest pending step, provided they answer it; the byte is kept as part
    /// of the reply. A failure of either side of the line abandons everything
    /// that is pending and is returned wrapped, unchanged. An event that does
    /// not answer the oldest pending step abandons everything that is pending
    /// too, and is a `Protocol` error.
    pub fn advance<TXErr, RXErr>(&mut self, event: Event<TXErr, RXErr>) -> (result: Result<
        (),
        Error<TXErr, RXErr>,
    >)
        ensures
            result == old(self)@.verdict(event),
            final(self)@ == old(self)@.after(event),
    {
        self.ch.advance(event)
    }

    /// Hands over the bytes that were read since they were last collected,
    /// oldest first.
    pub fn take_reply(&mut self) -> (reply: Vec<u8>)
        ensures
            reply@ == old(self)@.reply,
            final(self)@ == old(self)@.collected(),
    {
        self.ch.take_reply()
    }

    /// Carries out what is pending the way a serial line that does not fail
    /// would, with an adapter that answers the reads with `answers`, in
    /// order, and returns the steps that were carried out. Where `answers`
    /// run out, the run stops at the read that is left without one.
    pub fn dry_run(&mut self, answers: &[u8]) -> (carried: Vec<Step>)
        ensures
            final(self)@ == old(self)@.run(answers@),
            carried@ + final(self)@.pending == old(self)@.pending,
    {
        let mut carried: Vec<Step> = Vec::new();
        let mut used: usize = 0;
        assert(answers@.skip(0) =~= answers@);
        assert(carried@ + self@.pending =~= self@.pending);
        loop
            invariant
                used <= answers@.len(),
                self@.run(answers@.skip(used as int)) == old(self)@.run(answers@),
                carried@ + self@.pending == old(self)@.pending,
            ensures
                self@ == old(self)@.run(answers@),
                carried@ + self@.pending == old(self)@.pending,
            decreases self@.pending.len(),
        {
            let ghost before = self@;
            let ghost rest = answers@.skip(used as int);
            match self.next_step() {
                None => {
                    break ;
                },
                Some(Step::Receive) => {
                    if used >= answers.len() {
                        break ;
                    }
                    let _ = self.advance::<(), ()>(Event::Received(answers[used]));
                    carried.push(Step::Receive);
                    used += 1;
                    assert(rest.skip(1) =~= answers@.skip(used as int));
                },
                Some(step) => {
                    let _ = self.advance::<(), ()>(Event::Completed);
                    carried.push(step);
                },
            }
            assert(carried@ + self@.pending =~= old(self)@.pending);
        }
        carried
    }

    /// Collects the bytes that were read since they were last collected and
    /// stores them over the first bytes of `data`, in order. After a
    /// transfer that went through, `data` holds what came back for each byte
    /// that it held before.
    pub fn store_reply(&mut self, data: &mut [u8])
        ensures
            final(data)@ == overwritten(old(data)@, old(self)@.reply),
            final(self)@ == old(self)@.collected(),
    {
        self.ch.store_reply(data)
    }
}

/// A transfer of up to 64 bytes that goes through reads exactly one byte for
/// each byte of the payload and leaves nothing pending. Stored over the
/// payload, what was read gives a buffer of the same length that holds
/// exactly the bytes that came back, in order.
pub proof fn lemma_transfer_round_trip(payload: Seq<u8>, answers: Seq<u8>)
    requires
        payload.len() <= MAX_PAYLOAD,
        answers.len() == payload.len(),
    ensures
        Line::idle().queue(transfer_script(payload)).run(answers) == (Line {
            pending: Seq::empty(),
            reply: answers,
        }),
        overwritten(payload, answers) == answers,
{
    let start = Line::idle().queue(transfer_script(payload));
    lemma_transfer_script(payload);
    assert(start.pending =~= transfer_script(payload));
    lemma_run(start, answers);
    assert(start.reply + answers =~= answers);
    assert(overwritten(payload, answers) =~= answers);
}

/// `echo` that goes through reads exactly one byte, which is the reply.
pub proof fn lemma_echo_round_trip(ch: u8, answer: u8)
    ensures
        Line::idle().queue(echo_script(ch)).run(seq![answer]) == (Line {
            pending: Seq::empty(),
            reply: seq![answer],
        }),
{
    let start = Line::idle().queue(echo_script(ch));
    assert(start.pending =~= echo_script(ch));
    let s1 = start.completed();
    let s2 = s1.completed();
    let s3 = s2.completed();
    assert(s3.pending =~= seq![Step::Receive]);
    assert(expected(s3.pending.skip(1)) == 0);
    assert(expected(s3.pending) == 1);
    lemma_run(s3, seq![answer]);
    assert(s3.reply + seq![answer] =~= seq![answer]);
    assert(start.run(seq![answer]) == s1.run(seq![answer]));
    assert(s1.run(seq![answer]) == s2.run(seq![answer]));
    assert(s2.run(seq![answer]) == s3.run(seq![answer]));
}

} // verus!
