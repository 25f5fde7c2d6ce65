//! The serial line as the driver sees it: what is still to be done on it and
//! what has come back.

use crate::error::Error;
use crate::wire::{expected, Event, Step};
use std::collections::VecDeque;
use vstd::prelude::*;

verus! {

/// The state of the conversation with the adapter.
pub struct Line {
    /// The steps that have been queued and not yet carried out, oldest first.
    pub pending: Seq<Step>,
    /// The bytes that were read and not yet collected, oldest first.
    pub reply: Seq<u8>,
}

impl Line {
    /// Nothing to do and nothing read.
    pub open spec fn idle() -> Line {
        Line { pending: Seq::empty(), reply: Seq::empty() }
    }

    /// The same conversation with `steps` added behind what is pending.
    pub open spec fn queue(self, steps: Seq<Step>) -> Line {
        Line { pending: self.pending + steps, reply: self.reply }
    }

    /// The oldest pending step is a write or a flush.
    pub open spec fn awaits_completion(self) -> bool {
        self.pending.len() > 0 && self.pending[0] != Step::Receive
    }

    /// The oldest pending step is a read.
    pub open spec fn awaits_byte(self) -> bool {
        self.pending.len() > 0 && self.pending[0] == Step::Receive
    }

    /// The oldest pending step has been carried out.
    pub open spec fn completed(self) -> Line {
        Line { pending: self.pending.skip(1), reply: self.reply }
    }

    /// The oldest pending step has been carried out and has read `byte`.
    pub open spec fn received(self, byte: u8) -> Line {
        Line { pending: self.pending.skip(1), reply: self.reply.push(byte) }
    }

    /// Everything pending has been abandoned; what was read stays.
    pub open spec fn aborted(self) -> Line {
        Line { pending: Seq::empty(), reply: self.reply }
    }

    /// What was read has been collected.
    pub open spec fn collected(self) -> Line {
        Line { pending: self.pending, reply: Seq::empty() }
    }

    /// The conversation after `event` has been taken note of. A completed
    /// write or flush and a byte that was read each retire the oldest
    /// pending step, provided they answer it; every other event abandons
    /// what is pending.
    pub open spec fn after<TXErr, RXErr>(self, event: Event<TXErr, RXErr>) -> Line {
        match event {
            Event::Completed => if self.awaits_completion() {
                self.completed()
            } else {
                self.aborted()
            },
            Event::Received(byte) => if self.awaits_byte() {
                self.received(byte)
            } else {
                self.aborted()
            },
            Event::WriteFailed(_) => self.aborted(),
            Event::ReadFailed(_) => self.aborted(),
        }
    }

    /// What becomes of the command in progress when `event` is taken note
    /// of: it goes on, or it ends with the failure of the line, wrapped and
    /// unchanged, or with a `Protocol` error where the event does not answer
    /// the oldest pending step.
    pub open spec fn verdict<TXErr, RXErr>(self, event: Event<TXErr, RXErr>) -> Result<
        (),
        Error<TXErr, RXErr>,
    > {
        match event {
            Event::Completed => if self.awaits_completion() {
                Ok(())
            } else {
                Err(Error::Protocol)
            },
            Event::Received(_) => if self.awaits_byte() {
                Ok(())
            } else {
                Err(Error::Protocol)
            },
            Event::WriteFailed(cause) => Err(Error::Write(cause)),
            Event::ReadFailed(cause) => Err(Error::Read(cause)),
        }
    }

    /// The conversation as it stands when every pending step has been
    /// carried out on a line that does not fail, the adapter answering the
    /// reads with `answers`, in order. Where `answers` run out, the
    /// conversation stops at the read that is left without one.
    pub open spec fn run(self, answers: Seq<u8>) -> Line
        decreases self.pending.len(),
    {
        if self.pending.len() == 0 {
            self
        } else if self.pending[0] == Step::Receive {
            if answers.len() == 0 {
                self
            } else {
                self.received(answers[0]).run(answers.skip(1))
            }
        } else {
            self.completed().run(answers)
        }
    }
}

/// On a line that does not fail, a conversation that gets one answer for
/// each byte that it reads ends with nothing pending, and with exactly the
/// answers, in order, behind what had been read before.
pub proof fn lemma_run(line: Line, answers: Seq<u8>)
    requires
        answers.len() == expected(line.pending),
    ensures
        line.run(answers) == (Line { pending: Seq::empty(), reply: line.reply + answers }),
    decreases line.pending.len(),
{
    if line.pending.len() == 0 {
        assert(line.pending =~= Seq::<Step>::empty());
        assert(line.reply + answers =~= line.reply);
    } else if line.pending[0] == Step::Receive {
        lemma_run(line.received(answers[0]), answers.skip(1));
        assert(line.reply.push(answers[0]) + answers.skip(1) =~= line.reply + answers);
    } else {
        lemma_run(line.completed(), answers);
    }
}

/// A failure of the line, or an event that does not answer the oldest
/// pending step, leaves nothing to be carried out: what was queued behind
/// the step that failed is never attempted.
pub proof fn lemma_abort_ends_run(line: Line, answers: Seq<u8>)
    ensures
        line.aborted().run(answers) == line.aborted(),
        line.aborted().pending.len() == 0,
{
}

/// `buffer` with its first bytes replaced by those of `reply`, position by
/// position; what `reply` has beyond the end of `buffer` is left out.
pub open spec fn overwritten(buffer: Seq<u8>, reply: Seq<u8>) -> Seq<u8> {
    Seq::new(
        buffer.len(),
        |i: int|
            if i < reply.len() {
                reply[i]
            } else {
                buffer[i]
            },
    )
}

/// The two directions of the serial line: the steps still to be carried out
/// on it, and the bytes that have been read from it.
#[derive(Debug)]
pub struct Channel {
    tx: VecDeque<Step>,
    rx: Vec<u8>,
}

impl View for Channel {
    type V = Line;

    closed spec fn view(&self) -> Line {
        Line { pending: self.tx@, reply: self.rx@ }
    }
}

impl Channel {
    /// A channel with nothing to do and nothing read.
    pub fn new() -> (ch: Self)
        ensures
            ch@ == Line::idle(),
    {
        Channel { tx: VecDeque::new(), rx: Vec::new() }
    }

    /// Queues the reading of one byte.
    pub fn read(&mut self)
        ensures
            final(self)@ == old(self)@.queue(seq![Step::Receive]),
    {
        self.tx.push_back(Step::Receive);
        assert(self.tx@ =~= old(self).tx@ + seq![Step::Receive]);
    }

    /// Queues the writing of `c`.
    pub fn write(&mut self, c: u8)
        ensures
            final(self)@ == old(self)@.queue(seq![Step::Send(c)]),
    {
        self.tx.push_back(Step::Send(c));
        assert(self.tx@ =~= old(self).tx@ + seq![Step::Send(c)]);
    }

    /// Queues a flush of the write side.
    pub fn flush(&mut self)
        ensures
            final(self)@ == old(self)@.queue(seq![Step::Flush]),
    {
        self.tx.push_back(Step::Flush);
        assert(self.tx@ =~= old(self).tx@ + seq![Step::Flush]);
    }

    /// The step to carry out next: the oldest that is pending, if any.
    pub fn next_step(&self) -> (step: Option<Step>)
        ensures
            step == if self@.pending.len() > 0 {
                Some(self@.pending[0])
            } else {
                None::<Step>
            },
    {
        if self.tx.len() > 0 {
            Some(self.tx[0])
        } else {
            None
        }
    }

    /// Takes note of what came of the step that `next_step` handed out.
    ///
    /// A completed write or flush and a byte that was read each retire the
    /// oldest pending step, provided they answer it; the byte is kept as part
    /// of the reply. A failure of either side of the line abandons everything
    /// that is pending and is returned wrapped, unchanged. An event that does
    /// not answer the oldest pending step abandons everything that is pending
    /// too, and is a `Protocol` error.
    pub fn advance<TXErr, RXErr>(&mut self, event: Event<TXErr, RXErr>) -> (result: Result<
        (),
        Error<TXErr, RXErr>,
    >)
        ensures
            result == old(self)@.verdict(event),
            final(self)@ == old(self)@.after(event),
    {
        let head = self.next_step();
        match event {
            Event::Completed => match head {
                Some(Step::Send(_)) | Some(Step::Flush) => {
                    self.tx.pop_front();
                    Ok(())
                },
                _ => {
                    self.tx.clear();
                    Err(Error::Protocol)
                },
            },
            Event::Received(byte) => match head {
                Some(Step::Receive) => {
                    self.tx.pop_front();
                    self.rx.push(byte);
                    Ok(())
                },
                _ => {
                    self.tx.clear();
                    Err(Error::Protocol)
                },
            },
            Event::WriteFailed(cause) => {
                self.tx.clear();
                Err(Error::tx(cause))
            },
            Event::ReadFailed(cause) => {
                self.tx.clear();
                Err(Error::rx(cause))
            },
        }
    }

    /// Hands over the bytes that were read since they were last collected,
    /// oldest first.
    pub fn take_reply(&mut self) -> (reply: Vec<u8>)
        ensures
            reply@ == old(self)@.reply,
            final(self)@ == old(self)@.collected(),
    {
        let mut reply: Vec<u8> = Vec::new();
        std::mem::swap(&mut self.rx, &mut reply);
        reply
    }

    /// Collects the bytes that were read since they were last collected and
    /// stores them over the first bytes of `data`, in order.
    pub fn store_reply(&mut self, data: &mut [u8])
        ensures
            final(data)@ == overwritten(old(data)@, old(self)@.reply),
            final(self)@ == old(self)@.collected(),
    {
        let reply = self.take_reply();
        let mut i: usize = 0;
        while i < data.len() && i < reply.len()
            invariant
                data@.len() == old(data)@.len(),
                i <= data@.len(),
                i <= reply@.len(),
                forall|k: int| 0 <= k < i ==> data@[k] == reply@[k],
                forall|k: int| i <= k < data@.len() ==> data@[k] == old(data)@[k],
            decreases data@.len() - i,
        {
            data[i] = reply[i];
            i += 1;
        }
        assert(data@ =~= overwritten(old(data)@, reply@));
    }
}

} // verus!
