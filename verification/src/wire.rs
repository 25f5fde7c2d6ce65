//! The wire format of the adapter: which steps on the serial line make up
//! each command.

use vstd::prelude::*;

verus! {

/// The largest payload that fits one write or transfer frame.
pub const MAX_PAYLOAD: usize = 64;

/// Control byte of a write frame that carries one byte; a frame of `n` bytes
/// has the control byte `WRITE_BASE + (n - 1)`.
pub const WRITE_BASE: u8 = 0xc0;

/// Control byte of a transfer frame that carries one byte; a frame of `n`
/// bytes has the control byte `TRANSFER_BASE + (n - 1)`.
pub const TRANSFER_BASE: u8 = 0x80;

/// Command byte of `echo`, the letter `e`.
pub const ECHO: u8 = 0x65;

/// Command byte of `select`, the letter `s`.
pub const SELECT: u8 = 0x73;

/// Command byte of `unselect`, the letter `u`.
pub const UNSELECT: u8 = 0x75;

/// Command byte that sets auxiliary pin A, the letter `a`.
pub const PIN_A: u8 = 0x61;

/// Command byte that sets auxiliary pin B, the letter `b`.
pub const PIN_B: u8 = 0x62;

/// Command byte of `disconnect`, the letter `x`.
pub const DISCONNECT: u8 = 0x78;

/// Argument byte for an active pin, the digit `1`.
pub const ACTIVE: u8 = 0x31;

/// Argument byte for an inactive pin, the digit `0`.
pub const INACTIVE: u8 = 0x30;

/// One thing to do on the serial line.
#[derive(Clone, Copy, Debug, PartialEq, Eq, Structural)]
pub enum Step {
    /// Write this byte.
    Send(u8),
    /// Flush the write side.
    Flush,
    /// Read one byte.
    Receive,
}

/// What came of the step that was last handed out.
#[derive(Debug)]
pub enum Event<TXErr, RXErr> {
    /// The byte was written, or the write side was flushed.
    Completed,
    /// This byte was read.
    Received(u8),
    /// The write side failed.
    WriteFailed(TXErr),
    /// The read side failed.
    ReadFailed(RXErr),
}

/// The steps that write `bytes`, one after the other.
pub open spec fn sends(bytes: Seq<u8>) -> Seq<Step> {
    Seq::new(bytes.len(), |i: int| Step::Send(bytes[i]))
}

/// The steps that read `n` bytes.
pub open spec fn receives(n: nat) -> Seq<Step> {
    Seq::new(n, |i: int| Step::Receive)
}

/// The digit that stands for a pin state.
pub open spec fn level(active: bool) -> u8 {
    if active {
        ACTIVE
    } else {
        INACTIVE
    }
}

/// The control byte of a frame of `len` payload bytes in the family that
/// starts at `base`. It is meant for `1 <= len <= 64`.
pub open spec fn header(base: u8, len: nat) -> u8 {
    (base + len - 1) as u8
}

/// `echo`: the command, the byte to echo, a flush, and one byte back.
pub open spec fn echo_script(ch: u8) -> Seq<Step> {
    seq![Step::Send(ECHO), Step::Send(ch), Step::Flush, Step::Receive]
}

/// `select`: the command and a flush.
pub open spec fn select_script() -> Seq<Step> {
    seq![Step::Send(SELECT), Step::Flush]
}

/// `unselect`: the command and a flush.
pub open spec fn unselect_script() -> Seq<Step> {
    seq![Step::Send(UNSELECT), Step::Flush]
}

/// Driving the chip select line: the line is active when it is low, so low
/// selects and high unselects.
pub open spec fn cs_script(high: bool) -> Seq<Step> {
    if high {
        unselect_script()
    } else {
        select_script()
    }
}

/// Setting an auxiliary pin: the pin's command, the digit of the state, and
/// a flush.
pub open spec fn pin_script(pin: u8, active: bool) -> Seq<Step> {
    seq![Step::Send(pin), Step::Send(level(active)), Step::Flush]
}

/// `disconnect`: the command alone, without a flush.
pub open spec fn disconnect_script() -> Seq<Step> {
    seq![Step::Send(DISCONNECT)]
}

/// One write frame: the control byte, then the payload. It is meant for
/// payloads of 1 to 64 bytes.
pub open spec fn write_frame(payload: Seq<u8>) -> Seq<Step> {
    seq![Step::Send(header(WRITE_BASE, payload.len()))] + sends(payload)
}

/// One transfer frame: the control byte, then the payload, then as many
/// bytes back as the payload has. It is meant for payloads of 1 to 64 bytes.
pub open spec fn transfer_frame(payload: Seq<u8>) -> Seq<Step> {
    seq![Step::Send(header(TRANSFER_BASE, payload.len()))] + sends(payload) + receives(
        payload.len(),
    )
}

/// What `write` puts on the line: nothing for an empty payload, else one
/// write frame.
pub open spec fn write_script(payload: Seq<u8>) -> Seq<Step> {
    if payload.len() == 0 {
        Seq::empty()
    } else {
        write_frame(payload)
    }
}

/// What `transfer` puts on the line: nothing for an empty payload, else one
/// transfer frame.
pub open spec fn transfer_script(payload: Seq<u8>) -> Seq<Step> {
    if payload.len() == 0 {
        Seq::empty()
    } else {
        transfer_frame(payload)
    }
}

/// The length of the first chunk of a payload of `len` bytes.
pub open spec fn chunk_len(len: nat) -> nat {
    if len > MAX_PAYLOAD {
        MAX_PAYLOAD as nat
    } else {
        len
    }
}

/// A payload of any length written in chunks of at most 64 bytes, in order;
/// every chunk but the last carries 64 bytes.
pub open spec fn chunked_write_script(payload: Seq<u8>) -> Seq<Step>
    decreases payload.len(),
{
    if payload.len() == 0 {
        Seq::empty()
    } else {
        let n = chunk_len(payload.len()) as int;
        write_script(payload.take(n)) + chunked_write_script(payload.skip(n))
    }
}

/// A payload of any length transferred in chunks of at most 64 bytes, in
/// order; every chunk but the last carries 64 bytes.
pub open spec fn chunked_transfer_script(payload: Seq<u8>) -> Seq<Step>
    decreases payload.len(),
{
    if payload.len() == 0 {
        Seq::empty()
    } else {
        let n = chunk_len(payload.len()) as int;
        transfer_script(payload.take(n)) + chunked_transfer_script(payload.skip(n))
    }
}

/// The bytes that `steps` write, in order.
pub open spec fn emitted(steps: Seq<Step>) -> Seq<u8>
    decreases steps.len(),
{
    if steps.len() == 0 {
        Seq::empty()
    } else {
        match steps[0] {
            Step::Send(byte) => seq![byte] + emitted(steps.skip(1)),
            _ => emitted(steps.skip(1)),
        }
    }
}

/// The number of bytes that `steps` read.
pub open spec fn expected(steps: Seq<Step>) -> nat
    decreases steps.len(),
{
    if steps.len() == 0 {
        0
    } else if steps[0] == Step::Receive {
        1 + expected(steps.skip(1))
    } else {
        expected(steps.skip(1))
    }
}

/// What two runs of steps write, one after the other, is what the first
/// writes followed by what the second writes.
pub proof fn lemma_emitted_concat(first: Seq<Step>, second: Seq<Step>)
    ensures
        emitted(first + second) == emitted(first) + emitted(second),
    decreases first.len(),
{
    if first.len() == 0 {
        assert(first + second =~= second);
        assert(emitted(first) + emitted(second) =~= emitted(second));
    } else {
        lemma_emitted_concat(first.skip(1), second);
        assert((first + second).skip(1) =~= first.skip(1) + second);
        assert((first + second)[0] == first[0]);
        match first[0] {
            Step::Send(byte) => {
                assert(seq![byte] + (emitted(first.skip(1)) + emitted(second)) =~= (seq![byte]
                    + emitted(first.skip(1))) + emitted(second));
            },
            _ => {},
        }
    }
}

/// Two runs of steps, one after the other, read as many bytes as both
/// together.
pub proof fn lemma_expected_concat(first: Seq<Step>, second: Seq<Step>)
    ensures
        expected(first + second) == expected(first) + expected(second),
    decreases first.len(),
{
    if first.len() == 0 {
        assert(first + second =~= second);
    } else {
        lemma_expected_concat(first.skip(1), second);
        assert((first + second).skip(1) =~= first.skip(1) + second);
        assert((first + second)[0] == first[0]);
    }
}

/// Writing `bytes` writes exactly `bytes` and reads nothing.
pub proof fn lemma_sends(bytes: Seq<u8>)
    ensures
        emitted(sends(bytes)) == bytes,
        expected(sends(bytes)) == 0,
    decreases bytes.len(),
{
    if bytes.len() == 0 {
        assert(emitted(sends(bytes)) =~= bytes);
    } else {
        lemma_sends(bytes.skip(1));
        assert(sends(bytes).skip(1) =~= sends(bytes.skip(1)));
        assert(sends(bytes)[0] == Step::Send(bytes[0]));
        assert(seq![bytes[0]] + bytes.skip(1) =~= bytes);
    }
}

/// Reading `n` bytes writes nothing and reads exactly `n` bytes.
pub proof fn lemma_receives(n: nat)
    ensures
        emitted(receives(n)) == Seq::<u8>::empty(),
        expected(receives(n)) == n,
    decreases n,
{
    if n > 0 {
        lemma_receives((n - 1) as nat);
        assert(receives(n).skip(1) =~= receives((n - 1) as nat));
        assert(receives(n)[0] == Step::Receive);
    }
}

/// A write of up to 64 bytes writes the control byte `0xc0 + (len - 1)` and
/// then the payload as it stands, and reads nothing; an empty payload writes
/// nothing at all.
pub proof fn lemma_write_script(payload: Seq<u8>)
    requires
        payload.len() <= MAX_PAYLOAD,
    ensures
        payload.len() == 0 ==> write_script(payload) == Seq::<Step>::empty(),
        payload.len() > 0 ==> emitted(write_script(payload)) == seq![
            (0xc0 + payload.len() - 1) as u8,
        ] + payload,
        expected(write_script(payload)) == 0,
{
    if payload.len() > 0 {
        let head = seq![Step::Send(header(WRITE_BASE, payload.len()))];
        lemma_sends(payload);
        lemma_emitted_concat(head, sends(payload));
        lemma_expected_concat(head, sends(payload));
        lemma_single(head[0]);
    }
}

/// A transfer of up to 64 bytes writes the control byte `0x80 + (len - 1)`
/// and then the payload as it stands, and reads as many bytes as the payload
/// has; an empty payload writes and reads nothing at all.
pub proof fn lemma_transfer_script(payload: Seq<u8>)
    requires
        payload.len() <= MAX_PAYLOAD,
    ensures
        payload.len() == 0 ==> transfer_script(payload) == Seq::<Step>::empty(),
        payload.len() > 0 ==> emitted(transfer_script(payload)) == seq![
            (0x80 + payload.len() - 1) as u8,
        ] + payload,
        expected(transfer_script(payload)) == payload.len(),
{
    if payload.len() > 0 {
        let head = seq![Step::Send(header(TRANSFER_BASE, payload.len()))];
        lemma_sends(payload);
        lemma_receives(payload.len());
        lemma_emitted_concat(head, sends(payload));
        lemma_expected_concat(head, sends(payload));
        lemma_emitted_concat(head + sends(payload), receives(payload.len()));
        lemma_expected_concat(head + sends(payload), receives(payload.len()));
        lemma_single(head[0]);
        assert(seq![(0x80 + payload.len() - 1) as u8] + payload + Seq::<u8>::empty() =~= seq![
            (0x80 + payload.len() - 1) as u8,
        ] + payload);
    }
}

/// What a single step writes and reads.
proof fn lemma_single(step: Step)
    ensures
        emitted(seq![step]) == match step {
            Step::Send(byte) => seq![byte],
            _ => Seq::<u8>::empty(),
        },
        expected(seq![step]) == if step == Step::Receive {
            1nat
        } else {
            0nat
        },
{
    let one = seq![step];
    assert(one.skip(1) =~= Seq::<Step>::empty());
    assert(emitted(one.skip(1)) == Seq::<u8>::empty());
    assert(expected(one.skip(1)) == 0);
    match step {
        Step::Send(byte) => {
            assert(seq![byte] + Seq::<u8>::empty() =~= seq![byte]);
        },
        _ => {},
    }
}

/// A payload that fits one frame is not split: in chunks it is written as
/// `write` writes it.
pub proof fn lemma_chunked_write_short(payload: Seq<u8>)
    requires
        payload.len() <= MAX_PAYLOAD,
    ensures
        chunked_write_script(payload) == write_script(payload),
{
    if payload.len() > 0 {
        let n = payload.len() as int;
        assert(payload.take(n) =~= payload);
        assert(payload.skip(n) =~= Seq::<u8>::empty());
        assert(chunked_write_script(payload.skip(n)) == Seq::<Step>::empty());
        assert(write_script(payload) + Seq::<Step>::empty() =~= write_script(payload));
    }
}

/// A payload that fits one frame is not split: in chunks it is transferred
/// as `transfer` transfers it.
pub proof fn lemma_chunked_transfer_short(payload: Seq<u8>)
    requires
        payload.len() <= MAX_PAYLOAD,
    ensures
        chunked_transfer_script(payload) == transfer_script(payload),
{
    if payload.len() > 0 {
        let n = payload.len() as int;
        assert(payload.take(n) =~= payload);
        assert(payload.skip(n) =~= Seq::<u8>::empty());
        assert(chunked_transfer_script(payload.skip(n)) == Seq::<Step>::empty());
        assert(transfer_script(payload) + Seq::<Step>::empty() =~= transfer_script(payload));
    }
}

/// A payload of more than 64 bytes is split: its first 64 bytes make a full
/// write frame, and the rest follows in chunks of its own.
pub proof fn lemma_chunked_write_long(payload: Seq<u8>)
    requires
        payload.len() > MAX_PAYLOAD,
    ensures
        chunked_write_script(payload) == write_frame(payload.take(64)) + chunked_write_script(
            payload.skip(64),
        ),
{
}

/// A payload of more than 64 bytes is split: its first 64 bytes make a full
/// transfer frame, and the rest follows in chunks of its own.
pub proof fn lemma_chunked_transfer_long(payload: Seq<u8>)
    requires
        payload.len() > MAX_PAYLOAD,
    ensures
        chunked_transfer_script(payload) == transfer_frame(payload.take(64))
            + chunked_transfer_script(payload.skip(64)),
{
}

/// However long the payload, its chunks read nothing when it is written, and
/// one byte for each byte of the payload when it is transferred.
pub proof fn lemma_chunked_expected(payload: Seq<u8>)
    ensures
        expected(chunked_write_script(payload)) == 0,
        expected(chunked_transfer_script(payload)) == payload.len(),
    decreases payload.len(),
{
    if payload.len() > 0 {
        let n = chunk_len(payload.len()) as int;
        lemma_chunked_expected(payload.skip(n));
        lemma_write_script(payload.take(n));
        lemma_transfer_script(payload.take(n));
        lemma_expected_concat(
            write_script(payload.take(n)),
            chunked_write_script(payload.skip(n)),
        );
        lemma_expected_concat(
            transfer_script(payload.take(n)),
            chunked_transfer_script(payload.skip(n)),
        );
    }
}

} // verus!
