use spidriver::{Channel, Error, Event, SPIDriver, Step};

/// Carries out everything that is pending on a line that never fails. The
/// adapter answers the reads with `answers`, in order. Returns the steps in
/// the order in which they were carried out.
fn run(sd: &mut SPIDriver, answers: &[u8]) -> Vec<Step> {
    let mut done = Vec::new();
    let mut next = 0;
    while let Some(step) = sd.next_step() {
        let event: Event<(), ()> = match step {
            Step::Send(_) | Step::Flush => Event::Completed,
            Step::Receive => {
                next += 1;
                Event::Received(answers[next - 1])
            }
        };
        done.push(step);
        assert!(sd.advance(event).is_ok());
    }
    assert_eq!(next, answers.len());
    done
}

fn sends(bytes: &[u8]) -> Vec<Step> {
    bytes.iter().map(|b| Step::Send(*b)).collect()
}

#[test]
fn new_driver_is_idle() {
    let mut sd = SPIDriver::new();
    assert_eq!(sd.next_step(), None);
    assert_eq!(sd.take_reply(), Vec::<u8>::new());
}

#[test]
fn write_emits_control_byte_then_payload() {
    for len in [1usize, 2, 3, 17, 63, 64] {
        let payload: Vec<u8> = (0..len).map(|i| (i * 7 + 1) as u8).collect();
        let mut sd = SPIDriver::new();
        assert!(sd.write::<(), ()>(&payload).is_ok());
        let mut want = vec![Step::Send(0xc0 + (len as u8) - 1)];
        want.extend(sends(&payload));
        assert_eq!(run(&mut sd, &[]), want);
        assert_eq!(sd.take_reply(), Vec::<u8>::new());
    }
}

#[test]
fn write_control_bytes_at_the_limits() {
    let mut sd = SPIDriver::new();
    assert!(sd.write::<(), ()>(&[0xaa]).is_ok());
    assert_eq!(sd.next_step(), Some(Step::Send(0xc0)));
    let mut sd = SPIDriver::new();
    assert!(sd.write::<(), ()>(&[0u8; 64]).is_ok());
    assert_eq!(sd.next_step(), Some(Step::Send(0xff)));
}

#[test]
fn write_of_nothing_queues_nothing() {
    let mut sd = SPIDriver::new();
    assert!(sd.write::<(), ()>(&[]).is_ok());
    assert_eq!(sd.next_step(), None);
}

#[test]
fn transfer_of_nothing_queues_nothing() {
    let mut sd = SPIDriver::new();
    assert!(sd.transfer::<(), ()>(&[]).is_ok());
    assert_eq!(sd.next_step(), None);
    let mut data: [u8; 0] = [];
    sd.store_reply(&mut data);
    assert_eq!(data.len(), 0);
}

#[test]
fn write_of_65_bytes_is_refused() {
    let mut sd = SPIDriver::new();
    let r = sd.write::<(), ()>(&[0u8; 65]);
    assert!(matches!(r, Err(Error::Request)));
    assert_eq!(sd.next_step(), None);
}

#[test]
fn transfer_of_65_bytes_is_refused() {
    let mut sd = SPIDriver::new();
    let r = sd.transfer::<(), ()>(&[0u8; 65]);
    assert!(matches!(r, Err(Error::Request)));
    assert_eq!(sd.next_step(), None);
}

#[test]
fn refused_write_leaves_pending_untouched() {
    let mut sd = SPIDriver::new();
    sd.select();
    let r = sd.write::<(), ()>(&[0u8; 200]);
    assert!(matches!(r, Err(Error::Request)));
    assert_eq!(run(&mut sd, &[]), vec![Step::Send(b's'), Step::Flush]);
}

#[test]
fn transfer_emits_frame_and_collects_reply() {
    let mut data = [0x10u8, 0x20, 0x30];
    let mut sd = SPIDriver::new();
    assert!(sd.transfer::<(), ()>(&data).is_ok());
    let steps = run(&mut sd, &[0x9a, 0x8b, 0x7c]);
    assert_eq!(
        steps,
        vec![
            Step::Send(0x82),
            Step::Send(0x10),
            Step::Send(0x20),
            Step::Send(0x30),
            Step::Receive,
            Step::Receive,
            Step::Receive,
        ]
    );
    sd.store_reply(&mut data);
    assert_eq!(data, [0x9a, 0x8b, 0x7c]);
    assert_eq!(sd.take_reply(), Vec::<u8>::new());
}

#[test]
fn transfer_reply_is_as_long_as_the_payload() {
    for len in [1usize, 2, 31, 64] {
        let payload: Vec<u8> = (0..len).map(|i| i as u8).collect();
        let answers: Vec<u8> = (0..len).map(|i| 0xff - i as u8).collect();
        let mut sd = SPIDriver::new();
        assert!(sd.transfer::<(), ()>(&payload).is_ok());
        let steps = run(&mut sd, &answers);
        assert_eq!(steps.len(), 1 + 2 * len);
        assert_eq!(steps[0], Step::Send(0x80 + (len as u8) - 1));
        assert_eq!(&steps[1..1 + len], &sends(&payload)[..]);
        assert!(steps[1 + len..].iter().all(|s| *s == Step::Receive));
        assert_eq!(sd.take_reply(), answers);
    }
}

#[test]
fn select_then_unselect() {
    let mut sd = SPIDriver::new();
    sd.select();
    sd.unselect();
    assert_eq!(
        run(&mut sd, &[]),
        vec![Step::Send(b's'), Step::Flush, Step::Send(b'u'), Step::Flush]
    );
    assert_eq!(sd.take_reply(), Vec::<u8>::new());
}

#[test]
fn echo_returns_what_is_read_back() {
    let mut sd = SPIDriver::new();
    sd.echo(0x42);
    assert_eq!(
        run(&mut sd, &[0x42]),
        vec![Step::Send(b'e'), Step::Send(0x42), Step::Flush, Step::Receive]
    );
    assert_eq!(sd.take_reply(), vec![0x42]);
}

#[test]
fn echo_reply_is_verbatim_even_if_wrong() {
    let mut sd = SPIDriver::new();
    sd.echo(0x42);
    run(&mut sd, &[0x17]);
    let mut buf = [0x42u8];
    sd.store_reply(&mut buf);
    assert_eq!(buf, [0x17]);
}

#[test]
fn set_a_and_set_b() {
    let mut sd = SPIDriver::new();
    sd.set_a(true);
    sd.set_a(false);
    sd.set_b(true);
    sd.set_b(false);
    assert_eq!(
        run(&mut sd, &[]),
        vec![
            Step::Send(b'a'),
            Step::Send(b'1'),
            Step::Flush,
            Step::Send(b'a'),
            Step::Send(b'0'),
            Step::Flush,
            Step::Send(b'b'),
            Step::Send(b'1'),
            Step::Flush,
            Step::Send(b'b'),
            Step::Send(b'0'),
            Step::Flush,
        ]
    );
}

#[test]
fn disconnect_is_not_flushed() {
    let mut sd = SPIDriver::new();
    sd.disconnect();
    assert_eq!(run(&mut sd, &[]), vec![Step::Send(b'x')]);
}

#[test]
fn write_byte_matches_write_of_one_byte() {
    let mut one = SPIDriver::new();
    one.write_byte(0x5a);
    let mut other = SPIDriver::new();
    assert!(other.write::<(), ()>(&[0x5a]).is_ok());
    let steps = run(&mut one, &[]);
    assert_eq!(steps, vec![Step::Send(0xc0), Step::Send(0x5a)]);
    assert_eq!(steps, run(&mut other, &[]));
}

#[test]
fn commands_queue_in_the_order_given() {
    let mut sd = SPIDriver::new();
    sd.select();
    assert!(sd.write::<(), ()>(&[1, 2]).is_ok());
    sd.unselect();
    assert_eq!(
        run(&mut sd, &[]),
        vec![
            Step::Send(b's'),
            Step::Flush,
            Step::Send(0xc1),
            Step::Send(1),
            Step::Send(2),
            Step::Send(b'u'),
            Step::Flush,
        ]
    );
}

#[test]
fn write_failure_is_wrapped_and_aborts() {
    let mut sd = SPIDriver::new();
    assert!(sd.write::<&str, ()>(&[1, 2, 3]).is_ok());
    assert!(sd.advance::<&str, ()>(Event::Completed).is_ok());
    assert_eq!(sd.next_step(), Some(Step::Send(1)));
    let r = sd.advance::<&str, ()>(Event::WriteFailed("line down"));
    assert!(matches!(r, Err(Error::Write("line down"))));
    assert_eq!(sd.next_step(), None);
}

#[test]
fn read_failure_is_wrapped_and_keeps_what_was_read() {
    let mut data = [1u8, 2, 3];
    let mut sd = SPIDriver::new();
    assert!(sd.transfer::<(), u32>(&data).is_ok());
    for _ in 0..4 {
        assert!(sd.advance::<(), u32>(Event::Completed).is_ok());
    }
    assert!(sd.advance::<(), u32>(Event::Received(0xee)).is_ok());
    let r = sd.advance::<(), u32>(Event::ReadFailed(5));
    assert!(matches!(r, Err(Error::Read(5))));
    assert_eq!(sd.next_step(), None);
    sd.store_reply(&mut data);
    assert_eq!(data, [0xee, 2, 3]);
}

#[test]
fn flush_failure_is_a_write_error() {
    let mut sd = SPIDriver::new();
    sd.select();
    assert!(sd.advance::<u8, u8>(Event::Completed).is_ok());
    assert_eq!(sd.next_step(), Some(Step::Flush));
    let r = sd.advance::<u8, u8>(Event::WriteFailed(9));
    assert!(matches!(r, Err(Error::Write(9))));
    assert_eq!(sd.next_step(), None);
}

#[test]
fn byte_out_of_turn_is_a_protocol_error() {
    let mut sd = SPIDriver::new();
    sd.select();
    sd.unselect();
    let r = sd.advance::<(), ()>(Event::Received(1));
    assert!(matches!(r, Err(Error::Protocol)));
    assert_eq!(sd.next_step(), None);
    assert_eq!(sd.take_reply(), Vec::<u8>::new());
}

#[test]
fn completion_in_place_of_a_byte_is_a_protocol_error() {
    let mut sd = SPIDriver::new();
    sd.echo(1);
    for _ in 0..3 {
        assert!(sd.advance::<(), ()>(Event::Completed).is_ok());
    }
    assert_eq!(sd.next_step(), Some(Step::Receive));
    let r = sd.advance::<(), ()>(Event::Completed);
    assert!(matches!(r, Err(Error::Protocol)));
    assert_eq!(sd.next_step(), None);
}

#[test]
fn event_without_pending_step_is_a_protocol_error() {
    let mut sd = SPIDriver::new();
    assert!(matches!(sd.advance::<(), ()>(Event::Completed), Err(Error::Protocol)));
    assert!(matches!(sd.advance::<(), ()>(Event::Received(3)), Err(Error::Protocol)));
    assert_eq!(sd.take_reply(), Vec::<u8>::new());
}

#[test]
fn error_constructors_wrap_the_cause() {
    let e: Error<&str, u8> = Error::tx("tx broke");
    assert!(matches!(e, Error::Write("tx broke")));
    let e: Error<&str, u8> = Error::rx(7);
    assert!(matches!(e, Error::Read(7)));
}

#[test]
fn take_reply_empties_the_reply() {
    let mut sd = SPIDriver::new();
    sd.echo(1);
    run(&mut sd, &[0x33]);
    assert_eq!(sd.take_reply(), vec![0x33]);
    assert_eq!(sd.take_reply(), Vec::<u8>::new());
}

#[test]
fn store_reply_with_short_reply_keeps_the_tail() {
    let mut sd = SPIDriver::new();
    sd.echo(1);
    run(&mut sd, &[0x33]);
    let mut data = [1u8, 2, 3];
    sd.store_reply(&mut data);
    assert_eq!(data, [0x33, 2, 3]);
}

#[test]
fn store_reply_with_long_reply_fills_the_buffer() {
    let mut sd = SPIDriver::new();
    assert!(sd.transfer::<(), ()>(&[1, 2, 3]).is_ok());
    run(&mut sd, &[7, 8, 9]);
    let mut data = [0u8; 2];
    sd.store_reply(&mut data);
    assert_eq!(data, [7, 8]);
    assert_eq!(sd.take_reply(), Vec::<u8>::new());
}

#[test]
fn dry_run_carries_out_what_is_pending() {
    let mut sd = SPIDriver::new();
    sd.echo(0x42);
    let carried = sd.dry_run(&[0x42]);
    assert_eq!(
        carried,
        vec![Step::Send(b'e'), Step::Send(0x42), Step::Flush, Step::Receive]
    );
    assert_eq!(sd.next_step(), None);
    assert_eq!(sd.take_reply(), vec![0x42]);
}

#[test]
fn dry_run_matches_stepping_by_hand() {
    let payload = [5u8, 6, 7, 8];
    let answers = [0x50u8, 0x60, 0x70, 0x80];
    let mut by_hand = SPIDriver::new();
    assert!(by_hand.transfer::<(), ()>(&payload).is_ok());
    let steps = run(&mut by_hand, &answers);
    let mut dry = SPIDriver::new();
    assert!(dry.transfer::<(), ()>(&payload).is_ok());
    assert_eq!(dry.dry_run(&answers), steps);
    assert_eq!(dry.take_reply(), by_hand.take_reply());
}

#[test]
fn dry_run_stops_where_the_answers_run_out() {
    let mut sd = SPIDriver::new();
    assert!(sd.transfer::<(), ()>(&[1, 2, 3]).is_ok());
    let carried = sd.dry_run(&[0xa1]);
    assert_eq!(
        carried,
        vec![
            Step::Send(0x82),
            Step::Send(1),
            Step::Send(2),
            Step::Send(3),
            Step::Receive,
        ]
    );
    assert_eq!(sd.next_step(), Some(Step::Receive));
    assert_eq!(sd.take_reply(), vec![0xa1]);
    assert_eq!(sd.dry_run(&[0xa2, 0xa3, 0xa4]), vec![Step::Receive, Step::Receive]);
    assert_eq!(sd.take_reply(), vec![0xa2, 0xa3]);
}

#[test]
fn transfer_control_bytes_at_the_limits() {
    let mut sd = SPIDriver::new();
    assert!(sd.transfer::<(), ()>(&[0xaa]).is_ok());
    assert_eq!(sd.next_step(), Some(Step::Send(0x80)));
    let mut sd = SPIDriver::new();
    assert!(sd.transfer::<(), ()>(&[0u8; 64]).is_ok());
    assert_eq!(sd.next_step(), Some(Step::Send(0xbf)));
}

#[test]
fn channel_queues_what_it_is_asked() {
    let mut ch = Channel::new();
    assert_eq!(ch.next_step(), None);
    ch.write(0x12);
    ch.flush();
    ch.read();
    assert_eq!(ch.next_step(), Some(Step::Send(0x12)));
    assert!(ch.advance::<(), ()>(Event::Completed).is_ok());
    assert_eq!(ch.next_step(), Some(Step::Flush));
    assert!(ch.advance::<(), ()>(Event::Completed).is_ok());
    assert_eq!(ch.next_step(), Some(Step::Receive));
    assert!(ch.advance::<(), ()>(Event::Received(0x34)).is_ok());
    assert_eq!(ch.next_step(), None);
    assert_eq!(ch.take_reply(), vec![0x34]);
    let mut data = [9u8];
    ch.store_reply(&mut data);
    assert_eq!(data, [9]);
}
