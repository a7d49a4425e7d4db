//! Reads, on replies and on queues made up for the purpose.

use io_mux::{
    Address, AsyncMux, ErrorKind, Fault, Mux, MuxSender, MuxSetup, MuxStep, ReadCall, ReadStep,
    Received, SenderSetup, SenderStep, Sizing, Tag,
};

type Failure = Fault<u32>;

fn make_mux() -> Mux {
    let mut setup = MuxSetup::with_id(1, 0);
    loop {
        match setup.step(Ok::<(), Failure>(())) {
            MuxStep::Pending(next) => setup = next,
            MuxStep::Done(result) => return result.unwrap(),
        }
    }
}

fn make_async_mux() -> AsyncMux {
    AsyncMux::with_mux(make_mux(), Ok::<(), Failure>(())).unwrap()
}

fn make_sender(mux: &Mux, id: u128) -> (Tag, MuxSender) {
    let mut setup = SenderSetup::with_id(mux, id, 0);
    loop {
        match setup.step(Ok::<(), Failure>(())) {
            SenderStep::Pending(next) => setup = next,
            SenderStep::Done(result) => return result.unwrap(),
        }
    }
}

fn got(len: usize) -> Result<Received, Failure> {
    Ok(Received { len, from: Address::Unnamed })
}

fn got_from(len: usize, name: &[u8]) -> Result<Received, Failure> {
    Ok(Received { len, from: Address::Abstract(name.to_vec()) })
}

fn failed(kind: ErrorKind, error: u32) -> Result<Received, Failure> {
    Err(Fault { kind, error })
}

fn next_call(step: ReadStep<Failure>) -> ReadCall {
    match step {
        ReadStep::Call(call) => call,
        ReadStep::Done(_) => panic!("the read is over"),
    }
}

#[test]
fn buffer_is_grown_to_the_told_size() {
    let mut mux = make_mux();
    assert_eq!(mux.buf_len(), 8192);
    assert_eq!(ReadCall::first(Sizing::Told), ReadCall::PeekLen);
    mux.buf_mut()[0] = 9;
    for (len, expected) in [(5, 8192), (8192, 8192), (8193, 8193), (50000, 50000), (1, 50000)] {
        assert_eq!(next_call(mux.recv_from_full(ReadCall::PeekLen, got(len))), ReadCall::Receive);
        assert_eq!(mux.buf_len(), expected);
    }
    assert_eq!(mux.buf_mut()[0], 9);
    assert_eq!(mux.buf_mut()[49999], 0);
}

#[test]
fn full_buffer_is_doubled() {
    let mut mux = make_mux();
    assert_eq!(ReadCall::first(Sizing::Growing), ReadCall::Peek);
    assert_eq!(next_call(mux.recv_from_full(ReadCall::Peek, got(8192))), ReadCall::Peek);
    assert_eq!(mux.buf_len(), 16384);
    assert_eq!(next_call(mux.recv_from_full(ReadCall::Peek, got(16384))), ReadCall::Peek);
    assert_eq!(mux.buf_len(), 32768);
    let call = next_call(mux.recv_from_full(ReadCall::Peek, got(32767)));
    assert_eq!(call, ReadCall::Discard(32767));
    assert_eq!(mux.buf_len(), 32768);
    match mux.recv_from_full(call, got_from(0, b"s")) {
        ReadStep::Done(Ok(received)) => {
            assert_eq!(received.len, 32767);
            assert!(received.from.same(&Address::Abstract(b"s".to_vec())));
        }
        _ => panic!("the packet is complete"),
    }
}

#[test]
fn waiting_comes_before_an_asynchronous_read() {
    let mut mux = make_async_mux();
    assert_eq!(AsyncMux::first_call(Sizing::Told), ReadCall::Wait(Sizing::Told));
    assert_eq!(
        next_call(mux.recv_from_full(ReadCall::Wait(Sizing::Told), got(0))),
        ReadCall::PeekLen
    );
    assert_eq!(
        next_call(mux.recv_from_full(ReadCall::Wait(Sizing::Growing), got(0))),
        ReadCall::Peek
    );
    assert_eq!(mux.buf_len(), 8192);
}

#[test]
fn failed_calls_end_a_read() {
    let mut mux = make_mux();
    let calls = [
        ReadCall::Wait(Sizing::Told),
        ReadCall::PeekLen,
        ReadCall::Peek,
        ReadCall::Receive,
        ReadCall::Discard(5),
    ];
    for call in calls {
        match mux.recv_from_full(call, failed(ErrorKind::Other, 104)) {
            ReadStep::Done(Err(fault)) => assert_eq!(fault.error, 104),
            _ => panic!("the read goes on after an error"),
        }
    }
    assert_eq!(mux.buf_len(), 8192);
    assert_eq!(mux.read(failed(ErrorKind::Other, 104)).unwrap_err().error, 104);
}

#[test]
fn read_returns_what_is_in_the_buffer() {
    let mut mux = make_mux();
    mux.buf_mut()[..6].copy_from_slice(b"abcdef");
    let data = mux.read(got_from(4, b"s")).unwrap();
    assert_eq!(data.data, b"abcd");
    let mut other = make_mux();
    assert_eq!(data.tag, other.read(got_from(0, b"s")).unwrap().tag);
}

#[test]
fn nonblocking_read_returns_nothing_where_it_would_block() {
    let mut mux = make_async_mux();
    mux.buf_mut()[..3].copy_from_slice(b"xyz");
    assert_eq!(mux.read_nonblock(got_from(2, b"s")).unwrap().unwrap().data, b"xy");
    assert!(mux.read_nonblock(failed(ErrorKind::WouldBlock, 11)).unwrap().is_none());
    assert_eq!(mux.read_nonblock(failed(ErrorKind::Other, 5)).unwrap_err().error, 5);
    assert_eq!(mux.read_nonblock(failed(ErrorKind::AddrInUse, 6)).unwrap_err().error, 6);
    assert_eq!(mux.read(got_from(3, b"s")).unwrap().data, b"xyz");
}

/// A socket as a queue of packets.
struct Queue(Vec<(Address, Vec<u8>)>);

impl Queue {
    fn fill(&self, buf: &mut [u8]) -> usize {
        let data = &self.0[0].1;
        let len = data.len().min(buf.len());
        buf[..len].copy_from_slice(&data[..len]);
        len
    }

    fn serve(&mut self, call: ReadCall, buf: &mut [u8]) -> Result<Received, Failure> {
        if self.0.is_empty() {
            return failed(ErrorKind::WouldBlock, 11);
        }
        match call {
            ReadCall::Wait(_) => got(0),
            ReadCall::PeekLen => got(self.0[0].1.len()),
            ReadCall::Peek => got(self.fill(buf)),
            ReadCall::Receive => {
                let len = self.fill(buf);
                let (from, _) = self.0.remove(0);
                Ok(Received { len, from })
            }
            ReadCall::Discard(_) => {
                let (from, _) = self.0.remove(0);
                Ok(Received { len: 0, from })
            }
        }
    }

    fn read(&mut self, mux: &mut AsyncMux, sizing: Sizing) -> Result<Received, Failure> {
        let mut call = ReadCall::first(sizing);
        loop {
            let reply = self.serve(call, mux.buf_mut());
            match mux.recv_from_full(call, reply) {
                ReadStep::Call(next) => call = next,
                ReadStep::Done(result) => return result,
            }
        }
    }
}

#[test]
fn data_comes_out_in_order_and_tagged() {
    for sizing in [Sizing::Told, Sizing::Growing] {
        let mux = make_mux();
        let senders = [make_sender(&mux, 1), make_sender(&mux, 2), make_sender(&mux, 3)];
        let mut queue = Queue(Vec::new());
        let writes = [(0, 5), (1, 0), (0, 8192), (2, 8193), (2, 100000), (1, 1), (0, 8191)];
        for (k, (sender, len)) in writes.iter().enumerate() {
            let data = vec![k as u8; *len];
            let datagram = senders[*sender].1.write(&data);
            queue.0.push((datagram.from.clone(), datagram.data.to_vec()));
        }
        let mut mux = AsyncMux::with_mux(mux, Ok::<(), Failure>(())).unwrap();
        for (k, (sender, len)) in writes.iter().enumerate() {
            let received = queue.read(&mut mux, sizing);
            let data = mux.read(received).unwrap();
            assert_eq!(data.data, &vec![k as u8; *len][..]);
            for (other, (tag, _)) in senders.iter().enumerate() {
                assert_eq!(&data.tag == tag, other == *sender);
            }
        }
    }
}

#[test]
fn draining_returns_all_that_is_left() {
    for sizing in [Sizing::Told, Sizing::Growing] {
        let mut mux = make_async_mux();
        let mut queue = Queue(Vec::new());
        for k in 0..20u8 {
            queue.0.push((Address::Abstract(vec![k]), vec![k; 1000 * k as usize]));
        }
        let mut count: u8 = 0;
        loop {
            let received = queue.read(&mut mux, sizing);
            match mux.read_nonblock(received).unwrap() {
                Some(data) => {
                    assert_eq!(data.data, &vec![count; 1000 * count as usize][..]);
                    count += 1;
                }
                None => break,
            }
        }
        assert_eq!(count, 20);
        assert!(queue.0.is_empty());
    }
}

#[test]
fn writes_and_reads_can_alternate() {
    for sizing in [Sizing::Told, Sizing::Growing] {
        let mux = make_mux();
        let senders = [make_sender(&mux, 1), make_sender(&mux, 2)];
        let mut mux = AsyncMux::with_mux(mux, Ok::<(), Failure>(())).unwrap();
        let mut queue = Queue(vec![(senders[1].1.write(b"").from.clone(), b"early".to_vec())]);
        let mut sent: Vec<(usize, Vec<u8>)> = vec![(1, b"early".to_vec())];
        let mut returned = 0;
        for (k, event) in "wrwwrrrrwrwwwrwrrrr".chars().enumerate() {
            if event == 'w' {
                let data = vec![k as u8; 3000 * k];
                let datagram = senders[k % 2].1.write(&data);
                queue.0.push((datagram.from.clone(), datagram.data.to_vec()));
                sent.push((k % 2, data));
            } else {
                let received = queue.read(&mut mux, sizing);
                match mux.read_nonblock(received).unwrap() {
                    Some(read) => {
                        let (sender, data) = &sent[returned];
                        assert_eq!(read.data, &data[..]);
                        assert_eq!(read.tag, senders[*sender].0);
                        returned += 1;
                    }
                    None => assert_eq!(returned, sent.len()),
                }
            }
            assert_eq!(returned + queue.0.len(), sent.len());
        }
        assert_eq!(returned, sent.len());
    }
}

#[test]
fn buffer_length_after_a_read() {
    for (sizing, sizes, expected) in [
        (Sizing::Told, [8191, 8192, 8193, 5], [8192, 8192, 8193, 8193]),
        (Sizing::Growing, [8191, 8192, 40000, 5], [8192, 16384, 65536, 65536]),
    ] {
        let mut mux = make_async_mux();
        for (size, len) in sizes.iter().zip(expected) {
            let mut queue = Queue(vec![(Address::Unnamed, vec![1; *size])]);
            queue.read(&mut mux, sizing).unwrap();
            assert_eq!(mux.buf_len(), len);
        }
    }
}

#[test]
fn packets_can_arrive_between_the_calls_of_a_read() {
    for first in [
        ReadCall::PeekLen,
        ReadCall::Peek,
        ReadCall::Wait(Sizing::Told),
        ReadCall::Wait(Sizing::Growing),
    ] {
        let mux = make_mux();
        let senders = [make_sender(&mux, 1), make_sender(&mux, 2)];
        let mut mux = AsyncMux::with_mux(mux, Ok::<(), Failure>(())).unwrap();
        let mut queue = Queue(Vec::new());
        let mut sent: Vec<(usize, Vec<u8>)> = Vec::new();
        let mut returned = 0;
        for round in 0..12usize {
            let mut call = first;
            let received = loop {
                for k in 0..2usize {
                    let data = vec![(round + k) as u8; 5000 * ((round + 3 * k) % 7)];
                    let datagram = senders[k].1.write(&data);
                    queue.0.push((datagram.from.clone(), datagram.data.to_vec()));
                    sent.push((k, data));
                }
                let reply = queue.serve(call, mux.buf_mut());
                match mux.recv_from_full(call, reply) {
                    ReadStep::Call(next) => call = next,
                    ReadStep::Done(result) => break result,
                }
            };
            let read = mux.read(received).unwrap();
            let (sender, data) = &sent[returned];
            assert_eq!(read.data, &data[..]);
            assert_eq!(read.tag, senders[*sender].0);
            returned += 1;
            assert_eq!(returned + queue.0.len(), sent.len());
        }
    }
}

#[test]
fn failed_and_abandoned_reads_lose_nothing() {
    for sizing in [Sizing::Told, Sizing::Growing] {
        let mut mux = make_async_mux();
        let data = vec![9; 20000];
        let mut queue = Queue(vec![(Address::Abstract(b"s".to_vec()), data.clone())]);
        for calls in 0..4 {
            let mut call = ReadCall::first(sizing);
            for _ in 0..calls {
                if matches!(call, ReadCall::Receive | ReadCall::Discard(_)) {
                    break;
                }
                let reply = queue.serve(call, mux.buf_mut());
                call = next_call(mux.recv_from_full(call, reply));
            }
            match mux.recv_from_full(call, failed(ErrorKind::Other, 4)) {
                ReadStep::Done(Err(fault)) => assert_eq!(fault.error, 4),
                _ => panic!("the read goes on after an error"),
            }
        }
        let received = queue.read(&mut mux, sizing);
        assert_eq!(mux.read(received).unwrap().data, &data[..]);
        let received = queue.read(&mut mux, sizing);
        assert!(mux.read_nonblock(received).unwrap().is_none());
    }
}
