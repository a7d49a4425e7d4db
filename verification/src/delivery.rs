//! What a mux promises about data: it comes out in order, whole, and tagged by its sender.
//!
//! The socket behind a mux is a queue of packets. This module describes what the calls of a read
//! do on such a queue, and shows what reads return on it.

use vstd::prelude::*;

use crate::address::same_address;
use crate::address::AddressView;
use crate::async_mux::without_waiting;
use crate::error::ErrorKind;
use crate::error::Fault;
use crate::mux::MuxView;
use crate::read::first_call;
use crate::read::is_reply;
use crate::read::packet_in;
use crate::read::recv_progress;
use crate::read::ReadCall;
use crate::read::ReadStepView;
use crate::read::ReceivedView;
use crate::read::Sizing;
use crate::sender::datagram_of;
use crate::sender::DatagramView;
use crate::sender::MuxSenderView;
use crate::tag::Packet;

verus! {

/// The buffer `buf` after a call copied `data` into it, as far as it fits.
pub open spec fn filled(buf: Seq<u8>, data: Seq<u8>) -> Seq<u8> {
    if data.len() <= buf.len() {
        data + buf.skip(data.len() as int)
    } else {
        data.take(buf.len() as int)
    }
}

/// How many bytes of `data` fit the buffer `buf`.
pub open spec fn fitting(buf: Seq<u8>, data: Seq<u8>) -> usize {
    if data.len() <= buf.len() {
        data.len() as usize
    } else {
        buf.len() as usize
    }
}

/// Whether a call comes back on a socket that does not wait: only waiting for an empty socket does
/// not.
pub open spec fn comes_back(queue: Seq<Packet>, call: ReadCall) -> bool {
    queue.len() > 0 || !(call is Wait)
}

/// What a call of a read that comes back does on a socket that does not wait: the packets it leaves on the socket, what it leaves in
/// the buffer, and its reply. On an empty socket it fails with `blocked`.
pub open spec fn serve<E>(queue: Seq<Packet>, buf: Seq<u8>, call: ReadCall, blocked: Fault<E>) -> (
    Seq<Packet>,
    Seq<u8>,
    Result<ReceivedView, Fault<E>>,
) {
    if queue.len() == 0 {
        (queue, buf, Err(blocked))
    } else {
        let next = queue.first();
        match call {
            ReadCall::Wait(_) => (
                queue,
                buf,
                Ok(ReceivedView { len: 0, from: AddressView::Unnamed }),
            ),
            ReadCall::PeekLen => (
                queue,
                buf,
                Ok(ReceivedView { len: next.data.len() as usize, from: AddressView::Unnamed }),
            ),
            ReadCall::Peek => (
                queue,
                filled(buf, next.data),
                Ok(ReceivedView { len: fitting(buf, next.data), from: AddressView::Unnamed }),
            ),
            ReadCall::Receive => (
                queue.drop_first(),
                filled(buf, next.data),
                Ok(ReceivedView { len: fitting(buf, next.data), from: next.from }),
            ),
            ReadCall::Discard(_) => (
                queue.drop_first(),
                buf,
                Ok(ReceivedView { len: 0, from: next.from }),
            ),
        }
    }
}

/// The packets, the buffer and the result that a read ends with.
#[verifier::ext_equal]
pub struct ReadEnd<E> {
    pub queue: Seq<Packet>,
    pub buf: Seq<u8>,
    pub result: Result<Packet, Fault<E>>,
}

/// How a read ends that is about to make `call`, if it needs no more than `calls` calls, each of
/// them comes back, and every reply on the way is one that it accepts. Nothing arrives meanwhile.
pub open spec fn read_end<E>(
    queue: Seq<Packet>,
    buf: Seq<u8>,
    call: ReadCall,
    blocked: Fault<E>,
    calls: nat,
) -> Option<ReadEnd<E>>
    decreases calls,
{
    let (rest, seen, reply) = serve(queue, buf, call, blocked);
    if calls == 0 || !comes_back(queue, call) || !is_reply(seen, call, reply) {
        None
    } else {
        let (after, step) = recv_progress(seen, call, reply);
        match step {
            ReadStepView::Call(next) => read_end(rest, after, next, blocked, (calls - 1) as nat),
            ReadStepView::Done(Ok(received)) => Some(
                ReadEnd { queue: rest, buf: after, result: Ok(packet_in(after, received)) },
            ),
            ReadStepView::Done(Err(fault)) => Some(
                ReadEnd { queue: rest, buf: after, result: Err(fault) },
            ),
        }
    }
}

/// Whether a read with `sizing` can hold a packet in memory.
pub open spec fn holdable(sizing: Sizing, packet: Packet) -> bool {
    match sizing {
        Sizing::Told => packet.data.len() <= isize::MAX,
        Sizing::Growing => 2 * packet.data.len() <= isize::MAX,
    }
}

/// More calls than a read of `packet` ever needs.
pub open spec fn enough_calls(packet: Packet) -> nat {
    packet.data.len() + 4
}

/// The length that a buffer of `len` bytes comes to when it is doubled until a packet of `size`
/// bytes leaves room in it.
pub open spec fn doubled_past(len: nat, size: nat) -> nat
    decreases (if len > size { 0int } else { size + 1 - len }),
{
    if len == 0 || size < len {
        len
    } else {
        doubled_past(2 * len, size)
    }
}

/// The length that a buffer of `len` bytes has once a packet of `size` bytes was read into it.
pub open spec fn len_after_read(sizing: Sizing, len: nat, size: nat) -> nat {
    match sizing {
        Sizing::Told => if size > len {
            size
        } else {
            len
        },
        Sizing::Growing => doubled_past(len, size),
    }
}

/// Reading a packet never makes the buffer shorter, and the packet fits it.
pub proof fn len_after_read_fits(sizing: Sizing, len: nat, size: nat)
    requires
        len > 0,
    ensures
        len_after_read(sizing, len, size) >= len,
        len_after_read(sizing, len, size) >= size,
    decreases (if len > size { 0int } else { size + 1 - len }),
{
    if sizing == Sizing::Growing && len <= size {
        len_after_read_fits(sizing, 2 * len, size);
    }
}

proof fn lemma_growing_read<E>(
    queue: Seq<Packet>,
    buf: Seq<u8>,
    blocked: Fault<E>,
    calls: nat,
)
    requires
        queue.len() > 0,
        buf.len() > 0,
        buf.len() <= isize::MAX,
        holdable(Sizing::Growing, queue.first()),
        calls >= 2,
        calls + buf.len() >= queue.first().data.len() + 3,
    ensures
        read_end(queue, buf, ReadCall::Peek, blocked, calls) matches Some(end) && {
            &&& end.queue == queue.drop_first()
            &&& end.result == Ok::<Packet, Fault<E>>(queue.first())
            &&& end.buf.len() == doubled_past(buf.len(), queue.first().data.len())
            &&& end.buf.len() <= isize::MAX
        },
    decreases calls,
{
    let next = queue.first();
    let (rest, seen, reply) = serve(queue, buf, ReadCall::Peek, blocked);
    let (after, step) = recv_progress(seen, ReadCall::Peek, reply);
    assert(seen.len() == buf.len());
    reveal_with_fuel(read_end, 3);
    if next.data.len() >= buf.len() {
        lemma_growing_read(queue, after, blocked, (calls - 1) as nat);
    } else {
        let call = ReadCall::Discard(next.data.len() as usize);
        assert(step == ReadStepView::<Fault<E>>::Call(call));
        assert(after.take(next.data.len() as int) =~= next.data);
        assert(read_end(rest, after, call, blocked, (calls - 1) as nat) is Some);
    }
}

/// A read takes exactly the next packet off the socket and returns it whole, with the tag of its
/// sender, whichever way it finds out the packet's size and however small the buffer was. It comes
/// to an end. Where the system tells the size, the buffer ends at the larger of its length and the
/// packet's; elsewhere it is doubled until the packet leaves room in it.
pub proof fn read_returns_next_packet<E>(
    queue: Seq<Packet>,
    buf: Seq<u8>,
    sizing: Sizing,
    blocked: Fault<E>,
)
    requires
        queue.len() > 0,
        0 < buf.len() <= isize::MAX,
        holdable(sizing, queue.first()),
    ensures
        read_end(
            queue,
            buf,
            first_call(sizing),
            blocked,
            enough_calls(queue.first()),
        ) matches Some(end) && {
            &&& end.queue == queue.drop_first()
            &&& end.result == Ok::<Packet, Fault<E>>(queue.first())
            &&& end.buf.len() == len_after_read(sizing, buf.len(), queue.first().data.len())
            &&& buf.len() <= end.buf.len() <= isize::MAX
        },
{
    let next = queue.first();
    len_after_read_fits(sizing, buf.len(), next.data.len());
    match sizing {
        Sizing::Told => {
            reveal_with_fuel(read_end, 3);
            let (rest, seen, reply) = serve(queue, buf, ReadCall::PeekLen, blocked);
            let (after, step) = recv_progress(seen, ReadCall::PeekLen, reply);
            assert(filled(after, next.data).take(next.data.len() as int) =~= next.data);
        },
        Sizing::Growing => {
            lemma_growing_read(queue, buf, blocked, enough_calls(next));
        },
    }
}

/// Waiting for the socket first changes nothing about how a read ends.
pub proof fn waiting_read_ends_the_same<E>(
    queue: Seq<Packet>,
    buf: Seq<u8>,
    sizing: Sizing,
    blocked: Fault<E>,
    calls: nat,
)
    requires
        queue.len() > 0,
    ensures
        read_end(queue, buf, ReadCall::Wait(sizing), blocked, calls + 1) == read_end(
            queue,
            buf,
            first_call(sizing),
            blocked,
            calls,
        ),
{
}

/// A read on an empty socket fails as the socket does and changes nothing, so a read that must not
/// wait returns nothing.
pub proof fn read_on_empty_socket<E>(buf: Seq<u8>, sizing: Sizing, blocked: Fault<E>)
    requires
        blocked.kind == ErrorKind::WouldBlock,
    ensures
        read_end(Seq::empty(), buf, first_call(sizing), blocked, 1) == Some(
            ReadEnd { queue: Seq::empty(), buf, result: Err(blocked) },
        ),
        without_waiting::<E>(Err(blocked)) == Ok::<Option<Packet>, Fault<E>>(None),
{
    reveal_with_fuel(read_end, 2);
}

/// How a read ends on a socket whose packets can all be held.
pub(crate) proof fn lemma_next_read<E>(
    queue: Seq<Packet>,
    buf: Seq<u8>,
    sizing: Sizing,
    blocked: Fault<E>,
) -> (end: ReadEnd<E>)
    requires
        queue.len() > 0,
        0 < buf.len() <= isize::MAX,
        forall|i: int| 0 <= i < queue.len() ==> holdable(sizing, #[trigger] queue[i]),
    ensures
        read_end(queue, buf, first_call(sizing), blocked, enough_calls(queue.first())) == Some(end),
        end.queue == queue.drop_first(),
        end.result == Ok::<Packet, Fault<E>>(queue.first()),
        buf.len() <= end.buf.len() <= isize::MAX,
        forall|i: int| 0 <= i < end.queue.len() ==> holdable(sizing, #[trigger] end.queue[i]),
{
    assert(queue.first() == queue[0]);
    read_returns_next_packet(queue, buf, sizing, blocked);
    let end = read_end(
        queue,
        buf,
        first_call(sizing),
        blocked,
        enough_calls(queue.first()),
    )->0;
    assert forall|i: int| 0 <= i < end.queue.len() implies holdable(
        sizing,
        #[trigger] end.queue[i],
    ) by {
        assert(end.queue[i] == queue[i + 1]);
    }
    end
}

/// What `n` reads in a row return, if all of them find a packet.
pub open spec fn packets_read(queue: Seq<Packet>, buf: Seq<u8>, sizing: Sizing, n: nat) -> Option<
    Seq<Packet>,
>
    decreases n,
{
    if n == 0 {
        Some(Seq::empty())
    } else {
        match read_end(
            queue,
            buf,
            first_call(sizing),
            Fault { kind: ErrorKind::WouldBlock, error: () },
            enough_calls(queue.first()),
        ) {
            Some(end) => match (
                end.result,
                packets_read(end.queue, end.buf, sizing, (n - 1) as nat),
            ) {
                (Ok(packet), Some(others)) => Some(seq![packet] + others),
                _ => None,
            },
            None => None,
        }
    }
}

/// Reads return the packets of a socket in order, each once and whole.
pub proof fn reads_return_packets_in_order(
    queue: Seq<Packet>,
    buf: Seq<u8>,
    sizing: Sizing,
    n: nat,
)
    requires
        n <= queue.len(),
        0 < buf.len() <= isize::MAX,
        forall|i: int| 0 <= i < queue.len() ==> holdable(sizing, #[trigger] queue[i]),
    ensures
        packets_read(queue, buf, sizing, n) == Some(queue.take(n as int)),
    decreases n,
{
    if n == 0 {
        assert(queue.take(0) =~= Seq::<Packet>::empty());
    } else {
        let blocked = Fault { kind: ErrorKind::WouldBlock, error: () };
        let end = lemma_next_read(queue, buf, sizing, blocked);
        reads_return_packets_in_order(end.queue, end.buf, sizing, (n - 1) as nat);
        assert(seq![queue.first()] + end.queue.take(n - 1) =~= queue.take(n as int));
    }
}

/// What reads that must not wait have come to once one of them found nothing: what they returned,
/// and the socket and the buffer after them.
#[verifier::ext_equal]
pub struct Drained {
    pub packets: Seq<Packet>,
    pub queue: Seq<Packet>,
    pub buf: Seq<u8>,
}

/// What reads that must not wait come to with the first that finds nothing, if that comes within
/// `n` reads.
pub open spec fn drained(queue: Seq<Packet>, buf: Seq<u8>, sizing: Sizing, n: nat) -> Option<
    Drained,
>
    decreases n,
{
    if n == 0 {
        None
    } else {
        match read_end(
            queue,
            buf,
            first_call(sizing),
            Fault { kind: ErrorKind::WouldBlock, error: () },
            enough_calls(queue.first()),
        ) {
            Some(end) => match without_waiting(end.result) {
                Ok(None) => Some(
                    Drained { packets: Seq::empty(), queue: end.queue, buf: end.buf },
                ),
                Ok(Some(packet)) => match drained(end.queue, end.buf, sizing, (n - 1) as nat) {
                    Some(d) => Some(Drained { packets: seq![packet] + d.packets, ..d }),
                    None => None,
                },
                Err(_) => None,
            },
            None => None,
        }
    }
}

/// Reading without waiting until nothing is found returns all that was left on the socket, in
/// order: as many reads as there were packets find one, the next finds nothing, and so does every
/// later one.
pub proof fn draining_returns_all_packets(queue: Seq<Packet>, buf: Seq<u8>, sizing: Sizing)
    requires
        0 < buf.len() <= isize::MAX,
        forall|i: int| 0 <= i < queue.len() ==> holdable(sizing, #[trigger] queue[i]),
    ensures
        drained(queue, buf, sizing, queue.len() + 1) matches Some(d) && {
            &&& d.packets == queue
            &&& d.queue == Seq::<Packet>::empty()
            &&& drained(d.queue, d.buf, sizing, 1) == Some(
                Drained { packets: Seq::empty(), ..d },
            )
        },
        drained(queue, buf, sizing, queue.len()) is None,
    decreases queue.len(),
{
    let blocked = Fault { kind: ErrorKind::WouldBlock, error: () };
    reveal_with_fuel(drained, 2);
    if queue.len() == 0 {
        assert(queue =~= Seq::<Packet>::empty());
        reveal_with_fuel(read_end, 2);
    } else {
        let end = lemma_next_read(queue, buf, sizing, blocked);
        draining_returns_all_packets(end.queue, end.buf, sizing);
        assert(seq![queue.first()] + end.queue =~= queue);
    }
}

/// Whether `tag` and `sender` belong together and the sender sends to `mux`.
pub open spec fn is_sender_of(mux: MuxView, tag: AddressView, sender: MuxSenderView) -> bool {
    tag == sender.addr && sender.peer == mux.receive_addr
}

/// One write through a sender that has a tag.
#[verifier::ext_equal]
pub struct Write {
    pub tag: AddressView,
    pub sender: MuxSenderView,
    pub data: Seq<u8>,
}

/// The packets on the socket at the address `at` after a datagram was sent.
pub open spec fn after_send(queue: Seq<Packet>, at: AddressView, d: DatagramView) -> Seq<Packet> {
    if same_address(d.to, at) {
        queue.push(Packet { data: d.data, from: d.from })
    } else {
        queue
    }
}

/// The packets on the socket of `mux` after some writes, one after the other.
pub open spec fn after_writes(mux: MuxView, writes: Seq<Write>) -> Seq<Packet>
    decreases writes.len(),
{
    if writes.len() == 0 {
        Seq::empty()
    } else {
        let w = writes.last();
        after_send(
            after_writes(mux, writes.drop_last()),
            mux.receive_addr,
            datagram_of(w.sender, w.data),
        )
    }
}

/// After any writes through any senders of a mux whose socket was empty, reading as often returns
/// the data of each write, in the order of the writes, with the tag of the sender it was written
/// to.
pub proof fn writes_come_out_in_order_and_tagged(mux: MuxView, writes: Seq<Write>, sizing: Sizing)
    requires
        mux.wf(),
        forall|i: int|
            0 <= i < writes.len() ==> is_sender_of(
                mux,
                #[trigger] writes[i].tag,
                writes[i].sender,
            ),
        forall|i: int|
            0 <= i < writes.len() ==> holdable(
                sizing,
                Packet { data: #[trigger] writes[i].data, from: writes[i].tag },
            ),
    ensures
        packets_read(after_writes(mux, writes), mux.buf, sizing, writes.len()) == Some(
            writes.map_values(|w: Write| Packet { data: w.data, from: w.tag }),
        ),
{
    let queue = after_writes(mux, writes);
    lemma_after_writes(mux, writes);
    assert forall|i: int| 0 <= i < queue.len() implies holdable(sizing, #[trigger] queue[i]) by {
        assert(queue[i] == Packet { data: writes[i].data, from: writes[i].tag });
    }
    reads_return_packets_in_order(queue, mux.buf, sizing, writes.len());
    assert(queue.take(writes.len() as int) =~= queue);
}

proof fn lemma_after_writes(mux: MuxView, writes: Seq<Write>)
    requires
        forall|i: int|
            0 <= i < writes.len() ==> is_sender_of(
                mux,
                #[trigger] writes[i].tag,
                writes[i].sender,
            ),
    ensures
        after_writes(mux, writes) == writes.map_values(
            |w: Write| Packet { data: w.data, from: w.tag },
        ),
    decreases writes.len(),
{
    let expected = writes.map_values(|w: Write| Packet { data: w.data, from: w.tag });
    if writes.len() > 0 {
        let before = writes.drop_last();
        assert forall|i: int| 0 <= i < before.len() implies is_sender_of(
            mux,
            #[trigger] before[i].tag,
            before[i].sender,
        ) by {
            assert(before[i] == writes[i]);
        }
        lemma_after_writes(mux, before);
        let w = writes.last();
        assert(w == writes[writes.len() - 1]);
        assert(is_sender_of(mux, writes[writes.len() - 1].tag, w.sender));
        assert(same_address(w.sender.peer, mux.receive_addr));
        assert(after_writes(mux, writes) =~= expected);
    } else {
        assert(after_writes(mux, writes) =~= expected);
    }
}

/// Taking the reply to a call never shortens the buffer or changes the bytes that the call left in
/// it, and leaves it at a size that a mux can have. The calls themselves are what fills the buffer.
pub proof fn replies_keep_the_buffer<E>(
    mux: MuxView,
    call: ReadCall,
    reply: Result<ReceivedView, E>,
)
    requires
        mux.wf(),
        is_reply(mux.buf, call, reply),
    ensures
        mux.buf.is_prefix_of(recv_progress(mux.buf, call, reply).0),
        (MuxView { buf: recv_progress(mux.buf, call, reply).0, ..mux }).wf(),
{
    let after = recv_progress(mux.buf, call, reply).0;
    assert(after.subrange(0, mux.buf.len() as int) =~= mux.buf);
}

} // verus!
