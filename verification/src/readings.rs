//! What callers of a read can rely on, from its first call to the data that comes back.

use vstd::prelude::*;

use crate::address::Address;
use crate::address::AddressView;
use crate::async_mux::AsyncMux;
use crate::delivery::comes_back;
use crate::delivery::enough_calls;
use crate::delivery::filled;
use crate::delivery::fitting;
use crate::delivery::holdable;
use crate::delivery::read_end;
use crate::delivery::read_on_empty_socket;
use crate::delivery::read_returns_next_packet;
use crate::delivery::serve;
use crate::delivery::ReadEnd;
use crate::error::ErrorKind;
use crate::error::Fault;
use crate::error::MuxError;
use crate::mux::Mux;
use crate::read::first_call;
use crate::read::is_reply;
use crate::read::reply_view;
use crate::read::ReadCall;
use crate::read::ReadStep;
use crate::read::Received;
use crate::read::Sizing;
use crate::tag::Packet;
use crate::tag::TaggedData;

verus! {

/// Where the system tells the size of the next packet, a read, from start to end: it asks for the
/// size, receives into a buffer with room for all of the packet, and returns all of it with the
/// address it came from, whatever was in the buffer before and however small it was.
pub proof fn told_read_from_start_to_end<'a, 'b, 'c, E>(
    data: Seq<u8>,
    from: AddressView,
    m: &'a mut Mux,
    peeked: Received,
    r: ReadStep<E>,
    n: &'b mut Mux,
    received: Received,
    s: ReadStep<E>,
    o: &'c mut Mux,
    got: Received,
    read: Result<TaggedData<'c>, E>,
)
    requires
        data.len() <= isize::MAX,
        peeked.len == data.len(),
        call_ensures(Mux::recv_from_full::<E>, (m, ReadCall::PeekLen, Ok(peeked)), r),
        old(n)@.buf == filled(final(m)@.buf, data),
        received.len == fitting(old(n)@.buf, data),
        received.from@ == from,
        call_ensures(Mux::recv_from_full::<E>, (n, ReadCall::Receive, Ok(received)), s),
        old(o)@ == final(n)@,
        s == ReadStep::<E>::Done(Ok(got)) ==> call_ensures(Mux::read::<E>, (o, Ok(got)), read),
    ensures
        r == ReadStep::<E>::Call(ReadCall::Receive),
        s is Done && s->Done_0 is Ok,
        s == ReadStep::<E>::Done(Ok(got)) ==> (read matches Ok(tagged) && tagged.data@ == data
            && tagged.tag@ == from),
{
    assert(old(n)@.buf.take(data.len() as int) =~= data);
}

/// The same of a mux whose reads must not wait: what comes back is all of the packet.
pub proof fn told_nonblocking_read_from_start_to_end<'a, 'b, 'c, E>(
    data: Seq<u8>,
    from: AddressView,
    m: &'a mut AsyncMux,
    peeked: Received,
    r: ReadStep<Fault<E>>,
    n: &'b mut AsyncMux,
    received: Received,
    s: ReadStep<Fault<E>>,
    o: &'c mut AsyncMux,
    got: Received,
    read: Result<Option<TaggedData<'c>>, Fault<E>>,
)
    requires
        data.len() <= isize::MAX,
        peeked.len == data.len(),
        call_ensures(AsyncMux::recv_from_full::<Fault<E>>, (m, ReadCall::PeekLen, Ok(peeked)), r),
        old(n)@.buf == filled(final(m)@.buf, data),
        received.len == fitting(old(n)@.buf, data),
        received.from@ == from,
        call_ensures(AsyncMux::recv_from_full::<Fault<E>>, (n, ReadCall::Receive, Ok(received)), s),
        old(o)@ == final(n)@,
        s == ReadStep::<Fault<E>>::Done(Ok(got)) ==> call_ensures(
            AsyncMux::read_nonblock::<E>,
            (o, Ok(got)),
            read,
        ),
    ensures
        r == ReadStep::<Fault<E>>::Call(ReadCall::Receive),
        s is Done && s->Done_0 is Ok,
        s == ReadStep::<Fault<E>>::Done(Ok(got)) ==> (read matches Ok(Some(tagged))
            && tagged.data@ == data && tagged.tag@ == from),
{
    assert(old(n)@.buf.take(data.len() as int) =~= data);
}

/// Where the size of a packet is found by trying, a look at a packet that leaves room in the buffer
/// is the last one: the packet is taken off the socket, and all of it is returned with the address
/// it came from.
pub proof fn last_look_to_end<'a, 'b, 'c, E>(
    before: Seq<u8>,
    data: Seq<u8>,
    from: AddressView,
    m: &'a mut Mux,
    peeked: Received,
    r: ReadStep<E>,
    n: &'b mut Mux,
    taken: Received,
    s: ReadStep<E>,
    o: &'c mut Mux,
    got: Received,
    read: Result<TaggedData<'c>, E>,
)
    requires
        data.len() < before.len() <= isize::MAX,
        old(m)@.buf == filled(before, data),
        peeked.len == fitting(before, data),
        call_ensures(Mux::recv_from_full::<E>, (m, ReadCall::Peek, Ok(peeked)), r),
        old(n)@ == final(m)@,
        taken.from@ == from,
        r matches ReadStep::Call(call) ==> call_ensures(
            Mux::recv_from_full::<E>,
            (n, call, Ok(taken)),
            s,
        ),
        old(o)@ == final(n)@,
        s == ReadStep::<E>::Done(Ok(got)) ==> call_ensures(Mux::read::<E>, (o, Ok(got)), read),
    ensures
        r matches ReadStep::Call(ReadCall::Discard(_)),
        s is Done && s->Done_0 is Ok,
        s == ReadStep::<E>::Done(Ok(got)) ==> (read matches Ok(tagged) && tagged.data@ == data
            && tagged.tag@ == from),
{
    assert(old(m)@.buf.take(data.len() as int) =~= data);
}

/// The calls of a read follow each other as they should, whatever is in the buffer. Knowing the size of
/// the packet, it is received. A look at the packet is followed by another one exactly where the packet
/// may not have fitted. The last call tells where the packet came from.
pub proof fn calls_follow_each_other<'a, E>(
    m: &'a mut Mux,
    call: ReadCall,
    received: Received,
    r: ReadStep<E>,
)
    requires
        call_ensures(Mux::recv_from_full::<E>, (m, call, Ok(received)), r),
    ensures
        r matches ReadStep::Call(next) ==> match next {
            ReadCall::Wait(_) => false,
            ReadCall::PeekLen => call == ReadCall::Wait(Sizing::Told),
            ReadCall::Peek => call == ReadCall::Wait(Sizing::Growing) || call == ReadCall::Peek
                && received.len == old(m)@.buf.len(),
            ReadCall::Receive => call == ReadCall::PeekLen,
            ReadCall::Discard(len) => call == ReadCall::Peek && len == received.len && len
                != old(m)@.buf.len(),
        },
        r matches ReadStep::Done(end) ==> end matches Ok(got) && got.from@ == received.from@ && (
        call == ReadCall::Receive && got.len == received.len || call == ReadCall::Discard(got.len)),
        r is Done <==> call is Receive || call is Discard,
{
}

/// A look that fills the buffer is repeated with a buffer twice as long.
pub proof fn full_buffer_is_doubled<'a, E>(m: &'a mut Mux, peeked: Received, r: ReadStep<E>)
    requires
        peeked.len == old(m)@.buf.len(),
        call_ensures(Mux::recv_from_full::<E>, (m, ReadCall::Peek, Ok(peeked)), r),
    ensures
        r == ReadStep::<E>::Call(ReadCall::Peek),
        final(m)@.buf.len() == 2 * old(m)@.buf.len(),
{
}

/// Told the size of the next packet, the buffer becomes as long as the packet, or stays as it is if
/// it is longer.
pub proof fn buffer_has_room_for_told_size<'a, E>(m: &'a mut Mux, peeked: Received, r: ReadStep<E>)
    requires
        call_ensures(Mux::recv_from_full::<E>, (m, ReadCall::PeekLen, Ok(peeked)), r),
    ensures
        final(m)@.buf.len() >= peeked.len,
        final(m)@.buf.len() >= old(m)@.buf.len(),
        final(m)@.buf.len() == peeked.len || final(m)@.buf.len() == old(m)@.buf.len(),
{
}

/// Whatever a call comes back with, the bytes in the buffer stay, bytes that are added are zeros,
/// and the mux keeps its address and its directory. Bytes are added only where the packet is larger
/// than the buffer or a look at it filled the buffer.
pub proof fn replies_leave_the_mux_as_it_is<'a, E>(
    m: &'a mut Mux,
    call: ReadCall,
    reply: Result<Received, E>,
    r: ReadStep<E>,
)
    requires
        call_ensures(Mux::recv_from_full::<E>, (m, call, reply), r),
    ensures
        final(m)@.receive_addr == old(m)@.receive_addr,
        final(m)@.tempdir == old(m)@.tempdir,
        final(m)@.buf.len() >= old(m)@.buf.len(),
        forall|i: int|
            0 <= i < final(m)@.buf.len() ==> #[trigger] final(m)@.buf[i] == if i < old(
                m,
            )@.buf.len() {
                old(m)@.buf[i]
            } else {
                0
            },
        final(m)@.buf.len() > old(m)@.buf.len() ==> (reply matches Ok(received) && (call
            == ReadCall::PeekLen && received.len > old(m)@.buf.len() || call == ReadCall::Peek
            && received.len == old(m)@.buf.len())),
{
}

/// An error ends a read at any call. It is handed on as it is, and the mux is unchanged.
pub proof fn errors_end_reads<'a, 'b, E>(
    m: &'a mut Mux,
    call: ReadCall,
    error: E,
    r: ReadStep<E>,
    n: &'b mut Mux,
    read: Result<TaggedData<'b>, E>,
)
    requires
        call_ensures(Mux::recv_from_full::<E>, (m, call, Err(error)), r),
        call_ensures(Mux::read::<E>, (n, Err(error)), read),
    ensures
        r == ReadStep::<E>::Done(Err(error)),
        final(m)@ == old(m)@,
        read == Err::<TaggedData<'b>, E>(error),
        final(n)@ == old(n)@,
{
}

/// A read starts with asking for the size where the system tells it and with a look elsewhere. A
/// read of an asynchronous mux waits first and then goes on in the same way.
pub proof fn reads_start_in_order<'a, E>(
    sizing: Sizing,
    first: ReadCall,
    waiting: ReadCall,
    m: &'a mut AsyncMux,
    ready: Received,
    r: ReadStep<E>,
)
    requires
        call_ensures(ReadCall::first, (sizing,), first),
        call_ensures(AsyncMux::first_call, (sizing,), waiting),
        call_ensures(AsyncMux::recv_from_full::<E>, (m, waiting, Ok(ready)), r),
    ensures
        sizing == Sizing::Told ==> first == ReadCall::PeekLen,
        sizing == Sizing::Growing ==> first == ReadCall::Peek,
        waiting == ReadCall::Wait(sizing),
        r == ReadStep::<E>::Call(first),
        final(m)@ == old(m)@,
{
}

/// A read that is done returns exactly as many bytes as were received, from the front of the
/// buffer, with the address they came from, and leaves the mux as it is.
pub proof fn read_returns_what_was_received<'a, E>(
    m: &'a mut Mux,
    received: Received,
    read: Result<TaggedData<'a>, E>,
)
    requires
        received.len <= old(m)@.buf.len(),
        call_ensures(Mux::read::<E>, (m, Ok(received)), read),
    ensures
        read matches Ok(tagged) && {
            &&& tagged.data@.len() == received.len
            &&& forall|i: int|
                0 <= i < received.len ==> #[trigger] tagged.data@[i] == old(m)@.buf[i]
            &&& match received.from {
                Address::Abstract(name) => tagged.tag@ == AddressView::Abstract(name@),
                Address::Pathname(path) => tagged.tag@ == AddressView::Pathname(path@),
                Address::Unnamed => tagged.tag@ == AddressView::Unnamed,
            }
        },
        final(m)@ == old(m)@,
{
}

/// An asynchronous mux reads as a mux does.
pub proof fn asynchronous_mux_reads_as_mux<'a, 'b, 'c, 'd, E>(
    m: &'a mut Mux,
    a: &'b mut AsyncMux,
    call: ReadCall,
    reply: Result<Received, E>,
    r: ReadStep<E>,
    s: ReadStep<E>,
    n: &'c mut Mux,
    b: &'d mut AsyncMux,
    received: Result<Received, E>,
    x: Result<TaggedData<'c>, E>,
    y: Result<TaggedData<'d>, E>,
)
    requires
        old(m)@ == old(a)@,
        call_ensures(Mux::recv_from_full::<E>, (m, call, reply), r),
        call_ensures(AsyncMux::recv_from_full::<E>, (a, call, reply), s),
        old(n)@ == old(b)@,
        call_ensures(Mux::read::<E>, (n, received), x),
        call_ensures(AsyncMux::read::<E>, (b, received), y),
    ensures
        final(m)@ == final(a)@,
        match r {
            ReadStep::Call(next) => s == ReadStep::<E>::Call(next),
            ReadStep::Done(Ok(got)) => s matches ReadStep::Done(Ok(other)) && other.len == got.len
                && other.from@ == got.from@,
            ReadStep::Done(Err(error)) => s == ReadStep::<E>::Done(Err(error)),
        },
        final(n)@ == final(b)@,
        match x {
            Ok(tagged) => y matches Ok(other) && other.data@ == tagged.data@ && other.tag@
                == tagged.tag@,
            Err(error) => y == Err::<TaggedData<'d>, E>(error),
        },
{
}

/// A read that must not wait returns the same data and tag as one that may, nothing exactly where
/// the read would have to wait, and every other error as it is. It leaves the mux as it is.
pub proof fn nonblocking_read_returns_what_read_returns<'a, 'b, E>(
    m: &'a mut AsyncMux,
    n: &'b mut AsyncMux,
    received: Result<Received, Fault<E>>,
    x: Result<TaggedData<'a>, Fault<E>>,
    y: Result<Option<TaggedData<'b>>, Fault<E>>,
)
    requires
        old(m)@ == old(n)@,
        call_ensures(AsyncMux::read::<Fault<E>>, (m, received), x),
        call_ensures(AsyncMux::read_nonblock::<E>, (n, received), y),
    ensures
        match x {
            Ok(tagged) => y matches Ok(Some(other)) && other.data@ == tagged.data@ && other.tag@
                == tagged.tag@,
            Err(fault) => if fault.kind == ErrorKind::WouldBlock {
                y matches Ok(None)
            } else {
                y == Err::<Option<TaggedData<'b>>, Fault<E>>(fault)
            },
        },
        final(n)@ == old(n)@,
{
}

/// A read that must not wait and was received in full returns exactly as many bytes as were
/// received, from the front of the buffer, with the address they came from.
pub proof fn nonblocking_read_returns_what_was_received<'a, E>(
    m: &'a mut AsyncMux,
    received: Received,
    read: Result<Option<TaggedData<'a>>, Fault<E>>,
)
    requires
        received.len <= old(m)@.buf.len(),
        call_ensures(AsyncMux::read_nonblock::<E>, (m, Ok(received)), read),
    ensures
        read matches Ok(Some(tagged)) && {
            &&& tagged.data@.len() == received.len
            &&& forall|i: int|
                0 <= i < received.len ==> #[trigger] tagged.data@[i] == old(m)@.buf[i]
            &&& match received.from {
                Address::Abstract(name) => tagged.tag@ == AddressView::Abstract(name@),
                Address::Pathname(path) => tagged.tag@ == AddressView::Pathname(path@),
                Address::Unnamed => tagged.tag@ == AddressView::Unnamed,
            }
        },
{
}

/// On an empty socket that does not wait, a read ends with its first call and finds nothing.
pub proof fn nonblocking_read_of_empty_socket<'a, 'b, E>(
    sizing: Sizing,
    first: ReadCall,
    fault: Fault<E>,
    m: &'a mut AsyncMux,
    r: ReadStep<Fault<E>>,
    n: &'b mut AsyncMux,
    read: Result<Option<TaggedData<'b>>, Fault<E>>,
)
    requires
        fault.kind == ErrorKind::WouldBlock,
        call_ensures(ReadCall::first, (sizing,), first),
        call_ensures(AsyncMux::recv_from_full::<Fault<E>>, (m, first, Err(fault)), r),
        old(n)@ == final(m)@,
        r == ReadStep::<Fault<E>>::Done(Err(fault)) ==> call_ensures(
            AsyncMux::read_nonblock::<E>,
            (n, Err(fault)),
            read,
        ),
    ensures
        r == ReadStep::<Fault<E>>::Done(Err(fault)),
        read matches Ok(None),
        final(n)@ == old(m)@,
{
}

/// An asynchronous mux is the mux it was made of, if its socket could be registered. Otherwise the
/// error is handed on.
pub proof fn asynchronous_mux_is_the_mux_it_was_made_of<E>(
    mux: Mux,
    registered: Result<(), Fault<E>>,
    r: Result<AsyncMux, MuxError<E>>,
)
    requires
        call_ensures(AsyncMux::with_mux::<E>, (mux, registered), r),
    ensures
        match registered {
            Ok(_) => r matches Ok(a) && a@ == mux@,
            Err(fault) => r == Err::<AsyncMux, MuxError<E>>(MuxError::Os(fault)),
        },
{
}

/// The buffer that is handed out is the buffer of the mux: what is written to it is what the mux
/// holds afterwards, and nothing else about the mux changes.
pub proof fn buffer_is_that_of_the_mux<'a, 'b>(
    m: &'a mut Mux,
    r: &'a mut [u8],
    len: usize,
    a: &'b mut AsyncMux,
    s: &'b mut [u8],
    n: usize,
)
    requires
        call_ensures(Mux::buf_len, (&*old(m),), len),
        call_ensures(Mux::buf_mut, (m,), r),
        call_ensures(AsyncMux::buf_len, (&*old(a),), n),
        call_ensures(AsyncMux::buf_mut, (a,), s),
    ensures
        len == old(r)@.len(),
        old(r)@ == old(m)@.buf,
        final(m)@.buf == final(r)@,
        final(m)@.receive_addr == old(m)@.receive_addr,
        final(m)@.tempdir == old(m)@.tempdir,
        n == old(s)@.len(),
        old(s)@ == old(a)@.buf,
        final(a)@.buf == final(s)@,
        final(a)@.receive_addr == old(a)@.receive_addr,
        final(a)@.tempdir == old(a)@.tempdir,
{
}

/// Every reply that a socket can give is accepted: no call reports more bytes than it was given room
/// for, and sizes are those of memory. What a finished read reports can always be read.
pub proof fn socket_replies_are_accepted<'a, 'b, E>(
    m: &'a mut Mux,
    call: ReadCall,
    reply: Result<Received, E>,
    r: ReadStep<E>,
    n: &'b mut Mux,
    got: Result<Received, E>,
    done: bool,
)
    requires
        reply matches Ok(received) ==> match call {
            ReadCall::Wait(_) => true,
            ReadCall::PeekLen => received.len <= isize::MAX || received.len <= old(m)@.buf.len(),
            ReadCall::Peek => received.len <= old(m)@.buf.len() && (received.len
                == old(m)@.buf.len() ==> 2 * received.len <= isize::MAX),
            ReadCall::Receive => received.len <= old(m)@.buf.len(),
            ReadCall::Discard(len) => len <= old(m)@.buf.len(),
        },
        done ==> call_ensures(Mux::recv_from_full::<E>, (m, call, reply), r),
        done ==> r == ReadStep::<E>::Done(got),
        done ==> old(n)@ == final(m)@,
    ensures
        call_requires(Mux::recv_from_full::<E>, (m, call, reply)),
        done ==> call_requires(Mux::read::<E>, (n, got)),
{
}

/// The same of an asynchronous mux.
pub proof fn socket_replies_are_accepted_asynchronously<'a, 'b, E>(
    m: &'a mut AsyncMux,
    call: ReadCall,
    reply: Result<Received, Fault<E>>,
    r: ReadStep<Fault<E>>,
    n: &'b mut AsyncMux,
    got: Result<Received, Fault<E>>,
    done: bool,
)
    requires
        reply matches Ok(received) ==> match call {
            ReadCall::Wait(_) => true,
            ReadCall::PeekLen => received.len <= isize::MAX || received.len <= old(m)@.buf.len(),
            ReadCall::Peek => received.len <= old(m)@.buf.len() && (received.len
                == old(m)@.buf.len() ==> 2 * received.len <= isize::MAX),
            ReadCall::Receive => received.len <= old(m)@.buf.len(),
            ReadCall::Discard(len) => len <= old(m)@.buf.len(),
        },
        done ==> call_ensures(AsyncMux::recv_from_full::<Fault<E>>, (m, call, reply), r),
        done ==> r == ReadStep::<Fault<E>>::Done(got),
        done ==> old(n)@ == final(m)@,
    ensures
        call_requires(AsyncMux::recv_from_full::<Fault<E>>, (m, call, reply)),
        done ==> call_requires(AsyncMux::read::<Fault<E>>, (n, got)),
        done ==> call_requires(AsyncMux::read_nonblock::<E>, (n, got)),
{
}

/// A read that is run call by call, on the socket that `serve` describes, comes to what `read_end`
/// says of it.
pub proof fn read_comes_to_its_end<'a, E>(
    queue: Seq<Packet>,
    buf: Seq<u8>,
    call: ReadCall,
    blocked: Fault<E>,
    calls: nat,
    m: &'a mut Mux,
    reply: Result<Received, Fault<E>>,
    r: ReadStep<Fault<E>>,
)
    requires
        calls > 0,
        comes_back(queue, call),
        old(m)@.buf == serve(queue, buf, call, blocked).1,
        reply_view(reply) == serve(queue, buf, call, blocked).2,
        is_reply(old(m)@.buf, call, reply_view(reply)),
        call_ensures(Mux::recv_from_full::<Fault<E>>, (m, call, reply), r),
    ensures
        ({
            let rest = serve(queue, buf, call, blocked).0;
            let end = read_end(queue, buf, call, blocked, calls);
            match r {
                ReadStep::Call(next) => end == read_end(
                    rest,
                    final(m)@.buf,
                    next,
                    blocked,
                    (calls - 1) as nat,
                ),
                ReadStep::Done(Ok(got)) => end matches Some(e) && e.queue == rest && e.buf
                    == final(m)@.buf && (e.result matches Ok(packet) && packet.from == got.from@
                    && packet.data == final(m)@.buf.take(got.len as int)),
                ReadStep::Done(Err(fault)) => end matches Some(e) && e.queue == rest && e.buf
                    == final(m)@.buf && e.result == Err::<Packet, Fault<E>>(fault),
            }
        }),
{
    reveal_with_fuel(read_end, 2);
}

/// The same of an asynchronous mux.
pub proof fn asynchronous_read_comes_to_its_end<'a, E>(
    queue: Seq<Packet>,
    buf: Seq<u8>,
    call: ReadCall,
    blocked: Fault<E>,
    calls: nat,
    m: &'a mut AsyncMux,
    reply: Result<Received, Fault<E>>,
    r: ReadStep<Fault<E>>,
)
    requires
        calls > 0,
        comes_back(queue, call),
        old(m)@.buf == serve(queue, buf, call, blocked).1,
        reply_view(reply) == serve(queue, buf, call, blocked).2,
        is_reply(old(m)@.buf, call, reply_view(reply)),
        call_ensures(AsyncMux::recv_from_full::<Fault<E>>, (m, call, reply), r),
    ensures
        ({
            let rest = serve(queue, buf, call, blocked).0;
            let end = read_end(queue, buf, call, blocked, calls);
            match r {
                ReadStep::Call(next) => end == read_end(
                    rest,
                    final(m)@.buf,
                    next,
                    blocked,
                    (calls - 1) as nat,
                ),
                ReadStep::Done(Ok(got)) => end matches Some(e) && e.queue == rest && e.buf
                    == final(m)@.buf && (e.result matches Ok(packet) && packet.from == got.from@
                    && packet.data == final(m)@.buf.take(got.len as int)),
                ReadStep::Done(Err(fault)) => end matches Some(e) && e.queue == rest && e.buf
                    == final(m)@.buf && e.result == Err::<Packet, Fault<E>>(fault),
            }
        }),
{
    reveal_with_fuel(read_end, 2);
}

/// Reads that must not wait take one packet after the other off the socket. However many packets are
/// on it, a read that comes to its end returns all of the first, tagged with the address it came from,
/// and leaves the others; on an empty socket it returns nothing. So reading until nothing is returned
/// yields every packet, unchanged and in order.
pub proof fn nonblocking_reads_drain_the_socket<'a, E>(
    queue: Seq<Packet>,
    buf: Seq<u8>,
    sizing: Sizing,
    blocked: Fault<E>,
    end: ReadEnd<E>,
    m: &'a mut AsyncMux,
    received: Result<Received, Fault<E>>,
    read: Result<Option<TaggedData<'a>>, Fault<E>>,
)
    requires
        blocked.kind == ErrorKind::WouldBlock,
        0 < buf.len() <= isize::MAX,
        queue.len() > 0 ==> holdable(sizing, queue.first()),
        read_end(
            queue,
            buf,
            first_call(sizing),
            blocked,
            if queue.len() > 0 {
                enough_calls(queue.first())
            } else {
                1
            },
        ) == Some(end),
        old(m)@.buf == end.buf,
        match end.result {
            Ok(packet) => received matches Ok(got) && got.len <= end.buf.len() && got.from@
                == packet.from && end.buf.take(got.len as int) == packet.data,
            Err(fault) => received == Err::<Received, Fault<E>>(fault),
        },
        call_ensures(AsyncMux::read_nonblock::<E>, (m, received), read),
    ensures
        queue.len() > 0 ==> (read matches Ok(Some(tagged)) && tagged.data@ == queue[0].data
            && tagged.tag@ == queue[0].from),
        queue.len() > 0 ==> end.queue == queue.skip(1),
        queue.len() == 0 ==> read matches Ok(None),
        queue.len() == 0 ==> end.queue == queue,
        final(m)@.buf == end.buf,
{
    if queue.len() > 0 {
        read_returns_next_packet(queue, buf, sizing, blocked);
        assert(queue.drop_first() =~= queue.skip(1));
    } else {
        assert(queue =~= Seq::empty());
        read_on_empty_socket(buf, sizing, blocked);
    }
}

} // verus!
