//! Writes and reads, call by call, in any order.
//!
//! While a mux is in use, its senders write and its receive end is read. A read takes several calls,
//! and a write can land between any two of them. This module follows such a history event by event,
//! and shows that nothing is lost, repeated, cut short, reordered or tagged wrongly on the way.

use vstd::prelude::*;

use crate::address::same_address;
use crate::address::AddressView;
use crate::delivery::after_send;
use crate::delivery::drained;
use crate::delivery::draining_returns_all_packets;
use crate::delivery::enough_calls;
use crate::delivery::holdable;
use crate::delivery::is_sender_of;
use crate::delivery::serve;
use crate::delivery::Write;
use crate::error::ErrorKind;
use crate::error::Fault;
use crate::mux::MuxView;
use crate::read::first_call;
use crate::read::is_reply;
use crate::read::packet_in;
use crate::read::recv_progress;
use crate::read::ReadCall;
use crate::read::ReadStepView;
use crate::read::ReceivedView;
use crate::read::Sizing;
use crate::sender::datagram_of;
use crate::sender::MuxSenderView;
use crate::tag::Packet;

verus! {

/// Something that happens while a mux is in use.
pub enum Event {
    /// A write through a sender, of this mux or of another.
    Write(Write),
    /// A read of this mux starts with this call. A read that was under way is given up.
    Start(ReadCall),
    /// The socket serves the call that the read under way has made. On an empty socket the call
    /// does not come back yet.
    Serve,
    /// The call that the read under way has made fails, for whatever reason.
    Fail(ErrorKind),
}

/// Where a history has come to: the packets on the socket of the mux, its buffer, the call that the
/// read under way has made, and what its reads have returned.
#[verifier::ext_equal]
pub struct History {
    pub queue: Seq<Packet>,
    pub buf: Seq<u8>,
    pub call: Option<ReadCall>,
    pub returned: Seq<Packet>,
}

/// The start of a history with the packets `queue` on the socket of `mux`.
pub open spec fn history_start(mux: MuxView, queue: Seq<Packet>) -> History {
    History { queue, buf: mux.buf, call: None, returned: Seq::empty() }
}

/// What the history `h` comes to when `call` came back with `reply`, if that is a reply that a read
/// accepts.
pub open spec fn after_reply(
    h: History,
    call: ReadCall,
    reply: Result<ReceivedView, Fault<()>>,
) -> Option<History> {
    if !is_reply(h.buf, call, reply) {
        None
    } else {
        let (buf, step) = recv_progress(h.buf, call, reply);
        Some(
            match step {
                ReadStepView::Call(next) => History { buf, call: Some(next), ..h },
                ReadStepView::Done(Ok(received)) => History {
                    buf,
                    call: None,
                    returned: h.returned.push(packet_in(buf, received)),
                    ..h
                },
                ReadStepView::Done(Err(_)) => History { buf, call: None, ..h },
            },
        )
    }
}

/// What the history `h` comes to with one more event, if every reply is one that a read accepts.
pub open spec fn after_event(mux: MuxView, h: History, event: Event) -> Option<History> {
    match (event, h.call) {
        (Event::Write(w), _) => Some(
            History {
                queue: after_send(h.queue, mux.receive_addr, datagram_of(w.sender, w.data)),
                ..h
            },
        ),
        (Event::Start(call), _) => Some(History { call: Some(call), ..h }),
        (Event::Serve, Some(call)) => if h.queue.len() == 0 {
            Some(h)
        } else {
            let (queue, buf, reply) = serve(
                h.queue,
                h.buf,
                call,
                Fault { kind: ErrorKind::WouldBlock, error: () },
            );
            after_reply(History { queue, buf, ..h }, call, reply)
        },
        (Event::Fail(kind), Some(call)) => after_reply(h, call, Err(Fault { kind, error: () })),
        (_, None) => Some(h),
    }
}

/// What the history `h` comes to with some more events, if every reply is one that a read accepts.
pub open spec fn after_events(mux: MuxView, h: History, events: Seq<Event>) -> Option<History>
    decreases events.len(),
{
    if events.len() == 0 {
        Some(h)
    } else {
        match after_events(mux, h, events.drop_last()) {
            Some(before) => after_event(mux, before, events.last()),
            None => None,
        }
    }
}

/// What was sent to `mux`, in order: the data of each write through one of its senders, with the
/// tag of that sender.
pub open spec fn sent(mux: MuxView, events: Seq<Event>) -> Seq<Packet>
    decreases events.len(),
{
    if events.len() == 0 {
        Seq::empty()
    } else {
        let before = sent(mux, events.drop_last());
        match events.last() {
            Event::Write(w) if is_sender_of(mux, w.tag, w.sender) => before.push(
                Packet { data: w.data, from: w.tag },
            ),
            _ => before,
        }
    }
}

/// Whether an event can be part of a history of `mux` whose reads use `sizing`. A write goes
/// through one of its senders, with data that can be held, or through a sender of a mux with
/// another address. A read may wait for the socket first.
pub open spec fn is_event(mux: MuxView, sizing: Sizing, event: Event) -> bool {
    match event {
        Event::Write(w) => if is_sender_of(mux, w.tag, w.sender) {
            holdable(sizing, Packet { data: w.data, from: w.tag })
        } else {
            !same_address(w.sender.peer, mux.receive_addr)
        },
        Event::Start(call) => call == first_call(sizing) || call == ReadCall::Wait(sizing),
        Event::Serve => true,
        Event::Fail(_) => true,
    }
}

/// Whether the read under way is right about the next packet: when it is about to take the packet
/// off the socket, there is one, and the buffer has room for all of it or holds all of it.
pub open spec fn in_step(sizing: Sizing, h: History) -> bool {
    match h.call {
        None => true,
        Some(ReadCall::Wait(s)) => s == sizing,
        Some(ReadCall::PeekLen) => sizing == Sizing::Told,
        Some(ReadCall::Peek) => sizing == Sizing::Growing,
        Some(ReadCall::Receive) => {
            &&& sizing == Sizing::Told
            &&& h.queue.len() > 0
            &&& h.queue.first().data.len() <= h.buf.len()
        },
        Some(ReadCall::Discard(len)) => {
            &&& sizing == Sizing::Growing
            &&& h.queue.len() > 0
            &&& len == h.queue.first().data.len()
            &&& len <= h.buf.len()
            &&& h.buf.take(len as int) == h.queue.first().data
        },
    }
}

/// Whether `h` is a point that a history of `mux` can come to.
pub open spec fn is_sound(mux: MuxView, sizing: Sizing, h: History) -> bool {
    &&& in_step(sizing, h)
    &&& (MuxView { buf: h.buf, ..mux }).wf()
    &&& forall|i: int| 0 <= i < h.queue.len() ==> holdable(sizing, #[trigger] h.queue[i])
}

/// How many more calls the read under way needs, if there is a packet on the socket: the read is
/// at `call`, the buffer has `len` bytes and the packet has `size`.
pub open spec fn calls_needed(call: ReadCall, len: nat, size: nat) -> nat {
    match call {
        ReadCall::Wait(Sizing::Told) => 3,
        ReadCall::Wait(Sizing::Growing) => 1 + peeks_needed(len, size),
        ReadCall::PeekLen => 2,
        ReadCall::Peek => peeks_needed(len, size),
        ReadCall::Receive => 1,
        ReadCall::Discard(_) => 1,
    }
}

/// A bound on the calls that a read needs from a peek on.
pub open spec fn peeks_needed(len: nat, size: nat) -> nat {
    if size < len {
        2
    } else {
        (size - len + 3) as nat
    }
}

proof fn lemma_serve(mux: MuxView, sizing: Sizing, h: History)
    requires
        is_sound(mux, sizing, h),
        h.queue.len() > 0,
        h.call is Some,
    ensures
        after_event(mux, h, Event::Serve) matches Some(next) && {
            let head = h.queue.first();
            &&& is_sound(mux, sizing, next)
            &&& match next.call {
                None => next.queue == h.queue.drop_first() && next.returned == h.returned.push(head),
                Some(call) => {
                    &&& next.queue == h.queue
                    &&& next.returned == h.returned
                    &&& calls_needed(call, next.buf.len(), head.data.len()) < calls_needed(
                        h.call->0,
                        h.buf.len(),
                        head.data.len(),
                    )
                },
            }
        },
{
    let head = h.queue.first();
    let call = h.call->0;
    assert(head == h.queue[0]);
    assert(forall|i: int|
        0 <= i < h.queue.drop_first().len() ==> #[trigger] h.queue.drop_first()[i] == h.queue[i
            + 1]);
    let (queue, buf, reply) = serve(
        h.queue,
        h.buf,
        call,
        Fault { kind: ErrorKind::WouldBlock, error: () },
    );
    assert(buf.len() == h.buf.len());
    match call {
        ReadCall::Peek => {
            if head.data.len() < h.buf.len() {
                assert(buf.take(head.data.len() as int) =~= head.data);
            }
        },
        ReadCall::Receive => {
            assert(buf.take(head.data.len() as int) =~= head.data);
        },
        _ => {},
    }
}

proof fn lemma_event(mux: MuxView, sizing: Sizing, h: History, event: Event)
    requires
        is_sound(mux, sizing, h),
        is_event(mux, sizing, event),
    ensures
        after_event(mux, h, event) matches Some(next) && {
            &&& is_sound(mux, sizing, next)
            &&& next.returned + next.queue == h.returned + h.queue + sent(mux, seq![event])
            &&& h.returned.is_prefix_of(next.returned)
        },
{
    let now = sent(mux, seq![event]);
    assert(seq![event].drop_last() =~= Seq::<Event>::empty());
    reveal_with_fuel(sent, 2);
    let next = after_event(mux, h, event)->0;
    match event {
        Event::Write(w) => {
            if is_sender_of(mux, w.tag, w.sender) {
                let packet = Packet { data: w.data, from: w.tag };
                assert(now =~= seq![packet]);
                assert(next.queue =~= h.queue.push(packet));
                assert forall|i: int| 0 <= i < next.queue.len() implies holdable(
                    sizing,
                    #[trigger] next.queue[i],
                ) by {
                    if i < h.queue.len() {
                        assert(next.queue[i] == h.queue[i]);
                    }
                }
                if h.queue.len() > 0 {
                    assert(next.queue.first() == h.queue.first());
                }
            } else {
                assert(next == h);
            }
        },
        Event::Serve => {
            if h.call is Some && h.queue.len() > 0 {
                lemma_serve(mux, sizing, h);
            }
        },
        _ => {},
    }
    assert(next.returned + next.queue =~= h.returned + h.queue + now);
    assert(h.returned =~= next.returned.subrange(0, h.returned.len() as int));
}

/// Nothing that was sent to a mux is lost, repeated, cut short, reordered or tagged wrongly,
/// whatever else happens.
///
/// From any point of a history, after any more events, what the reads have returned, followed by
/// what is still on the socket, is the same as before, followed by what was sent since. What had
/// been returned before stays at the front, and every reply on the way is one that a read accepts.
pub proof fn history_keeps_what_was_sent(
    mux: MuxView,
    sizing: Sizing,
    h: History,
    events: Seq<Event>,
)
    requires
        is_sound(mux, sizing, h),
        forall|i: int| 0 <= i < events.len() ==> is_event(mux, sizing, #[trigger] events[i]),
    ensures
        after_events(mux, h, events) matches Some(next) && {
            &&& is_sound(mux, sizing, next)
            &&& next.returned + next.queue == h.returned + h.queue + sent(mux, events)
            &&& h.returned.is_prefix_of(next.returned)
        },
    decreases events.len(),
{
    if events.len() == 0 {
        assert(h.returned + h.queue =~= h.returned + h.queue + sent(mux, events));
        assert(h.returned =~= h.returned.subrange(0, h.returned.len() as int));
    } else {
        let earlier = events.drop_last();
        let event = events.last();
        assert(event == events[events.len() - 1]);
        assert forall|i: int| 0 <= i < earlier.len() implies is_event(
            mux,
            sizing,
            #[trigger] earlier[i],
        ) by {
            assert(earlier[i] == events[i]);
        }
        history_keeps_what_was_sent(mux, sizing, h, earlier);
        let before = after_events(mux, h, earlier)->0;
        lemma_event(mux, sizing, before, event);
        let next = after_event(mux, before, event)->0;
        lemma_sent_adds(mux, earlier, seq![event]);
        assert(earlier + seq![event] =~= events);
        assert(h.returned + h.queue + sent(mux, earlier) + sent(mux, seq![event]) =~= h.returned
            + h.queue + sent(mux, events));
        assert(h.returned =~= next.returned.subrange(0, h.returned.len() as int)) by {
            assert(forall|i: int|
                0 <= i < h.returned.len() ==> h.returned[i] == #[trigger] before.returned[i]
                    && before.returned[i] == next.returned[i]);
        }
    }
}

proof fn lemma_sent_adds(mux: MuxView, a: Seq<Event>, b: Seq<Event>)
    ensures
        sent(mux, a + b) == sent(mux, a) + sent(mux, b),
    decreases b.len(),
{
    if b.len() == 0 {
        assert(a + b =~= a);
        assert(sent(mux, a) + sent(mux, b) =~= sent(mux, a));
    } else {
        assert((a + b).drop_last() =~= a + b.drop_last());
        assert((a + b).last() == b.last());
        lemma_sent_adds(mux, a, b.drop_last());
        assert(sent(mux, a + b) =~= sent(mux, a) + sent(mux, b));
    }
}

/// Data sent to any of the send ends comes out the receive end, in order, tagged by the sender.
///
/// After any sequence of writes, starts of reads, calls of reads and failures of such calls, what
/// the reads have returned, followed by what is still on the socket, is what was on the socket at
/// the start, followed by what was sent to this mux: the same data, in the same order, each with
/// the tag of its sender.
pub proof fn data_comes_out_in_order_and_tagged(
    mux: MuxView,
    sizing: Sizing,
    queue: Seq<Packet>,
    events: Seq<Event>,
)
    requires
        mux.wf(),
        forall|i: int| 0 <= i < queue.len() ==> holdable(sizing, #[trigger] queue[i]),
        forall|i: int| 0 <= i < events.len() ==> is_event(mux, sizing, #[trigger] events[i]),
    ensures
        after_events(mux, history_start(mux, queue), events) matches Some(h) && {
            &&& h.returned + h.queue == queue + sent(mux, events)
            &&& is_sound(mux, sizing, h)
        },
{
    let start = history_start(mux, queue);
    history_keeps_what_was_sent(mux, sizing, start, events);
    assert(start.returned + queue =~= queue);
}

/// The number of calls that the socket serves in `events`.
pub open spec fn serves(events: Seq<Event>) -> nat
    decreases events.len(),
{
    if events.len() == 0 {
        0
    } else {
        serves(events.drop_last()) + if events.last() is Serve {
            1nat
        } else {
            0
        }
    }
}

/// A read that is under way while there is a packet on the socket returns exactly the next packet,
/// within a bounded number of calls, whatever is written between them.
pub proof fn read_under_way_returns_next_packet(
    mux: MuxView,
    sizing: Sizing,
    h: History,
    events: Seq<Event>,
)
    requires
        is_sound(mux, sizing, h),
        h.call is Some,
        h.queue.len() > 0,
        forall|i: int| 0 <= i < events.len() ==> is_event(mux, sizing, #[trigger] events[i]),
        forall|i: int|
            0 <= i < events.len() ==> (#[trigger] events[i] is Write || events[i] is Serve),
        serves(events) >= enough_calls(h.queue.first()),
    ensures
        after_events(mux, h, events) matches Some(next) && {
            &&& next.returned == h.returned.push(h.queue.first())
            &&& next.queue == h.queue.drop_first() + sent(mux, events)
            &&& next.call is None
        },
{
    let head = h.queue.first();
    assert(calls_needed(h.call->0, h.buf.len(), head.data.len()) <= enough_calls(head));
    lemma_calls(mux, sizing, h, events);
    history_keeps_what_was_sent(mux, sizing, h, events);
    let next = after_events(mux, h, events)->0;
    let all = h.returned + h.queue + sent(mux, events);
    assert(next.queue =~= all.skip(next.returned.len() as int)) by {
        assert((next.returned + next.queue).skip(next.returned.len() as int) =~= next.queue);
    }
    assert(all.skip(h.returned.len() as int + 1) =~= h.queue.drop_first() + sent(mux, events));
}

proof fn lemma_calls(mux: MuxView, sizing: Sizing, h: History, events: Seq<Event>)
    requires
        is_sound(mux, sizing, h),
        h.call is Some,
        h.queue.len() > 0,
        forall|i: int| 0 <= i < events.len() ==> is_event(mux, sizing, #[trigger] events[i]),
        forall|i: int|
            0 <= i < events.len() ==> (#[trigger] events[i] is Write || events[i] is Serve),
    ensures
        after_events(mux, h, events) matches Some(next) && {
            let head = h.queue.first();
            &&& is_sound(mux, sizing, next)
            &&& match next.call {
                None => next.returned == h.returned.push(head),
                Some(call) => {
                    &&& next.returned == h.returned
                    &&& next.queue.len() > 0
                    &&& next.queue.first() == head
                    &&& calls_needed(call, next.buf.len(), head.data.len()) + serves(events)
                        <= calls_needed(h.call->0, h.buf.len(), head.data.len())
                },
            }
        },
    decreases events.len(),
{
    if events.len() > 0 {
        let earlier = events.drop_last();
        let event = events.last();
        assert(event == events[events.len() - 1]);
        assert forall|i: int| 0 <= i < earlier.len() implies is_event(
            mux,
            sizing,
            #[trigger] earlier[i],
        ) && (earlier[i] is Write || earlier[i] is Serve) by {
            assert(earlier[i] == events[i]);
        }
        lemma_calls(mux, sizing, h, earlier);
        let before = after_events(mux, h, earlier)->0;
        lemma_event(mux, sizing, before, event);
        if event is Serve && before.call is Some {
            lemma_serve(mux, sizing, before);
        }
    }
}

/// A read never returns anything unless there is a packet that no read has returned: while nothing
/// is sent to the mux, reads on its empty socket return nothing, however many start, make calls or
/// fail.
pub proof fn empty_socket_returns_nothing(
    mux: MuxView,
    sizing: Sizing,
    h: History,
    events: Seq<Event>,
)
    requires
        is_sound(mux, sizing, h),
        h.queue.len() == 0,
        forall|i: int| 0 <= i < events.len() ==> is_event(mux, sizing, #[trigger] events[i]),
        sent(mux, events).len() == 0,
    ensures
        after_events(mux, h, events) matches Some(next) && {
            &&& next.returned == h.returned
            &&& next.queue == h.queue
        },
{
    history_keeps_what_was_sent(mux, sizing, h, events);
    let next = after_events(mux, h, events)->0;
    assert((next.returned + next.queue).len() == h.returned.len());
    assert(next.queue =~= h.queue);
    assert(next.returned =~= next.returned + next.queue);
    assert(h.returned =~= h.returned + h.queue + sent(mux, events));
}

/// After any history, reading without waiting until nothing is found returns the rest of what was
/// sent: what was returned before and what the draining reads return are, together and in order,
/// all that was sent to the mux, and nothing is left. A read that was under way may be given up.
pub proof fn draining_completes_the_history(
    mux: MuxView,
    sizing: Sizing,
    queue: Seq<Packet>,
    events: Seq<Event>,
)
    requires
        mux.wf(),
        forall|i: int| 0 <= i < queue.len() ==> holdable(sizing, #[trigger] queue[i]),
        forall|i: int| 0 <= i < events.len() ==> is_event(mux, sizing, #[trigger] events[i]),
    ensures
        after_events(mux, history_start(mux, queue), events) matches Some(h) && {
            let all = queue + sent(mux, events);
            let left = (all.len() - h.returned.len()) as nat;
            &&& h.returned.len() <= all.len()
            &&& drained(h.queue, h.buf, sizing, left) is None
            &&& drained(h.queue, h.buf, sizing, left + 1) matches Some(d) && {
                &&& h.returned + d.packets == all
                &&& d.packets.len() == left
                &&& d.queue.len() == 0
            }
        },
{
    data_comes_out_in_order_and_tagged(mux, sizing, queue, events);
    let h = after_events(mux, history_start(mux, queue), events)->0;
    assert((h.returned + h.queue).len() == h.returned.len() + h.queue.len());
    draining_returns_all_packets(h.queue, h.buf, sizing);
}

/// Whether `tag` is the tag of the sender at `k` and of no other.
pub open spec fn is_only_sender(
    senders: Seq<(AddressView, MuxSenderView)>,
    tag: AddressView,
    k: int,
) -> bool {
    &&& 0 <= k < senders.len()
    &&& same_address(tag, senders[k].0)
    &&& forall|j: int|
        0 <= j < senders.len() && j != k ==> !same_address(tag, (#[trigger] senders[j]).0)
}

/// Whether `tag` is the tag of exactly one of the senders.
pub open spec fn has_one_sender(
    senders: Seq<(AddressView, MuxSenderView)>,
    tag: AddressView,
) -> bool {
    exists|k: int| is_only_sender(senders, tag, k)
}

/// Everything that a read returns carries the tag of exactly one of the senders of its mux, where
/// only those senders send to it and their tags are unique.
pub proof fn every_tag_is_that_of_one_sender(
    mux: MuxView,
    sizing: Sizing,
    senders: Seq<(AddressView, MuxSenderView)>,
    events: Seq<Event>,
)
    requires
        mux.wf(),
        forall|i: int, j: int|
            0 <= i < senders.len() && 0 <= j < senders.len() && i != j ==> !same_address(
                (#[trigger] senders[i]).0,
                (#[trigger] senders[j]).0,
            ),
        forall|i: int| 0 <= i < events.len() ==> is_event(mux, sizing, #[trigger] events[i]),
        forall|i: int|
            0 <= i < events.len() ==> (#[trigger] events[i] matches Event::Write(w) ==> (
            is_sender_of(mux, w.tag, w.sender) ==> senders.contains((w.tag, w.sender)))),
    ensures
        after_events(mux, history_start(mux, Seq::empty()), events) matches Some(h) && {
            forall|n: int|
                0 <= n < h.returned.len() ==> has_one_sender(
                    senders,
                    (#[trigger] h.returned[n]).from,
                )
        },
{
    data_comes_out_in_order_and_tagged(mux, sizing, Seq::empty(), events);
    let h = after_events(mux, history_start(mux, Seq::empty()), events)->0;
    let all = sent(mux, events);
    assert(Seq::<Packet>::empty() + all =~= all);
    assert forall|n: int| 0 <= n < h.returned.len() implies has_one_sender(
        senders,
        (#[trigger] h.returned[n]).from,
    ) by {
        assert((h.returned + h.queue)[n] == h.returned[n]);
        let i = lemma_sent_has_write(mux, events, n);
        let w = events[i]->Write_0;
        assert(senders.contains((w.tag, w.sender)));
        let k = choose|k: int| 0 <= k < senders.len() && senders[k] == (w.tag, w.sender);
        assert(is_only_sender(senders, h.returned[n].from, k));
    }
}

proof fn lemma_sent_has_write(mux: MuxView, events: Seq<Event>, n: int) -> (i: int)
    requires
        0 <= n < sent(mux, events).len(),
    ensures
        0 <= i < events.len(),
        events[i] matches Event::Write(w) && is_sender_of(mux, w.tag, w.sender) && sent(
            mux,
            events,
        )[n] == (Packet { data: w.data, from: w.tag }),
    decreases events.len(),
{
    let earlier = events.drop_last();
    if n < sent(mux, earlier).len() {
        let i = lemma_sent_has_write(mux, earlier, n);
        assert(earlier[i] == events[i]);
        i
    } else {
        events.len() - 1
    }
}

/// A write through a sender of another mux changes nothing about this one.
pub proof fn write_to_another_mux_changes_nothing(
    mux: MuxView,
    other: MuxView,
    sizing: Sizing,
    h: History,
    w: Write,
)
    requires
        is_sender_of(other, w.tag, w.sender),
        !same_address(other.receive_addr, mux.receive_addr),
    ensures
        is_event(mux, sizing, Event::Write(w)),
        after_event(mux, h, Event::Write(w)) == Some(h),
        sent(mux, seq![Event::Write(w)]) == Seq::<Packet>::empty(),
{
    assert(!is_sender_of(mux, w.tag, w.sender));
    let events = seq![Event::Write(w)];
    assert(events.drop_last() =~= Seq::<Event>::empty());
    reveal_with_fuel(sent, 2);
}

} // verus!
