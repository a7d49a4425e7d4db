//! How a packet is read in full.
//!
//! A datagram has to be taken in one piece, so its size must be known before it is received. Where
//! the system tells the size of the next packet, the buffer is grown to that size first. Elsewhere
//! the packet is looked at without taking it, with ever larger buffers, until it leaves room in
//! the buffer; only then is it taken off the socket.
//!
//! A read asks for one socket call at a time. Its caller makes the call and hands back the reply.

use vstd::prelude::*;

use crate::address::Address;
use crate::address::AddressView;
use crate::mux::zeros;
use crate::tag::Packet;

verus! {

/// How a read finds out the size of the next packet.
#[derive(Clone, Copy, Debug, PartialEq, Eq, Structural)]
pub enum Sizing {
    /// The system tells.
    Told,
    /// By trying with larger and larger buffers.
    Growing,
}

/// A socket call that a read asks for.
#[derive(Clone, Copy, Debug, PartialEq, Eq, Structural)]
pub enum ReadCall {
    /// Wait until the socket can be read.
    Wait(Sizing),
    /// Ask for the full size of the next packet, leaving it on the socket.
    PeekLen,
    /// Copy the next packet into the buffer as far as it fits, leaving it on the socket.
    Peek,
    /// Receive the next packet into the buffer.
    Receive,
    /// Take the next packet off the socket, of which this many bytes are in the buffer.
    Discard(usize),
}

/// What a call of a read came back with: a number of bytes, and the address of their sender.
/// Calls that do not tell one of the two leave it at zero or unnamed.
#[derive(Debug)]
pub struct Received {
    pub len: usize,
    pub from: Address,
}

/// The value of a [`Received`].
#[verifier::ext_equal]
pub struct ReceivedView {
    pub len: usize,
    pub from: AddressView,
}

impl View for Received {
    type V = ReceivedView;

    open spec fn view(&self) -> ReceivedView {
        ReceivedView { len: self.len, from: self.from@ }
    }
}

/// What to do after one call of a read.
#[derive(Debug)]
pub enum ReadStep<E> {
    /// There is another call to make.
    Call(ReadCall),
    /// The packet is in the buffer, or an error is final.
    Done(Result<Received, E>),
}

/// The value of a [`ReadStep`].
#[verifier::ext_equal]
pub enum ReadStepView<E> {
    Call(ReadCall),
    Done(Result<ReceivedView, E>),
}

impl<E> View for ReadStep<E> {
    type V = ReadStepView<E>;

    open spec fn view(&self) -> ReadStepView<E> {
        match self {
            ReadStep::Call(call) => ReadStepView::Call(*call),
            ReadStep::Done(Ok(received)) => ReadStepView::Done(Ok(received@)),
            ReadStep::Done(Err(error)) => ReadStepView::Done(Err(*error)),
        }
    }
}

/// The value of the reply to a call.
pub open spec fn reply_view<E>(reply: Result<Received, E>) -> Result<ReceivedView, E> {
    match reply {
        Ok(received) => Ok(received@),
        Err(error) => Err(error),
    }
}

/// The call that a read starts with.
pub open spec fn first_call(sizing: Sizing) -> ReadCall {
    match sizing {
        Sizing::Told => ReadCall::PeekLen,
        Sizing::Growing => ReadCall::Peek,
    }
}

impl ReadCall {
    /// The call that a read starts with.
    pub fn first(sizing: Sizing) -> (r: ReadCall)
        ensures
            r == first_call(sizing),
    {
        match sizing {
            Sizing::Told => ReadCall::PeekLen,
            Sizing::Growing => ReadCall::Peek,
        }
    }
}

/// The buffer `buf` with zeros added to make it at least `n` bytes long.
pub open spec fn grown(buf: Seq<u8>, n: nat) -> Seq<u8> {
    if n > buf.len() {
        buf + zeros((n - buf.len()) as nat)
    } else {
        buf
    }
}

/// Whether `reply` is one that `call` can come back with on the buffer `buf`: no call fills more
/// than the buffer, and no buffer has to be made larger than memory can be.
pub open spec fn is_reply<E>(buf: Seq<u8>, call: ReadCall, reply: Result<ReceivedView, E>) -> bool {
    reply matches Ok(received) ==> match call {
        ReadCall::Wait(_) => true,
        ReadCall::PeekLen => received.len > buf.len() ==> received.len <= isize::MAX,
        ReadCall::Peek => received.len <= buf.len() && (received.len == buf.len() ==> 2 * buf.len()
            <= isize::MAX),
        ReadCall::Receive => received.len <= buf.len(),
        ReadCall::Discard(len) => len <= buf.len(),
    }
}

/// What a read leaves in the buffer and does next when `call` ends with `reply`.
pub open spec fn recv_progress<E>(
    buf: Seq<u8>,
    call: ReadCall,
    reply: Result<ReceivedView, E>,
) -> (Seq<u8>, ReadStepView<E>) {
    match reply {
        Err(error) => (buf, ReadStepView::Done(Err(error))),
        Ok(received) => match call {
            ReadCall::Wait(sizing) => (buf, ReadStepView::Call(first_call(sizing))),
            ReadCall::PeekLen => (
                grown(buf, received.len as nat),
                ReadStepView::Call(ReadCall::Receive),
            ),
            ReadCall::Peek => if received.len == buf.len() {
                (grown(buf, 2 * buf.len()), ReadStepView::Call(ReadCall::Peek))
            } else {
                (buf, ReadStepView::Call(ReadCall::Discard(received.len)))
            },
            ReadCall::Receive => (buf, ReadStepView::Done(Ok(received))),
            ReadCall::Discard(len) => (
                buf,
                ReadStepView::Done(Ok(ReceivedView { len, from: received.from })),
            ),
        },
    }
}

/// The packet that is in the buffer once a read is done.
pub open spec fn packet_in(buf: Seq<u8>, received: ReceivedView) -> Packet {
    Packet { data: buf.take(received.len as int), from: received.from }
}

} // verus!
