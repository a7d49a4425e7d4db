//! A mux on a socket that does not wait.

use vstd::prelude::*;

use crate::error::ErrorKind;
use crate::error::Fault;
use crate::error::MuxError;
use crate::mux::Mux;
use crate::mux::MuxView;
use crate::read::is_reply;
use crate::read::packet_in;
use crate::read::recv_progress;
use crate::read::reply_view;
use crate::read::ReadCall;
use crate::read::ReadStep;
use crate::read::ReadStepView;
use crate::read::Received;
use crate::read::Sizing;
use crate::sender::sender_attempt;
use crate::sender::SenderSetup;
use crate::setup::abstract_attempt;
use crate::setup::directory_attempt;
use crate::setup::MuxSetup;
use crate::setup::MAX_ATTEMPTS;
use crate::tag::Packet;
use crate::tag::TaggedData;

verus! {

/// Asynchronous version of `Mux`.
pub struct AsyncMux(Mux);

impl View for AsyncMux {
    type V = MuxView;

    closed spec fn view(&self) -> MuxView {
        self.0@
    }
}

/// What a read that must not wait returns: nothing where the read would have to wait.
pub open spec fn without_waiting<E>(read: Result<Packet, Fault<E>>) -> Result<
    Option<Packet>,
    Fault<E>,
> {
    match read {
        Ok(packet) => Ok(Some(packet)),
        Err(fault) => if fault.kind == ErrorKind::WouldBlock {
            Ok(None)
        } else {
            Err(fault)
        },
    }
}

/// The packet that a finished read found, or its error.
pub open spec fn read_result<E>(buf: Seq<u8>, received: Result<Received, Fault<E>>) -> Result<
    Packet,
    Fault<E>,
> {
    match received {
        Ok(got) => Ok(packet_in(buf, got@)),
        Err(fault) => Err(fault),
    }
}

/// The value of what [`AsyncMux::read_nonblock`] returns.
pub open spec fn nonblock_view<'mux, E>(r: Result<Option<TaggedData<'mux>>, Fault<E>>) -> Result<
    Option<Packet>,
    Fault<E>,
> {
    match r {
        Ok(Some(tagged)) => Ok(Some(tagged@)),
        Ok(None) => Ok(None),
        Err(fault) => Err(fault),
    }
}

impl AsyncMux {
    /// Starts to create a new `Mux`, using Linux abstract sockets.
    pub fn new_abstract() -> (r: MuxSetup)
        ensures
            exists|id: u128| r@ == #[trigger] abstract_attempt(id, (MAX_ATTEMPTS - 1) as u32),
    {
        Mux::new_abstract()
    }

    /// Starts to create a new `Mux` in a new temporary directory, once it is known how creating
    /// that directory went.
    pub fn new<E>(tempdir: Result<Vec<u8>, E>) -> (r: Result<MuxSetup, E>)
        ensures
            match tempdir {
                Ok(dir) => r matches Ok(setup) && setup@ == directory_attempt(dir@),
                Err(error) => r matches Err(e) && e == error,
            },
    {
        Mux::new(tempdir)
    }

    /// Starts to create a new `Mux` in a new temporary directory under a path of the caller's
    /// choice, once it is known how creating that directory went.
    pub fn new_in<E>(tempdir: Result<Vec<u8>, E>) -> (r: Result<MuxSetup, E>)
        ensures
            match tempdir {
                Ok(dir) => r matches Ok(setup) && setup@ == directory_attempt(dir@),
                Err(error) => r matches Err(e) && e == error,
            },
    {
        Mux::new_in(tempdir)
    }

    /// Makes an `AsyncMux` of a mux, once it is known whether its socket could be switched to not
    /// waiting.
    pub fn with_mux<E>(mux: Mux, registered: Result<(), Fault<E>>) -> (r: Result<
        AsyncMux,
        MuxError<E>,
    >)
        ensures
            match registered {
                Ok(_) => r matches Ok(async_mux) && async_mux@ == mux@,
                Err(fault) => r matches Err(e) && e == MuxError::Os(fault),
            },
    {
        match registered {
            Ok(_) => Ok(AsyncMux(mux)),
            Err(fault) => Err(MuxError::Os(fault)),
        }
    }

    /// Starts to create a new `MuxSender` and associated unique `Tag`. Data sent via that
    /// `MuxSender` will arrive with the corresponding `Tag`.
    pub fn make_sender(&self) -> (r: SenderSetup<'_>)
        ensures
            exists|id: u128|
                r@ == #[trigger] sender_attempt(self@, id, (MAX_ATTEMPTS - 1) as u32),
    {
        let setup = self.0.make_sender();
        proof {
            let id = choose|id: u128|
                setup@ == #[trigger] sender_attempt(self.0@, id, (MAX_ATTEMPTS - 1) as u32);
            assert(setup@ == sender_attempt(self@, id, (MAX_ATTEMPTS - 1) as u32));
        }
        setup
    }

    /// The call that a read starts with: it waits for the socket first.
    pub fn first_call(sizing: Sizing) -> (r: ReadCall)
        ensures
            r == ReadCall::Wait(sizing),
    {
        ReadCall::Wait(sizing)
    }

    /// The length of the buffer.
    pub fn buf_len(&self) -> (r: usize)
        ensures
            r == self@.buf.len(),
    {
        self.0.buf_len()
    }

    /// The buffer, for a socket call to fill.
    pub fn buf_mut(&mut self) -> (r: &mut [u8])
        ensures
            r@ == old(self)@.buf,
            final(self)@ == (MuxView { buf: final(r)@, ..old(self)@ }),
    {
        self.0.buf_mut()
    }

    /// Takes the reply to a call of a read, makes room in the buffer where the packet needs more,
    /// and says what to do next.
    pub fn recv_from_full<E>(&mut self, call: ReadCall, reply: Result<Received, E>) -> (r: ReadStep<
        E,
    >)
        requires
            is_reply(old(self)@.buf, call, reply_view(reply)),
        ensures
            ({
                let (buf, step) = recv_progress(old(self)@.buf, call, reply_view(reply));
                &&& final(self)@ == (MuxView { buf, ..old(self)@ })
                &&& r@ == step
            }),
            r@ matches ReadStepView::Done(Ok(received)) ==> received.len <= final(self)@.buf.len(),
            old(self)@.wf() ==> final(self)@.wf(),
    {
        self.0.recv_from_full(call, reply)
    }

    /// Returns the chunk of data that was read, together with its tag.
    ///
    /// This reuses a buffer managed by the `AsyncMux`.
    pub fn read<'mux, E>(&'mux mut self, received: Result<Received, E>) -> (r: Result<
        TaggedData<'mux>,
        E,
    >)
        requires
            received matches Ok(got) ==> got.len <= old(self)@.buf.len(),
        ensures
            final(self)@ == old(self)@,
            match received {
                Ok(got) => r matches Ok(tagged) && tagged@ == packet_in(old(self)@.buf, got@),
                Err(error) => r matches Err(e) && e == error,
            },
    {
        self.0.read(received)
    }

    /// Returns the chunk of data that was read, together with its tag, or None if the read would
    /// block.
    ///
    /// This reuses a buffer managed by the `AsyncMux`.
    pub fn read_nonblock<'mux, E>(&'mux mut self, received: Result<Received, Fault<E>>) -> (r:
        Result<Option<TaggedData<'mux>>, Fault<E>>)
        requires
            received matches Ok(got) ==> got.len <= old(self)@.buf.len(),
        ensures
            final(self)@ == old(self)@,
            nonblock_view(r) == without_waiting(read_result(old(self)@.buf, received)),
    {
        match self.0.read(received) {
            Ok(tagged) => Ok(Some(tagged)),
            Err(fault) => if fault.kind == ErrorKind::WouldBlock {
                Ok(None)
            } else {
                Err(fault)
            },
        }
    }
}

} // verus!
