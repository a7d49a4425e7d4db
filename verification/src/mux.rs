//! The mux itself: where its sockets live, and the buffer that packets are read into.

use vstd::prelude::*;

use crate::address::Address;
use crate::address::AddressView;
use crate::naming::make_abstract_sender_addr;
use crate::naming::make_directory_sender_addr;
use crate::naming::sender_addr;
use crate::read::grown;
use crate::read::is_reply;
use crate::read::packet_in;
use crate::read::recv_progress;
use crate::read::reply_view;
use crate::read::ReadCall;
use crate::read::ReadStep;
use crate::read::ReadStepView;
use crate::read::Received;
use crate::tag::Tag;
use crate::tag::TaggedData;

verus! {

/// The size of a new mux's buffer.
pub const DEFAULT_BUF_SIZE: usize = 8192;

/// A `Mux` provides a single receive end and multiple send ends. Data sent to any of the send ends
/// comes out the receive end, in order, tagged by the sender.
pub struct Mux {
    receive_addr: Address,
    tempdir: Option<Vec<u8>>,
    buf: Vec<u8>,
}

/// The value of a [`Mux`]: the address of its receive end, the directory of its sockets if they
/// are not abstract, and the contents of its buffer.
#[verifier::ext_equal]
pub struct MuxView {
    pub receive_addr: AddressView,
    pub tempdir: Option<Seq<u8>>,
    pub buf: Seq<u8>,
}

impl MuxView {
    /// Whether the buffer has a size that a mux can have: never less than a new mux's, and no more
    /// than memory can be.
    pub open spec fn wf(self) -> bool {
        DEFAULT_BUF_SIZE <= self.buf.len() <= isize::MAX
    }
}

/// The value of an optional directory.
pub open spec fn dir_view(tempdir: Option<Vec<u8>>) -> Option<Seq<u8>> {
    match tempdir {
        Some(dir) => Some(dir@),
        None => None,
    }
}

impl View for Mux {
    type V = MuxView;

    closed spec fn view(&self) -> MuxView {
        MuxView {
            receive_addr: self.receive_addr@,
            tempdir: dir_view(self.tempdir),
            buf: self.buf@,
        }
    }
}

/// `n` zero bytes.
pub open spec fn zeros(n: nat) -> Seq<u8> {
    Seq::new(n, |i: int| 0u8)
}

/// A mux that was just made.
pub open spec fn fresh_mux(receive_addr: AddressView, tempdir: Option<Seq<u8>>) -> MuxView {
    MuxView { receive_addr, tempdir, buf: zeros(DEFAULT_BUF_SIZE as nat) }
}

impl Mux {
    /// The mux of a receive end that is bound to `receive_addr`.
    pub(crate) fn new_with_addr(receive_addr: Address, tempdir: Option<Vec<u8>>) -> (r: Mux)
        ensures
            r@ == fresh_mux(receive_addr@, dir_view(tempdir)),
            r@.wf(),
    {
        let buf: Vec<u8> = vec![0; DEFAULT_BUF_SIZE];
        assert(buf@ =~= zeros(DEFAULT_BUF_SIZE as nat));
        Mux { receive_addr, tempdir, buf }
    }

    /// The address of the receive end.
    pub(crate) fn receive_addr(&self) -> (r: &Address)
        ensures
            r@ == self@.receive_addr,
    {
        &self.receive_addr
    }

    /// Makes the address of the sender `id`: in the directory of this mux, or abstract.
    pub(crate) fn make_sender_addr(&self, id: u128) -> (r: Address)
        ensures
            r@ == sender_addr(self@.tempdir, id),
    {
        match &self.tempdir {
            Some(dir) => make_directory_sender_addr(dir.as_slice(), id),
            None => make_abstract_sender_addr(id),
        }
    }

    /// The length of the buffer.
    pub fn buf_len(&self) -> (r: usize)
        ensures
            r == self@.buf.len(),
    {
        self.buf.len()
    }

    /// The buffer, for a socket call to fill.
    pub fn buf_mut(&mut self) -> (r: &mut [u8])
        ensures
            r@ == old(self)@.buf,
            final(self)@ == (MuxView { buf: final(r)@, ..old(self)@ }),
    {
        self.buf.as_mut_slice()
    }

    fn grow(&mut self, n: usize)
        requires
            n > old(self)@.buf.len() ==> n <= isize::MAX,
        ensures
            final(self)@ == (MuxView { buf: grown(old(self)@.buf, n as nat), ..old(self)@ }),
    {
        if n > self.buf.len() {
            let ghost before = self.buf@;
            self.buf.resize(n, 0);
            proof {
                assert forall|i: int| 0 <= i < before.len() implies self.buf@[i] == before[i] by {
                    assert(self.buf@.subrange(0, before.len() as int)[i] == self.buf@[i]);
                }
                assert(self.buf@ =~= grown(before, n as nat));
            }
        }
    }

    /// Takes the reply to a call of a read, makes room in the buffer where the packet needs more,
    /// and says what to do next.
    pub fn recv_from_full<E>(&mut self, call: ReadCall, reply: Result<Received, E>) -> (r: ReadStep<
        E,
    >)
        requires
            is_reply(old(self)@.buf, call, reply_view(reply)),
        ensures
            ({
                let (buf, step) = recv_progress(old(self)@.buf, call, reply_view(reply));
                &&& final(self)@ == (MuxView { buf, ..old(self)@ })
                &&& r@ == step
            }),
            r@ matches ReadStepView::Done(Ok(received)) ==> received.len <= final(self)@.buf.len(),
            old(self)@.wf() ==> final(self)@.wf(),
    {
        match reply {
            Err(error) => ReadStep::Done(Err(error)),
            Ok(received) => match call {
                ReadCall::Wait(sizing) => ReadStep::Call(ReadCall::first(sizing)),
                ReadCall::PeekLen => {
                    self.grow(received.len);
                    ReadStep::Call(ReadCall::Receive)
                },
                ReadCall::Peek => {
                    // A full buffer may hold a truncated packet. Try again with a bigger buffer.
                    if received.len == self.buf.len() {
                        let len = self.buf.len() * 2;
                        self.grow(len);
                        ReadStep::Call(ReadCall::Peek)
                    } else {
                        ReadStep::Call(ReadCall::Discard(received.len))
                    }
                },
                ReadCall::Receive => ReadStep::Done(Ok(received)),
                ReadCall::Discard(len) => ReadStep::Done(
                    Ok(Received { len, from: received.from }),
                ),
            },
        }
    }

    /// Returns the chunk of data that was read, together with its tag.
    ///
    /// This reuses a buffer managed by the `Mux`.
    pub fn read<'mux, E>(&'mux mut self, received: Result<Received, E>) -> (r: Result<
        TaggedData<'mux>,
        E,
    >)
        requires
            received matches Ok(got) ==> got.len <= old(self)@.buf.len(),
        ensures
            final(self)@ == old(self)@,
            match received {
                Ok(got) => r matches Ok(tagged) && tagged@ == packet_in(old(self)@.buf, got@),
                Err(error) => r matches Err(e) && e == error,
            },
    {
        match received {
            Ok(got) => {
                let data = vstd::slice::slice_subrange(self.buf.as_slice(), 0, got.len);
                Ok(TaggedData { data, tag: Tag::new(got.from) })
            },
            Err(error) => Err(error),
        }
    }
}

} // verus!
