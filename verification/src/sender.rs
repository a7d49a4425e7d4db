//! Send ends, and how they come to be.

use vstd::prelude::*;

use crate::address::Address;
use crate::address::AddressView;
use crate::error::ErrorKind;
use crate::error::Fault;
use crate::error::MuxError;
use crate::mux::Mux;
use crate::mux::MuxView;
use crate::naming::sender_addr;
use crate::random::random_id;
use crate::setup::Action;
use crate::setup::ActionView;
use crate::setup::MAX_ATTEMPTS;
use crate::tag::Tag;

verus! {

/// A send end of a `Mux`.
#[derive(Debug)]
pub struct MuxSender {
    addr: Address,
    peer: Address,
}

/// The value of a [`MuxSender`]: the address it sends from, and the one it sends to.
#[verifier::ext_equal]
pub struct MuxSenderView {
    pub addr: AddressView,
    pub peer: AddressView,
}

impl View for MuxSender {
    type V = MuxSenderView;

    closed spec fn view(&self) -> MuxSenderView {
        MuxSenderView { addr: self.addr@, peer: self.peer@ }
    }
}

/// One message on its way from a send end to the receive end.
#[derive(Debug)]
pub struct Datagram<'a> {
    pub from: &'a Address,
    pub to: &'a Address,
    pub data: &'a [u8],
}

/// The value of a [`Datagram`].
#[verifier::ext_equal]
pub struct DatagramView {
    pub from: AddressView,
    pub to: AddressView,
    pub data: Seq<u8>,
}

impl<'a> View for Datagram<'a> {
    type V = DatagramView;

    open spec fn view(&self) -> DatagramView {
        DatagramView { from: self.from@, to: self.to@, data: self.data@ }
    }
}

/// The datagram that carries one write of `data`.
pub open spec fn datagram_of(sender: MuxSenderView, data: Seq<u8>) -> DatagramView {
    DatagramView { from: sender.addr, to: sender.peer, data }
}

impl MuxSender {
    /// The datagram to send for a write of `buf`: all of it, in one piece.
    pub fn write<'a>(&'a self, buf: &'a [u8]) -> (r: Datagram<'a>)
        ensures
            r@ == datagram_of(self@, buf@),
    {
        Datagram { from: &self.addr, to: &self.peer, data: buf }
    }

    /// Nothing is ever held back, so there is nothing to flush.
    pub fn flush<E>(&mut self) -> (r: Result<(), E>)
        ensures
            r is Ok,
            *final(self) == *old(self),
    {
        Ok(())
    }
}

/// Which call a [`SenderSetup`] waits for.
#[derive(Clone, Copy, Debug, PartialEq, Eq, Structural)]
pub enum SenderStage {
    MakeAddress,
    Bind,
    Connect,
    ShutdownRead,
}

/// A send end in the making.
pub struct SenderSetup<'mux> {
    mux: &'mux Mux,
    stage: SenderStage,
    addr: Address,
    left: u32,
}

/// The value of a [`SenderSetup`]: its mux, the call it waits for, the address it tries, and how
/// many more names may be tried after this one.
#[verifier::ext_equal]
pub struct SenderSetupView {
    pub mux: MuxView,
    pub stage: SenderStage,
    pub addr: AddressView,
    pub left: u32,
}

impl<'mux> View for SenderSetup<'mux> {
    type V = SenderSetupView;

    closed spec fn view(&self) -> SenderSetupView {
        SenderSetupView {
            mux: self.mux@,
            stage: self.stage,
            addr: self.addr@,
            left: self.left,
        }
    }
}

/// The attempt to set up a sender of `mux` under the name of `id`.
pub open spec fn sender_attempt(mux: MuxView, id: u128, left: u32) -> SenderSetupView {
    SenderSetupView {
        mux,
        stage: SenderStage::MakeAddress,
        addr: sender_addr(mux.tempdir, id),
        left,
    }
}

/// The call that a setup waits for.
pub open spec fn sender_action(s: SenderSetupView) -> ActionView {
    match s.stage {
        SenderStage::MakeAddress => ActionView::MakeAddress(s.addr),
        SenderStage::Bind => ActionView::Bind(s.addr),
        SenderStage::Connect => ActionView::Connect(s.mux.receive_addr),
        SenderStage::ShutdownRead => ActionView::ShutdownRead,
    }
}

/// The sender that a setup ends with, together with its tag.
pub open spec fn made_sender(s: SenderSetupView) -> (AddressView, MuxSenderView) {
    (s.addr, MuxSenderView { addr: s.addr, peer: s.mux.receive_addr })
}

/// What a setup comes to with the outcome of one call.
pub enum SenderProgress<'mux, E> {
    /// There is another call to make.
    Pending(SenderSetup<'mux>),
    /// The name is taken. This many others may be tried.
    Collision(u32),
    /// The setup is over.
    Done(Result<(Tag, MuxSender), MuxError<E>>),
}

/// The value of a [`SenderProgress`].
#[verifier::ext_equal]
pub enum SenderProgressView<E> {
    Pending(SenderSetupView),
    Collision(u32),
    Done(Result<(AddressView, MuxSenderView), MuxError<E>>),
}

impl<'mux, E> View for SenderProgress<'mux, E> {
    type V = SenderProgressView<E>;

    open spec fn view(&self) -> SenderProgressView<E> {
        match self {
            SenderProgress::Pending(setup) => SenderProgressView::Pending(setup@),
            SenderProgress::Collision(left) => SenderProgressView::Collision(*left),
            SenderProgress::Done(Ok((tag, sender))) => SenderProgressView::Done(
                Ok((tag@, sender@)),
            ),
            SenderProgress::Done(Err(error)) => SenderProgressView::Done(Err(*error)),
        }
    }
}

/// What the setup `s` comes to when the call it waits for ends with `outcome`.
///
/// A name that is taken is given up for another while there are attempts left. Every other failure
/// is final.
pub open spec fn sender_progress<E>(
    s: SenderSetupView,
    outcome: Result<(), Fault<E>>,
) -> SenderProgressView<E> {
    match (s.stage, outcome) {
        (SenderStage::MakeAddress, Ok(_)) => SenderProgressView::Pending(
            SenderSetupView { stage: SenderStage::Bind, ..s },
        ),
        (SenderStage::Bind, Ok(_)) => SenderProgressView::Pending(
            SenderSetupView { stage: SenderStage::Connect, ..s },
        ),
        (SenderStage::Connect, Ok(_)) => SenderProgressView::Pending(
            SenderSetupView { stage: SenderStage::ShutdownRead, ..s },
        ),
        (SenderStage::ShutdownRead, Ok(_)) => SenderProgressView::Done(Ok(made_sender(s))),
        (stage, Err(fault)) => if stage == SenderStage::Bind && fault.kind
            == ErrorKind::AddrInUse {
            if s.left > 0 {
                SenderProgressView::Collision(s.left)
            } else {
                SenderProgressView::Done(Err(MuxError::NoUniqueName))
            }
        } else {
            SenderProgressView::Done(Err(MuxError::Os(fault)))
        },
    }
}

/// What to do after one call of a setup.
pub enum SenderStep<'mux, E> {
    /// There is another call to make.
    Pending(SenderSetup<'mux>),
    /// The setup is over.
    Done(Result<(Tag, MuxSender), MuxError<E>>),
}

impl<'mux, E> SenderStep<'mux, E> {
    /// Whether this step is what the progress `p` asks for: where the name was taken, an attempt
    /// for the same mux under the name of a newly drawn id.
    pub open spec fn follows(self, mux: MuxView, p: SenderProgressView<E>) -> bool {
        match p {
            SenderProgressView::Pending(s) => self matches SenderStep::Pending(setup) && setup@
                == s,
            SenderProgressView::Collision(left) => self matches SenderStep::Pending(setup)
                && exists|id: u128|
                setup@ == #[trigger] sender_attempt(mux, id, (left - 1) as u32),
            SenderProgressView::Done(Ok((tag, sender))) => self matches SenderStep::Done(
                Ok((t, s)),
            ) && t@ == tag && s@ == sender,
            SenderProgressView::Done(Err(error)) => self matches SenderStep::Done(Err(e)) && e
                == error,
        }
    }
}

impl<'mux> SenderSetup<'mux> {
    /// The attempt to set up a sender of `mux` under the name of `id`, with `left` more attempts
    /// after it.
    pub fn with_id(mux: &'mux Mux, id: u128, left: u32) -> (r: SenderSetup<'mux>)
        ensures
            r@ == sender_attempt(mux@, id, left),
    {
        SenderSetup { mux, stage: SenderStage::MakeAddress, addr: mux.make_sender_addr(id), left }
    }

    /// The call to make.
    pub fn action(&self) -> (r: Action<'_>)
        ensures
            r@ == sender_action(self@),
    {
        match self.stage {
            SenderStage::MakeAddress => Action::MakeAddress(&self.addr),
            SenderStage::Bind => Action::Bind(&self.addr),
            SenderStage::Connect => Action::Connect(self.mux.receive_addr()),
            SenderStage::ShutdownRead => Action::ShutdownRead,
        }
    }

    /// Takes the outcome of the call and says what it means.
    pub fn progress<E>(self, outcome: Result<(), Fault<E>>) -> (r: SenderProgress<'mux, E>)
        ensures
            r@ == sender_progress(self@, outcome),
    {
        match outcome {
            Ok(_) => match self.stage {
                SenderStage::MakeAddress => SenderProgress::Pending(
                    SenderSetup { stage: SenderStage::Bind, ..self },
                ),
                SenderStage::Bind => SenderProgress::Pending(
                    SenderSetup { stage: SenderStage::Connect, ..self },
                ),
                SenderStage::Connect => SenderProgress::Pending(
                    SenderSetup { stage: SenderStage::ShutdownRead, ..self },
                ),
                SenderStage::ShutdownRead => {
                    let tag = Tag::new(self.addr.clone());
                    let peer = self.mux.receive_addr().clone();
                    SenderProgress::Done(Ok((tag, MuxSender { addr: self.addr, peer })))
                },
            },
            Err(fault) => if self.stage == SenderStage::Bind && fault.kind
                == ErrorKind::AddrInUse {
                if self.left > 0 {
                    SenderProgress::Collision(self.left)
                } else {
                    SenderProgress::Done(Err(MuxError::NoUniqueName))
                }
            } else {
                SenderProgress::Done(Err(MuxError::Os(fault)))
            },
        }
    }

    /// Takes the outcome of the call and goes on, with another name where this one is taken.
    pub fn step<E>(self, outcome: Result<(), Fault<E>>) -> (r: SenderStep<'mux, E>)
        ensures
            r.follows(self@.mux, sender_progress(self@, outcome)),
    {
        let mux = self.mux;
        match self.progress(outcome) {
            SenderProgress::Pending(setup) => SenderStep::Pending(setup),
            SenderProgress::Collision(left) => {
                let id = random_id();
                SenderStep::Pending(SenderSetup::with_id(mux, id, left - 1))
            },
            SenderProgress::Done(result) => SenderStep::Done(result),
        }
    }
}

impl Mux {
    /// Starts to create a new `MuxSender` and associated unique `Tag`. Data sent via that
    /// `MuxSender` will arrive with the corresponding `Tag`.
    pub fn make_sender(&self) -> (r: SenderSetup<'_>)
        ensures
            exists|id: u128|
                r@ == #[trigger] sender_attempt(self@, id, (MAX_ATTEMPTS - 1) as u32),
    {
        let id = random_id();
        SenderSetup::with_id(self, id, MAX_ATTEMPTS - 1)
    }
}

} // verus!
