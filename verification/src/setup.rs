//! How a receive end comes to be.
//!
//! A setup asks for one socket call at a time. Its caller makes the call, hands back the outcome,
//! and is told what to call next, until the mux is there or an error is final.

use vstd::prelude::*;

use crate::address::Address;
use crate::address::AddressView;
use crate::error::ErrorKind;
use crate::error::Fault;
use crate::error::MuxError;
use crate::mux::dir_view;
use crate::mux::fresh_mux;
use crate::mux::Mux;
use crate::mux::MuxView;
use crate::naming::abstract_receive_addr;
use crate::naming::directory_receive_addr;
use crate::naming::make_abstract_receive_addr;
use crate::naming::make_directory_receive_addr;
use crate::random::random_id;

verus! {

/// How many names are tried before giving up on finding a free one.
pub const MAX_ATTEMPTS: u32 = 32768;

/// A socket call that a setup asks for.
pub enum Action<'a> {
    /// Make a socket address of this address.
    MakeAddress(&'a Address),
    /// Bind a new datagram socket to this address.
    Bind(&'a Address),
    /// Connect the socket to this address.
    Connect(&'a Address),
    /// Shut down the reading side of the socket.
    ShutdownRead,
    /// Shut down the writing side of the socket.
    ShutdownWrite,
}

/// The value of an [`Action`].
#[verifier::ext_equal]
pub enum ActionView {
    MakeAddress(AddressView),
    Bind(AddressView),
    Connect(AddressView),
    ShutdownRead,
    ShutdownWrite,
}

impl<'a> View for Action<'a> {
    type V = ActionView;

    open spec fn view(&self) -> ActionView {
        match self {
            Action::MakeAddress(addr) => ActionView::MakeAddress(addr@),
            Action::Bind(addr) => ActionView::Bind(addr@),
            Action::Connect(addr) => ActionView::Connect(addr@),
            Action::ShutdownRead => ActionView::ShutdownRead,
            Action::ShutdownWrite => ActionView::ShutdownWrite,
        }
    }
}

/// Which call a [`MuxSetup`] waits for.
#[derive(Clone, Copy, Debug, PartialEq, Eq, Structural)]
pub enum MuxStage {
    MakeAddress,
    Bind,
    ShutdownWrite,
}

/// A receive end in the making.
pub struct MuxSetup {
    stage: MuxStage,
    receive_addr: Address,
    tempdir: Option<Vec<u8>>,
    left: u32,
}

/// The value of a [`MuxSetup`]: the call it waits for, the address it tries, the directory of that
/// address unless it is abstract, and how many more names may be tried after this one.
#[verifier::ext_equal]
pub struct MuxSetupView {
    pub stage: MuxStage,
    pub receive_addr: AddressView,
    pub tempdir: Option<Seq<u8>>,
    pub left: u32,
}

impl View for MuxSetup {
    type V = MuxSetupView;

    closed spec fn view(&self) -> MuxSetupView {
        MuxSetupView {
            stage: self.stage,
            receive_addr: self.receive_addr@,
            tempdir: dir_view(self.tempdir),
            left: self.left,
        }
    }
}

/// The attempt to set up an abstract receive end under the name of `id`.
pub open spec fn abstract_attempt(id: u128, left: u32) -> MuxSetupView {
    MuxSetupView {
        stage: MuxStage::MakeAddress,
        receive_addr: abstract_receive_addr(id),
        tempdir: None,
        left,
    }
}

/// The attempt to set up a receive end in the directory `dir`.
pub open spec fn directory_attempt(dir: Seq<u8>) -> MuxSetupView {
    MuxSetupView {
        stage: MuxStage::MakeAddress,
        receive_addr: directory_receive_addr(dir),
        tempdir: Some(dir),
        left: 0,
    }
}

/// The call that a setup waits for.
pub open spec fn mux_action(s: MuxSetupView) -> ActionView {
    match s.stage {
        MuxStage::MakeAddress => ActionView::MakeAddress(s.receive_addr),
        MuxStage::Bind => ActionView::Bind(s.receive_addr),
        MuxStage::ShutdownWrite => ActionView::ShutdownWrite,
    }
}

/// What a setup comes to with the outcome of one call.
pub enum MuxProgress<E> {
    /// There is another call to make.
    Pending(MuxSetup),
    /// The name is taken. This many others may be tried.
    Collision(u32),
    /// The setup is over.
    Done(Result<Mux, MuxError<E>>),
}

/// The value of a [`MuxProgress`].
#[verifier::ext_equal]
pub enum MuxProgressView<E> {
    Pending(MuxSetupView),
    Collision(u32),
    Done(Result<MuxView, MuxError<E>>),
}

impl<E> View for MuxProgress<E> {
    type V = MuxProgressView<E>;

    open spec fn view(&self) -> MuxProgressView<E> {
        match self {
            MuxProgress::Pending(setup) => MuxProgressView::Pending(setup@),
            MuxProgress::Collision(left) => MuxProgressView::Collision(*left),
            MuxProgress::Done(Ok(mux)) => MuxProgressView::Done(Ok(mux@)),
            MuxProgress::Done(Err(error)) => MuxProgressView::Done(Err(*error)),
        }
    }
}

/// What the setup `s` comes to when the call it waits for ends with `outcome`.
///
/// An abstract name that is taken is given up for another while there are attempts left. Every
/// other failure is final, except that a failed shutdown of the writing side does not matter.
pub open spec fn mux_progress<E>(s: MuxSetupView, outcome: Result<(), Fault<E>>) -> MuxProgressView<
    E,
> {
    match (s.stage, outcome) {
        (MuxStage::MakeAddress, Ok(_)) => MuxProgressView::Pending(
            MuxSetupView { stage: MuxStage::Bind, ..s },
        ),
        (MuxStage::MakeAddress, Err(fault)) => MuxProgressView::Done(Err(MuxError::Os(fault))),
        (MuxStage::Bind, Ok(_)) => MuxProgressView::Pending(
            MuxSetupView { stage: MuxStage::ShutdownWrite, ..s },
        ),
        (MuxStage::Bind, Err(fault)) => if s.tempdir is None && fault.kind
            == ErrorKind::AddrInUse {
            if s.left > 0 {
                MuxProgressView::Collision(s.left)
            } else {
                MuxProgressView::Done(Err(MuxError::NoUniqueName))
            }
        } else {
            MuxProgressView::Done(Err(MuxError::Os(fault)))
        },
        (MuxStage::ShutdownWrite, _) => MuxProgressView::Done(
            Ok(fresh_mux(s.receive_addr, s.tempdir)),
        ),
    }
}

/// What to do after one call of a setup.
pub enum MuxStep<E> {
    /// There is another call to make.
    Pending(MuxSetup),
    /// The setup is over.
    Done(Result<Mux, MuxError<E>>),
}

impl<E> MuxStep<E> {
    /// Whether this step is what the progress `p` asks for: where the name was taken, an attempt
    /// under the name of a newly drawn id.
    pub open spec fn follows(self, p: MuxProgressView<E>) -> bool {
        match p {
            MuxProgressView::Pending(s) => self matches MuxStep::Pending(setup) && setup@ == s,
            MuxProgressView::Collision(left) => self matches MuxStep::Pending(setup) && exists|
                id: u128,
            |
                setup@ == #[trigger] abstract_attempt(id, (left - 1) as u32),
            MuxProgressView::Done(Ok(mux)) => self matches MuxStep::Done(Ok(m)) && m@ == mux,
            MuxProgressView::Done(Err(error)) => self matches MuxStep::Done(Err(e)) && e == error,
        }
    }
}

impl MuxSetup {
    /// The attempt to set up an abstract receive end under the name of `id`, with `left` more
    /// attempts after it.
    pub fn with_id(id: u128, left: u32) -> (r: MuxSetup)
        ensures
            r@ == abstract_attempt(id, left),
    {
        MuxSetup {
            stage: MuxStage::MakeAddress,
            receive_addr: make_abstract_receive_addr(id),
            tempdir: None,
            left,
        }
    }

    /// The call to make.
    pub fn action(&self) -> (r: Action<'_>)
        ensures
            r@ == mux_action(self@),
    {
        match self.stage {
            MuxStage::MakeAddress => Action::MakeAddress(&self.receive_addr),
            MuxStage::Bind => Action::Bind(&self.receive_addr),
            MuxStage::ShutdownWrite => Action::ShutdownWrite,
        }
    }

    /// Takes the outcome of the call and says what it means.
    pub fn progress<E>(self, outcome: Result<(), Fault<E>>) -> (r: MuxProgress<E>)
        ensures
            r@ == mux_progress(self@, outcome),
    {
        match self.stage {
            MuxStage::MakeAddress => match outcome {
                Ok(_) => MuxProgress::Pending(MuxSetup { stage: MuxStage::Bind, ..self }),
                Err(fault) => MuxProgress::Done(Err(MuxError::Os(fault))),
            },
            MuxStage::Bind => match outcome {
                Ok(_) => MuxProgress::Pending(MuxSetup { stage: MuxStage::ShutdownWrite, ..self }),
                Err(fault) => if self.tempdir.is_none() && fault.kind == ErrorKind::AddrInUse {
                    if self.left > 0 {
                        MuxProgress::Collision(self.left)
                    } else {
                        MuxProgress::Done(Err(MuxError::NoUniqueName))
                    }
                } else {
                    MuxProgress::Done(Err(MuxError::Os(fault)))
                },
            },
            // Shutting down the writing side helps to catch mistakes. Nothing depends on it.
            MuxStage::ShutdownWrite => MuxProgress::Done(
                Ok(Mux::new_with_addr(self.receive_addr, self.tempdir)),
            ),
        }
    }

    /// Takes the outcome of the call and goes on, with another name where this one is taken.
    pub fn step<E>(self, outcome: Result<(), Fault<E>>) -> (r: MuxStep<E>)
        ensures
            r.follows(mux_progress(self@, outcome)),
    {
        match self.progress(outcome) {
            MuxProgress::Pending(setup) => MuxStep::Pending(setup),
            MuxProgress::Collision(left) => {
                let id = random_id();
                MuxStep::Pending(MuxSetup::with_id(id, left - 1))
            },
            MuxProgress::Done(result) => MuxStep::Done(result),
        }
    }
}

impl Mux {
    /// Starts to create a new `Mux`, using Linux abstract sockets.
    pub fn new_abstract() -> (r: MuxSetup)
        ensures
            exists|id: u128| r@ == #[trigger] abstract_attempt(id, (MAX_ATTEMPTS - 1) as u32),
    {
        let id = random_id();
        MuxSetup::with_id(id, MAX_ATTEMPTS - 1)
    }

    /// Starts to create a new `Mux` in a new temporary directory, once it is known how creating
    /// that directory went.
    pub fn new<E>(tempdir: Result<Vec<u8>, E>) -> (r: Result<MuxSetup, E>)
        ensures
            match tempdir {
                Ok(dir) => r matches Ok(setup) && setup@ == directory_attempt(dir@),
                Err(error) => r matches Err(e) && e == error,
            },
    {
        match tempdir {
            Ok(dir) => Ok(Self::new_with_tempdir(dir)),
            Err(error) => Err(error),
        }
    }

    /// Starts to create a new `Mux` in a new temporary directory under a path of the caller's
    /// choice, once it is known how creating that directory went.
    pub fn new_in<E>(tempdir: Result<Vec<u8>, E>) -> (r: Result<MuxSetup, E>)
        ensures
            match tempdir {
                Ok(dir) => r matches Ok(setup) && setup@ == directory_attempt(dir@),
                Err(error) => r matches Err(e) && e == error,
            },
    {
        match tempdir {
            Ok(dir) => Ok(Self::new_with_tempdir(dir)),
            Err(error) => Err(error),
        }
    }

    /// Starts to create a new `Mux` that keeps its sockets in `tempdir`.
    pub fn new_with_tempdir(tempdir: Vec<u8>) -> (r: MuxSetup)
        ensures
            r@ == directory_attempt(tempdir@),
    {
        MuxSetup {
            stage: MuxStage::MakeAddress,
            receive_addr: make_directory_receive_addr(tempdir.as_slice()),
            tempdir: Some(tempdir),
            left: 0,
        }
    }
}

} // verus!
