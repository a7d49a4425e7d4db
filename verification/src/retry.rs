//! What setups promise: they end, they take the first name that is free, and what they make is
//! ready for use.
//!
//! The system that a setup talks to is a function that gives the outcome of each call. Attempts are
//! told apart by how many more names may be tried after them, so no two calls of one setup look the
//! same to it, and it may answer in any way.

use vstd::prelude::*;

use crate::address::same_address;
use crate::address::AddressView;
use crate::delivery::is_sender_of;
use crate::error::ErrorKind;
use crate::error::Fault;
use crate::error::MuxError;
use crate::mux::fresh_mux;
use crate::mux::MuxView;
use crate::naming::abstract_receive_addr;
use crate::naming::directory_receive_addr;
use crate::naming::sender_addr;
use crate::sender::sender_action;
use crate::sender::sender_attempt;
use crate::sender::sender_progress;
use crate::sender::MuxSenderView;
use crate::sender::SenderProgressView;
use crate::sender::SenderSetupView;
use crate::sender::SenderStage;
use crate::setup::abstract_attempt;
use crate::setup::directory_attempt;
use crate::setup::mux_action;
use crate::setup::mux_progress;
use crate::setup::ActionView;
use crate::setup::MuxProgressView;
use crate::setup::MuxSetupView;
use crate::setup::MuxStage;
use crate::setup::MAX_ATTEMPTS;

verus! {

/// The outcome of each call, by the attempts left and the call.
pub type System<E> = spec_fn(u32, ActionView) -> Result<(), Fault<E>>;

/// The ids that are drawn, by the attempts left.
pub type Ids = spec_fn(u32) -> u128;

/// Whether the attempt at `addr` with `left` others after it fails because the address is taken.
pub open spec fn collides<E>(system: System<E>, left: u32, addr: AddressView) -> bool {
    &&& system(left, ActionView::MakeAddress(addr)) is Ok
    &&& system(left, ActionView::Bind(addr)) matches Err(fault) && fault.kind
        == ErrorKind::AddrInUse
}

/// The calls that an attempt at a receive end can still make.
pub open spec fn mux_calls(stage: MuxStage) -> nat {
    match stage {
        MuxStage::MakeAddress => 2,
        MuxStage::Bind => 1,
        MuxStage::ShutdownWrite => 0,
    }
}

/// What the setup `s` of a receive end comes to.
pub open spec fn mux_end<E>(s: MuxSetupView, system: System<E>, ids: Ids) -> Result<
    MuxView,
    MuxError<E>,
>
    decreases s.left, mux_calls(s.stage),
{
    match mux_progress(s, system(s.left, mux_action(s))) {
        MuxProgressView::Pending(next) => mux_end(next, system, ids),
        MuxProgressView::Collision(left) => {
            let fewer = (left - 1) as u32;
            mux_end(abstract_attempt(ids(fewer), fewer), system, ids)
        },
        MuxProgressView::Done(result) => result,
    }
}

/// The result of an attempt at a receive end whose address is not taken.
pub open spec fn mux_attempt_result<E>(
    system: System<E>,
    left: u32,
    addr: AddressView,
    tempdir: Option<Seq<u8>>,
) -> Result<MuxView, MuxError<E>> {
    match system(left, ActionView::MakeAddress(addr)) {
        Err(fault) => Err(MuxError::Os(fault)),
        Ok(_) => match system(left, ActionView::Bind(addr)) {
            Err(fault) => Err(MuxError::Os(fault)),
            Ok(_) => Ok(fresh_mux(addr, tempdir)),
        },
    }
}

/// A step of a setup either ends it or brings it closer to its end.
pub proof fn mux_setup_advances<E>(s: MuxSetupView, outcome: Result<(), Fault<E>>)
    ensures
        match mux_progress(s, outcome) {
            MuxProgressView::Pending(next) => next.left == s.left && mux_calls(next.stage)
                < mux_calls(s.stage),
            MuxProgressView::Collision(left) => 0 < left == s.left,
            MuxProgressView::Done(_) => true,
        },
{
}

/// A mux in a directory is made with one attempt: an error of making the address or of binding it
/// is returned as it is, even where the address is taken, and nothing else can fail.
pub proof fn directory_mux_is_tried_once<E>(dir: Seq<u8>, system: System<E>, ids: Ids)
    ensures
        mux_end(directory_attempt(dir), system, ids) == mux_attempt_result(
            system,
            0,
            directory_receive_addr(dir),
            Some(dir),
        ),
{
    reveal_with_fuel(mux_end, 4);
}

/// One attempt at an abstract receive end: where its name is taken, the next one decides.
pub proof fn abstract_mux_attempt<E>(left: u32, system: System<E>, ids: Ids)
    ensures
        mux_end(abstract_attempt(ids(left), left), system, ids) == if !collides(
            system,
            left,
            abstract_receive_addr(ids(left)),
        ) {
            mux_attempt_result(system, left, abstract_receive_addr(ids(left)), None)
        } else if left > 0 {
            let fewer = (left - 1) as u32;
            mux_end(abstract_attempt(ids(fewer), fewer), system, ids)
        } else {
            Err(MuxError::NoUniqueName)
        },
{
    reveal_with_fuel(mux_end, 4);
}

/// The first name that is not taken decides what becomes of an abstract mux.
pub proof fn abstract_mux_takes_first_free_name<E>(
    left: u32,
    free: u32,
    system: System<E>,
    ids: Ids,
)
    requires
        free <= left,
        forall|k: u32|
            free < k <= left ==> #[trigger] collides(system, k, abstract_receive_addr(ids(k))),
        !collides(system, free, abstract_receive_addr(ids(free))),
    ensures
        mux_end(abstract_attempt(ids(left), left), system, ids) == mux_attempt_result(
            system,
            free,
            abstract_receive_addr(ids(free)),
            None,
        ),
    decreases left,
{
    abstract_mux_attempt(left, system, ids);
    if left > free {
        assert(collides(system, left, abstract_receive_addr(ids(left))));
        abstract_mux_takes_first_free_name((left - 1) as u32, free, system, ids);
    }
}

proof fn lemma_abstract_mux_runs_out<E>(left: u32, system: System<E>, ids: Ids)
    requires
        forall|k: u32| k <= left ==> #[trigger] collides(system, k, abstract_receive_addr(ids(k))),
    ensures
        mux_end(abstract_attempt(ids(left), left), system, ids) == Err::<MuxView, MuxError<E>>(
            MuxError::NoUniqueName,
        ),
    decreases left,
{
    abstract_mux_attempt(left, system, ids);
    assert(collides(system, left, abstract_receive_addr(ids(left))));
    if left > 0 {
        lemma_abstract_mux_runs_out((left - 1) as u32, system, ids);
    }
}

/// An abstract mux is given up for want of a name exactly when all of `MAX_ATTEMPTS` names are
/// taken.
pub proof fn abstract_mux_gives_up_when_all_collide<E>(system: System<E>, ids: Ids)
    ensures
        ({
            let last = (MAX_ATTEMPTS - 1) as u32;
            mux_end(abstract_attempt(ids(last), last), system, ids) == Err::<MuxView, MuxError<E>>(
                MuxError::NoUniqueName,
            ) <==> forall|k: u32|
                k < MAX_ATTEMPTS ==> #[trigger] collides(system, k, abstract_receive_addr(ids(k)))
        }),
{
    let last = (MAX_ATTEMPTS - 1) as u32;
    if forall|k: u32|
        k < MAX_ATTEMPTS ==> #[trigger] collides(system, k, abstract_receive_addr(ids(k))) {
        lemma_abstract_mux_runs_out(last, system, ids);
    } else {
        let taken = |k: u32| collides(system, k, abstract_receive_addr(ids(k)));
        let k = choose|k: u32|
            k < MAX_ATTEMPTS && !#[trigger] collides(system, k, abstract_receive_addr(ids(k)));
        assert(!taken(k));
        let free = first_free(last, taken);
        assert forall|k: u32| free < k <= last implies #[trigger] collides(
            system,
            k,
            abstract_receive_addr(ids(k)),
        ) by {
            assert(taken(k));
        }
        abstract_mux_takes_first_free_name(last, free, system, ids);
    }
}

/// The first attempt from `left` downwards that does not collide.
proof fn first_free(left: u32, taken: spec_fn(u32) -> bool) -> (free: u32)
    requires
        exists|k: u32| k <= left && !#[trigger] taken(k),
    ensures
        free <= left,
        !taken(free),
        forall|k: u32| free < k <= left ==> #[trigger] taken(k),
    decreases left,
{
    if !taken(left) {
        left
    } else {
        let k = choose|k: u32| k <= left && !#[trigger] taken(k);
        assert(k < left);
        first_free((left - 1) as u32, taken)
    }
}

/// A mux that was made has its receive end bound to its address, and a buffer of zeros of
/// the default size.
pub proof fn made_mux_is_bound<E>(s: MuxSetupView, system: System<E>, ids: Ids)
    requires
        s.stage == MuxStage::MakeAddress,
        mux_end(s, system, ids) is Ok,
    ensures
        ({
            let mux = mux_end(s, system, ids)->Ok_0;
            &&& mux == fresh_mux(mux.receive_addr, s.tempdir)
            &&& mux.wf()
            &&& exists|left: u32|
                left <= s.left && #[trigger] system(left, ActionView::Bind(mux.receive_addr)) is Ok
        }),
    decreases s.left,
{
    reveal_with_fuel(mux_end, 4);
    let addr = s.receive_addr;
    assert(system(s.left, ActionView::MakeAddress(addr)) is Ok);
    match system(s.left, ActionView::Bind(addr)) {
        Ok(_) => {},
        Err(fault) => {
            let fewer = (s.left - 1) as u32;
            made_mux_is_bound(abstract_attempt(ids(fewer), fewer), system, ids);
        },
    }
}

/// The address of a new receive end is unique: where no two sockets can be bound to the same
/// address, it differs from every address that is bound already.
pub proof fn address_of_new_mux_is_unique<E>(
    s: MuxSetupView,
    system: System<E>,
    ids: Ids,
    bound: Set<AddressView>,
)
    requires
        s.stage == MuxStage::MakeAddress,
        mux_end(s, system, ids) is Ok,
        forall|left: u32, addr: AddressView, other: AddressView|
            #[trigger] system(left, ActionView::Bind(addr)) is Ok && #[trigger] bound.contains(
                other,
            ) ==> !same_address(addr, other),
    ensures
        forall|other: AddressView| #[trigger]
            bound.contains(other) ==> !same_address(
                (mux_end(s, system, ids)->Ok_0).receive_addr,
                other,
            ),
{
    made_mux_is_bound(s, system, ids);
}

/// The calls that an attempt at a sender can still make.
pub open spec fn sender_calls(stage: SenderStage) -> nat {
    match stage {
        SenderStage::MakeAddress => 3,
        SenderStage::Bind => 2,
        SenderStage::Connect => 1,
        SenderStage::ShutdownRead => 0,
    }
}

/// What the setup `s` of a sender comes to.
pub open spec fn sender_end<E>(s: SenderSetupView, system: System<E>, ids: Ids) -> Result<
    (AddressView, MuxSenderView),
    MuxError<E>,
>
    decreases s.left, sender_calls(s.stage),
{
    match sender_progress(s, system(s.left, sender_action(s))) {
        SenderProgressView::Pending(next) => sender_end(next, system, ids),
        SenderProgressView::Collision(left) => {
            let fewer = (left - 1) as u32;
            sender_end(sender_attempt(s.mux, ids(fewer), fewer), system, ids)
        },
        SenderProgressView::Done(result) => result,
    }
}

/// The result of an attempt at a sender whose address is not taken.
pub open spec fn sender_attempt_result<E>(
    system: System<E>,
    left: u32,
    addr: AddressView,
    mux: MuxView,
) -> Result<(AddressView, MuxSenderView), MuxError<E>> {
    match system(left, ActionView::MakeAddress(addr)) {
        Err(fault) => Err(MuxError::Os(fault)),
        Ok(_) => match system(left, ActionView::Bind(addr)) {
            Err(fault) => Err(MuxError::Os(fault)),
            Ok(_) => match system(left, ActionView::Connect(mux.receive_addr)) {
                Err(fault) => Err(MuxError::Os(fault)),
                Ok(_) => match system(left, ActionView::ShutdownRead) {
                    Err(fault) => Err(MuxError::Os(fault)),
                    Ok(_) => Ok((addr, MuxSenderView { addr, peer: mux.receive_addr })),
                },
            },
        },
    }
}

/// A step of a setup either ends it or brings it closer to its end.
pub proof fn sender_setup_advances<E>(s: SenderSetupView, outcome: Result<(), Fault<E>>)
    ensures
        match sender_progress(s, outcome) {
            SenderProgressView::Pending(next) => next.left == s.left && sender_calls(next.stage)
                < sender_calls(s.stage),
            SenderProgressView::Collision(left) => 0 < left == s.left,
            SenderProgressView::Done(_) => true,
        },
{
}

/// One attempt at a sender: where its name is taken, the next one decides.
pub proof fn one_sender_attempt<E>(mux: MuxView, left: u32, system: System<E>, ids: Ids)
    ensures
        sender_end(sender_attempt(mux, ids(left), left), system, ids) == if !collides(
            system,
            left,
            sender_addr(mux.tempdir, ids(left)),
        ) {
            sender_attempt_result(system, left, sender_addr(mux.tempdir, ids(left)), mux)
        } else if left > 0 {
            let fewer = (left - 1) as u32;
            sender_end(sender_attempt(mux, ids(fewer), fewer), system, ids)
        } else {
            Err(MuxError::NoUniqueName)
        },
{
    reveal_with_fuel(sender_end, 5);
}

/// The first name that is not taken decides what becomes of a sender.
pub proof fn sender_takes_first_free_name<E>(
    mux: MuxView,
    left: u32,
    free: u32,
    system: System<E>,
    ids: Ids,
)
    requires
        free <= left,
        forall|k: u32|
            free < k <= left ==> #[trigger] collides(
                system,
                k,
                sender_addr(mux.tempdir, ids(k)),
            ),
        !collides(system, free, sender_addr(mux.tempdir, ids(free))),
    ensures
        sender_end(sender_attempt(mux, ids(left), left), system, ids) == sender_attempt_result(
            system,
            free,
            sender_addr(mux.tempdir, ids(free)),
            mux,
        ),
    decreases left,
{
    one_sender_attempt(mux, left, system, ids);
    if left > free {
        assert(collides(system, left, sender_addr(mux.tempdir, ids(left))));
        sender_takes_first_free_name(mux, (left - 1) as u32, free, system, ids);
    }
}

proof fn lemma_sender_runs_out<E>(mux: MuxView, left: u32, system: System<E>, ids: Ids)
    requires
        forall|k: u32|
            k <= left ==> #[trigger] collides(system, k, sender_addr(mux.tempdir, ids(k))),
    ensures
        sender_end(sender_attempt(mux, ids(left), left), system, ids) == Err::<
            (AddressView, MuxSenderView),
            MuxError<E>,
        >(MuxError::NoUniqueName),
    decreases left,
{
    one_sender_attempt(mux, left, system, ids);
    assert(collides(system, left, sender_addr(mux.tempdir, ids(left))));
    if left > 0 {
        lemma_sender_runs_out(mux, (left - 1) as u32, system, ids);
    }
}

/// A sender is given up for want of a name exactly when all of `MAX_ATTEMPTS` names are taken.
pub proof fn sender_gives_up_when_all_collide<E>(mux: MuxView, system: System<E>, ids: Ids)
    ensures
        ({
            let last = (MAX_ATTEMPTS - 1) as u32;
            sender_end(sender_attempt(mux, ids(last), last), system, ids) == Err::<
                (AddressView, MuxSenderView),
                MuxError<E>,
            >(MuxError::NoUniqueName) <==> forall|k: u32|
                k < MAX_ATTEMPTS ==> #[trigger] collides(
                    system,
                    k,
                    sender_addr(mux.tempdir, ids(k)),
                )
        }),
{
    let last = (MAX_ATTEMPTS - 1) as u32;
    if forall|k: u32|
        k < MAX_ATTEMPTS ==> #[trigger] collides(system, k, sender_addr(mux.tempdir, ids(k))) {
        lemma_sender_runs_out(mux, last, system, ids);
    } else {
        let taken = |k: u32| collides(system, k, sender_addr(mux.tempdir, ids(k)));
        let k = choose|k: u32|
            k < MAX_ATTEMPTS && !#[trigger] collides(system, k, sender_addr(mux.tempdir, ids(k)));
        assert(!taken(k));
        let free = first_free(last, taken);
        assert forall|k: u32| free < k <= last implies #[trigger] collides(
            system,
            k,
            sender_addr(mux.tempdir, ids(k)),
        ) by {
            assert(taken(k));
        }
        sender_takes_first_free_name(mux, last, free, system, ids);
    }
}

/// A sender that was made sends to the receive end of its mux, from the address that its tag
/// stands for: a socket was bound to that address, connected to the receive end, and its reading
/// side was shut down.
pub proof fn made_sender_is_connected<E>(s: SenderSetupView, system: System<E>, ids: Ids)
    requires
        s.stage == SenderStage::MakeAddress,
        sender_end(s, system, ids) is Ok,
    ensures
        ({
            let (tag, sender) = sender_end(s, system, ids)->Ok_0;
            &&& is_sender_of(s.mux, tag, sender)
            &&& exists|left: u32|
                {
                    &&& left <= s.left
                    &&& #[trigger] system(left, ActionView::Bind(tag)) is Ok
                    &&& system(left, ActionView::Connect(s.mux.receive_addr)) is Ok
                    &&& system(left, ActionView::ShutdownRead) is Ok
                }
        }),
    decreases s.left,
{
    reveal_with_fuel(sender_end, 5);
    let addr = s.addr;
    assert(system(s.left, ActionView::MakeAddress(addr)) is Ok);
    match system(s.left, ActionView::Bind(addr)) {
        Ok(_) => {
            assert(system(s.left, ActionView::Connect(s.mux.receive_addr)) is Ok);
            assert(system(s.left, ActionView::ShutdownRead) is Ok);
        },
        Err(fault) => {
            let fewer = (s.left - 1) as u32;
            made_sender_is_connected(sender_attempt(s.mux, ids(fewer), fewer), system, ids);
        },
    }
}

/// The tag of a new sender is unique: where no two sockets can be bound to the same address, it
/// differs from the tag of every sender that is bound already.
pub proof fn tag_of_new_sender_is_unique<E>(
    s: SenderSetupView,
    system: System<E>,
    ids: Ids,
    bound: Set<AddressView>,
)
    requires
        s.stage == SenderStage::MakeAddress,
        sender_end(s, system, ids) is Ok,
        forall|left: u32, addr: AddressView, other: AddressView|
            #[trigger] system(left, ActionView::Bind(addr)) is Ok && #[trigger] bound.contains(
                other,
            ) ==> !same_address(addr, other),
    ensures
        forall|other: AddressView| #[trigger]
            bound.contains(other) ==> !same_address(
                (sender_end(s, system, ids)->Ok_0).0,
                other,
            ),
{
    made_sender_is_connected(s, system, ids);
}

} // verus!
