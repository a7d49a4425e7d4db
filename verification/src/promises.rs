//! What callers can rely on, from the first call of a function to the last.
//!
//! Each promise here speaks of what the functions take and return: which socket calls they ask for,
//! which addresses they hand out, and which data and tags come back.

use vstd::prelude::*;

use crate::address::same_address;
use crate::address::Address;
use crate::address::AddressView;
use crate::async_mux::AsyncMux;
use crate::bytes::bytes_clone;
use crate::bytes::bytes_eq;
use crate::delivery::is_sender_of;
use crate::error::ErrorKind;
use crate::error::Fault;
use crate::error::MuxError;
use crate::hex::hex;
use crate::hex::hex_has_digits;
use crate::hex::hex_stands_for_number;
use crate::hex::push_hex;
use crate::hex::value;
use crate::mux::Mux;
use crate::mux::MuxView;
use crate::naming::make_abstract_receive_addr;
use crate::naming::make_abstract_sender_addr;
use crate::naming::make_directory_receive_addr;
use crate::naming::make_directory_sender_addr;
use crate::naming::receive_entry;
use crate::naming::receive_prefix;
use crate::naming::send_prefix;
use crate::naming::sender_addr;
use crate::naming::sender_addrs_differ;
use crate::naming::sender_is_not_receiver;
use crate::naming::sockets_lie_in_the_directory;
use crate::path::join;
use crate::path::joined;
use crate::path::names;
use crate::path::path_eq;
use crate::read::Received;
use crate::retry::mux_end;
use crate::retry::sender_end;
use crate::retry::Ids;
use crate::retry::System;
use crate::sender::Datagram;
use crate::sender::MuxSender;
use crate::sender::MuxSenderView;
use crate::sender::SenderProgress;
use crate::sender::SenderSetup;
use crate::sender::SenderStep;
use crate::setup::Action;
use crate::setup::MuxProgress;
use crate::setup::MuxSetup;
use crate::setup::MuxStep;
use crate::tag::Tag;
use crate::tag::TaggedData;

verus! {

/// The bytes of an ASCII text.
pub open spec fn ascii(text: Seq<char>) -> Seq<u8> {
    Seq::new(text.len(), |i: int| text[i] as u8)
}

/// The path of `entry` in the directory `dir`.
pub open spec fn path_in(dir: Seq<u8>, entry: Seq<u8>) -> Seq<u8> {
    if dir.len() == 0 || dir.last() == '/' as u8 {
        dir + entry
    } else {
        dir + seq!['/' as u8] + entry
    }
}

/// Where a mux in the directory `dir` receives.
pub open spec fn receiver_in(dir: Seq<u8>) -> AddressView {
    AddressView::Pathname(path_in(dir, ascii("r"@)))
}

/// Where an abstract mux with the id `id` receives.
pub open spec fn abstract_receiver(id: u128) -> AddressView {
    AddressView::Abstract(ascii("io-mux-"@) + hex(id as nat))
}

/// Where the sender `id` of a mux sends from.
pub open spec fn sender_of(tempdir: Option<Seq<u8>>, id: u128) -> AddressView {
    match tempdir {
        Some(dir) => AddressView::Pathname(path_in(dir, hex(id as nat))),
        None => AddressView::Abstract(ascii("io-mux-send-"@) + hex(id as nat)),
    }
}

/// Whether `addr` holds the address `view`, byte for byte.
pub open spec fn holds(addr: Address, view: AddressView) -> bool {
    match view {
        AddressView::Abstract(name) => addr matches Address::Abstract(bytes) && bytes@ == name,
        AddressView::Pathname(path) => addr matches Address::Pathname(bytes) && bytes@ == path,
        AddressView::Unnamed => addr is Unnamed,
    }
}

proof fn lemma_holds(addr: Address)
    ensures
        holds(addr, addr@),
{
}

proof fn lemma_names(dir: Seq<u8>)
    ensures
        receive_entry() == ascii("r"@),
        receive_prefix() == ascii("io-mux-"@),
        send_prefix() == ascii("io-mux-send-"@),
        joined(dir, receive_entry()) == path_in(dir, ascii("r"@)),
{
    reveal_strlit("r");
    reveal_strlit("io-mux-");
    reveal_strlit("io-mux-send-");
    assert(receive_entry() =~= ascii("r"@));
    assert(receive_prefix() =~= ascii("io-mux-"@));
    assert(send_prefix() =~= ascii("io-mux-send-"@));
}

proof fn lemma_sender_of(tempdir: Option<Seq<u8>>, id: u128)
    ensures
        sender_addr(tempdir, id) == sender_of(tempdir, id),
{
    hex_has_digits(id as nat);
    assert(crate::hex::is_digit(hex(id as nat)[0]));
    lemma_names(Seq::empty());
}

/// `path_eq` tells whether two paths are the same path.
pub proof fn path_eq_compares_paths(a: &[u8], b: &[u8], r: bool)
    requires
        call_ensures(path_eq, (a, b), r),
    ensures
        r <==> {
            &&& (a@.len() > 0 && a@[0] == '/' as u8) == (b@.len() > 0 && b@[0] == '/' as u8)
            &&& (a@ == seq!['.' as u8] || (a@.len() > 1 && a@[0] == '.' as u8 && a@[1]
                == '/' as u8)) == (b@ == seq!['.' as u8] || (b@.len() > 1 && b@[0] == '.' as u8
                && b@[1] == '/' as u8))
            &&& names(a@) == names(b@)
        },
{
    crate::path::same_path_means(a@, b@);
}

/// `join` puts a name into a directory, and leaves a rooted name as it is.
pub proof fn join_puts_name_into_directory(dir: &[u8], name: &[u8], r: Vec<u8>)
    requires
        call_ensures(join, (dir, name), r),
    ensures
        r@ == if name@.len() > 0 && name@[0] == '/' as u8 {
            name@
        } else {
            path_in(dir@, name@)
        },
{
}

/// Two tags are equal exactly when they are abstract with equal names, or the same path, or both
/// unnamed.
pub proof fn tags_are_equal_when_addresses_match(s: Tag, t: Tag, r: bool, unequal: bool)
    requires
        call_ensures(<Tag as PartialEq>::eq, (&s, &t), r),
        call_ensures(<Tag as PartialEq>::ne, (&s, &t), unequal),
    ensures
        unequal == !r,
        match (s@, t@) {
            (AddressView::Abstract(x), AddressView::Abstract(y)) => r == (x == y),
            (AddressView::Pathname(x), AddressView::Pathname(y)) => r == (
            crate::path::components(x) == crate::path::components(y)),
            (AddressView::Unnamed, AddressView::Unnamed) => r,
            _ => !r,
        },
{
}

/// The tags of two pieces of data that were read are equal exactly when the data came from sockets
/// with equal abstract names, or with the same path, or without a name.
pub proof fn tags_tell_senders_apart<'a, 'b, E>(
    m: &'a mut Mux,
    n: &'b mut Mux,
    x: Received,
    y: Received,
    s: TaggedData<'a>,
    t: TaggedData<'b>,
    r: bool,
)
    requires
        call_ensures(Mux::read::<E>, (m, Ok(x)), Ok(s)),
        call_ensures(Mux::read::<E>, (n, Ok(y)), Ok(t)),
        call_ensures(<Tag as PartialEq>::eq, (&s.tag, &t.tag), r),
    ensures
        match (x.from, y.from) {
            (Address::Abstract(a), Address::Abstract(b)) => r == (a@ == b@),
            (Address::Pathname(a), Address::Pathname(b)) => r == (crate::path::components(a@)
                == crate::path::components(b@)),
            (Address::Unnamed, Address::Unnamed) => r,
            _ => !r,
        },
{
}

/// A clone of a tag is equal to it, and so is anything that the tag is equal to.
pub proof fn clone_of_tag_is_equal(t: Tag, c: Tag, other: Tag, r: bool, s: bool)
    requires
        call_ensures(<Tag as Clone>::clone, (&t,), c),
        call_ensures(<Tag as PartialEq>::eq, (&t, &other), r),
        call_ensures(<Tag as PartialEq>::eq, (&c, &other), s),
    ensures
        r == s,
        c@ == t@,
{
}

/// Tagged data is equal exactly when the bytes are equal and the tags are.
pub proof fn tagged_data_is_equal_by_data_and_tag<'a>(
    x: TaggedData<'a>,
    y: TaggedData<'a>,
    r: bool,
    tags: bool,
)
    requires
        call_ensures(<TaggedData<'a> as PartialEq>::eq, (&x, &y), r),
        call_ensures(<Tag as PartialEq>::eq, (&x.tag, &y.tag), tags),
    ensures
        r == (x.data@ == y.data@ && tags),
{
}

/// The tags of two senders of one mux are equal exactly when the senders have the same id.
pub proof fn tags_of_senders_are_equal_when_ids_are(
    tempdir: Option<Seq<u8>>,
    id: u128,
    other: u128,
    s: Tag,
    t: Tag,
    r: bool,
)
    requires
        s@ == sender_of(tempdir, id),
        t@ == sender_of(tempdir, other),
        call_ensures(<Tag as PartialEq>::eq, (&s, &t), r),
    ensures
        r == (id == other),
{
    lemma_sender_of(tempdir, id);
    lemma_sender_of(tempdir, other);
    if id != other {
        sender_addrs_differ(tempdir, id, other);
    }
}

/// A mux in a directory, from start to end. Its setup asks for an address for the entry `r` of the
/// directory, binds that very address, and shuts down the writing side of the socket. The mux that
/// comes of it keeps the directory and the address, however the shutdown went.
pub proof fn directory_mux_from_start_to_end<'a, E>(
    dir: Vec<u8>,
    s0: MuxSetup,
    a0: Action<'a>,
    s1: MuxSetup,
    a1: Action<'a>,
    s2: MuxSetup,
    a2: Action<'a>,
    last: Result<(), Fault<E>>,
    end: MuxStep<E>,
)
    requires
        call_ensures(Mux::new_with_tempdir, (dir,), s0),
        call_ensures(MuxSetup::action, (&s0,), a0),
        call_ensures(MuxSetup::step::<E>, (s0, Ok(())), MuxStep::Pending(s1)),
        call_ensures(MuxSetup::action, (&s1,), a1),
        call_ensures(MuxSetup::step::<E>, (s1, Ok(())), MuxStep::Pending(s2)),
        call_ensures(MuxSetup::action, (&s2,), a2),
        call_ensures(MuxSetup::step::<E>, (s2, last), end),
    ensures
        a0 matches Action::MakeAddress(addr) && holds(*addr, receiver_in(dir@)),
        a1 matches Action::Bind(addr) && holds(*addr, receiver_in(dir@)),
        a2 is ShutdownWrite,
        end matches MuxStep::Done(Ok(mux)) && mux@ == (MuxView {
            receive_addr: receiver_in(dir@),
            tempdir: Some(dir@),
            buf: Seq::new(8192, |i: int| 0u8),
        }),
{
    lemma_names(dir@);
    if let MuxStep::Done(Ok(mux)) = end {
        assert(mux@.buf =~= Seq::new(8192, |i: int| 0u8));
    }
}

/// A setup in a directory goes on while its calls succeed, and hands on the error of the first that
/// fails, even where the address is taken.
pub proof fn directory_mux_is_never_tried_again<E>(
    dir: Vec<u8>,
    s0: MuxSetup,
    first: Result<(), Fault<E>>,
    r0: MuxStep<E>,
    s1: MuxSetup,
    second: Result<(), Fault<E>>,
    r1: MuxStep<E>,
)
    requires
        call_ensures(Mux::new_with_tempdir, (dir,), s0),
        call_ensures(MuxSetup::step::<E>, (s0, first), r0),
        call_ensures(MuxSetup::step::<E>, (s0, Ok(())), MuxStep::Pending(s1)),
        call_ensures(MuxSetup::step::<E>, (s1, second), r1),
    ensures
        match first {
            Ok(_) => r0 is Pending,
            Err(fault) => r0 == MuxStep::<E>::Done(Err(MuxError::Os(fault))),
        },
        match second {
            Ok(_) => r1 is Pending,
            Err(fault) => r1 == MuxStep::<E>::Done(Err(MuxError::Os(fault))),
        },
{
}

/// Every way to ask for a mux in a directory is the same setup, and an error of creating the
/// directory is handed on.
pub proof fn directory_setups_agree<E>(
    tempdir: Result<Vec<u8>, E>,
    s: MuxSetup,
    r0: Result<MuxSetup, E>,
    r1: Result<MuxSetup, E>,
    r2: Result<MuxSetup, E>,
    r3: Result<MuxSetup, E>,
)
    requires
        tempdir matches Ok(dir) ==> call_ensures(Mux::new_with_tempdir, (dir,), s),
        call_ensures(Mux::new::<E>, (tempdir,), r0),
        call_ensures(Mux::new_in::<E>, (tempdir,), r1),
        call_ensures(AsyncMux::new::<E>, (tempdir,), r2),
        call_ensures(AsyncMux::new_in::<E>, (tempdir,), r3),
    ensures
        match tempdir {
            Ok(_) => {
                &&& r0 matches Ok(setup) && setup@ == s@
                &&& r1 matches Ok(setup) && setup@ == s@
                &&& r2 matches Ok(setup) && setup@ == s@
                &&& r3 matches Ok(setup) && setup@ == s@
            },
            Err(error) => {
                &&& r0 == Err::<MuxSetup, E>(error)
                &&& r1 == Err::<MuxSetup, E>(error)
                &&& r2 == Err::<MuxSetup, E>(error)
                &&& r3 == Err::<MuxSetup, E>(error)
            },
        },
{
}

/// An abstract mux, from start to end, where no call but the last fails. It receives under the name
/// of its id and has no directory.
pub proof fn abstract_mux_from_start_to_end<'a, E>(
    id: u128,
    left: u32,
    s0: MuxSetup,
    a0: Action<'a>,
    s1: MuxSetup,
    a1: Action<'a>,
    s2: MuxSetup,
    a2: Action<'a>,
    last: Result<(), Fault<E>>,
    end: MuxStep<E>,
)
    requires
        call_ensures(MuxSetup::with_id, (id, left), s0),
        call_ensures(MuxSetup::action, (&s0,), a0),
        call_ensures(MuxSetup::step::<E>, (s0, Ok(())), MuxStep::Pending(s1)),
        call_ensures(MuxSetup::action, (&s1,), a1),
        call_ensures(MuxSetup::step::<E>, (s1, Ok(())), MuxStep::Pending(s2)),
        call_ensures(MuxSetup::action, (&s2,), a2),
        call_ensures(MuxSetup::step::<E>, (s2, last), end),
    ensures
        s0@.left == left,
        a0 matches Action::MakeAddress(addr) && holds(*addr, abstract_receiver(id)),
        a1 matches Action::Bind(addr) && holds(*addr, abstract_receiver(id)),
        a2 is ShutdownWrite,
        end matches MuxStep::Done(Ok(mux)) && mux@ == (MuxView {
            receive_addr: abstract_receiver(id),
            tempdir: None,
            buf: Seq::new(8192, |i: int| 0u8),
        }),
{
    lemma_names(Seq::empty());
    if let MuxStep::Done(Ok(mux)) = end {
        assert(mux@.buf =~= Seq::new(8192, |i: int| 0u8));
    }
}

/// No setup of a receive end asks to connect its socket or to shut down the reading side, and the
/// only addresses it asks for are those of the receive end in the making.
pub proof fn receive_end_stays_readable<'a>(s: MuxSetup, a: Action<'a>)
    requires
        call_ensures(MuxSetup::action, (&s,), a),
    ensures
        match a {
            Action::MakeAddress(addr) => addr@ == s@.receive_addr,
            Action::Bind(addr) => addr@ == s@.receive_addr,
            Action::ShutdownWrite => true,
            Action::Connect(_) => false,
            Action::ShutdownRead => false,
        },
{
}

/// What any setup of a receive end does with the outcome of the call it has asked for. An error is
/// final and handed on, except that a taken abstract name is replaced and the shutdown may fail.
pub proof fn mux_step_follows_the_call<'a, E>(
    s: MuxSetup,
    a: Action<'a>,
    outcome: Result<(), Fault<E>>,
    r: MuxStep<E>,
)
    requires
        call_ensures(MuxSetup::action, (&s,), a),
        call_ensures(MuxSetup::step::<E>, (s, outcome), r),
    ensures
        a is ShutdownWrite ==> (r matches MuxStep::Done(Ok(mux)) && mux@.receive_addr
            == s@.receive_addr && mux@.tempdir == s@.tempdir && mux@.buf.len() == 8192),
        !(a is ShutdownWrite) && outcome is Ok ==> (r matches MuxStep::Pending(next)
            && next@.receive_addr == s@.receive_addr && next@.tempdir == s@.tempdir && next@.left
            == s@.left),
        a is MakeAddress ==> (outcome matches Err(fault) ==> r == MuxStep::<E>::Done(
            Err(MuxError::Os(fault)),
        )),
        a is Bind ==> (outcome matches Err(fault) ==> if s@.tempdir is Some || fault.kind
            != ErrorKind::AddrInUse {
            r == MuxStep::<E>::Done(Err(MuxError::Os(fault)))
        } else if s@.left == 0 {
            r == MuxStep::<E>::Done(Err(MuxError::NoUniqueName))
        } else {
            r matches MuxStep::Pending(next) && next@.left == s@.left - 1 && next@.tempdir is None
                && exists|id: u128| next@.receive_addr == #[trigger] abstract_receiver(id)
        }),
{
    lemma_names(Seq::empty());
    if let MuxStep::Pending(next) = r {
        if outcome is Err {
            let id = choose|id: u128|
                next@ == #[trigger] crate::setup::abstract_attempt(id, (s@.left - 1) as u32);
            assert(next@.receive_addr == abstract_receiver(id));
        }
    }
}

/// `progress` tells of an outcome what `step` does with it.
pub proof fn mux_progress_and_step_agree<E>(
    s: MuxSetup,
    outcome: Result<(), Fault<E>>,
    p: MuxProgress<E>,
    r: MuxStep<E>,
)
    requires
        call_ensures(MuxSetup::progress::<E>, (s, outcome), p),
        call_ensures(MuxSetup::step::<E>, (s, outcome), r),
    ensures
        match p {
            MuxProgress::Pending(x) => r matches MuxStep::Pending(y) && y@ == x@,
            MuxProgress::Collision(left) => left > 0 && (r matches MuxStep::Pending(y) && y@.left
                == left - 1),
            MuxProgress::Done(Ok(x)) => r matches MuxStep::Done(Ok(y)) && y@ == x@,
            MuxProgress::Done(Err(x)) => r matches MuxStep::Done(Err(y)) && y == x,
        },
{
}

/// An abstract mux whose names are all taken tries exactly 32768 of them.
pub proof fn abstract_mux_tries_all_names<E>(
    tries: Seq<MuxSetup>,
    binds: Seq<MuxSetup>,
    faults: Seq<Fault<E>>,
    r: MuxStep<E>,
)
    requires
        tries.len() > 0,
        binds.len() == tries.len(),
        faults.len() == tries.len(),
        call_ensures(Mux::new_abstract, (), tries[0]) || call_ensures(
            AsyncMux::new_abstract,
            (),
            tries[0],
        ),
        forall|i: int|
            0 <= i < tries.len() ==> #[trigger] call_ensures(
                MuxSetup::step::<E>,
                (tries[i], Ok(())),
                MuxStep::Pending(binds[i]),
            ),
        forall|i: int| 0 <= i < tries.len() ==> (#[trigger] faults[i]).kind == ErrorKind::AddrInUse,
        forall|i: int|
            0 <= i < tries.len() - 1 ==> #[trigger] call_ensures(
                MuxSetup::step::<E>,
                (binds[i], Err(faults[i])),
                MuxStep::Pending(tries[i + 1]),
            ),
        call_ensures(MuxSetup::step::<E>, (binds.last(), Err(faults.last())), r),
    ensures
        tries.len() <= 32768,
        tries.len() < 32768 ==> r is Pending,
        tries.len() == 32768 ==> r == MuxStep::<E>::Done(Err(MuxError::NoUniqueName)),
{
    let last = tries.len() - 1;
    lemma_mux_tries(tries, binds, faults, last);
    assert(call_ensures(MuxSetup::step::<E>, (tries[last], Ok(())), MuxStep::Pending(binds[last])));
    assert(faults[last].kind == ErrorKind::AddrInUse);
}

proof fn lemma_mux_tries<E>(
    tries: Seq<MuxSetup>,
    binds: Seq<MuxSetup>,
    faults: Seq<Fault<E>>,
    k: int,
)
    requires
        0 <= k < tries.len(),
        binds.len() == tries.len(),
        faults.len() == tries.len(),
        call_ensures(Mux::new_abstract, (), tries[0]) || call_ensures(
            AsyncMux::new_abstract,
            (),
            tries[0],
        ),
        forall|i: int|
            0 <= i < tries.len() ==> #[trigger] call_ensures(
                MuxSetup::step::<E>,
                (tries[i], Ok(())),
                MuxStep::Pending(binds[i]),
            ),
        forall|i: int| 0 <= i < tries.len() ==> (#[trigger] faults[i]).kind == ErrorKind::AddrInUse,
        forall|i: int|
            0 <= i < tries.len() - 1 ==> #[trigger] call_ensures(
                MuxSetup::step::<E>,
                (binds[i], Err(faults[i])),
                MuxStep::Pending(tries[i + 1]),
            ),
    ensures
        k < 32768,
        tries[k]@.left == 32767 - k,
        tries[k]@.tempdir is None,
        tries[k]@.stage == crate::setup::MuxStage::MakeAddress,
    decreases k,
{
    if k > 0 {
        lemma_mux_tries(tries, binds, faults, k - 1);
        let i = k - 1;
        assert(call_ensures(MuxSetup::step::<E>, (tries[i], Ok(())), MuxStep::Pending(binds[i])));
        assert(faults[i].kind == ErrorKind::AddrInUse);
        assert(call_ensures(
            MuxSetup::step::<E>,
            (binds[i], Err(faults[i])),
            MuxStep::Pending(tries[i + 1]),
        ));
    }
}

/// An abstract setup starts with the name of some id.
pub proof fn abstract_mux_starts_with_a_name<'a>(s: MuxSetup, a: Action<'a>)
    requires
        call_ensures(Mux::new_abstract, (), s) || call_ensures(AsyncMux::new_abstract, (), s),
        call_ensures(MuxSetup::action, (&s,), a),
    ensures
        a matches Action::MakeAddress(addr) && exists|id: u128|
            holds(*addr, #[trigger] abstract_receiver(id)),
{
    lemma_names(Seq::empty());
    let id = choose|id: u128| s@ == #[trigger] crate::setup::abstract_attempt(id, 32767);
    assert(s@.receive_addr == abstract_receiver(id));
    if let Action::MakeAddress(addr) = a {
        lemma_holds(*addr);
    }
}

/// A sender, from start to end, where no call fails, whatever state its mux is in. Its setup asks for
/// the address of its id, binds that very address, connects it to the receive end of the mux, and
/// shuts down the reading side. The tag is that of the address which all its writes come from, and
/// each write is sent in one piece to the receive end.
pub proof fn sender_from_start_to_end<'mux, 'a, E>(
    mux: &'mux Mux,
    id: u128,
    left: u32,
    t0: SenderSetup<'mux>,
    b0: Action<'a>,
    t1: SenderSetup<'mux>,
    b1: Action<'a>,
    t2: SenderSetup<'mux>,
    b2: Action<'a>,
    t3: SenderSetup<'mux>,
    b3: Action<'a>,
    end: SenderStep<'mux, E>,
    tag: Tag,
    sender: MuxSender,
    data: &'a [u8],
    d: Datagram<'a>,
)
    requires
        call_ensures(SenderSetup::with_id, (mux, id, left), t0),
        call_ensures(SenderSetup::action, (&t0,), b0),
        call_ensures(SenderSetup::step::<E>, (t0, Ok(())), SenderStep::Pending(t1)),
        call_ensures(SenderSetup::action, (&t1,), b1),
        call_ensures(SenderSetup::step::<E>, (t1, Ok(())), SenderStep::Pending(t2)),
        call_ensures(SenderSetup::action, (&t2,), b2),
        call_ensures(SenderSetup::step::<E>, (t2, Ok(())), SenderStep::Pending(t3)),
        call_ensures(SenderSetup::action, (&t3,), b3),
        call_ensures(SenderSetup::step::<E>, (t3, Ok(())), end),
        end == SenderStep::<'mux, E>::Done(Ok((tag, sender))) ==> call_ensures(
            MuxSender::write,
            (&sender, data),
            d,
        ),
    ensures
        t0@.left == left,
        t0@.mux == mux@,
        b0 matches Action::MakeAddress(addr) && holds(*addr, sender_of(mux@.tempdir, id)),
        b1 matches Action::Bind(addr) && holds(*addr, sender_of(mux@.tempdir, id)),
        b2 matches Action::Connect(addr) && holds(*addr, mux@.receive_addr),
        b3 is ShutdownRead,
        end matches SenderStep::Done(Ok((t, _))) && t@ == sender_of(mux@.tempdir, id),
        end == SenderStep::<'mux, E>::Done(Ok((tag, sender))) ==> {
            &&& tag@ == sender_of(mux@.tempdir, id)
            &&& d.data@ == data@
            &&& holds(*d.from, sender_of(mux@.tempdir, id))
            &&& holds(*d.to, mux@.receive_addr)
        },
{
    lemma_sender_of(mux@.tempdir, id);
}

/// What any setup of a sender does with the outcome of the call it has asked for. Success leads on
/// to the next call for the same mux and address, and in the end to the sender of that address. A
/// taken name is replaced while there are attempts left. Every other error is final and handed on.
pub proof fn sender_step_follows_the_call<'mux, 'a, E>(
    t: SenderSetup<'mux>,
    b: Action<'a>,
    outcome: Result<(), Fault<E>>,
    r: SenderStep<'mux, E>,
)
    requires
        call_ensures(SenderSetup::action, (&t,), b),
        call_ensures(SenderSetup::step::<E>, (t, outcome), r),
    ensures
        match b {
            Action::MakeAddress(addr) => addr@ == t@.addr,
            Action::Bind(addr) => addr@ == t@.addr,
            Action::Connect(addr) => addr@ == t@.mux.receive_addr,
            Action::ShutdownRead => true,
            Action::ShutdownWrite => false,
        },
        outcome is Ok && b is ShutdownRead ==> (r matches SenderStep::Done(Ok((tag, sender)))
            && tag@ == t@.addr && sender@.addr == t@.addr && sender@.peer == t@.mux.receive_addr),
        outcome is Ok && !(b is ShutdownRead) ==> (r matches SenderStep::Pending(next)
            && next@.addr == t@.addr && next@.mux == t@.mux && next@.left == t@.left),
        outcome matches Err(fault) ==> if !(b is Bind) || fault.kind != ErrorKind::AddrInUse {
            r == SenderStep::<'mux, E>::Done(Err(MuxError::Os(fault)))
        } else if t@.left == 0 {
            r == SenderStep::<'mux, E>::Done(Err(MuxError::NoUniqueName))
        } else {
            r matches SenderStep::Pending(next) && next@.left == t@.left - 1 && next@.mux == t@.mux
                && exists|id: u128| next@.addr == #[trigger] sender_of(t@.mux.tempdir, id)
        },
{
    if let SenderStep::Pending(next) = r {
        if outcome is Err {
            let id = choose|id: u128|
                next@ == #[trigger] crate::sender::sender_attempt(
                    t@.mux,
                    id,
                    (t@.left - 1) as u32,
                );
            lemma_sender_of(t@.mux.tempdir, id);
            assert(next@.addr == sender_of(t@.mux.tempdir, id));
        }
    }
}

/// `progress` tells of an outcome what `step` does with it.
pub proof fn sender_progress_and_step_agree<'mux, E>(
    t: SenderSetup<'mux>,
    outcome: Result<(), Fault<E>>,
    p: SenderProgress<'mux, E>,
    r: SenderStep<'mux, E>,
)
    requires
        call_ensures(SenderSetup::progress::<E>, (t, outcome), p),
        call_ensures(SenderSetup::step::<E>, (t, outcome), r),
    ensures
        match p {
            SenderProgress::Pending(x) => r matches SenderStep::Pending(y) && y@ == x@,
            SenderProgress::Collision(left) => left > 0 && (r matches SenderStep::Pending(y)
                && y@.left == left - 1),
            SenderProgress::Done(Ok((tag, sender))) => r matches SenderStep::Done(Ok((x, y))) && x@
                == tag@ && y@ == sender@,
            SenderProgress::Done(Err(x)) => r matches SenderStep::Done(Err(y)) && y == x,
        },
{
}

/// Making a sender starts with the name of some id, for the mux that was asked.
pub proof fn sender_starts_with_a_name<'mux, 'a>(
    mux: &'mux Mux,
    other: &'mux AsyncMux,
    t: SenderSetup<'mux>,
    b: Action<'a>,
    u: SenderSetup<'mux>,
    c: Action<'a>,
)
    requires
        call_ensures(Mux::make_sender, (mux,), t),
        call_ensures(SenderSetup::action, (&t,), b),
        call_ensures(AsyncMux::make_sender, (other,), u),
        call_ensures(SenderSetup::action, (&u,), c),
    ensures
        t@.mux == mux@,
        t@.left == 32767,
        b matches Action::MakeAddress(addr) && exists|id: u128|
            holds(*addr, #[trigger] sender_of(mux@.tempdir, id)),
        u@.mux == other@,
        u@.left == 32767,
        c matches Action::MakeAddress(addr) && exists|id: u128|
            holds(*addr, #[trigger] sender_of(other@.tempdir, id)),
{
    let id = choose|id: u128| t@ == #[trigger] crate::sender::sender_attempt(mux@, id, 32767);
    lemma_sender_of(mux@.tempdir, id);
    assert(t@.addr == sender_of(mux@.tempdir, id));
    if let Action::MakeAddress(addr) = b {
        lemma_holds(*addr);
    }
    let id = choose|id: u128| u@ == #[trigger] crate::sender::sender_attempt(other@, id, 32767);
    lemma_sender_of(other@.tempdir, id);
    assert(u@.addr == sender_of(other@.tempdir, id));
    if let Action::MakeAddress(addr) = c {
        lemma_holds(*addr);
    }
}

/// A sender whose names are all taken tries exactly 32768 of them.
pub proof fn sender_tries_all_names<'mux, E>(
    mux: &'mux Mux,
    tries: Seq<SenderSetup<'mux>>,
    binds: Seq<SenderSetup<'mux>>,
    faults: Seq<Fault<E>>,
    r: SenderStep<'mux, E>,
)
    requires
        tries.len() > 0,
        binds.len() == tries.len(),
        faults.len() == tries.len(),
        call_ensures(Mux::make_sender, (mux,), tries[0]),
        forall|i: int|
            0 <= i < tries.len() ==> #[trigger] call_ensures(
                SenderSetup::step::<E>,
                (tries[i], Ok(())),
                SenderStep::Pending(binds[i]),
            ),
        forall|i: int| 0 <= i < tries.len() ==> (#[trigger] faults[i]).kind == ErrorKind::AddrInUse,
        forall|i: int|
            0 <= i < tries.len() - 1 ==> #[trigger] call_ensures(
                SenderSetup::step::<E>,
                (binds[i], Err(faults[i])),
                SenderStep::Pending(tries[i + 1]),
            ),
        call_ensures(SenderSetup::step::<E>, (binds.last(), Err(faults.last())), r),
    ensures
        tries.len() <= 32768,
        tries.len() < 32768 ==> r is Pending,
        tries.len() == 32768 ==> r == SenderStep::<'mux, E>::Done(Err(MuxError::NoUniqueName)),
{
    let last = tries.len() - 1;
    lemma_sender_tries(mux, tries, binds, faults, last);
    assert(call_ensures(
        SenderSetup::step::<E>,
        (tries[last], Ok(())),
        SenderStep::Pending(binds[last]),
    ));
    assert(faults[last].kind == ErrorKind::AddrInUse);
}

proof fn lemma_sender_tries<'mux, E>(
    mux: &'mux Mux,
    tries: Seq<SenderSetup<'mux>>,
    binds: Seq<SenderSetup<'mux>>,
    faults: Seq<Fault<E>>,
    k: int,
)
    requires
        0 <= k < tries.len(),
        binds.len() == tries.len(),
        faults.len() == tries.len(),
        call_ensures(Mux::make_sender, (mux,), tries[0]),
        forall|i: int|
            0 <= i < tries.len() ==> #[trigger] call_ensures(
                SenderSetup::step::<E>,
                (tries[i], Ok(())),
                SenderStep::Pending(binds[i]),
            ),
        forall|i: int| 0 <= i < tries.len() ==> (#[trigger] faults[i]).kind == ErrorKind::AddrInUse,
        forall|i: int|
            0 <= i < tries.len() - 1 ==> #[trigger] call_ensures(
                SenderSetup::step::<E>,
                (binds[i], Err(faults[i])),
                SenderStep::Pending(tries[i + 1]),
            ),
    ensures
        k < 32768,
        tries[k]@.left == 32767 - k,
        tries[k]@.stage == crate::sender::SenderStage::MakeAddress,
    decreases k,
{
    if k > 0 {
        lemma_sender_tries(mux, tries, binds, faults, k - 1);
        let i = k - 1;
        assert(call_ensures(
            SenderSetup::step::<E>,
            (tries[i], Ok(())),
            SenderStep::Pending(binds[i]),
        ));
        assert(faults[i].kind == ErrorKind::AddrInUse);
        assert(call_ensures(
            SenderSetup::step::<E>,
            (binds[i], Err(faults[i])),
            SenderStep::Pending(tries[i + 1]),
        ));
    }
}

/// Data sent via a sender arrives with the tag that was made with it: where a sender comes with a
/// tag, one of its writes is what a mux has in its buffer, and its address is the one that the
/// packet came from, reading returns the data that was written, with an equal tag.
pub proof fn data_arrives_with_the_tag_of_its_sender<'mux, 'a, 'b, E, F>(
    t: SenderSetup<'mux>,
    tag: Tag,
    sender: MuxSender,
    data: &'a [u8],
    d: Datagram<'a>,
    mux: &'b mut Mux,
    received: Received,
    read: Result<TaggedData<'b>, F>,
    got: TaggedData<'b>,
    same: bool,
)
    requires
        call_ensures(SenderSetup::step::<E>, (t, Ok(())), SenderStep::Done(Ok((tag, sender)))),
        call_ensures(MuxSender::write, (&sender, data), d),
        received.from@ == d.from@,
        received.len == d.data@.len(),
        received.len <= old(mux)@.buf.len(),
        old(mux)@.buf.take(received.len as int) == d.data@,
        call_ensures(Mux::read::<F>, (mux, Ok(received)), read),
        read == Ok::<TaggedData<'b>, F>(got) ==> call_ensures(
            <Tag as PartialEq>::eq,
            (&got.tag, &tag),
            same,
        ),
    ensures
        read is Ok,
        read == Ok::<TaggedData<'b>, F>(got) ==> got.data@ == data@ && same,
        d.to@ == t@.mux.receive_addr,
{
}

/// A flush always succeeds and changes nothing.
pub proof fn flush_always_succeeds<'a, E>(sender: &'a mut MuxSender, r: Result<(), E>)
    requires
        call_ensures(MuxSender::flush::<E>, (sender,), r),
    ensures
        r is Ok,
        final(sender)@ == old(sender)@,
{
}

/// The kind of a setup's error is that of the call that failed; running out of names counts as an
/// address in use and is the only error with a message of its own.
pub proof fn errors_tell_their_kind<E>(
    error: MuxError<E>,
    kind: ErrorKind,
    message: Option<&'static str>,
)
    requires
        call_ensures(MuxError::<E>::kind, (&error,), kind),
        call_ensures(MuxError::<E>::message, (&error,), message),
    ensures
        match error {
            MuxError::Os(fault) => kind == fault.kind && message is None,
            MuxError::NoUniqueName => kind == ErrorKind::AddrInUse && (message matches Some(text)
                && text@ == "couldn't create unique socket name"@),
        },
{
}

/// The functions that make setups and take outcomes can be called on anything.
pub proof fn setups_take_every_outcome<'mux, E>(
    mux: &'mux Mux,
    dir: Vec<u8>,
    tempdir: Result<Vec<u8>, E>,
    id: u128,
    left: u32,
    s: MuxSetup,
    t: SenderSetup<'mux>,
    outcome: Result<(), Fault<E>>,
)
    ensures
        call_requires(Mux::new_abstract, ()),
        call_requires(Mux::new::<E>, (tempdir,)),
        call_requires(Mux::new_in::<E>, (tempdir,)),
        call_requires(Mux::new_with_tempdir, (dir,)),
        call_requires(Mux::make_sender, (mux,)),
        call_requires(MuxSetup::with_id, (id, left)),
        call_requires(MuxSetup::action, (&s,)),
        call_requires(MuxSetup::step::<E>, (s, outcome)),
        call_requires(MuxSetup::progress::<E>, (s, outcome)),
        call_requires(SenderSetup::with_id, (mux, id, left)),
        call_requires(SenderSetup::action, (&t,)),
        call_requires(SenderSetup::step::<E>, (t, outcome)),
        call_requires(SenderSetup::progress::<E>, (t, outcome)),
{
}

/// `same` tells whether two addresses are abstract with equal names, or the same path, or both unnamed,
/// and a clone holds the same bytes.
pub proof fn addresses_are_compared_by_kind_and_bytes(x: Address, y: Address, r: bool, c: Address)
    requires
        call_ensures(Address::same, (&x, &y), r),
        call_ensures(<Address as Clone>::clone, (&x,), c),
    ensures
        match (x, y) {
            (Address::Abstract(a), Address::Abstract(b)) => r == (a@ == b@),
            (Address::Pathname(a), Address::Pathname(b)) => r == (crate::path::components(a@)
                == crate::path::components(b@)),
            (Address::Unnamed, Address::Unnamed) => r,
            _ => !r,
        },
        match x {
            Address::Abstract(a) => c matches Address::Abstract(b) && b@ == a@,
            Address::Pathname(a) => c matches Address::Pathname(b) && b@ == a@,
            Address::Unnamed => c is Unnamed,
        },
{
}

/// Byte strings are equal exactly when they have the same length and no byte differs, and a copy is
/// equal.
pub proof fn byte_strings_are_compared_byte_by_byte(
    a: &[u8],
    b: &[u8],
    r: bool,
    v: Vec<u8>,
    c: Vec<u8>,
)
    requires
        call_ensures(bytes_eq, (a, b), r),
        call_ensures(bytes_clone, (&v,), c),
    ensures
        r == (a@.len() == b@.len() && forall|i: int| 0 <= i < a@.len() ==> a@[i] == b@[i]),
        c@ == v@,
{
    if a@.len() == b@.len() && (forall|i: int| 0 <= i < a@.len() ==> a@[i] == b@[i]) {
        assert(a@ =~= b@);
    }
}

/// A numeral is appended behind what is there. It consists of lower-case digits that stand for the
/// number, without a leading zero.
pub proof fn numeral_is_appended<'a>(out: &'a mut Vec<u8>, n: u128)
    requires
        call_ensures(push_hex, (out, n), ()),
    ensures
        final(out)@.len() > old(out)@.len(),
        final(out)@.take(old(out)@.len() as int) == old(out)@,
        ({
            let numeral = final(out)@.skip(old(out)@.len() as int);
            &&& value(numeral) == n
            &&& numeral.len() > 1 ==> numeral[0] != '0' as u8
            &&& forall|i: int|
                0 <= i < numeral.len() ==> '0' as u8 <= #[trigger] numeral[i] <= '9' as u8
                    || 'a' as u8 <= numeral[i] <= 'f' as u8
        }),
{
    hex_stands_for_number(n as nat);
    hex_has_digits(n as nat);
    assert(final(out)@.take(old(out)@.len() as int) =~= old(out)@);
    assert(final(out)@.skip(old(out)@.len() as int) =~= hex(n as nat));
}

/// The addresses that are made for sockets hold the names that belong to them.
pub proof fn made_addresses_hold_their_names(
    dir: &[u8],
    id: u128,
    a: Address,
    b: Address,
    c: Address,
    d: Address,
)
    requires
        call_ensures(make_abstract_receive_addr, (id,), a),
        call_ensures(make_directory_receive_addr, (dir,), b),
        call_ensures(make_abstract_sender_addr, (id,), c),
        call_ensures(make_directory_sender_addr, (dir, id), d),
    ensures
        holds(a, abstract_receiver(id)),
        holds(b, receiver_in(dir@)),
        holds(c, sender_of(None, id)),
        holds(d, sender_of(Some(dir@), id)),
{
    lemma_names(dir@);
    lemma_sender_of(None, id);
    lemma_sender_of(Some(dir@), id);
}

/// The sockets of a mux with a directory are entries of that directory: the names along their paths
/// are those of the directory and one more, `r` for the receive end and the numeral of its id for a
/// sender.
pub proof fn sockets_are_entries_of_the_directory(dir: Seq<u8>, id: u128)
    ensures
        names(path_in(dir, ascii("r"@))) == names(dir).push(ascii("r"@)),
        names(path_in(dir, hex(id as nat))) == names(dir).push(hex(id as nat)),
        !same_address(receiver_in(dir), sender_of(Some(dir), id)),
{
    lemma_names(dir);
    lemma_sender_of(Some(dir), id);
    sockets_lie_in_the_directory(dir, id);
    sender_is_not_receiver(dir, id, id);
}

/// A setup of a receive end that is run step by step, each call answered by `system` and each new id
/// drawn from `ids`, comes to what `mux_end` says of it.
pub proof fn mux_setup_comes_to_its_end<'a, E>(
    s: MuxSetup,
    a: Action<'a>,
    r: MuxStep<E>,
    system: System<E>,
    ids: Ids,
)
    requires
        call_ensures(MuxSetup::action, (&s,), a),
        call_ensures(MuxSetup::step::<E>, (s, system(s@.left, a@)), r),
    ensures
        match r {
            MuxStep::Done(Ok(mux)) => mux_end(s@, system, ids) == Ok::<MuxView, MuxError<E>>(mux@),
            MuxStep::Done(Err(error)) => mux_end(s@, system, ids) == Err::<MuxView, MuxError<E>>(
                error,
            ),
            MuxStep::Pending(next) => if next@.left == s@.left {
                mux_end(s@, system, ids) == mux_end(next@, system, ids)
            } else {
                next@.left == s@.left - 1 && (next@.receive_addr == abstract_receiver(
                    ids(next@.left),
                ) ==> mux_end(s@, system, ids) == mux_end(next@, system, ids))
            },
        },
{
    reveal_with_fuel(mux_end, 2);
    lemma_names(Seq::empty());
    if let MuxStep::Pending(next) = r {
        if next@.left != s@.left && next@.receive_addr == abstract_receiver(ids(next@.left)) {
            assert(next@ =~= crate::setup::abstract_attempt(ids(next@.left), next@.left));
        }
    }
}

/// A setup of a sender that is run step by step, each call answered by `system` and each new id drawn
/// from `ids`, comes to what `sender_end` says of it. Where it ends with a sender, that is a sender of
/// its mux under its tag, whatever the mux has in its buffer.
pub proof fn sender_setup_comes_to_its_end<'mux, 'a, E>(
    t: SenderSetup<'mux>,
    b: Action<'a>,
    r: SenderStep<'mux, E>,
    system: System<E>,
    ids: Ids,
)
    requires
        call_ensures(SenderSetup::action, (&t,), b),
        call_ensures(SenderSetup::step::<E>, (t, system(t@.left, b@)), r),
    ensures
        match r {
            SenderStep::Done(Ok((tag, sender))) => {
                &&& sender_end(t@, system, ids) == Ok::<
                    (AddressView, MuxSenderView),
                    MuxError<E>,
                >((tag@, sender@))
                &&& is_sender_of(t@.mux, tag@, sender@)
                &&& sender@.addr == tag@
                &&& sender@.peer == t@.mux.receive_addr
            },
            SenderStep::Done(Err(error)) => sender_end(t@, system, ids) == Err::<
                (AddressView, MuxSenderView),
                MuxError<E>,
            >(error),
            SenderStep::Pending(next) => if next@.left == t@.left {
                sender_end(t@, system, ids) == sender_end(next@, system, ids)
            } else {
                next@.left == t@.left - 1 && (next@.addr == sender_of(
                    t@.mux.tempdir,
                    ids(next@.left),
                ) ==> sender_end(t@, system, ids) == sender_end(next@, system, ids))
            },
        },
{
    reveal_with_fuel(sender_end, 2);
    if let SenderStep::Pending(next) = r {
        lemma_sender_of(t@.mux.tempdir, ids(next@.left));
        if next@.left != t@.left && next@.addr == sender_of(t@.mux.tempdir, ids(next@.left)) {
            assert(next@ =~= crate::sender::sender_attempt(
                t@.mux,
                ids(next@.left),
                next@.left,
            ));
        }
    }
}

} // verus!
