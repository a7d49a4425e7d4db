//! The addresses that a mux gives to its sockets.
//!
//! A mux with a directory keeps its sockets there: the receive end under `r`, each sender under
//! the hexadecimal numeral of its id. A mux without one uses the abstract namespace, with
//! `io-mux-` or `io-mux-send-` before the numeral.

use vstd::prelude::*;

use crate::address::same_address;
use crate::address::Address;
use crate::address::AddressView;
use crate::hex::hex;
use crate::hex::hex_has_digits;
use crate::hex::hex_is_injective;
use crate::hex::hex_len_u128;
use crate::hex::is_digit;
use crate::hex::push_hex;
use crate::path::entries_differ;
use crate::path::entry_is_last_name;
use crate::path::is_entry;
use crate::path::join;
use crate::path::joined;
use crate::path::names;
use crate::path::DOT;
use crate::path::SEPARATOR;

verus! {

/// `io-mux-`
pub open spec fn receive_prefix() -> Seq<u8> {
    seq!['i' as u8, 'o' as u8, '-' as u8, 'm' as u8, 'u' as u8, 'x' as u8, '-' as u8]
}

/// `io-mux-send-`
pub open spec fn send_prefix() -> Seq<u8> {
    seq!['i' as u8, 'o' as u8, '-' as u8, 'm' as u8, 'u' as u8, 'x' as u8, '-' as u8, 's' as u8, 'e' as u8, 'n' as u8, 'd' as u8, '-' as u8]
}

/// The name of the receive end inside its directory: `r`.
pub open spec fn receive_entry() -> Seq<u8> {
    seq!['r' as u8]
}

/// The longest name that an abstract socket address can hold.
pub const MAX_ABSTRACT_NAME: usize = 107;

/// The abstract address of a receive end.
pub open spec fn abstract_receive_addr(id: u128) -> AddressView {
    AddressView::Abstract(receive_prefix() + hex(id as nat))
}

/// The address of a receive end in the directory `dir`.
pub open spec fn directory_receive_addr(dir: Seq<u8>) -> AddressView {
    AddressView::Pathname(joined(dir, receive_entry()))
}

/// The address of the sender `id` of a mux with the directory `tempdir`, if it has one.
pub open spec fn sender_addr(tempdir: Option<Seq<u8>>, id: u128) -> AddressView {
    match tempdir {
        Some(dir) => AddressView::Pathname(joined(dir, hex(id as nat))),
        None => AddressView::Abstract(send_prefix() + hex(id as nat)),
    }
}

/// Makes the abstract address of a receive end.
pub fn make_abstract_receive_addr(id: u128) -> (r: Address)
    ensures
        r@ == abstract_receive_addr(id),
{
    let mut name: Vec<u8> = vec!['i' as u8, 'o' as u8, '-' as u8, 'm' as u8, 'u' as u8, 'x' as u8, '-' as u8];
    assert(name@ =~= receive_prefix());
    push_hex(&mut name, id);
    Address::Abstract(name)
}

/// Makes the address of a receive end in the directory `dir`.
pub fn make_directory_receive_addr(dir: &[u8]) -> (r: Address)
    ensures
        r@ == directory_receive_addr(dir@),
{
    let entry: Vec<u8> = vec!['r' as u8];
    assert(entry@ =~= receive_entry());
    Address::Pathname(join(dir, entry.as_slice()))
}

/// Makes the address of the sender `id` in the directory `dir`.
pub fn make_directory_sender_addr(dir: &[u8], id: u128) -> (r: Address)
    ensures
        r@ == sender_addr(Some(dir@), id),
{
    let mut entry: Vec<u8> = Vec::new();
    push_hex(&mut entry, id);
    assert(entry@ =~= hex(id as nat));
    Address::Pathname(join(dir, entry.as_slice()))
}

/// Makes the abstract address of the sender `id`.
pub fn make_abstract_sender_addr(id: u128) -> (r: Address)
    ensures
        r@ == sender_addr(None, id),
{
    let mut name: Vec<u8> = vec![
        'i' as u8,
        'o' as u8,
        '-' as u8,
        'm' as u8,
        'u' as u8,
        'x' as u8,
        '-' as u8,
        's' as u8,
        'e' as u8,
        'n' as u8,
        'd' as u8,
        '-' as u8,
    ];
    assert(name@ =~= send_prefix());
    push_hex(&mut name, id);
    Address::Abstract(name)
}

proof fn lemma_hex_is_entry(n: nat)
    ensures
        is_entry(hex(n)),
{
    hex_has_digits(n);
    let name = hex(n);
    if name == seq![DOT] {
        assert(!is_digit(name[0]));
    }
    if name.contains(SEPARATOR) {
        let i = choose|i: int| 0 <= i < name.len() && name[i] == SEPARATOR;
        assert(is_digit(name[i]));
    }
}

proof fn lemma_receive_entry()
    ensures
        is_entry(receive_entry()),
{
    assert(receive_entry()[0] == 'r' as u8);
    assert(seq![DOT][0] == DOT);
}

/// Senders of one mux with different ids have addresses of different sockets.
pub proof fn sender_addrs_differ(tempdir: Option<Seq<u8>>, id: u128, other: u128)
    requires
        id != other,
    ensures
        !same_address(sender_addr(tempdir, id), sender_addr(tempdir, other)),
{
    if hex(id as nat) == hex(other as nat) {
        hex_is_injective(id as nat, other as nat);
    }
    match tempdir {
        Some(dir) => {
            lemma_hex_is_entry(id as nat);
            lemma_hex_is_entry(other as nat);
            entries_differ(dir, hex(id as nat), hex(other as nat));
        },
        None => {
            let a = send_prefix() + hex(id as nat);
            let b = send_prefix() + hex(other as nat);
            if a == b {
                assert(a.skip(send_prefix().len() as int) =~= hex(id as nat));
                assert(b.skip(send_prefix().len() as int) =~= hex(other as nat));
            }
        },
    }
}

/// Abstract receive ends with different ids have addresses of different sockets.
pub proof fn receive_addrs_differ(id: u128, other: u128)
    requires
        id != other,
    ensures
        !same_address(abstract_receive_addr(id), abstract_receive_addr(other)),
{
    let a = receive_prefix() + hex(id as nat);
    let b = receive_prefix() + hex(other as nat);
    if a == b {
        assert(a.skip(receive_prefix().len() as int) =~= hex(id as nat));
        assert(b.skip(receive_prefix().len() as int) =~= hex(other as nat));
        hex_is_injective(id as nat, other as nat);
    }
}

/// No sender can have the address of a receive end: not in a directory, and not in the abstract
/// namespace, whatever the ids of the two.
pub proof fn sender_is_not_receiver(dir: Seq<u8>, receiver: u128, sender: u128)
    ensures
        !same_address(directory_receive_addr(dir), sender_addr(Some(dir), sender)),
        !same_address(abstract_receive_addr(receiver), sender_addr(None, sender)),
{
    let entry = hex(sender as nat);
    hex_has_digits(sender as nat);
    lemma_hex_is_entry(sender as nat);
    assert(is_digit(entry[0]));
    assert(receive_entry()[0] == 'r' as u8);
    lemma_receive_entry();
    entries_differ(dir, receive_entry(), entry);
    let a = receive_prefix() + hex(receiver as nat);
    let b = send_prefix() + entry;
    hex_has_digits(receiver as nat);
    assert(is_digit(hex(receiver as nat)[0]));
    assert(a[7] == hex(receiver as nat)[0]);
    assert(b[7] == 's' as u8);
}

/// All sockets of a mux with a directory are entries of that directory.
pub proof fn sockets_lie_in_the_directory(dir: Seq<u8>, sender: u128)
    ensures
        directory_receive_addr(dir) matches AddressView::Pathname(path) && names(path) == names(
            dir,
        ).push(receive_entry()),
        sender_addr(Some(dir), sender) matches AddressView::Pathname(path) && names(path) == names(
            dir,
        ).push(hex(sender as nat)),
{
    lemma_receive_entry();
    entry_is_last_name(dir, receive_entry());
    lemma_hex_is_entry(sender as nat);
    entry_is_last_name(dir, hex(sender as nat));
}

/// The abstract names that a mux makes always fit a socket address.
pub proof fn abstract_names_fit(id: u128)
    ensures
        abstract_receive_addr(id) matches AddressView::Abstract(name) && name.len()
            <= MAX_ABSTRACT_NAME,
        sender_addr(None, id) matches AddressView::Abstract(name) && name.len()
            <= MAX_ABSTRACT_NAME,
{
    hex_len_u128(id);
}

} // verus!
