//! Addresses of UNIX datagram sockets.

use vstd::prelude::*;

use crate::bytes::bytes_clone;
use crate::bytes::bytes_eq;
use crate::path::components;
use crate::path::path_eq;

verus! {

/// The address of a UNIX socket.
#[derive(Debug)]
pub enum Address {
    /// A name in the abstract namespace.
    Abstract(Vec<u8>),
    /// A path in the file system.
    Pathname(Vec<u8>),
    /// No name at all.
    Unnamed,
}

/// The value of an [`Address`].
#[verifier::ext_equal]
pub enum AddressView {
    Abstract(Seq<u8>),
    Pathname(Seq<u8>),
    Unnamed,
}

impl View for Address {
    type V = AddressView;

    open spec fn view(&self) -> AddressView {
        match self {
            Address::Abstract(name) => AddressView::Abstract(name@),
            Address::Pathname(path) => AddressView::Pathname(path@),
            Address::Unnamed => AddressView::Unnamed,
        }
    }
}

/// Whether two addresses belong to the same socket: abstract names are compared byte by byte,
/// paths component by component, and addresses of different kinds never match.
pub open spec fn same_address(a: AddressView, b: AddressView) -> bool {
    match (a, b) {
        (AddressView::Abstract(x), AddressView::Abstract(y)) => x == y,
        (AddressView::Pathname(x), AddressView::Pathname(y)) => components(x) == components(y),
        (AddressView::Unnamed, AddressView::Unnamed) => true,
        _ => false,
    }
}

impl Address {
    /// Whether two addresses belong to the same socket.
    pub fn same(&self, other: &Address) -> (r: bool)
        ensures
            r == same_address(self@, other@),
    {
        match (self, other) {
            (Address::Abstract(x), Address::Abstract(y)) => bytes_eq(x.as_slice(), y.as_slice()),
            (Address::Pathname(x), Address::Pathname(y)) => path_eq(x.as_slice(), y.as_slice()),
            (Address::Unnamed, Address::Unnamed) => true,
            _ => false,
        }
    }
}

impl Clone for Address {
    fn clone(&self) -> (r: Self)
        ensures
            r@ == self@,
    {
        match self {
            Address::Abstract(name) => Address::Abstract(bytes_clone(name)),
            Address::Pathname(path) => Address::Pathname(bytes_clone(path)),
            Address::Unnamed => Address::Unnamed,
        }
    }
}

/// Abstract addresses match exactly when their names are equal, paths exactly when they are the same
/// path, unnamed addresses always, and addresses of different kinds never.
pub proof fn same_address_means(x: Seq<u8>, y: Seq<u8>)
    ensures
        same_address(AddressView::Abstract(x), AddressView::Abstract(y)) <==> x == y,
        same_address(AddressView::Pathname(x), AddressView::Pathname(y)) <==> components(x)
            == components(y),
        same_address(AddressView::Unnamed, AddressView::Unnamed),
        !same_address(AddressView::Abstract(x), AddressView::Pathname(y)),
        !same_address(AddressView::Pathname(x), AddressView::Abstract(y)),
        !same_address(AddressView::Abstract(x), AddressView::Unnamed),
        !same_address(AddressView::Unnamed, AddressView::Abstract(x)),
        !same_address(AddressView::Pathname(x), AddressView::Unnamed),
        !same_address(AddressView::Unnamed, AddressView::Pathname(x)),
{
}

/// The value of an address is its kind and all of its bytes.
pub proof fn address_is_its_bytes(bytes: Vec<u8>)
    ensures
        Address::Abstract(bytes)@ == AddressView::Abstract(bytes@),
        Address::Pathname(bytes)@ == AddressView::Pathname(bytes@),
        Address::Unnamed@ == AddressView::Unnamed,
{
}

/// Belonging to the same socket is an equivalence of addresses.
pub proof fn same_address_is_equivalence(a: AddressView, b: AddressView, c: AddressView)
    ensures
        same_address(a, a),
        same_address(a, b) == same_address(b, a),
        same_address(a, b) && same_address(b, c) ==> same_address(a, c),
{
}

} // verus!
