//! Tags, which tell the senders of a mux apart, and data that carries one.

use vstd::prelude::*;

use crate::address::same_address;
use crate::address::Address;
use crate::address::AddressView;
use crate::bytes::bytes_eq;

verus! {

/// A unique tag associated with a sender.
#[derive(Debug)]
pub struct Tag(Address);

impl View for Tag {
    type V = AddressView;

    /// The address of the sender that the tag stands for.
    closed spec fn view(&self) -> AddressView {
        self.0@
    }
}

impl Tag {
    /// The tag of the sender with the address `addr`.
    pub(crate) fn new(addr: Address) -> (r: Tag)
        ensures
            r@ == addr@,
    {
        Tag(addr)
    }
}

impl Clone for Tag {
    fn clone(&self) -> (r: Self)
        ensures
            r@ == self@,
    {
        Tag(self.0.clone())
    }
}

impl PartialEq for Tag {
    fn eq(&self, rhs: &Tag) -> (r: bool) {
        self.0.same(&rhs.0)
    }
}

impl vstd::std_specs::cmp::PartialEqSpecImpl for Tag {
    open spec fn obeys_eq_spec() -> bool {
        true
    }

    open spec fn eq_spec(&self, rhs: &Tag) -> bool {
        same_address(self@, rhs@)
    }
}

impl Eq for Tag {

}

/// Data received through a mux, along with the tag.
#[derive(Debug)]
pub struct TaggedData<'a> {
    /// Data received, borrowed from the mux.
    pub data: &'a [u8],
    /// Tag for the sender of this data.
    pub tag: Tag,
}

/// The value of a [`TaggedData`]: the bytes, and the address of their sender.
#[verifier::ext_equal]
pub struct Packet {
    pub data: Seq<u8>,
    pub from: AddressView,
}

impl<'a> View for TaggedData<'a> {
    type V = Packet;

    open spec fn view(&self) -> Packet {
        Packet { data: self.data@, from: self.tag@ }
    }
}

/// Whether two packets hold the same bytes from the same socket.
pub open spec fn same_packet(a: Packet, b: Packet) -> bool {
    a.data == b.data && same_address(a.from, b.from)
}

impl<'a> PartialEq for TaggedData<'a> {
    fn eq(&self, rhs: &TaggedData<'a>) -> (r: bool) {
        bytes_eq(self.data, rhs.data) && self.tag.eq(&rhs.tag)
    }
}

impl<'a> vstd::std_specs::cmp::PartialEqSpecImpl for TaggedData<'a> {
    open spec fn obeys_eq_spec() -> bool {
        true
    }

    open spec fn eq_spec(&self, rhs: &TaggedData<'a>) -> bool {
        same_packet(self@, rhs@)
    }
}

impl<'a> Eq for TaggedData<'a> {

}

/// Equality of tagged data is an equivalence, as `Eq` promises.
pub proof fn same_packet_is_equivalence(a: Packet, b: Packet, c: Packet)
    ensures
        same_packet(a, a),
        same_packet(a, b) == same_packet(b, a),
        same_packet(a, b) && same_packet(b, c) ==> same_packet(a, c),
{
}

} // verus!
