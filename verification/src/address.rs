//! Network addresses.
//!
//! An address is a multi-protocol network address. The directory never looks
//! inside one: it stores, copies and hands out addresses as whole values.

use vstd::prelude::*;
use multiaddr::Multiaddr;
use std::str::FromStr;

verus! {

/// Declares `multiaddr::Multiaddr` as a type whose values are carried
/// through without being inspected.
#[verifier::external_type_specification]
#[verifier::external_body]
pub struct ExMultiaddr(Multiaddr);

/// Declares `multiaddr::Error`, the reason why a text or a byte string is no
/// address, as a type whose values are carried through.
#[verifier::external_type_specification]
#[verifier::external_body]
pub struct ExMultiaddrError(multiaddr::Error);

/// The bytes that an address holds: its binary encoding.
pub uninterp spec fn address_bytes(address: Multiaddr) -> Seq<u8>;

/// The binary encoding of the address that a text denotes, or `None` where
/// the text is no address, as `multiaddr` reads it.
pub uninterp spec fn parsed_address(text: Seq<char>) -> Option<Seq<u8>>;

/// Reads an address from its text form.
///
/// Calls `Multiaddr::from_str`, which splits the text at `/`, reads one
/// protocol after the other and writes each to the address's bytes; it fails
/// on a text that does not start with `/` and on any part that is no
/// protocol. Whether it succeeds, and the bytes of the address, depend on
/// the text alone.
#[verifier::external_body]
pub(crate) fn parse_multiaddr(text: &str) -> (parsed: Result<Multiaddr, multiaddr::Error>)
    ensures
        parsed is Ok <==> parsed_address(text@) is Some,
        parsed is Ok ==> Some(address_bytes(parsed->Ok_0)) == parsed_address(text@),
{
    Multiaddr::from_str(text)
}

/// Copies one address.
///
/// Calls `Multiaddr::clone`, which `multiaddr` derives: the copy holds the
/// same bytes as the address it was made from and is the same address.
#[verifier::external_body]
pub(crate) fn clone_address(address: &Multiaddr) -> (copy: Multiaddr)
    ensures
        copy == *address,
{
    address.clone()
}

/// Copies a list of addresses, keeping their order.
pub fn clone_addresses(addresses: &Vec<Multiaddr>) -> (copy: Vec<Multiaddr>)
    ensures
        copy@ == addresses@,
{
    let mut copy: Vec<Multiaddr> = Vec::new();
    let mut i: usize = 0;
    while i < addresses.len()
        invariant
            0 <= i <= addresses.len(),
            copy@ == addresses@.subrange(0, i as int),
        decreases addresses.len() - i,
    {
        copy.push(clone_address(&addresses[i]));
        assert(copy@ == addresses@.subrange(0, i + 1));
        i += 1;
    }
    assert(addresses@.subrange(0, addresses.len() as int) == addresses@);
    copy
}

} // verus!
