//! Reading datagrams of a peer connection.
//!
//! What `str0m` reads a datagram as is told by its first bytes. Not every
//! sequence of bytes can be handed to it: it looks for some attributes of a
//! STUN message past the end of the datagram.
use str0m::net::DatagramRecv;
use vstd::prelude::*;

verus! {

/// The type of the STUN attribute by which a message is authenticated.
pub const MESSAGE_INTEGRITY: u16 = 0x0008;

/// The type of the STUN attribute that tells an error.
pub const ERROR_CODE: u16 = 0x0009;

/// The type of the STUN attribute that names the peer of a relay.
pub const XOR_PEER_ADDRESS: u16 = 0x0012;

/// The type of the STUN attribute that names the address of a relay.
pub const XOR_RELAYED_ADDRESS: u16 = 0x0016;

/// The type of the STUN attribute that names the address a request came from.
pub const XOR_MAPPED_ADDRESS: u16 = 0x0020;

/// The type of the STUN attribute that tells the message from other protocols.
pub const FINGERPRINT: u16 = 0x8028;

/// The number that two bytes make, the first of them being the higher.
pub open spec fn word(high: u8, low: u8) -> int {
    256 * high + low
}

/// `length`, rounded up to a multiple of four.
pub open spec fn padded(length: int) -> int {
    (length + 3) / 4 * 4
}

/// Whether all that is looked for in the first attribute of `rest` is there.
/// Addresses are looked for by their family, 1 for IPv4 and 2 for IPv6.
pub open spec fn attribute_fits(rest: Seq<u8>) -> bool {
    let kind = word(rest[0], rest[1]);
    if kind == FINGERPRINT {
        rest.len() >= 8
    } else if kind == ERROR_CODE {
        rest.len() >= 8 && word(rest[2], rest[3]) >= 4
    } else if kind == XOR_PEER_ADDRESS || kind == XOR_RELAYED_ADDRESS || kind
        == XOR_MAPPED_ADDRESS {
        &&& rest.len() >= 8
        &&& rest[5] == 1 ==> rest.len() >= 12
        &&& rest[5] == 2 ==> rest.len() >= 24
    } else {
        true
    }
}

/// Whether the attributes of a STUN message can be read one after the other, up
/// to one that says it is longer than what is left. Once the message is
/// authenticated only the fingerprint is looked at.
pub open spec fn attributes_fit(rest: Seq<u8>, authenticated: bool) -> bool
    decreases rest.len(),
{
    let kind = word(rest[0], rest[1]);
    let length = word(rest[2], rest[3]);
    if rest.len() == 0 {
        true
    } else if rest.len() < 4 {
        false
    } else if length > rest.len() - 4 {
        true
    } else {
        &&& (authenticated && kind != FINGERPRINT) || attribute_fits(rest)
        &&& 4 + padded(length) <= rest.len()
        &&& attributes_fit(
            rest.skip(4 + padded(length)),
            authenticated || kind == MESSAGE_INTEGRITY,
        )
    }
}

/// Whether bytes are read as a STUN message.
pub open spec fn is_stun(bytes: Seq<u8>) -> bool {
    bytes.len() >= 20 && bytes[0] < 2
}

/// Whether a datagram can be read: it is no STUN message, or one whose
/// attributes are all there.
pub open spec fn is_readable(bytes: Seq<u8>) -> bool {
    is_stun(bytes) ==> attributes_fit(bytes.skip(20), false)
}

/// A datagram that was read.
#[verifier::external_type_specification]
#[verifier::external_body]
pub struct ExDatagramRecv<'a>(DatagramRecv<'a>);

/// What bytes are read as, where they are a datagram of a peer connection.
pub uninterp spec fn datagram_of(bytes: Seq<u8>) -> Option<DatagramRecv<'static>>;

/// `str0m::net::DatagramRecv::try_from`: whether bytes can be read as a
/// datagram, and what they are read as, depends on them alone.
#[verifier::external_body]
fn parse_datagram(bytes: &[u8]) -> (datagram: Option<DatagramRecv<'_>>)
    requires
        is_readable(bytes@),
    ensures
        datagram == datagram_of(bytes@),
{
    bytes.try_into().ok()
}

/// What a datagram is read as, if it is one of a peer connection.
pub open spec fn read_as(bytes: Seq<u8>) -> Option<DatagramRecv<'static>> {
    if is_readable(bytes) {
        datagram_of(bytes)
    } else {
        None
    }
}

fn number(high: u8, low: u8) -> (n: u16)
    ensures
        n == word(high, low),
{
    256 * (high as u16) + low as u16
}

fn has_fitting_attribute(rest: &[u8]) -> (yes: bool)
    requires
        rest@.len() >= 4,
    ensures
        yes == attribute_fits(rest@),
{
    let kind: u16 = number(rest[0], rest[1]);
    let left: usize = rest.len();
    if kind == FINGERPRINT {
        left >= 8
    } else if kind == ERROR_CODE {
        left >= 8 && number(rest[2], rest[3]) >= 4
    } else if kind == XOR_PEER_ADDRESS || kind == XOR_RELAYED_ADDRESS || kind
        == XOR_MAPPED_ADDRESS {
        left >= 8 && (rest[5] != 1 || left >= 12) && (rest[5] != 2 || left >= 24)
    } else {
        true
    }
}

fn has_fitting_attributes(bytes: &[u8]) -> (yes: bool)
    requires
        bytes@.len() >= 20,
    ensures
        yes == attributes_fit(bytes@.skip(20), false),
{
    let mut at: usize = 20;
    let mut authenticated: bool = false;
    while at < bytes.len()
        invariant
            20 <= at <= bytes@.len(),
            attributes_fit(bytes@.skip(20), false) == attributes_fit(
                bytes@.skip(at as int),
                authenticated,
            ),
        decreases bytes@.len() - at,
    {
        let left: usize = bytes.len() - at;
        let rest = &bytes[at..bytes.len()];
        assert(rest@ == bytes@.skip(at as int));
        if left < 4 {
            return false;
        }
        let kind: u16 = number(rest[0], rest[1]);
        let length: usize = number(rest[2], rest[3]) as usize;
        if length > left - 4 {
            return true;
        }
        if !(authenticated && kind != FINGERPRINT) && !has_fitting_attribute(rest) {
            return false;
        }
        let whole: usize = 4 + (length + 3) / 4 * 4;
        if whole > left {
            return false;
        }
        assert(rest@.skip(whole as int) == bytes@.skip(at + whole));
        at = at + whole;
        authenticated = authenticated || kind == MESSAGE_INTEGRITY;
    }
    true
}

/// Reads a datagram, if it is one of a peer connection.
pub fn read_datagram(bytes: &[u8]) -> (datagram: Option<DatagramRecv<'_>>)
    ensures
        datagram == read_as(bytes@),
{
    if bytes.len() >= 20 && bytes[0] < 2 && !has_fitting_attributes(bytes) {
        return None;
    }
    parse_datagram(bytes)
}

/// A datagram that is no STUN message is read as it is, and so is a STUN
/// message without attributes.
pub proof fn lemma_plain_datagrams(bytes: &[u8], datagram: Option<DatagramRecv<'_>>)
    requires
        call_ensures(read_datagram, (bytes,), datagram),
        bytes@.len() <= 20 || bytes@[0] >= 2,
    ensures
        datagram == datagram_of(bytes@),
{
    if bytes@.len() == 20 {
        assert(bytes@.skip(20).len() == 0);
    }
}

/// A STUN message is read if its attributes are all there.
pub proof fn lemma_stun_datagrams(bytes: &[u8], datagram: Option<DatagramRecv<'_>>)
    requires
        call_ensures(read_datagram, (bytes,), datagram),
        bytes@.len() >= 20,
    ensures
        attributes_fit(bytes@.skip(20), false) ==> datagram == datagram_of(bytes@),
        bytes@[0] < 2 && !attributes_fit(bytes@.skip(20), false) ==> datagram is None,
{
}

/// An attribute that is all there, with its type, its length, its value and the
/// bytes that fill it up to a multiple of four, changes nothing about those
/// after it, whatever its type and its value: an error has at least four bytes,
/// a fingerprint too, and an address is as long as its family asks for.
pub proof fn lemma_attribute_is_there(
    attribute: Seq<u8>,
    rest: Seq<u8>,
    kind: int,
    length: int,
    authenticated: bool,
)
    requires
        attribute.len() >= 4,
        kind == 256 * attribute[0] + attribute[1],
        length == 256 * attribute[2] + attribute[3],
        attribute.len() % 4 == 0,
        length + 4 <= attribute.len() < length + 8,
        kind == 0x8028 || kind == 0x0009 ==> length >= 4,
        kind == 0x0012 || kind == 0x0016 || kind == 0x0020 ==> {
            &&& length >= 4
            &&& attribute[5] == 1 ==> length >= 8
            &&& attribute[5] == 2 ==> length >= 20
        },
    ensures
        attributes_fit(attribute + rest, authenticated) <==> attributes_fit(
            rest,
            authenticated || kind == 0x0008,
        ),
        attributes_fit(Seq::<u8>::empty(), authenticated),
{
    let all = attribute + rest;
    assert(all[0] == attribute[0] && all[1] == attribute[1] && all[2] == attribute[2] && all[3]
        == attribute[3]);
    if attribute.len() > 5 {
        assert(all[5] == attribute[5]);
    }
    assert(4 + padded(length) == attribute.len());
    assert(all.skip(attribute.len() as int) == rest);
}

/// Attributes are not all there where fewer than four bytes are left for one,
/// or where one is not filled up to a multiple of four, or where it is a
/// fingerprint, an error or an address with too few bytes left for it.
pub proof fn lemma_attribute_is_missing(rest: Seq<u8>, kind: int, length: int, family: int)
    requires
        rest.len() >= 6 ==> family == rest[5],
        rest.len() >= 4 ==> {
            &&& kind == 256 * rest[0] + rest[1]
            &&& length == 256 * rest[2] + rest[3]
        },
    ensures
        0 < rest.len() < 4 ==> !attributes_fit(rest, false),
        4 <= rest.len() && length + 4 <= rest.len() && rest.len() < (length + 3) / 4 * 4 + 4
            ==> !attributes_fit(rest, false),
        4 <= rest.len() && length + 4 <= rest.len() && (kind == 0x8028 && rest.len() < 8)
            ==> !attributes_fit(rest, false),
        4 <= rest.len() && length + 4 <= rest.len() && kind == 0x0009 && (rest.len() < 8 || length
            < 4) ==> !attributes_fit(rest, false),
        4 <= rest.len() && length + 4 <= rest.len() && (kind == 0x0012 || kind == 0x0016 || kind
            == 0x0020) && (rest.len() < 8 || family == 1 && rest.len() < 12 || family == 2
            && rest.len() < 24) ==> !attributes_fit(rest, false),
{
}

/// Reading ends, without anything missing, at an attribute that says it is
/// longer than what is left.
pub proof fn lemma_attribute_is_cut_off(rest: Seq<u8>, authenticated: bool)
    requires
        rest.len() >= 4,
        256 * rest[2] + rest[3] + 4 > rest.len(),
    ensures
        attributes_fit(rest, authenticated),
{
}

/// Once a message is authenticated, an attribute that is filled up is read over,
/// whatever it holds, unless it is a fingerprint.
pub proof fn lemma_attributes_after_authentication(
    attribute: Seq<u8>,
    rest: Seq<u8>,
    length: int,
)
    requires
        attribute.len() >= 4,
        256 * attribute[0] + attribute[1] != 0x8028,
        length == 256 * attribute[2] + attribute[3],
        attribute.len() % 4 == 0,
        length + 4 <= attribute.len() < length + 8,
    ensures
        attributes_fit(attribute + rest, true) <==> attributes_fit(rest, true),
{
    let all = attribute + rest;
    assert(all[0] == attribute[0] && all[1] == attribute[1] && all[2] == attribute[2] && all[3]
        == attribute[3]);
    assert(4 + padded(length) == attribute.len());
    assert(all.skip(attribute.len() as int) == rest);
}

} // verus!
