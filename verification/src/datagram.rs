//! What counts as an IP datagram on this link.
//!
//! The link has no framing of its own: a run of bytes is a datagram exactly
//! when the `packet` crate parses it. The checks that crate makes are written
//! down here as predicates on bytes so that the rest of the library can reason
//! about them.

use vstd::prelude::*;

verus! {

/// Length of an IPv4 header without options, and the shortest buffer the
/// IPv4 parser accepts.
pub const IPV4_HEADER_MIN: usize = 20;

/// The version nibble of the first byte.
pub open spec fn version_nibble(bytes: Seq<u8>) -> u8
    recommends
        bytes.len() > 0,
{
    bytes[0] >> 4
}

/// The header length field of an IPv4 header, in bytes.
pub open spec fn header_length(bytes: Seq<u8>) -> int
    recommends
        bytes.len() > 0,
{
    4 * ((bytes[0] & 0x0f) as int)
}

/// The total-length field of an IPv4 header (big endian, bytes 2 and 3).
pub open spec fn declared_length(bytes: Seq<u8>) -> int
    recommends
        bytes.len() >= 4,
{
    256 * (bytes[2] as int) + bytes[3] as int
}

/// The bytes parse as an IPv4 datagram: at least a minimal header, version 4,
/// and a buffer that is no shorter than the header length and the total length
/// that the header declares.
pub open spec fn is_ipv4_datagram(bytes: Seq<u8>) -> bool {
    &&& bytes.len() >= IPV4_HEADER_MIN
    &&& version_nibble(bytes) == 4
    &&& bytes.len() >= header_length(bytes)
    &&& bytes.len() >= declared_length(bytes)
}

/// The bytes parse as an IP datagram of either version. For version 6 the
/// parser looks at the version nibble only.
pub open spec fn is_ip_datagram(bytes: Seq<u8>) -> bool {
    &&& bytes.len() > 0
    &&& if version_nibble(bytes) == 4 {
        is_ipv4_datagram(bytes)
    } else {
        version_nibble(bytes) == 6
    }
}

/// The destination address of an IPv4 header (bytes 16 to 19).
pub open spec fn destination_of(bytes: Seq<u8>) -> Seq<u8>
    recommends
        bytes.len() >= IPV4_HEADER_MIN,
{
    bytes.subrange(16, 20)
}

/// Calls `packet::ip::Packet::new` and reports whether it accepted the bytes.
///
/// Trusted: the outcome is `is_ip_datagram`. The parser dispatches on the
/// version nibble, runs the IPv4 checks for 4, accepts anything for 6 and
/// refuses every other value. It indexes the first byte unconditionally, so
/// an empty buffer is excluded.
#[verifier::external_body]
pub(crate) fn parses_as_ip(bytes: &[u8]) -> (ok: bool)
    requires
        bytes@.len() > 0,
    ensures
        ok == is_ip_datagram(bytes@),
{
    packet::ip::Packet::new(bytes).is_ok()
}

/// Calls `packet::ip::v4::Packet::new` and, where it accepts the bytes,
/// `destination` on the parsed packet.
///
/// Trusted: the parser accepts exactly the buffers of `is_ipv4_datagram`
/// (it checks the length before it reads anything), and the destination is
/// read from bytes 16 to 19.
#[verifier::external_body]
pub(crate) fn ipv4_destination(bytes: &[u8]) -> (dest: Option<[u8; 4]>)
    ensures
        dest is Some <==> is_ipv4_datagram(bytes@),
        dest matches Some(octets) ==> octets@ == destination_of(bytes@),
{
    match packet::ip::v4::Packet::new(bytes) {
        Ok(parsed) => Some(parsed.destination().octets()),
        Err(_) => None,
    }
}

/// Whether the bytes are an IP datagram of either version.
pub fn is_datagram(bytes: &[u8]) -> (ok: bool)
    ensures
        ok == is_ip_datagram(bytes@),
{
    bytes.len() > 0 && parses_as_ip(bytes)
}

/// The last octet of the destination address, for bytes that are an IPv4
/// datagram; `None` for anything else.
pub fn destination_octet(bytes: &[u8]) -> (octet: Option<u8>)
    ensures
        octet is Some <==> is_ipv4_datagram(bytes@),
        octet matches Some(o) ==> o == bytes@[19],
{
    match ipv4_destination(bytes) {
        Some(octets) => Some(octets[3]),
        None => None,
    }
}

} // verus!
