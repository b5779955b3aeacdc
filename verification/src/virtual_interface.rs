//! A host on a simulated network, and the answer such a host gives to a ping.

use crate::datagram::declared_length;
use crate::datagram::header_length;
use crate::datagram::is_ipv4_datagram;
use crate::datagram::version_nibble;
use vstd::prelude::*;

verus! {

/// Identification field of every reply.
pub const REPLY_ID: u16 = 0x42;

/// Time to live of every reply.
pub const REPLY_TTL: u8 = 64;

/// A host with a one-byte address that can send to and receive from others.
pub trait VirtHost {
    /// The address of this host.
    fn get_addr(&self) -> u8;

    /// Gives this host another address.
    fn set_addr(&mut self, addr: u8);

    /// Sends `data` to the host with address `dst`.
    fn send(&self, data: &[u8], dst: u8);

    /// What this host has received.
    fn rec(&mut self) -> &[u8];
}

/// The payload of an IPv4 datagram: what lies between the end of the header
/// and the declared total length.
pub open spec fn ipv4_payload(bytes: Seq<u8>) -> Seq<u8>
    recommends
        is_ipv4_datagram(bytes),
{
    let header = header_length(bytes);
    let total = declared_length(bytes);
    bytes.subrange(
        header,
        if total > header {
            total
        } else {
            header
        },
    )
}

/// The big-endian 16-bit number at `at`.
pub open spec fn be16(bytes: Seq<u8>, at: int) -> u16
    recommends
        0 <= at,
        at + 1 < bytes.len(),
{
    (256 * (bytes[at] as int) + bytes[at + 1] as int) as u16
}

/// The bytes are an ICMP echo request or reply: an eight-byte header whose
/// type is 8 or 0.
pub open spec fn is_echo(bytes: Seq<u8>) -> bool {
    bytes.len() >= 8 && (bytes[0] == 0 || bytes[0] == 8)
}

/// What the parser says of bytes that it refuses as an IP packet.
pub open spec fn refusal(bytes: Seq<u8>) -> Seq<char>
    recommends
        bytes.len() > 0,
{
    if version_nibble(bytes) == 4 {
        "the buffer is too small"@
    } else {
        "the packet is invalid"@
    }
}

/// The IPv4 packet that carries an ICMP echo reply with the given fields,
/// as the `packet` crate builds it.
pub uninterp spec fn echo_reply_bytes(
    id: u16,
    ttl: u8,
    source: Seq<u8>,
    destination: Seq<u8>,
    identifier: u16,
    sequence: u16,
    data: Seq<u8>,
) -> Seq<u8>;

/// What parsing bytes as an IP packet gave.
enum IpParse {
    V4 { source: [u8; 4], destination: [u8; 4], payload: Vec<u8> },
    V6,
    Refused(String),
}

/// What parsing bytes as an ICMP echo packet gave.
enum EchoParse {
    TooShort,
    NotEcho,
    Echo { identifier: u16, sequence: u16, data: Vec<u8> },
}

/// Calls `packet::ip::Packet::new` and reads source, destination and payload
/// off an IPv4 packet.
///
/// Trusted: version 4 is accepted exactly where `is_ipv4_datagram` holds and
/// otherwise refused as too small; version 6 is always accepted; any other
/// version is refused as invalid. The addresses are bytes 12 to 15 and 16 to
/// 19, the payload is `ipv4_payload`, and the message is the error's own
/// text. The parser indexes the first byte unconditionally, so an empty
/// buffer is excluded.
#[verifier::external_body]
fn parse_ip(bytes: &[u8]) -> (parsed: IpParse)
    requires
        bytes@.len() > 0,
    ensures
        match parsed {
            IpParse::V4 { source, destination, payload } => {
                &&& is_ipv4_datagram(bytes@)
                &&& source@ == bytes@.subrange(12, 16)
                &&& destination@ == bytes@.subrange(16, 20)
                &&& payload@ == ipv4_payload(bytes@)
            },
            IpParse::V6 => version_nibble(bytes@) == 6,
            IpParse::Refused(message) => {
                &&& version_nibble(bytes@) != 6
                &&& !is_ipv4_datagram(bytes@)
                &&& message@ == refusal(bytes@)
            },
        },
{
    match packet::ip::Packet::new(bytes) {
        Ok(packet::ip::Packet::V4(v4)) => IpParse::V4 {
            source: v4.source().octets(),
            destination: v4.destination().octets(),
            payload: packet::Packet::payload(&v4).to_vec(),
        },
        Ok(packet::ip::Packet::V6(_)) => IpParse::V6,
        Err(error) => IpParse::Refused(error.to_string()),
    }
}

/// Calls `packet::icmp::Packet::new`, then `echo` on the parsed packet, and
/// reads identifier, sequence number and payload off the echo packet.
///
/// Trusted: fewer than four bytes are no ICMP packet; an ICMP packet is an
/// echo packet exactly where `is_echo` holds; identifier and sequence number
/// are the big-endian numbers at bytes 4 and 6, and the payload is what
/// follows the eight-byte header.
#[verifier::external_body]
fn parse_echo(bytes: &[u8]) -> (parsed: EchoParse)
    ensures
        match parsed {
            EchoParse::TooShort => bytes@.len() < 4,
            EchoParse::NotEcho => bytes@.len() >= 4 && !is_echo(bytes@),
            EchoParse::Echo { identifier, sequence, data } => {
                &&& is_echo(bytes@)
                &&& identifier == be16(bytes@, 4)
                &&& sequence == be16(bytes@, 6)
                &&& data@ == bytes@.skip(8)
            },
        },
{
    match packet::icmp::Packet::new(bytes) {
        Err(_) => EchoParse::TooShort,
        Ok(icmp) => match icmp.echo() {
            Err(_) => EchoParse::NotEcho,
            Ok(echo) => EchoParse::Echo {
                identifier: echo.identifier(),
                sequence: echo.sequence(),
                data: packet::Packet::payload(&echo).to_vec(),
            },
        },
    }
}

/// Builds an ICMP echo reply in an IPv4 packet with the builders of the
/// `packet` crate, starting from `packet::ip::v4::Builder::default`.
///
/// Trusted: the bytes depend on the arguments alone; they are given the name
/// `echo_reply_bytes`. On a growable buffer no step of the builders fails.
#[verifier::external_body]
fn build_echo_reply(
    id: u16,
    ttl: u8,
    source: [u8; 4],
    destination: [u8; 4],
    identifier: u16,
    sequence: u16,
    data: &[u8],
) -> (reply: Vec<u8>)
    ensures
        reply@ == echo_reply_bytes(id, ttl, source@, destination@, identifier, sequence, data@),
{
    let ip = packet::ip::v4::Builder::default().id(id).unwrap().ttl(ttl).unwrap();
    let ip = ip.source(source.into()).unwrap().destination(destination.into()).unwrap();
    let echo = ip.icmp().unwrap().echo().unwrap().reply().unwrap();
    let echo = echo.identifier(identifier).unwrap().sequence(sequence).unwrap();
    packet::Builder::build(echo.payload(data).unwrap()).unwrap()
}

/// The answer to `pkt`, over plain values.
///
/// Only an echo packet inside an IPv4 packet is answered. The reply goes
/// back to where the packet came from and repeats its identifier, sequence
/// number and payload. Everything else is an error with its message.
pub open spec fn icmp_reply_of(pkt: Seq<u8>) -> Result<Seq<u8>, Seq<char>>
    recommends
        pkt.len() > 0,
{
    if version_nibble(pkt) == 6 {
        Err("general error"@)
    } else if !is_ipv4_datagram(pkt) {
        Err(refusal(pkt))
    } else {
        let inner = ipv4_payload(pkt);
        if inner.len() < 4 {
            Err("general"@)
        } else if !is_echo(inner) {
            Err("general error"@)
        } else {
            Ok(
                echo_reply_bytes(
                    REPLY_ID,
                    REPLY_TTL,
                    pkt.subrange(16, 20),
                    pkt.subrange(12, 16),
                    be16(inner, 4),
                    be16(inner, 6),
                    inner.skip(8),
                ),
            )
        }
    }
}

/// The result of `icmp_reply` over plain values.
pub open spec fn reply_view(reply: Result<Vec<u8>, String>) -> Result<Seq<u8>, Seq<char>> {
    match reply {
        Ok(bytes) => Ok(bytes@),
        Err(message) => Err(message@),
    }
}

/// Answers an ICMP echo packet carried in the IPv4 packet `pkt`.
///
/// The packet must not be empty.
pub fn icmp_reply(pkt: &[u8]) -> (reply: Result<Vec<u8>, String>)
    requires
        pkt@.len() > 0,
    ensures
        reply_view(reply) == icmp_reply_of(pkt@),
{
    match parse_ip(pkt) {
        IpParse::Refused(message) => Err(message),
        IpParse::V6 => Err("general error".to_owned()),
        IpParse::V4 { source, destination, payload } => match parse_echo(payload.as_slice()) {
            EchoParse::TooShort => Err("general".to_owned()),
            EchoParse::NotEcho => Err("general error".to_owned()),
            EchoParse::Echo { identifier, sequence, data } => Ok(
                build_echo_reply(
                    REPLY_ID,
                    REPLY_TTL,
                    destination,
                    source,
                    identifier,
                    sequence,
                    data.as_slice(),
                ),
            ),
        },
    }
}

} // verus!
