use radio_link::virtual_interface::icmp_reply;
use radio_link::virtual_interface::VirtHost;
use radio_link::virtual_interface::REPLY_ID;
use radio_link::virtual_interface::REPLY_TTL;

fn checksum(bytes: &[u8], skip: usize) -> u16 {
    let mut sum = 0u32;
    let mut at = 0;
    while at + 1 < bytes.len() {
        if at != skip {
            sum += u32::from(bytes[at]) * 256 + u32::from(bytes[at + 1]);
        }
        at += 2;
    }
    while sum > 0xFFFF {
        sum = (sum & 0xFFFF) + (sum >> 16);
    }
    !(sum as u16)
}

fn echo(kind: u8, identifier: u16, sequence: u16, data: &[u8]) -> Vec<u8> {
    let mut icmp = vec![
        kind,
        0,
        0,
        0,
        (identifier >> 8) as u8,
        identifier as u8,
        (sequence >> 8) as u8,
        sequence as u8,
    ];
    icmp.extend_from_slice(data);
    icmp
}

fn ipv4(source: [u8; 4], destination: [u8; 4], payload: &[u8]) -> Vec<u8> {
    let total = 20 + payload.len();
    let mut bytes = vec![
        0x45,
        0,
        (total >> 8) as u8,
        total as u8,
        0x12,
        0x34,
        0,
        0,
        33,
        1,
        0,
        0,
    ];
    bytes.extend_from_slice(&source);
    bytes.extend_from_slice(&destination);
    bytes.extend_from_slice(payload);
    bytes
}

#[test]
fn a_ping_is_answered_to_where_it_came_from() {
    let data = b"abcdefgh12345678";
    let request = ipv4([172, 0, 0, 1], [172, 0, 0, 2], &echo(8, 0x1234, 0x0102, data));
    let reply = icmp_reply(&request).unwrap();
    assert_eq!(reply.len(), 28 + data.len());
    assert_eq!(reply[0], 0x45);
    assert_eq!(usize::from(reply[2]) * 256 + usize::from(reply[3]), reply.len());
    assert_eq!(u16::from(reply[4]) * 256 + u16::from(reply[5]), REPLY_ID);
    assert_eq!(reply[8], REPLY_TTL);
    assert_eq!(reply[9], 1);
    assert_eq!(&reply[12..16], &[172, 0, 0, 2]);
    assert_eq!(&reply[16..20], &[172, 0, 0, 1]);
    assert_eq!(reply[20], 0);
    assert_eq!(reply[21], 0);
    assert_eq!(&reply[24..26], &[0x12, 0x34]);
    assert_eq!(&reply[26..28], &[0x01, 0x02]);
    assert_eq!(&reply[28..], data);
}

#[test]
fn the_reply_carries_valid_checksums() {
    let request = ipv4([10, 1, 2, 3], [10, 3, 2, 1], &echo(8, 7, 9, b"ping"));
    let reply = icmp_reply(&request).unwrap();
    let header = u16::from(reply[10]) * 256 + u16::from(reply[11]);
    assert_eq!(header, checksum(&reply[..20], 10));
    let inner = u16::from(reply[22]) * 256 + u16::from(reply[23]);
    assert_eq!(inner, checksum(&reply[20..], 2));
}

#[test]
fn the_reply_is_the_same_for_the_same_packet() {
    let request = ipv4([10, 1, 2, 3], [10, 3, 2, 1], &echo(8, 7, 9, b"ping"));
    assert_eq!(icmp_reply(&request), icmp_reply(&request));
    assert_ne!(icmp_reply(&request).unwrap(), request);
}

#[test]
fn an_echo_reply_is_answered_like_a_request() {
    let request = ipv4([1, 1, 1, 1], [2, 2, 2, 2], &echo(0, 5, 6, b""));
    let reply = icmp_reply(&request).unwrap();
    assert_eq!(reply.len(), 28);
    assert_eq!(reply[20], 0);
    assert_eq!(&reply[24..28], &[0, 5, 0, 6]);
}

#[test]
fn bytes_behind_the_declared_length_are_not_echoed() {
    let mut request = ipv4([1, 1, 1, 1], [2, 2, 2, 2], &echo(8, 5, 6, b"xy"));
    request.extend_from_slice(b"trailing");
    let reply = icmp_reply(&request).unwrap();
    assert_eq!(&reply[28..], b"xy");
}

#[test]
fn version_six_is_a_general_error() {
    assert_eq!(icmp_reply(&[0x60, 0, 0, 0]), Err("general error".to_string()));
}

#[test]
fn an_unknown_version_is_an_invalid_packet() {
    let mut request = ipv4([1, 1, 1, 1], [2, 2, 2, 2], &echo(8, 5, 6, b"xy"));
    request[0] = 0x55;
    assert_eq!(icmp_reply(&request), Err("the packet is invalid".to_string()));
    assert_eq!(icmp_reply(&[0x00]), Err("the packet is invalid".to_string()));
}

#[test]
fn a_truncated_packet_is_too_small() {
    let request = ipv4([1, 1, 1, 1], [2, 2, 2, 2], &echo(8, 5, 6, b"xy"));
    assert_eq!(icmp_reply(&request[..29]), Err("the buffer is too small".to_string()));
    assert_eq!(icmp_reply(&request[..19]), Err("the buffer is too small".to_string()));
    assert_eq!(icmp_reply(&[0x45]), Err("the buffer is too small".to_string()));
}

#[test]
fn a_payload_too_short_for_icmp_is_a_general_failure() {
    assert_eq!(icmp_reply(&ipv4([1, 1, 1, 1], [2, 2, 2, 2], &[])), Err("general".to_string()));
    assert_eq!(
        icmp_reply(&ipv4([1, 1, 1, 1], [2, 2, 2, 2], &[8, 0, 0])),
        Err("general".to_string())
    );
}

#[test]
fn an_icmp_packet_that_is_no_echo_is_a_general_error() {
    let unreachable = ipv4([1, 1, 1, 1], [2, 2, 2, 2], &echo(3, 5, 6, b"xy"));
    assert_eq!(icmp_reply(&unreachable), Err("general error".to_string()));
    let short = ipv4([1, 1, 1, 1], [2, 2, 2, 2], &[8, 0, 0, 0, 0, 5, 0]);
    assert_eq!(icmp_reply(&short), Err("general error".to_string()));
    let four = ipv4([1, 1, 1, 1], [2, 2, 2, 2], &[8, 0, 0, 0]);
    assert_eq!(icmp_reply(&four), Err("general error".to_string()));
}

#[test]
fn options_in_the_header_are_skipped() {
    let mut request = vec![0x46, 0, 0, 36, 0, 0, 0, 0, 64, 1, 0, 0, 1, 1, 1, 1, 2, 2, 2, 2];
    request.extend_from_slice(&[1, 1, 1, 1]);
    request.extend_from_slice(&echo(8, 0x0A0B, 0x0C0D, b"data"));
    let reply = icmp_reply(&request).unwrap();
    assert_eq!(&reply[24..], &[0x0A, 0x0B, 0x0C, 0x0D, b'd', b'a', b't', b'a']);
}

struct Loopback {
    addr: u8,
    inbox: Vec<u8>,
}

impl VirtHost for Loopback {
    fn get_addr(&self) -> u8 {
        self.addr
    }

    fn set_addr(&mut self, addr: u8) {
        self.addr = addr;
    }

    fn send(&self, _data: &[u8], _dst: u8) {}

    fn rec(&mut self) -> &[u8] {
        &self.inbox
    }
}

#[test]
fn a_host_keeps_the_address_it_was_given() {
    let mut host = Loopback { addr: 1, inbox: vec![1, 2, 3] };
    assert_eq!(host.get_addr(), 1);
    host.set_addr(9);
    assert_eq!(host.get_addr(), 9);
    host.send(&[1], 2);
    assert_eq!(host.rec(), &[1, 2, 3]);
}
