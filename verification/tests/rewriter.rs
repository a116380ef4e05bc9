use vnt::nat_table::{Endpoint, NatTable};
use vnt::packet::{IpV4Packet, PacketError};
use vnt::tcp_proxy::TcpProxy;

fn hex(s: &str) -> Vec<u8> {
    (0..s.len()).step_by(2).map(|i| u8::from_str_radix(&s[i..i + 2], 16).unwrap()).collect()
}

fn ip(a: u8, b: u8, c: u8, d: u8) -> u32 {
    u32::from_be_bytes([a, b, c, d])
}

/// One's-complement sum of the words of `data`, added to `init` and
/// folded: all ones where a checksum that `data` carries is right.
fn folded_sum(data: &[u8], init: u32) -> u16 {
    let mut sum = init;
    for pair in data.chunks(2) {
        let lo = if pair.len() == 2 { pair[1] as u32 } else { 0 };
        sum += ((pair[0] as u32) << 8) + lo;
    }
    while sum >> 16 != 0 {
        sum = (sum >> 16) + (sum & 0xffff);
    }
    sum as u16
}

fn header_checksum_validates(packet: &[u8]) -> bool {
    let header_len = (packet[0] & 0x0f) as usize * 4;
    folded_sum(&packet[..header_len], 0) == 0xffff
}

fn tcp_checksum_validates(packet: &[u8]) -> bool {
    let header_len = (packet[0] & 0x0f) as usize * 4;
    let segment = &packet[header_len..];
    let mut pseudo = 6 + segment.len() as u32;
    for pair in packet[12..20].chunks(2) {
        pseudo += ((pair[0] as u32) << 8) + pair[1] as u32;
    }
    folded_sum(segment, pseudo) == 0xffff
}

// 10.0.0.1:5000 -> 10.0.0.2:443, SYN, payload "abcd"; checksums not set.
const FROM_CLIENT: &str =
    "4500002c00010000400600000a0000010a000002138801bb0000000000000000500272100000000061626364";
// The same after redirection to 127.0.0.1:40000.
const REDIRECTED: &str =
    "4500002c000100004006f1c90a0000017f00000113889c40000000000000000050027210403d000061626364";
// 127.0.0.1:40000 -> 10.0.0.1:5000, SYN+ACK, payload "wxyz"; checksums not set.
const FROM_RELAY: &str =
    "4500002c00020000400600007f0000010a0000019c401388000000000000000050127210000000007778797a";

#[test]
fn datagram_needs_twenty_bytes() {
    assert!(matches!(IpV4Packet::new(vec![0x45; 19]), Err(PacketError::Ipv4)));
    assert!(IpV4Packet::new(hex(FROM_CLIENT)).is_ok());
}

#[test]
fn datagram_needs_version_four() {
    let mut bytes = hex(FROM_CLIENT);
    bytes[0] = 0x65;
    assert!(matches!(IpV4Packet::new(bytes), Err(PacketError::Ipv4)));
}

#[test]
fn datagram_needs_a_header_that_fits() {
    let mut bytes = hex(FROM_CLIENT);
    bytes[0] = 0x44;
    assert!(matches!(IpV4Packet::new(bytes), Err(PacketError::Ipv4)));
    let mut bytes = hex(FROM_CLIENT);
    bytes[0] = 0x4f;
    assert!(matches!(IpV4Packet::new(bytes), Err(PacketError::Ipv4)));
}

#[test]
fn datagram_cannot_exceed_the_largest_length() {
    let mut bytes = hex(FROM_CLIENT);
    bytes.resize(65535, 0);
    assert!(IpV4Packet::new(bytes.clone()).is_ok());
    bytes.push(0);
    assert!(matches!(IpV4Packet::new(bytes), Err(PacketError::Ipv4)));
}

#[test]
fn fields_are_read_most_significant_byte_first() {
    let packet = IpV4Packet::new(hex(FROM_CLIENT)).unwrap();
    assert_eq!(packet.header_len(), 20);
    assert_eq!(packet.source_ip(), ip(10, 0, 0, 1));
    assert_eq!(packet.destination_ip(), ip(10, 0, 0, 2));
    assert!(packet.has_tcp());
    assert_eq!(packet.tcp_source_port(), 5000);
    assert_eq!(packet.tcp_destination_port(), 443);
}

#[test]
fn header_checksum_of_a_known_header() {
    let mut packet = IpV4Packet::new(hex(FROM_CLIENT)).unwrap();
    packet.update_checksum();
    assert_eq!(&packet.as_bytes()[10..12], &[0x66, 0xc9]);
    assert!(header_checksum_validates(packet.as_bytes()));
    // A stale checksum does not enter the new one.
    packet.update_checksum();
    assert_eq!(&packet.as_bytes()[10..12], &[0x66, 0xc9]);
}

#[test]
fn recv_handle_redirects_and_remembers() {
    let mut proxy = TcpProxy::new(40000);
    let mut packet = IpV4Packet::new(hex(FROM_CLIENT)).unwrap();
    let r = proxy.recv_handle(&mut packet, ip(10, 0, 0, 1), ip(127, 0, 0, 1));
    assert_eq!(r, Ok(false));
    assert_eq!(packet.as_bytes(), &hex(REDIRECTED));
    assert_eq!(packet.destination_ip(), ip(127, 0, 0, 1));
    assert_eq!(packet.tcp_destination_port(), 40000);
    assert_eq!(packet.source_ip(), ip(10, 0, 0, 1));
    assert_eq!(packet.tcp_source_port(), 5000);
    assert!(header_checksum_validates(packet.as_bytes()));
    assert!(tcp_checksum_validates(packet.as_bytes()));
    assert_eq!(
        proxy.lookup(Endpoint { ip: ip(10, 0, 0, 1), port: 5000 }),
        Some(Endpoint { ip: ip(10, 0, 0, 2), port: 443 })
    );
    assert_eq!(proxy.port(), 40000);
}

#[test]
fn recv_handle_with_an_odd_payload() {
    let mut proxy = TcpProxy::new(40000);
    let mut packet = IpV4Packet::new(hex(
        "4500002900010000400600000a0000010a000002138801bb00000000000000005002721000000000ff",
    ))
    .unwrap();
    assert_eq!(proxy.recv_handle(&mut packet, ip(10, 0, 0, 1), ip(127, 0, 0, 1)), Ok(false));
    assert_eq!(
        packet.as_bytes(),
        &hex("45000029000100004006f1cc0a0000017f00000113889c4000000000000000005002721006060000ff")
    );
    assert!(header_checksum_validates(packet.as_bytes()));
    assert!(tcp_checksum_validates(packet.as_bytes()));
}

#[test]
fn recv_handle_refuses_a_short_tcp_header() {
    let mut proxy = TcpProxy::new(40000);
    let mut bytes = hex(FROM_CLIENT);
    bytes.truncate(39);
    let mut packet = IpV4Packet::new(bytes.clone()).unwrap();
    let r = proxy.recv_handle(&mut packet, ip(10, 0, 0, 1), ip(127, 0, 0, 1));
    assert_eq!(r, Err(PacketError::Tcp));
    assert_eq!(packet.as_bytes(), &bytes);
    assert_eq!(proxy.lookup(Endpoint { ip: ip(10, 0, 0, 1), port: 5000 }), None);
}

#[test]
fn recv_handle_overwrites_a_stale_entry() {
    let mut proxy = TcpProxy::new(40000);
    let mut first = IpV4Packet::new(hex(FROM_CLIENT)).unwrap();
    proxy.recv_handle(&mut first, ip(10, 0, 0, 1), ip(127, 0, 0, 1)).unwrap();
    let mut bytes = hex(FROM_CLIENT);
    bytes[19] = 9;
    bytes[22] = 0;
    bytes[23] = 80;
    let mut second = IpV4Packet::new(bytes).unwrap();
    proxy.recv_handle(&mut second, ip(10, 0, 0, 1), ip(127, 0, 0, 1)).unwrap();
    assert_eq!(
        proxy.lookup(Endpoint { ip: ip(10, 0, 0, 1), port: 5000 }),
        Some(Endpoint { ip: ip(10, 0, 0, 9), port: 80 })
    );
}

#[test]
fn send_handle_disguises_an_answer() {
    let mut proxy = TcpProxy::new(40000);
    let mut packet = IpV4Packet::new(hex(FROM_CLIENT)).unwrap();
    proxy.recv_handle(&mut packet, ip(10, 0, 0, 1), ip(127, 0, 0, 1)).unwrap();

    let mut answer = IpV4Packet::new(hex(FROM_RELAY)).unwrap();
    assert_eq!(proxy.send_handle(&mut answer), Ok(()));
    assert_eq!(
        answer.as_bytes(),
        &hex("4500002c00020000400666c80a0000020a00000101bb1388000000000000000050127210238600007778797a")
    );
    assert_eq!(answer.source_ip(), ip(10, 0, 0, 2));
    assert_eq!(answer.tcp_source_port(), 443);
    assert_eq!(answer.destination_ip(), ip(10, 0, 0, 1));
    assert_eq!(answer.tcp_destination_port(), 5000);
    assert!(header_checksum_validates(answer.as_bytes()));
    assert!(tcp_checksum_validates(answer.as_bytes()));
}

#[test]
fn send_handle_leaves_an_unknown_destination_alone() {
    let proxy = TcpProxy::new(40000);
    let bytes = hex(FROM_RELAY);
    let mut answer = IpV4Packet::new(bytes.clone()).unwrap();
    assert_eq!(proxy.send_handle(&mut answer), Ok(()));
    assert_eq!(answer.as_bytes(), &bytes);
}

#[test]
fn send_handle_refuses_a_short_tcp_header() {
    let proxy = TcpProxy::new(40000);
    let mut bytes = hex(FROM_RELAY);
    bytes.truncate(30);
    let mut answer = IpV4Packet::new(bytes.clone()).unwrap();
    assert_eq!(proxy.send_handle(&mut answer), Err(PacketError::Tcp));
    assert_eq!(answer.as_bytes(), &bytes);
}

#[test]
fn send_handle_never_inserts() {
    let proxy = TcpProxy::new(40000);
    let mut answer = IpV4Packet::new(hex(FROM_RELAY)).unwrap();
    proxy.send_handle(&mut answer).unwrap();
    assert_eq!(proxy.lookup(Endpoint { ip: ip(10, 0, 0, 1), port: 5000 }), None);
    assert_eq!(proxy.lookup(Endpoint { ip: ip(127, 0, 0, 1), port: 40000 }), None);
}

#[test]
fn rewriting_works_behind_ip_options() {
    // A header of 24 bytes: one option word follows the addresses.
    let mut bytes = hex("4600003000010000400600000a0000010a00000201010101");
    bytes.extend_from_slice(&hex("138801bb0000000000000000500272100000000061626364"));
    let mut proxy = TcpProxy::new(40000);
    let mut packet = IpV4Packet::new(bytes).unwrap();
    assert_eq!(packet.header_len(), 24);
    assert_eq!(proxy.recv_handle(&mut packet, ip(10, 0, 0, 1), ip(127, 0, 0, 1)), Ok(false));
    assert_eq!(packet.tcp_destination_port(), 40000);
    assert_eq!(&packet.as_bytes()[20..24], &[1, 1, 1, 1]);
    assert!(header_checksum_validates(packet.as_bytes()));
    assert!(tcp_checksum_validates(packet.as_bytes()));
}

#[test]
fn table_keeps_addresses_apart() {
    let mut table = NatTable::new();
    let a = Endpoint { ip: 1, port: 0 };
    let b = Endpoint { ip: 0, port: 1 };
    let c = Endpoint { ip: 0, port: 0 };
    table.insert(a, Endpoint { ip: 10, port: 10 });
    table.insert(b, Endpoint { ip: 20, port: 20 });
    assert_eq!(table.get(a), Some(Endpoint { ip: 10, port: 10 }));
    assert_eq!(table.get(b), Some(Endpoint { ip: 20, port: 20 }));
    assert_eq!(table.get(c), None);
    assert_eq!(table.get(Endpoint { ip: u32::MAX, port: u16::MAX }), None);
    table.insert(a, Endpoint { ip: 30, port: 30 });
    assert_eq!(table.get(a), Some(Endpoint { ip: 30, port: 30 }));
}
