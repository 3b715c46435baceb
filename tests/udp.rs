use jnet::ipv6::Addr;
use jnet::udp::{Packet, HEADER_SIZE};

const UDP_BYTES: [u8; 22] = [
    0, 0, // udp: source
    5, 57, // udp: destination
    0, 22, // udp: length
    0, 0, // udp: checksum
    72, 101, 108, 108, 111, 44, 32, 119, 111, 114, 108, 100, 33, 10, // udp: payload
];

const UDP_DST: u16 = 1337;

const MESSAGE: &[u8] = b"Hello, world!\n";

fn mapped(v4: [u8; 4]) -> Addr {
    let mut a = [0u8; 16];
    a[10] = 0xff;
    a[11] = 0xff;
    a[12..].copy_from_slice(&v4);
    Addr(a)
}

#[test]
fn construct() {
    // start with arbitrary bytes to make sure every field is set
    let array: Vec<u8> = (0..UDP_BYTES.len()).map(|i| (i as u8).wrapping_mul(37).wrapping_add(11)).collect();

    let mut udp = Packet::new(array).unwrap();
    udp.set_source(0);
    udp.set_destination(UDP_DST);
    assert_eq!(udp.set_payload(MESSAGE), Some(()));

    assert_eq!(udp.as_bytes(), &UDP_BYTES[..]);
}

#[test]
fn new() {
    const SZ: u16 = 128;

    let chunk = vec![0u8; SZ as usize];

    let udp = Packet::new(chunk).unwrap();
    assert_eq!(udp.len(), SZ);
    assert_eq!(udp.get_length(), SZ);
}

#[test]
fn parse() {
    let udp = Packet::parse(UDP_BYTES.to_vec()).unwrap();
    assert_eq!(udp.get_source(), 0);
    assert_eq!(udp.get_destination(), UDP_DST);
    assert_eq!(udp.get_length(), MESSAGE.len() as u16 + u16::from(HEADER_SIZE));
    assert_eq!(udp.payload(), MESSAGE);
}

#[test]
fn new_rejects_short_buffer() {
    assert_eq!(Packet::new(vec![1, 2, 3, 4, 5, 6, 7]).err(), Some(vec![1, 2, 3, 4, 5, 6, 7]));
    assert!(Packet::new(vec![0u8; 8]).is_ok());
}

#[test]
fn new_caps_length_at_u16_max() {
    let udp = Packet::new(vec![1u8; 70000]).unwrap();
    assert_eq!(udp.get_length(), u16::MAX);
    assert_eq!(udp.as_bytes().len(), 65535);
    assert_eq!(udp.get_checksum(), 0);
}

#[test]
fn parse_rejects_short_buffer_unchanged() {
    let bytes = vec![0, 1, 2, 3, 4, 5, 6];
    assert_eq!(Packet::parse(bytes.clone()).err(), Some(bytes));
}

#[test]
fn parse_rejects_length_below_header() {
    let mut bytes = UDP_BYTES.to_vec();
    bytes[5] = 7;
    assert_eq!(Packet::parse(bytes.clone()).err(), Some(bytes));
}

#[test]
fn parse_rejects_length_beyond_buffer() {
    let mut bytes = UDP_BYTES.to_vec();
    bytes[5] = 23;
    assert_eq!(Packet::parse(bytes.clone()).err(), Some(bytes));
}

#[test]
fn parse_accepts_length_within_buffer() {
    let mut bytes = UDP_BYTES.to_vec();
    bytes[5] = 8;
    let udp = Packet::parse(bytes).unwrap();
    assert_eq!(udp.len(), 8);
    assert_eq!(udp.payload(), MESSAGE);
}

#[test]
fn checksum_of_reference_segment() {
    let src = mapped([192, 168, 0, 33]);
    let dest = mapped([192, 168, 0, 1]);
    let mut udp = Packet::parse(UDP_BYTES.to_vec()).unwrap();
    assert!(!udp.verify_ipv6_checksum(src, dest));
    udp.update_ipv6_checksum(src, dest);
    assert_eq!(udp.get_checksum(), 0x37c0);
    assert!(udp.verify_ipv6_checksum(src, dest));
    assert!(!udp.verify_ipv6_checksum(src, mapped([192, 168, 0, 2])));
}

#[test]
fn checksum_pads_odd_final_byte() {
    let src = mapped([192, 168, 0, 33]);
    let dest = mapped([192, 168, 0, 1]);
    let mut udp = Packet::parse(vec![0x12, 0x34, 0, 53, 0, 9, 0xaa, 0xbb, 0x7f]).unwrap();
    udp.update_ipv6_checksum(src, dest);
    assert_eq!(udp.get_checksum(), 60671);
    assert_eq!(udp.as_bytes()[8], 0x7f);
    assert_eq!(udp.as_bytes().len(), 9);
}

#[test]
fn checksum_round_trip_on_arbitrary_bytes() {
    let src = Addr([7; 16]);
    let dest = Addr([0xfe, 0x80, 0, 0, 0, 0, 0, 0, 1, 2, 3, 4, 5, 6, 7, 8]);
    let mut udp = Packet::new((0..200u32).map(|i| (i * 91 % 256) as u8).collect()).unwrap();
    udp.set_source(5683);
    udp.update_ipv6_checksum(src, dest);
    assert!(udp.verify_ipv6_checksum(src, dest));
    udp.zero_checksum();
    assert_eq!(udp.get_checksum(), 0);
}

#[test]
fn truncate_shrinks_only() {
    let mut udp = Packet::new(vec![0u8; 32]).unwrap();
    udp.truncate(30);
    assert_eq!(udp.len(), 32);
    assert_eq!(udp.as_bytes().len(), 32);
    udp.truncate(10);
    assert_eq!(udp.len(), 18);
    assert_eq!(udp.payload().len(), 10);
    udp.truncate(12);
    assert_eq!(udp.len(), 18);
}

#[test]
fn set_payload_too_long_changes_nothing() {
    let mut udp = Packet::new(vec![9u8; 12]).unwrap();
    let before = udp.as_bytes().to_vec();
    assert_eq!(udp.set_payload(&[1, 2, 3, 4, 5]), None);
    assert_eq!(udp.as_bytes(), &before[..]);
    assert_eq!(udp.set_payload(&[1, 2, 3, 4]), Some(()));
    assert_eq!(udp.payload(), &[1, 2, 3, 4]);
    assert_eq!(udp.set_payload(&[]), Some(()));
    assert_eq!(udp.len(), 8);
    assert_eq!(udp.payload(), &[] as &[u8]);
}

#[test]
fn set_payload_longer_than_any_packet_fails() {
    let mut udp = Packet::new(vec![0u8; 70000]).unwrap();
    let before = udp.as_bytes().to_vec();
    assert_eq!(udp.set_payload(&vec![5u8; 70000]), None);
    assert_eq!(udp.as_bytes(), &before[..]);
}
