use jnet::ieee802154;
use jnet::ipv6::Addr;
use jnet::node::{EchoReply, NeighborAdvertisement, ReplyHeader};

const OUR_EXT: u64 = 0x0012_4b00_1234_5678;

fn header() -> ReplyHeader {
    ReplyHeader {
        pan_id: 0xbeef,
        src_ll: ieee802154::Addr::Extended(OUR_EXT),
        dest_ll: ieee802154::Addr::Short(0x0001),
        source: Addr::link_local(ieee802154::Addr::Extended(OUR_EXT)),
        destination: Addr::link_local(ieee802154::Addr::Short(0x0001)),
    }
}

fn prefix() -> Vec<u8> {
    let h = header();
    let mut v = vec![0x41, 0xc8, 0, 0xef, 0xbe, 0x01, 0x00, 0x78, 0x56, 0x34, 0x12, 0x00, 0x4b, 0x12, 0x00];
    v.extend_from_slice(&[0x7b, 0x00, 58]);
    v.extend_from_slice(&h.source.0);
    v.extend_from_slice(&h.destination.0);
    v
}

#[test]
fn echo_reply_frame_bytes() {
    let er = EchoReply { header: header(), identifier: 7, sequence_number: 42, payload: vec![1, 2, 3] };
    let mut expected = prefix();
    expected.extend_from_slice(&[129, 0, 0xc8, 0xc5, 0, 7, 0, 42, 1, 2, 3]);
    assert_eq!(er.to_bytes(), expected);
}

#[test]
fn neighbor_advertisement_frame_bytes() {
    let h = header();
    let na = NeighborAdvertisement {
        header: h,
        router: false,
        solicited: true,
        override_: true,
        target: h.source,
        target_ll: Some(OUR_EXT),
    };
    let mut expected = prefix();
    expected.extend_from_slice(&[136, 0, 0xfb, 0xda, 0x60, 0, 0, 0]);
    expected.extend_from_slice(&h.source.0);
    expected.extend_from_slice(&[2, 2, 0x00, 0x12, 0x4b, 0x00, 0x12, 0x34, 0x56, 0x78, 0, 0, 0, 0, 0, 0]);
    assert_eq!(na.to_bytes(), expected);
}

#[test]
fn neighbor_advertisement_without_option() {
    let h = header();
    let na = NeighborAdvertisement {
        header: h,
        router: true,
        solicited: false,
        override_: false,
        target: h.source,
        target_ll: None,
    };
    let bytes = na.to_bytes();
    let icmp = &bytes[prefix().len()..];
    assert_eq!(icmp.len(), 24);
    assert_eq!(icmp[0], 136);
    assert_eq!(icmp[4], 0x80);
    assert!(jnet::icmpv6::verify_checksum(icmp, &h.source, &h.destination));
}
