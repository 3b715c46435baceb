use jnet::cache::{CacheFull, NeighborCache, CACHE_SIZE};
use jnet::icmpv6;
use jnet::ieee802154;
use jnet::iphc;
use jnet::ipv6::Addr;
use jnet::ieee802154::{data_header, FrameType, Header};
use jnet::icmpv6::Message;
use jnet::node::{on_new_frame, our_nl_addr, Action, Config, Frame, Iphc, NextHeader};

const CONFIG: Config = Config { pan_id: 0xbeef, extended_address: 0x0012_4b00_1234_5678 };
const PEER_EXT: u64 = 0x0200_0000_0000_0001;

fn peer_ll() -> ieee802154::Addr {
    ieee802154::Addr::Extended(PEER_EXT)
}

fn frame(hop_limit: u8, source: iphc::Addr, next_header: NextHeader) -> Frame {
    let header = data_header(CONFIG.pan_id, peer_ll(), ieee802154::Addr::Extended(CONFIG.extended_address), 1);
    Frame {
        mac: Header::parse(&header).unwrap(),
        ip: Some(Iphc { hop_limit, source, destination: iphc::Addr::Elided, next_header }),
    }
}

/// A Neighbor Solicitation message, with its checksum set between the two
/// addresses
fn ns_bytes(target: Addr, src: Addr, dest: Addr) -> Vec<u8> {
    let mut m = vec![135, 0, 0, 0, 0, 0, 0, 0];
    m.extend_from_slice(&target.0);
    let c = jnet::checksum::compute(&m, 1, &src, &dest, icmpv6::NEXT_HEADER);
    m[2..4].copy_from_slice(&c.to_be_bytes());
    m
}

fn solicitation_from(hop_limit: u8, source: Addr, target: Addr, source_ll: Option<ieee802154::Addr>, good_checksum: bool) -> Frame {
    let mut bytes = ns_bytes(target, source, our_nl_addr(&CONFIG));
    if !good_checksum {
        bytes[3] ^= 1;
    }
    frame(
        hop_limit,
        iphc::Addr::Complete(source),
        NextHeader::Icmpv6 {
            bytes,
            message: Some(Message::NeighborSolicitation { target, source_ll }),
        },
    )
}

fn solicitation(hop_limit: u8, target: Addr) -> Frame {
    solicitation_from(hop_limit, Addr::link_local(peer_ll()), target, Some(peer_ll()), true)
}

fn echo_request(source: iphc::Addr) -> Frame {
    frame(
        64,
        source,
        NextHeader::Icmpv6 {
            bytes: vec![128, 0, 0, 0, 0, 7, 0, 42, 1, 2, 3],
            message: Some(Message::EchoRequest { identifier: 7, sequence_number: 42, payload: vec![1, 2, 3] }),
        },
    )
}

fn global(last: u8) -> Addr {
    let mut a = [0u8; 16];
    a[0] = 0x20;
    a[1] = 0x01;
    a[15] = last;
    Addr(a)
}

#[test]
fn link_local_from_extended_address() {
    let a = Addr::link_local(ieee802154::Addr::Extended(0x0012_4b00_1234_5678));
    assert_eq!(a.0, [0xfe, 0x80, 0, 0, 0, 0, 0, 0, 0x02, 0x12, 0x4b, 0x00, 0x12, 0x34, 0x56, 0x78]);
    assert!(a.is_link_local());
    assert!(!a.is_unspecified());
}

#[test]
fn link_local_from_short_address() {
    let a = Addr::link_local(ieee802154::Addr::Short(0xabcd));
    assert_eq!(a.0, [0xfe, 0x80, 0, 0, 0, 0, 0, 0, 0, 0, 0, 0xff, 0xfe, 0, 0xab, 0xcd]);
}

#[test]
fn address_predicates() {
    assert!(Addr([0; 16]).is_unspecified());
    let mut sn = [0u8; 16];
    sn[0] = 0xff;
    sn[1] = 0x02;
    sn[11] = 0x01;
    sn[12] = 0xff;
    sn[15] = 0x78;
    assert!(Addr(sn).is_solicited_node());
    sn[5] = 1;
    assert!(!Addr(sn).is_solicited_node());
    assert!(!global(1).is_link_local());
}

#[test]
fn cache_full_refuses_new_keys_and_keeps_entries() {
    let mut cache = NeighborCache::new(CACHE_SIZE);
    for i in 0..CACHE_SIZE {
        assert_eq!(cache.insert(global(i as u8), ieee802154::Addr::Short(i as u16)), Ok(()));
    }
    assert_eq!(cache.len(), CACHE_SIZE);
    assert_eq!(cache.insert(global(200), ieee802154::Addr::Short(200)), Err(CacheFull));
    assert_eq!(cache.get(&global(200)), None);
    for i in 0..CACHE_SIZE {
        assert_eq!(cache.get(&global(i as u8)), Some(ieee802154::Addr::Short(i as u16)));
    }
    // an existing key is overwritten even when full
    assert_eq!(cache.insert(global(3), ieee802154::Addr::Short(300)), Ok(()));
    assert_eq!(cache.get(&global(3)), Some(ieee802154::Addr::Short(300)));
    assert_eq!(cache.len(), CACHE_SIZE);
}

#[test]
fn echo_request_without_prior_contact_is_ignored() {
    let mut cache = NeighborCache::new(CACHE_SIZE);
    let f = echo_request(iphc::Addr::Complete(global(9)));
    assert!(matches!(on_new_frame(&f, &CONFIG, &mut cache), Action::Nop));
    assert_eq!(cache.len(), 0);
}

#[test]
fn echo_request_from_known_neighbor_is_answered() {
    let mut cache = NeighborCache::new(CACHE_SIZE);
    cache.insert(global(9), ieee802154::Addr::Short(0x0909)).unwrap();
    let f = echo_request(iphc::Addr::Complete(global(9)));
    match on_new_frame(&f, &CONFIG, &mut cache) {
        Action::EchoReply(er) => {
            assert_eq!(er.header.dest_ll, ieee802154::Addr::Short(0x0909));
            assert_eq!(er.header.src_ll, ieee802154::Addr::Extended(CONFIG.extended_address));
            assert_eq!(er.header.pan_id, 0xbeef);
            assert!(er.header.destination == global(9));
            assert!(er.header.source == our_nl_addr(&CONFIG));
            assert_eq!(er.identifier, 7);
            assert_eq!(er.sequence_number, 42);
            assert_eq!(er.payload, vec![1, 2, 3]);
        }
        _ => panic!("expected an Echo Reply"),
    }
}

#[test]
fn link_local_source_is_learned_before_dispatch() {
    let mut cache = NeighborCache::new(CACHE_SIZE);
    let f = echo_request(iphc::Addr::Elided);
    assert!(matches!(on_new_frame(&f, &CONFIG, &mut cache), Action::EchoReply(_)));
    assert_eq!(cache.get(&Addr::link_local(peer_ll())), Some(peer_ll()));
}

#[test]
fn solicitation_with_wrong_hop_limit_is_ignored() {
    let mut cache = NeighborCache::new(CACHE_SIZE);
    let f = solicitation(254, our_nl_addr(&CONFIG));
    assert!(matches!(on_new_frame(&f, &CONFIG, &mut cache), Action::Nop));
}

#[test]
fn self_targeted_solicitation_is_answered() {
    let mut cache = NeighborCache::new(CACHE_SIZE);
    let ours = our_nl_addr(&CONFIG);
    let f = solicitation(255, ours);
    match on_new_frame(&f, &CONFIG, &mut cache) {
        Action::SolicitedNeighborAdvertisement(na) => {
            assert!(na.target == ours);
            assert!(na.solicited);
            assert!(na.override_);
            assert!(!na.router);
            assert_eq!(na.target_ll, Some(CONFIG.extended_address));
            assert_eq!(na.header.dest_ll, peer_ll());
            assert!(na.header.destination == Addr::link_local(peer_ll()));
            assert!(na.header.source == ours);
        }
        _ => panic!("expected a Neighbor Advertisement"),
    }
}

#[test]
fn solicitation_for_another_target_is_ignored() {
    let mut cache = NeighborCache::new(CACHE_SIZE);
    let f = solicitation(255, global(1));
    assert!(matches!(on_new_frame(&f, &CONFIG, &mut cache), Action::Nop));
}

#[test]
fn solicitation_with_bad_checksum_is_ignored() {
    let mut cache = NeighborCache::new(CACHE_SIZE);
    let f = solicitation_from(255, Addr::link_local(peer_ll()), our_nl_addr(&CONFIG), None, false);
    assert!(matches!(on_new_frame(&f, &CONFIG, &mut cache), Action::Nop));
    let f = solicitation_from(255, Addr::link_local(peer_ll()), our_nl_addr(&CONFIG), None, true);
    assert!(matches!(on_new_frame(&f, &CONFIG, &mut cache), Action::SolicitedNeighborAdvertisement(_)));
}

#[test]
fn duplicate_address_probe_is_ignored() {
    let mut cache = NeighborCache::new(CACHE_SIZE);
    let f = solicitation_from(255, Addr([0; 16]), our_nl_addr(&CONFIG), None, true);
    assert!(matches!(on_new_frame(&f, &CONFIG, &mut cache), Action::Nop));
}

#[test]
fn icmpv6_checksum_reference_value() {
    let src = Addr::link_local(peer_ll());
    let ours = our_nl_addr(&CONFIG);
    let m = ns_bytes(ours, src, ours);
    assert_eq!(&m[2..4], &[0x11, 0xac]);
    assert!(icmpv6::verify_checksum(&m, &src, &ours));
    assert!(!icmpv6::verify_checksum(&m, &ours, &ours));
    assert!(!icmpv6::verify_checksum(&m[..3], &src, &ours));
}

#[test]
fn non_data_or_secured_frames_are_ignored() {
    let mut cache = NeighborCache::new(CACHE_SIZE);
    let mut f = echo_request(iphc::Addr::Elided);
    f.mac.security_enabled = true;
    assert!(matches!(on_new_frame(&f, &CONFIG, &mut cache), Action::Nop));
    f.mac.security_enabled = false;
    f.mac.frame_type = FrameType::Beacon;
    assert!(matches!(on_new_frame(&f, &CONFIG, &mut cache), Action::Nop));
    assert_eq!(cache.len(), 0);
}

#[test]
fn other_next_headers_are_ignored() {
    let mut cache = NeighborCache::new(CACHE_SIZE);
    let f = frame(64, iphc::Addr::Complete(global(2)), NextHeader::Other(17));
    assert!(matches!(on_new_frame(&f, &CONFIG, &mut cache), Action::Nop));
    let f = frame(64, iphc::Addr::Complete(global(2)), NextHeader::Compressed);
    assert!(matches!(on_new_frame(&f, &CONFIG, &mut cache), Action::Nop));
    let f = frame(64, iphc::Addr::Complete(global(2)), NextHeader::Icmpv6 { bytes: vec![136, 0, 0, 0], message: Some(Message::Other { type_code: 136 }) });
    assert!(matches!(on_new_frame(&f, &CONFIG, &mut cache), Action::Nop));
}

#[test]
fn data_header_round_trip() {
    let src = ieee802154::Addr::Extended(0x0102_0304_0506_0708);
    let dest = ieee802154::Addr::Short(0xabcd);
    let bytes = data_header(0xbeef, src, dest, 9);
    assert_eq!(bytes, vec![0x41, 0xc8, 9, 0xef, 0xbe, 0xcd, 0xab, 8, 7, 6, 5, 4, 3, 2, 1]);
    let h = Header::parse(&bytes).unwrap();
    assert_eq!(h.frame_type, FrameType::Data);
    assert!(h.intra_pan && !h.security_enabled && !h.frame_pending && !h.ack_request);
    assert_eq!(h.sequence_number, 9);
    assert_eq!(h.dest_pan, Some(0xbeef));
    assert_eq!(h.dest, Some(dest));
    assert_eq!(h.src_pan, None);
    assert_eq!(h.src, Some(src));
    assert_eq!(h.len, bytes.len());
}

#[test]
fn header_parse_inter_pan_short_addresses() {
    let bytes = [0x01, 0x88, 7, 0x34, 0x12, 0xcd, 0xab, 0x78, 0x56, 0x01, 0x00, 0xaa];
    let h = Header::parse(&bytes).unwrap();
    assert_eq!(h.frame_type, FrameType::Data);
    assert!(!h.intra_pan);
    assert_eq!(h.sequence_number, 7);
    assert_eq!(h.dest_pan, Some(0x1234));
    assert_eq!(h.dest, Some(ieee802154::Addr::Short(0xabcd)));
    assert_eq!(h.src_pan, Some(0x5678));
    assert_eq!(h.src, Some(ieee802154::Addr::Short(1)));
    assert_eq!(h.len, 11);
}

#[test]
fn header_parse_rejects_malformed() {
    // reserved destination addressing mode
    assert!(Header::parse(&[0x41, 0x04, 0, 0, 0, 0, 0]).is_none());
    // ends inside the source address
    assert!(Header::parse(&[0x41, 0x88, 0, 0x34, 0x12, 0xcd, 0xab, 0x01]).is_none());
    assert!(Header::parse(&[0x41, 0x88]).is_none());
    // no addresses at all: an acknowledgement
    let h = Header::parse(&[0x02, 0x00, 5]).unwrap();
    assert_eq!(h.frame_type, FrameType::Acknowledgement);
    assert_eq!(h.dest, None);
    assert_eq!(h.src, None);
    assert_eq!(h.len, 3);
}

#[test]
fn cache_fill_beyond_capacity_in_order() {
    let mut cache = NeighborCache::new(CACHE_SIZE);
    let m = CACHE_SIZE + 3;
    for i in 0..m {
        let r = cache.insert(global(100 + i as u8), ieee802154::Addr::Short(i as u16));
        assert_eq!(r.is_ok(), i < CACHE_SIZE);
    }
    assert_eq!(cache.len(), CACHE_SIZE);
    for i in 0..m {
        let expected = if i < CACHE_SIZE { Some(ieee802154::Addr::Short(i as u16)) } else { None };
        assert_eq!(cache.get(&global(100 + i as u8)), expected);
    }
}
