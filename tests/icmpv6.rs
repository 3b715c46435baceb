use jnet::icmpv6::{decode, Message};
use jnet::ieee802154;

fn ns(options: &[u8]) -> Vec<u8> {
    let mut m = vec![135, 0, 0, 0, 0, 0, 0, 0];
    m.extend(1..=16u8);
    m.extend_from_slice(options);
    m
}

#[test]
fn decode_solicitation_with_extended_source() {
    let m = ns(&[1, 2, 0x00, 0x12, 0x4b, 0x00, 0x12, 0x34, 0x56, 0x78, 0, 0, 0, 0, 0, 0]);
    match decode(&m) {
        Some(Message::NeighborSolicitation { target, source_ll }) => {
            assert_eq!(target.0.to_vec(), (1..=16u8).collect::<Vec<u8>>());
            assert_eq!(source_ll, Some(ieee802154::Addr::Extended(0x0012_4b00_1234_5678)));
        }
        _ => panic!("expected a Neighbor Solicitation"),
    }
}

#[test]
fn decode_solicitation_skips_other_options() {
    // a nonce option (type 14) before a short Source Link-Layer Address
    let m = ns(&[14, 1, 9, 9, 9, 9, 9, 9, 1, 1, 0xab, 0xcd, 0, 0, 0, 0]);
    match decode(&m) {
        Some(Message::NeighborSolicitation { source_ll, .. }) => {
            assert_eq!(source_ll, Some(ieee802154::Addr::Short(0xabcd)));
        }
        _ => panic!("expected a Neighbor Solicitation"),
    }
    match decode(&ns(&[])) {
        Some(Message::NeighborSolicitation { source_ll, .. }) => assert_eq!(source_ll, None),
        _ => panic!("expected a Neighbor Solicitation"),
    }
}

#[test]
fn decode_rejects_malformed() {
    // zero-length option
    assert!(decode(&ns(&[1, 0, 0, 0, 0, 0, 0, 0])).is_none());
    // option overruns the message
    assert!(decode(&ns(&[1, 2, 0, 0, 0, 0, 0, 0])).is_none());
    // solicitation too short for its target
    assert!(decode(&[135, 0, 0, 0, 0, 0, 0, 0, 1]).is_none());
    // echo request without identifier and sequence number
    assert!(decode(&[128, 0, 0, 0, 0, 1]).is_none());
    assert!(decode(&[128, 0, 0]).is_none());
}

#[test]
fn decode_echo_request_and_others() {
    match decode(&[128, 0, 0x12, 0x34, 0, 7, 0, 42, 1, 2, 3]) {
        Some(Message::EchoRequest { identifier, sequence_number, payload }) => {
            assert_eq!(identifier, 7);
            assert_eq!(sequence_number, 42);
            assert_eq!(payload, vec![1, 2, 3]);
        }
        _ => panic!("expected an Echo Request"),
    }
    assert!(matches!(decode(&[136, 0, 0, 0]), Some(Message::Other { type_code: 136 })));
}
