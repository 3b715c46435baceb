//! What the node does with one inbound frame: Neighbor Discovery and Echo

use vstd::prelude::*;

use crate::cache::{inserted, NeighborCache};
use crate::icmpv6;
use crate::icmpv6::Message;
use crate::ieee802154;
use crate::ieee802154::FrameType;
use crate::iphc;
use crate::ipv6;
use vstd::slice::slice_subrange;

verus! {

/// Hop limit that on-link-only Neighbor Discovery messages carry
pub const ND_HOP_LIMIT: u8 = 255;

/// Next header of a compressed IPv6 packet
pub enum NextHeader {
    /// Encoded with 6LoWPAN NHC
    Compressed,
    /// ICMPv6: the message's bytes, and the message decoded by type or
    /// `None` where it was malformed
    Icmpv6 { bytes: Vec<u8>, message: Option<Message> },
    /// Another protocol
    Other(u8),
}

/// A compressed IPv6 header and what follows it
pub struct Iphc {
    pub hop_limit: u8,
    pub source: iphc::Addr,
    pub destination: iphc::Addr,
    pub next_header: NextHeader,
}

/// A decoded inbound IEEE 802.15.4 frame
pub struct Frame {
    /// The MAC header
    pub mac: ieee802154::Header,
    /// The payload as a 6LoWPAN IPHC packet, `None` where it is not one
    pub ip: Option<Iphc>,
}

/// This node's identity on the link
#[derive(Clone, Copy, Debug)]
pub struct Config {
    pub pan_id: u16,
    pub extended_address: u64,
}

/// Addressing of an outbound frame and of its IPv6 packet
#[derive(Clone, Copy, Debug)]
pub struct ReplyHeader {
    pub pan_id: u16,
    pub src_ll: ieee802154::Addr,
    pub dest_ll: ieee802154::Addr,
    pub source: ipv6::Addr,
    pub destination: ipv6::Addr,
}

/// A Neighbor Advertisement to send
pub struct NeighborAdvertisement {
    pub header: ReplyHeader,
    pub router: bool,
    pub solicited: bool,
    pub override_: bool,
    pub target: ipv6::Addr,
    /// Target Link-Layer Address option
    pub target_ll: Option<u64>,
}

/// An Echo Reply to send
pub struct EchoReply {
    pub header: ReplyHeader,
    pub identifier: u16,
    pub sequence_number: u16,
    pub payload: Vec<u8>,
}

/// What to transmit in answer to one inbound frame
pub enum Action {
    Nop,
    EchoReply(EchoReply),
    SolicitedNeighborAdvertisement(NeighborAdvertisement),
}

/// The frame is a non-secured intra-PAN data frame with both link-layer
/// addresses and a compressed IPv6 packet
pub open spec fn accepted(f: &Frame) -> bool {
    &&& f.mac.frame_type == FrameType::Data
    &&& !f.mac.security_enabled
    &&& f.mac.intra_pan
    &&& f.mac.src is Some
    &&& f.mac.dest is Some
    &&& f.ip is Some
}

/// Source IPv6 address of an accepted frame
pub open spec fn source_nl(f: &Frame) -> Seq<u8> {
    iphc::completed(f.ip->Some_0.source, f.mac.src->Some_0)
}

/// Destination IPv6 address of an accepted frame
pub open spec fn destination_nl(f: &Frame) -> Seq<u8> {
    iphc::completed(f.ip->Some_0.destination, f.mac.dest->Some_0)
}

/// The node's own IPv6 address: link-local, from its extended address
pub open spec fn our_address(c: Config) -> Seq<u8> {
    ipv6::link_local_bytes(ieee802154::Addr::Extended(c.extended_address))
}

/// The address is `fe80::/10`
pub open spec fn is_link_local_bytes(a: Seq<u8>) -> bool {
    a[0] == 0xfe && (a[1] & 0xc0) == 0x80
}

/// The address is `::`
pub open spec fn is_unspecified_bytes(a: Seq<u8>) -> bool {
    forall|i: int| 0 <= i < 16 ==> #[trigger] a[i] == 0
}

/// The neighbor cache after a frame: a link-local source is learned, unless
/// it is new and the cache is full
pub open spec fn cache_after(
    f: &Frame,
    before: Map<ipv6::Addr, ieee802154::Addr>,
    capacity: nat,
) -> Map<ipv6::Addr, ieee802154::Addr> {
    if accepted(f) && is_link_local_bytes(source_nl(f)) {
        inserted(before, capacity, ipv6::Addr(source_nl_array(f)), f.mac.src->Some_0)
    } else {
        before
    }
}

/// Source IPv6 address of an accepted frame, as stored in the cache
pub open spec fn source_nl_array(f: &Frame) -> [u8; 16] {
    choose|a: [u8; 16]| a@ == source_nl(f)
}

/// The frame is an ICMPv6 message
pub open spec fn icmp_message(f: &Frame) -> Option<Message> {
    match f.ip->Some_0.next_header {
        NextHeader::Icmpv6 { message, .. } => message,
        _ => None,
    }
}

/// The bytes of the frame's ICMPv6 message
pub open spec fn icmp_bytes(f: &Frame) -> Seq<u8> {
    match f.ip->Some_0.next_header {
        NextHeader::Icmpv6 { bytes, .. } => bytes@,
        _ => Seq::empty(),
    }
}

/// The frame is a valid Neighbor Solicitation, from a specified address, for
/// the node's own address: a solicited Neighbor Advertisement is owed
pub open spec fn solicitation_answered(f: &Frame, c: Config) -> bool {
    &&& accepted(f)
    &&& match icmp_message(f) {
        Some(Message::NeighborSolicitation { target, source_ll }) => {
            &&& f.ip->Some_0.hop_limit == ND_HOP_LIMIT
            &&& icmpv6::checksum_ok(icmp_bytes(f), source_nl(f), destination_nl(f))
            &&& !is_unspecified_bytes(source_nl(f))
            &&& target.0@ == our_address(c)
        },
        _ => false,
    }
}

/// The frame is an Echo Request from an address that the cache knows
pub open spec fn echo_answered(f: &Frame, cache: Map<ipv6::Addr, ieee802154::Addr>) -> bool {
    &&& accepted(f)
    &&& icmp_message(f) matches Some(Message::EchoRequest { .. })
    &&& cache.contains_key(ipv6::Addr(source_nl_array(f)))
}

/// The solicited Neighbor Advertisement owed to a Neighbor Solicitation:
/// from the node's extended and link-local addresses back to the sender,
/// for the solicited target, with Solicited and Override set, Router clear,
/// and the node's extended address as Target Link-Layer Address
pub open spec fn advertisement_for(f: &Frame, c: Config, na: NeighborAdvertisement) -> bool {
    &&& na.header.pan_id == c.pan_id
    &&& na.header.src_ll == ieee802154::Addr::Extended(c.extended_address)
    &&& na.header.dest_ll == f.mac.src->Some_0
    &&& na.header.source.0@ == our_address(c)
    &&& na.header.destination.0@ == source_nl(f)
    &&& icmp_message(f) matches Some(Message::NeighborSolicitation { target, .. }) && na.target
        == target
    &&& !na.router
    &&& na.solicited
    &&& na.override_
    &&& na.target_ll == Some(c.extended_address)
}

/// The Echo Reply owed to an Echo Request: to the link-layer address that
/// the cache holds for the sender, network addresses swapped, identifier,
/// sequence number and data copied
pub open spec fn echo_reply_for(
    f: &Frame,
    cache: Map<ipv6::Addr, ieee802154::Addr>,
    c: Config,
    er: EchoReply,
) -> bool {
    &&& er.header.pan_id == c.pan_id
    &&& er.header.src_ll == ieee802154::Addr::Extended(c.extended_address)
    &&& er.header.dest_ll == cache[ipv6::Addr(source_nl_array(f))]
    &&& er.header.source.0@ == destination_nl(f)
    &&& er.header.destination.0@ == source_nl(f)
    &&& icmp_message(f) matches Some(Message::EchoRequest { identifier, sequence_number, payload })
        && er.identifier == identifier && er.sequence_number == sequence_number && er.payload@
        == payload@
}

/// An Echo Request from an address that the cache did not hold, and that
/// this frame does not teach it, is never answered
pub proof fn lemma_echo_needs_prior_contact(
    f: &Frame,
    before: Map<ipv6::Addr, ieee802154::Addr>,
    capacity: nat,
)
    requires
        !before.contains_key(ipv6::Addr(source_nl_array(f))),
        !is_link_local_bytes(source_nl(f)) || before.len() >= capacity,
    ensures
        !echo_answered(f, cache_after(f, before, capacity)),
{
}

/// A Neighbor Solicitation whose hop limit is not 255 is answered with
/// nothing, whatever else it holds
pub proof fn lemma_solicitation_hop_limit(
    f: &Frame,
    c: Config,
    cache: Map<ipv6::Addr, ieee802154::Addr>,
)
    requires
        f.ip is Some,
        f.ip->Some_0.hop_limit != ND_HOP_LIMIT,
        icmp_message(f) matches Some(Message::NeighborSolicitation { .. }),
    ensures
        !solicitation_answered(f, c),
        !echo_answered(f, cache),
{
}

/// A valid Neighbor Solicitation from a specified address that targets the
/// node's own address is answered with a solicited Neighbor Advertisement
pub proof fn lemma_self_targeted_solicitation(f: &Frame, c: Config)
    requires
        accepted(f),
        f.ip->Some_0.hop_limit == ND_HOP_LIMIT,
        !is_unspecified_bytes(source_nl(f)),
        icmpv6::checksum_ok(icmp_bytes(f), source_nl(f), destination_nl(f)),
        icmp_message(f) matches Some(Message::NeighborSolicitation { target, .. }) && target.0@
            == our_address(c),
    ensures
        solicitation_answered(f, c),
{
}

/// The address that `source_nl_array` picks is the computed one
proof fn lemma_source_key(f: &Frame, a: ipv6::Addr)
    requires
        a.0@ == source_nl(f),
    ensures
        ipv6::Addr(source_nl_array(f)) == a,
{
    let b = ipv6::Addr(source_nl_array(f));
    assert(b.0@ == source_nl(f));
    ipv6::lemma_addr_eq(a, b);
}

/// What follows the MAC header
pub open spec fn mac_payload(b: Seq<u8>) -> Seq<u8> {
    b.subrange(ieee802154::header_len(b), b.len() as int)
}

/// What follows the compressed IPv6 header
pub open spec fn ip_payload(b: Seq<u8>) -> Seq<u8> {
    let p = mac_payload(b);
    p.subrange(iphc::header_len(p), p.len() as int)
}

/// The decoded frame is what the bytes hold: its MAC header, and where the
/// MAC payload is an IPHC packet, its fields, with the ICMPv6 message decoded
/// where the Next Header says ICMPv6
pub open spec fn decoded_from(f: &Frame, b: Seq<u8>) -> bool {
    let p = mac_payload(b);
    &&& f.mac == ieee802154::header_of(b)
    &&& f.ip is Some <==> iphc::header_ok(p)
    &&& f.ip matches Some(ip) ==> {
        &&& ip.hop_limit as int == iphc::hop_limit_of(p)
        &&& iphc::addr_view(ip.source) == iphc::unicast_addr(p, iphc::sam(p), iphc::src_at(p))
        &&& iphc::addr_view(ip.destination) == if iphc::multicast(p) {
            Some(iphc::multicast_addr(p, iphc::dam(p), iphc::dest_at(p)))
        } else {
            iphc::unicast_addr(p, iphc::dam(p), iphc::dest_at(p))
        }
        &&& if !iphc::nh_inline(p) {
            ip.next_header is Compressed
        } else if p[iphc::nh_at(p)] == icmpv6::NEXT_HEADER {
            ip.next_header matches NextHeader::Icmpv6 { bytes, message } && bytes@ == ip_payload(b)
                && (message is Some <==> icmpv6::decodes(ip_payload(b))) && (message matches Some(
                m,
            ) ==> icmpv6::message_matches(m, ip_payload(b)))
        } else {
            ip.next_header == NextHeader::Other(p[iphc::nh_at(p)])
        }
    }
}

fn copy_slice(b: &[u8]) -> (r: Vec<u8>)
    ensures
        r@ == b@,
{
    let mut r: Vec<u8> = Vec::new();
    let mut i: usize = 0;
    while i < b.len()
        invariant
            i <= b@.len(),
            r@ == b@.subrange(0, i as int),
        decreases b@.len() - i,
    {
        r.push(b[i]);
        i = i + 1;
        assert(r@ =~= b@.subrange(0, i as int));
    }
    assert(r@ =~= b@);
    r
}

impl Frame {
    /// Decodes an inbound frame down to its ICMPv6 message; `None` where the
    /// MAC header is malformed
    pub fn decode(b: &[u8]) -> (r: Option<Frame>)
        ensures
            r is Some <==> ieee802154::header_ok(b@),
            r matches Some(f) ==> decoded_from(&f, b@),
    {
        let mac = match ieee802154::Header::parse(b) {
            Some(h) => h,
            None => return None,
        };
        let payload = slice_subrange(b, mac.len, b.len());
        let ip = match iphc::Header::parse(payload) {
            None => None,
            Some(h) => {
                let next_header = match h.next_header {
                    None => NextHeader::Compressed,
                    Some(nh) => {
                        if nh == icmpv6::NEXT_HEADER {
                            let rest = slice_subrange(payload, h.len, payload.len());
                            NextHeader::Icmpv6 { bytes: copy_slice(rest), message: icmpv6::decode(rest) }
                        } else {
                            NextHeader::Other(nh)
                        }
                    },
                };
                Some(
                    Iphc {
                        hop_limit: h.hop_limit,
                        source: h.source,
                        destination: h.destination,
                        next_header,
                    },
                )
            },
        };
        Some(Frame { mac, ip })
    }
}

/// The node's own IPv6 address
pub fn our_nl_addr(c: &Config) -> (r: ipv6::Addr)
    ensures
        r.0@ == our_address(*c),
{
    ipv6::Addr::link_local(ieee802154::Addr::Extended(c.extended_address))
}

/// Decides what to send in answer to one inbound frame, and learns the
/// link-layer address of a link-local source in the neighbor cache
pub fn on_new_frame(f: &Frame, config: &Config, cache: &mut NeighborCache) -> (r: Action)
    requires
        old(cache).wf(),
    ensures
        final(cache).wf(),
        final(cache).spec_capacity() == old(cache).spec_capacity(),
        final(cache)@ == cache_after(f, old(cache)@, old(cache).spec_capacity()),
        r is SolicitedNeighborAdvertisement <==> solicitation_answered(f, *config),
        r is EchoReply <==> echo_answered(f, final(cache)@),
        r matches Action::SolicitedNeighborAdvertisement(na) ==> advertisement_for(f, *config, na),
        r matches Action::EchoReply(er) ==> echo_reply_for(f, final(cache)@, *config, er),
{
    if f.mac.frame_type != FrameType::Data || f.mac.security_enabled || !f.mac.intra_pan {
        return Action::Nop;
    }
    let src_ll = match f.mac.src {
        Some(a) => a,
        None => return Action::Nop,
    };
    let dest_ll = match f.mac.dest {
        Some(a) => a,
        None => return Action::Nop,
    };
    let ip = match &f.ip {
        Some(ip) => ip,
        None => return Action::Nop,
    };
    let src_nl_addr = ip.source.complete(src_ll);
    let dest_nl_addr = ip.destination.complete(dest_ll);
    let our = our_nl_addr(config);
    proof {
        lemma_source_key(f, src_nl_addr);
    }

    if src_nl_addr.is_link_local() {
        // a full cache only means that this neighbor is not learned
        let _ = cache.insert(src_nl_addr, src_ll);
    }

    let (bytes, msg) = match &ip.next_header {
        NextHeader::Icmpv6 { bytes, message: Some(m) } => (bytes, m),
        _ => return Action::Nop,
    };
    match msg {
        Message::NeighborSolicitation { target, source_ll } => {
            // RFC 4861, 7.1.1: the IP Hop Limit field has a value of 255
            if ip.hop_limit != ND_HOP_LIMIT {
                return Action::Nop;
            }
            if !icmpv6::verify_checksum(bytes.as_slice(), &src_nl_addr, &dest_nl_addr) {
                return Action::Nop;
            }
            let unspecified = src_nl_addr.is_unspecified();
            if unspecified {
                // the shape of a Duplicate Address Detection probe
                if !dest_nl_addr.is_solicited_node() {
                    return Action::Nop;
                }
                if source_ll.is_some() {
                    return Action::Nop;
                }
            }
            if !(*target == our) {
                return Action::Nop;
            }
            if unspecified {
                // Duplicate Address Detection is not supported
                return Action::Nop;
            }
            Action::SolicitedNeighborAdvertisement(
                NeighborAdvertisement {
                    header: ReplyHeader {
                        pan_id: config.pan_id,
                        src_ll: ieee802154::Addr::Extended(config.extended_address),
                        dest_ll: src_ll,
                        source: our,
                        destination: src_nl_addr,
                    },
                    router: false,
                    solicited: true,
                    override_: true,
                    target: *target,
                    target_ll: Some(config.extended_address),
                },
            )
        },
        Message::EchoRequest { identifier, sequence_number, payload } => {
            let dest_addr = match cache.get(&src_nl_addr) {
                Some(a) => a,
                None => return Action::Nop,
            };
            Action::EchoReply(
                EchoReply {
                    header: ReplyHeader {
                        pan_id: config.pan_id,
                        src_ll: ieee802154::Addr::Extended(config.extended_address),
                        dest_ll: dest_addr,
                        source: dest_nl_addr,
                        destination: src_nl_addr,
                    },
                    identifier: *identifier,
                    sequence_number: *sequence_number,
                    payload: copy_slice(payload.as_slice()),
                },
            )
        },
        Message::Other { .. } => Action::Nop,
    }
}

/// Decodes one inbound frame and decides what to send in answer; a frame
/// whose MAC header is malformed is answered with nothing and teaches the
/// cache nothing
pub fn process(b: &[u8], config: &Config, cache: &mut NeighborCache) -> (r: Action)
    requires
        old(cache).wf(),
    ensures
        final(cache).wf(),
        final(cache).spec_capacity() == old(cache).spec_capacity(),
        !ieee802154::header_ok(b@) ==> r is Nop && final(cache)@ == old(cache)@,
        ieee802154::header_ok(b@) ==> exists|f: Frame|
            {
                &&& #[trigger] decoded_from(&f, b@)
                &&& final(cache)@ == cache_after(&f, old(cache)@, old(cache).spec_capacity())
                &&& (r is SolicitedNeighborAdvertisement <==> solicitation_answered(&f, *config))
                &&& (r is EchoReply <==> echo_answered(&f, final(cache)@))
                &&& (r matches Action::SolicitedNeighborAdvertisement(na) ==> advertisement_for(
                    &f,
                    *config,
                    na,
                ))
                &&& (r matches Action::EchoReply(er) ==> echo_reply_for(
                    &f,
                    final(cache)@,
                    *config,
                    er,
                ))
            },
{
    match Frame::decode(b) {
        None => Action::Nop,
        Some(f) => on_new_frame(&f, config, cache),
    }
}

} // verus!
