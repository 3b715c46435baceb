//! Encoding of the replies that the node sends: an IEEE 802.15.4 data frame
//! carrying an IPHC packet with both addresses inline and an ICMPv6 message

use vstd::prelude::*;

use crate::icmpv6;
use crate::ieee802154;
use crate::node::{EchoReply, NeighborAdvertisement, ReplyHeader};

verus! {

/// ICMPv6 type of an Echo Reply
pub const ECHO_REPLY: u8 = 129;

/// ICMPv6 type of a Neighbor Advertisement
pub const NEIGHBOR_ADVERTISEMENT: u8 = 136;

/// Neighbor Discovery option type: Target Link-Layer Address
pub const TARGET_LL_OPTION: u8 = 2;

/// IPHC header with Traffic Class and Flow Label elided, the Next Header
/// inline, a Hop Limit of 255 and both addresses inline
pub open spec fn iphc_bytes(h: ReplyHeader) -> Seq<u8> {
    seq![0x7bu8, 0x00u8, icmpv6::NEXT_HEADER] + h.source.0@ + h.destination.0@
}

/// The whole frame around an ICMPv6 message, whose checksum is then set
pub open spec fn frame_bytes(h: ReplyHeader, message: Seq<u8>) -> Seq<u8> {
    ieee802154::data_header_bytes(h.pan_id, h.src_ll, h.dest_ll, 0) + iphc_bytes(h)
        + icmpv6::with_checksum(message, h.source.0@, h.destination.0@)
}

/// A 16-bit value, most significant byte first
pub open spec fn be16_bytes(x: u16) -> Seq<u8> {
    seq![(x >> 8u16) as u8, x as u8]
}

/// A 64-bit value, most significant byte first
pub open spec fn be64_bytes(x: u64) -> Seq<u8> {
    seq![
        (x >> 56u64) as u8,
        (x >> 48u64) as u8,
        (x >> 40u64) as u8,
        (x >> 32u64) as u8,
        (x >> 24u64) as u8,
        (x >> 16u64) as u8,
        (x >> 8u64) as u8,
        x as u8,
    ]
}

/// An Echo Reply message, checksum zero
pub open spec fn echo_reply_message(er: &EchoReply) -> Seq<u8> {
    seq![ECHO_REPLY, 0u8, 0u8, 0u8] + be16_bytes(er.identifier) + be16_bytes(er.sequence_number)
        + er.payload@
}

/// Router, Solicited and Override flags
pub open spec fn na_flags(na: &NeighborAdvertisement) -> u8 {
    ((if na.router { 0x80u8 } else { 0u8 }) | (if na.solicited { 0x40u8 } else { 0u8 }) | (if na.override_ {
        0x20u8
    } else {
        0u8
    })) as u8
}

/// A Neighbor Advertisement message, checksum zero, with the Target
/// Link-Layer Address option where there is one (an extended address padded
/// to 16 bytes)
pub open spec fn na_message(na: &NeighborAdvertisement) -> Seq<u8> {
    seq![NEIGHBOR_ADVERTISEMENT, 0u8, 0u8, 0u8, na_flags(na), 0u8, 0u8, 0u8] + na.target.0@
        + match na.target_ll {
        Some(e) => seq![TARGET_LL_OPTION, 2u8] + be64_bytes(e) + Seq::new(6, |i: int| 0u8),
        None => Seq::empty(),
    }
}

fn push_all(v: &mut Vec<u8>, s: &[u8])
    ensures
        final(v)@ == old(v)@ + s@,
{
    let mut i: usize = 0;
    while i < s.len()
        invariant
            i <= s@.len(),
            v@ == old(v)@ + s@.subrange(0, i as int),
        decreases s@.len() - i,
    {
        v.push(s[i]);
        i = i + 1;
        assert(v@ =~= old(v)@ + s@.subrange(0, i as int));
    }
    assert(s@.subrange(0, s@.len() as int) =~= s@);
}

fn push_be16(v: &mut Vec<u8>, x: u16)
    ensures
        final(v)@ == old(v)@ + be16_bytes(x),
{
    v.push((x >> 8) as u8);
    v.push(x as u8);
    assert(final(v)@ =~= old(v)@ + be16_bytes(x));
}

fn push_be64(v: &mut Vec<u8>, x: u64)
    ensures
        final(v)@ == old(v)@ + be64_bytes(x),
{
    v.push((x >> 56) as u8);
    v.push((x >> 48) as u8);
    v.push((x >> 40) as u8);
    v.push((x >> 32) as u8);
    v.push((x >> 24) as u8);
    v.push((x >> 16) as u8);
    v.push((x >> 8) as u8);
    v.push(x as u8);
    assert(final(v)@ =~= old(v)@ + be64_bytes(x));
}

/// Sets the message's checksum and puts the frame around it
fn frame(h: &ReplyHeader, message: Vec<u8>) -> (r: Vec<u8>)
    requires
        icmpv6::HEADER_SIZE <= message@.len() <= u32::MAX,
    ensures
        r@ == frame_bytes(*h, message@),
{
    let mut m = message;
    icmpv6::update_checksum(&mut m, &h.source, &h.destination);
    let mut v = ieee802154::data_header(h.pan_id, h.src_ll, h.dest_ll, 0);
    v.push(0x7b);
    v.push(0x00);
    v.push(icmpv6::NEXT_HEADER);
    push_all(&mut v, h.source.0.as_slice());
    push_all(&mut v, h.destination.0.as_slice());
    push_all(&mut v, m.as_slice());
    assert(v@ =~= frame_bytes(*h, message@));
    v
}

impl EchoReply {
    /// The frame that carries this Echo Reply
    pub fn to_bytes(&self) -> (r: Vec<u8>)
        requires
            self.payload@.len() <= u32::MAX - 8,
        ensures
            r@ == frame_bytes(self.header, echo_reply_message(self)),
    {
        let mut m: Vec<u8> = Vec::new();
        m.push(ECHO_REPLY);
        m.push(0);
        m.push(0);
        m.push(0);
        push_be16(&mut m, self.identifier);
        push_be16(&mut m, self.sequence_number);
        push_all(&mut m, self.payload.as_slice());
        assert(m@ =~= echo_reply_message(self));
        frame(&self.header, m)
    }
}

impl NeighborAdvertisement {
    /// The frame that carries this Neighbor Advertisement
    pub fn to_bytes(&self) -> (r: Vec<u8>)
        ensures
            r@ == frame_bytes(self.header, na_message(self)),
    {
        let mut m: Vec<u8> = Vec::new();
        m.push(NEIGHBOR_ADVERTISEMENT);
        m.push(0);
        m.push(0);
        m.push(0);
        let flags: u8 = (if self.router { 0x80u8 } else { 0u8 }) | (if self.solicited {
            0x40u8
        } else {
            0u8
        }) | (if self.override_ { 0x20u8 } else { 0u8 });
        m.push(flags);
        m.push(0);
        m.push(0);
        m.push(0);
        push_all(&mut m, self.target.0.as_slice());
        match self.target_ll {
            Some(e) => {
                m.push(TARGET_LL_OPTION);
                m.push(2);
                push_be64(&mut m, e);
                let ghost before = m@;
                let mut k: usize = 0;
                while k < 6
                    invariant
                        k <= 6,
                        before.len() == 34,
                        m@.len() == 34 + k,
                        m@.subrange(0, 34) == before,
                        forall|j: int| 34 <= j < 34 + k ==> m@[j] == 0u8,
                    decreases 6 - k,
                {
                    m.push(0);
                    k = k + 1;
                    assert(m@.subrange(0, 34) =~= before);
                }
                assert(m@ =~= before + Seq::new(6, |i: int| 0u8));
            },
            None => {},
        }
        assert(m@ =~= na_message(self));
        frame(&self.header, m)
    }
}

} // verus!
