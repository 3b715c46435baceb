//! ICMPv6: checksum of a message over the IPv6 pseudo-header

use vstd::prelude::*;

use crate::checksum::{
    be16, internet_checksum, lemma_be16_of_with, lemma_segment_sum_skips_checksum, n_words,
    with_be16,
};
use crate::ieee802154;
use crate::ipv6;
use crate::ipv6::Addr;

verus! {

/// Next Header value of ICMPv6 in the IPv6 pseudo-header
pub const NEXT_HEADER: u8 = 58;

/// Offset of the Checksum field
pub const CHECKSUM: usize = 2;

/// Size of the Type, Code and Checksum fields
pub const HEADER_SIZE: usize = 4;

/// An ICMPv6 message, decoded by type
pub enum Message {
    /// Neighbor Solicitation
    NeighborSolicitation {
        /// Target Address
        target: ipv6::Addr,
        /// Source Link-Layer Address option, where present
        source_ll: Option<ieee802154::Addr>,
    },
    /// Echo Request
    EchoRequest { identifier: u16, sequence_number: u16, payload: Vec<u8> },
    /// A message of another type
    Other { type_code: u8 },
}

/// Type of an Echo Request
pub const ECHO_REQUEST: u8 = 128;

/// Type of a Neighbor Solicitation
pub const NEIGHBOR_SOLICITATION: u8 = 135;

/// Neighbor Discovery option type: Source Link-Layer Address
pub const SOURCE_LL_OPTION: u8 = 1;

/// Size of a Neighbor Solicitation without options
pub const NS_SIZE: usize = 24;

/// Size of an Echo Request without data
pub const ECHO_SIZE: usize = 8;

/// Big-endian 64-bit value at byte `at`
pub open spec fn be64(s: Seq<u8>, at: int) -> int {
    ((be16(s, at) * 0x10000 + be16(s, at + 2)) * 0x10000 + be16(s, at + 4)) * 0x10000 + be16(
        s,
        at + 6,
    )
}

/// Scans the Neighbor Discovery options from byte `at` on for the first
/// Source Link-Layer Address option that holds a short (length 1) or an
/// extended (length 2) address; `None` where an option is empty or overruns
/// the message
pub open spec fn scan_source_ll(s: Seq<u8>, at: int) -> Option<Option<ieee802154::Addr>>
    decreases s.len() - at,
{
    if at < 0 || at >= s.len() {
        Some(None)
    } else if at + 2 > s.len() || s[at + 1] == 0 || at + 8 * s[at + 1] > s.len() {
        None
    } else if s[at] == SOURCE_LL_OPTION && s[at + 1] == 1 {
        Some(Some(ieee802154::Addr::Short(be16(s, at + 2) as u16)))
    } else if s[at] == SOURCE_LL_OPTION && s[at + 1] == 2 {
        Some(Some(ieee802154::Addr::Extended(be64(s, at + 2) as u64)))
    } else {
        scan_source_ll(s, at + 8 * s[at + 1])
    }
}

/// The message decodes: it holds its type's fixed fields and, for a Neighbor
/// Solicitation, well-formed options
pub open spec fn decodes(s: Seq<u8>) -> bool {
    &&& s.len() >= HEADER_SIZE
    &&& s[0] == NEIGHBOR_SOLICITATION ==> s.len() >= NS_SIZE && scan_source_ll(s, NS_SIZE as int) is Some
    &&& s[0] == ECHO_REQUEST ==> s.len() >= ECHO_SIZE
}

/// What a message that decodes decodes to
pub open spec fn message_matches(m: Message, s: Seq<u8>) -> bool {
    if s[0] == NEIGHBOR_SOLICITATION {
        m matches Message::NeighborSolicitation { target, source_ll } && target.0@ == s.subrange(8, 24)
            && source_ll == scan_source_ll(s, NS_SIZE as int)->Some_0
    } else if s[0] == ECHO_REQUEST {
        m matches Message::EchoRequest { identifier, sequence_number, payload } && identifier
            == be16(s, 4) && sequence_number == be16(s, 6) && payload@ == s.subrange(8, s.len() as int)
    } else {
        m == (Message::Other { type_code: s[0] })
    }
}

fn read_be64(b: &[u8], at: usize) -> (r: u64)
    requires
        at + 8 <= b@.len(),
    ensures
        r as int == be64(b@, at as int),
{
    // a slice's length fits in usize, so no offset below overflows
    assert(b@.len() == b.len());
    let a = crate::checksum::read_be16(b, at) as u64;
    let c = crate::checksum::read_be16(b, at + 2) as u64;
    let d = crate::checksum::read_be16(b, at + 4) as u64;
    let e = crate::checksum::read_be16(b, at + 6) as u64;
    ((a * 0x10000 + c) * 0x10000 + d) * 0x10000 + e
}

fn find_source_ll(b: &[u8], start: usize) -> (r: Option<Option<ieee802154::Addr>>)
    ensures
        r == scan_source_ll(b@, start as int),
    decreases b@.len() - start,
{
    let n = b.len();
    if start >= n {
        return Some(None);
    }
    if n - start < 2 {
        return None;
    }
    let kind = b[start];
    let units = b[start + 1];
    if units == 0 || n - start < 8 * units as usize {
        return None;
    }
    if kind == SOURCE_LL_OPTION && units == 1 {
        Some(Some(ieee802154::Addr::Short(crate::checksum::read_be16(b, start + 2))))
    } else if kind == SOURCE_LL_OPTION && units == 2 {
        Some(Some(ieee802154::Addr::Extended(read_be64(b, start + 2))))
    } else {
        find_source_ll(b, start + 8 * units as usize)
    }
}

fn copy_from(b: &[u8], at: usize) -> (r: Vec<u8>)
    requires
        at <= b@.len(),
    ensures
        r@ == b@.subrange(at as int, b@.len() as int),
{
    let mut r: Vec<u8> = Vec::new();
    let mut i: usize = at;
    while i < b.len()
        invariant
            at <= i <= b@.len(),
            r@ == b@.subrange(at as int, i as int),
        decreases b@.len() - i,
    {
        r.push(b[i]);
        i = i + 1;
        assert(r@ =~= b@.subrange(at as int, i as int));
    }
    r
}

/// Decodes an ICMPv6 message by its type
pub fn decode(b: &[u8]) -> (r: Option<Message>)
    ensures
        r is Some <==> decodes(b@),
        r matches Some(m) ==> message_matches(m, b@),
{
    if b.len() < HEADER_SIZE {
        return None;
    }
    let kind = b[0];
    if kind == NEIGHBOR_SOLICITATION {
        if b.len() < NS_SIZE {
            return None;
        }
        let mut target = [0u8; 16];
        let mut i: usize = 0;
        while i < 16
            invariant
                i <= 16,
                b@.len() >= NS_SIZE,
                forall|j: int| 0 <= j < i ==> target@[j] == b@[8 + j],
            decreases 16 - i,
        {
            target[i] = b[8 + i];
            i = i + 1;
        }
        assert(target@ =~= b@.subrange(8, 24));
        match find_source_ll(b, NS_SIZE) {
            Some(source_ll) => Some(Message::NeighborSolicitation { target: ipv6::Addr(target), source_ll }),
            None => None,
        }
    } else if kind == ECHO_REQUEST {
        if b.len() < ECHO_SIZE {
            return None;
        }
        Some(
            Message::EchoRequest {
                identifier: crate::checksum::read_be16(b, 4),
                sequence_number: crate::checksum::read_be16(b, 6),
                payload: copy_from(b, ECHO_SIZE),
            },
        )
    } else {
        Some(Message::Other { type_code: kind })
    }
}

/// Internet checksum of an ICMPv6 message between two addresses
pub open spec fn checksum_of(m: Seq<u8>, src: Seq<u8>, dest: Seq<u8>) -> u16 {
    internet_checksum(m, src, dest, NEXT_HEADER, CHECKSUM as int / 2)
}

/// The message holds a Checksum field that matches its content; a message
/// too long for the pseudo-header's 32-bit length never does
pub open spec fn checksum_ok(m: Seq<u8>, src: Seq<u8>, dest: Seq<u8>) -> bool {
    &&& HEADER_SIZE <= m.len() <= u32::MAX
    &&& be16(m, CHECKSUM as int) == checksum_of(m, src, dest) as int
}

/// Verifies the Checksum field of an ICMPv6 message
pub fn verify_checksum(m: &[u8], src: &Addr, dest: &Addr) -> (r: bool)
    ensures
        r == checksum_ok(m@, src.0@, dest.0@),
{
    if m.len() < HEADER_SIZE || m.len() > u32::MAX as usize {
        return false;
    }
    let computed = crate::checksum::compute(m, CHECKSUM / 2, src, dest, NEXT_HEADER);
    computed == crate::checksum::read_be16(m, CHECKSUM)
}

/// The message with its Checksum field set between two addresses
pub open spec fn with_checksum(m: Seq<u8>, src: Seq<u8>, dest: Seq<u8>) -> Seq<u8> {
    with_be16(m, CHECKSUM as int, checksum_of(m, src, dest))
}

/// Computes and sets the Checksum field of an ICMPv6 message
pub fn update_checksum(m: &mut Vec<u8>, src: &Addr, dest: &Addr)
    requires
        HEADER_SIZE <= old(m)@.len() <= u32::MAX,
    ensures
        final(m)@ == with_checksum(old(m)@, src.0@, dest.0@),
{
    let c = crate::checksum::compute(m.as_slice(), CHECKSUM / 2, src, dest, NEXT_HEADER);
    crate::checksum::write_be16(m, CHECKSUM, c);
}

/// A message whose Checksum field was set between two addresses verifies
/// between them
pub proof fn lemma_checksum_round_trip(m: Seq<u8>, src: Seq<u8>, dest: Seq<u8>)
    requires
        HEADER_SIZE <= m.len() <= u32::MAX,
    ensures
        checksum_ok(with_checksum(m, src, dest), src, dest),
{
    let c = checksum_of(m, src, dest);
    let u = with_checksum(m, src, dest);
    lemma_segment_sum_skips_checksum(m, u, n_words(m), CHECKSUM as int / 2);
    lemma_be16_of_with(m, CHECKSUM as int, c);
}

} // verus!
