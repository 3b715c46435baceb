//! 6LoWPAN IPHC: the compressed IPv6 header (RFC 6282), without contexts

use vstd::prelude::*;

use crate::ieee802154;
use crate::ipv6;

verus! {

/// An address of a compressed IPv6 header: carried in full, or elided and
/// to be derived from the link-layer address of the frame
#[derive(Clone, Copy, Debug)]
pub enum Addr {
    /// The whole 128-bit address
    Complete(ipv6::Addr),
    /// A link-local address whose interface identifier is the link-layer
    /// address's
    Elided,
}

/// The full address that an IPHC address stands for, given the link-layer
/// address of the same end of the frame
pub open spec fn completed(a: Addr, ll: ieee802154::Addr) -> Seq<u8> {
    match a {
        Addr::Complete(full) => full.0@,
        Addr::Elided => ipv6::link_local_bytes(ll),
    }
}

impl Addr {
    /// The full address, derived from `ll` where it was elided
    pub fn complete(&self, ll: ieee802154::Addr) -> (r: ipv6::Addr)
        ensures
            r.0@ == completed(*self, ll),
    {
        match self {
            Addr::Complete(full) => *full,
            Addr::Elided => ipv6::Addr::link_local(ll),
        }
    }
}

/// Fields of a compressed IPv6 header
pub struct Header {
    pub hop_limit: u8,
    /// The Next Header value where carried inline; `None` where the next
    /// header is itself compressed (NHC)
    pub next_header: Option<u8>,
    pub source: Addr,
    pub destination: Addr,
    /// Size of the compressed header: the payload starts here
    pub len: usize,
}

/// Where the address stands for a full one, its bytes; `None` where elided
pub open spec fn addr_view(a: Addr) -> Option<Seq<u8>> {
    match a {
        Addr::Complete(full) => Some(full.0@),
        Addr::Elided => None,
    }
}

/// Traffic Class and Flow Label encoding
pub open spec fn tf(s: Seq<u8>) -> int {
    (s[0] as int / 8) % 4
}

/// The Next Header field is carried inline
pub open spec fn nh_inline(s: Seq<u8>) -> bool {
    (s[0] as int / 4) % 2 == 0
}

/// Hop Limit encoding
pub open spec fn hlim(s: Seq<u8>) -> int {
    s[0] as int % 4
}

/// Context Identifier Extension flag
pub open spec fn cid(s: Seq<u8>) -> int {
    s[1] as int / 128
}

/// Source Address Compression: stateful
pub open spec fn sac(s: Seq<u8>) -> int {
    (s[1] as int / 64) % 2
}

/// Source Address Mode
pub open spec fn sam(s: Seq<u8>) -> int {
    (s[1] as int / 16) % 4
}

/// Multicast Compression flag
pub open spec fn multicast(s: Seq<u8>) -> bool {
    (s[1] as int / 8) % 2 == 1
}

/// Destination Address Compression: stateful
pub open spec fn dac(s: Seq<u8>) -> int {
    (s[1] as int / 4) % 2
}

/// Destination Address Mode
pub open spec fn dam(s: Seq<u8>) -> int {
    s[1] as int % 4
}

/// Bytes of the inline Traffic Class and Flow Label
pub open spec fn tf_size(tf: int) -> int {
    if tf == 0 {
        4
    } else if tf == 1 {
        3
    } else if tf == 2 {
        1
    } else {
        0
    }
}

/// Bytes of an inline unicast address for a stateless mode
pub open spec fn unicast_size(mode: int) -> int {
    if mode == 0 {
        16
    } else if mode == 1 {
        8
    } else if mode == 2 {
        2
    } else {
        0
    }
}

/// Bytes of an inline multicast address
pub open spec fn multicast_size(mode: int) -> int {
    if mode == 0 {
        16
    } else if mode == 1 {
        6
    } else if mode == 2 {
        4
    } else {
        1
    }
}

/// Offset of the inline Next Header
pub open spec fn nh_at(s: Seq<u8>) -> int {
    2 + tf_size(tf(s))
}

/// Offset of the inline Hop Limit
pub open spec fn hl_at(s: Seq<u8>) -> int {
    if nh_inline(s) {
        nh_at(s) + 1
    } else {
        nh_at(s)
    }
}

/// Offset of the inline source address
pub open spec fn src_at(s: Seq<u8>) -> int {
    if hlim(s) == 0 {
        hl_at(s) + 1
    } else {
        hl_at(s)
    }
}

/// Offset of the inline destination address
pub open spec fn dest_at(s: Seq<u8>) -> int {
    src_at(s) + unicast_size(sam(s))
}

/// Size of the compressed header
pub open spec fn header_len(s: Seq<u8>) -> int {
    dest_at(s) + if multicast(s) {
        multicast_size(dam(s))
    } else {
        unicast_size(dam(s))
    }
}

/// The bytes start with an IPHC header that needs no context and is whole
pub open spec fn header_ok(s: Seq<u8>) -> bool {
    &&& s.len() >= 2
    &&& s[0] as int / 32 == 3
    &&& cid(s) == 0
    &&& sac(s) == 0
    &&& dac(s) == 0
    &&& header_len(s) <= s.len()
}

/// The hop limit, inline or encoded
pub open spec fn hop_limit_of(s: Seq<u8>) -> int {
    if hlim(s) == 0 {
        s[hl_at(s)] as int
    } else if hlim(s) == 1 {
        1
    } else if hlim(s) == 2 {
        64
    } else {
        255
    }
}

/// A stateless unicast address: inline, its interface identifier inline
/// after `fe80::/64`, a short address inline, or elided
pub open spec fn unicast_addr(s: Seq<u8>, mode: int, at: int) -> Option<Seq<u8>> {
    if mode == 0 {
        Some(s.subrange(at, at + 16))
    } else if mode == 1 {
        Some(seq![0xfeu8, 0x80u8, 0u8, 0u8, 0u8, 0u8, 0u8, 0u8] + s.subrange(at, at + 8))
    } else if mode == 2 {
        Some(
            seq![0xfeu8, 0x80u8, 0u8, 0u8, 0u8, 0u8, 0u8, 0u8, 0u8, 0u8, 0u8, 0xffu8, 0xfeu8, 0u8]
                + s.subrange(at, at + 2),
        )
    } else {
        None
    }
}

/// A multicast address: inline, `ffXX::00XX:XXXX:XXXX`, `ffXX::00XX:XXXX`
/// or `ff02::00XX`
pub open spec fn multicast_addr(s: Seq<u8>, mode: int, at: int) -> Seq<u8> {
    if mode == 0 {
        s.subrange(at, at + 16)
    } else if mode == 1 {
        seq![0xffu8, s[at]] + Seq::new(9, |i: int| 0u8) + s.subrange(at + 1, at + 6)
    } else if mode == 2 {
        seq![0xffu8, s[at]] + Seq::new(11, |i: int| 0u8) + s.subrange(at + 1, at + 4)
    } else {
        seq![0xffu8, 0x02u8] + Seq::new(13, |i: int| 0u8) + seq![s[at]]
    }
}

proof fn lemma_bits(b: u8)
    ensures
        (b >> 5u8) as int == b as int / 32,
        (b >> 7u8) as int == b as int / 128,
        ((b >> 6u8) & 1) as int == (b as int / 64) % 2,
        ((b >> 4u8) & 3) as int == (b as int / 16) % 4,
        ((b >> 3u8) & 3) as int == (b as int / 8) % 4,
        ((b >> 3u8) & 1) as int == (b as int / 8) % 2,
        ((b >> 2u8) & 1) as int == (b as int / 4) % 2,
        (b & 3) as int == b as int % 4,
{
    assert(b >> 5u8 == b / 32) by (bit_vector);
    assert(b >> 7u8 == b / 128) by (bit_vector);
    assert((b >> 6u8) & 1 == (b / 64) % 2) by (bit_vector);
    assert((b >> 4u8) & 3 == (b / 16) % 4) by (bit_vector);
    assert((b >> 3u8) & 3 == (b / 8) % 4) by (bit_vector);
    assert((b >> 3u8) & 1 == (b / 8) % 2) by (bit_vector);
    assert((b >> 2u8) & 1 == (b / 4) % 2) by (bit_vector);
    assert(b & 3 == b % 4) by (bit_vector);
}

/// Copies `n` bytes of `b`, from `at` on, into `a` from `from` on
fn fill(a: &mut [u8; 16], from: usize, b: &[u8], at: usize, n: usize)
    requires
        from + n <= 16,
        at + n <= b@.len(),
    ensures
        forall|i: int|
            0 <= i < 16 ==> #[trigger] final(a)@[i] == if from <= i < from + n {
                b@[at + i - from]
            } else {
                old(a)@[i]
            },
{
    let bl = b.len();
    let mut k: usize = 0;
    while k < n
        invariant
            from + n <= 16,
            at + n <= b@.len(),
            b@.len() == bl,
            k <= n,
            forall|i: int|
                0 <= i < 16 ==> #[trigger] a@[i] == if from <= i < from + k {
                    b@[at + i - from]
                } else {
                    old(a)@[i]
                },
        decreases n - k,
    {
        a[from + k] = b[at + k];
        k = k + 1;
    }
}

fn size_of_tf(tf: u8) -> (r: usize)
    ensures
        r as int == tf_size(tf as int),
{
    if tf == 0 {
        4
    } else if tf == 1 {
        3
    } else if tf == 2 {
        1
    } else {
        0
    }
}

fn size_of_unicast(mode: u8) -> (r: usize)
    ensures
        r as int == unicast_size(mode as int),
{
    if mode == 0 {
        16
    } else if mode == 1 {
        8
    } else if mode == 2 {
        2
    } else {
        0
    }
}

fn size_of_multicast(mode: u8) -> (r: usize)
    requires
        mode < 4,
    ensures
        r as int == multicast_size(mode as int),
{
    if mode == 0 {
        16
    } else if mode == 1 {
        6
    } else if mode == 2 {
        4
    } else {
        1
    }
}

fn read_unicast(b: &[u8], mode: u8, at: usize) -> (r: Addr)
    requires
        mode < 4,
        at + unicast_size(mode as int) <= b@.len(),
    ensures
        addr_view(r) == unicast_addr(b@, mode as int, at as int),
{
    if mode == 3 {
        return Addr::Elided;
    }
    let mut a = [0u8; 16];
    if mode == 0 {
        fill(&mut a, 0, b, at, 16);
    } else {
        a[0] = 0xfe;
        a[1] = 0x80;
        if mode == 1 {
            fill(&mut a, 8, b, at, 8);
        } else {
            a[11] = 0xff;
            a[12] = 0xfe;
            fill(&mut a, 14, b, at, 2);
        }
    }
    assert(a@ =~= unicast_addr(b@, mode as int, at as int)->Some_0);
    Addr::Complete(ipv6::Addr(a))
}

fn read_multicast(b: &[u8], mode: u8, at: usize) -> (r: Addr)
    requires
        mode < 4,
        at + multicast_size(mode as int) <= b@.len(),
    ensures
        addr_view(r) == Some(multicast_addr(b@, mode as int, at as int)),
{
    let mut a = [0u8; 16];
    if mode == 0 {
        fill(&mut a, 0, b, at, 16);
    } else {
        a[0] = 0xff;
        if mode == 1 {
            a[1] = b[at];
            fill(&mut a, 11, b, at + 1, 5);
        } else if mode == 2 {
            a[1] = b[at];
            fill(&mut a, 13, b, at + 1, 3);
        } else {
            a[1] = 0x02;
            a[15] = b[at];
        }
    }
    assert(a@ =~= multicast_addr(b@, mode as int, at as int));
    Addr::Complete(ipv6::Addr(a))
}

impl Header {
    /// Parses the compressed IPv6 header that the bytes start with; `None`
    /// where they do not start with the IPHC dispatch, where the header needs
    /// a context, or where it is cut short
    pub fn parse(b: &[u8]) -> (r: Option<Header>)
        ensures
            r is Some <==> header_ok(b@),
            r matches Some(h) ==> {
                &&& h.hop_limit as int == hop_limit_of(b@)
                &&& h.next_header == if nh_inline(b@) {
                    Some(b@[nh_at(b@)])
                } else {
                    None::<u8>
                }
                &&& addr_view(h.source) == unicast_addr(b@, sam(b@), src_at(b@))
                &&& addr_view(h.destination) == if multicast(b@) {
                    Some(multicast_addr(b@, dam(b@), dest_at(b@)))
                } else {
                    unicast_addr(b@, dam(b@), dest_at(b@))
                }
                &&& h.len as int == header_len(b@)
            },
    {
        if b.len() < 2 {
            return None;
        }
        let b0 = b[0];
        let b1 = b[1];
        proof {
            lemma_bits(b0);
            lemma_bits(b1);
        }
        if b0 >> 5 != 3 || b1 >> 7 != 0 || (b1 >> 6) & 1 != 0 || (b1 >> 2) & 1 != 0 {
            return None;
        }
        let tf = (b0 >> 3) & 3;
        let nh_inline = (b0 >> 2) & 1 == 0;
        let hlim = b0 & 3;
        let sam = (b1 >> 4) & 3;
        let multicast = (b1 >> 3) & 1 == 1;
        let dam = b1 & 3;
        let nh_at = 2 + size_of_tf(tf);
        let hl_at = if nh_inline {
            nh_at + 1
        } else {
            nh_at
        };
        let src_at = if hlim == 0 {
            hl_at + 1
        } else {
            hl_at
        };
        let dest_at = src_at + size_of_unicast(sam);
        let len = dest_at + if multicast {
            size_of_multicast(dam)
        } else {
            size_of_unicast(dam)
        };
        if len > b.len() {
            return None;
        }
        let next_header = if nh_inline {
            Some(b[nh_at])
        } else {
            None
        };
        let hop_limit = if hlim == 0 {
            b[hl_at]
        } else if hlim == 1 {
            1
        } else if hlim == 2 {
            64
        } else {
            255
        };
        let source = read_unicast(b, sam, src_at);
        let destination = if multicast {
            read_multicast(b, dam, dest_at)
        } else {
            read_unicast(b, dam, dest_at)
        };
        Some(Header { hop_limit, next_header, source, destination, len })
    }
}

} // verus!
