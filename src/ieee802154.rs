//! IEEE 802.15.4 MAC: link-layer addresses and frame headers

use vstd::prelude::*;

verus! {

/// Link-layer address: 16-bit short or 64-bit extended
#[derive(Clone, Copy, Debug, PartialEq, Eq, Structural)]
pub enum Addr {
    /// Short (16-bit) address
    Short(u16),
    /// Extended (64-bit, EUI-64) address
    Extended(u64),
}

/// Type of a frame
#[derive(Clone, Copy, Debug, PartialEq, Eq, Structural)]
pub enum FrameType {
    Beacon,
    Data,
    Acknowledgement,
    MacCommand,
    Reserved,
}

/// Addressing mode: no address
pub const MODE_NONE: u8 = 0;

/// Addressing mode: short address
pub const MODE_SHORT: u8 = 2;

/// Addressing mode: extended address
pub const MODE_EXTENDED: u8 = 3;

/// The fields of a frame header, in the order they come
pub struct Header {
    pub frame_type: FrameType,
    pub security_enabled: bool,
    pub frame_pending: bool,
    pub ack_request: bool,
    /// PAN ID Compression: source and destination share the destination's PAN
    pub intra_pan: bool,
    pub sequence_number: u8,
    pub dest_pan: Option<u16>,
    pub dest: Option<Addr>,
    pub src_pan: Option<u16>,
    pub src: Option<Addr>,
    /// Size of the header: the payload starts here
    pub len: usize,
}

/// Little-endian 16-bit value at byte `at`
pub open spec fn le16(s: Seq<u8>, at: int) -> int {
    s[at] + 0x100 * s[at + 1]
}

/// Little-endian 64-bit value at byte `at`
pub open spec fn le64(s: Seq<u8>, at: int) -> int {
    le16(s, at) + 0x10000 * le16(s, at + 2) + 0x1_0000_0000 * le16(s, at + 4) + 0x1_0000_0000_0000
        * le16(s, at + 6)
}

/// The frame type that a Frame Type code stands for
pub open spec fn type_of_code(code: int) -> FrameType {
    if code == 0 {
        FrameType::Beacon
    } else if code == 1 {
        FrameType::Data
    } else if code == 2 {
        FrameType::Acknowledgement
    } else if code == 3 {
        FrameType::MacCommand
    } else {
        FrameType::Reserved
    }
}

/// Bit `i` of a byte
pub open spec fn bit(b: u8, i: u8) -> bool {
    (b >> i) & 1u8 == 1u8
}

/// Destination addressing mode
pub open spec fn dest_mode(s: Seq<u8>) -> int {
    (s[1] as int / 4) % 4
}

/// Source addressing mode
pub open spec fn src_mode(s: Seq<u8>) -> int {
    s[1] as int / 64
}

/// Size of an address in a given addressing mode
pub open spec fn addr_size(mode: int) -> int {
    if mode == MODE_SHORT {
        2
    } else if mode == MODE_EXTENDED {
        8
    } else {
        0
    }
}

/// Offset of the Source PAN Identifier (or of what stands in its place)
pub open spec fn src_pan_at(s: Seq<u8>) -> int {
    if dest_mode(s) == MODE_NONE {
        3
    } else {
        5 + addr_size(dest_mode(s))
    }
}

/// A Source PAN Identifier is present
pub open spec fn has_src_pan(s: Seq<u8>) -> bool {
    src_mode(s) != MODE_NONE && !bit(s[0], 6)
}

/// Offset of the Source Address
pub open spec fn src_addr_at(s: Seq<u8>) -> int {
    if has_src_pan(s) {
        src_pan_at(s) + 2
    } else {
        src_pan_at(s)
    }
}

/// Size of the header
pub open spec fn header_len(s: Seq<u8>) -> int {
    src_addr_at(s) + addr_size(src_mode(s))
}

/// The bytes start with a header: neither addressing mode is the reserved
/// one, and the bytes hold every field the Frame Control field announces
pub open spec fn header_ok(s: Seq<u8>) -> bool {
    &&& s.len() >= 3
    &&& dest_mode(s) != 1
    &&& src_mode(s) != 1
    &&& header_len(s) <= s.len()
}

/// The address of a given mode at byte `at`
pub open spec fn addr_at(s: Seq<u8>, mode: int, at: int) -> Option<Addr> {
    if mode == MODE_SHORT {
        Some(Addr::Short(le16(s, at) as u16))
    } else if mode == MODE_EXTENDED {
        Some(Addr::Extended(le64(s, at) as u64))
    } else {
        None
    }
}

/// The header that the bytes start with
pub open spec fn header_of(s: Seq<u8>) -> Header {
    Header {
        frame_type: type_of_code(s[0] as int % 8),
        security_enabled: bit(s[0], 3),
        frame_pending: bit(s[0], 4),
        ack_request: bit(s[0], 5),
        intra_pan: bit(s[0], 6),
        sequence_number: s[2],
        dest_pan: if dest_mode(s) == MODE_NONE {
            None
        } else {
            Some(le16(s, 3) as u16)
        },
        dest: addr_at(s, dest_mode(s), 5),
        src_pan: if has_src_pan(s) {
            Some(le16(s, src_pan_at(s)) as u16)
        } else {
            None
        },
        src: addr_at(s, src_mode(s), src_addr_at(s)),
        len: header_len(s) as usize,
    }
}

/// An address as it stands in a header, least significant byte first
pub open spec fn addr_bytes(a: Addr) -> Seq<u8> {
    match a {
        Addr::Short(v) => seq![v as u8, (v >> 8u16) as u8],
        Addr::Extended(v) => seq![
            v as u8,
            (v >> 8u64) as u8,
            (v >> 16u64) as u8,
            (v >> 24u64) as u8,
            (v >> 32u64) as u8,
            (v >> 40u64) as u8,
            (v >> 48u64) as u8,
            (v >> 56u64) as u8,
        ],
    }
}

/// Addressing mode of an address
pub open spec fn mode_of(a: Addr) -> u8 {
    match a {
        Addr::Short(_) => MODE_SHORT,
        Addr::Extended(_) => MODE_EXTENDED,
    }
}

/// Header of an intra-PAN data frame without security, frame pending or
/// acknowledgement request: Frame Control, Sequence Number, Destination PAN
/// Identifier, Destination Address, Source Address
pub open spec fn data_header_bytes(pan_id: u16, src: Addr, dest: Addr, sequence_number: u8) -> Seq<u8> {
    seq![
        0x41u8,
        ((mode_of(dest) << 2u8) | (mode_of(src) << 6u8)) as u8,
        sequence_number,
        pan_id as u8,
        (pan_id >> 8u16) as u8,
    ] + addr_bytes(dest) + addr_bytes(src)
}

fn push_addr(v: &mut Vec<u8>, a: Addr)
    ensures
        final(v)@ == old(v)@ + addr_bytes(a),
{
    match a {
        Addr::Short(x) => {
            v.push(x as u8);
            v.push((x >> 8) as u8);
        },
        Addr::Extended(x) => {
            v.push(x as u8);
            v.push((x >> 8) as u8);
            v.push((x >> 16) as u8);
            v.push((x >> 24) as u8);
            v.push((x >> 32) as u8);
            v.push((x >> 40) as u8);
            v.push((x >> 48) as u8);
            v.push((x >> 56) as u8);
        },
    }
    assert(final(v)@ =~= old(v)@ + addr_bytes(a));
}

fn mode(a: Addr) -> (r: u8)
    ensures
        r == mode_of(a),
{
    match a {
        Addr::Short(_) => MODE_SHORT,
        Addr::Extended(_) => MODE_EXTENDED,
    }
}

/// Writes the header of a data frame from `src` to `dest` within the PAN
/// `pan_id`; the payload is to follow it
pub fn data_header(pan_id: u16, src: Addr, dest: Addr, sequence_number: u8) -> (r: Vec<u8>)
    ensures
        r@ == data_header_bytes(pan_id, src, dest, sequence_number),
{
    let mut v: Vec<u8> = Vec::new();
    v.push(0x41);
    v.push((mode(dest) << 2) | (mode(src) << 6));
    v.push(sequence_number);
    v.push(pan_id as u8);
    v.push((pan_id >> 8) as u8);
    push_addr(&mut v, dest);
    push_addr(&mut v, src);
    assert(v@ =~= data_header_bytes(pan_id, src, dest, sequence_number));
    v
}

fn read_le16(b: &[u8], at: usize) -> (r: u16)
    requires
        at + 2 <= b@.len(),
    ensures
        r as int == le16(b@, at as int),
{
    b[at] as u16 + 0x100 * b[at + 1] as u16
}

fn read_le64(b: &[u8], at: usize) -> (r: u64)
    requires
        at + 8 <= b@.len(),
    ensures
        r as int == le64(b@, at as int),
{
    // a slice's length fits in usize, so no offset below overflows
    assert(b@.len() == b.len());
    let a = read_le16(b, at) as u64;
    let c = read_le16(b, at + 2) as u64;
    let d = read_le16(b, at + 4) as u64;
    let e = read_le16(b, at + 6) as u64;
    a + 0x10000 * c + 0x1_0000_0000 * d + 0x1_0000_0000_0000 * e
}

fn read_addr(b: &[u8], mode: u8, at: usize) -> (r: Option<Addr>)
    requires
        at + addr_size(mode as int) <= b@.len(),
    ensures
        r == addr_at(b@, mode as int, at as int),
{
    if mode == MODE_SHORT {
        Some(Addr::Short(read_le16(b, at)))
    } else if mode == MODE_EXTENDED {
        Some(Addr::Extended(read_le64(b, at)))
    } else {
        None
    }
}

fn size_of_mode(mode: u8) -> (r: usize)
    ensures
        r as int == addr_size(mode as int),
{
    if mode == MODE_SHORT {
        2
    } else if mode == MODE_EXTENDED {
        8
    } else {
        0
    }
}

proof fn lemma_bits(b: u8)
    ensures
        (b & 7) as int == b as int % 8,
        ((b >> 2u8) & 3) as int == (b as int / 4) % 4,
        (b >> 6u8) as int == b as int / 64,
{
    assert((b & 7) == b % 8) by (bit_vector);
    assert((b >> 2u8) & 3 == (b / 4) % 4) by (bit_vector);
    assert(b >> 6u8 == b / 64) by (bit_vector);
}

proof fn lemma_addr_bytes(s: Seq<u8>, at: int, a: Addr)
    requires
        0 <= at,
        at + addr_size(mode_of(a) as int) <= s.len(),
        s.subrange(at, at + addr_size(mode_of(a) as int)) == addr_bytes(a),
    ensures
        addr_at(s, mode_of(a) as int, at) == Some(a),
{
    let b = addr_bytes(a);
    match a {
        Addr::Short(v) => {
            assert(s[at] == b[0] && s[at + 1] == b[1]);
            assert((v as u8) as u16 + 256u16 * ((v >> 8u16) as u8) as u16 == v) by (bit_vector);
        },
        Addr::Extended(v) => {
            assert(forall|i: int| 0 <= i < 8 ==> s[at + i] == #[trigger] b[i]);
            let b0 = v as u8;
            let b1 = (v >> 8u64) as u8;
            let b2 = (v >> 16u64) as u8;
            let b3 = (v >> 24u64) as u8;
            let b4 = (v >> 32u64) as u8;
            let b5 = (v >> 40u64) as u8;
            let b6 = (v >> 48u64) as u8;
            let b7 = (v >> 56u64) as u8;
            assert(v == b0 as u64 + 0x100u64 * b1 as u64 + 0x1_0000u64 * b2 as u64 + 0x100_0000u64
                * b3 as u64 + 0x1_0000_0000u64 * b4 as u64 + 0x100_0000_0000u64 * b5 as u64
                + 0x1_0000_0000_0000u64 * b6 as u64 + 0x100_0000_0000_0000u64 * b7 as u64)
                by (bit_vector)
                requires
                    b0 == v as u8,
                    b1 == (v >> 8u64) as u8,
                    b2 == (v >> 16u64) as u8,
                    b3 == (v >> 24u64) as u8,
                    b4 == (v >> 32u64) as u8,
                    b5 == (v >> 40u64) as u8,
                    b6 == (v >> 48u64) as u8,
                    b7 == (v >> 56u64) as u8,
            ;
        },
    }
}

/// The header that `data_header` writes parses back into a data frame
/// within one PAN, with the given addresses and sequence number
pub proof fn lemma_data_header_parses(pan_id: u16, src: Addr, dest: Addr, sequence_number: u8)
    ensures
        ({
            let s = data_header_bytes(pan_id, src, dest, sequence_number);
            &&& header_ok(s)
            &&& header_of(s) == (Header {
                frame_type: FrameType::Data,
                security_enabled: false,
                frame_pending: false,
                ack_request: false,
                intra_pan: true,
                sequence_number,
                dest_pan: Some(pan_id),
                dest: Some(dest),
                src_pan: None,
                src: Some(src),
                len: s.len() as usize,
            })
        }),
{
    let s = data_header_bytes(pan_id, src, dest, sequence_number);
    let dm = mode_of(dest);
    let sm = mode_of(src);
    let b1 = ((dm << 2u8) | (sm << 6u8)) as u8;
    assert(s[0] == 0x41u8 && s[1] == b1 && s[2] == sequence_number);
    assert((2 <= dm <= 3 && 2 <= sm <= 3) ==> ((b1 as int / 4) % 4 == dm && b1 as int / 64 == sm))
        by (bit_vector)
        requires
            b1 == ((dm << 2u8) | (sm << 6u8)) as u8,
    ;
    let b0 = s[0];
    assert(b0 == 0x41u8 ==> (b0 >> 6u8) & 1u8 == 1u8 && (b0 >> 3u8) & 1u8 == 0u8 && (b0 >> 4u8) & 1u8
        == 0u8 && (b0 >> 5u8) & 1u8 == 0u8) by (bit_vector);
    assert((pan_id as u8) as u16 + 256u16 * ((pan_id >> 8u16) as u8) as u16 == pan_id) by (bit_vector);
    let dsize = addr_size(dm as int);
    assert(s.subrange(5, 5 + dsize) =~= addr_bytes(dest));
    lemma_addr_bytes(s, 5, dest);
    assert(s.subrange(5 + dsize, 5 + dsize + addr_size(sm as int)) =~= addr_bytes(src));
    lemma_addr_bytes(s, 5 + dsize, src);
    assert(s.len() == 5 + dsize + addr_size(sm as int));
    assert(dest_mode(s) == dm && src_mode(s) == sm);
}

impl Header {
    /// Parses the header that the bytes start with; `None` where an
    /// addressing mode is the reserved one or the bytes end inside the header
    pub fn parse(b: &[u8]) -> (r: Option<Header>)
        ensures
            r is Some <==> header_ok(b@),
            r matches Some(h) ==> h == header_of(b@),
    {
        if b.len() < 3 {
            return None;
        }
        let b0 = b[0];
        let b1 = b[1];
        proof {
            lemma_bits(b0);
            lemma_bits(b1);
        }
        let dmode = (b1 >> 2) & 3;
        let smode = b1 >> 6;
        if dmode == 1 || smode == 1 {
            return None;
        }
        let intra_pan = (b0 >> 6) & 1 == 1;
        let code = b0 & 7;
        let frame_type = if code == 0 {
            FrameType::Beacon
        } else if code == 1 {
            FrameType::Data
        } else if code == 2 {
            FrameType::Acknowledgement
        } else if code == 3 {
            FrameType::MacCommand
        } else {
            FrameType::Reserved
        };
        let src_pan_at: usize = if dmode == MODE_NONE {
            3
        } else {
            5 + size_of_mode(dmode)
        };
        let has_src_pan = smode != MODE_NONE && !intra_pan;
        let src_addr_at: usize = if has_src_pan {
            src_pan_at + 2
        } else {
            src_pan_at
        };
        let len = src_addr_at + size_of_mode(smode);
        if len > b.len() {
            return None;
        }
        let (dest_pan, dest) = if dmode == MODE_NONE {
            (None, None)
        } else {
            (Some(read_le16(b, 3)), read_addr(b, dmode, 5))
        };
        let src_pan = if has_src_pan {
            Some(read_le16(b, src_pan_at))
        } else {
            None
        };
        let h = Header {
            frame_type,
            security_enabled: (b0 >> 3) & 1 == 1,
            frame_pending: (b0 >> 4) & 1 == 1,
            ack_request: (b0 >> 5) & 1 == 1,
            intra_pan,
            sequence_number: b[2],
            dest_pan,
            dest,
            src_pan,
            src: read_addr(b, smode, src_addr_at),
            len,
        };
        Some(h)
    }
}

} // verus!
