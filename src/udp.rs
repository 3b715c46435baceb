//! UDP: User Datagram Protocol

use vstd::prelude::*;
use vstd::slice::slice_subrange;

use crate::checksum::{
    be16, internet_checksum, lemma_be16_of_with, lemma_segment_sum_skips_checksum,
    lemma_with_be16_same, n_words, read_be16, with_be16, write_be16,
};
use crate::ipv6::Addr;

verus! {

/// Offset of the Source (port) field
pub const SOURCE: usize = 0;

/// Offset of the Destination (port) field
pub const DESTINATION: usize = 2;

/// Offset of the Length field
pub const LENGTH: usize = 4;

/// Offset of the Checksum field
pub const CHECKSUM: usize = 6;

/// Size of the UDP header
pub const HEADER_SIZE: u8 = 8;

/// Largest value of the Length field
pub const MAX_LENGTH: u16 = 0xffff;

/// Source (port) field of a segment
pub open spec fn source_of(s: Seq<u8>) -> int {
    be16(s, 0)
}

/// Destination (port) field of a segment
pub open spec fn destination_of(s: Seq<u8>) -> int {
    be16(s, 2)
}

/// Length field of a segment
pub open spec fn length_of(s: Seq<u8>) -> int {
    be16(s, 4)
}

/// Checksum field of a segment
pub open spec fn checksum_field_of(s: Seq<u8>) -> int {
    be16(s, 6)
}

/// The bytes hold a whole header, and a Length field that covers the header
/// and stays within the bytes
pub open spec fn is_valid(s: Seq<u8>) -> bool {
    &&& s.len() >= HEADER_SIZE
    &&& HEADER_SIZE <= length_of(s) <= s.len()
}

/// Everything beyond the header
pub open spec fn payload_of(s: Seq<u8>) -> Seq<u8> {
    s.subrange(HEADER_SIZE as int, s.len() as int)
}

/// Next Header value of UDP in the IPv6 pseudo-header
pub const NEXT_HEADER: u8 = 17;

/// Internet checksum of a UDP segment between two addresses
pub open spec fn checksum_of(s: Seq<u8>, src: Addr, dest: Addr) -> u16 {
    internet_checksum(s, src.0@, dest.0@, NEXT_HEADER, CHECKSUM as int / 2)
}

/// A segment whose Checksum field matches its content
pub open spec fn checksum_ok(s: Seq<u8>, src: Addr, dest: Addr) -> bool {
    checksum_field_of(s) == checksum_of(s, src, dest) as int
}

/// The bytes that `Packet::new` makes of a buffer: at most `0xffff` of them,
/// with a zero Checksum and the Length field set to their number
pub open spec fn new_bytes(b: Seq<u8>) -> Seq<u8> {
    let n = if b.len() <= MAX_LENGTH { b.len() } else { MAX_LENGTH as nat };
    with_be16(with_be16(b.subrange(0, n as int), CHECKSUM as int, 0), LENGTH as int, n as u16)
}

/// The bytes of a packet whose payload was cut to `len` bytes
pub open spec fn truncated(s: Seq<u8>, len: int) -> Seq<u8> {
    with_be16(s.subrange(0, HEADER_SIZE + len), LENGTH as int, (HEADER_SIZE + len) as u16)
}

/// The bytes of a packet whose payload was replaced by `data`
pub open spec fn with_payload(s: Seq<u8>, data: Seq<u8>) -> Seq<u8> {
    truncated(s, data.len() as int).subrange(0, HEADER_SIZE as int) + data
}

/// UDP packet
pub struct Packet {
    buffer: Vec<u8>,
}

impl View for Packet {
    type V = Seq<u8>;

    /// The visible bytes of the packet, header first
    closed spec fn view(&self) -> Seq<u8> {
        self.buffer@
    }
}

impl Packet {
    /// A packet always holds a valid header
    pub open spec fn wf(&self) -> bool {
        is_valid(self@)
    }

    /* Constructors */
    /// Parses the bytes as an UDP packet; hands the bytes back unchanged where
    /// they are too short for the header or the Length field is out of range
    pub fn parse(bytes: Vec<u8>) -> (r: Result<Packet, Vec<u8>>)
        ensures
            r is Ok <==> is_valid(bytes@),
            r matches Ok(p) ==> p@ == bytes@ && p.wf(),
            r matches Err(b) ==> b@ == bytes@,
    {
        let nbytes = bytes.len();
        if nbytes < HEADER_SIZE as usize {
            return Err(bytes);
        }
        let packet = Packet { buffer: bytes };
        let len = packet.get_length();
        if len < HEADER_SIZE as u16 || len as usize > nbytes {
            Err(packet.buffer)
        } else {
            Ok(packet)
        }
    }

    /* Getters */
    /// Returns the Source (port) field of the header
    pub fn get_source(&self) -> (r: u16)
        requires
            self@.len() >= HEADER_SIZE,
        ensures
            r as int == source_of(self@),
    {
        read_be16(self.buffer.as_slice(), SOURCE)
    }

    /// Returns the Destination (port) field of the header
    pub fn get_destination(&self) -> (r: u16)
        requires
            self@.len() >= HEADER_SIZE,
        ensures
            r as int == destination_of(self@),
    {
        read_be16(self.buffer.as_slice(), DESTINATION)
    }

    /// Returns the Length field of the header
    pub fn get_length(&self) -> (r: u16)
        requires
            self@.len() >= HEADER_SIZE,
        ensures
            r as int == length_of(self@),
    {
        read_be16(self.buffer.as_slice(), LENGTH)
    }

    /// Returns the Checksum field of the header
    pub fn get_checksum(&self) -> (r: u16)
        requires
            self@.len() >= HEADER_SIZE,
        ensures
            r as int == checksum_field_of(self@),
    {
        read_be16(self.buffer.as_slice(), CHECKSUM)
    }

    /// Returns the length (header + data) of this packet
    pub fn len(&self) -> (r: u16)
        requires
            self.wf(),
        ensures
            r as int == length_of(self@),
    {
        self.get_length()
    }

    /* Miscellaneous */
    /// View into the payload
    pub fn payload(&self) -> (r: &[u8])
        requires
            self.wf(),
        ensures
            r@ == payload_of(self@),
    {
        slice_subrange(self.buffer.as_slice(), HEADER_SIZE as usize, self.buffer.len())
    }

    /// Returns the byte representation of this UDP packet
    pub fn as_bytes(&self) -> (r: &[u8])
        ensures
            r@ == self@,
    {
        self.buffer.as_slice()
    }

    /// Internet checksum of the whole packet over the IPv6 pseudo-header
    fn compute_checksum(&self, src: Addr, dest: Addr) -> (r: u16)
        requires
            self@.len() <= u32::MAX,
        ensures
            r == checksum_of(self@, src, dest),
    {
        crate::checksum::compute(self.buffer.as_slice(), CHECKSUM / 2, &src, &dest, NEXT_HEADER)
    }

    /// Verifies the Checksum field against the content between two addresses
    pub fn verify_ipv6_checksum(&self, src: Addr, dest: Addr) -> (r: bool)
        requires
            self.wf(),
            self@.len() <= u32::MAX,
        ensures
            r == checksum_ok(self@, src, dest),
    {
        self.compute_checksum(src, dest) == self.get_checksum()
    }

    fn payload_len(&self) -> (r: u16)
        requires
            self.wf(),
        ensures
            r as int == length_of(self@) - HEADER_SIZE,
    {
        self.get_length() - HEADER_SIZE as u16
    }

    /* Setters */
    /// Sets the Source (port) field of the header
    pub fn set_source(&mut self, port: u16)
        requires
            old(self).wf(),
        ensures
            final(self)@ == with_be16(old(self)@, SOURCE as int, port),
            final(self).wf(),
    {
        write_be16(&mut self.buffer, SOURCE, port)
    }

    /// Sets the Destination (port) field of the header
    pub fn set_destination(&mut self, port: u16)
        requires
            old(self).wf(),
        ensures
            final(self)@ == with_be16(old(self)@, DESTINATION as int, port),
            final(self).wf(),
    {
        write_be16(&mut self.buffer, DESTINATION, port)
    }

    fn set_length(&mut self, len: u16)
        requires
            old(self)@.len() >= HEADER_SIZE,
        ensures
            final(self)@ == with_be16(old(self)@, LENGTH as int, len),
    {
        write_be16(&mut self.buffer, LENGTH, len)
    }

    /// Zeroes the Checksum field of the header
    pub fn zero_checksum(&mut self)
        requires
            old(self).wf(),
        ensures
            final(self)@ == with_be16(old(self)@, CHECKSUM as int, 0),
            final(self).wf(),
    {
        self.set_checksum(0);
    }

    fn set_checksum(&mut self, checksum: u16)
        requires
            old(self)@.len() >= HEADER_SIZE,
        ensures
            final(self)@ == with_be16(old(self)@, CHECKSUM as int, checksum),
    {
        write_be16(&mut self.buffer, CHECKSUM, checksum)
    }

    /// Recomputes and updates the Checksum field
    pub fn update_ipv6_checksum(&mut self, src: Addr, dest: Addr)
        requires
            old(self).wf(),
            old(self)@.len() <= u32::MAX,
        ensures
            final(self)@ == with_be16(old(self)@, CHECKSUM as int, checksum_of(old(self)@, src, dest)),
            final(self).wf(),
    {
        let cksum = self.compute_checksum(src, dest);
        self.set_checksum(cksum)
    }

    /* Constructors */
    /// Transforms the given buffer into an UDP packet that spans the whole
    /// buffer (at most `0xffff` bytes of it), with the Checksum field zeroed;
    /// hands the buffer back unchanged where it cannot hold the header
    pub fn new(buffer: Vec<u8>) -> (r: Result<Packet, Vec<u8>>)
        ensures
            r is Err <==> buffer@.len() < HEADER_SIZE,
            r matches Ok(p) ==> p@ == new_bytes(buffer@) && p.wf() && p@.len() == length_of(p@),
            r matches Err(b) ==> b@ == buffer@,
    {
        let mut buffer = buffer;
        if buffer.len() < HEADER_SIZE as usize {
            return Err(buffer);
        }
        let len: u16 = if buffer.len() <= MAX_LENGTH as usize {
            buffer.len() as u16
        } else {
            MAX_LENGTH
        };
        buffer.truncate(len as usize);
        let mut packet = Packet { buffer };
        packet.set_checksum(0);
        packet.set_length(len);
        Ok(packet)
    }

    /// Fills the payload with the given data and adjusts the length of the
    /// packet; `None`, with nothing changed, where the data is longer than the
    /// current payload
    pub fn set_payload(&mut self, data: &[u8]) -> (r: Option<()>)
        requires
            old(self).wf(),
        ensures
            r is None <==> data@.len() > length_of(old(self)@) - HEADER_SIZE,
            r is None ==> final(self)@ == old(self)@,
            r is Some ==> final(self)@ == with_payload(old(self)@, data@),
            final(self).wf(),
    {
        if data.len() > MAX_LENGTH as usize {
            return None;
        }
        let len = data.len() as u16;
        if self.payload_len() < len {
            return None;
        }
        self.truncate(len);
        let total = HEADER_SIZE as usize + len as usize;
        self.buffer.truncate(total);
        let ghost start = self@;
        proof {
            if len as int == length_of(old(self)@) - HEADER_SIZE {
                lemma_with_be16_same(old(self)@.subrange(0, total as int), LENGTH as int);
            }
            assert(start.subrange(0, HEADER_SIZE as int) =~= truncated(
                old(self)@,
                len as int,
            ).subrange(0, HEADER_SIZE as int));
        }
        let mut i: usize = 0;
        while i < data.len()
            invariant
                i <= data@.len(),
                total == HEADER_SIZE + data@.len(),
                self@.len() == total,
                forall|j: int| 0 <= j < HEADER_SIZE ==> self@[j] == start[j],
                forall|j: int| 0 <= j < i ==> self@[HEADER_SIZE + j] == data@[j],
            decreases data@.len() - i,
        {
            self.buffer.set(HEADER_SIZE as usize + i, data[i]);
            i = i + 1;
        }
        assert(self@ =~= with_payload(old(self)@, data@));
        Some(())
    }

    /// Truncates the *payload* to the specified length; a length at or above
    /// the current payload's changes nothing
    pub fn truncate(&mut self, len: u16)
        requires
            old(self).wf(),
        ensures
            len < length_of(old(self)@) - HEADER_SIZE ==> final(self)@ == truncated(
                old(self)@,
                len as int,
            ),
            len >= length_of(old(self)@) - HEADER_SIZE ==> final(self)@ == old(self)@,
            final(self)@.len() <= old(self)@.len(),
            length_of(final(self)@) <= length_of(old(self)@),
            final(self).wf(),
    {
        if len < self.payload_len() {
            let total_len = len + HEADER_SIZE as u16;
            self.buffer.truncate(total_len as usize);
            self.set_length(total_len);
        }
    }
}


/// Updating the Checksum field and then verifying it succeeds, for any
/// segment and any two addresses
pub proof fn lemma_checksum_round_trip(s: Seq<u8>, src: Addr, dest: Addr)
    requires
        s.len() >= HEADER_SIZE,
    ensures
        checksum_ok(with_be16(s, CHECKSUM as int, checksum_of(s, src, dest)), src, dest),
{
    let c = checksum_of(s, src, dest);
    let u = with_be16(s, CHECKSUM as int, c);
    lemma_segment_sum_skips_checksum(s, u, n_words(s), CHECKSUM as int / 2);
    lemma_be16_of_with(s, CHECKSUM as int, c);
}

/// Bytes that `Packet::new` made of a buffer, with both ports and the payload
/// then set, parse back into those ports, a Length field of header plus
/// payload, and that payload
pub proof fn lemma_parse_constructed(buf: Seq<u8>, source: u16, destination: u16, data: Seq<u8>)
    requires
        HEADER_SIZE + data.len() <= buf.len(),
        HEADER_SIZE + data.len() <= MAX_LENGTH,
    ensures
        ({
            let s = with_payload(
                with_be16(with_be16(new_bytes(buf), SOURCE as int, source), DESTINATION as int, destination),
                data,
            );
            &&& is_valid(s)
            &&& source_of(s) == source
            &&& destination_of(s) == destination
            &&& length_of(s) == HEADER_SIZE + data.len()
            &&& payload_of(s) == data
        }),
{
    let n = if buf.len() <= MAX_LENGTH { buf.len() } else { MAX_LENGTH as nat };
    let b0 = buf.subrange(0, n as int);
    let b1 = with_be16(b0, CHECKSUM as int, 0);
    let b2 = with_be16(b1, LENGTH as int, n as u16);
    let b3 = with_be16(b2, SOURCE as int, source);
    let b4 = with_be16(b3, DESTINATION as int, destination);
    lemma_be16_of_with(b2, SOURCE as int, source);
    lemma_be16_of_with(b3, DESTINATION as int, destination);
    let len = HEADER_SIZE + data.len();
    let t = truncated(b4, data.len() as int);
    lemma_be16_of_with(b4.subrange(0, len), LENGTH as int, len as u16);
    let s = with_payload(b4, data);
    assert(s.subrange(0, HEADER_SIZE as int) =~= t.subrange(0, HEADER_SIZE as int));
    assert(be16(s, 0) == be16(b3, 0));
    assert(be16(s, 2) == be16(b4, 2));
    assert(be16(s, 4) == be16(t, 4));
    assert(payload_of(s) =~= data);
}

} // verus!
