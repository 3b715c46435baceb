//! Internet checksum over an IPv6 pseudo-header, and big-endian fields

use vstd::prelude::*;

use byteorder::{ByteOrder, NetworkEndian as NE};

use crate::ipv6::{word, words_sum, Addr};

verus! {

/// Big-endian 16-bit value stored at bytes `at` and `at + 1`
pub open spec fn be16(s: Seq<u8>, at: int) -> int {
    s[at] as int * 256 + s[at + 1] as int
}

/// `s` with the big-endian 16-bit value `v` stored at bytes `at` and `at + 1`
pub open spec fn with_be16(s: Seq<u8>, at: int, v: u16) -> Seq<u8> {
    s.update(at, (v / 256) as u8).update(at + 1, (v % 256) as u8)
}

/// Writing back the value that a field holds changes nothing
pub proof fn lemma_with_be16_same(s: Seq<u8>, at: int)
    requires
        0 <= at && at + 1 < s.len(),
    ensures
        with_be16(s, at, be16(s, at) as u16) == s,
{
    let v = be16(s, at);
    let hi = s[at] as int;
    let lo = s[at + 1] as int;
    assert(v / 256 == hi && v % 256 == lo) by (nonlinear_arith)
        requires
            v == hi * 256 + lo,
            0 <= hi < 256,
            0 <= lo < 256,
    ;
    assert(with_be16(s, at, v as u16) =~= s);
}

/// A field reads back the value that was written into it
pub proof fn lemma_be16_of_with(s: Seq<u8>, at: int, v: u16)
    requires
        0 <= at && at + 1 < s.len(),
    ensures
        be16(with_be16(s, at, v), at) == v,
        with_be16(s, at, v).len() == s.len(),
{
    let w = with_be16(s, at, v);
    assert(w[at] as int == v / 256 && w[at + 1] as int == v % 256);
    assert((v / 256) * 256 + v % 256 == v) by (nonlinear_arith);
}


/// The 16-bit word at index `i` of a segment; a lone final byte is the high
/// octet of its word
pub open spec fn segment_word(s: Seq<u8>, i: int) -> int {
    if 2 * i + 1 < s.len() {
        word(s, i)
    } else {
        s[2 * i] as int * 256
    }
}

/// Number of 16-bit words that a segment is summed as
pub open spec fn n_words(s: Seq<u8>) -> nat {
    ((s.len() + 1) / 2) as nat
}

/// Sum of the first `n` words of a segment, the word that holds the
/// checksum itself (`skip`) counted as zero
pub open spec fn segment_sum(s: Seq<u8>, n: nat, skip: int) -> int
    decreases n,
{
    if n == 0 {
        0
    } else {
        segment_sum(s, (n - 1) as nat, skip) + if n - 1 == skip {
            0
        } else {
            segment_word(s, n - 1)
        }
    }
}

/// Sum of the IPv6 pseudo-header: both addresses, the two halves of the
/// 32-bit upper-layer length and the next-header value
pub open spec fn pseudo_header_sum(src: Seq<u8>, dest: Seq<u8>, len: nat, next_header: u8) -> int {
    words_sum(src, 8) + words_sum(dest, 8) + len / 0x10000 + len % 0x10000 + next_header
}

/// Adds the carries above the low 16 bits back in, until there are none
pub open spec fn fold_carries(x: int) -> int
    decreases x,
    via fold_carries_decreases
{
    if x < 0x10000 {
        x
    } else {
        fold_carries(x % 0x10000 + x / 0x10000)
    }
}

#[via_fn]
proof fn fold_carries_decreases(x: int) {
    if x >= 0x10000 {
        assert(0 <= x % 0x10000 + x / 0x10000 < x) by (nonlinear_arith)
            requires
                x >= 0x10000,
        ;
    }
}

/// Internet checksum of a segment between two addresses: the ones'
/// complement of the folded sum of the pseudo-header and of the segment, with
/// the checksum word `skip` counted as zero
pub open spec fn internet_checksum(
    s: Seq<u8>,
    src: Seq<u8>,
    dest: Seq<u8>,
    next_header: u8,
    skip: int,
) -> u16 {
    (0xffff - fold_carries(
        pseudo_header_sum(src, dest, s.len(), next_header) + segment_sum(s, n_words(s), skip),
    )) as u16
}

proof fn lemma_word_bound(s: Seq<u8>, i: int)
    requires
        0 <= 2 * i && 2 * i + 1 < s.len(),
    ensures
        0 <= word(s, i) <= 0xffff,
{
}

proof fn lemma_words_sum_bound(s: Seq<u8>, n: nat)
    requires
        2 * n <= s.len(),
    ensures
        0 <= words_sum(s, n) <= 0xffff * n,
    decreases n,
{
    if n > 0 {
        lemma_words_sum_bound(s, (n - 1) as nat);
        lemma_word_bound(s, n - 1);
    }
}

proof fn lemma_segment_sum_bound(s: Seq<u8>, n: nat, skip: int)
    requires
        n <= n_words(s),
    ensures
        0 <= segment_sum(s, n, skip) <= 0xffff * n,
    decreases n,
{
    if n > 0 {
        lemma_segment_sum_bound(s, (n - 1) as nat, skip);
    }
}

/// The sum does not read the checksum word
pub proof fn lemma_segment_sum_skips_checksum(s: Seq<u8>, t: Seq<u8>, n: nat, skip: int)
    requires
        s.len() == t.len(),
        n <= n_words(s),
        forall|j: int| 0 <= j < s.len() && j != 2 * skip && j != 2 * skip + 1 ==> s[j] == t[j],
    ensures
        segment_sum(s, n, skip) == segment_sum(t, n, skip),
    decreases n,
{
    if n > 0 {
        lemma_segment_sum_skips_checksum(s, t, (n - 1) as nat, skip);
    }
}

/// Relies on byteorder's `NetworkEndian::read_u16`: the first two bytes of
/// the slice it is given, most significant first.
#[verifier::external_body]
pub(crate) fn read_be16(buf: &[u8], at: usize) -> (r: u16)
    requires
        at + 2 <= buf@.len(),
    ensures
        r as int == be16(buf@, at as int),
{
    NE::read_u16(&buf[at..])
}

/// Relies on byteorder's `NetworkEndian::write_u16`: stores the value in the
/// first two bytes of the slice it is given, most significant first, and
/// writes nothing else.
#[verifier::external_body]
pub(crate) fn write_be16(buf: &mut Vec<u8>, at: usize, n: u16)
    requires
        at + 2 <= old(buf)@.len(),
    ensures
        final(buf)@ == with_be16(old(buf)@, at as int, n),
{
    NE::write_u16(&mut buf[at..], n)
}


/// Internet checksum of a segment over the IPv6 pseudo-header, the word at
/// index `checksum_word` counted as zero
pub fn compute(seg: &[u8], checksum_word: usize, src: &Addr, dest: &Addr, next_header: u8) -> (r: u16)
    requires
        seg@.len() <= u32::MAX,
    ensures
        r == internet_checksum(seg@, src.0@, dest.0@, next_header, checksum_word as int),
{
    let mut sum: u64 = 0;

    // Pseudo-header
    let mut i: usize = 0;
    while i < 8
        invariant
            i <= 8,
            sum == words_sum(src.0@, i as nat),
        decreases 8 - i,
    {
        proof {
            lemma_words_sum_bound(src.0@, i as nat);
            lemma_word_bound(src.0@, i as int);
        }
        sum = sum + read_be16(src.0.as_slice(), 2 * i) as u64;
        i = i + 1;
    }
    let mut i: usize = 0;
    while i < 8
        invariant
            i <= 8,
            sum == words_sum(src.0@, 8) + words_sum(dest.0@, i as nat),
        decreases 8 - i,
    {
        proof {
            lemma_words_sum_bound(src.0@, 8);
            lemma_words_sum_bound(dest.0@, i as nat);
            lemma_word_bound(dest.0@, i as int);
        }
        sum = sum + read_be16(dest.0.as_slice(), 2 * i) as u64;
        i = i + 1;
    }
    proof {
        lemma_words_sum_bound(src.0@, 8);
        lemma_words_sum_bound(dest.0@, 8);
    }

    let len = seg.len() as u64;
    assert(len >> 16u64 == len / 0x10000) by (bit_vector);
    assert(len & 0xffffu64 == len % 0x10000) by (bit_vector);
    sum = sum + (len >> 16);
    sum = sum + (len & 0xffff);
    sum = sum + next_header as u64;
    let ghost pseudo = sum as int;
    assert(pseudo == pseudo_header_sum(src.0@, dest.0@, seg@.len(), next_header));

    // UDP message
    let nwords = seg.len() / 2 + seg.len() % 2;
    let mut k: usize = 0;
    while k < nwords
        invariant
            k <= nwords,
            nwords == n_words(seg@),
            seg@.len() <= u32::MAX,
            pseudo <= 0x200000,
            sum == pseudo + segment_sum(seg@, k as nat, checksum_word as int),
        decreases nwords - k,
    {
        proof {
            lemma_segment_sum_bound(seg@, k as nat, checksum_word as int);
        }
        if k != checksum_word {
            if 2 * k + 1 < seg.len() {
                proof {
                    lemma_word_bound(seg@, k as int);
                }
                sum = sum + read_be16(seg, 2 * k) as u64;
            } else {
                let b = seg[2 * k] as u64;
                assert(b < 256 ==> b << 8u64 == b * 256) by (bit_vector);
                sum = sum + (b << 8);
            }
        }
        k = k + 1;
    }

    // fold carry-over
    let ghost total = sum as int;
    while sum >> 16 != 0
        invariant
            fold_carries(sum as int) == fold_carries(total),
        decreases sum,
    {
        let s = sum;
        assert(s >> 16u64 == s / 0x10000) by (bit_vector);
        assert(s & 0xffffu64 == s % 0x10000) by (bit_vector);
        assert(s >> 16u64 != 0 ==> (s & 0xffffu64) + (s >> 16u64) < s) by (bit_vector);
        sum = (sum & 0xffff) + (sum >> 16);
    }
    let s = sum;
    assert(s >> 16u64 == 0 ==> s < 0x10000) by (bit_vector);
    assert(s < 0x10000 ==> !(s as u16) == (0xffff - s) as u16) by (bit_vector);
    !(sum as u16)
}


} // verus!
