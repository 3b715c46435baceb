//! IPv6 addresses

use vstd::prelude::*;

use crate::ieee802154;

verus! {

/// IPv6 address, in network byte order
#[derive(Clone, Copy, Debug)]
pub struct Addr(pub [u8; 16]);

impl PartialEq for Addr {
    fn eq(&self, other: &Addr) -> (r: bool) {
        let mut i: usize = 0;
        while i < 16
            invariant
                i <= 16,
                forall|j: int| 0 <= j < i ==> self.0@[j] == other.0@[j],
            decreases 16 - i,
        {
            if self.0[i] != other.0[i] {
                return false;
            }
            i = i + 1;
        }
        assert(self.0@ =~= other.0@);
        true
    }
}

impl vstd::std_specs::cmp::PartialEqSpecImpl for Addr {
    open spec fn obeys_eq_spec() -> bool {
        true
    }

    open spec fn eq_spec(&self, other: &Addr) -> bool {
        self.0@ == other.0@
    }
}

impl Eq for Addr {}

/// Big-endian value of the 16-bit word that starts at byte `2 * i`
pub open spec fn word(s: Seq<u8>, i: int) -> int {
    s[2 * i] as int * 256 + s[2 * i + 1] as int
}

/// Sum of the first `n` 16-bit words of `s`
pub open spec fn words_sum(s: Seq<u8>, n: nat) -> int
    decreases n,
{
    if n == 0 {
        0
    } else {
        words_sum(s, (n - 1) as nat) + word(s, n - 1)
    }
}

/// Two addresses with the same bytes are the same address
pub proof fn lemma_addr_eq(a: Addr, b: Addr)
    requires
        a.0@ == b.0@,
    ensures
        a == b,
{
    assert(a.0 =~= b.0);
}

/// Bytes of the link-local address that RFC 4944 derives from a link-layer
/// address: the `fe80::/64` prefix, then the EUI-64 with its universal/local
/// bit inverted, or `0000:00ff:fe00:XXXX` around a short address
pub open spec fn link_local_bytes(ll: ieee802154::Addr) -> Seq<u8> {
    match ll {
        ieee802154::Addr::Extended(e) => seq![
            0xfeu8, 0x80u8, 0u8, 0u8, 0u8, 0u8, 0u8, 0u8,
            ((e >> 56u64) as u8) ^ 0x02u8,
            (e >> 48u64) as u8,
            (e >> 40u64) as u8,
            (e >> 32u64) as u8,
            (e >> 24u64) as u8,
            (e >> 16u64) as u8,
            (e >> 8u64) as u8,
            e as u8,
        ],
        ieee802154::Addr::Short(a) => seq![
            0xfeu8, 0x80u8, 0u8, 0u8, 0u8, 0u8, 0u8, 0u8,
            0u8, 0u8, 0u8, 0xffu8, 0xfeu8, 0u8,
            (a >> 8u16) as u8,
            a as u8,
        ],
    }
}

impl Addr {
    /// The link-local address derived from a link-layer address
    pub fn link_local(ll: ieee802154::Addr) -> (r: Addr)
        ensures
            r.0@ == link_local_bytes(ll),
    {
        let r = match ll {
            ieee802154::Addr::Extended(e) => Addr(
                [
                    0xfe,
                    0x80,
                    0,
                    0,
                    0,
                    0,
                    0,
                    0,
                    ((e >> 56) as u8) ^ 0x02,
                    (e >> 48) as u8,
                    (e >> 40) as u8,
                    (e >> 32) as u8,
                    (e >> 24) as u8,
                    (e >> 16) as u8,
                    (e >> 8) as u8,
                    e as u8,
                ],
            ),
            ieee802154::Addr::Short(a) => Addr(
                [0xfe, 0x80, 0, 0, 0, 0, 0, 0, 0, 0, 0, 0xff, 0xfe, 0, (a >> 8) as u8, a as u8],
            ),
        };
        assert(r.0@ =~= link_local_bytes(ll));
        r
    }

    /// `::`
    pub open spec fn spec_is_unspecified(self) -> bool {
        forall|i: int| 0 <= i < 16 ==> #[trigger] self.0@[i] == 0
    }

    /// `fe80::/10`
    pub open spec fn spec_is_link_local(self) -> bool {
        self.0@[0] == 0xfe && (self.0@[1] & 0xc0) == 0x80
    }

    /// `ff02::1:ff00:0/104`
    pub open spec fn spec_is_solicited_node(self) -> bool {
        &&& self.0@[0] == 0xff
        &&& self.0@[1] == 0x02
        &&& forall|i: int| 2 <= i < 11 ==> #[trigger] self.0@[i] == 0
        &&& self.0@[11] == 0x01
        &&& self.0@[12] == 0xff
    }

    /// Is this the unspecified address (`::`)?
    pub fn is_unspecified(&self) -> (r: bool)
        ensures
            r == self.spec_is_unspecified(),
    {
        let mut i: usize = 0;
        while i < 16
            invariant
                i <= 16,
                forall|j: int| 0 <= j < i ==> #[trigger] self.0@[j] == 0,
            decreases 16 - i,
        {
            if self.0[i] != 0 {
                return false;
            }
            i = i + 1;
        }
        true
    }

    /// Is this a link-local unicast address (`fe80::/10`)?
    pub fn is_link_local(&self) -> (r: bool)
        ensures
            r == self.spec_is_link_local(),
    {
        self.0[0] == 0xfe && (self.0[1] & 0xc0) == 0x80
    }

    /// Is this a solicited-node multicast address (`ff02::1:ffXX:XXXX`)?
    pub fn is_solicited_node(&self) -> (r: bool)
        ensures
            r == self.spec_is_solicited_node(),
    {
        if self.0[0] != 0xff || self.0[1] != 0x02 || self.0[11] != 0x01 || self.0[12] != 0xff {
            return false;
        }
        let mut i: usize = 2;
        while i < 11
            invariant
                2 <= i <= 11,
                forall|j: int| 2 <= j < i ==> #[trigger] self.0@[j] == 0,
            decreases 11 - i,
        {
            if self.0[i] != 0 {
                return false;
            }
            i = i + 1;
        }
        true
    }
}

} // verus!
