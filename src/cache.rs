//! Fixed-capacity neighbor cache: network-layer to link-layer addresses

use vstd::prelude::*;

use crate::ieee802154;
use crate::ipv6;

verus! {

/// Number of entries in the node's neighbor cache
pub const CACHE_SIZE: usize = 8;

/// Map from IPv6 addresses to link-layer addresses with a capacity fixed at
/// construction; a full cache refuses new keys and never evicts
pub struct NeighborCache {
    entries: Vec<(ipv6::Addr, ieee802154::Addr)>,
    capacity: usize,
    contents: Ghost<Map<ipv6::Addr, ieee802154::Addr>>,
}

/// The cache was full: the key was not stored
#[derive(Clone, Copy, Debug, PartialEq, Eq, Structural)]
pub struct CacheFull;

/// The cache contents after storing `value` for `key`: the pair is stored,
/// overwriting the key's old value, unless the key is new and the cache full
pub open spec fn inserted(
    m: Map<ipv6::Addr, ieee802154::Addr>,
    capacity: nat,
    key: ipv6::Addr,
    value: ieee802154::Addr,
) -> Map<ipv6::Addr, ieee802154::Addr> {
    if !m.contains_key(key) && m.len() >= capacity {
        m
    } else {
        m.insert(key, value)
    }
}

/// A full cache refuses a new key and keeps every entry it had
pub proof fn lemma_full_cache_refuses(
    m: Map<ipv6::Addr, ieee802154::Addr>,
    capacity: nat,
    key: ipv6::Addr,
    value: ieee802154::Addr,
)
    requires
        m.len() >= capacity,
        !m.contains_key(key),
    ensures
        inserted(m, capacity, key, value) == m,
{
}

/// The cache contents after storing the pairs one after the other
pub open spec fn inserted_all(
    m: Map<ipv6::Addr, ieee802154::Addr>,
    capacity: nat,
    pairs: Seq<(ipv6::Addr, ieee802154::Addr)>,
) -> Map<ipv6::Addr, ieee802154::Addr>
    decreases pairs.len(),
{
    if pairs.len() == 0 {
        m
    } else {
        inserted(
            inserted_all(m, capacity, pairs.drop_last()),
            capacity,
            pairs.last().0,
            pairs.last().1,
        )
    }
}

/// Storing more distinct keys than the capacity in an empty cache keeps the
/// first `capacity` pairs, each with its value, refuses the others, and
/// evicts nothing
pub proof fn lemma_fill_beyond_capacity(
    capacity: nat,
    pairs: Seq<(ipv6::Addr, ieee802154::Addr)>,
)
    requires
        forall|i: int, j: int| 0 <= i < j < pairs.len() ==> pairs[i].0 != pairs[j].0,
    ensures
        ({
            let m = inserted_all(Map::empty(), capacity, pairs);
            &&& m.dom().finite()
            &&& m.len() == if pairs.len() < capacity {
                pairs.len()
            } else {
                capacity
            }
            &&& forall|i: int|
                0 <= i < pairs.len() && i < capacity ==> #[trigger] m.contains_key(pairs[i].0)
                    && m[pairs[i].0] == pairs[i].1
            &&& forall|i: int|
                0 <= i < pairs.len() && i >= capacity ==> !#[trigger] m.contains_key(pairs[i].0)
            &&& forall|k: ipv6::Addr|
                #[trigger] m.contains_key(k) ==> exists|i: int|
                    0 <= i < pairs.len() && i < capacity && #[trigger] pairs[i].0 == k
        }),
    decreases pairs.len(),
{
    if pairs.len() > 0 {
        let p = pairs.drop_last();
        lemma_fill_beyond_capacity(capacity, p);
        let m0 = inserted_all(Map::empty(), capacity, p);
        let n = pairs.len() - 1;
        let k = pairs[n].0;
        assert(pairs.last() == pairs[n]);
        assert(forall|i: int| 0 <= i < p.len() ==> p[i] == pairs[i]);
        if m0.contains_key(k) {
            let i = choose|i: int| 0 <= i < p.len() && i < capacity && #[trigger] p[i].0 == k;
            assert(pairs[i].0 == pairs[n].0);
        }
        let m = inserted_all(Map::empty(), capacity, pairs);
        assert forall|kk: ipv6::Addr| #[trigger] m.contains_key(kk) implies exists|i: int|
            0 <= i < pairs.len() && i < capacity && #[trigger] pairs[i].0 == kk by {
            if kk != k || !(n < capacity) {
                assert(m0.contains_key(kk));
                let i = choose|i: int| 0 <= i < p.len() && i < capacity && #[trigger] p[i].0 == kk;
                assert(pairs[i].0 == kk);
            } else {
                assert(pairs[n].0 == kk);
            }
        }
    }
}

impl View for NeighborCache {
    type V = Map<ipv6::Addr, ieee802154::Addr>;

    closed spec fn view(&self) -> Map<ipv6::Addr, ieee802154::Addr> {
        self.contents@
    }
}

impl NeighborCache {
    /// The largest number of entries
    pub closed spec fn spec_capacity(&self) -> nat {
        self.capacity as nat
    }

    /// Keys are unique, each entry is in the map and each key of the map has
    /// an entry, and the entries fit in the capacity
    pub closed spec fn wf(&self) -> bool {
        &&& self.contents@.dom().finite()
        &&& self.entries@.len() == self.contents@.len()
        &&& self.entries@.len() <= self.capacity
        &&& forall|i: int|
            0 <= i < self.entries@.len() ==> #[trigger] self.contents@.contains_key(
                self.entries@[i].0,
            ) && self.contents@[self.entries@[i].0] == self.entries@[i].1
        &&& forall|k: ipv6::Addr|
            #[trigger] self.contents@.contains_key(k) ==> exists|i: int|
                0 <= i < self.entries@.len() && #[trigger] self.entries@[i].0 == k
        &&& forall|i: int, j: int|
            0 <= i < j < self.entries@.len() ==> #[trigger] self.entries@[i].0
                != #[trigger] self.entries@[j].0
    }

    /// An empty cache that holds at most `capacity` entries
    pub fn new(capacity: usize) -> (r: NeighborCache)
        ensures
            r.wf(),
            r@ == Map::<ipv6::Addr, ieee802154::Addr>::empty(),
            r.spec_capacity() == capacity,
    {
        NeighborCache { entries: Vec::new(), capacity, contents: Ghost(Map::empty()) }
    }

    /// Number of entries
    pub fn len(&self) -> (r: usize)
        requires
            self.wf(),
        ensures
            r == self@.len(),
    {
        self.entries.len()
    }

    /// The largest number of entries
    pub fn capacity(&self) -> (r: usize)
        ensures
            r == self.spec_capacity(),
    {
        self.capacity
    }

    fn find(&self, key: &ipv6::Addr) -> (r: Option<usize>)
        requires
            self.wf(),
        ensures
            r is None <==> !self@.contains_key(*key),
            r matches Some(i) ==> i < self.entries@.len() && self.entries@[i as int].0 == *key,
    {
        let mut i: usize = 0;
        while i < self.entries.len()
            invariant
                self.wf(),
                i <= self.entries@.len(),
                forall|j: int| 0 <= j < i ==> self.entries@[j].0 != *key,
            decreases self.entries@.len() - i,
        {
            if self.entries[i].0 == *key {
                proof {
                    ipv6::lemma_addr_eq(self.entries@[i as int].0, *key);
                }
                return Some(i);
            }
            i = i + 1;
        }
        proof {
            if self@.contains_key(*key) {
                let j = choose|j: int|
                    0 <= j < self.entries@.len() && #[trigger] self.entries@[j].0 == *key;
                assert(self.entries@[j].0 != *key);
            }
        }
        None
    }

    /// The link-layer address stored for `key`, if any
    pub fn get(&self, key: &ipv6::Addr) -> (r: Option<ieee802154::Addr>)
        requires
            self.wf(),
        ensures
            r is Some <==> self@.contains_key(*key),
            r matches Some(v) ==> v == self@[*key],
    {
        match self.find(key) {
            Some(i) => Some(self.entries[i].1),
            None => None,
        }
    }

    /// Stores `value` for `key`, overwriting what was there; fails, changing
    /// nothing, only where the key is new and the cache is full
    pub fn insert(&mut self, key: ipv6::Addr, value: ieee802154::Addr) -> (r: Result<
        (),
        CacheFull,
    >)
        requires
            old(self).wf(),
        ensures
            final(self).wf(),
            final(self).spec_capacity() == old(self).spec_capacity(),
            r is Err <==> !old(self)@.contains_key(key) && old(self)@.len()
                >= old(self).spec_capacity(),
            r is Ok ==> final(self)@ == old(self)@.insert(key, value),
            r is Err ==> final(self)@ == old(self)@,
            final(self)@ == inserted(old(self)@, old(self).spec_capacity(), key, value),
    {
        match self.find(&key) {
            Some(i) => {
                self.entries.set(i, (key, value));
                self.contents = Ghost(self.contents@.insert(key, value));
                assert(self.contents@.dom() =~= old(self).contents@.dom());
                assert forall|k: ipv6::Addr| #[trigger]
                    self.contents@.contains_key(k) implies exists|j: int|
                    0 <= j < self.entries@.len() && #[trigger] self.entries@[j].0 == k by {
                    if k != key {
                        assert(old(self).contents@.contains_key(k));
                        let j = choose|j: int|
                            0 <= j < old(self).entries@.len() && #[trigger] old(
                                self,
                            ).entries@[j].0 == k;
                        assert(self.entries@[j].0 == k);
                    } else {
                        assert(self.entries@[i as int].0 == k);
                    }
                }
                Ok(())
            },
            None => {
                if self.entries.len() >= self.capacity {
                    return Err(CacheFull);
                }
                assert forall|j: int| 0 <= j < self.entries@.len() implies #[trigger] self.entries@[j].0 != key by {
                    assert(self.contents@.contains_key(self.entries@[j].0));
                }
                self.entries.push((key, value));
                self.contents = Ghost(self.contents@.insert(key, value));
                assert forall|k: ipv6::Addr| #[trigger]
                    self.contents@.contains_key(k) implies exists|j: int|
                    0 <= j < self.entries@.len() && #[trigger] self.entries@[j].0 == k by {
                    if k != key {
                        assert(old(self).contents@.contains_key(k));
                        let j = choose|j: int|
                            0 <= j < old(self).entries@.len() && #[trigger] old(
                                self,
                            ).entries@[j].0 == k;
                        assert(self.entries@[j].0 == k);
                    } else {
                        assert(self.entries@[self.entries@.len() - 1].0 == k);
                    }
                }
                Ok(())
            },
        }
    }
}

} // verus!
