use vstd::prelude::*;

use crate::types::PeerId;

verus! {

/// The first capability set recorded under the key, scanning from the
/// front. Because entries are only ever added through
/// `insert_if_absent`, at most one entry per key can exist.
pub open spec fn spec_find(s: Seq<(PeerId, bgp_rs::Capabilities)>, k: PeerId) -> Option<
    bgp_rs::Capabilities,
>
    decreases s.len(),
{
    if s.len() == 0 {
        None
    } else if s[0].0 == k {
        Some(s[0].1)
    } else {
        spec_find(s.drop_first(), k)
    }
}

pub open spec fn spec_has_key(s: Seq<(PeerId, bgp_rs::Capabilities)>, k: PeerId) -> bool {
    spec_find(s, k) is Some
}

/// Entries at or past `i` are found exactly as in the sequence with the
/// first `i` entries removed, provided none of those hold the key.
proof fn lemma_find_skip(s: Seq<(PeerId, bgp_rs::Capabilities)>, k: PeerId, i: int)
    requires
        0 <= i <= s.len(),
        forall|j: int| 0 <= j < i ==> (#[trigger] s[j]).0 != k,
    ensures
        spec_find(s, k) == spec_find(s.skip(i), k),
    decreases i,
{
    if i > 0 {
        assert(s[0].0 != k);
        lemma_find_skip(s.drop_first(), k, i - 1);
        assert(s.drop_first().skip(i - 1) =~= s.skip(i));
    } else {
        assert(s.skip(0) =~= s);
    }
}

/// A key misses exactly when no entry holds it.
proof fn lemma_find_none(s: Seq<(PeerId, bgp_rs::Capabilities)>, k: PeerId)
    ensures
        (spec_find(s, k) is None) <==> (forall|j: int| 0 <= j < s.len() ==> (#[trigger] s[j]).0
            != k),
    decreases s.len(),
{
    if s.len() > 0 {
        lemma_find_none(s.drop_first(), k);
        if spec_find(s, k) is None {
            assert forall|j: int| 0 <= j < s.len() implies (#[trigger] s[j]).0 != k by {
                if j > 0 {
                    assert(s.drop_first()[j - 1] == s[j]);
                }
            }
        }
        if forall|j: int| 0 <= j < s.len() ==> (#[trigger] s[j]).0 != k {
            assert forall|j: int|
                0 <= j < s.drop_first().len() implies (#[trigger] s.drop_first()[j]).0 != k by {
                assert(s.drop_first()[j] == s[j + 1]);
            }
            assert(s[0].0 != k);
            assert(spec_find(s, k) is None);
        }
    }
}

/// Per-connection map from peer identity to the negotiated capability
/// set learned from that peer's first PeerUp message. Entries live
/// exactly as long as the owning decoder and are never overwritten.
///
/// The map is an association list: a connection monitors a handful of
/// peers, and an ordered scan gives `lookup` and first-wins insertion
/// contracts that verify directly over the entry sequence.
pub struct CapabilityStore {
    entries: Vec<(PeerId, bgp_rs::Capabilities)>,
}

impl View for CapabilityStore {
    type V = Seq<(PeerId, bgp_rs::Capabilities)>;

    closed spec fn view(&self) -> Seq<(PeerId, bgp_rs::Capabilities)> {
        self.entries@
    }
}

impl CapabilityStore {
    pub fn new() -> (r: CapabilityStore)
        ensures
            r@ == Seq::<(PeerId, bgp_rs::Capabilities)>::empty(),
    {
        CapabilityStore { entries: Vec::new() }
    }

    pub fn len(&self) -> (r: usize)
        ensures
            r == self@.len(),
    {
        self.entries.len()
    }

    pub fn contains_key(&self, k: &PeerId) -> (r: bool)
        ensures
            r == spec_has_key(self@, *k),
    {
        let n = self.entries.len();
        let mut i: usize = 0;
        while i < n
            invariant
                i <= n,
                n == self.entries@.len(),
                forall|j: int| 0 <= j < i ==> (#[trigger] self.entries@[j]).0 != *k,
            decreases n - i,
        {
            if self.entries[i].0 == *k {
                proof {
                    lemma_find_skip(self.entries@, *k, i as int);
                    assert(self.entries@.skip(i as int)[0] == self.entries@[i as int]);
                }
                return true;
            }
            i += 1;
        }
        proof {
            lemma_find_skip(self.entries@, *k, n as int);
            assert(self.entries@.skip(n as int) =~= Seq::<(PeerId, bgp_rs::Capabilities)>::empty());
        }
        false
    }

    /// The capability set recorded for the peer, if its PeerUp has been
    /// seen on this connection.
    pub fn lookup(&self, k: &PeerId) -> (r: Option<&bgp_rs::Capabilities>)
        ensures
            r is Some <==> spec_has_key(self@, *k),
            r is Some ==> *r->Some_0 == spec_find(self@, *k)->Some_0,
    {
        let n = self.entries.len();
        let mut i: usize = 0;
        while i < n
            invariant
                i <= n,
                n == self.entries@.len(),
                forall|j: int| 0 <= j < i ==> (#[trigger] self.entries@[j]).0 != *k,
            decreases n - i,
        {
            if self.entries[i].0 == *k {
                proof {
                    lemma_find_skip(self.entries@, *k, i as int);
                    assert(self.entries@.skip(i as int)[0] == self.entries@[i as int]);
                }
                return Some(&self.entries[i].1);
            }
            i += 1;
        }
        proof {
            lemma_find_skip(self.entries@, *k, n as int);
            assert(self.entries@.skip(n as int) =~= Seq::<(PeerId, bgp_rs::Capabilities)>::empty());
        }
        None
    }

    /// Record a capability set for the peer unless one is already
    /// present: the first PeerUp wins and no entry is ever overwritten.
    pub fn insert_if_absent(&mut self, k: PeerId, v: bgp_rs::Capabilities)
        ensures
            spec_has_key(old(self)@, k) ==> final(self)@ == old(self)@,
            !spec_has_key(old(self)@, k) ==> final(self)@ == old(self)@.push((k, v)),
            spec_has_key(final(self)@, k),
    {
        if !self.contains_key(&k) {
            let ghost s0 = self.entries@;
            proof {
                lemma_find_none(s0, k);
            }
            self.entries.push((k, v));
            proof {
                assert(forall|j: int|
                    0 <= j < s0.len() ==> (#[trigger] self.entries@[j]) == s0[j]);
                lemma_find_skip(self.entries@, k, s0.len() as int);
                assert(self.entries@.skip(s0.len() as int) =~= seq![(k, v)]);
            }
        }
    }
}

} // verus!
