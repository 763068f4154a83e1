//! The rendezvous registry: authenticated connections by hostname, and
//! pending forward halves by routing id.
//!
//! Both maps are single-valued: an insert under a present key is refused,
//! never an overwrite.  A pending entry is moved out by exactly one claim;
//! after that claim the id is gone, so no second claim can observe it.

use vstd::prelude::*;

use crate::wire::bytes_eq;

verus! {

/// The map a sequence of id/value entries denotes.
pub open spec fn pending_map<V>(s: Seq<(u64, V)>) -> Map<u64, V>
    decreases s.len(),
{
    if s.len() == 0 {
        Map::empty()
    } else {
        pending_map(s.drop_last()).insert(s.last().0, s.last().1)
    }
}

/// No id occurs twice among the entries.
pub open spec fn pending_keys_unique<V>(s: Seq<(u64, V)>) -> bool {
    forall|i: int, j: int|
        0 <= i < j < s.len() ==> (#[trigger] s[i]).0 != (#[trigger] s[j]).0
}

proof fn lemma_pending_map_contains<V>(s: Seq<(u64, V)>, k: u64)
    ensures
        pending_map(s).contains_key(k) <==> exists|i: int|
            0 <= i < s.len() && (#[trigger] s[i]).0 == k,
    decreases s.len(),
{
    if s.len() > 0 {
        lemma_pending_map_contains(s.drop_last(), k);
        if s.last().0 == k {
            assert((s[s.len() - 1]).0 == k);
        } else {
            if exists|i: int| 0 <= i < s.len() && (#[trigger] s[i]).0 == k {
                let i = choose|i: int| 0 <= i < s.len() && (#[trigger] s[i]).0 == k;
                assert(s.drop_last()[i] == s[i]);
            }
            if exists|i: int| 0 <= i < s.drop_last().len() && (#[trigger] s.drop_last()[i]).0
                == k {
                let i = choose|i: int|
                    0 <= i < s.drop_last().len() && (#[trigger] s.drop_last()[i]).0 == k;
                assert(s[i] == s.drop_last()[i]);
            }
        }
    }
}

proof fn lemma_pending_unique_drop_last<V>(s: Seq<(u64, V)>)
    requires
        pending_keys_unique(s),
        s.len() > 0,
    ensures
        pending_keys_unique(s.drop_last()),
{
    assert forall|i: int, j: int|
        0 <= i < j < s.drop_last().len() implies (#[trigger] s.drop_last()[i]).0 != (
    #[trigger] s.drop_last()[j]).0 by {
        assert(s.drop_last()[i] == s[i]);
        assert(s.drop_last()[j] == s[j]);
    }
}

proof fn lemma_pending_map_index<V>(s: Seq<(u64, V)>, idx: int)
    requires
        pending_keys_unique(s),
        0 <= idx < s.len(),
    ensures
        pending_map(s).contains_key(s[idx].0),
        pending_map(s)[s[idx].0] == s[idx].1,
    decreases s.len(),
{
    if idx == s.len() - 1 {
    } else {
        lemma_pending_unique_drop_last(s);
        assert(s.drop_last()[idx] == s[idx]);
        lemma_pending_map_index(s.drop_last(), idx);
        assert(s.last().0 != s[idx].0);
    }
}

proof fn lemma_pending_map_remove<V>(s: Seq<(u64, V)>, idx: int)
    requires
        pending_keys_unique(s),
        0 <= idx < s.len(),
    ensures
        pending_keys_unique(s.remove(idx)),
        pending_map(s.remove(idx)) == pending_map(s).remove(s[idx].0),
    decreases s.len(),
{
    let k = s[idx].0;
    s.remove_ensures(idx);
    assert forall|i: int, j: int|
        0 <= i < j < s.remove(idx).len() implies (#[trigger] s.remove(idx)[i]).0 != (
    #[trigger] s.remove(idx)[j]).0 by {
        if j < idx {
            assert(s.remove(idx)[i] == s[i] && s.remove(idx)[j] == s[j]);
        } else if i < idx && j >= idx {
            assert(s.remove(idx)[i] == s[i] && s.remove(idx)[j] == s[j + 1]);
        } else {
            assert(s.remove(idx)[i] == s[i + 1] && s.remove(idx)[j] == s[j + 1]);
        }
    }
    lemma_pending_unique_drop_last(s);
    lemma_pending_map_contains(s.drop_last(), k);
    if idx == s.len() - 1 {
        assert(s.remove(idx) =~= s.drop_last());
        assert(!pending_map(s.drop_last()).contains_key(k));
        assert(pending_map(s.drop_last()).insert(k, s[idx].1).remove(k) =~= pending_map(
            s.drop_last(),
        ));
    } else {
        let t = s.remove(idx);
        assert(t.len() == s.len() - 1);
        assert(t.last() == s.last());
        assert(t.drop_last() =~= s.drop_last().remove(idx));
        assert(s.drop_last()[idx] == s[idx]);
        lemma_pending_map_remove(s.drop_last(), idx);
        assert(s.last().0 != k);
        assert(pending_map(s.drop_last()).remove(k).insert(s.last().0, s.last().1)
            =~= pending_map(s.drop_last()).insert(s.last().0, s.last().1).remove(k));
    }
}

/// Pending forward halves by routing id: the `Receive` side of a forward
/// parks its raw halves here, the `Share` side claims them.
pub struct PendingMap<V> {
    entries: Vec<(u64, V)>,
}

impl<V> View for PendingMap<V> {
    type V = Map<u64, V>;

    closed spec fn view(&self) -> Map<u64, V> {
        pending_map(self.entries@)
    }
}

impl<V> PendingMap<V> {
    /// The entry list holds each routing id at most once.
    pub closed spec fn wf(&self) -> bool {
        pending_keys_unique(self.entries@)
    }

    /// An empty map.
    pub fn new() -> (r: PendingMap<V>)
        ensures
            r.wf(),
            r@ == Map::<u64, V>::empty(),
    {
        PendingMap { entries: Vec::new() }
    }

    fn find(&self, id: u64) -> (r: Option<usize>)
        ensures
            r matches Some(i) ==> i < self.entries@.len() && self.entries@[i as int].0 == id,
            r is None ==> forall|j: int|
                0 <= j < self.entries@.len() ==> (#[trigger] self.entries@[j]).0 != id,
    {
        let n = self.entries.len();
        let mut i: usize = 0;
        while i < n
            invariant
                n == self.entries@.len(),
                i <= n,
                forall|j: int| 0 <= j < i ==> (#[trigger] self.entries@[j]).0 != id,
            decreases n - i,
        {
            if self.entries[i].0 == id {
                return Some(i);
            }
            i += 1;
        }
        None
    }

    /// Whether an entry is parked under `id`.
    pub fn contains(&self, id: u64) -> (r: bool)
        ensures
            r == self@.contains_key(id),
    {
        proof {
            lemma_pending_map_contains(self.entries@, id);
        }
        self.find(id).is_some()
    }

    /// Parks `v` under `id`.  An id already present is refused and nothing
    /// changes: the map never overwrites a waiting pair.
    pub fn insert(&mut self, id: u64, v: V) -> (r: bool)
        requires
            old(self).wf(),
        ensures
            final(self).wf(),
            r == !old(self)@.contains_key(id),
            r ==> final(self)@ == old(self)@.insert(id, v),
            !r ==> *final(self) == *old(self),
    {
        proof {
            lemma_pending_map_contains(self.entries@, id);
        }
        match self.find(id) {
            Some(_) => false,
            None => {
                self.entries.push((id, v));
                proof {
                    assert(self.entries@.drop_last() =~= old(self).entries@);
                    assert(self.entries@.last() == (id, v));
                }
                true
            },
        }
    }

    /// Claims and removes the entry under `id`: the one move-out of a
    /// parked pair.  After a successful claim the id is gone, so a second
    /// claim of the same id yields nothing.
    pub fn claim(&mut self, id: u64) -> (r: Option<V>)
        requires
            old(self).wf(),
        ensures
            final(self).wf(),
            final(self)@ == old(self)@.remove(id),
            r matches Some(v) ==> old(self)@.contains_key(id) && v == old(self)@[id],
            r is None <==> !old(self)@.contains_key(id),
            r is None ==> *final(self) == *old(self),
    {
        proof {
            lemma_pending_map_contains(self.entries@, id);
        }
        match self.find(id) {
            Some(i) => {
                proof {
                    lemma_pending_map_index(self.entries@, i as int);
                    lemma_pending_map_remove(self.entries@, i as int);
                }
                let entry = self.entries.remove(i);
                Some(entry.1)
            },
            None => {
                proof {
                    assert(old(self)@.remove(id) =~= old(self)@);
                }
                None
            },
        }
    }
}

/// A pending entry is claimed exactly once: once a claim has removed `id`,
/// the map holds nothing under it, so no later claim can observe the same
/// halves.
pub proof fn lemma_claim_exclusive<V>(m: Map<u64, V>, id: u64)
    ensures
        !m.remove(id).contains_key(id),
{
}

/// The map a sequence of hostname/value entries denotes.
pub open spec fn node_map<V>(s: Seq<(Vec<u8>, V)>) -> Map<Seq<u8>, V>
    decreases s.len(),
{
    if s.len() == 0 {
        Map::empty()
    } else {
        node_map(s.drop_last()).insert(s.last().0@, s.last().1)
    }
}

/// No hostname occurs twice among the entries.
pub open spec fn node_keys_unique<V>(s: Seq<(Vec<u8>, V)>) -> bool {
    forall|i: int, j: int|
        0 <= i < j < s.len() ==> (#[trigger] s[i]).0@ != (#[trigger] s[j]).0@
}

proof fn lemma_node_map_contains<V>(s: Seq<(Vec<u8>, V)>, k: Seq<u8>)
    ensures
        node_map(s).contains_key(k) <==> exists|i: int|
            0 <= i < s.len() && (#[trigger] s[i]).0@ == k,
    decreases s.len(),
{
    if s.len() > 0 {
        lemma_node_map_contains(s.drop_last(), k);
        if s.last().0@ == k {
            assert((s[s.len() - 1]).0@ == k);
        } else {
            if exists|i: int| 0 <= i < s.len() && (#[trigger] s[i]).0@ == k {
                let i = choose|i: int| 0 <= i < s.len() && (#[trigger] s[i]).0@ == k;
                assert(s.drop_last()[i] == s[i]);
            }
            if exists|i: int| 0 <= i < s.drop_last().len() && (#[trigger] s.drop_last()[i]).0@
                == k {
                let i = choose|i: int|
                    0 <= i < s.drop_last().len() && (#[trigger] s.drop_last()[i]).0@ == k;
                assert(s[i] == s.drop_last()[i]);
            }
        }
    }
}

proof fn lemma_node_unique_drop_last<V>(s: Seq<(Vec<u8>, V)>)
    requires
        node_keys_unique(s),
        s.len() > 0,
    ensures
        node_keys_unique(s.drop_last()),
{
    assert forall|i: int, j: int|
        0 <= i < j < s.drop_last().len() implies (#[trigger] s.drop_last()[i]).0@ != (
    #[trigger] s.drop_last()[j]).0@ by {
        assert(s.drop_last()[i] == s[i]);
        assert(s.drop_last()[j] == s[j]);
    }
}

proof fn lemma_node_map_index<V>(s: Seq<(Vec<u8>, V)>, idx: int)
    requires
        node_keys_unique(s),
        0 <= idx < s.len(),
    ensures
        node_map(s).contains_key(s[idx].0@),
        node_map(s)[s[idx].0@] == s[idx].1,
    decreases s.len(),
{
    if idx == s.len() - 1 {
    } else {
        lemma_node_unique_drop_last(s);
        assert(s.drop_last()[idx] == s[idx]);
        lemma_node_map_index(s.drop_last(), idx);
        assert(s.last().0@ != s[idx].0@);
    }
}

proof fn lemma_node_map_remove<V>(s: Seq<(Vec<u8>, V)>, idx: int)
    requires
        node_keys_unique(s),
        0 <= idx < s.len(),
    ensures
        node_keys_unique(s.remove(idx)),
        node_map(s.remove(idx)) == node_map(s).remove(s[idx].0@),
    decreases s.len(),
{
    let k = s[idx].0@;
    s.remove_ensures(idx);
    assert forall|i: int, j: int|
        0 <= i < j < s.remove(idx).len() implies (#[trigger] s.remove(idx)[i]).0@ != (
    #[trigger] s.remove(idx)[j]).0@ by {
        if j < idx {
            assert(s.remove(idx)[i] == s[i] && s.remove(idx)[j] == s[j]);
        } else if i < idx && j >= idx {
            assert(s.remove(idx)[i] == s[i] && s.remove(idx)[j] == s[j + 1]);
        } else {
            assert(s.remove(idx)[i] == s[i + 1] && s.remove(idx)[j] == s[j + 1]);
        }
    }
    lemma_node_unique_drop_last(s);
    lemma_node_map_contains(s.drop_last(), k);
    if idx == s.len() - 1 {
        assert(s.remove(idx) =~= s.drop_last());
        assert(!node_map(s.drop_last()).contains_key(k));
        assert(node_map(s.drop_last()).insert(k, s[idx].1).remove(k) =~= node_map(s.drop_last()));
    } else {
        let t = s.remove(idx);
        assert(t.len() == s.len() - 1);
        assert(t.last() == s.last());
        assert(t.drop_last() =~= s.drop_last().remove(idx));
        assert(s.drop_last()[idx] == s[idx]);
        lemma_node_map_remove(s.drop_last(), idx);
        assert(s.last().0@ != k);
        assert(node_map(s.drop_last()).remove(k).insert(s.last().0@, s.last().1) =~= node_map(
            s.drop_last(),
        ).insert(s.last().0@, s.last().1).remove(k));
    }
}

/// Authenticated connections by hostname.  One live entry per hostname: a
/// second registration under the same hostname is refused.
pub struct NodeMap<V> {
    entries: Vec<(Vec<u8>, V)>,
}

impl<V> View for NodeMap<V> {
    type V = Map<Seq<u8>, V>;

    closed spec fn view(&self) -> Map<Seq<u8>, V> {
        node_map(self.entries@)
    }
}

impl<V> NodeMap<V> {
    /// The entry list holds each hostname at most once.
    pub closed spec fn wf(&self) -> bool {
        node_keys_unique(self.entries@)
    }

    /// An empty map.
    pub fn new() -> (r: NodeMap<V>)
        ensures
            r.wf(),
            r@ == Map::<Seq<u8>, V>::empty(),
    {
        NodeMap { entries: Vec::new() }
    }

    fn find(&self, hostname: &[u8]) -> (r: Option<usize>)
        ensures
            r matches Some(i) ==> i < self.entries@.len() && self.entries@[i as int].0@
                == hostname@,
            r is None ==> forall|j: int|
                0 <= j < self.entries@.len() ==> (#[trigger] self.entries@[j]).0@ != hostname@,
    {
        let n = self.entries.len();
        let mut i: usize = 0;
        while i < n
            invariant
                n == self.entries@.len(),
                i <= n,
                forall|j: int| 0 <= j < i ==> (#[trigger] self.entries@[j]).0@ != hostname@,
            decreases n - i,
        {
            if bytes_eq(self.entries[i].0.as_slice(), hostname) {
                return Some(i);
            }
            i += 1;
        }
        None
    }

    /// Whether a connection is registered under `hostname`.
    pub fn contains(&self, hostname: &[u8]) -> (r: bool)
        ensures
            r == self@.contains_key(hostname@),
    {
        proof {
            lemma_node_map_contains(self.entries@, hostname@);
        }
        self.find(hostname).is_some()
    }

    /// Registers `v` under `hostname`.  A hostname already registered is
    /// refused and nothing changes: the pre-existing registration wins.
    pub fn register(&mut self, hostname: Vec<u8>, v: V) -> (r: bool)
        requires
            old(self).wf(),
        ensures
            final(self).wf(),
            r == !old(self)@.contains_key(hostname@),
            r ==> final(self)@ == old(self)@.insert(hostname@, v),
            !r ==> *final(self) == *old(self),
    {
        proof {
            lemma_node_map_contains(self.entries@, hostname@);
        }
        match self.find(hostname.as_slice()) {
            Some(_) => false,
            None => {
                self.entries.push((hostname, v));
                proof {
                    assert(self.entries@.drop_last() =~= old(self).entries@);
                }
                true
            },
        }
    }

    /// The connection registered under `hostname`, if any.
    pub fn get(&self, hostname: &[u8]) -> (r: Option<&V>)
        requires
            self.wf(),
        ensures
            r matches Some(v) ==> self@.contains_key(hostname@) && *v == self@[hostname@],
            r is None <==> !self@.contains_key(hostname@),
    {
        proof {
            lemma_node_map_contains(self.entries@, hostname@);
        }
        match self.find(hostname) {
            Some(i) => {
                proof {
                    lemma_node_map_index(self.entries@, i as int);
                }
                Some(&self.entries[i].1)
            },
            None => None,
        }
    }

    /// Deregisters `hostname`, handing back its connection: used when an
    /// outbound send on the registered handle has failed.
    pub fn remove(&mut self, hostname: &[u8]) -> (r: Option<V>)
        requires
            old(self).wf(),
        ensures
            final(self).wf(),
            final(self)@ == old(self)@.remove(hostname@),
            r matches Some(v) ==> old(self)@.contains_key(hostname@) && v == old(self)@[
                hostname@],
            r is None <==> !old(self)@.contains_key(hostname@),
            r is None ==> *final(self) == *old(self),
    {
        proof {
            lemma_node_map_contains(self.entries@, hostname@);
        }
        match self.find(hostname) {
            Some(i) => {
                proof {
                    lemma_node_map_index(self.entries@, i as int);
                    lemma_node_map_remove(self.entries@, i as int);
                }
                let entry = self.entries.remove(i);
                Some(entry.1)
            },
            None => {
                proof {
                    assert(old(self)@.remove(hostname@) =~= old(self)@);
                }
                None
            },
        }
    }

    /// How many connections are registered.
    pub closed spec fn len_spec(&self) -> nat {
        self.entries@.len()
    }

    /// The hostname of the registration at index `i`.
    pub closed spec fn key_at(&self, i: int) -> Seq<u8> {
        self.entries@[i].0@
    }

    /// The registry is single-valued: it never holds two registrations
    /// under one hostname, so a hostname denotes at most one live
    /// connection at every instant.
    pub proof fn lemma_single_valued(&self, i: int, j: int)
        requires
            self.wf(),
            0 <= i < j < self.len_spec(),
        ensures
            self.key_at(i) != self.key_at(j),
    {
    }
}

} // verus!
