//! The registry of live connections: one outbound handle per connection id.
use vstd::prelude::*;

verus! {

/// Identifies one live connection.
pub type ConnectionId = u128;

/// Whether no two entries share an id.
pub open spec fn keys_unique<H>(s: Seq<(ConnectionId, H)>) -> bool {
    forall|i: int, j: int|
        0 <= i < s.len() && 0 <= j < s.len() && #[trigger] s[i].0 == #[trigger] s[j].0 ==> i == j
}

/// Whether some entry has id `k`.
pub open spec fn has_key<H>(s: Seq<(ConnectionId, H)>, k: ConnectionId) -> bool {
    exists|i: int| 0 <= i < s.len() && #[trigger] s[i].0 == k
}

/// The position of an entry with id `k`.
pub open spec fn index_of<H>(s: Seq<(ConnectionId, H)>, k: ConnectionId) -> int {
    choose|i: int| 0 <= i < s.len() && #[trigger] s[i].0 == k
}

/// The map from id to handle that a sequence of entries stands for.
pub open spec fn map_of<H>(s: Seq<(ConnectionId, H)>) -> Map<ConnectionId, H> {
    Map::new(|k: ConnectionId| has_key(s, k), |k: ConnectionId| s[index_of(s, k)].1)
}

/// Whether a broadcast over `m` pushes through handle `h` for connection `id`.
pub open spec fn reached<H>(m: Map<ConnectionId, H>, id: ConnectionId, h: H) -> bool {
    m.contains_key(id) && m[id] == h
}

/// The live connections, each with the handle that reaches it.
pub struct Registry<H> {
    entries: Vec<(ConnectionId, H)>,
}

impl<H> View for Registry<H> {
    type V = Map<ConnectionId, H>;

    closed spec fn view(&self) -> Map<ConnectionId, H> {
        map_of(self.entries@)
    }
}

proof fn lemma_index_of<H>(s: Seq<(ConnectionId, H)>, i: int)
    requires
        keys_unique(s),
        0 <= i < s.len(),
    ensures
        has_key(s, s[i].0),
        index_of(s, s[i].0) == i,
        map_of(s).contains_key(s[i].0),
        map_of(s)[s[i].0] == s[i].1,
{
    assert(has_key(s, s[i].0));
}

impl<H> Registry<H> {
    /// Well-formed: no two entries share an id.
    pub closed spec fn wf(&self) -> bool {
        keys_unique(self.entries@)
    }

    /// An empty registry.
    pub fn new() -> (r: Self)
        ensures
            r.wf(),
            r@ == Map::<ConnectionId, H>::empty(),
    {
        let r = Registry { entries: Vec::new() };
        assert(r@ =~= Map::<ConnectionId, H>::empty());
        r
    }

    /// The position of the entry for `id`, if there is one.
    fn find(&self, id: ConnectionId) -> (r: Option<usize>)
        requires
            self.wf(),
        ensures
            r is None <==> !self@.contains_key(id),
            r is Some ==> r->Some_0 < self.entries@.len() && self.entries@[r->Some_0 as int].0
                == id,
    {
        let mut i: usize = 0;
        while i < self.entries.len()
            invariant
                i <= self.entries@.len(),
                forall|j: int| 0 <= j < i ==> #[trigger] self.entries@[j].0 != id,
            decreases self.entries@.len() - i,
        {
            if self.entries[i].0 == id {
                return Some(i);
            }
            i = i + 1;
        }
        None
    }

    /// Whether `id` has an entry.
    pub fn contains(&self, id: ConnectionId) -> (r: bool)
        requires
            self.wf(),
        ensures
            r == self@.contains_key(id),
    {
        self.find(id).is_some()
    }

    /// Number of live connections.
    pub fn len(&self) -> (r: usize)
        requires
            self.wf(),
        ensures
            r == self@.dom().len(),
    {
        proof {
            self.lemma_dom_len();
        }
        self.entries.len()
    }

    proof fn lemma_dom_len(&self)
        requires
            self.wf(),
        ensures
            self@.dom().finite(),
            self@.dom().len() == self.entries@.len(),
        decreases self.entries@.len(),
    {
        let s = self.entries@;
        let keys = Seq::new(s.len(), |i: int| s[i].0);
        assert forall|i: int, j: int|
            0 <= i < keys.len() && 0 <= j < keys.len() && i != j implies keys[i] != keys[j] by {
            assert(s[i].0 == keys[i] && s[j].0 == keys[j]);
        }
        keys.unique_seq_to_set();
        assert forall|k: ConnectionId| self@.dom().contains(k) <==> keys.to_set().contains(k) by {
            if self@.dom().contains(k) {
                let i = index_of(s, k);
                assert(keys[i] == k);
            }
            if keys.to_set().contains(k) {
                let i = choose|i: int| 0 <= i < keys.len() && keys[i] == k;
                assert(s[i].0 == k);
            }
        }
        assert(self@.dom() =~= keys.to_set());
    }

    /// Adds the entry for `id`, replacing any handle it had.
    pub fn insert(&mut self, id: ConnectionId, handle: H)
        requires
            old(self).wf(),
        ensures
            final(self).wf(),
            final(self)@ == old(self)@.insert(id, handle),
    {
        let ghost h = handle;
        match self.find(id) {
            Some(i) => {
                let ghost s = self.entries@;
                self.entries.set(i, (id, handle));
                proof {
                    let s2 = self.entries@;
                    assert(s2 == s.update(i as int, (id, h)));
                    assert forall|a: int, b: int|
                        0 <= a < s2.len() && 0 <= b < s2.len() && #[trigger] s2[a].0
                            == #[trigger] s2[b].0 implies a == b by {
                        assert(s[a].0 == s2[a].0 && s[b].0 == s2[b].0);
                    }
                    assert forall|k: ConnectionId|
                        #[trigger] map_of(s2).contains_key(k) <==> old(self)@.insert(
                            id,
                            h,
                        ).contains_key(k) by {
                        if has_key(s2, k) {
                            let j = index_of(s2, k);
                            assert(s[j].0 == k);
                        }
                        if has_key(s, k) {
                            let j = index_of(s, k);
                            assert(s2[j].0 == k);
                        }
                    }
                    assert forall|k: ConnectionId| #[trigger]
                        map_of(s2).contains_key(k) implies map_of(s2)[k] == old(self)@.insert(
                        id,
                        h,
                    )[k] by {
                        let j = index_of(s2, k);
                        lemma_index_of(s2, j);
                        if k != id {
                            assert(s[j].0 == k);
                            lemma_index_of(s, j);
                        }
                    }
                    assert(map_of(s2) =~= old(self)@.insert(id, h));
                }
            },
            None => {
                let ghost s = self.entries@;
                self.entries.push((id, handle));
                proof {
                    let s2 = self.entries@;
                    assert(s2 == s.push((id, h)));
                    assert forall|a: int, b: int|
                        0 <= a < s2.len() && 0 <= b < s2.len() && #[trigger] s2[a].0
                            == #[trigger] s2[b].0 implies a == b by {
                        if a < s.len() && b < s.len() {
                            assert(s[a].0 == s2[a].0 && s[b].0 == s2[b].0);
                        } else if a < s.len() {
                            assert(s[a].0 == id);
                            assert(has_key(s, id));
                        } else if b < s.len() {
                            assert(s[b].0 == id);
                            assert(has_key(s, id));
                        }
                    }
                    assert forall|k: ConnectionId|
                        #[trigger] map_of(s2).contains_key(k) <==> old(self)@.insert(
                            id,
                            h,
                        ).contains_key(k) by {
                        if has_key(s2, k) && k != id {
                            let j = index_of(s2, k);
                            assert(s[j].0 == k);
                        }
                        if has_key(s, k) {
                            let j = index_of(s, k);
                            assert(s2[j].0 == k);
                        }
                        if k == id {
                            assert(s2[s.len() as int].0 == id);
                        }
                    }
                    assert forall|k: ConnectionId| #[trigger]
                        map_of(s2).contains_key(k) implies map_of(s2)[k] == old(self)@.insert(
                        id,
                        h,
                    )[k] by {
                        let j = index_of(s2, k);
                        lemma_index_of(s2, j);
                        if k != id {
                            assert(s[j].0 == k);
                            lemma_index_of(s, j);
                        }
                    }
                    assert(map_of(s2) =~= old(self)@.insert(id, h));
                }
            },
        }
    }

    /// Removes the entry for `id`; nothing happens if there is none.
    pub fn remove(&mut self, id: ConnectionId)
        requires
            old(self).wf(),
        ensures
            final(self).wf(),
            final(self)@ == old(self)@.remove(id),
    {
        match self.find(id) {
            Some(i) => {
                let ghost s = self.entries@;
                let _ = self.entries.remove(i);
                proof {
                    let s2 = self.entries@;
                    let ii = i as int;
                    assert(s2 == s.remove(ii));
                    assert forall|a: int| 0 <= a < s2.len() implies #[trigger] s2[a] == s[if a
                        < ii {
                        a
                    } else {
                        a + 1
                    }] by {}
                    assert forall|a: int, b: int|
                        0 <= a < s2.len() && 0 <= b < s2.len() && #[trigger] s2[a].0
                            == #[trigger] s2[b].0 implies a == b by {
                        let a1 = if a < ii { a } else { a + 1 };
                        let b1 = if b < ii { b } else { b + 1 };
                        assert(s2[a] == s[a1] && s2[b] == s[b1]);
                    }
                    assert forall|k: ConnectionId|
                        #[trigger] map_of(s2).contains_key(k) <==> old(self)@.remove(
                            id,
                        ).contains_key(k) by {
                        if has_key(s2, k) {
                            let j = index_of(s2, k);
                            let j1 = if j < ii { j } else { j + 1 };
                            assert(s2[j] == s[j1]);
                            assert(j1 != ii);
                            assert(s[j1].0 == k);
                        }
                        if has_key(s, k) && k != id {
                            let j = index_of(s, k);
                            assert(j != ii);
                            let j2 = if j < ii { j } else { j - 1 };
                            assert(s2[j2] == s[j]);
                        }
                    }
                    assert forall|k: ConnectionId| #[trigger]
                        map_of(s2).contains_key(k) implies map_of(s2)[k] == old(self)@.remove(
                        id,
                    )[k] by {
                        let j = index_of(s2, k);
                        lemma_index_of(s2, j);
                        let j1 = if j < ii { j } else { j + 1 };
                        assert(s2[j] == s[j1]);
                        lemma_index_of(s, j1);
                    }
                    assert(map_of(s2) =~= old(self)@.remove(id));
                }
            },
            None => {
                assert(self@ =~= old(self)@.remove(id));
            },
        }
    }

    /// The handle of `id`, if it has an entry.
    pub fn handle(&self, id: ConnectionId) -> (r: Option<&H>)
        requires
            self.wf(),
        ensures
            r is None <==> !self@.contains_key(id),
            r is Some ==> *r->Some_0 == self@[id],
    {
        match self.find(id) {
            Some(i) => {
                proof {
                    lemma_index_of(self.entries@, i as int);
                }
                Some(&self.entries[i].1)
            },
            None => None,
        }
    }
    /// Every live connection with its handle, each once: the recipients of
    /// a broadcast to all clients.
    pub fn broadcast(&self) -> (r: Vec<(ConnectionId, &H)>)
        requires
            self.wf(),
        ensures
            r@.len() == self@.dom().len(),
            keys_unique(r@),
            forall|id: ConnectionId, h: H|
                reached(self@, id, h) <==> exists|j: int|
                    0 <= j < r@.len() && #[trigger] r@[j] == (id, &h),
    {
        proof {
            self.lemma_dom_len();
        }
        let mut out: Vec<(ConnectionId, &H)> = Vec::new();
        let mut i: usize = 0;
        while i < self.entries.len()
            invariant
                self.wf(),
                i <= self.entries@.len(),
                out@.len() == i,
                forall|j: int| 0 <= j < i ==> #[trigger] out@[j] == (self.entries@[j].0, &self.entries@[j].1),
            decreases self.entries@.len() - i,
        {
            out.push((self.entries[i].0, &self.entries[i].1));
            i = i + 1;
        }
        proof {
            let s = self.entries@;
            assert forall|a: int, b: int|
                0 <= a < out@.len() && 0 <= b < out@.len() && #[trigger] out@[a].0
                    == #[trigger] out@[b].0 implies a == b by {
                assert(s[a].0 == out@[a].0 && s[b].0 == out@[b].0);
            }
            assert forall|id: ConnectionId, h: H|
                reached(self@, id, h) <==> exists|j: int|
                    0 <= j < out@.len() && #[trigger] out@[j] == (id, &h) by {
                if reached(self@, id, h) {
                    let j = index_of(s, id);
                    lemma_index_of(s, j);
                    assert(out@[j] == (id, &h));
                }
                if exists|j: int| 0 <= j < out@.len() && #[trigger] out@[j] == (id, &h) {
                    let j = choose|j: int| 0 <= j < out@.len() && #[trigger] out@[j] == (id, &h);
                    lemma_index_of(s, j);
                }
            }
        }
        out
    }
}

/// Registers `sender` as the handle of connection `client_id`, replacing
/// any handle it had.
pub fn add_connection<H>(clients: &mut Registry<H>, client_id: ConnectionId, sender: H)
    requires
        old(clients).wf(),
    ensures
        final(clients).wf(),
        final(clients)@ == old(clients)@.insert(client_id, sender),
{
    clients.insert(client_id, sender);
}

/// Removes connection `client_id`; nothing happens if it is not registered.
pub fn remove_connection<H>(clients: &mut Registry<H>, client_id: ConnectionId)
    requires
        old(clients).wf(),
    ensures
        final(clients).wf(),
        final(clients)@ == old(clients)@.remove(client_id),
{
    clients.remove(client_id);
}

/// After a connection is added and then removed, no broadcast reaches it
/// through the handle it was added with.
pub proof fn lemma_removed_not_reached<H>(m: Map<ConnectionId, H>, id: ConnectionId, h: H)
    ensures
        !reached(m.insert(id, h).remove(id), id, h),
{
}

/// After a connection is added twice, a broadcast reaches it through the
/// second handle only.
pub proof fn lemma_reinsert_replaces<H>(
    m: Map<ConnectionId, H>,
    id: ConnectionId,
    h1: H,
    h2: H,
    h: H,
)
    ensures
        reached(m.insert(id, h1).insert(id, h2), id, h) <==> h == h2,
{
}

} // verus!
