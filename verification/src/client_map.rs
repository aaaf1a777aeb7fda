//! A map keyed by client identity.

use crate::client::{ClientId, ClientIdView};
use vstd::prelude::*;

verus! {

/// One value for each of a few clients. No client occurs twice among the entries.
pub struct ClientMap<V> {
    entries: Vec<(ClientId, V)>,
}

impl<V> ClientMap<V> {
    /// Whether the entry at `i` belongs to `client`.
    spec fn holds_at(self, client: ClientIdView, i: int) -> bool {
        0 <= i < self.entries@.len() && self.entries@[i].0@ == client
    }

    /// No client has two entries.
    pub closed spec fn well_formed(self) -> bool {
        forall|i: int, j: int|
            0 <= i < self.entries@.len() && 0 <= j < self.entries@.len() && i != j
                ==> #[trigger] self.entries@[i].0@ != #[trigger] self.entries@[j].0@
    }
}

impl<V> View for ClientMap<V> {
    type V = Map<ClientIdView, V>;

    closed spec fn view(&self) -> Map<ClientIdView, V> {
        Map::new(
            |client: ClientIdView| exists|i: int| self.holds_at(client, i),
            |client: ClientIdView| self.entries@[choose|i: int| self.holds_at(client, i)].1,
        )
    }
}

impl<V> ClientMap<V> {
    /// A map without entries.
    pub fn new() -> (map: Self)
        ensures
            map.well_formed(),
            map@ == Map::<ClientIdView, V>::empty(),
    {
        let map = ClientMap { entries: Vec::new() };
        assert(map@ =~= Map::<ClientIdView, V>::empty());
        map
    }

    /// What the map holds for the client of the entry at `i`.
    proof fn lemma_entry(&self, i: int)
        requires
            self.well_formed(),
            0 <= i < self.entries@.len(),
        ensures
            self@.contains_key(self.entries@[i].0@),
            self@[self.entries@[i].0@] == self.entries@[i].1,
    {
        assert(self.holds_at(self.entries@[i].0@, i));
    }

    /// Position of the client's entry.
    fn find(&self, client: &ClientId) -> (found: Option<usize>)
        ensures
            found matches Some(i) ==> self.holds_at(client@, i as int),
            found is None ==> !self@.contains_key(client@),
    {
        for i in 0..self.entries.len()
            invariant
                forall|j: int| 0 <= j < i ==> #[trigger] self.entries@[j].0@ != client@,
        {
            if self.entries[i].0.is_same(client) {
                return Some(i);
            }
        }
        None
    }

    /// The client's value.
    pub fn get(&self, client: &ClientId) -> (value: Option<&V>)
        requires
            self.well_formed(),
        ensures
            value == (if self@.contains_key(client@) { Some(&self@[client@]) } else { None }),
    {
        match self.find(client) {
            Some(i) => {
                proof {
                    self.lemma_entry(i as int);
                }
                Some(&self.entries[i].1)
            },
            None => None,
        }
    }

    /// Removes the client's value.
    pub fn remove(&mut self, client: &ClientId)
        requires
            old(self).well_formed(),
        ensures
            final(self).well_formed(),
            final(self)@ == old(self)@.remove(client@),
    {
        match self.find(client) {
            Some(i) => {
                self.entries.swap_remove(i);
                proof {
                    let before = *old(self);
                    let last = before.entries@.len() - 1;
                    assert forall|c: ClientIdView| #[trigger]
                        self@.contains_key(c) <==> before@.remove(client@).contains_key(c) by {
                        if self@.contains_key(c) {
                            let k = choose|k: int| self.holds_at(c, k);
                            let m = if k == i { last } else { k };
                            assert(before.holds_at(c, m));
                            assert(before.entries@[m].0@ != before.entries@[i as int].0@);
                        }
                        if before@.remove(client@).contains_key(c) {
                            let m = choose|m: int| before.holds_at(c, m);
                            assert(self.holds_at(c, if m == last { i as int } else { m }));
                        }
                    }
                    assert forall|c: ClientIdView| #[trigger]
                        self@.contains_key(c) implies self@[c] == before@[c] by {
                        let k = choose|k: int| self.holds_at(c, k);
                        self.lemma_entry(k);
                        before.lemma_entry(if k == i { last } else { k });
                    }
                    assert(self@ =~= before@.remove(client@));
                }
            },
            None => {
                assert(self@.remove(client@) =~= self@);
            },
        }
    }

    /// Gives the client a value, in place of the one it had.
    pub fn insert(&mut self, client: ClientId, value: V)
        requires
            old(self).well_formed(),
        ensures
            final(self).well_formed(),
            final(self)@ == old(self)@.insert(client@, value),
    {
        self.remove(&client);
        let ghost before = *self;
        let ghost key = client@;
        self.entries.push((client, value));
        proof {
            let n = before.entries@.len() as int;
            assert forall|i: int| 0 <= i < n implies #[trigger] before.entries@[i].0@ != key by {
                before.lemma_entry(i);
            }
            self.lemma_entry(n);
            assert forall|c: ClientIdView| #[trigger]
                self@.contains_key(c) <==> before@.insert(key, value).contains_key(c) by {
                if self@.contains_key(c) && c != key {
                    let k = choose|k: int| self.holds_at(c, k);
                    assert(before.holds_at(c, k));
                }
                if before@.contains_key(c) {
                    let k = choose|k: int| before.holds_at(c, k);
                    assert(self.holds_at(c, k));
                }
            }
            assert forall|c: ClientIdView| self@.contains_key(c) && c != key implies
                #[trigger] self@[c] == before@[c] by {
                let k = choose|k: int| self.holds_at(c, k);
                self.lemma_entry(k);
                before.lemma_entry(k);
            }
            assert(self@ =~= before@.insert(key, value));
            assert(before@.insert(key, value) =~= old(self)@.insert(key, value));
        }
    }
}

} // verus!
