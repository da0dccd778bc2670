//! Routing by connection ID.

use vstd::prelude::*;
use vstd::slice::slice_to_vec;

use crate::bytes::bytes_equal;

verus! {

/// Connection IDs and the session, by its key, that each leads to. No
/// connection ID occurs twice.
pub struct RouteTable {
    entries: Vec<(Vec<u8>, u64)>,
}

/// The entry at `at` is that of `cid`.
pub open spec fn stands_at(entries: Seq<(Vec<u8>, u64)>, cid: Seq<u8>, at: int) -> bool {
    0 <= at < entries.len() && entries[at].0@ == cid
}

pub open spec fn routed(entries: Seq<(Vec<u8>, u64)>, cid: Seq<u8>) -> bool {
    exists|at: int| stands_at(entries, cid, at)
}

impl View for RouteTable {
    type V = Map<Seq<u8>, u64>;

    closed spec fn view(&self) -> Map<Seq<u8>, u64> {
        let entries = self.entries@;
        Map::new(
            |cid: Seq<u8>| routed(entries, cid),
            |cid: Seq<u8>| entries[choose|at: int| stands_at(entries, cid, at)].1,
        )
    }
}

/// `list` holds the session of every route, in some order: one with several
/// connection IDs comes once for each.
pub open spec fn lists_sessions(list: Seq<u64>, routes: Map<Seq<u8>, u64>) -> bool {
    exists|cids: Seq<Seq<u8>>| #[trigger] lists_routes(cids, list, routes)
}

/// `cids` are the connection IDs that are routed, and `list` holds their
/// sessions.
pub open spec fn lists_routes(
    cids: Seq<Seq<u8>>,
    list: Seq<u64>,
    routes: Map<Seq<u8>, u64>,
) -> bool {
    &&& cids.no_duplicates()
    &&& cids.len() == list.len()
    &&& forall|cid: Seq<u8>| #[trigger] cids.contains(cid) <==> routes.contains_key(cid)
    &&& forall|i: int| 0 <= i < list.len() ==> #[trigger] list[i] == routes[cids[i]]
}

impl RouteTable {
    pub closed spec fn well_formed(self) -> bool {
        forall|i: int, j: int|
            #![trigger self.entries@[i], self.entries@[j]]
            0 <= i < j < self.entries@.len() ==> self.entries@[i].0@ != self.entries@[j].0@
    }

    /// What the table says of an entry.
    proof fn lemma_entry(self, at: int)
        requires
            self.well_formed(),
            0 <= at < self.entries@.len(),
        ensures
            self@.contains_key(self.entries@[at].0@),
            self@[self.entries@[at].0@] == self.entries@[at].1,
    {
        let cid = self.entries@[at].0@;
        assert(stands_at(self.entries@, cid, at));
        let found = choose|at: int| stands_at(self.entries@, cid, at);
        assert(self.entries@[found].0@ == self.entries@[at].0@);
        assert(found == at);
    }

    pub fn new() -> (table: RouteTable)
        ensures
            table@ == Map::<Seq<u8>, u64>::empty(),
            table.well_formed(),
    {
        let table = RouteTable { entries: Vec::new() };
        assert(table@ =~= Map::<Seq<u8>, u64>::empty());
        table
    }

    fn find(&self, cid: &[u8]) -> (at: Option<usize>)
        ensures
            match at {
                Some(at) => stands_at(self.entries@, cid@, at as int),
                None => !routed(self.entries@, cid@),
            },
    {
        let mut at: usize = 0;
        while at < self.entries.len()
            invariant
                at <= self.entries@.len(),
                forall|i: int| 0 <= i < at ==> !stands_at(self.entries@, cid@, i),
            decreases self.entries@.len() - at,
        {
            if bytes_equal(self.entries[at].0.as_slice(), cid) {
                return Some(at);
            }
            at = at + 1;
        }
        None
    }

    /// The session that a connection ID leads to.
    pub fn get(&self, cid: &[u8]) -> (session: Option<u64>)
        requires
            self.well_formed(),
        ensures
            match session {
                Some(session) => self@.contains_key(cid@) && self@[cid@] == session,
                None => !self@.contains_key(cid@),
            },
    {
        match self.find(cid) {
            Some(at) => {
                proof {
                    self.lemma_entry(at as int);
                }
                Some(self.entries[at].1)
            },
            None => None,
        }
    }

    pub fn is_empty(&self) -> (empty: bool)
        requires
            self.well_formed(),
        ensures
            empty == (self@ == Map::<Seq<u8>, u64>::empty()),
    {
        proof {
            if self.entries@.len() > 0 {
                self.lemma_entry(0);
            } else {
                assert(self@ =~= Map::<Seq<u8>, u64>::empty());
            }
        }
        self.entries.len() == 0
    }

    /// Stop routing a connection ID.
    pub fn remove(&mut self, cid: &[u8])
        requires
            old(self).well_formed(),
        ensures
            final(self)@ == old(self)@.remove(cid@),
            final(self).well_formed(),
    {
        match self.find(cid) {
            Some(at) => {
                let ghost before = *self;
                let _entry = self.entries.remove(at);
                proof {
                    let left = self.entries@;
                    assert(left =~= before.entries@.remove(at as int));
                    assert(self.well_formed()) by {
                        assert forall|i: int, j: int| 0 <= i < j < left.len() implies left[i].0@
                            != left[j].0@ by {
                            let wide_i = if i < at { i } else { i + 1 };
                            let wide_j = if j < at { j } else { j + 1 };
                            assert(left[i] == before.entries@[wide_i]);
                            assert(left[j] == before.entries@[wide_j]);
                        }
                    }
                    assert forall|key: Seq<u8>| #[trigger] self@.contains_key(key) implies before@.remove(
                        cid@,
                    ).contains_key(key) && self@[key] == before@[key] by {
                        let i = choose|i: int| stands_at(left, key, i);
                        let wide = if i < at { i } else { i + 1 };
                        assert(left[i] == before.entries@[wide]);
                        before.lemma_entry(wide);
                        self.lemma_entry(i);
                        assert(before.entries@[wide].0@ != before.entries@[at as int].0@);
                    }
                    assert forall|key: Seq<u8>| #[trigger]
                        before@.remove(cid@).contains_key(key) implies self@.contains_key(key) by {
                        let i = choose|i: int| stands_at(before.entries@, key, i);
                        let narrow = if i < at { i } else { i - 1 };
                        assert(left[narrow] == before.entries@[i]);
                        assert(stands_at(left, key, narrow));
                    }
                    assert(self@ =~= before@.remove(cid@));
                }
            },
            None => {
                assert(self@ =~= old(self)@.remove(cid@));
            },
        }
    }

    /// Route a connection ID to a session, in place of any other.
    pub fn insert(&mut self, cid: &[u8], session: u64)
        requires
            old(self).well_formed(),
        ensures
            final(self)@ == old(self)@.insert(cid@, session),
            final(self).well_formed(),
    {
        self.remove(cid);
        let ghost before = *self;
        let copy = slice_to_vec(cid);
        self.entries.push((copy, session));
        proof {
            let after = self.entries@;
            assert(!before@.contains_key(cid@));
            assert(self.well_formed()) by {
                assert forall|i: int, j: int| 0 <= i < j < after.len() implies after[i].0@
                    != after[j].0@ by {
                    assert(after[i] == before.entries@[i]);
                    if j < before.entries@.len() {
                        assert(after[j] == before.entries@[j]);
                    } else {
                        before.lemma_entry(i);
                    }
                }
            }
            self.lemma_entry(before.entries@.len() as int);
            assert forall|key: Seq<u8>| #[trigger] self@.contains_key(key) implies old(self)@.insert(
                cid@,
                session,
            ).contains_key(key) && self@[key] == old(self)@.insert(cid@, session)[key] by {
                let i = choose|i: int| stands_at(after, key, i);
                self.lemma_entry(i);
                if i < before.entries@.len() {
                    assert(after[i] == before.entries@[i]);
                    before.lemma_entry(i);
                }
            }
            assert forall|key: Seq<u8>| #[trigger]
                old(self)@.insert(cid@, session).contains_key(key) implies self@.contains_key(key) by {
                if key != cid@ {
                    assert(before@.contains_key(key));
                    let i = choose|i: int| stands_at(before.entries@, key, i);
                    assert(after[i] == before.entries@[i]);
                    assert(stands_at(after, key, i));
                }
            }
            assert(self@ =~= old(self)@.insert(cid@, session));
        }
    }

    /// The sessions that are routed to; one with several connection IDs comes
    /// once for each.
    pub fn sessions(&self) -> (list: Vec<u64>)
        requires
            self.well_formed(),
        ensures
            lists_sessions(list@, self@),
    {
        let mut list: Vec<u64> = Vec::new();
        let mut at: usize = 0;
        while at < self.entries.len()
            invariant
                at <= self.entries@.len(),
                list@.len() == at,
                forall|i: int| 0 <= i < at ==> list@[i] == self.entries@[i].1,
            decreases self.entries@.len() - at,
        {
            list.push(self.entries[at].1);
            at = at + 1;
        }
        proof {
            let entries = self.entries@;
            let cids = Seq::new(entries.len(), |i: int| entries[i].0@);
            assert forall|i: int, j: int| 0 <= i < j < cids.len() implies cids[i] != cids[j] by {
                assert(entries[i].0@ != entries[j].0@);
            }
            assert forall|cid: Seq<u8>| #[trigger] cids.contains(cid) <==> self@.contains_key(
                cid,
            ) by {
                if cids.contains(cid) {
                    let i = choose|i: int| 0 <= i < cids.len() && cids[i] == cid;
                    self.lemma_entry(i);
                }
                if self@.contains_key(cid) {
                    let i = choose|i: int| stands_at(entries, cid, i);
                    assert(cids[i] == cid);
                }
            }
            assert forall|i: int| 0 <= i < list@.len() implies #[trigger] list@[i]
                == self@[cids[i]] by {
                self.lemma_entry(i);
            }
            assert(lists_routes(cids, list@, self@));
        }
        list
    }
}

/// The list of sessions holds a session exactly where some connection ID leads
/// to it, and is as long as there are connection IDs.
pub proof fn law_listed_sessions_are_the_routed_ones(
    list: Seq<u64>,
    routes: Map<Seq<u8>, u64>,
    session: u64,
)
    requires
        lists_sessions(list, routes),
    ensures
        list.contains(session) <==> exists|cid: Seq<u8>| #[trigger]
            routes.contains_key(cid) && routes[cid] == session,
{
    let cids = choose|cids: Seq<Seq<u8>>| #[trigger] lists_routes(cids, list, routes);
    if list.contains(session) {
        let i = choose|i: int| 0 <= i < list.len() && list[i] == session;
        assert(cids.contains(cids[i]));
        assert(routes.contains_key(cids[i]));
    }
    if exists|cid: Seq<u8>| #[trigger] routes.contains_key(cid) && routes[cid] == session {
        let cid = choose|cid: Seq<u8>| #[trigger] routes.contains_key(cid) && routes[cid] == session;
        assert(cids.contains(cid));
        let i = choose|i: int| 0 <= i < cids.len() && cids[i] == cid;
        assert(list[i] == session);
    }
}

} // verus!
