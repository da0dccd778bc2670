//! The streams of a session, by stream id.

use std::collections::hash_map::Entry;
use std::collections::HashMap;

use vstd::prelude::*;
use vstd::std_specs::iter::IteratorSpec;

use crate::stream::{QuicStream, StreamView};

verus! {

/// Live streams by stream id.
pub struct StreamTable {
    map: HashMap<i64, QuicStream>,
}

impl View for StreamTable {
    type V = Map<i64, StreamView>;

    closed spec fn view(&self) -> Map<i64, StreamView> {
        self.map@.map_values(|stream: QuicStream| stream@)
    }
}

/// The ids in `list` are those of the table, each once, in some order.
pub open spec fn lists_ids(list: Seq<i64>, table: Map<i64, StreamView>) -> bool {
    &&& list.no_duplicates()
    &&& forall|id: i64| #[trigger] list.contains(id) <==> table.contains_key(id)
}

impl StreamTable {
    pub fn new() -> (table: StreamTable)
        ensures
            table@ == Map::<i64, StreamView>::empty(),
    {
        let table = StreamTable { map: HashMap::new() };
        assert(table@ =~= Map::<i64, StreamView>::empty());
        table
    }

    pub fn contains(&self, id: i64) -> (known: bool)
        ensures
            known == self@.contains_key(id),
    {
        self.map.contains_key(&id)
    }

    pub fn get(&self, id: i64) -> (stream: Option<&QuicStream>)
        ensures
            match stream {
                Some(stream) => self@.contains_key(id) && self@[id] == stream@,
                None => !self@.contains_key(id),
            },
    {
        self.map.get(&id)
    }

    /// A stream of the table, to be changed in its place.
    pub fn get_mut(&mut self, id: i64) -> (stream: Option<&mut QuicStream>)
        ensures
            match stream {
                Some(stream) => {
                    &&& old(self)@.contains_key(id)
                    &&& stream@ == old(self)@[id]
                    &&& final(self)@ == old(self)@.insert(id, final(stream)@)
                },
                None => !old(self)@.contains_key(id) && final(self)@ == old(self)@,
            },
    {
        match self.map.entry(id) {
            Entry::Occupied(entry) => Some(entry.into_mut()),
            Entry::Vacant(_) => None,
        }
    }

    /// Take a stream out of the table.
    pub fn take(&mut self, id: i64) -> (stream: Option<QuicStream>)
        ensures
            final(self)@ == old(self)@.remove(id),
            match stream {
                Some(stream) => old(self)@.contains_key(id) && old(self)@[id] == stream@,
                None => !old(self)@.contains_key(id),
            },
    {
        let stream = self.map.remove(&id);
        assert(self@ =~= old(self)@.remove(id));
        stream
    }

    /// Enter a stream, in place of any other of that id.
    pub fn put(&mut self, id: i64, stream: QuicStream)
        ensures
            final(self)@ == old(self)@.insert(id, stream@),
    {
        self.map.insert(id, stream);
        assert(self@ =~= old(self)@.insert(id, stream@));
    }

    /// The ids of the table, each once, in no particular order.
    pub fn ids(&self) -> (list: Vec<i64>)
        ensures
            lists_ids(list@, self@),
    {
        let mut list: Vec<i64> = Vec::new();
        let ghost all = self.map.keys().remaining().unref();
        for id in keys: self.map.keys()
            invariant
                list@.len() == keys.index(),
                keys.seq().unref() == all,
                list@ == all.take(keys.index() as int),
        {
            list.push(*id);
        }
        assert(list@ =~= all);
        assert(all.to_set() == self.map@.dom());
        assert forall|id: i64| #[trigger] list@.contains(id) implies self@.contains_key(id) by {
            assert(all.to_set().contains(id));
        }
        assert forall|id: i64| self@.contains_key(id) implies #[trigger] list@.contains(id) by {
            assert(all.to_set().contains(id));
        }
        list
    }
}

/// The list of ids is the table's, each once.
pub proof fn law_listed_ids_are_the_known_ones(list: Seq<i64>, table: Map<i64, StreamView>, id: i64)
    requires
        lists_ids(list, table),
    ensures
        list.contains(id) <==> table.contains_key(id),
        forall|i: int, j: int|
            0 <= i < list.len() && 0 <= j < list.len() && #[trigger] list[i] == #[trigger] list[j]
                ==> i == j,
{
}

} // verus!
