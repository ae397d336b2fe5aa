//! The in-memory snapshot of the persisted member-id to generated-name
//! mapping. It is loaded once per batch from the store's rows and mirrors
//! every upsert the batch performs, so it always models the store's table.

use std::collections::HashMap;
use vstd::prelude::*;

verus! {

broadcast use vstd::std_specs::hash::group_hash_axioms;

/// A snapshot of the store's single table: one generated name per member id.
pub struct NameCache {
    map: HashMap<u64, String>,
}

impl View for NameCache {
    type V = Map<u64, Seq<char>>;

    closed spec fn view(&self) -> Map<u64, Seq<char>> {
        Map::new(
            |id: u64| self.map@.contains_key(id),
            |id: u64| self.map@[id]@,
        )
    }
}

/// The mapping that a sequence of (member id, name) rows builds up, read in
/// order, a later row overwriting an earlier one with the same id.
pub open spec fn rows_map(rows: Seq<(u64, String)>) -> Map<u64, Seq<char>>
    decreases rows.len(),
{
    if rows.len() == 0 {
        Map::empty()
    } else {
        rows_map(rows.drop_last()).insert(rows.last().0, rows.last().1@)
    }
}

impl NameCache {
    /// An empty mapping.
    pub fn new() -> (r: Self)
        ensures
            r@ == Map::<u64, Seq<char>>::empty(),
    {
        let r = NameCache { map: HashMap::new() };
        proof {
            assert(r@ =~= Map::<u64, Seq<char>>::empty());
        }
        r
    }

    /// The snapshot that one bulk read of the store's rows builds, in row
    /// order, upsert semantics.
    pub fn from_rows(rows: &Vec<(u64, String)>) -> (r: Self)
        ensures
            r@ == rows_map(rows@),
    {
        let mut cache = NameCache::new();
        let mut i: usize = 0;
        while i < rows.len()
            invariant
                i <= rows@.len(),
                cache@ == rows_map(rows@.take(i as int)),
            decreases rows@.len() - i,
        {
            let id = rows[i].0;
            let name = rows[i].1.clone();
            cache.insert(id, name);
            proof {
                assert(rows@.take(i as int + 1).drop_last() =~= rows@.take(i as int));
                assert(rows@.take(i as int + 1).last() == rows@[i as int]);
            }
            i = i + 1;
        }
        proof {
            assert(rows@.take(rows@.len() as int) =~= rows@);
        }
        cache
    }

    /// The stored name for a member, if one exists.
    pub fn get(&self, id: u64) -> (r: Option<&String>)
        ensures
            match r {
                Some(name) => self@.contains_key(id) && name@ == self@[id],
                None => !self@.contains_key(id),
            },
    {
        self.map.get(&id)
    }

    /// Inserts or replaces the record for a member.
    pub fn insert(&mut self, id: u64, name: String)
        ensures
            final(self)@ == old(self)@.insert(id, name@),
    {
        let ghost pre = self@;
        self.map.insert(id, name);
        proof {
            assert(self@ =~= pre.insert(id, name@));
        }
    }

    /// How many members have a record.
    pub fn len(&self) -> (r: usize)
        ensures
            r == self@.len(),
    {
        proof {
            assert(self@.dom() =~= self.map@.dom());
        }
        self.map.len()
    }
}

} // verus!
