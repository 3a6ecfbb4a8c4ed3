//! Which row blocks of which excerpt have been coloured already.

use crate::brackets::ranges::{ChunkSet, RowRange};
use std::collections::HashMap;
use vstd::prelude::*;

verus! {

/// The fetched row blocks of every excerpt.
#[derive(Debug)]
pub struct FetchedChunks {
    pub entries: HashMap<u64, ChunkSet>,
}

impl View for FetchedChunks {
    type V = Map<u64, Set<RowRange>>;

    open spec fn view(&self) -> Map<u64, Set<RowRange>> {
        self.entries@.map_values(|chunks: ChunkSet| chunks@)
    }
}

/// The blocks fetched of an excerpt, none where it is new.
pub open spec fn fetched_of(fetched: Map<u64, Set<RowRange>>, id: u64) -> Set<RowRange> {
    if fetched.dom().contains(id) {
        fetched[id]
    } else {
        Set::empty()
    }
}

impl FetchedChunks {
    /// Nothing fetched.
    pub fn new() -> (fetched: Self)
        ensures
            fetched@ == Map::<u64, Set<RowRange>>::empty(),
    {
        let fetched: FetchedChunks = FetchedChunks { entries: HashMap::new() };
        assert(fetched@ =~= Map::<u64, Set<RowRange>>::empty());
        fetched
    }

    /// Forgets everything that was fetched.
    pub fn clear(&mut self)
        ensures
            final(self)@ == Map::<u64, Set<RowRange>>::empty(),
    {
        self.entries.clear();
        assert(self@ =~= Map::<u64, Set<RowRange>>::empty());
    }

    /// Takes out what was fetched of an excerpt.
    pub fn take(&mut self, id: u64) -> (chunks: ChunkSet)
        ensures
            chunks@ == fetched_of(old(self)@, id),
            final(self)@ == old(self)@.remove(id),
    {
        broadcast use vstd::std_specs::hash::group_hash_axioms;

        let taken: Option<ChunkSet> = self.entries.remove(&id);
        assert(self@ =~= old(self)@.remove(id));
        match taken {
            Some(chunks) => chunks,
            None => ChunkSet::new(),
        }
    }

    /// Records what was fetched of an excerpt.
    pub fn put(&mut self, id: u64, chunks: ChunkSet)
        ensures
            final(self)@ == old(self)@.insert(id, chunks@),
    {
        broadcast use vstd::std_specs::hash::group_hash_axioms;

        self.entries.insert(id, chunks);
        assert(self@ =~= old(self)@.insert(id, chunks@));
    }
}

} // verus!
