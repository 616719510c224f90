//! Bidirectional map between transient entity ids and persistent character
//! ids. Entity ids are unique within a zone session; character ids are stable
//! across zones and belong to players only.

use crate::vmap::VMap;
use vstd::prelude::*;

verus! {

pub struct IdTracker {
    e2c: VMap<u64>,
    c2e: VMap<u64>,
}

impl IdTracker {
    pub closed spec fn wf(self) -> bool {
        &&& self.e2c.wf()
        &&& self.c2e.wf()
    }

    /// entity id -> character id
    pub closed spec fn entity_to_char(self) -> Map<u64, u64> {
        self.e2c@
    }

    /// character id -> entity id
    pub closed spec fn char_to_entity(self) -> Map<u64, u64> {
        self.c2e@
    }

    pub fn new() -> (r: IdTracker)
        ensures
            r.wf(),
            r.entity_to_char() == Map::<u64, u64>::empty(),
            r.char_to_entity() == Map::<u64, u64>::empty(),
    {
        IdTracker { e2c: VMap::new(), c2e: VMap::new() }
    }

    /// Record that `entity_id` currently belongs to `character_id`.
    pub fn add_mapping(&mut self, entity_id: u64, character_id: u64)
        requires
            old(self).wf(),
        ensures
            final(self).wf(),
            final(self).entity_to_char() == old(self).entity_to_char().insert(
                entity_id,
                character_id,
            ),
            final(self).char_to_entity() == old(self).char_to_entity().insert(
                character_id,
                entity_id,
            ),
    {
        self.e2c.insert(entity_id, character_id);
        self.c2e.insert(character_id, entity_id);
    }

    pub fn get_character_id(&self, entity_id: u64) -> (r: Option<u64>)
        requires
            self.wf(),
        ensures
            match r {
                Some(c) => self.entity_to_char().contains_key(entity_id)
                    && c == self.entity_to_char()[entity_id],
                None => !self.entity_to_char().contains_key(entity_id),
            },
    {
        match self.e2c.get(entity_id) {
            Some(c) => Some(*c),
            None => None,
        }
    }

    pub fn get_entity_id(&self, character_id: u64) -> (r: Option<u64>)
        requires
            self.wf(),
        ensures
            match r {
                Some(e) => self.char_to_entity().contains_key(character_id)
                    && e == self.char_to_entity()[character_id],
                None => !self.char_to_entity().contains_key(character_id),
            },
    {
        match self.c2e.get(character_id) {
            Some(e) => Some(*e),
            None => None,
        }
    }

    /// The character id of the local player, 0 when it is not yet known.
    pub fn get_local_character_id(&self, local_entity_id: u64) -> (r: u64)
        requires
            self.wf(),
        ensures
            self.entity_to_char().contains_key(local_entity_id) ==> r == self.entity_to_char()[local_entity_id],
            !self.entity_to_char().contains_key(local_entity_id) ==> r == 0,
    {
        match self.e2c.get(local_entity_id) {
            Some(c) => *c,
            None => 0,
        }
    }

    pub fn clear(&mut self)
        ensures
            final(self).wf(),
            final(self).entity_to_char() == Map::<u64, u64>::empty(),
            final(self).char_to_entity() == Map::<u64, u64>::empty(),
    {
        self.e2c.clear();
        self.c2e.clear();
    }
}

} // verus!
