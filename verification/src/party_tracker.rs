//! Party membership: entity id -> party id and character id -> party id,
//! scoped by raid instance. When a member leaves, both mappings for that
//! participant are cleared together; membership survives an entity-id change
//! through the character id.

use crate::id_tracker::IdTracker;
use crate::smap::SMap;
use crate::vmap::VMap;
use vstd::prelude::*;

verus! {

/// The two membership maps agree wherever the id tracker links an entity id
/// to a character id and both sides are present.
pub open spec fn party_maps_consistent(
    ept: Map<u64, u32>,
    cpt: Map<u64, u32>,
    e2c: Map<u64, u64>,
) -> bool {
    forall|e: u64|
        e2c.contains_key(e) && #[trigger] ept.contains_key(e) && cpt.contains_key(e2c[e])
            ==> ept[e] == cpt[e2c[e]]
}

/// Writing one party id to both sides of a linked pair keeps the two maps
/// consistent, as long as no other linked entity shares that character id.
pub proof fn lemma_party_add_consistent(
    ept: Map<u64, u32>,
    cpt: Map<u64, u32>,
    e2c: Map<u64, u64>,
    entity_id: u64,
    character_id: u64,
    party_id: u32,
)
    requires
        party_maps_consistent(ept, cpt, e2c),
        e2c.contains_key(entity_id) ==> e2c[entity_id] == character_id,
        forall|e: u64|
            e2c.contains_key(e) && e != entity_id ==> #[trigger] e2c[e] != character_id,
    ensures
        party_maps_consistent(
            ept.insert(entity_id, party_id),
            cpt.insert(character_id, party_id),
            e2c,
        ),
{
}

pub struct PartyTracker {
    entity_to_party: VMap<u32>,
    char_to_party: VMap<u32>,
    name_to_char: SMap<u64>,
    raid_to_parties: VMap<Vec<u32>>,
}

impl PartyTracker {
    pub closed spec fn wf(self) -> bool {
        &&& self.entity_to_party.wf()
        &&& self.char_to_party.wf()
        &&& self.name_to_char.wf()
        &&& self.raid_to_parties.wf()
    }

    pub closed spec fn entity_party(self) -> Map<u64, u32> {
        self.entity_to_party@
    }

    pub closed spec fn char_party(self) -> Map<u64, u32> {
        self.char_to_party@
    }

    /// Entity ids with a membership entry, in insertion order; the walk that
    /// builds a party snapshot follows it.
    pub closed spec fn entity_order(self) -> Seq<u64> {
        self.entity_to_party.key_seq()
    }

    pub fn new() -> (r: PartyTracker)
        ensures
            r.wf(),
            r.entity_party() == Map::<u64, u32>::empty(),
            r.char_party() == Map::<u64, u32>::empty(),
    {
        PartyTracker {
            entity_to_party: VMap::new(),
            char_to_party: VMap::new(),
            name_to_char: SMap::new(),
            raid_to_parties: VMap::new(),
        }
    }

    /// Every roster slot holds a tracked member.
    pub proof fn lemma_entity_order_entry(self, j: int)
        requires
            self.wf(),
            0 <= j < self.entity_order().len(),
        ensures
            self.entity_party().contains_key(self.entity_order()[j]),
    {
        self.entity_to_party.lemma_entry(j);
    }

    /// Every tracked member has a roster slot.
    pub proof fn lemma_entity_order_index(self, e: u64) -> (j: int)
        requires
            self.wf(),
            self.entity_party().contains_key(e),
        ensures
            0 <= j < self.entity_order().len(),
            self.entity_order()[j] == e,
    {
        self.entity_to_party.lemma_contains(e);
        let j = choose|j: int|
            0 <= j < self.entity_to_party.key_seq().len() && self.entity_to_party.key_seq()[j]
                == e;
        j
    }

    pub fn entity_count(&self) -> (n: usize)
        ensures
            n == self.entity_order().len(),
    {
        self.entity_to_party.len()
    }

    pub fn entity_at(&self, i: usize) -> (r: (u64, u32))
        requires
            self.wf(),
            i < self.entity_order().len(),
        ensures
            r.0 == self.entity_order()[i as int],
            self.entity_party().contains_key(r.0),
            r.1 == self.entity_party()[r.0],
    {
        let k = self.entity_to_party.key_at(i);
        let v = *self.entity_to_party.val_at(i);
        (k, v)
    }

    pub fn party_of_entity(&self, entity_id: u64) -> (r: Option<u32>)
        requires
            self.wf(),
        ensures
            match r {
                Some(p) => self.entity_party().contains_key(entity_id) && p
                    == self.entity_party()[entity_id],
                None => !self.entity_party().contains_key(entity_id),
            },
    {
        match self.entity_to_party.get(entity_id) {
            Some(p) => Some(*p),
            None => None,
        }
    }

    pub fn party_of_character(&self, character_id: u64) -> (r: Option<u32>)
        requires
            self.wf(),
        ensures
            match r {
                Some(p) => self.char_party().contains_key(character_id) && p
                    == self.char_party()[character_id],
                None => !self.char_party().contains_key(character_id),
            },
    {
        match self.char_to_party.get(character_id) {
            Some(p) => Some(*p),
            None => None,
        }
    }

    /// Register a member under `party_instance_id`. A missing side of the id
    /// pair is resolved through the id tracker, so that whenever both ids are
    /// known both maps receive the same party id.
    pub fn add(
        &mut self,
        ids: &IdTracker,
        raid_instance_id: u32,
        party_instance_id: u32,
        character_id: u64,
        entity_id: u64,
        name: Option<&String>,
    )
        requires
            old(self).wf(),
            ids.wf(),
        ensures
            final(self).wf(),
            ({
                let cid = if character_id != 0 {
                    character_id
                } else if entity_id != 0 && ids.entity_to_char().contains_key(entity_id) {
                    ids.entity_to_char()[entity_id]
                } else {
                    0
                };
                let eid = if entity_id != 0 {
                    entity_id
                } else if character_id != 0 && ids.char_to_entity().contains_key(character_id) {
                    ids.char_to_entity()[character_id]
                } else {
                    0
                };
                &&& final(self).entity_party() == if eid != 0 {
                    old(self).entity_party().insert(eid, party_instance_id)
                } else {
                    old(self).entity_party()
                }
                &&& final(self).char_party() == if cid != 0 {
                    old(self).char_party().insert(cid, party_instance_id)
                } else {
                    old(self).char_party()
                }
                &&& (eid != 0 && cid != 0) ==> {
                    &&& final(self).entity_party()[eid] == party_instance_id
                    &&& final(self).char_party()[cid] == party_instance_id
                }
            }),
    {
        let cid = if character_id != 0 {
            character_id
        } else if entity_id != 0 {
            match ids.get_character_id(entity_id) {
                Some(c) => c,
                None => 0,
            }
        } else {
            0
        };
        let eid = if entity_id != 0 {
            entity_id
        } else if character_id != 0 {
            match ids.get_entity_id(character_id) {
                Some(e) => e,
                None => 0,
            }
        } else {
            0
        };
        if eid != 0 {
            self.entity_to_party.insert(eid, party_instance_id);
        }
        if cid != 0 {
            self.char_to_party.insert(cid, party_instance_id);
        }
        if let Some(n) = name {
            if cid != 0 {
                self.name_to_char.insert(n.clone(), cid);
            }
        }
        let parties = match self.raid_to_parties.remove(raid_instance_id as u64) {
            Some(v) => v,
            None => Vec::new(),
        };
        let mut parties = parties;
        let mut seen = false;
        let mut i: usize = 0;
        while i < parties.len()
            invariant
                i <= parties.len(),
            decreases parties.len() - i,
        {
            if parties[i] == party_instance_id {
                seen = true;
            }
            i += 1;
        }
        if !seen {
            parties.push(party_instance_id);
        }
        self.raid_to_parties.insert(raid_instance_id as u64, parties);
    }

    /// Copy a known membership across a freshly learned entity/character link,
    /// so the lazily missing side catches up.
    pub fn complete_entry(&mut self, character_id: u64, entity_id: u64)
        requires
            old(self).wf(),
            character_id != 0,
            entity_id != 0,
        ensures
            final(self).wf(),
            old(self).char_party().contains_key(character_id) ==> {
                &&& final(self).entity_party() == old(self).entity_party().insert(
                    entity_id,
                    old(self).char_party()[character_id],
                )
                &&& final(self).char_party() == old(self).char_party()
            },
            (!old(self).char_party().contains_key(character_id) && old(self).entity_party().contains_key(entity_id)) ==> {
                &&& final(self).char_party() == old(self).char_party().insert(
                    character_id,
                    old(self).entity_party()[entity_id],
                )
                &&& final(self).entity_party() == old(self).entity_party()
            },
            (!old(self).char_party().contains_key(character_id) && !old(self).entity_party().contains_key(entity_id)) ==> *final(self) == *old(self),
    {
        let p = match self.char_to_party.get(character_id) {
            Some(p) => Some(*p),
            None => None,
        };
        match p {
            Some(p) => {
                self.entity_to_party.insert(entity_id, p);
            },
            None => {
                let q = match self.entity_to_party.get(entity_id) {
                    Some(q) => Some(*q),
                    None => None,
                };
                if let Some(q) = q {
                    self.char_to_party.insert(character_id, q);
                }
            },
        }
    }

    /// A member left: both membership mappings for that participant go away
    /// together.
    pub fn remove(&mut self, ids: &IdTracker, _party_instance_id: u32, name: &String)
        requires
            old(self).wf(),
            ids.wf(),
        ensures
            final(self).wf(),
            ({
                let known = old(self).names()@.contains_key(name@);
                let cid = old(self).names()@[name@];
                &&& !known ==> {
                    &&& final(self).entity_party() == old(self).entity_party()
                    &&& final(self).char_party() == old(self).char_party()
                }
                &&& known ==> {
                    &&& final(self).char_party() == old(self).char_party().remove(cid)
                    &&& final(self).entity_party() == if ids.char_to_entity().contains_key(cid) {
                        old(self).entity_party().remove(ids.char_to_entity()[cid])
                    } else {
                        old(self).entity_party()
                    }
                }
            }),
    {
        let cid = match self.name_to_char.get(name) {
            Some(c) => Some(*c),
            None => None,
        };
        if let Some(cid) = cid {
            self.char_to_party.remove(cid);
            if let Some(eid) = ids.get_entity_id(cid) {
                self.entity_to_party.remove(eid);
            }
            self.name_to_char.remove(name);
        }
    }

    pub closed spec fn names(self) -> SMap<u64> {
        self.name_to_char
    }

    /// Drop every membership; used on `InitEnv` and on environment reset.
    pub fn reset_party_mappings(&mut self)
        ensures
            final(self).wf(),
            final(self).entity_party() == Map::<u64, u32>::empty(),
            final(self).char_party() == Map::<u64, u32>::empty(),
    {
        self.entity_to_party.clear();
        self.char_to_party.clear();
        self.name_to_char.clear();
        self.raid_to_parties.clear();
    }
}

} // verus!
