//! Per-cast timeline. For each `(caster entity id, skill id)` pair the
//! timestamp of the most recent cast start is kept; when that cast spawns a
//! projectile or trap, the spawn's object id is projected to the cast
//! timestamp, so that damage dealt by the spawn can be dated back to the cast.

use crate::vmap::VMap;
use vstd::prelude::*;

verus! {

pub struct SkillTracker {
    casts: VMap<VMap<i64>>,
    projectile_ts: VMap<i64>,
}

impl SkillTracker {
    pub closed spec fn wf(self) -> bool {
        &&& self.casts.wf()
        &&& forall|e: u64| #[trigger]
            self.casts@.contains_key(e) ==> self.casts@[e].wf()
        &&& self.projectile_ts.wf()
    }

    /// The timestamp of the most recent cast start of `skill_id` by `entity_id`.
    pub closed spec fn cast_ts(self, entity_id: u64, skill_id: u32) -> Option<i64> {
        if self.casts@.contains_key(entity_id) && self.casts@[entity_id]@.contains_key(
            skill_id as u64,
        ) {
            Some(self.casts@[entity_id]@[skill_id as u64])
        } else {
            None
        }
    }

    /// projectile / trap object id -> timestamp of the owning cast
    pub closed spec fn projectile_map(self) -> Map<u64, i64> {
        self.projectile_ts@
    }

    pub fn new() -> (r: SkillTracker)
        ensures
            r.wf(),
            forall|e: u64, s: u32| #[trigger] r.cast_ts(e, s) is None,
            r.projectile_map() == Map::<u64, i64>::empty(),
    {
        SkillTracker { casts: VMap::new(), projectile_ts: VMap::new() }
    }

    /// Record a cast start.
    pub fn new_cast(&mut self, entity_id: u64, skill_id: u32, timestamp: i64)
        requires
            old(self).wf(),
        ensures
            final(self).wf(),
            final(self).cast_ts(entity_id, skill_id) == Some(timestamp),
            forall|e: u64, s: u32|
                !(e == entity_id && s == skill_id) ==> #[trigger] final(self).cast_ts(e, s) == old(self).cast_ts(e, s),
            final(self).projectile_map() == old(self).projectile_map(),
    {
        let mut inner = match self.casts.remove(entity_id) {
            Some(m) => m,
            None => VMap::new(),
        };
        inner.insert(skill_id as u64, timestamp);
        self.casts.insert(entity_id, inner);
    }

    pub fn get_cast(&self, entity_id: u64, skill_id: u32) -> (r: Option<i64>)
        requires
            self.wf(),
        ensures
            r == self.cast_ts(entity_id, skill_id),
    {
        match self.casts.get(entity_id) {
            Some(inner) => match inner.get(skill_id as u64) {
                Some(t) => Some(*t),
                None => None,
            },
            None => None,
        }
    }

    /// Project a spawned projectile or trap onto the owning cast's timestamp.
    pub fn link_projectile(&mut self, object_id: u64, timestamp: i64)
        requires
            old(self).wf(),
        ensures
            final(self).wf(),
            final(self).projectile_map() == old(self).projectile_map().insert(
                object_id,
                timestamp,
            ),
            forall|e: u64, s: u32| #[trigger]
                final(self).cast_ts(e, s) == old(self).cast_ts(e, s),
    {
        self.projectile_ts.insert(object_id, timestamp);
    }

    pub fn projectile_cast_ts(&self, object_id: u64) -> (r: Option<i64>)
        requires
            self.wf(),
        ensures
            match r {
                Some(t) => self.projectile_map().contains_key(object_id) && t
                    == self.projectile_map()[object_id],
                None => !self.projectile_map().contains_key(object_id),
            },
    {
        match self.projectile_ts.get(object_id) {
            Some(t) => Some(*t),
            None => None,
        }
    }

    /// Forget everything; used when the encounter or the zone resets.
    pub fn clear(&mut self)
        ensures
            final(self).wf(),
            forall|e: u64, s: u32| #[trigger] final(self).cast_ts(e, s) is None,
            final(self).projectile_map() == Map::<u64, i64>::empty(),
    {
        self.casts.clear();
        self.projectile_ts.clear();
    }
}

} // verus!
