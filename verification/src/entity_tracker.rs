//! The authoritative catalog of live entities, keyed by entity id. It infers
//! entity types, records ownership of projectiles, traps and summons, and
//! resolves a striking object to the attributable actor by walking the owner
//! chain.

use crate::id_tracker::IdTracker;
use crate::models::{entity_slot_wf, Entity, EntityType, NpcGrade, in_player_skill_range,
    spec_in_player_skill_range};
use crate::vmap::VMap;
use vstd::prelude::*;

verus! {

/// Every catalog entry is stored under its own id, and every projectile,
/// trap or summon has a controlling owner.
pub open spec fn transients_owned(m: Map<u64, Entity>) -> bool {
    forall|k: u64| #[trigger] m.contains_key(k) ==> entity_slot_wf(k, m[k])
}

/// One step of owner resolution: a transient steps to its owner, everything
/// else is a fixpoint.
pub open spec fn owner_step(m: Map<u64, Entity>, id: u64) -> u64 {
    if m.contains_key(id) && m[id].entity_type.is_transient() {
        m[id].owner_id
    } else {
        id
    }
}

/// Owner resolution bounded by `fuel` hops.
pub open spec fn resolve_id(m: Map<u64, Entity>, id: u64, fuel: nat) -> u64
    decreases fuel,
{
    if fuel == 0 {
        id
    } else {
        let n = owner_step(m, id);
        if n == id {
            id
        } else {
            resolve_id(m, n, (fuel - 1) as nat)
        }
    }
}

/// The chain from `id` ends, within `fuel` hops, at an id that is not a
/// projectile, trap or summon (it may be an id the catalog has never seen).
pub open spec fn chain_resolves(m: Map<u64, Entity>, id: u64, fuel: nat) -> bool {
    !(m.contains_key(resolve_id(m, id, fuel)) && m[resolve_id(m, id, fuel)].entity_type.is_transient())
}

/// A placeholder for an id seen in a cross-reference before its announcing
/// packet; identifying packets later upgrade it.
pub open spec fn is_placeholder(e: Entity, id: u64) -> bool {
    &&& e.id == id
    &&& e.character_id == 0
    &&& e.name@ == Seq::<char>::empty()
    &&& e.entity_type == EntityType::Unknown
    &&& e.class_id == 0
    &&& e.gear_level == 0
    &&& e.stance == 0
    &&& e.owner_id == 0
    &&& e.skill_id == 0
    &&& e.npc_id == 0
    &&& e.current_hp == 0
    &&& e.max_hp == 0
}

pub struct EntityTracker {
    pub entities: VMap<Entity>,
    pub local_entity_id: u64,
    pub local_character_id: u64,
}

impl EntityTracker {
    pub open spec fn catalog(self) -> Map<u64, Entity> {
        self.entities@
    }

    pub open spec fn wf(self) -> bool {
        &&& self.entities.wf()
        &&& transients_owned(self.entities@)
    }

    pub fn new() -> (r: EntityTracker)
        ensures
            r.wf(),
            r.catalog() == Map::<u64, Entity>::empty(),
            r.local_entity_id == 0,
            r.local_character_id == 0,
    {
        EntityTracker { entities: VMap::new(), local_entity_id: 0, local_character_id: 0 }
    }

    pub fn get_entity(&self, id: u64) -> (r: Option<Entity>)
        requires
            self.wf(),
        ensures
            match r {
                Some(e) => self.catalog().contains_key(id) && e == self.catalog()[id],
                None => !self.catalog().contains_key(id),
            },
    {
        match self.entities.get(id) {
            Some(e) => Some(e.clone()),
            None => None,
        }
    }

    pub fn id_is_player(&self, id: u64) -> (r: bool)
        requires
            self.wf(),
        ensures
            r == (self.catalog().contains_key(id) && self.catalog()[id].entity_type
                == EntityType::Player),
    {
        match self.entities.get(id) {
            Some(e) => matches!(e.entity_type, EntityType::Player),
            None => false,
        }
    }

    fn placeholder(id: u64) -> (r: Entity)
        ensures
            is_placeholder(r, id),
    {
        Entity {
            id: id,
            character_id: 0,
            name: String::new(),
            entity_type: EntityType::Unknown,
            class_id: 0,
            gear_level: 0,
            stance: 0,
            owner_id: 0,
            skill_id: 0,
            npc_id: 0,
            current_hp: 0,
            max_hp: 0,
        }
    }

    /// Fetch the entity, creating an Unknown placeholder when the id has not
    /// been announced; a later identifying packet upgrades it.
    pub fn get_or_create_entity(&mut self, id: u64) -> (r: Entity)
        requires
            old(self).wf(),
        ensures
            final(self).wf(),
            r.id == id,
            final(self).catalog().contains_key(id),
            r == final(self).catalog()[id],
            old(self).catalog().contains_key(id) ==> *final(self) == *old(self) && r == old(self).catalog()[id],
            !old(self).catalog().contains_key(id) ==> final(self).catalog() == old(self).catalog().insert(id, r) && is_placeholder(r, id),
            final(self).local_entity_id == old(self).local_entity_id,
            final(self).local_character_id == old(self).local_character_id,
    {
        let existing = match self.entities.get(id) {
            Some(e) => Some(e.clone()),
            None => None,
        };
        match existing {
            Some(e) => e,
            None => {
                let e = Self::placeholder(id);
                self.entities.insert(id, e.clone());
                e
            },
        }
    }

    /// On `InitEnv` the zone changed: every entity is purged but the local
    /// player, whose record moves to the id the packet reports.
    pub fn init_env(&mut self, player_id: u64) -> (r: Entity)
        requires
            old(self).wf(),
        ensures
            final(self).wf(),
            final(self).local_entity_id == player_id,
            final(self).catalog().dom() == Set::<u64>::empty().insert(player_id),
            r == final(self).catalog()[player_id],
            r.id == player_id,
            r.entity_type == EntityType::Player,
            old(self).catalog().contains_key(old(self).local_entity_id) && old(self).catalog()[old(self).local_entity_id].entity_type == EntityType::Player ==> r == (
            Entity { id: player_id, ..old(self).catalog()[old(self).local_entity_id] }),
    {
        let local = match self.entities.get(self.local_entity_id) {
            Some(e) => Some(e.clone()),
            None => None,
        };
        let mut e = match local {
            Some(e) => {
                if matches!(e.entity_type, EntityType::Player) {
                    e
                } else {
                    let mut p = Self::placeholder(player_id);
                    p.entity_type = EntityType::Player;
                    p
                }
            },
            None => {
                let mut p = Self::placeholder(player_id);
                p.entity_type = EntityType::Player;
                p
            },
        };
        e.id = player_id;
        self.entities.clear();
        self.entities.insert(player_id, e.clone());
        self.local_entity_id = player_id;
        proof {
            assert(self.entities@.dom() =~= Set::<u64>::empty().insert(player_id));
        }
        e
    }

    /// Register a player announced by `InitPC` (the local player).
    pub fn init_pc(
        &mut self,
        player_id: u64,
        name: String,
        character_id: u64,
        class_id: u32,
        gear_level: u32,
        hp: i64,
        max_hp: i64,
    ) -> (r: Entity)
        requires
            old(self).wf(),
        ensures
            final(self).wf(),
            final(self).local_entity_id == player_id,
            final(self).local_character_id == character_id,
            r == (Entity {
                id: player_id,
                character_id: character_id,
                name: name,
                entity_type: EntityType::Player,
                class_id: class_id,
                gear_level: gear_level,
                stance: 0,
                owner_id: 0,
                skill_id: 0,
                npc_id: 0,
                current_hp: hp,
                max_hp: max_hp,
            }),
            final(self).catalog() == old(self).catalog().insert(player_id, r),
    {
        let e = Entity {
            id: player_id,
            character_id: character_id,
            name: name,
            entity_type: EntityType::Player,
            class_id: class_id,
            gear_level: gear_level,
            stance: 0,
            owner_id: 0,
            skill_id: 0,
            npc_id: 0,
            current_hp: hp,
            max_hp: max_hp,
        };
        self.local_entity_id = player_id;
        self.local_character_id = character_id;
        self.entities.insert(player_id, e.clone());
        e
    }

    /// Register a player announced by `NewPC`.
    pub fn new_pc(
        &mut self,
        player_id: u64,
        name: String,
        character_id: u64,
        class_id: u32,
        gear_level: u32,
        hp: i64,
        max_hp: i64,
    ) -> (r: Entity)
        requires
            old(self).wf(),
        ensures
            final(self).wf(),
            r == (Entity {
                id: player_id,
                character_id: character_id,
                name: name,
                entity_type: EntityType::Player,
                class_id: class_id,
                gear_level: gear_level,
                stance: 0,
                owner_id: 0,
                skill_id: 0,
                npc_id: 0,
                current_hp: hp,
                max_hp: max_hp,
            }),
            final(self).catalog() == old(self).catalog().insert(player_id, r),
            final(self).local_entity_id == old(self).local_entity_id,
            final(self).local_character_id == old(self).local_character_id,
    {
        let e = Entity {
            id: player_id,
            character_id: character_id,
            name: name,
            entity_type: EntityType::Player,
            class_id: class_id,
            gear_level: gear_level,
            stance: 0,
            owner_id: 0,
            skill_id: 0,
            npc_id: 0,
            current_hp: hp,
            max_hp: max_hp,
        };
        self.entities.insert(player_id, e.clone());
        e
    }

    /// After a server migration the local player keeps its entity record but
    /// carries a new character id.
    pub fn migration_execute(&mut self, character_id: u64)
        requires
            old(self).wf(),
        ensures
            final(self).wf(),
            final(self).local_character_id == character_id,
            final(self).local_entity_id == old(self).local_entity_id,
            old(self).catalog().contains_key(old(self).local_entity_id) ==> final(self).catalog()
                == old(self).catalog().insert(
                old(self).local_entity_id,
                (Entity {
                    character_id: character_id,
                    ..old(self).catalog()[old(self).local_entity_id]
                }),
            ),
            !old(self).catalog().contains_key(old(self).local_entity_id) ==> final(self).catalog()
                == old(self).catalog(),
    {
        self.local_character_id = character_id;
        let e = match self.entities.get(self.local_entity_id) {
            Some(e) => Some(e.clone()),
            None => None,
        };
        if let Some(mut e) = e {
            e.character_id = character_id;
            self.entities.insert(self.local_entity_id, e);
        }
    }

    /// Register an NPC; grades matching the boss-or-gate predicate are
    /// catalogued as Boss.
    pub fn new_npc(
        &mut self,
        object_id: u64,
        npc_id: u32,
        name: String,
        grade: NpcGrade,
        hp: i64,
        max_hp: i64,
    ) -> (r: Entity)
        requires
            old(self).wf(),
        ensures
            final(self).wf(),
            r.id == object_id,
            r.npc_id == npc_id,
            r.name == name,
            r.current_hp == hp,
            r.max_hp == max_hp,
            r.owner_id == 0,
            r.entity_type == if grade.is_boss_grade() {
                EntityType::Boss
            } else {
                EntityType::Npc
            },
            final(self).catalog() == old(self).catalog().insert(object_id, r),
            final(self).local_entity_id == old(self).local_entity_id,
            final(self).local_character_id == old(self).local_character_id,
    {
        let mut e = Self::placeholder(object_id);
        e.npc_id = npc_id;
        e.name = name;
        e.current_hp = hp;
        e.max_hp = max_hp;
        e.entity_type = if grade.boss_grade() {
            EntityType::Boss
        } else {
            EntityType::Npc
        };
        self.entities.insert(object_id, e.clone());
        e
    }

    /// Register a summoned NPC with its controlling owner. A summon reported
    /// without an owner is catalogued as a plain Npc, so that every transient
    /// in the catalog keeps a resolvable owner.
    pub fn new_npc_summon(
        &mut self,
        object_id: u64,
        npc_id: u32,
        name: String,
        owner_id: u64,
        hp: i64,
        max_hp: i64,
    ) -> (r: Entity)
        requires
            old(self).wf(),
        ensures
            final(self).wf(),
            r.id == object_id,
            r.npc_id == npc_id,
            r.name == name,
            r.owner_id == owner_id,
            r.entity_type == if owner_id != 0 {
                EntityType::Summon
            } else {
                EntityType::Npc
            },
            final(self).catalog() == old(self).catalog().insert(object_id, r),
            final(self).local_entity_id == old(self).local_entity_id,
            final(self).local_character_id == old(self).local_character_id,
    {
        let mut e = Self::placeholder(object_id);
        e.npc_id = npc_id;
        e.name = name;
        e.current_hp = hp;
        e.max_hp = max_hp;
        e.owner_id = owner_id;
        e.entity_type = if owner_id != 0 {
            EntityType::Summon
        } else {
            EntityType::Npc
        };
        self.entities.insert(object_id, e.clone());
        e
    }

    /// Register a projectile. One reported without an owner stays an Unknown
    /// placeholder: nothing could ever be attributed through it.
    pub fn new_projectile(&mut self, projectile_id: u64, owner_id: u64, skill_id: u32)
        requires
            old(self).wf(),
        ensures
            final(self).wf(),
            final(self).catalog().contains_key(projectile_id),
            ({
                let e = final(self).catalog()[projectile_id];
                &&& e.id == projectile_id
                &&& e.owner_id == owner_id
                &&& e.skill_id == skill_id
                &&& e.entity_type == if owner_id != 0 {
                    EntityType::Projectile
                } else {
                    EntityType::Unknown
                }
                &&& final(self).catalog() == old(self).catalog().insert(projectile_id, e)
            }),
            final(self).local_entity_id == old(self).local_entity_id,
            final(self).local_character_id == old(self).local_character_id,
    {
        let mut e = Self::placeholder(projectile_id);
        e.owner_id = owner_id;
        e.skill_id = skill_id;
        e.entity_type = if owner_id != 0 {
            EntityType::Projectile
        } else {
            EntityType::Unknown
        };
        self.entities.insert(projectile_id, e);
    }

    /// Register a trap, as `new_projectile`.
    pub fn new_trap(&mut self, object_id: u64, owner_id: u64, skill_id: u32)
        requires
            old(self).wf(),
        ensures
            final(self).wf(),
            final(self).catalog().contains_key(object_id),
            ({
                let e = final(self).catalog()[object_id];
                &&& e.id == object_id
                &&& e.owner_id == owner_id
                &&& e.skill_id == skill_id
                &&& e.entity_type == if owner_id != 0 {
                    EntityType::Trap
                } else {
                    EntityType::Unknown
                }
                &&& final(self).catalog() == old(self).catalog().insert(object_id, e)
            }),
            final(self).local_entity_id == old(self).local_entity_id,
            final(self).local_character_id == old(self).local_character_id,
    {
        let mut e = Self::placeholder(object_id);
        e.owner_id = owner_id;
        e.skill_id = skill_id;
        e.entity_type = if owner_id != 0 {
            EntityType::Trap
        } else {
            EntityType::Unknown
        };
        self.entities.insert(object_id, e);
    }

    /// Resolve a striking object to the attributable actor: walk the owner
    /// chain for at most four hops (a self-owned object or an exhausted chain
    /// stops the walk), then hand back the entity found there, creating a
    /// placeholder when the chain left the catalog.
    pub fn get_source_entity(&mut self, id: u64) -> (r: Entity)
        requires
            old(self).wf(),
        ensures
            final(self).wf(),
            r.id == resolve_id(old(self).catalog(), id, 4),
            final(self).catalog().contains_key(r.id),
            r == final(self).catalog()[r.id],
            old(self).catalog().contains_key(r.id) ==> *final(self) == *old(self) && r == old(self).catalog()[r.id],
            !old(self).catalog().contains_key(r.id) ==> final(self).catalog() == old(self).catalog().insert(r.id, r) && is_placeholder(r, r.id),
            // a chain that reaches its fixpoint within the bound never hands
            // back a projectile, trap or summon
            chain_resolves(old(self).catalog(), id, 4) ==> !r.entity_type.is_transient(),
            final(self).local_entity_id == old(self).local_entity_id,
            final(self).local_character_id == old(self).local_character_id,
    {
        let ghost m = self.catalog();
        let mut cur = id;
        let mut hops: u64 = 0;
        while hops < 4
            invariant
                *self == *old(self),
                m == self.catalog(),
                self.wf(),
                hops <= 4,
                resolve_id(m, id, 4) == resolve_id(m, cur, (4 - hops) as nat),
            decreases 4 - hops,
        {
            let next = match self.entities.get(cur) {
                Some(e) => {
                    if e.entity_type.transient() {
                        e.owner_id
                    } else {
                        cur
                    }
                },
                None => cur,
            };
            proof {
                assert(next == owner_step(m, cur));
                if next == cur {
                    lemma_resolve_fixpoint(m, cur, (4 - hops) as nat);
                    lemma_resolve_fixpoint(m, cur, (4 - hops - 1) as nat);
                } else {
                    assert(resolve_id(m, cur, (4 - hops) as nat) == resolve_id(
                        m,
                        next,
                        (4 - hops - 1) as nat,
                    ));
                }
            }
            cur = next;
            hops += 1;
        }
        proof {
            assert(cur == resolve_id(m, id, 4));
        }
        let r = self.get_or_create_entity(cur);
        proof {
            if chain_resolves(m, id, 4) {
                if m.contains_key(cur) {
                    assert(!m[cur].entity_type.is_transient());
                    assert(r == m[cur]);
                } else {
                    assert(is_placeholder(r, cur));
                }
            }
        }
        r
    }

    /// A cast packet for an entity still catalogued as Unknown or Npc, with a
    /// skill in the player range, upgrades the entity to Player; later
    /// packets never downgrade it.
    pub fn guess_is_player(&mut self, id: u64, skill_id: u32)
        requires
            old(self).wf(),
        ensures
            final(self).wf(),
            ({
                let upgrades = old(self).catalog().contains_key(id) && (old(self).catalog()[id].entity_type == EntityType::Unknown || old(self).catalog()[id].entity_type
                    == EntityType::Npc) && spec_in_player_skill_range(skill_id);
                if upgrades {
                    final(self).catalog() == old(self).catalog().insert(
                        id,
                        (Entity { entity_type: EntityType::Player, ..old(self).catalog()[id] }),
                    )
                } else {
                    *final(self) == *old(self)
                }
            }),
            final(self).local_entity_id == old(self).local_entity_id,
            final(self).local_character_id == old(self).local_character_id,
    {
        if !in_player_skill_range(skill_id) {
            return ;
        }
        let e = match self.entities.get(id) {
            Some(e) => {
                if matches!(e.entity_type, EntityType::Unknown | EntityType::Npc) {
                    Some(e.clone())
                } else {
                    None
                }
            },
            None => None,
        };
        if let Some(mut e) = e {
            e.entity_type = EntityType::Player;
            self.entities.insert(id, e);
        }
    }

    /// Ensure a roster entry has an entity slot: a member whose entity id is
    /// already linked gets its record refreshed, an unknown member gets a
    /// placeholder slot keyed by its character id.
    pub fn ensure_party_member(
        &mut self,
        ids: &IdTracker,
        character_id: u64,
        name: &String,
        class_id: u32,
        gear_level: u32,
    )
        requires
            old(self).wf(),
            ids.wf(),
            character_id != 0,
        ensures
            final(self).wf(),
            ({
                let linked = ids.char_to_entity().contains_key(character_id) && old(self).catalog().contains_key(ids.char_to_entity()[character_id]);
                if linked {
                    let eid = ids.char_to_entity()[character_id];
                    final(self).catalog() == old(self).catalog().insert(
                        eid,
                        (Entity {
                            character_id: character_id,
                            name: *name,
                            class_id: class_id,
                            gear_level: gear_level,
                            entity_type: EntityType::Player,
                            ..old(self).catalog()[eid]
                        }),
                    )
                } else {
                    final(self).catalog().contains_key(character_id) && final(self).catalog()
                        == old(self).catalog().insert(
                        character_id,
                        final(self).catalog()[character_id],
                    ) && final(self).catalog()[character_id].entity_type == EntityType::Player
                        && final(self).catalog()[character_id].name@ == name@
                }
            }),
            final(self).local_entity_id == old(self).local_entity_id,
            final(self).local_character_id == old(self).local_character_id,
    {
        let linked = match ids.get_entity_id(character_id) {
            Some(eid) => match self.entities.get(eid) {
                Some(e) => Some((eid, e.clone())),
                None => None,
            },
            None => None,
        };
        match linked {
            Some((eid, mut e)) => {
                e.character_id = character_id;
                e.name = name.clone();
                e.class_id = class_id;
                e.gear_level = gear_level;
                e.entity_type = EntityType::Player;
                self.entities.insert(eid, e);
            },
            None => {
                let mut e = Self::placeholder(character_id);
                e.character_id = character_id;
                e.name = name.clone();
                e.class_id = class_id;
                e.gear_level = gear_level;
                e.entity_type = EntityType::Player;
                self.entities.insert(character_id, e);
            },
        }
    }

    /// Record a stance change for a player.
    pub fn update_stance(&mut self, id: u64, stance: u8)
        requires
            old(self).wf(),
        ensures
            final(self).wf(),
            ({
                let is_player = old(self).catalog().contains_key(id) && old(self).catalog()[id].entity_type == EntityType::Player;
                if is_player {
                    final(self).catalog() == old(self).catalog().insert(
                        id,
                        (Entity { stance: stance, ..old(self).catalog()[id] }),
                    )
                } else {
                    *final(self) == *old(self)
                }
            }),
    {
        let e = match self.entities.get(id) {
            Some(e) => {
                if matches!(e.entity_type, EntityType::Player) {
                    Some(e.clone())
                } else {
                    None
                }
            },
            None => None,
        };
        if let Some(mut e) = e {
            e.stance = stance;
            self.entities.insert(id, e);
        }
    }

    /// Destroy an entity on `RemoveObject` / `ZoneObjectUnpublish`.
    pub fn remove_entity(&mut self, id: u64)
        requires
            old(self).wf(),
        ensures
            final(self).wf(),
            final(self).catalog() == old(self).catalog().remove(id),
            final(self).local_entity_id == old(self).local_entity_id,
            final(self).local_character_id == old(self).local_character_id,
    {
        self.entities.remove(id);
    }
}

/// A fixpoint of `owner_step` resolves to itself at any fuel.
pub proof fn lemma_resolve_fixpoint(m: Map<u64, Entity>, id: u64, fuel: nat)
    requires
        owner_step(m, id) == id,
    ensures
        resolve_id(m, id, fuel) == id,
    decreases fuel,
{
    if fuel > 0 {
        lemma_resolve_fixpoint(m, id, (fuel - 1) as nat);
    }
}

} // verus!
