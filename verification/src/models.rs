//! Plain data carried between the decoders, the trackers and the encounter
//! state: entities, status effects, damage records, and the decoded packet
//! events the engine consumes.

use vstd::prelude::*;

verus! {

#[derive(Clone, Copy, PartialEq, Eq, Structural, Debug)]
pub enum EntityType {
    Unknown,
    Player,
    Npc,
    Boss,
    Esther,
    Projectile,
    Trap,
    Summon,
}

impl EntityType {
    /// Transients are attributed to their controlling owner.
    pub open spec fn is_transient(self) -> bool {
        self == EntityType::Projectile || self == EntityType::Trap || self
            == EntityType::Summon
    }

    pub fn transient(self) -> (r: bool)
        ensures
            r == self.is_transient(),
    {
        matches!(self, EntityType::Projectile | EntityType::Trap | EntityType::Summon)
    }
}

/// Catalog grade of an NPC; the catalog lookup itself is a collaborator of the
/// decoders, the engine only classifies the reported grade.
#[derive(Clone, Copy, PartialEq, Eq, Structural, Debug)]
pub enum NpcGrade {
    Normal,
    Named,
    Boss,
    Raid,
    EpicRaid,
    Commander,
}

impl NpcGrade {
    /// The boss-or-gate predicate: these grades are catalogued as Boss.
    pub open spec fn is_boss_grade(self) -> bool {
        self == NpcGrade::Boss || self == NpcGrade::Raid || self == NpcGrade::EpicRaid
            || self == NpcGrade::Commander
    }

    pub fn boss_grade(self) -> (r: bool)
        ensures
            r == self.is_boss_grade(),
    {
        matches!(self, NpcGrade::Boss | NpcGrade::Raid | NpcGrade::EpicRaid | NpcGrade::Commander)
    }
}

/// A live world object observed on the wire.
pub struct Entity {
    pub id: u64,
    pub character_id: u64,
    pub name: String,
    pub entity_type: EntityType,
    pub class_id: u32,
    pub gear_level: u32,
    pub stance: u8,
    pub owner_id: u64,
    pub skill_id: u32,
    pub npc_id: u32,
    pub current_hp: i64,
    pub max_hp: i64,
}

impl Clone for Entity {
    fn clone(&self) -> (r: Self)
        ensures
            r == *self,
    {
        Entity {
            id: self.id,
            character_id: self.character_id,
            name: self.name.clone(),
            entity_type: self.entity_type,
            class_id: self.class_id,
            gear_level: self.gear_level,
            stance: self.stance,
            owner_id: self.owner_id,
            skill_id: self.skill_id,
            npc_id: self.npc_id,
            current_hp: self.current_hp,
            max_hp: self.max_hp,
        }
    }
}

/// Entity ids are unique in the catalog; every projectile, trap or summon
/// carries the id of a controlling entity.
pub open spec fn entity_slot_wf(id: u64, e: Entity) -> bool {
    &&& e.id == id
    &&& e.entity_type.is_transient() ==> e.owner_id != 0
}

#[derive(Clone, Copy, PartialEq, Eq, Structural, Debug)]
pub enum StatusEffectTargetType {
    Local,
    Party,
}

#[derive(Clone, Copy, PartialEq, Eq, Structural, Debug)]
pub enum StatusEffectType {
    Shield,
    Buff,
    Debuff,
    Other,
}

/// Category of effects whose expiry signals that the character left the
/// workshop and needs a fresh stats refresh.
pub const WORKSHOP_CATEGORY: u8 = 1;

/// An active status effect held in one of the two registries.
#[derive(Clone, Copy, PartialEq, Eq, Structural, Debug)]
pub struct StatusEffect {
    pub instance_id: u32,
    pub status_effect_id: u32,
    pub source_id: u64,
    /// Entity id under Local indexing, character id under Party indexing.
    pub target_id: u64,
    pub target_type: StatusEffectTargetType,
    pub effect_type: StatusEffectType,
    pub value: u64,
    pub expiration_tick: u64,
    pub category: u8,
}

/// Wire form of one status effect inside an add or update packet.
#[derive(Clone, Copy, PartialEq, Eq, Structural, Debug)]
pub struct StatusEffectData {
    pub instance_id: u32,
    pub status_effect_id: u32,
    pub source_id: u64,
    pub value: u64,
    pub expiration_tick: u64,
    pub effect_type: StatusEffectType,
    pub category: u8,
}

/// One swing against one target inside a damage packet.
#[derive(Clone, Copy, PartialEq, Eq, Structural, Debug)]
pub struct DamageEvent {
    pub target_id: u64,
    pub damage: i64,
    pub modifier: u32,
    pub cur_hp: i64,
    pub max_hp: i64,
}

/// The damage record handed to the encounter state.
#[derive(Clone, Copy, PartialEq, Eq, Structural, Debug)]
pub struct DamageData {
    pub skill_id: u32,
    pub skill_effect_id: u32,
    pub damage: i64,
    pub modifier: u32,
    pub target_current_hp: i64,
    pub target_max_hp: i64,
}

/// Hit-qualifier flags decoded from the low nibbles of `modifier`: the low
/// nibble holds the critical flag, the next nibble back/front attack.
pub open spec fn spec_is_crit(modifier: u32) -> bool {
    modifier % 16 == 1
}

pub open spec fn spec_is_back_attack(modifier: u32) -> bool {
    (modifier / 16) % 16 == 1
}

pub open spec fn spec_is_front_attack(modifier: u32) -> bool {
    (modifier / 16) % 16 == 2
}

pub fn is_crit(modifier: u32) -> (r: bool)
    ensures
        r == spec_is_crit(modifier),
{
    modifier % 16 == 1
}

pub fn is_back_attack(modifier: u32) -> (r: bool)
    ensures
        r == spec_is_back_attack(modifier),
{
    (modifier / 16) % 16 == 1
}

pub fn is_front_attack(modifier: u32) -> (r: bool)
    ensures
        r == spec_is_front_attack(modifier),
{
    (modifier / 16) % 16 == 2
}

/// One roster entry of a `PartyInfo` packet.
pub struct PartyMember {
    pub name: String,
    pub character_id: u64,
    pub class_id: u32,
    pub gear_level: u32,
}

/// A decoded packet, routed by the dispatcher. Opcodes whose handling the
/// engine does not model (equipment, items) are dropped by the decoder side.
pub enum PacketEvent {
    CounterAttack { source_id: u64 },
    Death { target_id: u64 },
    IdentityGaugeChange { player_id: u64, gauge1: u32, gauge2: u32, gauge3: u32 },
    IdentityStanceChange { object_id: u64, stance: u8 },
    InitEnv { player_id: u64 },
    InitPc {
        player_id: u64,
        name: String,
        character_id: u64,
        class_id: u32,
        gear_level: u32,
        hp: i64,
        max_hp: i64,
    },
    NewPc {
        player_id: u64,
        name: String,
        character_id: u64,
        class_id: u32,
        gear_level: u32,
        hp: i64,
        max_hp: i64,
    },
    MigrationExecute { character_id: u64 },
    NewNpc { object_id: u64, npc_id: u32, name: String, grade: NpcGrade, hp: i64, max_hp: i64 },
    NewNpcSummon {
        object_id: u64,
        npc_id: u32,
        name: String,
        owner_id: u64,
        hp: i64,
        max_hp: i64,
    },
    NewProjectile { projectile_id: u64, owner_id: u64, skill_id: u32 },
    NewTrap { object_id: u64, owner_id: u64, skill_id: u32 },
    ParalyzationState { object_id: u64, current: u32, max: u32 },
    RaidBegin { raid_id: u32 },
    RaidBossKill,
    RaidResult,
    RemoveObject { object_ids: Vec<u64> },
    SkillCast { caster: u64, skill_id: u32 },
    SkillStart { source_id: u64, skill_id: u32 },
    SkillDamage { source_id: u64, skill_id: u32, skill_effect_id: u32, events: Vec<DamageEvent> },
    SkillDamageAbnormalMove {
        source_id: u64,
        skill_id: u32,
        skill_effect_id: u32,
        events: Vec<DamageEvent>,
    },
    PartyInfo { raid_instance_id: u32, party_instance_id: u32, members: Vec<PartyMember> },
    PartyLeave { party_instance_id: u32, name: String },
    PartyStatusEffectAdd { character_id: u64, effects: Vec<StatusEffectData> },
    PartyStatusEffectRemove { character_id: u64, instance_ids: Vec<u32>, reason: u8 },
    PartyStatusEffectResult { raid_instance_id: u32, party_instance_id: u32, character_id: u64 },
    StatusEffectAdd { object_id: u64, effect: StatusEffectData },
    StatusEffectDuration { instance_id: u32, target_id: u64, expiration_tick: u64 },
    StatusEffectRemove { object_id: u64, instance_ids: Vec<u32>, reason: u8 },
    StatusEffectSyncData { object_id: u64, character_id: u64, instance_id: u32, value: u64 },
    TroopMemberUpdateMin { character_id: u64, effects: Vec<StatusEffectData> },
    TriggerBossBattleStatus,
    TriggerStart { signal: u32 },
    ZoneMemberLoadStatus { zone_id: u32, zone_level: u32 },
    ZoneObjectUnpublish { object_id: u64 },
}

/// Identity gauge sample pushed into a player's identity histogram.
#[derive(Clone, Copy, PartialEq, Eq, Structural, Debug)]
pub struct IdentitySample {
    pub timestamp: i64,
    pub gauge1: u32,
    pub gauge2: u32,
    pub gauge3: u32,
}

/// Stagger sample pushed into the current boss's stagger series.
#[derive(Clone, Copy, PartialEq, Eq, Structural, Debug)]
pub struct StaggerSample {
    pub timestamp: i64,
    pub current: u32,
    pub max: u32,
}

/// Skill ids in this range belong to player-usable skills; a cast of one of
/// them upgrades an entity of uncertain type to Player.
pub const PLAYER_SKILL_MIN: u32 = 10000;

pub const PLAYER_SKILL_MAX: u32 = 62000;

pub open spec fn spec_in_player_skill_range(skill_id: u32) -> bool {
    PLAYER_SKILL_MIN <= skill_id && skill_id <= PLAYER_SKILL_MAX
}

pub fn in_player_skill_range(skill_id: u32) -> (r: bool)
    ensures
        r == spec_in_player_skill_range(skill_id),
{
    PLAYER_SKILL_MIN <= skill_id && skill_id <= PLAYER_SKILL_MAX
}

} // verus!
