//! The aggregated statistics of one encounter: per-participant damage,
//! hit-qualifier counts, per-skill subtotals with hit timelines, death and
//! shield bookkeeping, and the phase flags of the encounter lifecycle.

use crate::models::{spec_is_back_attack, spec_is_crit, spec_is_front_attack, is_back_attack,
    is_crit, is_front_attack, DamageData, Entity, EntityType, IdentitySample, StaggerSample,
    StatusEffect};
use crate::smap::SMap;
use crate::vmap::VMap;
use vstd::prelude::*;

verus! {

/// Saturating signed addition.
pub open spec fn spec_sat_add_i64(a: int, b: int) -> int {
    if a + b > i64::MAX as int {
        i64::MAX as int
    } else if a + b < i64::MIN as int {
        i64::MIN as int
    } else {
        a + b
    }
}

pub fn sat_add_i64(a: i64, b: i64) -> (r: i64)
    ensures
        r as int == spec_sat_add_i64(a as int, b as int),
{
    if b >= 0 {
        if a > i64::MAX - b {
            i64::MAX
        } else {
            a + b
        }
    } else {
        if a < i64::MIN - b {
            i64::MIN
        } else {
            a + b
        }
    }
}

/// Saturating unsigned addition.
pub open spec fn spec_sat_add_u64(a: int, b: int) -> int {
    if a + b > u64::MAX as int {
        u64::MAX as int
    } else {
        a + b
    }
}

pub fn sat_add_u64(a: u64, b: u64) -> (r: u64)
    ensures
        r as int == spec_sat_add_u64(a as int, b as int),
{
    if a > u64::MAX - b {
        u64::MAX
    } else {
        a + b
    }
}

/// Subtraction floored at zero.
pub open spec fn spec_sat_sub_u64(a: int, b: int) -> int {
    if a >= b {
        a - b
    } else {
        0
    }
}

pub fn sat_sub_u64(a: u64, b: u64) -> (r: u64)
    ensures
        r as int == spec_sat_sub_u64(a as int, b as int),
{
    if a >= b {
        a - b
    } else {
        0
    }
}

/// Saturating counter increment.
pub open spec fn spec_bump_u32(a: int) -> int {
    if a + 1 > u32::MAX as int {
        u32::MAX as int
    } else {
        a + 1
    }
}

pub fn bump_u32(a: u32) -> (r: u32)
    ensures
        r as int == spec_bump_u32(a as int),
{
    if a == u32::MAX {
        a
    } else {
        a + 1
    }
}

/// Per-skill subtotals are keyed by skill id and skill-effect id packed into
/// one value; the packing is injective.
pub open spec fn spec_skill_key(skill_id: u32, effect_id: u32) -> u64 {
    ((skill_id as u64) * 0x1_0000_0000 + (effect_id as u64)) as u64
}

pub fn skill_key(skill_id: u32, effect_id: u32) -> (r: u64)
    ensures
        r == spec_skill_key(skill_id, effect_id),
{
    (skill_id as u64) * 0x1_0000_0000 + (effect_id as u64)
}

pub proof fn lemma_skill_key_injective(s1: u32, e1: u32, s2: u32, e2: u32)
    requires
        spec_skill_key(s1, e1) == spec_skill_key(s2, e2),
    ensures
        s1 == s2 && e1 == e2,
{
    let c: int = 0x1_0000_0000;
    let v1: int = (s1 as int) * c + (e1 as int);
    let v2: int = (s2 as int) * c + (e2 as int);
    assert(v1 < 0x1_0000_0000_0000_0000);
    assert(v2 < 0x1_0000_0000_0000_0000);
    assert(v1 == v2);
    assert((s1 as int - s2 as int) * c == e2 as int - e1 as int) by (nonlinear_arith)
        requires
            (s1 as int) * c + (e1 as int) == (s2 as int) * c + (e2 as int),
    ;
    assert(s1 == s2) by (nonlinear_arith)
        requires
            (s1 as int - s2 as int) * c == e2 as int - e1 as int,
            c == 0x1_0000_0000,
            e1 <= u32::MAX,
            e2 <= u32::MAX,
    ;
}

/// One recorded hit.
#[derive(Clone, Copy, PartialEq, Eq, Structural, Debug)]
pub struct HitRecord {
    pub timestamp: i64,
    pub damage: i64,
}

/// Per-skill subtotals and the timeline of hits for later per-skill analysis.
pub struct SkillStats {
    pub skill_id: u32,
    pub effect_id: u32,
    pub casts: u32,
    pub hits: u32,
    pub crits: u32,
    pub back_attacks: u32,
    pub front_attacks: u32,
    pub damage: i64,
    pub crit_damage: i64,
    pub timeline: Vec<HitRecord>,
}

pub fn new_skill_stats(skill_id: u32, effect_id: u32) -> (r: SkillStats)
    ensures
        r.skill_id == skill_id,
        r.effect_id == effect_id,
        r.casts == 0,
        r.hits == 0,
        r.crits == 0,
        r.back_attacks == 0,
        r.front_attacks == 0,
        r.damage == 0,
        r.crit_damage == 0,
        r.timeline@ == Seq::<HitRecord>::empty(),
{
    SkillStats {
        skill_id: skill_id,
        effect_id: effect_id,
        casts: 0,
        hits: 0,
        crits: 0,
        back_attacks: 0,
        front_attacks: 0,
        damage: 0,
        crit_damage: 0,
        timeline: Vec::new(),
    }
}

/// The per-participant aggregate, keyed in the encounter by entity name.
pub struct EncounterEntity {
    pub name: String,
    pub id: u64,
    pub character_id: u64,
    pub class_id: u32,
    pub gear_level: u32,
    pub entity_type: EntityType,
    pub current_hp: i64,
    pub max_hp: i64,
    pub is_dead: bool,
    pub death_time: i64,
    pub deaths: u32,
    pub counterattacks: u32,
    pub damage_dealt: i64,
    pub damage_taken: i64,
    pub crit_damage: i64,
    pub hits_total: u32,
    pub hits_crit: u32,
    pub hits_back: u32,
    pub hits_front: u32,
    pub skills: VMap<SkillStats>,
    pub damage_log: Vec<HitRecord>,
    pub identity_samples: Vec<IdentitySample>,
    pub stagger_samples: Vec<StaggerSample>,
    pub shield_applied: u64,
    pub shield_used: u64,
    pub current_shield: u64,
}

impl EncounterEntity {
    pub open spec fn wf(self) -> bool {
        self.skills.wf()
    }
}

/// A fresh aggregate carries the identity of its entity and zeroed
/// statistics.
pub open spec fn fresh_from(r: EncounterEntity, src: Entity) -> bool {
    &&& r.name == src.name
    &&& r.id == src.id
    &&& r.character_id == src.character_id
    &&& r.class_id == src.class_id
    &&& r.gear_level == src.gear_level
    &&& r.entity_type == src.entity_type
    &&& r.current_hp == src.current_hp
    &&& r.max_hp == src.max_hp
    &&& zero_stats(r)
}

/// All statistics zeroed.
pub open spec fn zero_stats(r: EncounterEntity) -> bool {
    &&& r.is_dead == false
    &&& r.death_time == 0
    &&& r.deaths == 0
    &&& r.counterattacks == 0
    &&& r.damage_dealt == 0
    &&& r.damage_taken == 0
    &&& r.crit_damage == 0
    &&& r.hits_total == 0
    &&& r.hits_crit == 0
    &&& r.hits_back == 0
    &&& r.hits_front == 0
    &&& r.skills@ == Map::<u64, SkillStats>::empty()
    &&& r.damage_log@ == Seq::<HitRecord>::empty()
    &&& r.identity_samples@ == Seq::<IdentitySample>::empty()
    &&& r.stagger_samples@ == Seq::<StaggerSample>::empty()
    &&& r.shield_applied == 0
    &&& r.shield_used == 0
    &&& r.current_shield == 0
}

pub fn fresh_entry(src: &Entity) -> (r: EncounterEntity)
    ensures
        fresh_from(r, *src),
        r.wf(),
{
    EncounterEntity {
        name: src.name.clone(),
        id: src.id,
        character_id: src.character_id,
        class_id: src.class_id,
        gear_level: src.gear_level,
        entity_type: src.entity_type,
        current_hp: src.current_hp,
        max_hp: src.max_hp,
        is_dead: false,
        death_time: 0,
        deaths: 0,
        counterattacks: 0,
        damage_dealt: 0,
        damage_taken: 0,
        crit_damage: 0,
        hits_total: 0,
        hits_crit: 0,
        hits_back: 0,
        hits_front: 0,
        skills: VMap::new(),
        damage_log: Vec::new(),
        identity_samples: Vec::new(),
        stagger_samples: Vec::new(),
        shield_applied: 0,
        shield_used: 0,
        current_shield: 0,
    }
}

/// The encounter state: header, per-participant aggregates, and the phase
/// flags of the lifecycle.
pub struct EncounterState {
    pub started_on: i64,
    pub fight_start: i64,
    pub current_boss_name: String,
    pub entities: SMap<EncounterEntity>,
    pub raid_difficulty: String,
    pub raid_difficulty_id: u32,
    pub raid_clear: bool,
    pub resetting: bool,
    pub saved: bool,
    pub boss_dead_update: bool,
    pub boss_only_damage: bool,
    pub party_info: Vec<Vec<String>>,
    pub region: Option<String>,
    pub local_player_name: String,
}

/// A participant's identity fields were refreshed from its live entity,
/// its accumulated statistics kept.
pub open spec fn upserted(
    pre: EncounterState,
    post: EncounterState,
    entity: Entity,
    hp: i64,
    max_hp: i64,
) -> bool {
    let k = entity.name@;
    let e1 = post.entities@[k];
    &&& post.entities@.contains_key(k)
    &&& e1.id == entity.id
    &&& e1.character_id == entity.character_id
    &&& e1.class_id == entity.class_id
    &&& e1.gear_level == entity.gear_level
    &&& e1.entity_type == entity.entity_type
    &&& e1.current_hp == hp
    &&& e1.max_hp == max_hp
    &&& (pre.entities@.contains_key(k) ==> e1 == (EncounterEntity {
        id: entity.id,
        character_id: entity.character_id,
        class_id: entity.class_id,
        gear_level: entity.gear_level,
        entity_type: entity.entity_type,
        current_hp: hp,
        max_hp: max_hp,
        ..pre.entities@[k]
    }))
    &&& (!pre.entities@.contains_key(k) ==> zero_stats(e1))
    &&& post.entities@ == pre.entities@.insert(k, e1)
    &&& post == (EncounterState { entities: post.entities, ..pre })
}

/// The boss's remaining shield was set from a status value: the current
/// boss's aggregate (and only it) carries the new amount.
pub open spec fn boss_shield_set(
    pre: EncounterState,
    post: EncounterState,
    target: Entity,
    value: u64,
) -> bool {
    &&& (target.name@ == pre.current_boss_name@ ==> {
        let k = target.name@;
        let e1 = post.entities@[k];
        &&& post.entities@.contains_key(k)
        &&& e1.current_shield == value
        &&& (pre.entities@.contains_key(k) ==> e1 == (EncounterEntity {
            current_shield: value,
            ..pre.entities@[k]
        }))
        &&& post.entities@ == pre.entities@.insert(k, e1)
    })
    &&& (target.name@ != pre.current_boss_name@ ==> post == pre)
    &&& post == (EncounterState { entities: post.entities, ..pre })
}

/// A shield absorption was credited to its granting source.
pub open spec fn shield_used_added(
    pre: EncounterState,
    post: EncounterState,
    source: Entity,
    change: u64,
) -> bool {
    let k = source.name@;
    let e1 = post.entities@[k];
    &&& post.entities@.contains_key(k)
    &&& (pre.entities@.contains_key(k) ==> e1 == (EncounterEntity {
        shield_used: e1.shield_used,
        ..pre.entities@[k]
    }) && e1.shield_used as int == spec_sat_add_u64(
        pre.entities@[k].shield_used as int,
        change as int,
    ))
    &&& (!pre.entities@.contains_key(k) ==> fresh_from(
        (EncounterEntity { shield_used: 0, ..e1 }),
        source,
    ) && e1.shield_used == change)
    &&& post.entities@ == pre.entities@.insert(k, e1)
    &&& post == (EncounterState { entities: post.entities, ..pre })
}

/// What one hit does to the striking owner's aggregate.
pub open spec fn owner_hit(
    e0: EncounterEntity,
    e1: EncounterEntity,
    owner: Entity,
    dd: DamageData,
    ts: i64,
    fs: i64,
) -> bool {
    let sk = spec_skill_key(dd.skill_id, dd.skill_effect_id);
    let sk_dmg: int = if e0.skills@.contains_key(sk) {
        e0.skills@[sk].damage as int
    } else {
        0
    };
    let sk_tl: Seq<HitRecord> = if e0.skills@.contains_key(sk) {
        e0.skills@[sk].timeline@
    } else {
        Seq::<HitRecord>::empty()
    };
    &&& e1.entity_type == owner.entity_type
    &&& e1.class_id == if e0.class_id != 0 {
        e0.class_id
    } else {
        owner.class_id
    }
    &&& e1.damage_dealt as int == spec_sat_add_i64(e0.damage_dealt as int, dd.damage as int)
    &&& e1.hits_total as int == spec_bump_u32(e0.hits_total as int)
    &&& e1.hits_crit as int == if spec_is_crit(dd.modifier) {
        spec_bump_u32(e0.hits_crit as int)
    } else {
        e0.hits_crit as int
    }
    &&& e1.hits_back as int == if spec_is_back_attack(dd.modifier) {
        spec_bump_u32(e0.hits_back as int)
    } else {
        e0.hits_back as int
    }
    &&& e1.hits_front as int == if spec_is_front_attack(dd.modifier) {
        spec_bump_u32(e0.hits_front as int)
    } else {
        e0.hits_front as int
    }
    &&& e1.crit_damage as int == if spec_is_crit(dd.modifier) {
        spec_sat_add_i64(e0.crit_damage as int, dd.damage as int)
    } else {
        e0.crit_damage as int
    }
    &&& e1.skills@.contains_key(sk)
    &&& e1.skills@[sk].damage as int == spec_sat_add_i64(sk_dmg, dd.damage as int)
    // the per-skill timeline gains this hit, at the (possibly back-dated)
    // timestamp
    &&& e1.skills@[sk].timeline@ == sk_tl.push((HitRecord { timestamp: ts, damage: dd.damage }))
    &&& e1.skills@ == e0.skills@.insert(sk, e1.skills@[sk])
    // nothing earlier than the fight start enters the per-second series
    &&& e1.damage_log@ == if ts >= fs {
        e0.damage_log@.push((HitRecord { timestamp: ts, damage: dd.damage }))
    } else {
        e0.damage_log@
    }
    // everything else is carried over
    &&& e1 == (EncounterEntity {
        entity_type: e1.entity_type,
        class_id: e1.class_id,
        damage_dealt: e1.damage_dealt,
        hits_total: e1.hits_total,
        hits_crit: e1.hits_crit,
        hits_back: e1.hits_back,
        hits_front: e1.hits_front,
        crit_damage: e1.crit_damage,
        skills: e1.skills,
        damage_log: e1.damage_log,
        ..e0
    })
}

/// What one hit does to the struck target's aggregate.
pub open spec fn target_hit(
    e0: EncounterEntity,
    e1: EncounterEntity,
    dd: DamageData,
    ts: i64,
) -> bool {
    &&& e1.damage_taken as int == spec_sat_add_i64(e0.damage_taken as int, dd.damage as int)
    &&& e1.current_hp == dd.target_current_hp
    &&& e1.max_hp == dd.target_max_hp
    &&& e1.is_dead == (dd.target_current_hp <= 0 || e0.is_dead)
    &&& e1.death_time == if dd.target_current_hp <= 0 {
        ts
    } else {
        e0.death_time
    }
    &&& e1 == (EncounterEntity {
        damage_taken: e1.damage_taken,
        current_hp: e1.current_hp,
        max_hp: e1.max_hp,
        is_dead: e1.is_dead,
        death_time: e1.death_time,
        ..e0
    })
}

/// What one recorded hit does to the encounter state: the exact contract
/// of `on_damage`, named so the dispatcher can chain it over a packet's
/// events.
pub open spec fn damage_recorded(
    pre: EncounterState,
    post: EncounterState,
    owner: Entity,
    source: Entity,
    target: Entity,
    dd: DamageData,
    ts: i64,
) -> bool {
    let dropped = owner.entity_type == EntityType::Unknown || owner.id == target.id;
    let filtered = pre.boss_only_damage && target.entity_type != EntityType::Boss;
    let fs = if pre.fight_start == 0 {
        ts
    } else {
        pre.fight_start
    };
    &&& (dropped ==> post == pre)
    // only the aggregates, the fight start and the boss-dead flag ever move
    &&& post == (EncounterState {
        entities: post.entities,
        fight_start: post.fight_start,
        boss_dead_update: post.boss_dead_update,
        ..pre
    })
    &&& (!dropped ==> post.fight_start == fs)
    &&& (!dropped && filtered ==> {
        let ks = source.name@;
        let had_s = pre.entities@.contains_key(ks);
        let post_s = post.entities@[ks];
        // headline totals untouched
        &&& forall|n: Seq<char>| #[trigger]
            pre.entities@.contains_key(n) ==> post.entities@.contains_key(n)
                && post.entities@[n].damage_dealt == pre.entities@[n].damage_dealt
                && post.entities@[n].damage_taken == pre.entities@[n].damage_taken
                && post.entities@[n].damage_log@ == pre.entities@[n].damage_log@
        &&& forall|n: Seq<char>|
            n != ks ==> (#[trigger] post.entities@.contains_key(n)
                <==> pre.entities@.contains_key(n)) && (pre.entities@.contains_key(n)
                ==> post.entities@[n] == pre.entities@[n])
        // the diagnostic entry counts the hit and credits no damage
        &&& post.entities@.contains_key(ks)
        &&& post_s.damage_dealt as int == if had_s {
            pre.entities@[ks].damage_dealt as int
        } else {
            0
        }
        &&& post_s.hits_total as int == spec_bump_u32(
            if had_s {
                pre.entities@[ks].hits_total as int
            } else {
                0
            },
        )
        &&& (had_s ==> post_s == (EncounterEntity {
            hits_total: post_s.hits_total,
            ..pre.entities@[ks]
        }))
        &&& (!had_s ==> fresh_from((EncounterEntity { hits_total: 0, ..post_s }), source))
        &&& post.boss_dead_update == pre.boss_dead_update
    })
    &&& (!dropped && !filtered ==> {
        let k = owner.name@;
        let kt = target.name@;
        let had = pre.entities@.contains_key(k);
        let had_t = pre.entities@.contains_key(kt);
        let post_k = post.entities@[k];
        &&& post.entities@.contains_key(k)
        &&& (had ==> owner_hit(pre.entities@[k], post_k, owner, dd, ts, fs))
        &&& (!had ==> exists|f: EncounterEntity|
            #[trigger] fresh_from(f, owner) && owner_hit(f, post_k, owner, dd, ts, fs))
        &&& (kt != k ==> {
            let post_t = post.entities@[kt];
            &&& post.entities@.contains_key(kt)
            &&& (had_t ==> target_hit(pre.entities@[kt], post_t, dd, ts))
            &&& (!had_t ==> exists|f: EncounterEntity|
                #[trigger] fresh_from(f, target) && target_hit(f, post_t, dd, ts))
        })
        &&& forall|n: Seq<char>|
            n != k && n != kt ==> (#[trigger] post.entities@.contains_key(n)
                <==> pre.entities@.contains_key(n)) && (pre.entities@.contains_key(n)
                ==> post.entities@[n] == pre.entities@[n])
        &&& post.boss_dead_update == (pre.boss_dead_update || (dd.target_current_hp <= 0
            && target.entity_type == EntityType::Boss))
    })
}

fn hit_owner_entry(e: EncounterEntity, owner: &Entity, dd: DamageData, ts: i64, fs: i64) -> (r:
    EncounterEntity)
    requires
        e.wf(),
    ensures
        r.wf(),
        owner_hit(e, r, *owner, dd, ts, fs),
{
    let mut r = e;
    let ghost e0 = e;
    r.entity_type = owner.entity_type;
    if r.class_id == 0 {
        r.class_id = owner.class_id;
    }
    r.damage_dealt = sat_add_i64(r.damage_dealt, dd.damage);
    r.hits_total = bump_u32(r.hits_total);
    let crit = is_crit(dd.modifier);
    let back = is_back_attack(dd.modifier);
    let front = is_front_attack(dd.modifier);
    if crit {
        r.hits_crit = bump_u32(r.hits_crit);
        r.crit_damage = sat_add_i64(r.crit_damage, dd.damage);
    }
    if back {
        r.hits_back = bump_u32(r.hits_back);
    }
    if front {
        r.hits_front = bump_u32(r.hits_front);
    }
    let sk = skill_key(dd.skill_id, dd.skill_effect_id);
    let ghost pre_skills = r.skills@;
    let mut ss = match r.skills.remove(sk) {
        Some(s) => s,
        None => new_skill_stats(dd.skill_id, dd.skill_effect_id),
    };
    ss.damage = sat_add_i64(ss.damage, dd.damage);
    ss.hits = bump_u32(ss.hits);
    if crit {
        ss.crits = bump_u32(ss.crits);
        ss.crit_damage = sat_add_i64(ss.crit_damage, dd.damage);
    }
    if back {
        ss.back_attacks = bump_u32(ss.back_attacks);
    }
    if front {
        ss.front_attacks = bump_u32(ss.front_attacks);
    }
    ss.timeline.push(HitRecord { timestamp: ts, damage: dd.damage });
    let ghost gss = ss;
    r.skills.insert(sk, ss);
    proof {
        assert(r.skills@ =~= pre_skills.insert(sk, gss));
    }
    if ts >= fs {
        r.damage_log.push(HitRecord { timestamp: ts, damage: dd.damage });
    }
    r
}

fn hit_target_entry(e: EncounterEntity, dd: DamageData, ts: i64) -> (r: EncounterEntity)
    requires
        e.wf(),
    ensures
        r.wf(),
        target_hit(e, r, dd, ts),
{
    let mut r = e;
    r.damage_taken = sat_add_i64(r.damage_taken, dd.damage);
    r.current_hp = dd.target_current_hp;
    r.max_hp = dd.target_max_hp;
    if dd.target_current_hp <= 0 {
        r.is_dead = true;
        r.death_time = ts;
    }
    r
}

impl EncounterState {
    pub open spec fn wf(self) -> bool {
        &&& self.entities.wf()
        &&& forall|n: Seq<char>| #[trigger]
            self.entities@.contains_key(n) ==> self.entities@[n].wf()
    }

    pub fn new() -> (r: EncounterState)
        ensures
            r.wf(),
            r.entities@ == Map::<Seq<char>, EncounterEntity>::empty(),
            r.fight_start == 0,
            r.raid_clear == false,
            r.resetting == false,
            r.saved == false,
            r.boss_dead_update == false,
            r.boss_only_damage == false,
            r.current_boss_name@ == Seq::<char>::empty(),
            r.started_on == 0,
            r.raid_difficulty@ == Seq::<char>::empty(),
            r.raid_difficulty_id == 0,
            r.party_info@ == Seq::<Vec<String>>::empty(),
            r.region is None,
            r.local_player_name@ == Seq::<char>::empty(),
    {
        EncounterState {
            started_on: 0,
            fight_start: 0,
            current_boss_name: String::new(),
            entities: SMap::new(),
            raid_difficulty: String::new(),
            raid_difficulty_id: 0,
            raid_clear: false,
            resetting: false,
            saved: false,
            boss_dead_update: false,
            boss_only_damage: false,
            party_info: Vec::new(),
            region: None,
            local_player_name: String::new(),
        }
    }

    /// Take the aggregate for `src` out of the map, or start a fresh one.
    fn take_entry(&mut self, src: &Entity) -> (r: EncounterEntity)
        requires
            old(self).wf(),
        ensures
            final(self).wf(),
            r.wf(),
            final(self).entities@ == old(self).entities@.remove(src.name@),
            old(self).entities@.contains_key(src.name@) ==> r == old(self).entities@[src.name@],
            !old(self).entities@.contains_key(src.name@) ==> fresh_from(r, *src),
            *final(self) == (EncounterState { entities: final(self).entities, ..*old(self) }),
    {
        match self.entities.remove(&src.name) {
            Some(e) => e,
            None => {
                proof {
                    assert(self.entities@ =~= old(self).entities@.remove(src.name@));
                }
                fresh_entry(src)
            },
        }
    }

    /// Put an aggregate back under its name.
    fn put_entry(&mut self, name: &String, e: EncounterEntity)
        requires
            old(self).wf(),
            e.wf(),
        ensures
            final(self).wf(),
            final(self).entities@ == old(self).entities@.insert(name@, e),
            *final(self) == (EncounterState { entities: final(self).entities, ..*old(self) }),
    {
        self.entities.insert(name.clone(), e);
    }

    /// A counterattack by a player.
    pub fn on_counterattack(&mut self, entity: &Entity)
        requires
            old(self).wf(),
        ensures
            final(self).wf(),
            final(self).entities@.contains_key(entity.name@),
            ({
                let post = final(self).entities@[entity.name@];
                &&& (old(self).entities@.contains_key(entity.name@) ==> post == (EncounterEntity {
                    counterattacks: post.counterattacks,
                    ..old(self).entities@[entity.name@]
                }) && post.counterattacks as int == spec_bump_u32(
                    old(self).entities@[entity.name@].counterattacks as int,
                ))
                &&& (!old(self).entities@.contains_key(entity.name@) ==> fresh_from(
                    (EncounterEntity { counterattacks: 0, ..post }),
                    *entity,
                ) && post.counterattacks == 1)
                &&& final(self).entities@ == old(self).entities@.insert(entity.name@, post)
            }),
            *final(self) == (EncounterState { entities: final(self).entities, ..*old(self) }),
    {
        let mut e = self.take_entry(entity);
        e.counterattacks = bump_u32(e.counterattacks);
        let ghost ge = e;
        self.put_entry(&entity.name, e);
        proof {
            assert(self.entities@ =~= old(self).entities@.insert(entity.name@, ge));
        }
    }

    /// A death: record the time, count it, and for a boss schedule an
    /// immediate snapshot flush.
    pub fn on_death(&mut self, entity: &Entity, ts: i64)
        requires
            old(self).wf(),
        ensures
            final(self).wf(),
            final(self).entities@.contains_key(entity.name@),
            ({
                let post = final(self).entities@[entity.name@];
                &&& post.is_dead
                &&& post.death_time == ts
                &&& (old(self).entities@.contains_key(entity.name@) ==> post == (EncounterEntity {
                    is_dead: true,
                    death_time: ts,
                    deaths: post.deaths,
                    ..old(self).entities@[entity.name@]
                }) && post.deaths as int == spec_bump_u32(
                    old(self).entities@[entity.name@].deaths as int,
                ))
                &&& final(self).entities@ == old(self).entities@.insert(entity.name@, post)
            }),
            final(self).boss_dead_update == (old(self).boss_dead_update || entity.entity_type
                == EntityType::Boss),
            *final(self) == (EncounterState {
                entities: final(self).entities,
                boss_dead_update: final(self).boss_dead_update,
                ..*old(self)
            }),
    {
        let mut e = self.take_entry(entity);
        e.is_dead = true;
        e.death_time = ts;
        e.deaths = bump_u32(e.deaths);
        let ghost ge = e;
        self.put_entry(&entity.name, e);
        if matches!(entity.entity_type, EntityType::Boss) {
            self.boss_dead_update = true;
        }
        proof {
            assert(self.entities@ =~= old(self).entities@.insert(entity.name@, ge));
        }
    }

    /// An identity-gauge sample for a known player; samples for entities the
    /// encounter has not seen are dropped.
    pub fn on_identity_gain(&mut self, name: &String, sample: IdentitySample)
        requires
            old(self).wf(),
        ensures
            final(self).wf(),
            old(self).entities@.contains_key(name@) ==> ({
                let post = final(self).entities@[name@];
                &&& post == (EncounterEntity {
                    identity_samples: post.identity_samples,
                    ..old(self).entities@[name@]
                })
                &&& post.identity_samples@ == old(self).entities@[name@].identity_samples@.push(
                    sample,
                )
                &&& final(self).entities@ == old(self).entities@.insert(name@, post)
            }),
            !old(self).entities@.contains_key(name@) ==> *final(self) == *old(self),
            *final(self) == (EncounterState { entities: final(self).entities, ..*old(self) }),
    {
        let present = self.entities.contains_key(name);
        if present {
            let taken = self.entities.remove(name);
            if let Some(mut e) = taken {
                e.identity_samples.push(sample);
                let ghost ge = e;
                self.entities.insert(name.clone(), e);
                proof {
                    assert(self.entities@ =~= old(self).entities@.insert(name@, ge));
                }
            }
        }
    }

    /// A stagger sample for the current boss.
    pub fn on_stagger_change(&mut self, sample: StaggerSample)
        requires
            old(self).wf(),
        ensures
            final(self).wf(),
            old(self).entities@.contains_key(old(self).current_boss_name@) ==> ({
                let k = old(self).current_boss_name@;
                let post = final(self).entities@[k];
                &&& post == (EncounterEntity {
                    stagger_samples: post.stagger_samples,
                    ..old(self).entities@[k]
                })
                &&& post.stagger_samples@ == old(self).entities@[k].stagger_samples@.push(sample)
                &&& final(self).entities@ == old(self).entities@.insert(k, post)
            }),
            !old(self).entities@.contains_key(old(self).current_boss_name@) ==> *final(self)
                == *old(self),
            *final(self) == (EncounterState { entities: final(self).entities, ..*old(self) }),
    {
        let name = self.current_boss_name.clone();
        let present = self.entities.contains_key(&name);
        if present {
            let taken = self.entities.remove(&name);
            if let Some(mut e) = taken {
                e.stagger_samples.push(sample);
                let ghost ge = e;
                self.entities.insert(name, e);
                proof {
                    assert(self.entities@ =~= old(self).entities@.insert(
                        old(self).current_boss_name@,
                        ge,
                    ));
                }
            }
        }
    }

    /// The boss's remaining shield.
    pub fn on_boss_shield(&mut self, target: &Entity, value: u64)
        requires
            old(self).wf(),
        ensures
            final(self).wf(),
            target.name@ == old(self).current_boss_name@ ==> ({
                let k = target.name@;
                let post = final(self).entities@[k];
                &&& final(self).entities@.contains_key(k)
                &&& post.current_shield == value
                &&& (old(self).entities@.contains_key(k) ==> post == (EncounterEntity {
                    current_shield: value,
                    ..old(self).entities@[k]
                }))
                &&& final(self).entities@ == old(self).entities@.insert(k, post)
            }),
            target.name@ != old(self).current_boss_name@ ==> *final(self) == *old(self),
            *final(self) == (EncounterState { entities: final(self).entities, ..*old(self) }),
            boss_shield_set(*old(self), *final(self), *target, value),
    {
        let is_boss = target.name == self.current_boss_name;
        if is_boss {
            let mut e = self.take_entry(target);
            e.current_shield = value;
            let ghost ge = e;
            self.put_entry(&target.name, e);
            proof {
                assert(self.entities@ =~= old(self).entities@.insert(target.name@, ge));
            }
        }
    }

    /// A shield granted by `source`.
    pub fn on_shield_applied(&mut self, source: &Entity, _effect_id: u32, value: u64)
        requires
            old(self).wf(),
        ensures
            final(self).wf(),
            final(self).entities@.contains_key(source.name@),
            ({
                let post = final(self).entities@[source.name@];
                &&& (old(self).entities@.contains_key(source.name@) ==> post == (EncounterEntity {
                    shield_applied: post.shield_applied,
                    ..old(self).entities@[source.name@]
                }) && post.shield_applied as int == spec_sat_add_u64(
                    old(self).entities@[source.name@].shield_applied as int,
                    value as int,
                ))
                &&& final(self).entities@ == old(self).entities@.insert(source.name@, post)
            }),
            *final(self) == (EncounterState { entities: final(self).entities, ..*old(self) }),
    {
        let mut e = self.take_entry(source);
        e.shield_applied = sat_add_u64(e.shield_applied, value);
        let ghost ge = e;
        self.put_entry(&source.name, e);
        proof {
            assert(self.entities@ =~= old(self).entities@.insert(source.name@, ge));
        }
    }

    /// Shield absorption: `change` of `source`'s shield was consumed on
    /// `target`.
    pub fn on_shield_used(&mut self, source: &Entity, _effect_id: u32, change: u64)
        requires
            old(self).wf(),
        ensures
            final(self).wf(),
            final(self).entities@.contains_key(source.name@),
            ({
                let post = final(self).entities@[source.name@];
                &&& (old(self).entities@.contains_key(source.name@) ==> post == (EncounterEntity {
                    shield_used: post.shield_used,
                    ..old(self).entities@[source.name@]
                }) && post.shield_used as int == spec_sat_add_u64(
                    old(self).entities@[source.name@].shield_used as int,
                    change as int,
                ))
                &&& final(self).entities@ == old(self).entities@.insert(source.name@, post)
            }),
            *final(self) == (EncounterState { entities: final(self).entities, ..*old(self) }),
            shield_used_added(*old(self), *final(self), *source, change),
    {
        let mut e = self.take_entry(source);
        e.shield_used = sat_add_u64(e.shield_used, change);
        let ghost ge = e;
        self.put_entry(&source.name, e);
        proof {
            assert(self.entities@ =~= old(self).entities@.insert(source.name@, ge));
        }
    }

    /// Refresh a participant's identity fields from its live entity,
    /// keeping its accumulated statistics.
    pub fn upsert_entity(&mut self, entity: &Entity, hp: i64, max_hp: i64)
        requires
            old(self).wf(),
        ensures
            final(self).wf(),
            final(self).entities@.contains_key(entity.name@),
            ({
                let post = final(self).entities@[entity.name@];
                &&& post.id == entity.id
                &&& post.character_id == entity.character_id
                &&& post.class_id == entity.class_id
                &&& post.gear_level == entity.gear_level
                &&& post.entity_type == entity.entity_type
                &&& post.current_hp == hp
                &&& post.max_hp == max_hp
                &&& (old(self).entities@.contains_key(entity.name@) ==> post == (EncounterEntity {
                    id: entity.id,
                    character_id: entity.character_id,
                    class_id: entity.class_id,
                    gear_level: entity.gear_level,
                    entity_type: entity.entity_type,
                    current_hp: hp,
                    max_hp: max_hp,
                    ..old(self).entities@[entity.name@]
                }))
                &&& (!old(self).entities@.contains_key(entity.name@) ==> zero_stats(post))
                &&& final(self).entities@ == old(self).entities@.insert(entity.name@, post)
            }),
            *final(self) == (EncounterState { entities: final(self).entities, ..*old(self) }),
            upserted(*old(self), *final(self), *entity, hp, max_hp),
    {
        let mut e = self.take_entry(entity);
        e.id = entity.id;
        e.character_id = entity.character_id;
        e.class_id = entity.class_id;
        e.gear_level = entity.gear_level;
        e.entity_type = entity.entity_type;
        e.current_hp = hp;
        e.max_hp = max_hp;
        let ghost ge = e;
        self.put_entry(&entity.name, e);
        proof {
            assert(self.entities@ =~= old(self).entities@.insert(entity.name@, ge));
        }
    }

    /// Record one hit: attribute the damage to `owner`, mark the target,
    /// and keep the per-skill record and the per-second series.
    ///
    /// Self-inflicted damage and damage from an unresolved owner is dropped.
    /// Under boss-only filtering, damage to a non-Boss target leaves every
    /// headline total untouched; only the immediate striker's hit counter
    /// moves, for diagnostics.
    #[verifier::rlimit(100)]
    pub fn on_damage(
        &mut self,
        owner: &Entity,
        source: &Entity,
        target: &Entity,
        dd: DamageData,
        _se_on_source: &Vec<StatusEffect>,
        _se_on_target: &Vec<StatusEffect>,
        _target_count: i32,
        ts: i64,
    )
        requires
            old(self).wf(),
        ensures
            final(self).wf(),
            damage_recorded(*old(self), *final(self), *owner, *source, *target, dd, ts),
    {
        if matches!(owner.entity_type, EntityType::Unknown) || owner.id == target.id {
            return ;
        }
        if self.fight_start == 0 {
            self.fight_start = ts;
        }
        let fs = self.fight_start;
        if self.boss_only_damage && !matches!(target.entity_type, EntityType::Boss) {
            let ghost m0 = self.entities@;
            let mut e = self.take_entry(source);
            let ghost e0 = e;
            e.hits_total = bump_u32(e.hits_total);
            let ghost ge = e;
            self.put_entry(&source.name, e);
            proof {
                assert(self.entities@ =~= m0.insert(source.name@, ge));
                if !m0.contains_key(source.name@) {
                    assert(fresh_from((EncounterEntity { hits_total: 0, ..ge }), *source));
                }
            }
            return ;
        }
        let ghost m0 = self.entities@;
        let e = self.take_entry(owner);
        let ghost e0 = e;
        let e2 = hit_owner_entry(e, owner, dd, ts, fs);
        let ghost ge = e2;
        self.put_entry(&owner.name, e2);
        proof {
            assert(self.entities@ =~= m0.insert(owner.name@, ge));
            if !m0.contains_key(owner.name@) {
                assert(fresh_from(e0, *owner));
                assert(owner_hit(e0, ge, *owner, dd, ts, fs));
            }
        }
        let same_name = target.name == owner.name;
        if !same_name {
            let ghost m1 = self.entities@;
            let t = self.take_entry(target);
            let ghost t0 = t;
            let t2 = hit_target_entry(t, dd, ts);
            let ghost gt = t2;
            self.put_entry(&target.name, t2);
            proof {
                assert(self.entities@ =~= m1.insert(target.name@, gt));
                if !m0.contains_key(target.name@) {
                    assert(fresh_from(t0, *target));
                    assert(target_hit(t0, gt, dd, ts));
                }
            }
        }
        if dd.target_current_hp <= 0 && matches!(target.entity_type, EntityType::Boss) {
            self.boss_dead_update = true;
        }
    }

    /// A cast start: make sure the caster has an aggregate and count the
    /// cast on the skill's record.
    pub fn on_skill_start(&mut self, entity: &Entity, skill_id: u32, _ts: i64)
        requires
            old(self).wf(),
        ensures
            final(self).wf(),
            final(self).entities@.contains_key(entity.name@),
            ({
                let sk = spec_skill_key(skill_id, 0);
                let post = final(self).entities@[entity.name@];
                let pre_casts: int = if old(self).entities@.contains_key(entity.name@) && old(self).entities@[entity.name@].skills@.contains_key(sk) {
                    old(self).entities@[entity.name@].skills@[sk].casts as int
                } else {
                    0
                };
                &&& post.skills@.contains_key(sk)
                &&& post.skills@[sk].casts as int == spec_bump_u32(pre_casts)
                &&& final(self).entities@ == old(self).entities@.insert(entity.name@, post)
            }),
            *final(self) == (EncounterState { entities: final(self).entities, ..*old(self) }),
    {
        let mut e = self.take_entry(entity);
        let sk = skill_key(skill_id, 0);
        let mut ss = match e.skills.remove(sk) {
            Some(s) => s,
            None => new_skill_stats(skill_id, 0),
        };
        ss.casts = bump_u32(ss.casts);
        e.skills.insert(sk, ss);
        let ghost ge = e;
        self.put_entry(&entity.name, e);
        proof {
            assert(self.entities@ =~= old(self).entities@.insert(entity.name@, ge));
        }
    }

    /// The phase state machine. Hands back whether the encounter is to be
    /// persisted under this phase code.
    ///
    /// Codes: 0 finalized, 1 boss-killed, 2 cleared, 3 resetting, 4 wiped.
    pub fn on_phase_transition(&mut self, phase: u32) -> (persist: bool)
        requires
            old(self).wf(),
        ensures
            final(self).wf(),
            persist == (phase == 0 || phase == 1 || phase == 2 || phase == 4),
            final(self).resetting == (old(self).resetting || phase == 0 || phase == 3),
            final(self).saved == (old(self).saved || phase == 0 || phase == 2 || phase == 4),
            final(self).raid_clear == (old(self).raid_clear || phase == 1 || phase == 2),
            final(self).boss_dead_update == (old(self).boss_dead_update || phase == 1),
            final(self).entities == old(self).entities,
            final(self).fight_start == old(self).fight_start,
            *final(self) == (EncounterState {
                resetting: final(self).resetting,
                saved: final(self).saved,
                raid_clear: final(self).raid_clear,
                boss_dead_update: final(self).boss_dead_update,
                ..*old(self)
            }),
    {
        match phase {
            0 => {
                self.saved = true;
                self.resetting = true;
                true
            },
            1 => {
                self.raid_clear = true;
                self.boss_dead_update = true;
                true
            },
            2 => {
                self.raid_clear = true;
                self.saved = true;
                true
            },
            3 => {
                self.resetting = true;
                false
            },
            4 => {
                self.saved = true;
                true
            },
            _ => false,
        }
    }

    /// A newly sighted NPC; a Boss becomes the current boss of the
    /// encounter.
    pub fn on_new_npc(&mut self, entity: &Entity, hp: i64, max_hp: i64)
        requires
            old(self).wf(),
        ensures
            final(self).wf(),
            final(self).entities@.contains_key(entity.name@),
            entity.entity_type == EntityType::Boss ==> final(self).current_boss_name@
                == entity.name@,
            entity.entity_type != EntityType::Boss ==> final(self).current_boss_name == old(self).current_boss_name,
            upserted(
                *old(self),
                (EncounterState { current_boss_name: old(self).current_boss_name, ..*final(self) }),
                *entity,
                hp,
                max_hp,
            ),
    {
        self.upsert_entity(entity, hp, max_hp);
        if matches!(entity.entity_type, EntityType::Boss) {
            self.current_boss_name = entity.name.clone();
        }
    }
}

/// The identity of an aggregate survives a soft reset; its statistics do
/// not.
pub open spec fn reset_of(post: EncounterEntity, pre: EncounterEntity) -> bool {
    &&& post.name == pre.name
    &&& post.id == pre.id
    &&& post.character_id == pre.character_id
    &&& post.class_id == pre.class_id
    &&& post.gear_level == pre.gear_level
    &&& post.entity_type == pre.entity_type
    &&& post.current_hp == pre.current_hp
    &&& post.max_hp == pre.max_hp
    &&& zero_stats(post)
}

fn reset_entry(pre: &EncounterEntity) -> (r: EncounterEntity)
    ensures
        reset_of(r, *pre),
        r.wf(),
{
    EncounterEntity {
        name: pre.name.clone(),
        id: pre.id,
        character_id: pre.character_id,
        class_id: pre.class_id,
        gear_level: pre.gear_level,
        entity_type: pre.entity_type,
        current_hp: pre.current_hp,
        max_hp: pre.max_hp,
        is_dead: false,
        death_time: 0,
        deaths: 0,
        counterattacks: 0,
        damage_dealt: 0,
        damage_taken: 0,
        crit_damage: 0,
        hits_total: 0,
        hits_crit: 0,
        hits_back: 0,
        hits_front: 0,
        skills: VMap::new(),
        damage_log: Vec::new(),
        identity_samples: Vec::new(),
        stagger_samples: Vec::new(),
        shield_applied: 0,
        shield_used: 0,
        current_shield: 0,
    }
}

/// An aggregate the periodic snapshot shows: a classified player, an
/// Esther or a Boss, with damage on the board.
pub open spec fn snapshot_visible(e: EncounterEntity) -> bool {
    &&& (e.entity_type == EntityType::Player && e.class_id > 0) || e.entity_type
        == EntityType::Esther || e.entity_type == EntityType::Boss
    &&& e.damage_dealt > 0
}

/// Every snapshot row shows a visible participant, with its numbers.
pub open spec fn rows_sound(
    m: Map<Seq<char>, EncounterEntity>,
    rows: Seq<SnapshotEntry>,
) -> bool {
    forall|i2: int|
        0 <= i2 < rows.len() ==> #[trigger] m.contains_key(rows[i2].name@) && snapshot_visible(
            m[rows[i2].name@],
        ) && rows[i2].damage_dealt == m[rows[i2].name@].damage_dealt && rows[i2].class_id
            == m[rows[i2].name@].class_id && rows[i2].entity_type == m[rows[i2].name@].entity_type
            && rows[i2].damage_taken == m[rows[i2].name@].damage_taken && rows[i2].deaths
            == m[rows[i2].name@].deaths && rows[i2].current_hp == m[rows[i2].name@].current_hp
            && rows[i2].max_hp == m[rows[i2].name@].max_hp && rows[i2].is_dead
            == m[rows[i2].name@].is_dead
}

/// Every visible participant among the first `upto` roster slots has a row.
pub open spec fn rows_cover(s: SMap<EncounterEntity>, rows: Seq<SnapshotEntry>, upto: int) -> bool {
    forall|j: int|
        0 <= j < upto && snapshot_visible(#[trigger] s.val_seq()[j]) ==> exists|i2: int|
            0 <= i2 < rows.len() && rows[i2].name@ == s.key_seq()[j]@
}

/// One row of the periodic `encounter-update` snapshot.
pub struct SnapshotEntry {
    pub name: String,
    pub class_id: u32,
    pub entity_type: EntityType,
    pub damage_dealt: i64,
    pub damage_taken: i64,
    pub deaths: u32,
    pub current_hp: i64,
    pub max_hp: i64,
    pub is_dead: bool,
}

impl EncounterState {
    /// Drop the encounter's statistics; with `keep`, the participants stay
    /// in the roster with their identity, with zeroed numbers.
    pub fn soft_reset(&mut self, keep: bool)
        requires
            old(self).wf(),
        ensures
            final(self).wf(),
            final(self).fight_start == 0,
            final(self).raid_clear == false,
            final(self).saved == false,
            final(self).boss_dead_update == false,
            final(self).current_boss_name@ == Seq::<char>::empty(),
            final(self).boss_only_damage == old(self).boss_only_damage,
            final(self).region == old(self).region,
            final(self).raid_difficulty == old(self).raid_difficulty,
            final(self).local_player_name == old(self).local_player_name,
            !keep ==> final(self).entities@ == Map::<Seq<char>, EncounterEntity>::empty(),
            keep ==> (forall|n: Seq<char>| #[trigger]
                final(self).entities@.contains_key(n) <==> old(self).entities@.contains_key(n))
                && (forall|n: Seq<char>| #[trigger]
                old(self).entities@.contains_key(n) ==> reset_of(
                    final(self).entities@[n],
                    old(self).entities@[n],
                )),
    {
        self.fight_start = 0;
        self.raid_clear = false;
        self.saved = false;
        self.boss_dead_update = false;
        self.current_boss_name = String::new();
        if !keep {
            self.entities.clear();
        } else {
            let n = self.entities.len();
            let mut fresh: SMap<EncounterEntity> = SMap::new();
            let mut i: usize = 0;
            while i < n
                invariant
                    i <= n,
                    self.entities == old(self).entities,
                    old(self).wf(),
                    n == self.entities.key_seq().len(),
                    fresh.wf(),
                    forall|j: int|
                        0 <= j < i ==> #[trigger] fresh@.contains_key(
                            old(self).entities.key_seq()[j]@,
                        ) && reset_of(
                            fresh@[old(self).entities.key_seq()[j]@],
                            old(self).entities.val_seq()[j],
                        ),
                    forall|k: Seq<char>| #[trigger]
                        fresh@.contains_key(k) ==> exists|j: int|
                            0 <= j < i && old(self).entities.key_seq()[j]@ == k,
                    forall|k: Seq<char>| #[trigger]
                        fresh@.contains_key(k) ==> fresh@[k].wf(),
                decreases n - i,
            {
                let name = self.entities.key_at(i).clone();
                let v = reset_entry(self.entities.val_at(i));
                let ghost gv = v;
                let ghost pre_fresh = fresh@;
                fresh.insert(name, v);
                proof {
                    self.entities.lemma_entry(i as int);
                    assert(fresh@ =~= pre_fresh.insert(old(self).entities.key_seq()[i as int]@, gv));
                    assert forall|j: int|
                        0 <= j < i + 1 implies #[trigger] fresh@.contains_key(
                        old(self).entities.key_seq()[j]@,
                    ) && reset_of(
                        fresh@[old(self).entities.key_seq()[j]@],
                        old(self).entities.val_seq()[j],
                    ) by {
                        if j < i {
                            assert(old(self).entities.key_seq()[j]@ != old(
                                self,
                            ).entities.key_seq()[i as int]@);
                        }
                    }
                    assert forall|k: Seq<char>| #[trigger] fresh@.contains_key(k) implies exists|
                        j: int,
                    | 0 <= j < i + 1 && old(self).entities.key_seq()[j]@ == k by {
                        if k != old(self).entities.key_seq()[i as int]@ {
                            assert(pre_fresh.contains_key(k));
                        }
                    }
                }
                i += 1;
            }
            proof {
                assert forall|k: Seq<char>| #[trigger]
                    fresh@.contains_key(k) <==> old(self).entities@.contains_key(k) by {
                    old(self).entities.lemma_contains(k);
                    if old(self).entities@.contains_key(k) {
                        let j = choose|j: int|
                            0 <= j < old(self).entities.key_seq().len() && old(
                                self,
                            ).entities.key_seq()[j]@ == k;
                        assert(fresh@.contains_key(old(self).entities.key_seq()[j]@));
                    }
                }
                assert forall|k: Seq<char>| #[trigger]
                    old(self).entities@.contains_key(k) implies reset_of(
                    fresh@[k],
                    old(self).entities@[k],
                ) && fresh@[k].wf() by {
                    old(self).entities.lemma_contains(k);
                    let j = choose|j: int|
                        0 <= j < old(self).entities.key_seq().len() && old(
                            self,
                        ).entities.key_seq()[j]@ == k;
                    old(self).entities.lemma_entry(j);
                    assert(fresh@.contains_key(old(self).entities.key_seq()[j]@));
                    assert(reset_of(
                        fresh@[old(self).entities.key_seq()[j]@],
                        old(self).entities.val_seq()[j],
                    ));
                }
            }
            let ghost fm = fresh@;
            self.entities = fresh;
            proof {
                assert(self.entities@ == fm);
                assert forall|k: Seq<char>| #[trigger]
                    self.entities@.contains_key(k) <==> old(self).entities@.contains_key(k) by {
                    assert(fm.contains_key(k) <==> old(self).entities@.contains_key(k));
                }
                assert forall|k: Seq<char>| #[trigger]
                    old(self).entities@.contains_key(k) implies reset_of(
                    self.entities@[k],
                    old(self).entities@[k],
                ) && self.entities@[k].wf() by {
                    assert(reset_of(fm[k], old(self).entities@[k]) && fm[k].wf());
                }
            }
        }
    }

    /// The participants the periodic snapshot shows: players with a class,
    /// Esthers and Bosses, each with recorded damage (nothing else ever
    /// appears).
    pub fn snapshot_entities(&self) -> (r: Vec<SnapshotEntry>)
        requires
            self.wf(),
        ensures
            rows_sound(self.entities@, r@),
            forall|n: Seq<char>|
                self.entities@.contains_key(n) && #[trigger] snapshot_visible(self.entities@[n])
                    ==> exists|i: int| 0 <= i < r@.len() && r@[i].name@ == n,
    {
        let n = self.entities.len();
        let mut r: Vec<SnapshotEntry> = Vec::new();
        let mut i: usize = 0;
        while i < n
            invariant
                i <= n,
                self.wf(),
                n == self.entities.key_seq().len(),
                rows_sound(self.entities@, r@),
                rows_cover(self.entities, r@, i as int),
            decreases n - i,
        {
            let v = self.entities.val_at(i);
            let visible = (matches!(v.entity_type, EntityType::Player) && v.class_id > 0
                || matches!(v.entity_type, EntityType::Esther) || matches!(
                v.entity_type,
                EntityType::Boss,
            )) && v.damage_dealt > 0;
            proof {
                assert(visible == snapshot_visible(self.entities.val_seq()[i as int]));
            }
            if visible {
                let name = self.entities.key_at(i).clone();
                let ghost gname = name@;
                proof {
                    assert(gname == self.entities.key_seq()[i as int]@);
                    self.entities.lemma_entry(i as int);
                }
                let ghost prev = r@;
                r.push(SnapshotEntry {
                    name: name,
                    class_id: v.class_id,
                    entity_type: v.entity_type,
                    damage_dealt: v.damage_dealt,
                    damage_taken: v.damage_taken,
                    deaths: v.deaths,
                    current_hp: v.current_hp,
                    max_hp: v.max_hp,
                    is_dead: v.is_dead,
                });
                proof {
                    assert(r@[r@.len() - 1].name@ == gname);
                    assert forall|i2: int|
                        0 <= i2 < r@.len() implies #[trigger] self.entities@.contains_key(
                        r@[i2].name@,
                    ) && snapshot_visible(self.entities@[r@[i2].name@]) && r@[i2].damage_dealt
                        == self.entities@[r@[i2].name@].damage_dealt && r@[i2].class_id
                        == self.entities@[r@[i2].name@].class_id && r@[i2].entity_type
                        == self.entities@[r@[i2].name@].entity_type && r@[i2].damage_taken
                        == self.entities@[r@[i2].name@].damage_taken && r@[i2].deaths
                        == self.entities@[r@[i2].name@].deaths && r@[i2].current_hp
                        == self.entities@[r@[i2].name@].current_hp && r@[i2].max_hp
                        == self.entities@[r@[i2].name@].max_hp && r@[i2].is_dead
                        == self.entities@[r@[i2].name@].is_dead by {
                        if i2 < r@.len() - 1 {
                            assert(r@[i2] == prev[i2]);
                            assert(self.entities@.contains_key(prev[i2].name@));
                        } else {
                            assert(self.entities@.contains_key(gname));
                            assert(self.entities@[gname] == self.entities.val_seq()[i as int]);
                        }
                    }
                    assert(rows_sound(self.entities@, r@));
                    assert forall|j: int|
                        0 <= j < i + 1 && snapshot_visible(
                            #[trigger] self.entities.val_seq()[j],
                        ) implies exists|i2: int|
                        0 <= i2 < r@.len() && r@[i2].name@ == self.entities.key_seq()[j]@ by {
                        if j < i {
                            assert(rows_cover(self.entities, prev, i as int));
                            let i2 = choose|i2: int|
                                0 <= i2 < prev.len() && prev[i2].name@
                                    == self.entities.key_seq()[j]@;
                            assert(r@[i2].name@ == self.entities.key_seq()[j]@);
                        } else {
                            assert(r@[r@.len() - 1].name@ == self.entities.key_seq()[i as int]@);
                        }
                    }
                    assert(rows_cover(self.entities, r@, i as int + 1));
                }
            } else {
                proof {
                    assert forall|j: int|
                        0 <= j < i + 1 && snapshot_visible(
                            #[trigger] self.entities.val_seq()[j],
                        ) implies exists|i2: int|
                        0 <= i2 < r@.len() && r@[i2].name@ == self.entities.key_seq()[j]@ by {
                        if j < i {
                            assert(rows_cover(self.entities, r@, i as int));
                        }
                    }
                    assert(rows_cover(self.entities, r@, i as int + 1));
                }
            }
            i += 1;
        }
        proof {
            assert forall|nm: Seq<char>|
                self.entities@.contains_key(nm) && #[trigger] snapshot_visible(
                    self.entities@[nm],
                ) implies exists|i2: int| 0 <= i2 < r@.len() && r@[i2].name@ == nm by {
                self.entities.lemma_contains(nm);
                let j = choose|j: int|
                    0 <= j < self.entities.key_seq().len() && self.entities.key_seq()[j]@ == nm;
                self.entities.lemma_entry(j);
                assert(snapshot_visible(self.entities.val_seq()[j]));
            }
        }
        r
    }
}

/// Whether a hit falls into per-second window `b` counted from the fight
/// start.
pub open spec fn in_bucket(rec: HitRecord, fs: int, b: int) -> bool {
    rec.timestamp >= fs && (rec.timestamp - fs) / 1000 == b
}

/// The saturating sum of the hits of window `b`.
pub open spec fn bucket_acc(log: Seq<HitRecord>, fs: int, b: int) -> int
    decreases log.len(),
{
    if log.len() == 0 {
        0
    } else {
        let rest = bucket_acc(log.drop_last(), fs, b);
        if in_bucket(log.last(), fs, b) {
            spec_sat_add_i64(rest, log.last().damage as int)
        } else {
            rest
        }
    }
}

/// A hit dated before the fight start changes no window of the series.
pub proof fn lemma_early_hit_enters_no_bucket(
    log: Seq<HitRecord>,
    rec: HitRecord,
    fs: int,
    b: int,
)
    requires
        rec.timestamp < fs,
    ensures
        bucket_acc(log.push(rec), fs, b) == bucket_acc(log, fs, b),
{
    assert(log.push(rec).drop_last() =~= log);
    assert(log.push(rec).last() == rec);
    assert(!in_bucket(rec, fs, b));
}

/// The rolling damage series in fixed one-second windows since the fight
/// start. Hits dated before the fight start fall into no window.
pub fn dps_series(log: &Vec<HitRecord>, fight_start: i64, buckets: usize) -> (r: Vec<i64>)
    requires
        fight_start >= 0,
    ensures
        r@.len() == buckets,
        forall|b: int|
            0 <= b < buckets ==> #[trigger] r@[b] as int == bucket_acc(
                log@,
                fight_start as int,
                b,
            ),
{
    let mut r: Vec<i64> = Vec::new();
    let mut k: usize = 0;
    while k < buckets
        invariant
            k <= buckets,
            r@.len() == k,
            forall|b: int| 0 <= b < k ==> r@[b] == 0,
        decreases buckets - k,
    {
        r.push(0);
        k += 1;
    }
    proof {
        assert forall|b: int|
            0 <= b < buckets implies #[trigger] r@[b] as int == bucket_acc(
            log@.take(0),
            fight_start as int,
            b,
        ) by {
            assert(log@.take(0).len() == 0);
        }
    }
    let mut i: usize = 0;
    while i < log.len()
        invariant
            i <= log.len(),
            fight_start >= 0,
            r@.len() == buckets,
            forall|b: int|
                0 <= b < buckets ==> #[trigger] r@[b] as int == bucket_acc(
                    log@.take(i as int),
                    fight_start as int,
                    b,
                ),
        decreases log.len() - i,
    {
        let rec = log[i];
        let ghost prev = r@;
        proof {
            assert(log@.take(i as int + 1).drop_last() =~= log@.take(i as int));
            assert(log@.take(i as int + 1).last() == log@[i as int]);
        }
        if rec.timestamp >= fight_start {
            let diff = rec.timestamp - fight_start;
            let idx = diff / 1000;
            if (idx as u64) < (buckets as u64) {
                let ii = idx as usize;
                let cur = r[ii];
                let updated = sat_add_i64(cur, rec.damage);
                r[ii] = updated;
                proof {
                    assert forall|b: int|
                        0 <= b < buckets implies #[trigger] r@[b] as int == bucket_acc(
                        log@.take(i as int + 1),
                        fight_start as int,
                        b,
                    ) by {
                        if b == idx as int {
                            assert(in_bucket(log@[i as int], fight_start as int, b));
                        } else {
                            assert(!in_bucket(log@[i as int], fight_start as int, b));
                            assert(r@[b] == prev[b]);
                        }
                    }
                }
            } else {
                proof {
                    assert forall|b: int|
                        0 <= b < buckets implies #[trigger] r@[b] as int == bucket_acc(
                        log@.take(i as int + 1),
                        fight_start as int,
                        b,
                    ) by {
                        assert(!in_bucket(log@[i as int], fight_start as int, b));
                    }
                }
            }
        } else {
            proof {
                assert forall|b: int|
                    0 <= b < buckets implies #[trigger] r@[b] as int == bucket_acc(
                    log@.take(i as int + 1),
                    fight_start as int,
                    b,
                ) by {
                    assert(!in_bucket(log@[i as int], fight_start as int, b));
                }
            }
        }
        i += 1;
    }
    proof {
        assert(log@.take(log@.len() as int) =~= log@);
    }
    r
}

} // verus!
