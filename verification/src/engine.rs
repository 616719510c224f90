//! The packet-driven engine: one structure owning every tracker and the
//! encounter state, and one function that consumes a decoded packet and
//! mutates them. The surrounding process feeds it packets, timestamps and
//! control flags, and carries out the actions it hands back (persist a
//! finished encounter, emit a gauge update, refresh a character's stats).

use crate::encounter::{boss_shield_set, damage_recorded, reset_of, sat_add_i64, sat_sub_u64,
    shield_used_added, spec_sat_add_i64, spec_sat_sub_u64, EncounterState, SnapshotEntry};
use crate::entity_tracker::{is_placeholder, resolve_id, EntityTracker};
use crate::id_tracker::IdTracker;
use crate::models::{DamageData, DamageEvent, Entity, EntityType, IdentitySample, PacketEvent, PartyMember,
    StaggerSample, StatusEffect, StatusEffectTargetType, StatusEffectType};
use crate::party_tracker::PartyTracker;
use crate::skill_tracker::SkillTracker;
use crate::status_tracker::{build_status_effect, sync_rec, StatusTracker};
use crate::vmap::VMap;
use vstd::prelude::*;

verus! {

/// Damage packets arriving within this window after a raid-ending phase are
/// suppressed, so posthumous damage reports do not move the totals.
pub const RAID_END_COOLDOWN_MS: i64 = 10000;

/// What the surrounding process must do after one packet.
pub struct EngineOutput {
    /// Emit the identity gauges to the presentation (details enabled only).
    pub identity_update: Option<IdentitySample>,
    /// Emit the stagger state to the presentation (details enabled only).
    pub stagger_update: Option<StaggerSample>,
    /// Persist the encounter under this phase code.
    pub persist_phase: Option<u32>,
    /// Character ids whose remote stats are stale.
    pub stats_sync: Vec<u64>,
    /// The local-players cache gained this entry and should be rewritten.
    pub local_player_update: Option<(u64, String)>,
}

pub open spec fn quiet_output(out: EngineOutput) -> bool {
    &&& out.identity_update is None
    &&& out.stagger_update is None
    &&& out.persist_phase is None
    &&& out.stats_sync@ == Seq::<u64>::empty()
    &&& out.local_player_update is None
}

fn empty_output() -> (r: EngineOutput)
    ensures
        quiet_output(r),
{
    EngineOutput {
        identity_update: None,
        stagger_update: None,
        persist_phase: None,
        stats_sync: Vec::new(),
        local_player_update: None,
    }
}

/// The engine is inside its raid-end cooldown at `now`.
pub open spec fn spec_in_cooldown(raid_end_cd: i64, now: i64) -> bool {
    raid_end_cd > 0 && (now as int) < spec_sat_add_i64(
        raid_end_cd as int,
        RAID_END_COOLDOWN_MS as int,
    )
}

/// The party-id each character of the roster ends up with after a
/// `PartyInfo` packet, applied left to right.
pub open spec fn fold_party_chars(m: Map<u64, u32>, cids: Seq<u64>, pid: u32) -> Map<u64, u32>
    decreases cids.len(),
{
    if cids.len() == 0 {
        m
    } else {
        let m2 = fold_party_chars(m, cids.drop_last(), pid);
        if cids.last() != 0 {
            m2.insert(cids.last(), pid)
        } else {
            m2
        }
    }
}

/// After the fold, a character is mapped to `pid` exactly when the roster
/// names it; everyone else keeps the old mapping.
pub proof fn lemma_fold_party_chars(m: Map<u64, u32>, cids: Seq<u64>, pid: u32, k: u64)
    ensures
        fold_party_chars(m, cids, pid).contains_key(k) <==> ((cids.contains(k) && k != 0)
            || m.contains_key(k)),
        (cids.contains(k) && k != 0) ==> fold_party_chars(m, cids, pid)[k] == pid,
        ((!cids.contains(k) || k == 0) && m.contains_key(k)) ==> fold_party_chars(m, cids, pid)[k]
            == m[k],
    decreases cids.len(),
{
    if cids.len() > 0 {
        lemma_fold_party_chars(m, cids.drop_last(), pid, k);
        if cids.contains(k) {
            let i = choose|i: int| 0 <= i < cids.len() && cids[i] == k;
            if i < cids.len() - 1 {
                assert(cids.drop_last()[i] == k);
                assert(cids.drop_last().contains(k));
            }
        }
        if cids.drop_last().contains(k) {
            let i = choose|i: int| 0 <= i < cids.drop_last().len() && cids.drop_last()[i] == k;
            assert(cids[i] == k);
            assert(cids.contains(k));
        }
    }
}

/// Applying the same `PartyInfo` roster twice leaves the same membership map
/// as applying it once.
pub proof fn lemma_party_info_idempotent(m: Map<u64, u32>, cids: Seq<u64>, pid: u32)
    ensures
        fold_party_chars(fold_party_chars(m, cids, pid), cids, pid) == fold_party_chars(
            m,
            cids,
            pid,
        ),
{
    let once = fold_party_chars(m, cids, pid);
    let twice = fold_party_chars(once, cids, pid);
    assert forall|k: u64| #[trigger]
        twice.contains_key(k) <==> once.contains_key(k) by {
        lemma_fold_party_chars(m, cids, pid, k);
        lemma_fold_party_chars(once, cids, pid, k);
    }
    assert forall|k: u64| twice.contains_key(k) implies #[trigger] twice[k] == once[k] by {
        lemma_fold_party_chars(m, cids, pid, k);
        lemma_fold_party_chars(once, cids, pid, k);
    }
    assert(twice =~= once);
}

/// The party-id each entity of the roster ends up with: the entity side is
/// resolved lazily through the id tracker, which the roster walk never
/// changes.
pub open spec fn fold_party_entities(
    m: Map<u64, u32>,
    cids: Seq<u64>,
    c2e: Map<u64, u64>,
    pid: u32,
) -> Map<u64, u32>
    decreases cids.len(),
{
    if cids.len() == 0 {
        m
    } else {
        let m2 = fold_party_entities(m, cids.drop_last(), c2e, pid);
        let cid = cids.last();
        if cid != 0 && c2e.contains_key(cid) && c2e[cid] != 0 {
            m2.insert(c2e[cid], pid)
        } else {
            m2
        }
    }
}

/// Some roster character resolves to entity `k`.
pub open spec fn roster_maps_to(cids: Seq<u64>, c2e: Map<u64, u64>, k: u64) -> bool {
    exists|i: int|
        #![trigger cids[i]]
        0 <= i < cids.len() && cids[i] != 0 && c2e.contains_key(cids[i]) && c2e[cids[i]] == k
            && k != 0
}

/// After the entity-side fold, an entity is mapped to `pid` exactly when
/// some roster character resolves to it; everyone else keeps the old
/// mapping.
pub proof fn lemma_fold_party_entities(
    m: Map<u64, u32>,
    cids: Seq<u64>,
    c2e: Map<u64, u64>,
    pid: u32,
    k: u64,
)
    ensures
        fold_party_entities(m, cids, c2e, pid).contains_key(k) <==> (roster_maps_to(cids, c2e, k)
            || m.contains_key(k)),
        roster_maps_to(cids, c2e, k) ==> fold_party_entities(m, cids, c2e, pid)[k] == pid,
        (!roster_maps_to(cids, c2e, k) && m.contains_key(k)) ==> fold_party_entities(
            m,
            cids,
            c2e,
            pid,
        )[k] == m[k],
    decreases cids.len(),
{
    if cids.len() > 0 {
        lemma_fold_party_entities(m, cids.drop_last(), c2e, pid, k);
        if roster_maps_to(cids, c2e, k) {
            let i = choose|i: int|
                #![trigger cids[i]]
                0 <= i < cids.len() && cids[i] != 0 && c2e.contains_key(cids[i])
                    && c2e[cids[i]] == k && k != 0;
            if i < cids.len() - 1 {
                assert(cids.drop_last()[i] == cids[i]);
                assert(roster_maps_to(cids.drop_last(), c2e, k));
            }
        }
        if roster_maps_to(cids.drop_last(), c2e, k) {
            let i = choose|i: int|
                #![trigger cids.drop_last()[i]]
                0 <= i < cids.drop_last().len() && cids.drop_last()[i] != 0
                    && c2e.contains_key(cids.drop_last()[i]) && c2e[cids.drop_last()[i]] == k
                    && k != 0;
            assert(cids[i] == cids.drop_last()[i]);
            assert(roster_maps_to(cids, c2e, k));
        }
        let cid = cids.last();
        if cid != 0 && c2e.contains_key(cid) && c2e[cid] != 0 && c2e[cid] == k {
            assert(cids[cids.len() - 1] == cid);
            assert(roster_maps_to(cids, c2e, k));
        }
    }
}

/// Applying the same roster twice leaves the same entity-side membership
/// map as applying it once.
pub proof fn lemma_party_info_idempotent_entities(
    m: Map<u64, u32>,
    cids: Seq<u64>,
    c2e: Map<u64, u64>,
    pid: u32,
)
    ensures
        fold_party_entities(fold_party_entities(m, cids, c2e, pid), cids, c2e, pid)
            == fold_party_entities(m, cids, c2e, pid),
{
    let once = fold_party_entities(m, cids, c2e, pid);
    let twice = fold_party_entities(once, cids, c2e, pid);
    assert forall|k: u64| #[trigger] twice.contains_key(k) <==> once.contains_key(k) by {
        lemma_fold_party_entities(m, cids, c2e, pid, k);
        lemma_fold_party_entities(once, cids, c2e, pid, k);
    }
    assert forall|k: u64| twice.contains_key(k) implies #[trigger] twice[k] == once[k] by {
        lemma_fold_party_entities(m, cids, c2e, pid, k);
        lemma_fold_party_entities(once, cids, c2e, pid, k);
    }
    assert(twice =~= once);
}

pub open spec fn strictly_ascending(s: Seq<u32>) -> bool {
    forall|a: int, b: int| 0 <= a < b < s.len() ==> s[a] < s[b]
}

/// Every name of a party row is the name of a tracked roster member.
pub open spec fn row_names_sound(
    pt: PartyTracker,
    et: EntityTracker,
    row: Seq<String>,
) -> bool {
    forall|m: int|
        #![trigger row[m]]
        0 <= m < row.len() ==> exists|e: u64|
            #[trigger] pt.entity_party().contains_key(e) && et.catalog().contains_key(e)
                && et.catalog()[e].name@ == row[m]@
}

pub open spec fn rows_names_sound(
    pt: PartyTracker,
    et: EntityTracker,
    rows: Seq<Vec<String>>,
) -> bool {
    forall|p: int|
        #![trigger rows[p]]
        0 <= p < rows.len() ==> row_names_sound(pt, et, rows[p]@)
}

/// The value `get_or_create_entity` hands back for `id` on catalog `m`.
pub open spec fn entity_fetched(m: Map<u64, Entity>, id: u64, e: Entity) -> bool {
    if m.contains_key(id) {
        e == m[id]
    } else {
        is_placeholder(e, id)
    }
}

/// The catalog after `get_or_create_entity` for `id` handed back `e`.
pub open spec fn fetched_catalog(m: Map<u64, Entity>, id: u64, e: Entity) -> Map<u64, Entity> {
    if m.contains_key(id) {
        m
    } else {
        m.insert(id, e)
    }
}

/// The damage record of one swing of a packet.
pub open spec fn dd_of(ev: DamageEvent, skill_id: u32, skill_effect_id: u32) -> DamageData {
    DamageData {
        skill_id: skill_id,
        skill_effect_id: skill_effect_id,
        damage: ev.damage,
        modifier: ev.modifier,
        target_current_hp: ev.cur_hp,
        target_max_hp: ev.max_hp,
    }
}

/// One swing of a damage packet: the target and the immediate striker are
/// fetched (placeholders for unseen ids), and the hit is recorded per
/// `damage_recorded`.
pub open spec fn chain_step(
    sm: EncounterState,
    mm: Map<u64, Entity>,
    s1: EncounterState,
    m1: Map<u64, Entity>,
    owner: Entity,
    source_id: u64,
    skill_id: u32,
    skill_effect_id: u32,
    ev: DamageEvent,
    target: Entity,
    source: Entity,
    ts: i64,
) -> bool {
    let mt = fetched_catalog(mm, ev.target_id, target);
    &&& entity_fetched(mm, ev.target_id, target)
    &&& entity_fetched(mt, source_id, source)
    &&& m1 == fetched_catalog(mt, source_id, source)
    &&& damage_recorded(sm, s1, owner, source, target, dd_of(ev, skill_id, skill_effect_id), ts)
}

/// The swings of one damage packet, recorded left to right.
pub open spec fn damage_chain(
    s0: EncounterState,
    m0: Map<u64, Entity>,
    s1: EncounterState,
    m1: Map<u64, Entity>,
    owner: Entity,
    source_id: u64,
    skill_id: u32,
    skill_effect_id: u32,
    evs: Seq<DamageEvent>,
    ts: i64,
) -> bool
    decreases evs.len(),
{
    if evs.len() == 0 {
        s1 == s0 && m1 == m0
    } else {
        exists|sm: EncounterState, mm: Map<u64, Entity>, target: Entity, source: Entity|
            #![trigger chain_step(sm, mm, s1, m1, owner, source_id, skill_id, skill_effect_id, evs.last(), target, source, ts)]
            damage_chain(
                s0,
                m0,
                sm,
                mm,
                owner,
                source_id,
                skill_id,
                skill_effect_id,
                evs.drop_last(),
                ts,
            ) && chain_step(
                sm,
                mm,
                s1,
                m1,
                owner,
                source_id,
                skill_id,
                skill_effect_id,
                evs.last(),
                target,
                source,
                ts,
            )
    }
}

/// Appending one recorded swing extends a damage chain.
proof fn lemma_chain_snoc(
    s0: EncounterState,
    m0: Map<u64, Entity>,
    sm: EncounterState,
    mm: Map<u64, Entity>,
    s1: EncounterState,
    m1: Map<u64, Entity>,
    owner: Entity,
    source_id: u64,
    skill_id: u32,
    skill_effect_id: u32,
    evs: Seq<DamageEvent>,
    ev: DamageEvent,
    target: Entity,
    source: Entity,
    ts: i64,
)
    requires
        damage_chain(s0, m0, sm, mm, owner, source_id, skill_id, skill_effect_id, evs, ts),
        entity_fetched(mm, ev.target_id, target),
        entity_fetched(fetched_catalog(mm, ev.target_id, target), source_id, source),
        m1 == fetched_catalog(fetched_catalog(mm, ev.target_id, target), source_id, source),
        damage_recorded(sm, s1, owner, source, target, dd_of(ev, skill_id, skill_effect_id), ts),
    ensures
        damage_chain(s0, m0, s1, m1, owner, source_id, skill_id, skill_effect_id, evs.push(ev), ts),
{
    let snoc = evs.push(ev);
    assert(snoc.drop_last() =~= evs);
    assert(snoc.last() == ev);
    assert(damage_chain(
        s0,
        m0,
        sm,
        mm,
        owner,
        source_id,
        skill_id,
        skill_effect_id,
        snoc.drop_last(),
        ts,
    ));
    assert(chain_step(
        sm,
        mm,
        s1,
        m1,
        owner,
        source_id,
        skill_id,
        skill_effect_id,
        snoc.last(),
        target,
        source,
        ts,
    ));
    assert(damage_chain(s0, m0, s1, m1, owner, source_id, skill_id, skill_effect_id, snoc, ts));
}

/// The whole effect of one damage packet on the engine: the attributable
/// owner is resolved through the owner chain, the timestamp is back-dated
/// through the projectile map when the immediate striker is a transient,
/// every swing is recorded in order, and nothing else moves.
pub open spec fn damage_packet_processed(
    pre: Engine,
    post: Engine,
    source_id: u64,
    skill_id: u32,
    skill_effect_id: u32,
    evs: Seq<DamageEvent>,
    now: i64,
) -> bool {
    let m0 = pre.entities.catalog();
    let rid = resolve_id(m0, source_id, 4);
    &&& exists|ownr: Entity, src0: Entity|
        #![trigger entity_fetched(m0, rid, ownr), entity_fetched(fetched_catalog(m0, rid, ownr), source_id, src0)]
        {
            let m1 = fetched_catalog(m0, rid, ownr);
            let m2 = fetched_catalog(m1, source_id, src0);
            let ts = if src0.entity_type.is_transient()
                && pre.skills.projectile_map().contains_key(source_id) {
                pre.skills.projectile_map()[source_id]
            } else {
                now
            };
            &&& entity_fetched(m0, rid, ownr)
            &&& entity_fetched(m1, source_id, src0)
            &&& damage_chain(
                pre.state,
                m2,
                post.state,
                post.entities.catalog(),
                ownr,
                source_id,
                skill_id,
                skill_effect_id,
                evs,
                ts,
            )
        }
    &&& post.ids == pre.ids
    &&& post.party == pre.party
    &&& post.status == pre.status
    &&& post.skills == pre.skills
    &&& post.raid_end_cd == pre.raid_end_cd
    &&& post.party_freeze == pre.party_freeze
    &&& post.party_cache == pre.party_cache
    &&& post.stats_cache == pre.stats_cache
    &&& post.entities.local_entity_id == pre.entities.local_entity_id
    &&& post.entities.local_character_id == pre.entities.local_character_id
}

/// The packet kinds whose handling may touch the status registries; every
/// other packet leaves every registered effect's value and duration alone.
pub open spec fn touches_status(evt: PacketEvent) -> bool {
    match evt {
        PacketEvent::InitEnv { .. } => true,
        PacketEvent::RemoveObject { .. } => true,
        PacketEvent::PartyStatusEffectAdd { .. } => true,
        PacketEvent::PartyStatusEffectRemove { .. } => true,
        PacketEvent::StatusEffectAdd { .. } => true,
        PacketEvent::StatusEffectDuration { .. } => true,
        PacketEvent::StatusEffectRemove { .. } => true,
        PacketEvent::StatusEffectSyncData { .. } => true,
        PacketEvent::TroopMemberUpdateMin { .. } => true,
        PacketEvent::ZoneObjectUnpublish { .. } => true,
        _ => false,
    }
}

/// The packets that arm the raid-end cooldown: the raid-ending triggers and
/// the raid result; nothing else moves the cooldown clock.
pub open spec fn arms_cooldown(evt: PacketEvent) -> bool {
    match evt {
        PacketEvent::TriggerStart { signal } => signal == 57 || signal == 59 || signal == 61
            || signal == 63 || signal == 74 || signal == 76 || signal == 58 || signal == 60
            || signal == 62 || signal == 64 || signal == 75 || signal == 77,
        PacketEvent::RaidResult => true,
        _ => false,
    }
}

/// The two state updates of a shield change, in order: the boss's remaining
/// shield, then the breaker's absorbed amount.
pub open spec fn shield_events(
    sm: EncounterState,
    source: Entity,
    target: Entity,
    pre_state: EncounterState,
    post_state: EncounterState,
    value: u64,
    change: u64,
) -> bool {
    boss_shield_set(pre_state, sm, target, value) && shield_used_added(sm, post_state, source, change)
}

/// A non-zero shield change: the shield's source and its target are resolved
/// through the owner chain (the target through the id tracker when the
/// effect is party-indexed), the boss shield is set to the effect's value
/// and the absorbed change is credited to the source. Nothing else moves.
pub open spec fn shield_change_rec(
    pre: Engine,
    post: Engine,
    effect: StatusEffect,
    change: u64,
) -> bool {
    let m0 = pre.entities.catalog();
    let tid = if effect.target_type == StatusEffectTargetType::Party {
        if pre.ids.char_to_entity().contains_key(effect.target_id) {
            pre.ids.char_to_entity()[effect.target_id]
        } else {
            0
        }
    } else {
        effect.target_id
    };
    let rid_s = resolve_id(m0, effect.source_id, 4);
    &&& exists|source: Entity, target: Entity, sm: EncounterState|
        #![trigger shield_events(sm, source, target, pre.state, post.state, effect.value, change)]
        {
            let m1 = fetched_catalog(m0, rid_s, source);
            let rid_t = resolve_id(m1, tid, 4);
            &&& entity_fetched(m0, rid_s, source)
            &&& entity_fetched(m1, rid_t, target)
            &&& post.entities.catalog() == fetched_catalog(m1, rid_t, target)
            &&& shield_events(sm, source, target, pre.state, post.state, effect.value, change)
        }
    &&& post.ids == pre.ids
    &&& post.party == pre.party
    &&& post.status == pre.status
    &&& post.skills == pre.skills
    &&& post.raid_end_cd == pre.raid_end_cd
    &&& post.party_freeze == pre.party_freeze
    &&& post.party_cache == pre.party_cache
    &&& post.stats_cache == pre.stats_cache
}

/// Some tracked member carries this party id.
pub open spec fn pid_present(pt: PartyTracker, id: u32) -> bool {
    exists|e: u64| #[trigger] pt.entity_party().contains_key(e) && pt.entity_party()[e] == id
}

/// The names of the members of party `pid` among the first `i` roster
/// slots, in membership order; ids without a catalog entry contribute
/// nothing.
pub open spec fn member_names_upto(
    pt: PartyTracker,
    m: Map<u64, Entity>,
    pid: u32,
    i: int,
) -> Seq<Seq<char>>
    decreases i,
{
    if i <= 0 {
        Seq::<Seq<char>>::empty()
    } else {
        let rest = member_names_upto(pt, m, pid, i - 1);
        let e = pt.entity_order()[i - 1];
        if pt.entity_party()[e] == pid && m.contains_key(e) {
            rest.push(m[e].name@)
        } else {
            rest
        }
    }
}

/// The party snapshot in full: one row per distinct party id present in the
/// membership, ids strictly ascending, each row exactly the names of that
/// party's tracked members in membership order.
pub open spec fn party_rows_built(
    pt: PartyTracker,
    et: EntityTracker,
    rows: Seq<Vec<String>>,
) -> bool {
    exists|pids: Seq<u32>|
        #![trigger pids.len()]
        {
            let n = pt.entity_order().len() as int;
            &&& strictly_ascending(pids)
            &&& (forall|id: u32| #[trigger] pids.contains(id) <==> pid_present(pt, id))
            &&& rows.len() == pids.len()
            &&& (forall|p: int|
                #![trigger rows[p]]
                0 <= p < pids.len() ==> rows[p]@.map_values(|s: String| s@)
                    == member_names_upto(pt, et.catalog(), pids[p], n))
        }
}

/// Two party snapshots carry the same names, row for row.
pub open spec fn rows_name_eq(a: Seq<Vec<String>>, b: Seq<Vec<String>>) -> bool {
    &&& a.len() == b.len()
    &&& forall|p: int|
        #![trigger a[p]]
        0 <= p < a.len() ==> a[p]@.len() == b[p]@.len() && (forall|m: int|
            #![trigger a[p]@[m]]
            0 <= m < a[p]@.len() ==> a[p]@[m]@ == b[p]@[m]@)
}

pub struct Engine {
    pub ids: IdTracker,
    pub party: PartyTracker,
    pub status: StatusTracker,
    pub entities: EntityTracker,
    pub skills: SkillTracker,
    pub state: EncounterState,
    /// Timestamp of the last raid-ending phase, 0 before any.
    pub raid_end_cd: i64,
    /// The party snapshot is frozen between a raid end and the next reset.
    pub party_freeze: bool,
    /// A cached party snapshot, kept while every party is full.
    pub party_cache: Option<Vec<Vec<String>>>,
    /// Out-of-band character stats fetched by the surrounding process,
    /// keyed by character id; stale entries are simply overwritten.
    pub stats_cache: VMap<String>,
}

impl Engine {
    pub open spec fn wf(self) -> bool {
        &&& self.ids.wf()
        &&& self.party.wf()
        &&& self.status.wf()
        &&& self.entities.wf()
        &&& self.skills.wf()
        &&& self.state.wf()
        &&& self.stats_cache.wf()
    }

    pub fn new() -> (r: Engine)
        ensures
            r.wf(),
            r.raid_end_cd == 0,
            r.party_freeze == false,
            r.party_cache is None,
            r.ids.entity_to_char() == Map::<u64, u64>::empty(),
            r.ids.char_to_entity() == Map::<u64, u64>::empty(),
            r.party.entity_party() == Map::<u64, u32>::empty(),
            r.party.char_party() == Map::<u64, u32>::empty(),
            r.status.local_map() == Map::<u64, Vec<StatusEffect>>::empty(),
            r.status.party_map() == Map::<u64, Vec<StatusEffect>>::empty(),
            r.entities.catalog() == Map::<u64, Entity>::empty(),
            r.entities.local_entity_id == 0,
            r.entities.local_character_id == 0,
            forall|e: u64, sk: u32| #[trigger] r.skills.cast_ts(e, sk) is None,
            r.skills.projectile_map() == Map::<u64, i64>::empty(),
            r.stats_cache@ == Map::<u64, String>::empty(),
            r.state.entities@ == Map::<Seq<char>, crate::encounter::EncounterEntity>::empty(),
            r.state.fight_start == 0,
            r.state.raid_clear == false,
            r.state.resetting == false,
            r.state.saved == false,
            r.state.boss_dead_update == false,
            r.state.boss_only_damage == false,
            r.state.current_boss_name@ == Seq::<char>::empty(),
            r.state.raid_difficulty@ == Seq::<char>::empty(),
            r.state.raid_difficulty_id == 0,
            r.state.party_info@ == Seq::<Vec<String>>::empty(),
            r.state.region is None,
    {
        Engine {
            ids: IdTracker::new(),
            party: PartyTracker::new(),
            status: StatusTracker::new(),
            entities: EntityTracker::new(),
            skills: SkillTracker::new(),
            state: EncounterState::new(),
            raid_end_cd: 0,
            party_freeze: false,
            party_cache: None,
            stats_cache: VMap::new(),
        }
    }

    pub fn in_cooldown(&self, now: i64) -> (r: bool)
        ensures
            r == spec_in_cooldown(self.raid_end_cd, now),
    {
        self.raid_end_cd > 0 && now < sat_add_i64(self.raid_end_cd, RAID_END_COOLDOWN_MS)
    }

    /// The engine's part of shield accounting: the boss's remaining shield
    /// and the breaker's absorbed amount.
    fn shield_change(&mut self, effect: StatusEffect, change: u64)
        requires
            old(self).wf(),
        ensures
            final(self).wf(),
            change == 0 ==> *final(self) == *old(self),
            change != 0 ==> shield_change_rec(*old(self), *final(self), effect, change),
    {
        if change == 0 {
            return ;
        }
        let ghost m0 = self.entities.catalog();
        let source = self.entities.get_source_entity(effect.source_id);
        let target_id = if matches!(effect.target_type, StatusEffectTargetType::Party) {
            match self.ids.get_entity_id(effect.target_id) {
                Some(e) => e,
                None => 0,
            }
        } else {
            effect.target_id
        };
        let target = self.entities.get_source_entity(target_id);
        let ghost sm_pre = self.state;
        self.state.on_boss_shield(&target, effect.value);
        let ghost sm = self.state;
        self.state.on_shield_used(&source, effect.status_effect_id, change);
        proof {
            assert(shield_events(
                sm,
                source,
                target,
                sm_pre,
                self.state,
                effect.value,
                change,
            ));
        }
    }

    /// Apply one `PartyInfo` roster: every member gets an entity slot and a
    /// membership entry under the party instance; the cached snapshot is
    /// dropped.
    pub fn apply_party_info(
        &mut self,
        raid_instance_id: u32,
        party_instance_id: u32,
        members: &Vec<PartyMember>,
    )
        requires
            old(self).wf(),
        ensures
            final(self).wf(),
            final(self).party.char_party() == fold_party_chars(
                old(self).party.char_party(),
                members@.map_values(|m: PartyMember| m.character_id),
                party_instance_id,
            ),
            final(self).party.entity_party() == fold_party_entities(
                old(self).party.entity_party(),
                members@.map_values(|m: PartyMember| m.character_id),
                old(self).ids.char_to_entity(),
                party_instance_id,
            ),
            final(self).ids == old(self).ids,
            final(self).party_cache is None,
            final(self).raid_end_cd == old(self).raid_end_cd,
            final(self).party_freeze == old(self).party_freeze,
            final(self).stats_cache == old(self).stats_cache,
            final(self).skills == old(self).skills,
            final(self).status == old(self).status,
    {
        let ghost cids = members@.map_values(|m: PartyMember| m.character_id);
        let mut i: usize = 0;
        while i < members.len()
            invariant
                i <= members.len(),
                self.wf(),
                cids == members@.map_values(|m: PartyMember| m.character_id),
                self.party.char_party() == fold_party_chars(
                    old(self).party.char_party(),
                    cids.take(i as int),
                    party_instance_id,
                ),
                self.party.entity_party() == fold_party_entities(
                    old(self).party.entity_party(),
                    cids.take(i as int),
                    old(self).ids.char_to_entity(),
                    party_instance_id,
                ),
                self.ids == old(self).ids,
                self.raid_end_cd == old(self).raid_end_cd,
                self.party_freeze == old(self).party_freeze,
                self.stats_cache == old(self).stats_cache,
                self.skills == old(self).skills,
                self.status == old(self).status,
            decreases members.len() - i,
        {
            let m = &members[i];
            let ghost pre_map = self.party.char_party();
            proof {
                assert(cids.take(i as int + 1).drop_last() =~= cids.take(i as int));
                assert(cids.take(i as int + 1).last() == cids[i as int]);
            }
            if m.character_id != 0 {
                self.entities.ensure_party_member(
                    &self.ids,
                    m.character_id,
                    &m.name,
                    m.class_id,
                    m.gear_level,
                );
                self.party.add(
                    &self.ids,
                    raid_instance_id,
                    party_instance_id,
                    m.character_id,
                    0,
                    Some(&m.name),
                );
                proof {
                    assert(self.party.char_party() == pre_map.insert(
                        m.character_id,
                        party_instance_id,
                    ));
                }
            }
            i += 1;
        }
        proof {
            assert(cids.take(members@.len() as int) =~= cids);
        }
        self.party_cache = None;
        let local_id = self.entities.local_entity_id;
        let local = self.entities.get_entity(local_id);
        if let Some(local) = local {
            self.state.local_player_name = local.name.clone();
            self.state.upsert_entity(&local, local.current_hp, local.max_hp);
        }
    }

    /// Route one decoded packet. `now` is the arrival timestamp in epoch
    /// milliseconds; `emit_details` mirrors the control flag for gauge
    /// emission. Damage packets inside the raid-end cooldown leave the
    /// engine untouched.
    pub fn process_packet(&mut self, evt: PacketEvent, now: i64, emit_details: bool) -> (out:
        EngineOutput)
        requires
            old(self).wf(),
        ensures
            final(self).wf(),
            // raid-end cooldown: a damage packet is ignored outright
            (evt matches PacketEvent::SkillDamage { .. } || evt
                matches PacketEvent::SkillDamageAbnormalMove { .. }) && spec_in_cooldown(
                old(self).raid_end_cd,
                now,
            ) ==> *final(self) == *old(self) && quiet_output(out),
            // raid-ending triggers arm the cooldown
            (evt matches PacketEvent::TriggerStart { signal } && (signal == 57 || signal == 59
                || signal == 61 || signal == 63 || signal == 74 || signal == 76)) ==> final(self).raid_end_cd == now && final(self).state.raid_clear && final(self).party_freeze
                && out.persist_phase == Some(2u32),
            (evt matches PacketEvent::TriggerStart { signal } && (signal == 58 || signal == 60
                || signal == 62 || signal == 64 || signal == 75 || signal == 77)) ==> final(self).raid_end_cd == now && final(self).party_freeze && out.persist_phase == Some(4u32),
            evt matches PacketEvent::RaidResult ==> final(self).raid_end_cd == now
                && out.persist_phase == Some(0u32),
            evt matches PacketEvent::RaidBossKill ==> out.persist_phase == Some(1u32) && final(self).state.raid_clear,
            // removing status-effect instances that are not registered is
            // a no-op for the whole engine
            evt matches PacketEvent::StatusEffectRemove { object_id, instance_ids, reason } ==> ((
            exists|x: StatusEffect|
                old(self).status.reg(StatusEffectTargetType::Local).contains_key(object_id)
                    && old(self).status.reg(StatusEffectTargetType::Local)[object_id]@.contains(
                    x,
                ) && instance_ids@.contains(x.instance_id)) || (*final(self) == *old(self)
                && quiet_output(out))),
            // a damage packet outside the cooldown is recorded swing by swing
            evt matches PacketEvent::SkillDamage { source_id, skill_id, skill_effect_id, events }
                ==> (spec_in_cooldown(old(self).raid_end_cd, now) || (damage_packet_processed(
                *old(self),
                *final(self),
                source_id,
                skill_id,
                skill_effect_id,
                events@,
                now,
            ) && quiet_output(out))),
            evt matches PacketEvent::SkillDamageAbnormalMove {
                source_id,
                skill_id,
                skill_effect_id,
                events,
            } ==> (spec_in_cooldown(old(self).raid_end_cd, now) || (damage_packet_processed(
                *old(self),
                *final(self),
                source_id,
                skill_id,
                skill_effect_id,
                events@,
                now,
            ) && quiet_output(out))),
            // only the raid-ending triggers and the raid result move the
            // cooldown clock
            !arms_cooldown(evt) ==> final(self).raid_end_cd == old(self).raid_end_cd,
            // no other packet kind reaches the status registries
            !touches_status(evt) ==> final(self).status == old(self).status,
            // a value sync relocates the effect per the registry contract;
            // a shield's lost amount is credited through the shield chain
            evt matches PacketEvent::StatusEffectSyncData {
                object_id,
                character_id,
                instance_id,
                value,
            } ==> exists|r0: Option<StatusEffect>, r1: u64|
                #![trigger sync_rec(old(self).status, final(self).status, instance_id, character_id, object_id, value, r0, r1)]
                {
                    &&& sync_rec(
                        old(self).status,
                        final(self).status,
                        instance_id,
                        character_id,
                        object_id,
                        value,
                        r0,
                        r1,
                    )
                    &&& (match r0 {
                        Some(eff) => {
                            let change = spec_sat_sub_u64(r1 as int, eff.value as int);
                            &&& (eff.effect_type == StatusEffectType::Shield && change != 0
                                ==> shield_change_rec(
                                (Engine { status: final(self).status, ..*old(self) }),
                                *final(self),
                                eff,
                                change as u64,
                            ))
                            &&& (!(eff.effect_type == StatusEffectType::Shield && change != 0)
                                ==> final(self).state == old(self).state && final(self).entities
                                == old(self).entities)
                        },
                        None => final(self).state == old(self).state && final(self).entities
                            == old(self).entities,
                    })
                    &&& quiet_output(out)
                },
            // difficulty inference from the raid id
            (evt matches PacketEvent::RaidBegin { raid_id } ==> ({
                let trial = raid_id == 308226 || raid_id == 308227 || raid_id == 308239
                    || raid_id == 308339;
                let challenge = raid_id == 308428 || raid_id == 308429 || raid_id == 308420
                    || raid_id == 308410 || raid_id == 308411 || raid_id == 308414 || raid_id
                    == 308422 || raid_id == 308424 || raid_id == 308421 || raid_id == 308412
                    || raid_id == 308423 || raid_id == 308426 || raid_id == 308416 || raid_id
                    == 308419 || raid_id == 308415 || raid_id == 308437 || raid_id == 308417
                    || raid_id == 308418 || raid_id == 308425 || raid_id == 308430;
                &&& (trial ==> final(self).state.raid_difficulty@ == "Trial"@ && final(self).state.raid_difficulty_id == 7)
                &&& (challenge ==> final(self).state.raid_difficulty@ == "Challenge"@ && final(self).state.raid_difficulty_id == 8)
                &&& (!trial && !challenge ==> final(self).state.raid_difficulty@ == Seq::<
                    char,
                >::empty() && final(self).state.raid_difficulty_id == 0)
            })),
            // difficulty inference from the zone level, with the late-packet
            // guard comparing the difficulty id against the zone id
            (evt matches PacketEvent::ZoneMemberLoadStatus { zone_id, zone_level } ==> ({
                let ignored = old(self).state.raid_difficulty_id >= zone_id && old(self).state.raid_difficulty@.len() > 0;
                &&& (ignored ==> final(self).state.raid_difficulty == old(self).state.raid_difficulty && final(self).state.raid_difficulty_id == old(self).state.raid_difficulty_id)
                &&& (!ignored && zone_level == 0 ==> final(self).state.raid_difficulty@
                    == "Normal"@ && final(self).state.raid_difficulty_id == 0)
                &&& (!ignored && zone_level == 1 ==> final(self).state.raid_difficulty@
                    == "Hard"@ && final(self).state.raid_difficulty_id == 1)
                &&& (!ignored && zone_level == 2 ==> final(self).state.raid_difficulty@
                    == "Inferno"@ && final(self).state.raid_difficulty_id == 2)
                &&& (!ignored && zone_level == 3 ==> final(self).state.raid_difficulty@
                    == "Challenge"@ && final(self).state.raid_difficulty_id == 3)
                &&& (!ignored && zone_level == 4 ==> final(self).state.raid_difficulty@
                    == "Special"@ && final(self).state.raid_difficulty_id == 4)
                &&& (!ignored && zone_level == 5 ==> final(self).state.raid_difficulty@
                    == "The First"@ && final(self).state.raid_difficulty_id == 5)
            })),
    {
        let mut out = empty_output();
        match evt {
            PacketEvent::CounterAttack { source_id } => {
                let e = self.entities.get_entity(source_id);
                if let Some(e) = e {
                    self.state.on_counterattack(&e);
                }
            },
            PacketEvent::Death { target_id } => {
                let e = self.entities.get_entity(target_id);
                if let Some(e) = e {
                    self.state.on_death(&e, now);
                }
            },
            PacketEvent::IdentityGaugeChange { player_id, gauge1, gauge2, gauge3 } => {
                let sample = IdentitySample {
                    timestamp: now,
                    gauge1: gauge1,
                    gauge2: gauge2,
                    gauge3: gauge3,
                };
                let e = self.entities.get_entity(player_id);
                if let Some(e) = e {
                    self.state.on_identity_gain(&e.name, sample);
                }
                if emit_details {
                    out.identity_update = Some(sample);
                }
            },
            PacketEvent::IdentityStanceChange { object_id, stance } => {
                self.entities.update_stance(object_id, stance);
            },
            PacketEvent::InitEnv { player_id } => {
                self.party.reset_party_mappings();
                self.ids.clear();
                self.status.clear();
                self.skills.clear();
                self.party_cache = None;
                self.party_freeze = false;
                let entity = self.entities.init_env(player_id);
                if entity.character_id != 0 {
                    self.ids.add_mapping(player_id, entity.character_id);
                }
                self.state.soft_reset(false);
                self.state.raid_difficulty = String::new();
                self.state.raid_difficulty_id = 0;
                let hp = entity.current_hp;
                let max_hp = entity.max_hp;
                self.state.upsert_entity(&entity, hp, max_hp);
            },
            PacketEvent::InitPc {
                player_id,
                name,
                character_id,
                class_id,
                gear_level,
                hp,
                max_hp,
            } => {
                let entity = self.entities.init_pc(
                    player_id,
                    name,
                    character_id,
                    class_id,
                    gear_level,
                    hp,
                    max_hp,
                );
                if character_id != 0 && player_id != 0 {
                    self.ids.add_mapping(player_id, character_id);
                    self.party.complete_entry(character_id, player_id);
                    out.local_player_update = Some((character_id, entity.name.clone()));
                }
                self.state.local_player_name = entity.name.clone();
                self.state.upsert_entity(&entity, hp, max_hp);
            },
            PacketEvent::NewPc {
                player_id,
                name,
                character_id,
                class_id,
                gear_level,
                hp,
                max_hp,
            } => {
                let entity = self.entities.new_pc(
                    player_id,
                    name,
                    character_id,
                    class_id,
                    gear_level,
                    hp,
                    max_hp,
                );
                if character_id != 0 && player_id != 0 {
                    self.ids.add_mapping(player_id, character_id);
                    self.party.complete_entry(character_id, player_id);
                    out.stats_sync.push(character_id);
                }
                self.state.upsert_entity(&entity, hp, max_hp);
            },
            PacketEvent::MigrationExecute { character_id } => {
                self.entities.migration_execute(character_id);
            },
            PacketEvent::NewNpc { object_id, npc_id, name, grade, hp, max_hp } => {
                let entity = self.entities.new_npc(object_id, npc_id, name, grade, hp, max_hp);
                self.state.on_new_npc(&entity, hp, max_hp);
            },
            PacketEvent::NewNpcSummon { object_id, npc_id, name, owner_id, hp, max_hp } => {
                let entity = self.entities.new_npc_summon(
                    object_id,
                    npc_id,
                    name,
                    owner_id,
                    hp,
                    max_hp,
                );
                self.state.on_new_npc(&entity, hp, max_hp);
            },
            PacketEvent::NewProjectile { projectile_id, owner_id, skill_id } => {
                self.entities.new_projectile(projectile_id, owner_id, skill_id);
                if skill_id > 0 && self.entities.id_is_player(owner_id) {
                    let ts = self.skills.get_cast(owner_id, skill_id);
                    if let Some(ts) = ts {
                        self.skills.link_projectile(projectile_id, ts);
                    }
                }
            },
            PacketEvent::NewTrap { object_id, owner_id, skill_id } => {
                self.entities.new_trap(object_id, owner_id, skill_id);
                if skill_id > 0 && self.entities.id_is_player(owner_id) {
                    let ts = self.skills.get_cast(owner_id, skill_id);
                    if let Some(ts) = ts {
                        self.skills.link_projectile(object_id, ts);
                    }
                }
            },
            PacketEvent::ParalyzationState { object_id: _, current, max } => {
                let sample = StaggerSample { timestamp: now, current: current, max: max };
                self.state.on_stagger_change(sample);
                if emit_details {
                    out.stagger_update = Some(sample);
                }
            },
            PacketEvent::RaidBegin { raid_id } => {
                if raid_id == 308226 || raid_id == 308227 || raid_id == 308239 || raid_id
                    == 308339 {
                    self.state.raid_difficulty = "Trial".to_string();
                    self.state.raid_difficulty_id = 7;
                } else if raid_id == 308428 || raid_id == 308429 || raid_id == 308420 || raid_id
                    == 308410 || raid_id == 308411 || raid_id == 308414 || raid_id == 308422
                    || raid_id == 308424 || raid_id == 308421 || raid_id == 308412 || raid_id
                    == 308423 || raid_id == 308426 || raid_id == 308416 || raid_id == 308419
                    || raid_id == 308415 || raid_id == 308437 || raid_id == 308417 || raid_id
                    == 308418 || raid_id == 308425 || raid_id == 308430 {
                    self.state.raid_difficulty = "Challenge".to_string();
                    self.state.raid_difficulty_id = 8;
                } else {
                    self.state.raid_difficulty = String::new();
                    self.state.raid_difficulty_id = 0;
                }
            },
            PacketEvent::RaidBossKill => {
                let persist = self.state.on_phase_transition(1);
                if persist {
                    out.persist_phase = Some(1);
                }
            },
            PacketEvent::RaidResult => {
                self.party_freeze = true;
                let party = match self.party_cache.take() {
                    Some(p) => p,
                    None => self.update_party(),
                };
                self.state.party_info = party;
                let persist = self.state.on_phase_transition(0);
                if persist {
                    out.persist_phase = Some(0);
                }
                self.raid_end_cd = now;
            },
            PacketEvent::RemoveObject { object_ids } => {
                let mut i: usize = 0;
                while i < object_ids.len()
                    invariant
                        self.wf(),
                        self.raid_end_cd == old(self).raid_end_cd,
                    decreases object_ids.len() - i,
                {
                    self.entities.remove_entity(object_ids[i]);
                    self.status.remove_local_object(object_ids[i]);
                    i += 1;
                }
            },
            PacketEvent::SkillCast { caster, skill_id } => {
                let entity = self.entities.get_source_entity(caster);
                self.entities.guess_is_player(entity.id, skill_id);
                let entity = self.entities.get_source_entity(caster);
                if entity.class_id == 202 {
                    self.state.on_skill_start(&entity, skill_id, now);
                }
            },
            PacketEvent::SkillStart { source_id, skill_id } => {
                let entity = self.entities.get_source_entity(source_id);
                self.entities.guess_is_player(entity.id, skill_id);
                let entity = self.entities.get_source_entity(source_id);
                self.state.on_skill_start(&entity, skill_id, now);
                if matches!(entity.entity_type, EntityType::Player) && skill_id > 0 {
                    self.skills.new_cast(entity.id, skill_id, now);
                }
            },
            PacketEvent::SkillDamage { source_id, skill_id, skill_effect_id, events } => {
                if self.in_cooldown(now) {
                    return out;
                }
                self.apply_damage(source_id, skill_id, skill_effect_id, &events, now);
            },
            PacketEvent::SkillDamageAbnormalMove {
                source_id,
                skill_id,
                skill_effect_id,
                events,
            } => {
                if self.in_cooldown(now) {
                    return out;
                }
                self.apply_damage(source_id, skill_id, skill_effect_id, &events, now);
            },
            PacketEvent::PartyInfo { raid_instance_id, party_instance_id, members } => {
                self.apply_party_info(raid_instance_id, party_instance_id, &members);
            },
            PacketEvent::PartyLeave { party_instance_id, name } => {
                self.party.remove(&self.ids, party_instance_id, &name);
                self.party_cache = None;
            },
            PacketEvent::PartyStatusEffectAdd { character_id, effects } => {
                let mut i: usize = 0;
                while i < effects.len()
                    invariant
                        self.wf(),
                        self.raid_end_cd == old(self).raid_end_cd,
                    decreases effects.len() - i,
                {
                    let effect = build_status_effect(
                        &effects[i],
                        character_id,
                        StatusEffectTargetType::Party,
                    );
                    self.status.register(effect);
                    i += 1;
                }
            },
            PacketEvent::PartyStatusEffectRemove { character_id, instance_ids, reason: _ } => {
                let r = self.status.remove_status_effects(
                    character_id,
                    &instance_ids,
                    StatusEffectTargetType::Party,
                );
                if r.2 {
                    out.stats_sync.push(character_id);
                }
            },
            PacketEvent::PartyStatusEffectResult {
                raid_instance_id,
                party_instance_id,
                character_id,
            } => {
                self.party.add(
                    &self.ids,
                    raid_instance_id,
                    party_instance_id,
                    character_id,
                    0,
                    None,
                );
            },
            PacketEvent::StatusEffectAdd { object_id, effect } => {
                let se = build_status_effect(&effect, object_id, StatusEffectTargetType::Local);
                self.status.register(se);
                if matches!(se.effect_type, StatusEffectType::Shield) {
                    let source = self.entities.get_source_entity(se.source_id);
                    let target = self.entities.get_source_entity(object_id);
                    self.state.on_boss_shield(&target, se.value);
                    self.state.on_shield_applied(&source, se.status_effect_id, se.value);
                }
            },
            PacketEvent::StatusEffectDuration { instance_id, target_id, expiration_tick } => {
                self.status.update_status_duration(
                    instance_id,
                    target_id,
                    expiration_tick,
                    StatusEffectTargetType::Local,
                );
            },
            PacketEvent::StatusEffectRemove { object_id, instance_ids, reason: _ } => {
                let r = self.status.remove_status_effects(
                    object_id,
                    &instance_ids,
                    StatusEffectTargetType::Local,
                );
                if r.2 {
                    let e = self.entities.get_entity(object_id);
                    if let Some(e) = e {
                        if e.character_id != 0 {
                            out.stats_sync.push(e.character_id);
                        }
                    }
                }
            },
            PacketEvent::StatusEffectSyncData { object_id, character_id, instance_id, value } => {
                let r = self.status.sync_status_effect(
                    instance_id,
                    character_id,
                    object_id,
                    value,
                );
                let ghost gr0 = r.0;
                let ghost gr1 = r.1;
                let ghost mid = *self;
                if let Some(eff) = r.0 {
                    if matches!(eff.effect_type, StatusEffectType::Shield) {
                        let change = sat_sub_u64(r.1, eff.value);
                        self.shield_change(eff, change);
                    }
                }
                proof {
                    assert(mid == (Engine { status: mid.status, ..*old(self) }));
                    assert(self.status == mid.status);
                    assert(sync_rec(
                        old(self).status,
                        self.status,
                        instance_id,
                        character_id,
                        object_id,
                        value,
                        gr0,
                        gr1,
                    ));
                }
            },
            PacketEvent::TroopMemberUpdateMin { character_id, effects } => {
                let mut i: usize = 0;
                while i < effects.len()
                    invariant
                        self.wf(),
                        self.raid_end_cd == old(self).raid_end_cd,
                    decreases effects.len() - i,
                {
                    let object_id = match self.ids.get_entity_id(character_id) {
                        Some(e) => Some(e),
                        None => None,
                    };
                    if let Some(object_id) = object_id {
                        let r = self.status.sync_status_effect(
                            effects[i].instance_id,
                            character_id,
                            object_id,
                            effects[i].value,
                        );
                        if let Some(eff) = r.0 {
                            if matches!(eff.effect_type, StatusEffectType::Shield) {
                                let change = sat_sub_u64(r.1, eff.value);
                                self.shield_change(eff, change);
                            }
                        }
                    }
                    i += 1;
                }
            },
            PacketEvent::TriggerBossBattleStatus => {
                let no_boss = str::is_empty(&*self.state.current_boss_name);
                let unstarted = self.state.fight_start == 0;
                let quirk = self.state.current_boss_name == "Saydon".to_string();
                if no_boss || unstarted || quirk {
                    self.state.on_phase_transition(3);
                }
            },
            PacketEvent::TriggerStart { signal } => {
                if signal == 57 || signal == 59 || signal == 61 || signal == 63 || signal == 74
                    || signal == 76 {
                    self.party_freeze = true;
                    let party = match self.party_cache.take() {
                        Some(p) => p,
                        None => self.update_party(),
                    };
                    self.state.party_info = party;
                    self.state.on_phase_transition(2);
                    out.persist_phase = Some(2);
                    self.raid_end_cd = now;
                } else if signal == 58 || signal == 60 || signal == 62 || signal == 64 || signal
                    == 75 || signal == 77 {
                    self.party_freeze = true;
                    let party = match self.party_cache.take() {
                        Some(p) => p,
                        None => self.update_party(),
                    };
                    self.state.party_info = party;
                    self.state.raid_clear = false;
                    self.state.on_phase_transition(4);
                    out.persist_phase = Some(4);
                    self.raid_end_cd = now;
                }
            },
            PacketEvent::ZoneMemberLoadStatus { zone_id, zone_level } => {
                // the late-packet guard compares a difficulty id against a
                // zone id; the two come from different id spaces, and the
                // comparison is kept exactly as the protocol behaves
                let ignored = self.state.raid_difficulty_id >= zone_id && !str::is_empty(
                    &*self.state.raid_difficulty,
                );
                if !ignored {
                    if zone_level == 0 {
                        self.state.raid_difficulty = "Normal".to_string();
                        self.state.raid_difficulty_id = 0;
                    } else if zone_level == 1 {
                        self.state.raid_difficulty = "Hard".to_string();
                        self.state.raid_difficulty_id = 1;
                    } else if zone_level == 2 {
                        self.state.raid_difficulty = "Inferno".to_string();
                        self.state.raid_difficulty_id = 2;
                    } else if zone_level == 3 {
                        self.state.raid_difficulty = "Challenge".to_string();
                        self.state.raid_difficulty_id = 3;
                    } else if zone_level == 4 {
                        self.state.raid_difficulty = "Special".to_string();
                        self.state.raid_difficulty_id = 4;
                    } else if zone_level == 5 {
                        self.state.raid_difficulty = "The First".to_string();
                        self.state.raid_difficulty_id = 5;
                    }
                }
            },
            PacketEvent::ZoneObjectUnpublish { object_id } => {
                self.status.remove_local_object(object_id);
            },
        }
        out
    }

    /// Store a character's freshly fetched remote stats; a failure on the
    /// fetching side simply never reaches this point and the cache stays
    /// stale.
    pub fn record_stats(&mut self, character_id: u64, payload: String)
        requires
            old(self).wf(),
        ensures
            final(self).wf(),
            final(self).stats_cache@ == old(self).stats_cache@.insert(character_id, payload),
            final(self).state == old(self).state,
    {
        self.stats_cache.insert(character_id, payload);
    }

    /// The cached stats for one character, if any fetch ever completed.
    pub fn get_stats(&self, character_id: u64) -> (r: Option<&String>)
        requires
            self.wf(),
        ensures
            match r {
                Some(v) => self.stats_cache@.contains_key(character_id) && *v
                    == self.stats_cache@[character_id],
                None => !self.stats_cache@.contains_key(character_id),
            },
    {
        self.stats_cache.get(character_id)
    }

    /// Route one decoded packet, stamping it with the wall clock. Every
    /// clock-independent promise of `process_packet` carries over.
    pub fn process_packet_now(&mut self, evt: PacketEvent, emit_details: bool) -> (out:
        EngineOutput)
        requires
            old(self).wf(),
        ensures
            final(self).wf(),
            !arms_cooldown(evt) ==> final(self).raid_end_cd == old(self).raid_end_cd,
            evt matches PacketEvent::StatusEffectRemove { object_id, instance_ids, reason } ==> ((
            exists|x: StatusEffect|
                old(self).status.reg(StatusEffectTargetType::Local).contains_key(object_id)
                    && old(self).status.reg(StatusEffectTargetType::Local)[object_id]@.contains(
                    x,
                ) && instance_ids@.contains(x.instance_id)) || (*final(self) == *old(self)
                && quiet_output(out))),
            (evt matches PacketEvent::RaidBegin { raid_id } ==> ({
                let trial = raid_id == 308226 || raid_id == 308227 || raid_id == 308239
                    || raid_id == 308339;
                let challenge = raid_id == 308428 || raid_id == 308429 || raid_id == 308420
                    || raid_id == 308410 || raid_id == 308411 || raid_id == 308414 || raid_id
                    == 308422 || raid_id == 308424 || raid_id == 308421 || raid_id == 308412
                    || raid_id == 308423 || raid_id == 308426 || raid_id == 308416 || raid_id
                    == 308419 || raid_id == 308415 || raid_id == 308437 || raid_id == 308417
                    || raid_id == 308418 || raid_id == 308425 || raid_id == 308430;
                &&& (trial ==> final(self).state.raid_difficulty@ == "Trial"@ && final(self).state.raid_difficulty_id == 7)
                &&& (challenge ==> final(self).state.raid_difficulty@ == "Challenge"@ && final(self).state.raid_difficulty_id == 8)
                &&& (!trial && !challenge ==> final(self).state.raid_difficulty@ == Seq::<
                    char,
                >::empty() && final(self).state.raid_difficulty_id == 0)
            })),
    {
        let now = crate::clock::now_ms();
        self.process_packet(evt, now, emit_details)
    }

    /// One damage packet: resolve the attributable owner once, then record
    /// every swing, back-dating hits from a projectile or trap to its cast.
    fn apply_damage(
        &mut self,
        source_id: u64,
        skill_id: u32,
        skill_effect_id: u32,
        events: &Vec<DamageEvent>,
        now: i64,
    )
        requires
            old(self).wf(),
        ensures
            final(self).wf(),
            damage_packet_processed(
                *old(self),
                *final(self),
                source_id,
                skill_id,
                skill_effect_id,
                events@,
                now,
            ),
    {
        let ghost m0 = self.entities.catalog();
        let owner = self.entities.get_source_entity(source_id);
        let source0 = self.entities.get_or_create_entity(source_id);
        let ts = if source0.entity_type.transient() {
            match self.skills.projectile_cast_ts(source_id) {
                Some(t) => t,
                None => now,
            }
        } else {
            now
        };
        let ghost m2 = self.entities.catalog();
        let ghost s_begin = self.state;
        proof {
            assert(events@.take(0).len() == 0);
            assert(damage_chain(
                s_begin,
                m2,
                self.state,
                self.entities.catalog(),
                owner,
                source_id,
                skill_id,
                skill_effect_id,
                events@.take(0),
                ts,
            ));
        }
        let target_count = events.len();
        let mut i: usize = 0;
        while i < events.len()
            invariant
                i <= events.len(),
                self.wf(),
                damage_chain(
                    s_begin,
                    m2,
                    self.state,
                    self.entities.catalog(),
                    owner,
                    source_id,
                    skill_id,
                    skill_effect_id,
                    events@.take(i as int),
                    ts,
                ),
                self.ids == old(self).ids,
                self.party == old(self).party,
                self.status == old(self).status,
                self.skills == old(self).skills,
                self.raid_end_cd == old(self).raid_end_cd,
                self.party_freeze == old(self).party_freeze,
                self.party_cache == old(self).party_cache,
                self.stats_cache == old(self).stats_cache,
                self.entities.local_entity_id == old(self).entities.local_entity_id,
                self.entities.local_character_id == old(self).entities.local_character_id,
            decreases events.len() - i,
        {
            let ev = events[i];
            let ghost sm = self.state;
            let ghost mm = self.entities.catalog();
            let target = self.entities.get_or_create_entity(ev.target_id);
            let source = self.entities.get_or_create_entity(source_id);
            let effects = self.status.get_status_effects(
                owner.id,
                owner.character_id,
                target.id,
                target.character_id,
            );
            let dd = DamageData {
                skill_id: skill_id,
                skill_effect_id: skill_effect_id,
                damage: ev.damage,
                modifier: ev.modifier,
                target_current_hp: ev.cur_hp,
                target_max_hp: ev.max_hp,
            };
            let tc = if target_count > 2147483647 {
                2147483647
            } else {
                target_count as i32
            };
            self.state.on_damage(&owner, &source, &target, dd, &effects.0, &effects.1, tc, ts);
            proof {
                let mt = fetched_catalog(mm, ev.target_id, target);
                assert(entity_fetched(mm, ev.target_id, target));
                assert(entity_fetched(mt, source_id, source));
                assert(dd == dd_of(ev, skill_id, skill_effect_id));
                assert(self.entities.catalog() == fetched_catalog(mt, source_id, source));
                assert(damage_recorded(sm, self.state, owner, source, target, dd, ts));
                lemma_chain_snoc(
                    s_begin,
                    m2,
                    sm,
                    mm,
                    self.state,
                    self.entities.catalog(),
                    owner,
                    source_id,
                    skill_id,
                    skill_effect_id,
                    events@.take(i as int),
                    events@[i as int],
                    target,
                    source,
                    ts,
                );
                assert(events@.take(i as int).push(events@[i as int]) =~= events@.take(
                    i as int + 1,
                ));
            }
            i += 1;
        }
        proof {
            assert(events@.take(events@.len() as int) =~= events@);
            let rid = resolve_id(m0, source_id, 4);
            assert(entity_fetched(m0, rid, owner));
            assert(entity_fetched(fetched_catalog(m0, rid, owner), source_id, source0));
        }
    }

    /// Build the party snapshot: member names grouped by party, parties in
    /// ascending party-id order, members in membership order.
    pub fn update_party(&self) -> (r: Vec<Vec<String>>)
        requires
            self.wf(),
        ensures
            rows_names_sound(self.party, self.entities, r@),
            party_rows_built(self.party, self.entities, r@),
    {
        let n = self.party.entity_count();
        // the distinct party ids, ascending
        let mut pids: Vec<u32> = Vec::new();
        let mut i: usize = 0;
        while i < n
            invariant
                i <= n,
                self.wf(),
                n == self.party.entity_order().len(),
                strictly_ascending(pids@),
                forall|id: u32| #[trigger]
                    pids@.contains(id) <==> exists|j: int|
                        0 <= j < i && self.party.entity_party()[
                            #[trigger] self.party.entity_order()[j]
                        ] == id,
            decreases n - i,
        {
            let entry = self.party.entity_at(i);
            let pid = entry.1;
            proof {
                assert(self.party.entity_party()[self.party.entity_order()[i as int]] == pid);
            }
            let mut lo: usize = 0;
            let mut seen = false;
            let mut j: usize = 0;
            while j < pids.len()
                invariant
                    j <= pids.len(),
                    lo <= j,
                    strictly_ascending(pids@),
                    forall|a: int| 0 <= a < lo ==> pids@[a] < pid,
                    seen == exists|a: int| 0 <= a < j && pids@[a] == pid,
                    lo <= pids@.len(),
                    !seen ==> forall|a: int| lo <= a < j ==> pids@[a] > pid,
                decreases pids.len() - j,
            {
                if pids[j] < pid {
                    lo = j + 1;
                } else if pids[j] == pid {
                    seen = true;
                }
                j += 1;
            }
            if !seen {
                let ghost prev = pids@;
                pids.insert(lo, pid);
                proof {
                    assert forall|a: int, b: int|
                        0 <= a < b < pids@.len() implies pids@[a] < pids@[b] by {
                        if b < lo {
                        } else if a < lo && b == lo {
                        } else if a == lo {
                            assert(pids@[b] == prev[b - 1]);
                            assert(prev[b - 1] > pid);
                        } else if a < lo {
                            assert(pids@[b] == prev[b - 1]);
                        } else {
                            assert(pids@[a] == prev[a - 1]);
                            assert(pids@[b] == prev[b - 1]);
                        }
                    }
                    assert(strictly_ascending(pids@));
                    assert forall|id: u32| #[trigger]
                        pids@.contains(id) <==> (prev.contains(id) || id == pid) by {
                        if pids@.contains(id) {
                            let a = choose|a: int|
                                #![trigger pids@[a]]
                                0 <= a < pids@.len() && pids@[a] == id;
                            if a < lo {
                                assert(prev[a] == id);
                                assert(prev.contains(id));
                            } else if a > lo {
                                assert(prev[a - 1] == id);
                                assert(prev.contains(id));
                            }
                        }
                        if prev.contains(id) {
                            let a = choose|a: int|
                                #![trigger prev[a]]
                                0 <= a < prev.len() && prev[a] == id;
                            if a < lo {
                                assert(pids@[a] == id);
                            } else {
                                assert(pids@[a + 1] == id);
                            }
                            assert(pids@.contains(id));
                        }
                        if id == pid {
                            assert(pids@[lo as int] == id);
                            assert(pids@.contains(id));
                        }
                    }
                }
            }
            proof {
                assert forall|id: u32| #[trigger]
                    pids@.contains(id) <==> exists|j2: int|
                        0 <= j2 < i + 1 && self.party.entity_party()[
                            #[trigger] self.party.entity_order()[j2]
                        ] == id by {
                    if pids@.contains(id) {
                        if id == pid {
                            assert(self.party.entity_party()[self.party.entity_order()[
                                i as int
                            ]] == id);
                        } else {
                            let j2 = choose|j2: int|
                                0 <= j2 < i && self.party.entity_party()[
                                    #[trigger] self.party.entity_order()[j2]
                                ] == id;
                            assert(self.party.entity_party()[self.party.entity_order()[j2]]
                                == id);
                        }
                    }
                    if exists|j2: int|
                        0 <= j2 < i + 1 && self.party.entity_party()[
                            #[trigger] self.party.entity_order()[j2]
                        ] == id {
                        let j2 = choose|j2: int|
                            0 <= j2 < i + 1 && self.party.entity_party()[
                                #[trigger] self.party.entity_order()[j2]
                            ] == id;
                        if j2 == i {
                            assert(id == pid);
                            if seen {
                            } else {
                                assert(pids@[lo as int] == pid);
                            }
                            assert(pids@.contains(id));
                        }
                    }
                }
            }
            i += 1;
        }
        // collect each party's member names in membership order
        let ghost total = self.party.entity_order().len() as int;
        let mut r: Vec<Vec<String>> = Vec::new();
        let mut p: usize = 0;
        while p < pids.len()
            invariant
                p <= pids.len(),
                self.wf(),
                total == self.party.entity_order().len() as int,
                r@.len() == p,
                forall|q: int|
                    #![trigger r@[q]]
                    0 <= q < p ==> r@[q]@.map_values(|s: String| s@) == member_names_upto(
                        self.party,
                        self.entities.catalog(),
                        pids@[q],
                        total,
                    ),
                rows_names_sound(self.party, self.entities, r@),
            decreases pids.len() - p,
        {
            let pid = pids[p];
            let mut row: Vec<String> = Vec::new();
            let cnt = self.party.entity_count();
            let mut i2: usize = 0;
            while i2 < cnt
                invariant
                    i2 <= cnt,
                    self.wf(),
                    cnt == self.party.entity_order().len(),
                    row@.map_values(|s: String| s@) == member_names_upto(
                        self.party,
                        self.entities.catalog(),
                        pid,
                        i2 as int,
                    ),
                    row_names_sound(self.party, self.entities, row@),
                decreases cnt - i2,
            {
                let entry = self.party.entity_at(i2);
                proof {
                    assert(self.party.entity_party()[self.party.entity_order()[i2 as int]]
                        == entry.1);
                }
                if entry.1 == pid {
                    let e = self.entities.get_entity(entry.0);
                    if let Some(e) = e {
                        let ghost prevrow = row@;
                        row.push(e.name);
                        proof {
                            assert(row@.map_values(|s: String| s@) =~= prevrow.map_values(
                                |s: String| s@,
                            ).push(e.name@));
                            assert forall|m: int|
                                #![trigger row@[m]]
                                0 <= m < row@.len() implies exists|e2: u64|
                                    #[trigger] self.party.entity_party().contains_key(e2)
                                        && self.entities.catalog().contains_key(e2)
                                        && self.entities.catalog()[e2].name@ == row@[m]@ by {
                                if m < row@.len() - 1 {
                                    assert(row@[m] == prevrow[m]);
                                    assert(row_names_sound(
                                        self.party,
                                        self.entities,
                                        prevrow,
                                    ));
                                } else {
                                    assert(self.party.entity_party().contains_key(entry.0));
                                }
                            }
                            assert(row_names_sound(self.party, self.entities, row@));
                        }
                    }
                }
                i2 += 1;
            }
            let ghost prevr = r@;
            r.push(row);
            proof {
                assert forall|pi: int|
                    #![trigger r@[pi]]
                    0 <= pi < r@.len() implies row_names_sound(
                    self.party,
                    self.entities,
                    r@[pi]@,
                ) by {
                    if pi < r@.len() - 1 {
                        assert(r@[pi] == prevr[pi]);
                        assert(rows_names_sound(self.party, self.entities, prevr));
                    }
                }
                assert(rows_names_sound(self.party, self.entities, r@));
                assert forall|q: int|
                    #![trigger r@[q]]
                    0 <= q < p + 1 implies r@[q]@.map_values(|s: String| s@)
                    == member_names_upto(
                    self.party,
                    self.entities.catalog(),
                    pids@[q],
                    total,
                ) by {
                    if q < p {
                        assert(r@[q] == prevr[q]);
                    }
                }
            }
            p += 1;
        }
        proof {
            // the scanned prefix is the whole roster, so the collected ids
            // are exactly the present ones
            assert forall|id: u32| #[trigger]
                pids@.contains(id) <==> pid_present(self.party, id) by {
                if pids@.contains(id) {
                    let j = choose|j: int|
                        0 <= j < self.party.entity_order().len() && self.party.entity_party()[
                            #[trigger] self.party.entity_order()[j]
                        ] == id;
                    self.party.lemma_entity_order_entry(j);
                }
                if pid_present(self.party, id) {
                    let e = choose|e: u64|
                        #[trigger] self.party.entity_party().contains_key(e)
                            && self.party.entity_party()[e] == id;
                    let j = self.party.lemma_entity_order_index(e);
                    assert(self.party.entity_party()[self.party.entity_order()[j]] == id);
                }
            }
            assert(strictly_ascending(pids@));
            assert(party_rows_built(self.party, self.entities, r@));
        }
        r
    }

    /// The periodic party snapshot: the cached one while the party is full
    /// and stable, else a freshly built one, cached once every party has
    /// exactly four members and more than one party is known.
    pub fn party_snapshot(&mut self) -> (r: Option<Vec<Vec<String>>>)
        requires
            old(self).wf(),
        ensures
            final(self).wf(),
            *final(self) == (Engine { party_cache: final(self).party_cache, ..*old(self) }),
            old(self).party_freeze ==> r is None && *final(self) == *old(self),
            old(self).party_cache matches Some(c) ==> (old(self).party_freeze || (final(self).party_cache == old(self).party_cache && (r matches Some(rows) && rows_name_eq(
                rows@,
                c@,
            )))),
            !old(self).party_freeze && old(self).party_cache is None ==> exists|
                rows: Seq<Vec<String>>,
            |
                #![trigger rows.len()]
                party_rows_built(old(self).party, old(self).entities, rows) && ({
                    if rows.len() > 1 {
                        &&& (r matches Some(v) && v@ == rows)
                        &&& ((forall|p: int| #![trigger rows[p]] 0 <= p < rows.len()
                            ==> rows[p]@.len() == 4) <==> final(self).party_cache is Some)
                        &&& (final(self).party_cache matches Some(c2) ==> rows_name_eq(
                            c2@,
                            rows,
                        ))
                    } else {
                        r is None && final(self).party_cache is None
                    }
                }),
    {
        if self.party_freeze {
            return None;
        }
        if let Some(cached) = &self.party_cache {
            let copy = clone_party(cached);
            return Some(copy);
        }
        let party = self.update_party();
        let ghost rows = party@;
        if party.len() > 1 {
            let mut full = true;
            let mut i: usize = 0;
            while i < party.len()
                invariant
                    i <= party.len(),
                    party@ == rows,
                    full == (forall|p: int|
                        #![trigger rows[p]]
                        0 <= p < i ==> rows[p]@.len() == 4),
                decreases party.len() - i,
            {
                let len4 = party[i].len() == 4;
                proof {
                    if !len4 {
                        assert(rows[i as int]@.len() != 4);
                    }
                }
                if !len4 {
                    full = false;
                }
                i += 1;
            }
            if full {
                let copy = clone_party(&party);
                self.party_cache = Some(copy);
            }
            Some(party)
        } else {
            None
        }
    }

    /// The filtered participant rows for the periodic snapshot.
    pub fn snapshot(&self) -> (r: Vec<SnapshotEntry>)
        requires
            self.wf(),
        ensures
            crate::encounter::rows_sound(self.state.entities@, r@),
    {
        self.state.snapshot_entities()
    }

    /// The end-of-iteration reset: when a phase marked the encounter as
    /// resetting, the statistics start over and the party thaws.
    pub fn post_process(&mut self)
        requires
            old(self).wf(),
        ensures
            final(self).wf(),
            old(self).state.resetting ==> final(self).state.fight_start == 0 && final(self).state.resetting == false && final(self).state.saved == false && final(self).party_freeze == false && final(self).party_cache is None,
            old(self).state.resetting ==> {
                &&& final(self).state.raid_clear == false
                &&& final(self).state.boss_dead_update == false
                &&& final(self).state.current_boss_name@ == Seq::<char>::empty()
                &&& final(self).state.boss_only_damage == old(self).state.boss_only_damage
                &&& final(self).state.region == old(self).state.region
                &&& final(self).state.raid_difficulty == old(self).state.raid_difficulty
                &&& (forall|n: Seq<char>| #[trigger]
                    final(self).state.entities@.contains_key(n) <==> old(
                        self,
                    ).state.entities@.contains_key(n))
                &&& (forall|n: Seq<char>| #[trigger]
                    old(self).state.entities@.contains_key(n) ==> reset_of(
                        final(self).state.entities@[n],
                        old(self).state.entities@[n],
                    ))
                &&& final(self).ids == old(self).ids
                &&& final(self).party == old(self).party
                &&& final(self).status == old(self).status
                &&& final(self).entities == old(self).entities
                &&& final(self).skills == old(self).skills
                &&& final(self).stats_cache == old(self).stats_cache
                &&& final(self).raid_end_cd == old(self).raid_end_cd
            },
            !old(self).state.resetting ==> *final(self) == *old(self),
    {
        if self.state.resetting {
            self.state.soft_reset(true);
            self.state.resetting = false;
            self.party_freeze = false;
            self.party_cache = None;
        }
    }

    /// The control flags polled once per iteration: reset, pause, save and
    /// the boss-only-damage filter.
    pub fn apply_controls(&mut self, reset: bool, pause: bool, save: bool, boss_only: bool) -> (r:
        (bool, bool))
        requires
            old(self).wf(),
        ensures
            final(self).wf(),
            // r.0: skip this packet; r.1: persist a manual save
            r.0 == pause,
            r.1 == (!pause && save),
            final(self).state.boss_only_damage == boss_only,
            reset ==> {
                &&& final(self).state.fight_start == 0
                &&& (forall|n: Seq<char>| #[trigger]
                    final(self).state.entities@.contains_key(n) <==> old(
                        self,
                    ).state.entities@.contains_key(n))
                &&& (forall|n: Seq<char>| #[trigger]
                    old(self).state.entities@.contains_key(n) ==> reset_of(
                        final(self).state.entities@[n],
                        old(self).state.entities@[n],
                    ))
            },
            !reset && !(save && !pause) ==> final(self).state.entities == old(
                self,
            ).state.entities,
            save && !pause ==> final(self).state.saved && final(self).state.resetting && final(self).party_cache is None && (old(self).party_cache matches Some(c)
                ==> final(self).state.party_info == c) && (old(self).party_cache is None
                ==> rows_names_sound(
                old(self).party,
                old(self).entities,
                final(self).state.party_info@,
            ) && party_rows_built(
                old(self).party,
                old(self).entities,
                final(self).state.party_info@,
            )),
            final(self).ids == old(self).ids,
            final(self).party == old(self).party,
            final(self).status == old(self).status,
            final(self).entities == old(self).entities,
            final(self).skills == old(self).skills,
            final(self).stats_cache == old(self).stats_cache,
            final(self).raid_end_cd == old(self).raid_end_cd,
    {
        if reset {
            self.state.soft_reset(true);
            self.state.resetting = false;
        }
        if pause {
            self.state.boss_only_damage = boss_only;
            return (true, false);
        }
        let mut persist = false;
        if save {
            self.state.party_info = match self.party_cache.take() {
                Some(p) => p,
                None => self.update_party(),
            };
            self.state.saved = true;
            self.state.resetting = true;
            persist = true;
        }
        self.state.boss_only_damage = boss_only;
        (false, persist)
    }
}

/// A value copy of the party snapshot.
fn clone_party(p: &Vec<Vec<String>>) -> (r: Vec<Vec<String>>)
    ensures
        r@.len() == p@.len(),
        forall|i: int| 0 <= i < p@.len() ==> r@[i]@.len() == p@[i]@.len(),
        forall|i: int, j: int|
            0 <= i < p@.len() && 0 <= j < p@[i]@.len() ==> r@[i]@[j]@ == p@[i]@[j]@,
{
    let mut r: Vec<Vec<String>> = Vec::new();
    let mut i: usize = 0;
    while i < p.len()
        invariant
            i <= p.len(),
            r@.len() == i,
            forall|a: int| 0 <= a < i ==> r@[a]@.len() == p@[a]@.len(),
            forall|a: int, j: int|
                0 <= a < i && 0 <= j < p@[a]@.len() ==> r@[a]@[j]@ == p@[a]@[j]@,
        decreases p.len() - i,
    {
        let row = &p[i];
        let mut nr: Vec<String> = Vec::new();
        let mut j: usize = 0;
        while j < row.len()
            invariant
                j <= row.len(),
                nr@.len() == j,
                forall|b: int| 0 <= b < j ==> nr@[b]@ == row@[b]@,
            decreases row.len() - j,
        {
            nr.push(row[j].clone());
            j += 1;
        }
        r.push(nr);
        i += 1;
    }
    r
}

} // verus!
