use meter_engine::encounter::{dps_series, skill_key, HitRecord};
use meter_engine::engine::Engine;
use meter_engine::models::{
    DamageEvent, EntityType, NpcGrade, PacketEvent, PartyMember, StatusEffectData,
    StatusEffectType,
};

fn new_pc(id: u64, name: &str, character_id: u64, class_id: u32) -> PacketEvent {
    PacketEvent::NewPc {
        player_id: id,
        name: name.to_string(),
        character_id,
        class_id,
        gear_level: 1600,
        hp: 100_000,
        max_hp: 100_000,
    }
}

fn new_boss(id: u64, name: &str) -> PacketEvent {
    PacketEvent::NewNpc {
        object_id: id,
        npc_id: 4000,
        name: name.to_string(),
        grade: NpcGrade::Boss,
        hp: 1_000_000,
        max_hp: 1_000_000,
    }
}

fn new_npc(id: u64, name: &str) -> PacketEvent {
    PacketEvent::NewNpc {
        object_id: id,
        npc_id: 4001,
        name: name.to_string(),
        grade: NpcGrade::Normal,
        hp: 50_000,
        max_hp: 50_000,
    }
}

fn damage(source: u64, skill: u32, target: u64, amount: i64, modifier: u32) -> PacketEvent {
    PacketEvent::SkillDamage {
        source_id: source,
        skill_id: skill,
        skill_effect_id: 0,
        events: vec![DamageEvent {
            target_id: target,
            damage: amount,
            modifier,
            cur_hp: 10_000,
            max_hp: 1_000_000,
        }],
    }
}

fn shield_data(instance_id: u32, source_id: u64, value: u64) -> StatusEffectData {
    StatusEffectData {
        instance_id,
        status_effect_id: 7777,
        source_id,
        value,
        expiration_tick: 0,
        effect_type: StatusEffectType::Shield,
        category: 0,
    }
}

#[test]
fn attribution_through_a_projectile() {
    let mut e = Engine::new();
    e.process_packet(new_pc(100, "Alice", 9100, 202), 500, false);
    e.process_packet(
        PacketEvent::SkillStart {
            source_id: 100,
            skill_id: 21090,
        },
        1000,
        false,
    );
    e.process_packet(
        PacketEvent::NewProjectile {
            projectile_id: 500,
            owner_id: 100,
            skill_id: 21090,
        },
        1100,
        false,
    );
    e.process_packet(damage(500, 21090, 999, 12345, 0), 5000, false);

    let entry = e.state.entities.get(&"Alice".to_string()).expect("player aggregate");
    assert_eq!(entry.damage_dealt, 12345);
    let skill = entry.skills.get(skill_key(21090, 0)).expect("skill record");
    assert_eq!(skill.damage, 12345);
    // the hit is back-dated to the cast
    assert_eq!(skill.timeline.len(), 1);
    assert_eq!(skill.timeline[0].timestamp, 1000);
    assert_eq!(skill.timeline[0].damage, 12345);
}

#[test]
fn attribution_through_a_summon_chain() {
    let mut e = Engine::new();
    e.process_packet(new_pc(1, "Alice", 9001, 102), 0, false);
    e.process_packet(
        PacketEvent::NewNpcSummon {
            object_id: 2,
            npc_id: 100,
            name: "Pet".to_string(),
            owner_id: 1,
            hp: 1,
            max_hp: 1,
        },
        0,
        false,
    );
    e.process_packet(
        PacketEvent::NewProjectile {
            projectile_id: 3,
            owner_id: 2,
            skill_id: 20000,
        },
        0,
        false,
    );
    e.process_packet(damage(3, 20000, 999, 777, 0), 100, false);
    let entry = e.state.entities.get(&"Alice".to_string()).expect("player aggregate");
    assert_eq!(entry.damage_dealt, 777);
}

#[test]
fn ownerless_projectile_damage_is_dropped() {
    let mut e = Engine::new();
    e.process_packet(new_boss(700, "Boss"), 0, false);
    e.process_packet(
        PacketEvent::NewProjectile {
            projectile_id: 3,
            owner_id: 0,
            skill_id: 20000,
        },
        0,
        false,
    );
    e.process_packet(damage(3, 20000, 700, 777, 0), 100, false);
    let boss = e.state.entities.get(&"Boss".to_string()).expect("boss aggregate");
    assert_eq!(boss.damage_taken, 0);
}

#[test]
fn boss_only_damage_filter() {
    let mut e = Engine::new();
    e.apply_controls(false, false, false, true);
    e.process_packet(new_pc(100, "Alice", 9100, 202), 0, false);
    e.process_packet(new_boss(700, "Boss"), 0, false);
    e.process_packet(new_npc(701, "Add"), 0, false);

    e.process_packet(damage(100, 20000, 701, 500, 0), 1000, false);
    let alice = e.state.entities.get(&"Alice".to_string());
    assert!(alice.map_or(true, |a| a.damage_dealt == 0));

    e.process_packet(damage(100, 20000, 700, 900, 0), 2000, false);
    let alice = e.state.entities.get(&"Alice".to_string()).expect("player aggregate");
    assert_eq!(alice.damage_dealt, 900);
}

#[test]
fn raid_end_cooldown() {
    let mut e = Engine::new();
    e.process_packet(new_pc(100, "Alice", 9100, 202), 0, false);
    e.process_packet(new_boss(700, "Boss"), 0, false);
    let t = 100_000;
    let out = e.process_packet(PacketEvent::TriggerStart { signal: 57 }, t, false);
    assert_eq!(out.persist_phase, Some(2));

    // five seconds later: ignored
    e.process_packet(damage(100, 20000, 700, 500, 0), t + 5_000, false);
    let alice = e.state.entities.get(&"Alice".to_string()).expect("player aggregate");
    assert_eq!(alice.damage_dealt, 0);

    // eleven seconds later: recorded
    e.process_packet(damage(100, 20000, 700, 500, 0), t + 11_000, false);
    let alice = e.state.entities.get(&"Alice".to_string()).expect("player aggregate");
    assert_eq!(alice.damage_dealt, 500);
}

#[test]
fn identity_upgrade_to_player() {
    let mut e = Engine::new();
    e.process_packet(new_npc(300, "Mysterious"), 0, false);
    e.process_packet(
        PacketEvent::SkillCast {
            caster: 300,
            skill_id: 21090,
        },
        100,
        false,
    );
    e.process_packet(damage(300, 21090, 999, 4242, 0), 200, false);
    let entry = e.state.entities.get(&"Mysterious".to_string()).expect("upgraded aggregate");
    assert_eq!(entry.entity_type, EntityType::Player);
    assert_eq!(entry.damage_dealt, 4242);
}

#[test]
fn shield_tracking_on_the_boss() {
    let mut e = Engine::new();
    e.process_packet(new_pc(100, "Alice", 9100, 204), 0, false);
    e.process_packet(new_boss(700, "Boss"), 0, false);
    e.process_packet(
        PacketEvent::StatusEffectAdd {
            object_id: 700,
            effect: shield_data(9, 100, 1000),
        },
        100,
        false,
    );
    let boss = e.state.entities.get(&"Boss".to_string()).expect("boss aggregate");
    assert_eq!(boss.current_shield, 1000);
    let alice = e.state.entities.get(&"Alice".to_string()).expect("player aggregate");
    assert_eq!(alice.shield_applied, 1000);

    e.process_packet(
        PacketEvent::StatusEffectSyncData {
            object_id: 700,
            character_id: 0,
            instance_id: 9,
            value: 400,
        },
        200,
        false,
    );
    let boss = e.state.entities.get(&"Boss".to_string()).expect("boss aggregate");
    assert_eq!(boss.current_shield, 400);
    let alice = e.state.entities.get(&"Alice".to_string()).expect("player aggregate");
    assert_eq!(alice.shield_used, 600);
}

fn full_party_roster(first_char: u64) -> Vec<PartyMember> {
    (0..4)
        .map(|k| PartyMember {
            name: format!("P{}", first_char + k),
            character_id: first_char + k,
            class_id: 200,
            gear_level: 1600,
        })
        .collect()
}

#[test]
fn party_stability_caching() {
    let mut e = Engine::new();
    for k in 0..16u64 {
        e.process_packet(new_pc(1 + k, &format!("P{}", 101 + k), 101 + k, 200), 0, false);
    }
    for p in 0..4u32 {
        e.process_packet(
            PacketEvent::PartyInfo {
                raid_instance_id: 1,
                party_instance_id: 1 + p,
                members: full_party_roster(101 + 4 * p as u64),
            },
            0,
            false,
        );
    }
    assert!(e.party_cache.is_none());
    let snap = e.party_snapshot().expect("party snapshot");
    assert_eq!(snap.len(), 4);
    assert!(snap.iter().all(|p| p.len() == 4));
    // now cached, and the cache is reused
    assert!(e.party_cache.is_some());
    let again = e.party_snapshot().expect("cached snapshot");
    assert_eq!(again.len(), 4);
    // the next roster packet drops the cache
    e.process_packet(
        PacketEvent::PartyInfo {
            raid_instance_id: 1,
            party_instance_id: 1,
            members: full_party_roster(101),
        },
        0,
        false,
    );
    assert!(e.party_cache.is_none());
}

#[test]
fn party_info_double_apply_is_idempotent() {
    let mut e = Engine::new();
    for k in 0..4u64 {
        e.process_packet(new_pc(1 + k, &format!("P{}", 101 + k), 101 + k, 200), 0, false);
    }
    let pkt = || PacketEvent::PartyInfo {
        raid_instance_id: 1,
        party_instance_id: 3,
        members: full_party_roster(101),
    };
    e.process_packet(pkt(), 0, false);
    let first: Vec<Option<u32>> = (101..105).map(|c| e.party.party_of_character(c)).collect();
    e.process_packet(pkt(), 0, false);
    let second: Vec<Option<u32>> = (101..105).map(|c| e.party.party_of_character(c)).collect();
    assert_eq!(first, second);
    assert_eq!(first, vec![Some(3), Some(3), Some(3), Some(3)]);
}

#[test]
fn status_effect_remove_unknown_instance_is_a_noop() {
    let mut e = Engine::new();
    e.process_packet(new_boss(700, "Boss"), 0, false);
    e.process_packet(
        PacketEvent::StatusEffectAdd {
            object_id: 700,
            effect: shield_data(5, 100, 300),
        },
        0,
        false,
    );
    e.process_packet(
        PacketEvent::StatusEffectRemove {
            object_id: 700,
            instance_ids: vec![99],
            reason: 0,
        },
        0,
        false,
    );
    // the registered effect is still there, with its value
    let (_, old) = e.status.sync_status_effect(5, 0, 700, 300);
    assert_eq!(old, 300);
}

#[test]
fn status_effect_value_tracks_latest_sync() {
    let mut e = Engine::new();
    e.process_packet(new_boss(700, "Boss"), 0, false);
    e.process_packet(
        PacketEvent::StatusEffectAdd {
            object_id: 700,
            effect: StatusEffectData {
                instance_id: 11,
                status_effect_id: 42,
                source_id: 100,
                value: 100,
                expiration_tick: 0,
                effect_type: StatusEffectType::Buff,
                category: 0,
            },
        },
        0,
        false,
    );
    e.process_packet(
        PacketEvent::StatusEffectSyncData {
            object_id: 700,
            character_id: 0,
            instance_id: 11,
            value: 70,
        },
        0,
        false,
    );
    e.process_packet(
        PacketEvent::StatusEffectSyncData {
            object_id: 700,
            character_id: 0,
            instance_id: 11,
            value: 40,
        },
        0,
        false,
    );
    let (eff, old) = e.status.sync_status_effect(11, 0, 700, 40);
    assert_eq!(old, 40);
    assert_eq!(eff.expect("effect present").value, 40);
}

#[test]
fn snapshot_hides_silent_non_players() {
    let mut e = Engine::new();
    e.process_packet(new_pc(100, "Alice", 9100, 202), 0, false);
    e.process_packet(new_boss(700, "Boss"), 0, false);
    e.process_packet(new_npc(701, "Add"), 0, false);
    e.process_packet(damage(100, 20000, 700, 1000, 0), 100, false);

    let rows = e.snapshot();
    assert!(rows.iter().any(|r| r.name == "Alice"));
    // the add dealt nothing and has no class: never shown
    assert!(rows.iter().all(|r| r.name != "Add"));
    // the untouched boss dealt nothing either
    assert!(rows.iter().all(|r| r.name != "Boss"));
}

#[test]
fn hit_qualifier_decoding() {
    let mut e = Engine::new();
    e.process_packet(new_pc(100, "Alice", 9100, 202), 0, false);
    e.process_packet(new_boss(700, "Boss"), 0, false);
    // critical + back attack
    e.process_packet(damage(100, 20000, 700, 100, 0x11), 100, false);
    // front attack, no crit
    e.process_packet(damage(100, 20000, 700, 50, 0x20), 200, false);
    let alice = e.state.entities.get(&"Alice".to_string()).expect("player aggregate");
    assert_eq!(alice.hits_total, 2);
    assert_eq!(alice.hits_crit, 1);
    assert_eq!(alice.hits_back, 1);
    assert_eq!(alice.hits_front, 1);
    assert_eq!(alice.crit_damage, 100);
    assert_eq!(alice.damage_dealt, 150);
}

#[test]
fn difficulty_from_raid_id() {
    let mut e = Engine::new();
    e.process_packet(PacketEvent::RaidBegin { raid_id: 308226 }, 0, false);
    assert_eq!(e.state.raid_difficulty, "Trial");
    assert_eq!(e.state.raid_difficulty_id, 7);

    let mut e = Engine::new();
    e.process_packet(PacketEvent::RaidBegin { raid_id: 308428 }, 0, false);
    assert_eq!(e.state.raid_difficulty, "Challenge");
    assert_eq!(e.state.raid_difficulty_id, 8);

    let mut e = Engine::new();
    e.process_packet(PacketEvent::RaidBegin { raid_id: 12345 }, 0, false);
    assert_eq!(e.state.raid_difficulty, "");
    assert_eq!(e.state.raid_difficulty_id, 0);
}

#[test]
fn difficulty_from_zone_level_with_late_packet_guard() {
    let mut e = Engine::new();
    e.process_packet(
        PacketEvent::ZoneMemberLoadStatus {
            zone_id: 100,
            zone_level: 2,
        },
        0,
        false,
    );
    assert_eq!(e.state.raid_difficulty, "Inferno");
    assert_eq!(e.state.raid_difficulty_id, 2);

    // a later notification with a lower zone id is ignored once set
    let mut e = Engine::new();
    e.process_packet(PacketEvent::RaidBegin { raid_id: 308226 }, 0, false);
    e.process_packet(
        PacketEvent::ZoneMemberLoadStatus {
            zone_id: 1,
            zone_level: 1,
        },
        0,
        false,
    );
    assert_eq!(e.state.raid_difficulty, "Trial");
    assert_eq!(e.state.raid_difficulty_id, 7);
}

#[test]
fn dps_series_buckets() {
    let log = vec![
        HitRecord {
            timestamp: 1000,
            damage: 10,
        },
        HitRecord {
            timestamp: 1500,
            damage: 20,
        },
        HitRecord {
            timestamp: 2500,
            damage: 40,
        },
        HitRecord {
            timestamp: 500,
            damage: 999,
        },
    ];
    let series = dps_series(&log, 1000, 3);
    // the hit before the fight start falls into no window
    assert_eq!(series, vec![30, 40, 0]);
}

fn replay(e: &mut Engine, t0: i64) {
    e.process_packet(PacketEvent::InitEnv { player_id: 10 }, t0, false);
    e.process_packet(new_pc(100, "Alice", 9100, 202), t0 + 10, false);
    e.process_packet(new_boss(700, "Boss"), t0 + 20, false);
    e.process_packet(damage(100, 20000, 700, 111, 0), t0 + 30, false);
    e.process_packet(damage(100, 20000, 700, 222, 1), t0 + 40, false);
}

#[test]
fn soft_reset_then_reprocessing_gives_the_same_aggregates() {
    let mut e = Engine::new();
    replay(&mut e, 1000);
    let alice = e.state.entities.get(&"Alice".to_string()).expect("player aggregate");
    let (dealt, crits, total) = (alice.damage_dealt, alice.hits_crit, alice.hits_total);

    // manual reset, then the same stream again
    e.apply_controls(true, false, false, false);
    replay(&mut e, 1000);
    let alice = e.state.entities.get(&"Alice".to_string()).expect("player aggregate");
    assert_eq!(alice.damage_dealt, dealt);
    assert_eq!(alice.hits_crit, crits);
    assert_eq!(alice.hits_total, total);
    assert_eq!((dealt, crits, total), (333, 1, 2));
}

#[test]
fn death_and_counterattack_bookkeeping() {
    let mut e = Engine::new();
    e.process_packet(new_pc(100, "Alice", 9100, 202), 0, false);
    e.process_packet(PacketEvent::CounterAttack { source_id: 100 }, 50, false);
    e.process_packet(PacketEvent::Death { target_id: 100 }, 90, false);
    let alice = e.state.entities.get(&"Alice".to_string()).expect("player aggregate");
    assert_eq!(alice.counterattacks, 1);
    assert_eq!(alice.deaths, 1);
    assert!(alice.is_dead);
    assert_eq!(alice.death_time, 90);
}

#[test]
fn boss_death_flushes_a_snapshot() {
    let mut e = Engine::new();
    e.process_packet(new_pc(100, "Alice", 9100, 202), 0, false);
    e.process_packet(new_boss(700, "Boss"), 0, false);
    let kill = PacketEvent::SkillDamage {
        source_id: 100,
        skill_id: 20000,
        skill_effect_id: 0,
        events: vec![DamageEvent {
            target_id: 700,
            damage: 1_000_000,
            modifier: 0,
            cur_hp: 0,
            max_hp: 1_000_000,
        }],
    };
    e.process_packet(kill, 100, false);
    assert!(e.state.boss_dead_update);
    let boss = e.state.entities.get(&"Boss".to_string()).expect("boss aggregate");
    assert!(boss.is_dead);
}

#[test]
fn merged_status_effects_prefer_first_instance() {
    let mut e = Engine::new();
    e.process_packet(new_pc(100, "Alice", 9100, 204), 0, false);
    // a local buff on the player, and a party-side effect with a fresh id
    e.process_packet(
        PacketEvent::StatusEffectAdd {
            object_id: 100,
            effect: StatusEffectData {
                instance_id: 21,
                status_effect_id: 1,
                source_id: 100,
                value: 5,
                expiration_tick: 0,
                effect_type: StatusEffectType::Buff,
                category: 0,
            },
        },
        0,
        false,
    );
    e.process_packet(
        PacketEvent::PartyStatusEffectAdd {
            character_id: 9100,
            effects: vec![
                StatusEffectData {
                    instance_id: 21,
                    status_effect_id: 2,
                    source_id: 100,
                    value: 6,
                    expiration_tick: 0,
                    effect_type: StatusEffectType::Buff,
                    category: 0,
                },
                StatusEffectData {
                    instance_id: 22,
                    status_effect_id: 3,
                    source_id: 100,
                    value: 7,
                    expiration_tick: 0,
                    effect_type: StatusEffectType::Buff,
                    category: 0,
                },
            ],
        },
        0,
        false,
    );
    let (on_source, _) = e.status.get_status_effects(100, 9100, 999, 0);
    // one effect per instance id, the local registration wins the tie
    assert_eq!(on_source.len(), 2);
    let first = on_source.iter().find(|x| x.instance_id == 21).unwrap();
    assert_eq!(first.status_effect_id, 1);
    assert!(on_source.iter().any(|x| x.instance_id == 22));
}

#[test]
fn duration_refresh_is_idempotent() {
    let mut e = Engine::new();
    e.process_packet(new_boss(700, "Boss"), 0, false);
    e.process_packet(
        PacketEvent::StatusEffectAdd {
            object_id: 700,
            effect: shield_data(31, 100, 10),
        },
        0,
        false,
    );
    e.process_packet(
        PacketEvent::StatusEffectDuration {
            instance_id: 31,
            target_id: 700,
            expiration_tick: 5555,
        },
        0,
        false,
    );
    e.process_packet(
        PacketEvent::StatusEffectDuration {
            instance_id: 31,
            target_id: 700,
            expiration_tick: 5555,
        },
        0,
        false,
    );
    let (on_source, _) = e.status.get_status_effects(700, 0, 1, 0);
    let eff = on_source.iter().find(|x| x.instance_id == 31).unwrap();
    assert_eq!(eff.expiration_tick, 5555);
}

#[test]
fn party_maps_agree_when_both_ids_are_known() {
    let mut e = Engine::new();
    e.process_packet(new_pc(100, "Alice", 9100, 204), 0, false);
    e.process_packet(
        PacketEvent::PartyInfo {
            raid_instance_id: 1,
            party_instance_id: 2,
            members: vec![PartyMember {
                name: "Alice".to_string(),
                character_id: 9100,
                class_id: 204,
                gear_level: 1600,
            }],
        },
        0,
        false,
    );
    assert_eq!(e.party.party_of_character(9100), Some(2));
    assert_eq!(e.party.party_of_entity(100), Some(2));
    // the member leaves: both sides are cleared together
    e.process_packet(
        PacketEvent::PartyLeave {
            party_instance_id: 2,
            name: "Alice".to_string(),
        },
        0,
        false,
    );
    assert_eq!(e.party.party_of_character(9100), None);
    assert_eq!(e.party.party_of_entity(100), None);
}

#[test]
fn stats_cache_returns_latest_entry() {
    let mut e = Engine::new();
    assert!(e.get_stats(9100).is_none());
    e.record_stats(9100, "old".to_string());
    e.record_stats(9100, "new".to_string());
    assert_eq!(e.get_stats(9100).map(|s| s.as_str()), Some("new"));
}
