//! Registry of active status effects. Two parallel registries: **Local**
//! keyed by entity id, **Party** keyed by character id; an effect lives in
//! exactly one of them. Within one target's list every effect instance id
//! occurs once.

use crate::models::{StatusEffect, StatusEffectData, StatusEffectTargetType, StatusEffectType,
    WORKSHOP_CATEGORY};
use crate::vmap::VMap;
use vstd::prelude::*;

verus! {

/// Every instance id occurs at most once.
pub open spec fn unique_instances(l: Seq<StatusEffect>) -> bool {
    forall|i: int, j: int|
        0 <= i < j < l.len() ==> l[i].instance_id != l[j].instance_id
}

/// Every effect in the list is registered under its own target key and
/// registry side.
pub open spec fn all_on_target(
    l: Seq<StatusEffect>,
    target: u64,
    tt: StatusEffectTargetType,
) -> bool {
    forall|i: int| 0 <= i < l.len() ==> l[i].target_id == target && l[i].target_type == tt
}

pub open spec fn seq_has_iid(l: Seq<StatusEffect>, iid: u32) -> bool {
    exists|i: int| 0 <= i < l.len() && l[i].instance_id == iid
}

pub open spec fn seq_iid_at(l: Seq<StatusEffect>, iid: u32) -> StatusEffect {
    l[choose|i: int| 0 <= i < l.len() && l[i].instance_id == iid]
}

pub proof fn lemma_iid_at(l: Seq<StatusEffect>, iid: u32, i: int)
    requires
        unique_instances(l),
        0 <= i < l.len(),
        l[i].instance_id == iid,
    ensures
        seq_has_iid(l, iid),
        seq_iid_at(l, iid) == l[i],
{
    assert(seq_has_iid(l, iid));
    let j = choose|j: int| 0 <= j < l.len() && l[j].instance_id == iid;
    assert(j == i);
}

pub open spec fn registry_wf(m: Map<u64, Vec<StatusEffect>>, tt: StatusEffectTargetType) -> bool {
    forall|k: u64| #[trigger]
        m.contains_key(k) ==> unique_instances(m[k]@) && all_on_target(m[k]@, k, tt)
}

/// A removal of `iids` from `key`'s list takes a workshop-category effect
/// with it.
pub open spec fn removed_workshop(
    m: Map<u64, Vec<StatusEffect>>,
    key: u64,
    iids: Seq<u32>,
) -> bool {
    m.contains_key(key) && exists|x: StatusEffect|
        m[key]@.contains(x) && iids.contains(x.instance_id) && x.category == WORKSHOP_CATEGORY
}

/// Build a registry entry from its wire form.
pub fn build_status_effect(
    data: &StatusEffectData,
    target_id: u64,
    tt: StatusEffectTargetType,
) -> (r: StatusEffect)
    ensures
        r == (StatusEffect {
            instance_id: data.instance_id,
            status_effect_id: data.status_effect_id,
            source_id: data.source_id,
            target_id: target_id,
            target_type: tt,
            effect_type: data.effect_type,
            value: data.value,
            expiration_tick: data.expiration_tick,
            category: data.category,
        }),
{
    StatusEffect {
        instance_id: data.instance_id,
        status_effect_id: data.status_effect_id,
        source_id: data.source_id,
        target_id: target_id,
        target_type: tt,
        effect_type: data.effect_type,
        value: data.value,
        expiration_tick: data.expiration_tick,
        category: data.category,
    }
}

/// Locating and re-valuing one effect: the exact contract of
/// `sync_status_effect`, named so the dispatcher can state its sync arm.
pub open spec fn sync_rec(
    pre: StatusTracker,
    post: StatusTracker,
    instance_id: u32,
    character_id: u64,
    object_id: u64,
    new_value: u64,
    r0: Option<StatusEffect>,
    r1: u64,
) -> bool {
    let in_party = character_id != 0 && pre.has_effect(
        StatusEffectTargetType::Party,
        character_id,
        instance_id,
    );
    let in_local = pre.has_effect(StatusEffectTargetType::Local, object_id, instance_id);
    let tt = if in_party {
        StatusEffectTargetType::Party
    } else {
        StatusEffectTargetType::Local
    };
    let key = if in_party {
        character_id
    } else {
        object_id
    };
    if in_party || in_local {
        let pre_e = pre.effect_of(tt, key, instance_id);
        let post_e = StatusEffect { value: new_value, ..pre_e };
        &&& r0 == Some(post_e)
        &&& r1 == pre_e.value
        &&& post.has_effect(tt, key, instance_id)
        &&& post.effect_of(tt, key, instance_id) == post_e
        &&& forall|x: StatusEffect|
            post.reg(tt)[key]@.contains(x) <==> (x == post_e || (pre.reg(tt)[key]@.contains(x)
                && x.instance_id != instance_id))
        &&& forall|t: u64|
            t != key ==> (#[trigger] post.reg(tt).contains_key(t) <==> pre.reg(
                tt,
            ).contains_key(t)) && (pre.reg(tt).contains_key(t) ==> post.reg(tt)[t] == pre.reg(
                tt,
            )[t])
        &&& post.reg(other_side(tt)) == pre.reg(other_side(tt))
    } else {
        &&& r0 is None
        &&& r1 == 0
        &&& post == pre
    }
}

pub struct StatusTracker {
    local: VMap<Vec<StatusEffect>>,
    party: VMap<Vec<StatusEffect>>,
}

impl StatusTracker {
    pub closed spec fn local_map(self) -> Map<u64, Vec<StatusEffect>> {
        self.local@
    }

    pub closed spec fn party_map(self) -> Map<u64, Vec<StatusEffect>> {
        self.party@
    }

    pub open spec fn reg(self, tt: StatusEffectTargetType) -> Map<u64, Vec<StatusEffect>> {
        if tt == StatusEffectTargetType::Local {
            self.local_map()
        } else {
            self.party_map()
        }
    }

    pub closed spec fn wf(self) -> bool {
        &&& self.local.wf()
        &&& self.party.wf()
        &&& registry_wf(self.local@, StatusEffectTargetType::Local)
        &&& registry_wf(self.party@, StatusEffectTargetType::Party)
    }

    /// An effect with this instance id is registered on this target.
    pub open spec fn has_effect(
        self,
        tt: StatusEffectTargetType,
        target: u64,
        iid: u32,
    ) -> bool {
        self.reg(tt).contains_key(target) && seq_has_iid(self.reg(tt)[target]@, iid)
    }

    /// The registered effect with this instance id.
    pub open spec fn effect_of(
        self,
        tt: StatusEffectTargetType,
        target: u64,
        iid: u32,
    ) -> StatusEffect {
        seq_iid_at(self.reg(tt)[target]@, iid)
    }

    pub fn new() -> (r: StatusTracker)
        ensures
            r.wf(),
            r.local_map() == Map::<u64, Vec<StatusEffect>>::empty(),
            r.party_map() == Map::<u64, Vec<StatusEffect>>::empty(),
    {
        StatusTracker { local: VMap::new(), party: VMap::new() }
    }

    /// Insert, replacing any effect with the same instance id on the same
    /// target.
    pub fn register(&mut self, effect: StatusEffect)
        requires
            old(self).wf(),
        ensures
            final(self).wf(),
            final(self).has_effect(effect.target_type, effect.target_id, effect.instance_id),
            final(self).effect_of(effect.target_type, effect.target_id, effect.instance_id)
                == effect,
            // the target's other effects are untouched, other targets and the
            // other registry are untouched
            forall|x: StatusEffect|
                final(self).reg(effect.target_type)[effect.target_id]@.contains(x)
                    <==> x == effect || (old(self).reg(effect.target_type).contains_key(
                    effect.target_id,
                ) && old(self).reg(effect.target_type)[effect.target_id]@.contains(x)
                    && x.instance_id != effect.instance_id),
            forall|t: u64|
                t != effect.target_id ==> (#[trigger] final(self).reg(
                    effect.target_type,
                ).contains_key(t) <==> old(self).reg(effect.target_type).contains_key(t))
                    && (old(self).reg(effect.target_type).contains_key(t) ==> final(self).reg(
                    effect.target_type,
                )[t] == old(self).reg(effect.target_type)[t]),
            final(self).reg(other_side(effect.target_type)) == old(self).reg(
                other_side(effect.target_type),
            ),
    {
        let tt = effect.target_type;
        if matches!(tt, StatusEffectTargetType::Local) {
            upsert_effect(&mut self.local, effect);
        } else {
            upsert_effect(&mut self.party, effect);
        }
        proof {
            let key = effect.target_id;
            let l = self.reg(tt)[key]@;
            assert(l.contains(effect));
            let i = choose|i: int| #![trigger l[i]] 0 <= i < l.len() && l[i] == effect;
            lemma_iid_at(l, effect.instance_id, i);
        }
    }

    /// Remove the listed instance ids from one target, handing back the
    /// removed Shield-typed effects, whether any removed effect was a shield,
    /// and whether a workshop-category effect went away. Removing instance
    /// ids that are not registered is a no-op.
    #[verifier::rlimit(50)]
    pub fn remove_status_effects(
        &mut self,
        target_id: u64,
        instance_ids: &Vec<u32>,
        tt: StatusEffectTargetType,
    ) -> (r: (bool, Vec<StatusEffect>, bool))
        requires
            old(self).wf(),
        ensures
            final(self).wf(),
            // the named instances are gone
            forall|iid: u32|
                instance_ids@.contains(iid) ==> !final(self).has_effect(tt, target_id, iid),
            // nothing else moved
            forall|t: u64|
                t != target_id ==> (#[trigger] final(self).reg(tt).contains_key(t) <==> old(self).reg(tt).contains_key(t)) && (old(self).reg(tt).contains_key(t) ==> final(self).reg(tt)[t] == old(self).reg(tt)[t]),
            final(self).reg(other_side(tt)) == old(self).reg(other_side(tt)),
            old(self).reg(tt).contains_key(target_id) ==> final(self).reg(tt).contains_key(
                target_id,
            ) && (forall|x: StatusEffect|
                final(self).reg(tt)[target_id]@.contains(x) <==> (old(self).reg(
                    tt,
                )[target_id]@.contains(x) && !instance_ids@.contains(x.instance_id))),
            // the removed shields, and the two flags
            forall|x: StatusEffect|
                r.1@.contains(x) <==> (old(self).reg(tt).contains_key(target_id) && old(self).reg(tt)[target_id]@.contains(x) && instance_ids@.contains(x.instance_id)
                    && x.effect_type == StatusEffectType::Shield),
            r.0 == (r.1@.len() > 0),
            r.2 == removed_workshop(old(self).reg(tt), target_id, instance_ids@),
            // unknown target or unknown instances: nothing changes at all
            !old(self).reg(tt).contains_key(target_id) ==> *final(self) == *old(self),
            (old(self).reg(tt).contains_key(target_id) && !(exists|x: StatusEffect|
                old(self).reg(tt)[target_id]@.contains(x) && instance_ids@.contains(
                    x.instance_id,
                ))) ==> *final(self) == *old(self),
    {
        let r = if matches!(tt, StatusEffectTargetType::Local) {
            let rr = remove_effects(&mut self.local, target_id, instance_ids);
            proof {
                lemma_registry_subset_wf(
                    old(self).local@,
                    self.local@,
                    StatusEffectTargetType::Local,
                );
            }
            rr
        } else {
            let rr = remove_effects(&mut self.party, target_id, instance_ids);
            proof {
                lemma_registry_subset_wf(
                    old(self).party@,
                    self.party@,
                    StatusEffectTargetType::Party,
                );
            }
            rr
        };
        proof {
            assert forall|t: u64|
                t != target_id implies (#[trigger] final(self).reg(tt).contains_key(t) <==> old(self).reg(tt).contains_key(t)) && (old(self).reg(tt).contains_key(t) ==> final(self).reg(tt)[t] == old(self).reg(tt)[t]) by {
                if matches!(tt, StatusEffectTargetType::Local) {
                    assert(final(self).reg(tt) == self.local@);
                } else {
                    assert(final(self).reg(tt) == self.party@);
                }
            }
            assert forall|iid: u32| instance_ids@.contains(iid) implies !final(self).has_effect(
                tt,
                target_id,
                iid,
            ) by {
                if final(self).reg(tt).contains_key(target_id) {
                    let l = final(self).reg(tt)[target_id]@;
                    if seq_has_iid(l, iid) {
                        let i = choose|i: int| 0 <= i < l.len() && l[i].instance_id == iid;
                        assert(l.contains(l[i]));
                    }
                }
            }
        }
        r
    }

    /// Locate the effect across both registries (Party first when the
    /// character id is known, else Local by object id), set its value, and
    /// hand back the updated effect with the value it had before. A missing
    /// effect is `(None, 0)` and the tracker is untouched.
    pub fn sync_status_effect(
        &mut self,
        instance_id: u32,
        character_id: u64,
        object_id: u64,
        new_value: u64,
    ) -> (r: (Option<StatusEffect>, u64))
        requires
            old(self).wf(),
        ensures
            final(self).wf(),
            sync_rec(
                *old(self),
                *final(self),
                instance_id,
                character_id,
                object_id,
                new_value,
                r.0,
                r.1,
            ),
    {
        if character_id != 0 {
            let found = set_effect_value(&mut self.party, character_id, instance_id, new_value);
            if let Some(pair) = found {
                proof {
                    let l = old(self).party@[character_id]@;
                    assert(seq_iid_at(l, instance_id).target_id == character_id);
                    assert(seq_iid_at(l, instance_id).target_type
                        == StatusEffectTargetType::Party);
                    lemma_registry_update_wf(
                        old(self).party@,
                        self.party@,
                        StatusEffectTargetType::Party,
                        character_id,
                        pair.0,
                    );
                }
                return (Some(pair.0), pair.1);
            }
        }
        let found = set_effect_value(&mut self.local, object_id, instance_id, new_value);
        match found {
            Some(pair) => {
                proof {
                    let l = old(self).local@[object_id]@;
                    assert(seq_iid_at(l, instance_id).target_id == object_id);
                    assert(seq_iid_at(l, instance_id).target_type
                        == StatusEffectTargetType::Local);
                    lemma_registry_update_wf(
                        old(self).local@,
                        self.local@,
                        StatusEffectTargetType::Local,
                        object_id,
                        pair.0,
                    );
                }
                (Some(pair.0), pair.1)
            },
            None => (None, 0),
        }
    }

    /// Idempotent duration refresh: the effect's expiration tick is replaced,
    /// everything else stays; an unknown instance is a no-op.
    pub fn update_status_duration(
        &mut self,
        instance_id: u32,
        target_id: u64,
        expiration_tick: u64,
        tt: StatusEffectTargetType,
    ) -> (updated: bool)
        requires
            old(self).wf(),
        ensures
            final(self).wf(),
            ({
                if old(self).has_effect(tt, target_id, instance_id) {
                    let pre = old(self).effect_of(tt, target_id, instance_id);
                    let post = StatusEffect { expiration_tick: expiration_tick, ..pre };
                    &&& updated
                    &&& final(self).has_effect(tt, target_id, instance_id)
                    &&& final(self).effect_of(tt, target_id, instance_id) == post
                    &&& forall|x: StatusEffect|
                        final(self).reg(tt)[target_id]@.contains(x) <==> (x == post || (old(self).reg(tt)[target_id]@.contains(x) && x.instance_id != instance_id))
                    &&& forall|t: u64|
                        t != target_id ==> (#[trigger] final(self).reg(tt).contains_key(t)
                            <==> old(self).reg(tt).contains_key(t)) && (old(self).reg(
                            tt,
                        ).contains_key(t) ==> final(self).reg(tt)[t] == old(self).reg(tt)[t])
                    &&& final(self).reg(other_side(tt)) == old(self).reg(other_side(tt))
                } else {
                    &&& !updated
                    &&& *final(self) == *old(self)
                }
            }),
    {
        let found = if matches!(tt, StatusEffectTargetType::Local) {
            let rr = set_effect_tick(&mut self.local, target_id, instance_id, expiration_tick);
            proof {
                if rr {
                    let l = old(self).local@[target_id]@;
                    assert(seq_iid_at(l, instance_id).target_id == target_id);
                    assert(seq_iid_at(l, instance_id).target_type
                        == StatusEffectTargetType::Local);
                    lemma_registry_update_wf(
                        old(self).local@,
                        self.local@,
                        StatusEffectTargetType::Local,
                        target_id,
                        (StatusEffect {
                            expiration_tick: expiration_tick,
                            ..seq_iid_at(l, instance_id)
                        }),
                    );
                }
            }
            rr
        } else {
            let rr = set_effect_tick(&mut self.party, target_id, instance_id, expiration_tick);
            proof {
                if rr {
                    let l = old(self).party@[target_id]@;
                    assert(seq_iid_at(l, instance_id).target_id == target_id);
                    assert(seq_iid_at(l, instance_id).target_type
                        == StatusEffectTargetType::Party);
                    lemma_registry_update_wf(
                        old(self).party@,
                        self.party@,
                        StatusEffectTargetType::Party,
                        target_id,
                        (StatusEffect {
                            expiration_tick: expiration_tick,
                            ..seq_iid_at(l, instance_id)
                        }),
                    );
                }
            }
            rr
        };
        found
    }

    /// Purge every effect indexed to a removed entity.
    pub fn remove_local_object(&mut self, object_id: u64)
        requires
            old(self).wf(),
        ensures
            final(self).wf(),
            final(self).local_map() == old(self).local_map().remove(object_id),
            final(self).party_map() == old(self).party_map(),
    {
        self.local.remove(object_id);
    }

    /// The effects to attach to a damage event: those on the striking owner
    /// (Local by entity id merged with Party by character id, first
    /// registration of an instance id wins) and those on the target, merged
    /// the same way.
    pub fn get_status_effects(
        &self,
        owner_id: u64,
        owner_character_id: u64,
        target_id: u64,
        target_character_id: u64,
    ) -> (r: (Vec<StatusEffect>, Vec<StatusEffect>))
        requires
            self.wf(),
        ensures
            unique_instances(r.0@),
            unique_instances(r.1@),
            forall|x: StatusEffect| #[trigger]
                r.0@.contains(x) ==> (self.local_map().contains_key(owner_id) && self.local_map()[owner_id]@.contains(x)) || (self.party_map().contains_key(owner_character_id)
                    && self.party_map()[owner_character_id]@.contains(x)),
            forall|x: StatusEffect| #[trigger]
                r.1@.contains(x) ==> (self.local_map().contains_key(target_id)
                    && self.local_map()[target_id]@.contains(x)) || (
                self.party_map().contains_key(target_character_id) && self.party_map()[target_character_id]@.contains(x)),
            self.local_map().contains_key(owner_id) ==> forall|x: StatusEffect|
                self.local_map()[owner_id]@.contains(x) ==> #[trigger] r.0@.contains(x),
            self.party_map().contains_key(owner_character_id) ==> forall|x: StatusEffect|
                #[trigger] self.party_map()[owner_character_id]@.contains(x) ==> exists|
                    y: StatusEffect,
                | #[trigger] r.0@.contains(y) && y.instance_id == x.instance_id,
            self.local_map().contains_key(target_id) ==> forall|x: StatusEffect|
                self.local_map()[target_id]@.contains(x) ==> #[trigger] r.1@.contains(x),
    {
        let on_source = self.merged_effects(owner_id, owner_character_id);
        let on_target = self.merged_effects(target_id, target_character_id);
        (on_source, on_target)
    }

    fn merged_effects(&self, entity_id: u64, character_id: u64) -> (r: Vec<StatusEffect>)
        requires
            self.wf(),
        ensures
            unique_instances(r@),
            forall|x: StatusEffect| #[trigger]
                r@.contains(x) ==> (self.local_map().contains_key(entity_id)
                    && self.local_map()[entity_id]@.contains(x)) || (
                self.party_map().contains_key(character_id) && self.party_map()[character_id]@.contains(x)),
            self.local_map().contains_key(entity_id) ==> forall|x: StatusEffect|
                self.local_map()[entity_id]@.contains(x) ==> #[trigger] r@.contains(x),
            self.party_map().contains_key(character_id) ==> forall|x: StatusEffect| #[trigger]
                self.party_map()[character_id]@.contains(x) ==> exists|y: StatusEffect|
                    #[trigger] r@.contains(y) && y.instance_id == x.instance_id,
    {
        let mut out: Vec<StatusEffect> = Vec::new();
        if let Some(l) = self.local.get(entity_id) {
            let mut i: usize = 0;
            while i < l.len()
                invariant
                    i <= l.len(),
                    self.wf(),
                    self.local_map().contains_key(entity_id),
                    l == self.local_map()[entity_id],
                    out@ == l@.take(i as int),
                decreases l.len() - i,
            {
                out.push(l[i]);
                proof {
                    assert(out@ =~= l@.take(i as int + 1));
                }
                i += 1;
            }
            proof {
                assert(l@.take(l@.len() as int) =~= l@);
            }
        }
        let ghost base = out@;
        proof {
            if self.local_map().contains_key(entity_id) {
                assert(base == self.local_map()[entity_id]@);
            } else {
                assert(base == Seq::<StatusEffect>::empty());
            }
        }
        if let Some(pl) = self.party.get(character_id) {
            let mut i: usize = 0;
            while i < pl.len()
                invariant
                    i <= pl.len(),
                    self.wf(),
                    self.party_map().contains_key(character_id),
                    pl == self.party_map()[character_id],
                    unique_instances(out@),
                    unique_instances(base),
                    forall|x: StatusEffect| base.contains(x) ==> #[trigger] out@.contains(x),
                    forall|x: StatusEffect| #[trigger]
                        out@.contains(x) ==> base.contains(x) || pl@.contains(x),
                    forall|x: StatusEffect| #[trigger]
                        pl@.take(i as int).contains(x) ==> exists|y: StatusEffect|
                            #[trigger] out@.contains(y) && y.instance_id == x.instance_id,
                decreases pl.len() - i,
            {
                proof {
                    assert(pl@.take(i as int + 1) == pl@.take(i as int).push(pl@[i as int]));
                }
                let e = pl[i];
                let mut dup = false;
                let mut j: usize = 0;
                while j < out.len()
                    invariant
                        j <= out.len(),
                        dup == exists|jj: int|
                            0 <= jj < j && out@[jj].instance_id == e.instance_id,
                    decreases out.len() - j,
                {
                    if out[j].instance_id == e.instance_id {
                        dup = true;
                    }
                    j += 1;
                }
                if !dup {
                    let ghost prev = out@;
                    out.push(e);
                    proof {
                        assert(pl@.contains(pl@[i as int]));
                        lemma_push_contains(prev, out@, e);
                        lemma_push_unique(prev, out@, e);
                        assert forall|x: StatusEffect| #[trigger]
                            pl@.take(i as int + 1).contains(x) implies exists|y: StatusEffect|
                            #[trigger] out@.contains(y) && y.instance_id == x.instance_id by {
                            if pl@.take(i as int).contains(x) {
                                let y = choose|y: StatusEffect|
                                    #[trigger] prev.contains(y) && y.instance_id
                                        == x.instance_id;
                                assert(out@.contains(y));
                            } else {
                                let k = choose|k: int|
                                    #![trigger pl@.take(i as int + 1)[k]]
                                    0 <= k < pl@.take(i as int + 1).len() && pl@.take(
                                        i as int + 1,
                                    )[k] == x;
                                assert(x == pl@[i as int]);
                                assert(out@.contains(e));
                            }
                        }
                    }
                } else {
                    proof {
                        let jj = choose|jj: int|
                            0 <= jj < out@.len() && out@[jj].instance_id == e.instance_id;
                        assert forall|x: StatusEffect| #[trigger]
                            pl@.take(i as int + 1).contains(x) implies exists|y: StatusEffect|
                            #[trigger] out@.contains(y) && y.instance_id == x.instance_id by {
                            if pl@.take(i as int).contains(x) {
                            } else {
                                let k = choose|k: int|
                                    #![trigger pl@.take(i as int + 1)[k]]
                                    0 <= k < pl@.take(i as int + 1).len() && pl@.take(
                                        i as int + 1,
                                    )[k] == x;
                                assert(x == pl@[i as int]);
                                assert(out@.contains(out@[jj]));
                            }
                        }
                    }
                }
                i += 1;
            }
            proof {
                assert(pl@.take(pl@.len() as int) =~= pl@);
            }
        }
        out
    }

    /// Drop both registries.
    pub fn clear(&mut self)
        ensures
            final(self).wf(),
            final(self).local_map() == Map::<u64, Vec<StatusEffect>>::empty(),
            final(self).party_map() == Map::<u64, Vec<StatusEffect>>::empty(),
    {
        self.local.clear();
        self.party.clear();
    }
}

/// The registry an effect does not live in.
pub open spec fn other_side(tt: StatusEffectTargetType) -> StatusEffectTargetType {
    if tt == StatusEffectTargetType::Local {
        StatusEffectTargetType::Party
    } else {
        StatusEffectTargetType::Local
    }
}

fn contains_u32(v: &Vec<u32>, x: u32) -> (r: bool)
    ensures
        r == v@.contains(x),
{
    let mut i: usize = 0;
    while i < v.len()
        invariant
            i <= v.len(),
            forall|j: int| 0 <= j < i ==> v@[j] != x,
        decreases v.len() - i,
    {
        if v[i] == x {
            return true;
        }
        i += 1;
    }
    false
}

fn find_iid(l: &Vec<StatusEffect>, iid: u32) -> (r: Option<usize>)
    ensures
        match r {
            Some(i) => i < l@.len() && l@[i as int].instance_id == iid,
            None => !seq_has_iid(l@, iid),
        },
{
    let mut i: usize = 0;
    while i < l.len()
        invariant
            i <= l.len(),
            forall|j: int| 0 <= j < i ==> l@[j].instance_id != iid,
        decreases l.len() - i,
    {
        if l[i].instance_id == iid {
            return Some(i);
        }
        i += 1;
    }
    None
}

fn any_iid_match(l: &Vec<StatusEffect>, iids: &Vec<u32>) -> (r: bool)
    ensures
        r == exists|x: StatusEffect| l@.contains(x) && iids@.contains(x.instance_id),
{
    let mut i: usize = 0;
    while i < l.len()
        invariant
            i <= l.len(),
            forall|j: int| 0 <= j < i ==> !iids@.contains(l@[j].instance_id),
        decreases l.len() - i,
    {
        if contains_u32(iids, l[i].instance_id) {
            proof {
                assert(l@.contains(l@[i as int]));
            }
            return true;
        }
        i += 1;
    }
    proof {
        assert forall|x: StatusEffect| l@.contains(x) implies !iids@.contains(
            x.instance_id,
        ) by {
            let j = choose|j: int| 0 <= j < l@.len() && l@[j] == x;
        }
    }
    false
}

/// Insert `e` under its target key, replacing any effect with the same
/// instance id.
fn upsert_effect(m: &mut VMap<Vec<StatusEffect>>, e: StatusEffect)
    requires
        old(m).wf(),
        registry_wf(old(m)@, e.target_type),
    ensures
        final(m).wf(),
        registry_wf(final(m)@, e.target_type),
        final(m)@.contains_key(e.target_id),
        forall|x: StatusEffect|
            final(m)@[e.target_id]@.contains(x) <==> x == e || (old(m)@.contains_key(e.target_id)
                && old(m)@[e.target_id]@.contains(x) && x.instance_id != e.instance_id),
        forall|t: u64|
            t != e.target_id ==> (#[trigger] final(m)@.contains_key(t) <==> old(m)@.contains_key(t)) && (old(m)@.contains_key(t) ==> final(m)@[t] == old(m)@[t]),
    {
    let key = e.target_id;
    let ghost pre_map = m@;
    let list = match m.remove(key) {
        Some(l) => l,
        None => Vec::new(),
    };
    let ghost pre = list@;
    proof {
        if pre_map.contains_key(key) {
            assert(pre == pre_map[key]@);
        } else {
            assert(pre == Seq::<StatusEffect>::empty());
        }
    }
    let mut out: Vec<StatusEffect> = Vec::new();
    let mut i: usize = 0;
    while i < list.len()
        invariant
            i <= list.len(),
            list@ == pre,
            pre_map.contains_key(key) ==> unique_instances(pre) && all_on_target(
                pre,
                key,
                e.target_type,
            ),
            !pre_map.contains_key(key) ==> pre == Seq::<StatusEffect>::empty(),
            unique_instances(out@),
            all_on_target(out@, key, e.target_type),
            forall|x: StatusEffect| #[trigger]
                out@.contains(x) <==> (pre.take(i as int).contains(x) && x.instance_id
                    != e.instance_id),
        decreases list.len() - i,
    {
        if list[i].instance_id != e.instance_id {
            let ghost prev = out@;
            out.push(list[i]);
            proof {
                lemma_push_contains_iff(prev, out@, pre, i as int, |x: StatusEffect|
                    x.instance_id != e.instance_id);
                assert forall|k: int|
                    0 <= k < prev.len() implies prev[k].instance_id != pre[
                    i as int
                ].instance_id by {
                    assert(prev.contains(prev[k]));
                    assert(pre.take(i as int).contains(prev[k]));
                    let k2 = choose|k2: int|
                        #![trigger pre.take(i as int)[k2]]
                        0 <= k2 < pre.take(i as int).len() && pre.take(i as int)[k2] == prev[k];
                    assert(pre[k2] == prev[k]);
                }
                lemma_push_unique(prev, out@, pre[i as int]);
                assert forall|k: int|
                    0 <= k < out@.len() implies out@[k].target_id == key && out@[k].target_type
                    == e.target_type by {
                    if k < out@.len() - 1 {
                        assert(out@[k] == prev[k]);
                    } else {
                        assert(out@[k] == pre[i as int]);
                    }
                }
            }
        } else {
            proof {
                lemma_skip_contains_iff(out@, pre, i as int, |x: StatusEffect|
                    x.instance_id != e.instance_id);
            }
        }
        i += 1;
    }
    proof {
        assert(pre.take(list@.len() as int) =~= pre);
    }
    let ghost prev = out@;
    out.push(e);
    proof {
        lemma_push_contains(prev, out@, e);
        assert forall|k: int| 0 <= k < prev.len() implies prev[k].instance_id
            != e.instance_id by {
            assert(prev.contains(prev[k]));
        }
        lemma_push_unique(prev, out@, e);
        assert forall|k: int|
            0 <= k < out@.len() implies out@[k].target_id == key && out@[k].target_type
            == e.target_type by {
            if k < out@.len() - 1 {
                assert(out@[k] == prev[k]);
                assert(prev.contains(prev[k]));
            }
        }
        assert(all_on_target(out@, key, e.target_type));
    }
    m.insert(key, out);
    proof {
        assert(m@[key]@ == out@);
        assert forall|k: u64| #[trigger] m@.contains_key(k) implies unique_instances(m@[k]@)
            && all_on_target(m@[k]@, k, e.target_type) by {
            if k != key {
                assert(pre_map.contains_key(k));
                assert(m@[k] == pre_map[k]);
            }
        }
    }
}

/// Remove matching instance ids from one target's list; hand back
/// `(is_shield, removed shields, left_workshop)`.
fn remove_effects(m: &mut VMap<Vec<StatusEffect>>, key: u64, iids: &Vec<u32>) -> (r: (
    bool,
    Vec<StatusEffect>,
    bool,
))
    requires
        old(m).wf(),
        forall|k: u64| #[trigger]
            old(m)@.contains_key(k) ==> unique_instances(old(m)@[k]@),
    ensures
        final(m).wf(),
        forall|k: u64| #[trigger]
            final(m)@.contains_key(k) ==> unique_instances(final(m)@[k]@),
        // touched lists keep their per-element facts
        forall|k: u64, x: StatusEffect|
            final(m)@.contains_key(k) && #[trigger] final(m)@[k]@.contains(x) ==> old(m)@.contains_key(k) && old(m)@[k]@.contains(x),
        (!old(m)@.contains_key(key) || !(exists|x: StatusEffect|
            old(m)@[key]@.contains(x) && iids@.contains(x.instance_id))) ==> *final(m) == *old(m)
            && r.1@ == Seq::<StatusEffect>::empty(),
        old(m)@.contains_key(key) ==> final(m)@.contains_key(key) && (forall|x: StatusEffect|
            final(m)@[key]@.contains(x) <==> (old(m)@[key]@.contains(x) && !iids@.contains(
                x.instance_id,
            ))),
        forall|t: u64|
            t != key ==> (#[trigger] final(m)@.contains_key(t) <==> old(m)@.contains_key(t))
                && (old(m)@.contains_key(t) ==> final(m)@[t] == old(m)@[t]),
        forall|x: StatusEffect|
            r.1@.contains(x) <==> (old(m)@.contains_key(key) && old(m)@[key]@.contains(x)
                && iids@.contains(x.instance_id) && x.effect_type == StatusEffectType::Shield),
        r.0 == (r.1@.len() > 0),
        r.2 == removed_workshop(old(m)@, key, iids@),
{
    let ghost pre_map = m@;
    let any = match m.get(key) {
        Some(l) => any_iid_match(l, iids),
        None => false,
    };
    if !any {
        proof {
            if removed_workshop(m@, key, iids@) {
                let x = choose|x: StatusEffect|
                    m@[key]@.contains(x) && iids@.contains(x.instance_id) && x.category
                        == WORKSHOP_CATEGORY;
                assert(m@[key]@.contains(x) && iids@.contains(x.instance_id));
            }
        }
        let shields: Vec<StatusEffect> = Vec::new();
        return (false, shields, false);
    }
    let list = match m.remove(key) {
        Some(l) => l,
        None => Vec::new(),
    };
    let ghost pre = list@;
    let mut kept: Vec<StatusEffect> = Vec::new();
    let mut shields: Vec<StatusEffect> = Vec::new();
    let mut workshop = false;
    let mut i: usize = 0;
    while i < list.len()
        invariant
            i <= list.len(),
            list@ == pre,
            unique_instances(pre),
            forall|x: StatusEffect| #[trigger]
                kept@.contains(x) <==> (pre.take(i as int).contains(x) && !iids@.contains(
                    x.instance_id,
                )),
            forall|x: StatusEffect| #[trigger]
                shields@.contains(x) <==> (pre.take(i as int).contains(x) && iids@.contains(
                    x.instance_id,
                ) && x.effect_type == StatusEffectType::Shield),
            workshop == (exists|x: StatusEffect|
                pre.take(i as int).contains(x) && iids@.contains(x.instance_id) && x.category
                    == WORKSHOP_CATEGORY),
            forall|x: StatusEffect| #[trigger] kept@.contains(x) ==> pre.contains(x),
            unique_instances(kept@),
        decreases list.len() - i,
    {
        let e = list[i];
        let matched = contains_u32(iids, e.instance_id);
        if matched {
            if matches!(e.effect_type, StatusEffectType::Shield) {
                let ghost prev = shields@;
                shields.push(e);
                proof {
                    lemma_push_contains_iff(prev, shields@, pre, i as int, |x: StatusEffect|
                        iids@.contains(x.instance_id) && x.effect_type
                            == StatusEffectType::Shield);
                }
            } else {
                proof {
                    lemma_skip_contains_iff(shields@, pre, i as int, |x: StatusEffect|
                        iids@.contains(x.instance_id) && x.effect_type
                            == StatusEffectType::Shield);
                }
            }
            if e.category == WORKSHOP_CATEGORY {
                workshop = true;
            }
            proof {
                lemma_skip_contains_iff(kept@, pre, i as int, |x: StatusEffect|
                    !iids@.contains(x.instance_id));
                lemma_workshop_step(pre, i as int, iids@);
            }
        } else {
            let ghost prev = kept@;
            kept.push(e);
            proof {
                lemma_push_contains_iff(prev, kept@, pre, i as int, |x: StatusEffect|
                    !iids@.contains(x.instance_id));
                lemma_skip_contains_iff(shields@, pre, i as int, |x: StatusEffect|
                    iids@.contains(x.instance_id) && x.effect_type == StatusEffectType::Shield);
                lemma_workshop_step(pre, i as int, iids@);
                assert forall|k: int|
                    0 <= k < prev.len() implies prev[k].instance_id != pre[
                    i as int
                ].instance_id by {
                    assert(prev.contains(prev[k]));
                    assert(pre.take(i as int).contains(prev[k]));
                    let k2 = choose|k2: int|
                        #![trigger pre.take(i as int)[k2]]
                        0 <= k2 < pre.take(i as int).len() && pre.take(i as int)[k2] == prev[k];
                    assert(pre[k2] == prev[k]);
                }
                lemma_push_unique(prev, kept@, pre[i as int]);
            }
        }
        i += 1;
    }
    proof {
        assert(pre.take(list@.len() as int) =~= pre);
        if workshop {
            let x = choose|x: StatusEffect|
                pre.take(list@.len() as int).contains(x) && iids@.contains(x.instance_id)
                    && x.category == WORKSHOP_CATEGORY;
            assert(pre_map[key]@.contains(x) && iids@.contains(x.instance_id) && x.category
                == WORKSHOP_CATEGORY);
        } else {
            if removed_workshop(pre_map, key, iids@) {
                let x = choose|x: StatusEffect|
                    pre_map[key]@.contains(x) && iids@.contains(x.instance_id) && x.category
                        == WORKSHOP_CATEGORY;
                assert(pre.take(list@.len() as int).contains(x));
            }
        }
    }
    m.insert(key, kept);
    let is_shield = shields.len() > 0;
    (is_shield, shields, workshop)
}

/// Membership in a sequence after a push.
proof fn lemma_push_contains(prev: Seq<StatusEffect>, cur: Seq<StatusEffect>, y: StatusEffect)
    requires
        cur == prev.push(y),
    ensures
        forall|x: StatusEffect| #[trigger] cur.contains(x) <==> prev.contains(x) || x == y,
{
    assert forall|x: StatusEffect| #[trigger] cur.contains(x) implies prev.contains(x) || x
        == y by {
        let k = choose|k: int| #![trigger cur[k]] 0 <= k < cur.len() && cur[k] == x;
        if k < cur.len() - 1 {
            assert(prev[k] == x);
            assert(prev.contains(x));
        }
    }
    assert forall|x: StatusEffect| prev.contains(x) || x == y implies #[trigger] cur.contains(
        x,
    ) by {
        if prev.contains(x) {
            let k = choose|k: int| #![trigger prev[k]] 0 <= k < prev.len() && prev[k] == x;
            assert(cur[k] == x);
        } else {
            assert(cur[cur.len() - 1] == x);
        }
    }
}

/// Pushing an instance id that the sequence does not hold keeps instance ids
/// unique.
proof fn lemma_push_unique(prev: Seq<StatusEffect>, cur: Seq<StatusEffect>, y: StatusEffect)
    requires
        cur == prev.push(y),
        unique_instances(prev),
        forall|k: int| 0 <= k < prev.len() ==> prev[k].instance_id != y.instance_id,
    ensures
        unique_instances(cur),
{
    assert forall|i2: int, j2: int|
        0 <= i2 < j2 < cur.len() implies cur[i2].instance_id != cur[j2].instance_id by {
        if j2 < cur.len() - 1 {
            assert(prev[i2].instance_id != prev[j2].instance_id);
        }
    }
}

/// `cur` grew by `pre[i]`, which satisfies `p`: the contains-characterisation
/// over the prefix advances one step.
proof fn lemma_push_contains_iff(
    prev: Seq<StatusEffect>,
    cur: Seq<StatusEffect>,
    pre: Seq<StatusEffect>,
    i: int,
    p: spec_fn(StatusEffect) -> bool,
)
    requires
        0 <= i < pre.len(),
        cur == prev.push(pre[i]),
        p(pre[i]),
        forall|x: StatusEffect| #[trigger] prev.contains(x) <==> (pre.take(i).contains(x) && p(x)),
    ensures
        forall|x: StatusEffect| #[trigger]
            cur.contains(x) <==> (pre.take(i + 1).contains(x) && p(x)),
{
    assert(pre.take(i + 1) == pre.take(i).push(pre[i]));
    lemma_push_contains(prev, cur, pre[i]);
    assert forall|x: StatusEffect| #[trigger] cur.contains(x) implies (pre.take(i + 1).contains(
        x,
    ) && p(x)) by {
        if prev.contains(x) {
            let k2 = choose|k2: int|
                #![trigger pre.take(i)[k2]]
                0 <= k2 < pre.take(i).len() && pre.take(i)[k2] == x;
            assert(pre.take(i + 1)[k2] == x);
        } else {
            assert(x == pre[i]);
            assert(pre.take(i + 1)[i] == x);
        }
    }
    assert forall|x: StatusEffect| (pre.take(i + 1).contains(x) && p(x)) implies #[trigger]
        cur.contains(x) by {
        let k = choose|k: int|
            #![trigger pre.take(i + 1)[k]]
            0 <= k < pre.take(i + 1).len() && pre.take(i + 1)[k] == x;
        if k < i {
            assert(pre.take(i)[k] == x);
            assert(pre.take(i).contains(x));
        } else {
            assert(x == pre[i]);
        }
    }
}

/// `pre[i]` does not satisfy `p` and was not added: the characterisation
/// advances one step unchanged.
proof fn lemma_skip_contains_iff(
    out: Seq<StatusEffect>,
    pre: Seq<StatusEffect>,
    i: int,
    p: spec_fn(StatusEffect) -> bool,
)
    requires
        0 <= i < pre.len(),
        !p(pre[i]),
        forall|x: StatusEffect| #[trigger] out.contains(x) <==> (pre.take(i).contains(x) && p(x)),
    ensures
        forall|x: StatusEffect| #[trigger]
            out.contains(x) <==> (pre.take(i + 1).contains(x) && p(x)),
{
    assert(pre.take(i + 1) == pre.take(i).push(pre[i]));
    assert forall|x: StatusEffect| (pre.take(i + 1).contains(x) && p(x)) implies #[trigger]
        out.contains(x) by {
        let k = choose|k: int| #![trigger pre.take(i + 1)[k]] 0 <= k < pre.take(i + 1).len() && pre.take(i + 1)[k] == x;
        assert(k != i);
        assert(pre.take(i)[k] == x);
        assert(pre.take(i).contains(x));
    }
    assert forall|x: StatusEffect| #[trigger] out.contains(x) implies (pre.take(i + 1).contains(
        x,
    ) && p(x)) by {
        assert(pre.take(i).contains(x));
        let k = choose|k: int| #![trigger pre.take(i)[k]] 0 <= k < pre.take(i).len() && pre.take(i)[k] == x;
        assert(pre.take(i + 1)[k] == x);
    }
}

/// A workshop-category witness among the first `i + 1` elements is either
/// among the first `i` or is element `i` itself.
proof fn lemma_workshop_step(pre: Seq<StatusEffect>, i: int, iids: Seq<u32>)
    requires
        0 <= i < pre.len(),
    ensures
        (exists|x: StatusEffect|
            pre.take(i + 1).contains(x) && iids.contains(x.instance_id) && x.category
                == WORKSHOP_CATEGORY) <==> ((exists|x: StatusEffect|
            pre.take(i).contains(x) && iids.contains(x.instance_id) && x.category
                == WORKSHOP_CATEGORY) || (iids.contains(pre[i].instance_id) && pre[i].category
            == WORKSHOP_CATEGORY)),
{
    assert(pre.take(i + 1) == pre.take(i).push(pre[i]));
    if exists|x: StatusEffect|
        pre.take(i + 1).contains(x) && iids.contains(x.instance_id) && x.category
            == WORKSHOP_CATEGORY {
        let x = choose|x: StatusEffect|
            pre.take(i + 1).contains(x) && iids.contains(x.instance_id) && x.category
                == WORKSHOP_CATEGORY;
        let k = choose|k: int|
            #![trigger pre.take(i + 1)[k]]
            0 <= k < pre.take(i + 1).len() && pre.take(i + 1)[k] == x;
        if k < i {
            assert(pre.take(i)[k] == x);
            assert(pre.take(i).contains(x));
        } else {
            assert(x == pre[i]);
        }
    }
    if exists|x: StatusEffect|
        pre.take(i).contains(x) && iids.contains(x.instance_id) && x.category
            == WORKSHOP_CATEGORY {
        let x = choose|x: StatusEffect|
            pre.take(i).contains(x) && iids.contains(x.instance_id) && x.category
                == WORKSHOP_CATEGORY;
        let k = choose|k: int|
            #![trigger pre.take(i)[k]]
            0 <= k < pre.take(i).len() && pre.take(i)[k] == x;
        assert(pre.take(i + 1)[k] == x);
        assert(pre.take(i + 1).contains(x));
    }
    if iids.contains(pre[i].instance_id) && pre[i].category == WORKSHOP_CATEGORY {
        assert(pre.take(i + 1)[i] == pre[i]);
        assert(pre.take(i + 1).contains(pre[i]));
    }
}

/// A registry whose lists only shrank element-wise keeps every per-target
/// fact.
proof fn lemma_registry_subset_wf(
    m0: Map<u64, Vec<StatusEffect>>,
    m1: Map<u64, Vec<StatusEffect>>,
    tt: StatusEffectTargetType,
)
    requires
        registry_wf(m0, tt),
        forall|k: u64, x: StatusEffect|
            m1.contains_key(k) && #[trigger] m1[k]@.contains(x) ==> m0.contains_key(k)
                && m0[k]@.contains(x),
        forall|k: u64| #[trigger] m1.contains_key(k) ==> unique_instances(m1[k]@),
    ensures
        registry_wf(m1, tt),
{
    assert forall|k: u64| #[trigger] m1.contains_key(k) implies unique_instances(m1[k]@)
        && all_on_target(m1[k]@, k, tt) by {
        assert forall|idx: int|
            0 <= idx < m1[k]@.len() implies m1[k]@[idx].target_id == k
            && m1[k]@[idx].target_type == tt by {
            let x = m1[k]@[idx];
            assert(m1[k]@.contains(x));
            assert(m0[k]@.contains(x));
            let j = choose|j: int| #![trigger m0[k]@[j]] 0 <= j < m0[k]@.len() && m0[k]@[j] == x;
        }
    }
}

/// A registry whose lists only shrank, except for one replacement under one
/// key, keeps every per-target fact.
proof fn lemma_registry_update_wf(
    m0: Map<u64, Vec<StatusEffect>>,
    m1: Map<u64, Vec<StatusEffect>>,
    tt: StatusEffectTargetType,
    key: u64,
    post: StatusEffect,
)
    requires
        registry_wf(m0, tt),
        post.target_id == key,
        post.target_type == tt,
        forall|k: u64, x: StatusEffect|
            m1.contains_key(k) && #[trigger] m1[k]@.contains(x) ==> (m0.contains_key(k)
                && m0[k]@.contains(x)) || (k == key && x == post),
        forall|k: u64| #[trigger] m1.contains_key(k) ==> unique_instances(m1[k]@),
    ensures
        registry_wf(m1, tt),
{
    assert forall|k: u64| #[trigger] m1.contains_key(k) implies unique_instances(m1[k]@)
        && all_on_target(m1[k]@, k, tt) by {
        assert forall|idx: int|
            0 <= idx < m1[k]@.len() implies m1[k]@[idx].target_id == k
            && m1[k]@[idx].target_type == tt by {
            let x = m1[k]@[idx];
            assert(m1[k]@.contains(x));
            if !(k == key && x == post) {
                assert(m0[k]@.contains(x));
                let j = choose|j: int|
                    #![trigger m0[k]@[j]]
                    0 <= j < m0[k]@.len() && m0[k]@[j] == x;
            }
        }
    }
}

/// Replace one field of the effect with the given instance id; `None` and no
/// change when it is not registered.
fn set_effect_value(m: &mut VMap<Vec<StatusEffect>>, key: u64, iid: u32, new_value: u64) -> (r:
    Option<(StatusEffect, u64)>)
    requires
        old(m).wf(),
        forall|k: u64| #[trigger]
            old(m)@.contains_key(k) ==> unique_instances(old(m)@[k]@),
    ensures
        final(m).wf(),
        forall|k: u64| #[trigger]
            final(m)@.contains_key(k) ==> unique_instances(final(m)@[k]@),
        ({
            let located = old(m)@.contains_key(key) && seq_has_iid(old(m)@[key]@, iid);
            if located {
                let pre = seq_iid_at(old(m)@[key]@, iid);
                let post = StatusEffect { value: new_value, ..pre };
                &&& r == Some((post, pre.value))
                &&& final(m)@.contains_key(key)
                &&& seq_has_iid(final(m)@[key]@, iid)
                &&& seq_iid_at(final(m)@[key]@, iid) == post
                &&& forall|x: StatusEffect|
                    final(m)@[key]@.contains(x) <==> (x == post || (old(m)@[key]@.contains(x)
                        && x.instance_id != iid))
                &&& forall|t: u64|
                    t != key ==> (#[trigger] final(m)@.contains_key(t) <==> old(m)@.contains_key(t)) && (old(m)@.contains_key(t) ==> final(m)@[t] == old(m)@[t])
                &&& forall|k: u64, x: StatusEffect|
                    final(m)@.contains_key(k) && #[trigger] final(m)@[k]@.contains(x) ==> (old(m)@.contains_key(k) && old(m)@[k]@.contains(x)) || (k == key && x == post)
            } else {
                &&& r is None
                &&& *final(m) == *old(m)
            }
        }),
{
    let idx = match m.get(key) {
        Some(l) => find_iid(l, iid),
        None => None,
    };
    let i = match idx {
        Some(i) => i,
        None => {
            return None;
        },
    };
    let ghost pre_map = m@;
    let mut list = match m.remove(key) {
        Some(l) => l,
        None => Vec::new(),
    };
    let pre_e = list[i];
    let mut post_e = pre_e;
    post_e.value = new_value;
    list.set(i, post_e);
    let ghost pre = pre_map[key]@;
    proof {
        lemma_iid_at(pre, iid, i as int);
        assert(list@ == pre.update(i as int, post_e));
    }
    m.insert(key, list);
    proof {
        lemma_update_contains(pre, i as int, post_e, iid);
        lemma_iid_at(list@, iid, i as int);
    }
    Some((post_e, pre_e.value))
}

/// Like `set_effect_value`, for the expiration tick.
fn set_effect_tick(m: &mut VMap<Vec<StatusEffect>>, key: u64, iid: u32, tick: u64) -> (r: bool)
    requires
        old(m).wf(),
        forall|k: u64| #[trigger]
            old(m)@.contains_key(k) ==> unique_instances(old(m)@[k]@),
    ensures
        final(m).wf(),
        forall|k: u64| #[trigger]
            final(m)@.contains_key(k) ==> unique_instances(final(m)@[k]@),
        ({
            let located = old(m)@.contains_key(key) && seq_has_iid(old(m)@[key]@, iid);
            if located {
                let pre = seq_iid_at(old(m)@[key]@, iid);
                let post = StatusEffect { expiration_tick: tick, ..pre };
                &&& r
                &&& final(m)@.contains_key(key)
                &&& seq_has_iid(final(m)@[key]@, iid)
                &&& seq_iid_at(final(m)@[key]@, iid) == post
                &&& forall|x: StatusEffect|
                    final(m)@[key]@.contains(x) <==> (x == post || (old(m)@[key]@.contains(x)
                        && x.instance_id != iid))
                &&& forall|t: u64|
                    t != key ==> (#[trigger] final(m)@.contains_key(t) <==> old(m)@.contains_key(t)) && (old(m)@.contains_key(t) ==> final(m)@[t] == old(m)@[t])
                &&& forall|k: u64, x: StatusEffect|
                    final(m)@.contains_key(k) && #[trigger] final(m)@[k]@.contains(x) ==> (old(m)@.contains_key(k) && old(m)@[k]@.contains(x)) || (k == key && x == post)
            } else {
                &&& !r
                &&& *final(m) == *old(m)
            }
        }),
{
    let idx = match m.get(key) {
        Some(l) => find_iid(l, iid),
        None => None,
    };
    let i = match idx {
        Some(i) => i,
        None => {
            return false;
        },
    };
    let ghost pre_map = m@;
    let mut list = match m.remove(key) {
        Some(l) => l,
        None => Vec::new(),
    };
    let pre_e = list[i];
    let mut post_e = pre_e;
    post_e.expiration_tick = tick;
    list.set(i, post_e);
    let ghost pre = pre_map[key]@;
    proof {
        lemma_iid_at(pre, iid, i as int);
        assert(list@ == pre.update(i as int, post_e));
    }
    m.insert(key, list);
    proof {
        lemma_update_contains(pre, i as int, post_e, iid);
        lemma_iid_at(list@, iid, i as int);
    }
    true
}

/// Updating position `i` (the unique holder of `iid`) replaces exactly that
/// element, contains-wise, and keeps instance ids unique.
proof fn lemma_update_contains(pre: Seq<StatusEffect>, i: int, post: StatusEffect, iid: u32)
    requires
        unique_instances(pre),
        0 <= i < pre.len(),
        pre[i].instance_id == iid,
        post.instance_id == iid,
    ensures
        unique_instances(pre.update(i, post)),
        forall|x: StatusEffect| #[trigger]
            pre.update(i, post).contains(x) <==> (x == post || (pre.contains(x) && x.instance_id
                != iid)),
{
    let upd = pre.update(i, post);
    assert forall|i2: int, j2: int|
        0 <= i2 < j2 < upd.len() implies upd[i2].instance_id != upd[j2].instance_id by {
        assert(pre[i2].instance_id != pre[j2].instance_id);
    }
    assert forall|x: StatusEffect| #[trigger] upd.contains(x) implies (x == post || (pre.contains(
        x,
    ) && x.instance_id != iid)) by {
        let k = choose|k: int| #![trigger upd[k]] 0 <= k < upd.len() && upd[k] == x;
        if k == i {
        } else {
            assert(pre[k] == x);
            assert(pre.contains(x));
        }
    }
    assert forall|x: StatusEffect| (x == post || (pre.contains(x) && x.instance_id != iid))
        implies #[trigger] upd.contains(x) by {
        if x == post {
            assert(upd[i] == x);
        } else {
            let k = choose|k: int| #![trigger pre[k]] 0 <= k < pre.len() && pre[k] == x;
            assert(k != i);
            assert(upd[k] == x);
        }
    }
}

} // verus!
