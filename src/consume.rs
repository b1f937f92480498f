//! Consumables and recovery: using an item to steady one's coherence, and
//! abiding to restore integrity.
use vstd::prelude::*;

use crate::economy::ItemType;
use crate::text::{contains_text, is_infix, lower_of, lowercase, same_text};
use crate::trade::{carried_match, matches_keywords};
use crate::world::{first_actor, lemma_first_actor_unique, no_actor, Actor, Place, World};

verus! {

/// Full coherence, in thousandths.
pub const FULL_COHERENCE: u32 = 1000;

/// Integrity restored by one abide, in thousandths.
pub const ABIDE_GAIN: u32 = 100;

/// What consuming an item does.
#[derive(PartialEq, Eq, Structural, Debug, Clone, Copy)]
pub enum Effect {
    Sunrise,
    Goodbye,
    Fragment,
    Stabilizer,
    StolenHandle,
    MemoryBus,
    Unknown,
}

/// One of `keywords` is exactly `w`.
pub open spec fn has_word(keywords: Seq<String>, w: Seq<char>) -> bool {
    exists|k: int| 0 <= k < keywords.len() && #[trigger] keywords[k]@ == w
}

/// The effect of an item, by its case-folded name and its keywords, the
/// first rule that applies winning.
pub open spec fn effect_spec(lower_name: Seq<char>, keywords: Seq<String>) -> Effect {
    if is_infix("sunrise"@, lower_name) || has_word(keywords, "sunrise"@) {
        Effect::Sunrise
    } else if is_infix("goodbye"@, lower_name) || has_word(keywords, "goodbye"@) {
        Effect::Goodbye
    } else if is_infix("fragment"@, lower_name) || is_infix("unknown"@, lower_name) {
        Effect::Fragment
    } else if is_infix("stabilizer"@, lower_name) || has_word(keywords, "stabilizer"@) {
        Effect::Stabilizer
    } else if is_infix("process handle"@, lower_name) || has_word(keywords, "stolen"@) {
        Effect::StolenHandle
    } else if is_infix("memory bus"@, lower_name) || has_word(keywords, "bus"@) {
        Effect::MemoryBus
    } else {
        Effect::Unknown
    }
}

/// Coherence an effect adds, in thousandths.
pub open spec fn gain_of(e: Effect) -> u32 {
    match e {
        Effect::Sunrise => 150,
        Effect::Goodbye => 200,
        Effect::Fragment => 250,
        Effect::Stabilizer => 300,
        Effect::StolenHandle => 100,
        Effect::MemoryBus => 50,
        Effect::Unknown => 0,
    }
}

/// The effect stops phasing.
pub open spec fn stops_phasing(e: Effect) -> bool {
    e == Effect::Fragment || e == Effect::Stabilizer
}

fn has_keyword_exactly(keywords: &Vec<String>, w: &str) -> (r: bool)
    ensures
        r == has_word(keywords@, w@),
{
    let mut k: usize = 0;
    while k < keywords.len()
        invariant
            k <= keywords@.len(),
            forall|j: int| 0 <= j < k ==> #[trigger] keywords@[j]@ != w@,
        decreases keywords@.len() - k,
    {
        if same_text(keywords[k].as_str(), w) {
            return true;
        }
        k = k + 1;
    }
    false
}

/// The effect of consuming an item with this name and these keywords.
pub fn consumable_effect(name: &str, keywords: &Vec<String>) -> (r: Effect)
    ensures
        r == effect_spec(lower_of(name@), keywords@),
{
    let lowered = lowercase(name);
    let n = lowered.as_str();
    if contains_text(n, "sunrise") || has_keyword_exactly(keywords, "sunrise") {
        Effect::Sunrise
    } else if contains_text(n, "goodbye") || has_keyword_exactly(keywords, "goodbye") {
        Effect::Goodbye
    } else if contains_text(n, "fragment") || contains_text(n, "unknown") {
        Effect::Fragment
    } else if contains_text(n, "stabilizer") || has_keyword_exactly(keywords, "stabilizer") {
        Effect::Stabilizer
    } else if contains_text(n, "process handle") || has_keyword_exactly(keywords, "stolen") {
        Effect::StolenHandle
    } else if contains_text(n, "memory bus") || has_keyword_exactly(keywords, "bus") {
        Effect::MemoryBus
    } else {
        Effect::Unknown
    }
}

/// `a` after an effect: coherence raised (capped at full), phasing stopped
/// by fragments and stabilizers, drift stopped by stabilizers.
pub open spec fn affected(a: Actor, e: Effect) -> Actor {
    let raised = a.coherence + gain_of(e);
    Actor {
        coherence: if raised > FULL_COHERENCE { FULL_COHERENCE } else { raised as u32 },
        phasing: if stops_phasing(e) { false } else { a.phasing },
        drift_rate: if e == Effect::Stabilizer { 0 } else { a.drift_rate },
        ..a
    }
}

/// What using an item came to.
#[derive(PartialEq, Eq, Structural, Debug, Clone, Copy)]
pub enum UseReport {
    NoActor,
    NotCarried,
    /// The item is not something one can consume.
    NotConsumable { item: u64 },
    /// The item is gone and its effect applied.
    Consumed { item: u64, effect: Effect },
}

/// What abiding came to.
#[derive(PartialEq, Eq, Structural, Debug, Clone, Copy)]
pub enum AbideReport {
    NoActor,
    /// Integrity was already at its peak.
    AlreadyWhole,
    /// Integrity rose to the given value.
    Restored { integrity: u32 },
}

/// What abiding by `id` leaves behind.
pub open spec fn abide_post(before: World, after: World, id: u64, r: AbideReport) -> bool {
    &&& (after.rooms@ == before.rooms@)
    &&& (after.items@ == before.items@)
    &&& (after.chains == before.chains)
    &&& (after.next_id == before.next_id)
    &&& (r is NoActor <==> no_actor(before.actors@, id))
    &&& (forall|i: int| first_actor(before.actors@, id, i) ==> {
                let a = before.actors@[i];
                if a.integrity >= a.max_integrity {
                    r is AlreadyWhole && after.actors@ == before.actors@
                } else {
                    let v = if a.integrity + ABIDE_GAIN > a.max_integrity {
                        a.max_integrity
                    } else {
                        (a.integrity + ABIDE_GAIN) as u32
                    };
                    r == AbideReport::Restored { integrity: v } && after.actors@
                        == before.actors@.update(i, Actor { integrity: v, ..a })
                }
            })
}

/// What using `keyword` by `id` leaves behind.
pub open spec fn use_post(before: World, after: World, id: u64, keyword: Seq<char>, r: UseReport) -> bool {
    &&& (after.rooms@ == before.rooms@)
    &&& (after.chains == before.chains)
    &&& (after.next_id == before.next_id)
    &&& (!(r is Consumed) ==> after.actors@ == before.actors@ && after.items@ == before.items@)
    &&& (r is NoActor <==> no_actor(before.actors@, id))
    &&& (forall|i: int| first_actor(before.actors@, id, i) ==> {
                let items = before.items@;
                if forall|j: int| 0 <= j < items.len() ==> !carried_match(items[j], id, keyword) {
                    r is NotCarried
                } else {
                    exists|k: int|
                        0 <= k < items.len() && carried_match(items[k], id, keyword) && (forall|j: int|
                            0 <= j < k ==> !carried_match(items[j], id, keyword)) && if items[k].item_type
                            != ItemType::Consumable && items[k].item_type != ItemType::Contraband {
                            r == UseReport::NotConsumable { item: items[k].id }
                        } else {
                            let e = effect_spec(lower_of(items[k].name@), items[k].keywords@);
                            &&& r == UseReport::Consumed { item: items[k].id, effect: e }
                            &&& after.items@ == items.remove(k)
                            &&& after.actors@ == before.actors@.update(i, affected(before.actors@[i], e))
                        }
                }
            })
}

impl World {
    /// Actor `id` consumes the first item it carries that matches `keyword`.
    pub fn use_item(&mut self, id: u64, keyword: &str) -> (r: UseReport)
        requires
            old(self).wf(),
        ensures
            final(self).wf(),
            use_post(*old(self), *final(self), id, keyword@, r),
    {
        let i = match self.find_actor(id) {
            None => return UseReport::NoActor,
            Some(i) => i,
        };
        proof {
            assert forall|i2: int| first_actor(old(self).actors@, id, i2) implies i2 == i by {
                lemma_first_actor_unique(old(self).actors@, id, i as int, i2);
            }
        }
        let mut k: usize = 0;
        while k < self.items.len()
            invariant
                k <= self.items@.len(),
                forall|j: int| 0 <= j < k ==> !carried_match(self.items@[j], id, keyword@),
            ensures
                k <= self.items@.len(),
                forall|j: int| 0 <= j < k ==> !carried_match(self.items@[j], id, keyword@),
                k < self.items@.len() ==> carried_match(self.items@[k as int], id, keyword@),
            decreases self.items@.len() - k,
        {
            let it = &self.items[k];
            if it.place == Place::CarriedBy(id) && matches_keywords(&it.keywords, it.name.as_str(), keyword) {
                break;
            }
            k = k + 1;
        }
        if k == self.items.len() {
            return UseReport::NotCarried;
        }
        let item = self.items[k].id;
        let t = self.items[k].item_type;
        if t != ItemType::Consumable && t != ItemType::Contraband {
            return UseReport::NotConsumable { item };
        }
        let effect = consumable_effect(self.items[k].name.as_str(), &self.items[k].keywords);
        let gain: u32 = match effect {
            Effect::Sunrise => 150,
            Effect::Goodbye => 200,
            Effect::Fragment => 250,
            Effect::Stabilizer => 300,
            Effect::StolenHandle => 100,
            Effect::MemoryBus => 50,
            Effect::Unknown => 0,
        };
        let current = self.actors[i].coherence;
        let raised: u32 = if current >= FULL_COHERENCE || FULL_COHERENCE - current <= gain {
            FULL_COHERENCE
        } else {
            current + gain
        };
        self.set_coherence(i, raised);
        if effect == Effect::Fragment || effect == Effect::Stabilizer {
            self.set_phasing(i, false);
        }
        if effect == Effect::Stabilizer {
            self.set_drift_rate(i, 0);
        }
        self.items.remove(k);
        proof {
            assert(self.actors@ =~= old(self).actors@.update(i as int, affected(old(self).actors@[i as int], effect)));
        }
        UseReport::Consumed { item, effect }
    }

    /// Actor `id` rests: integrity rises by a fixed step, up to its maximum.
    pub fn abide(&mut self, id: u64) -> (r: AbideReport)
        requires
            old(self).wf(),
        ensures
            final(self).wf(),
            abide_post(*old(self), *final(self), id, r),
    {
        let i = match self.find_actor(id) {
            None => return AbideReport::NoActor,
            Some(i) => i,
        };
        proof {
            assert forall|i2: int| first_actor(old(self).actors@, id, i2) implies i2 == i by {
                lemma_first_actor_unique(old(self).actors@, id, i as int, i2);
            }
        }
        let now = self.actors[i].integrity;
        let max = self.actors[i].max_integrity;
        if now >= max {
            return AbideReport::AlreadyWhole;
        }
        let v = if max - now < ABIDE_GAIN { max } else { now + ABIDE_GAIN };
        self.set_integrity(i, v);
        AbideReport::Restored { integrity: v }
    }
}

/// Coherence below which an entity is too faint to interact with.
pub const INTERACTION_FLOOR: u32 = 300;

/// The entity is solid enough to interact with.
pub fn is_coherent(coherence: u32) -> (r: bool)
    ensures
        r == (coherence >= INTERACTION_FLOOR),
{
    coherence >= INTERACTION_FLOOR
}

/// Coherence after drifting for `dt_ms` milliseconds at `drift_rate`
/// (thousandths per second), in the direction and measure of `roll`: a
/// uniform draw in [0, 2000) read as a factor in [-1, 1), the change
/// truncated toward zero. Kept in [0, 1000].
pub open spec fn drifted(value: u32, drift_rate: u32, roll: u32, dt_ms: u32) -> u32 {
    if roll >= 1000 {
        let up = (roll - 1000) * drift_rate * dt_ms / 1_000_000int;
        if value + up > FULL_COHERENCE { FULL_COHERENCE } else { (value + up) as u32 }
    } else {
        let down = (1000 - roll) * drift_rate * dt_ms / 1_000_000int;
        let lowered = if value > down { value - down } else { 0 };
        if lowered > FULL_COHERENCE { FULL_COHERENCE } else { lowered as u32 }
    }
}

/// Coherence after one drift step.
pub fn drift(value: u32, drift_rate: u32, roll: u32, dt_ms: u32) -> (r: u32)
    requires
        roll < 2000,
    ensures
        r == drifted(value, drift_rate, roll, dt_ms),
        r <= FULL_COHERENCE,
{
    let factor: u128 = if roll >= 1000 { (roll - 1000) as u128 } else { (1000 - roll) as u128 };
    let rate = drift_rate as u128;
    let dt = dt_ms as u128;
    assert(factor * rate <= 1000 * 0xffff_ffffu128) by (nonlinear_arith)
        requires
            factor <= 1000,
            rate <= 0xffff_ffff,
    ;
    let scaled: u128 = factor * rate;
    assert(scaled * dt <= 1000 * 0xffff_ffff * 0xffff_ffffu128) by (nonlinear_arith)
        requires
            scaled <= 1000 * 0xffff_ffffu128,
            dt <= 0xffff_ffff,
    ;
    let change: u128 = scaled * dt / 1_000_000;
    if roll >= 1000 {
        let up: u128 = (value as u128) + change;
        if up > FULL_COHERENCE as u128 { FULL_COHERENCE } else { up as u32 }
    } else {
        let lowered: u128 = if (value as u128) > change { (value as u128) - change } else { 0 };
        if lowered > FULL_COHERENCE as u128 { FULL_COHERENCE } else { lowered as u32 }
    }
}

/// What a phase tick told an entity.
#[derive(PartialEq, Eq, Structural, Debug, Clone, Copy)]
pub enum PhaseNotice {
    /// It fell below the interaction floor.
    Fading { id: u64 },
    /// It rose back above it.
    Solid { id: u64 },
}

impl World {
    /// One drift step of `dt_ms` milliseconds for every phasing actor, with a
    /// fresh roll each; returns the actors that crossed the interaction floor.
    pub fn phase_tick(&mut self, dt_ms: u32) -> (r: Vec<PhaseNotice>)
        requires
            old(self).wf(),
        ensures
            final(self).wf(),
            final(self).rooms@ == old(self).rooms@,
            final(self).items@ == old(self).items@,
            final(self).chains == old(self).chains,
            final(self).next_id == old(self).next_id,
            final(self).actors@.len() == old(self).actors@.len(),
            forall|x: int| 0 <= x < old(self).actors@.len() ==> {
                let a = #[trigger] old(self).actors@[x];
                &&& final(self).actors@[x] == Actor { coherence: final(self).actors@[x].coherence, ..a }
                &&& !a.phasing ==> final(self).actors@[x].coherence == a.coherence
            },
    {
        let mut notices: Vec<PhaseNotice> = Vec::new();
        let n = self.actors.len();
        let mut k: usize = 0;
        while k < n
            invariant
                self.wf(),
                n == old(self).actors@.len(),
                self.actors@.len() == n,
                k <= n,
                self.rooms@ == old(self).rooms@,
                self.items@ == old(self).items@,
                self.chains == old(self).chains,
                self.next_id == old(self).next_id,
                forall|x: int| 0 <= x < n ==> {
                    let a = #[trigger] old(self).actors@[x];
                    &&& self.actors@[x] == Actor { coherence: self.actors@[x].coherence, ..a }
                    &&& (!a.phasing || x >= k) ==> self.actors@[x].coherence == a.coherence
                },
            decreases n - k,
        {
            if self.actors[k].phasing {
                let before = self.actors[k].coherence;
                let roll = crate::rng::roll_below(2000);
                let after = drift(before, self.actors[k].drift_rate, roll, dt_ms);
                self.set_coherence(k, after);
                let id = self.actors[k].id;
                if before >= INTERACTION_FLOOR && after < INTERACTION_FLOOR {
                    notices.push(PhaseNotice::Fading { id });
                } else if before < INTERACTION_FLOOR && after >= INTERACTION_FLOOR {
                    notices.push(PhaseNotice::Solid { id });
                }
            }
            k = k + 1;
        }
        notices
    }
}

} // verus!
