//! The combat system: attacks, flight, stances and the lapse of cycle locks.
use vstd::prelude::*;

use crate::combat::{
    apply_damage, attack_spec, resolve_attack, AttackOutcome, AttackRolls, CombatStance,
};
use crate::lock::{expiry_after, CycleLock, ATTACK_LOCK_MS, FLEE_LOCK_MS};
use crate::rng::roll_below;
use crate::world::{
    first_actor, first_room, is_target, lemma_first_actor_unique, lemma_first_room_unique, no_actor,
    no_room, Actor, Direction, InCombat, World,
};

verus! {

/// Chance that a flight succeeds, in thousandths.
pub const FLEE_CHANCE: u32 = 600;

/// What an attack came to.
#[derive(PartialEq, Eq, Structural, Debug, Clone, Copy)]
pub enum AttackReport {
    /// No actor has the attacker's id.
    NoAttacker,
    /// The attacker's cycle lock is in force; milliseconds left.
    Locked { remaining: u64 },
    /// No one of that name stands in the attacker's room.
    NoTarget,
    /// The blow was struck at `target`, which is left with `integrity_left`
    /// integrity; `defeated` when that reached zero.
    /// The fight state of a defeated target is cleared.
    Struck { target: u64, outcome: AttackOutcome, integrity_left: u32, defeated: bool },
}

/// The fight state an actor takes on when a blow involves it: kept if it
/// was fighting already, else a fresh fight against `opponent`.
pub open spec fn engaged(c: Option<InCombat>, opponent: u64) -> Option<InCombat> {
    match c {
        Some(x) => Some(x),
        None => Some(InCombat { opponent, rounds_fought: 1, stance: CombatStance::Balanced }),
    }
}

/// The lock of `a` is in force at `now`.
pub open spec fn locked_now(a: Actor, now: u64) -> bool {
    a.lock matches Some(l) && l.locked_at(now)
}

/// What an attack by the actor at `i` on the actor at `t` leaves behind.
pub open spec fn struck_post(
    before: Seq<Actor>,
    after: Seq<Actor>,
    i: int,
    t: int,
    now: u64,
    rolls: AttackRolls,
    r: AttackReport,
) -> bool {
    let a = before[i];
    let d = before[t];
    let outcome = attack_spec(a.stats, d.stats, a.client_type, rolls);
    let remaining = if outcome.miss {
        d.integrity
    } else if outcome.damage >= d.integrity {
        0
    } else {
        (d.integrity - outcome.damage) as u32
    };
    let defeated = remaining == 0;
    &&& r == AttackReport::Struck { target: d.id, outcome, integrity_left: remaining, defeated }
    &&& after.len() == before.len()
    &&& forall|x: int| 0 <= x < before.len() && x != i && x != t ==> after[x] == before[x]
    &&& after[t] == Actor {
        integrity: remaining,
        combat: if defeated { None } else { engaged(d.combat, a.id) },
        ..d
    }
    &&& after[i] == Actor { combat: engaged(a.combat, d.id), lock: after[i].lock, ..a }
    &&& after[i].lock matches Some(l) && l.expires_at == expiry_after(now, ATTACK_LOCK_MS)
        && l.action_name@ == "attack"@
}

/// What a flight of the actor at `i` came to.
#[derive(PartialEq, Eq, Structural, Debug, Clone, Copy)]
pub enum FleeReport {
    NoActor,
    NotInCombat,
    Locked { remaining: u64 },
    /// The opponent blocked the way; a short lock follows.
    Blocked,
    /// The room has no exit to run through.
    Nowhere,
    /// The actor broke off the fight, running toward `direction`. It is not
    /// moved by this: the flight ends the fight only.
    Fled { direction: Direction },
}

/// The directions in which `e` has an exit, in the order north, south, east,
/// west, up, down.
pub open spec fn open_directions(e: crate::world::Exits) -> Seq<Direction> {
    let n = if e.north is Some { seq![Direction::North] } else { Seq::empty() };
    let s = if e.south is Some { seq![Direction::South] } else { Seq::empty() };
    let ea = if e.east is Some { seq![Direction::East] } else { Seq::empty() };
    let w = if e.west is Some { seq![Direction::West] } else { Seq::empty() };
    let u = if e.up is Some { seq![Direction::Up] } else { Seq::empty() };
    let d = if e.down is Some { seq![Direction::Down] } else { Seq::empty() };
    n + s + ea + w + u + d
}

/// The directions in which `e` has an exit.
pub fn open_exits(e: &crate::world::Exits) -> (r: Vec<Direction>)
    ensures
        r@ == open_directions(*e),
{
    let mut v: Vec<Direction> = Vec::new();
    if e.north.is_some() {
        v.push(Direction::North);
    }
    if e.south.is_some() {
        v.push(Direction::South);
    }
    if e.east.is_some() {
        v.push(Direction::East);
    }
    if e.west.is_some() {
        v.push(Direction::West);
    }
    if e.up.is_some() {
        v.push(Direction::Up);
    }
    if e.down.is_some() {
        v.push(Direction::Down);
    }
    assert(v@ =~= open_directions(*e));
    v
}

/// What an attack by `attacker` on `target_name` at `now` with `rolls` leaves behind.
pub open spec fn attack_post(before: World, after: World, attacker: u64, target_name: Seq<char>, now: u64, rolls: AttackRolls, r: AttackReport) -> bool {
    &&& (after.rooms@ == before.rooms@)
    &&& (after.items@ == before.items@)
    &&& (after.chains == before.chains)
    &&& (after.next_id == before.next_id)
    &&& (!(r is Struck) ==> after.actors@ == before.actors@)
    &&& (r is NoAttacker <==> no_actor(before.actors@, attacker))
    &&& (forall|i: int| first_actor(before.actors@, attacker, i) ==> {
                let a = before.actors@[i];
                if locked_now(a, now) {
                    r == AttackReport::Locked { remaining: (a.lock.unwrap().expires_at - now) as u64 }
                } else {
                    !(r is Locked) && !(r is NoAttacker) && (r is NoTarget <==> forall|j: int| 0 <= j < before.actors@.len() ==> !is_target(
                        before.actors@,
                        j,
                        a.room,
                        target_name,
                        attacker,
                    )) && (r is Struck ==> exists|t: int|
                        0 <= t < before.actors@.len() && is_target(before.actors@, t, a.room, target_name, attacker)
                            && (forall|j: int| 0 <= j < t ==> !is_target(before.actors@, j, a.room, target_name, attacker))
                            && struck_post(before.actors@, after.actors@, i, t, now, rolls, r))
                }
            })
}

/// What a flight of actor `id` at `now` with `roll` and `pick` leaves behind.
pub open spec fn flee_post(before: World, after: World, id: u64, now: u64, roll: u32, pick: u32, r: FleeReport) -> bool {
    &&& (after.rooms@ == before.rooms@)
    &&& (after.items@ == before.items@)
    &&& (after.chains == before.chains)
    &&& (after.next_id == before.next_id)
    &&& (r is NoActor <==> no_actor(before.actors@, id))
    &&& (forall|i: int| first_actor(before.actors@, id, i) ==> {
                let a = before.actors@[i];
                if a.combat is None {
                    r is NotInCombat && after.actors@ == before.actors@
                } else if locked_now(a, now) {
                    r == FleeReport::Locked { remaining: (a.lock.unwrap().expires_at - now) as u64 }
                        && after.actors@ == before.actors@
                } else if roll > FLEE_CHANCE {
                    &&& r is Blocked
                    &&& after.actors@.len() == before.actors@.len()
                    &&& forall|x: int| 0 <= x < before.actors@.len() && x != i ==> after.actors@[x] == before.actors@[x]
                    &&& after.actors@[i] == Actor { lock: after.actors@[i].lock, ..a }
                    &&& after.actors@[i].lock matches Some(l) && l.expires_at == expiry_after(now, FLEE_LOCK_MS)
                        && l.action_name@ == "flee attempt"@
                } else if no_room(before.rooms@, a.room) {
                    r is Nowhere && after.actors@ == before.actors@
                } else {
                    forall|q: int| first_room(before.rooms@, a.room, q) ==> {
                        let open = open_directions(before.rooms@[q].exits);
                        if open.len() == 0 {
                            r is Nowhere && after.actors@ == before.actors@
                        } else {
                            r == FleeReport::Fled { direction: open[pick as int % open.len() as int] }
                                && after.actors@ == before.actors@.update(i, Actor { combat: None, ..a })
                        }
                    }
                }
            })
}

/// What taking up `stance` by `id` leaves behind.
pub open spec fn stance_post(before: World, after: World, id: u64, stance: CombatStance, r: Option<bool>) -> bool {
    &&& (after.rooms@ == before.rooms@)
    &&& (after.items@ == before.items@)
    &&& (after.chains == before.chains)
    &&& (after.next_id == before.next_id)
    &&& (r is None <==> no_actor(before.actors@, id))
    &&& (forall|i: int| first_actor(before.actors@, id, i) ==> {
                let a = before.actors@[i];
                match a.combat {
                    None => r == Some(false) && after.actors@ == before.actors@,
                    Some(c) => r == Some(true) && after.actors@ == before.actors@.update(
                        i,
                        Actor { combat: Some(InCombat { stance, ..c }), ..a },
                    ),
                }
            })
}

impl World {
    /// Actor `attacker` strikes the first other actor in its room whose name
    /// holds `target_name`, at time `now`, with the given rolls.
    pub fn attack_with(&mut self, attacker: u64, target_name: &str, now: u64, rolls: AttackRolls) -> (r:
        AttackReport)
        requires
            old(self).wf(),
            rolls.wf(),
        ensures
            final(self).wf(),
            attack_post(*old(self), *final(self), attacker, target_name@, now, rolls, r),
    {
        let i = match self.find_actor(attacker) {
            None => return AttackReport::NoAttacker,
            Some(i) => i,
        };
        proof {
            assert forall|i2: int| first_actor(old(self).actors@, attacker, i2) implies i2 == i by {
                lemma_first_actor_unique(old(self).actors@, attacker, i as int, i2);
            }
        }
        if let Some(l) = &self.actors[i].lock {
            if l.is_locked(now) {
                return AttackReport::Locked { remaining: l.remaining(now) };
            }
        }
        let room = self.actors[i].room;
        let t = match self.find_target(room, target_name, attacker) {
            None => return AttackReport::NoTarget,
            Some(t) => t,
        };
        assert(self.actors@[t as int].id != attacker);
        self.strike(i, t, now, rolls)
    }

    /// The actor at `i` strikes the actor at `t`.
    #[verifier::rlimit(60)]
    fn strike(&mut self, i: usize, t: usize, now: u64, rolls: AttackRolls) -> (r: AttackReport)
        requires
            old(self).wf(),
            rolls.wf(),
            i < old(self).actors@.len(),
            t < old(self).actors@.len(),
            i != t,
        ensures
            final(self).wf(),
            final(self).rooms@ == old(self).rooms@,
            final(self).items@ == old(self).items@,
            final(self).chains == old(self).chains,
            final(self).next_id == old(self).next_id,
            struck_post(old(self).actors@, final(self).actors@, i as int, t as int, now, rolls, r),
    {
        let attacker = self.actors[i].id;
        let outcome = resolve_attack(&self.actors[i].stats, &self.actors[t].stats, self.actors[i].client_type, rolls);
        let target_id = self.actors[t].id;
        let remaining = if outcome.miss {
            self.actors[t].integrity
        } else {
            apply_damage(self.actors[t].integrity, outcome.damage)
        };
        let defeated = remaining == 0;
        let a_combat = self.actors[i].combat;
        let t_combat = self.actors[t].combat;
        self.set_integrity(t, remaining);
        let new_a_combat = match a_combat {
            Some(c) => Some(c),
            None => Some(InCombat { opponent: target_id, rounds_fought: 1, stance: CombatStance::Balanced }),
        };
        self.set_combat(i, new_a_combat);
        let new_t_combat = if defeated {
            None
        } else {
            match t_combat {
                Some(c) => Some(c),
                None => Some(InCombat { opponent: attacker, rounds_fought: 1, stance: CombatStance::Balanced }),
            }
        };
        self.set_combat(t, new_t_combat);
        let lock = CycleLock::new(ATTACK_LOCK_MS, "attack", now);
        self.set_lock(i, Some(lock));
        AttackReport::Struck { target: target_id, outcome, integrity_left: remaining, defeated }
    }

    /// Actor `attacker` strikes a target, with fresh rolls.
    pub fn attack(&mut self, attacker: u64, target_name: &str, now: u64) -> (r: AttackReport)
        requires
            old(self).wf(),
        ensures
            final(self).wf(),
            final(self).next_id == old(self).next_id,
            final(self).rooms@ == old(self).rooms@,
            final(self).items@ == old(self).items@,
            final(self).chains == old(self).chains,
            r is NoAttacker <==> no_actor(old(self).actors@, attacker),
            exists|rolls: AttackRolls| rolls.wf() && attack_post(*old(self), *final(self), attacker, target_name@, now, rolls, r),
    {
        let rolls = AttackRolls { hit: roll_below(1000), spread: roll_below(1000), crit: roll_below(1000) };
        let r = self.attack_with(attacker, target_name, now, rolls);
        assert(rolls.wf() && attack_post(*old(self), *self, attacker, target_name@, now, rolls, r));
        r
    }

    /// Actor `id` tries to break off its fight at time `now`; the flight
    /// succeeds when `roll` (in thousandths) is at most the flee chance, and
    /// `pick` chooses among the open exits.
    pub fn flee_with(&mut self, id: u64, now: u64, roll: u32, pick: u32) -> (r: FleeReport)
        requires
            old(self).wf(),
        ensures
            final(self).wf(),
            flee_post(*old(self), *final(self), id, now, roll, pick, r),
    {
        let i = match self.find_actor(id) {
            None => return FleeReport::NoActor,
            Some(i) => i,
        };
        proof {
            assert forall|i2: int| first_actor(old(self).actors@, id, i2) implies i2 == i by {
                lemma_first_actor_unique(old(self).actors@, id, i as int, i2);
            }
        }
        if self.actors[i].combat.is_none() {
            return FleeReport::NotInCombat;
        }
        if let Some(l) = &self.actors[i].lock {
            if l.is_locked(now) {
                return FleeReport::Locked { remaining: l.remaining(now) };
            }
        }
        if roll > FLEE_CHANCE {
            let lock = CycleLock::new(FLEE_LOCK_MS, "flee attempt", now);
            self.set_lock(i, Some(lock));
            return FleeReport::Blocked;
        }
        let q = match self.find_room(self.actors[i].room) {
            None => return FleeReport::Nowhere,
            Some(q) => q,
        };
        proof {
            assert forall|q2: int| first_room(old(self).rooms@, old(self).actors@[i as int].room, q2) implies q2 == q by {
                lemma_first_room_unique(old(self).rooms@, old(self).actors@[i as int].room, q as int, q2);
            }
        }
        let open = open_exits(&self.rooms[q].exits);
        if open.len() == 0 {
            return FleeReport::Nowhere;
        }
        let direction = open[(pick as usize) % open.len()];
        self.set_combat(i, None);
        FleeReport::Fled { direction }
    }

    /// Actor `id` tries to flee, with fresh rolls.
    pub fn flee(&mut self, id: u64, now: u64) -> (r: FleeReport)
        requires
            old(self).wf(),
        ensures
            final(self).wf(),
            final(self).next_id == old(self).next_id,
            final(self).rooms@ == old(self).rooms@,
            final(self).chains == old(self).chains,
            r is NoActor <==> no_actor(old(self).actors@, id),
            exists|roll: u32, pick: u32| roll < 1000 && pick < 6 && flee_post(*old(self), *final(self), id, now, roll, pick, r),
    {
        let roll = roll_below(1000);
        let pick = roll_below(6);
        let r = self.flee_with(id, now, roll, pick);
        assert(roll < 1000 && pick < 6 && flee_post(*old(self), *self, id, now, roll, pick, r));
        r
    }

    /// Actor `id` takes up `stance`; returns whether it was fighting, the
    /// only time a stance takes hold.
    pub fn set_stance(&mut self, id: u64, stance: CombatStance) -> (r: Option<bool>)
        requires
            old(self).wf(),
        ensures
            final(self).wf(),
            stance_post(*old(self), *final(self), id, stance, r),
    {
        let i = match self.find_actor(id) {
            None => return None,
            Some(i) => i,
        };
        proof {
            assert forall|i2: int| first_actor(old(self).actors@, id, i2) implies i2 == i by {
                lemma_first_actor_unique(old(self).actors@, id, i as int, i2);
            }
        }
        match self.actors[i].combat {
            None => Some(false),
            Some(c) => {
                self.set_combat(i, Some(InCombat { stance, ..c }));
                Some(true)
            },
        }
    }

    /// Removes every cycle lock that is no longer in force at `now`.
    pub fn clear_expired_locks(&mut self, now: u64)
        requires
            old(self).wf(),
        ensures
            final(self).wf(),
            final(self).rooms@ == old(self).rooms@,
            final(self).items@ == old(self).items@,
            final(self).chains == old(self).chains,
            final(self).next_id == old(self).next_id,
            final(self).actors@.len() == old(self).actors@.len(),
            forall|x: int| 0 <= x < old(self).actors@.len() ==> {
                let a = #[trigger] old(self).actors@[x];
                final(self).actors@[x] == if a.lock is Some && !locked_now(a, now) {
                    Actor { lock: None, ..a }
                } else {
                    a
                }
            },
    {
        let n = self.actors.len();
        let mut k: usize = 0;
        while k < n
            invariant
                self.wf(),
                n == old(self).actors@.len(),
                k <= n,
                self.actors@.len() == n,
                self.rooms@ == old(self).rooms@,
                self.items@ == old(self).items@,
                self.chains == old(self).chains,
                self.next_id == old(self).next_id,
                forall|x: int| 0 <= x < k ==> {
                    let a = #[trigger] old(self).actors@[x];
                    self.actors@[x] == if a.lock is Some && !locked_now(a, now) {
                        Actor { lock: None, ..a }
                    } else {
                        a
                    }
                },
                forall|x: int| k <= x < n ==> self.actors@[x] == #[trigger] old(self).actors@[x],
            decreases n - k,
        {
            let expired = match &self.actors[k].lock {
                Some(l) => !l.is_locked(now),
                None => false,
            };
            if expired {
                self.set_lock(k, None);
            }
            k = k + 1;
        }
    }
}

} // verus!
