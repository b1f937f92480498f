//! The restraint system: binding by name, release, struggle, and the
//! cleanup of bindings when an actor leaves the world.
use vstd::prelude::*;

use crate::chains::{ChainLink, StruggleOutcome, DEFAULT_CHAIN_STRENGTH};
use crate::rng::roll_below;
use crate::world::{first_actor, is_target, lemma_first_actor_unique, no_actor, Actor, World};

verus! {

/// What a binding attempt came to.
#[derive(PartialEq, Eq, Structural, Debug, Clone, Copy)]
pub enum ChainReport {
    NoHolder,
    /// The holder already holds someone.
    AlreadyHolding,
    /// No one of that name stands in the holder's room.
    NoTarget,
    /// The one found is held by another already.
    AlreadyBound { target: u64 },
    /// The one found is now held.
    Bound { target: u64 },
}

/// What a release came to.
#[derive(PartialEq, Eq, Structural, Debug, Clone, Copy)]
pub enum ReleaseReport {
    /// The actor held no one.
    NotHolding,
    /// The binding ended; `present` says whether the freed actor still exists.
    Released { bound: u64, present: bool },
}

/// What a struggle of `bound` at `now` with `roll` leaves behind.
pub open spec fn struggle_world_post(before: World, after: World, bound: u64, now: u64, roll: u32, r: StruggleOutcome) -> bool {
    &&& (after.actors@ == before.actors@)
    &&& (after.rooms@ == before.rooms@)
    &&& (after.items@ == before.items@)
    &&& (after.next_id == before.next_id)
    &&& (!before.chains.is_bound(bound) ==> r is NotBound && after.chains.links@ == before.chains.links@)
    &&& (before.chains.is_bound(bound) ==> exists|i: int|
                0 <= i < before.chains.links@.len() && before.chains.links@[i].bound == bound
                    && crate::chains::struggle_post(
                    before.chains.links@,
                    after.chains.links@,
                    i,
                    now,
                    roll,
                    !no_actor(before.actors@, before.chains.links@[i].holder),
                    r,
                ))
}

/// What a binding attempt by `holder` on `target_name` leaves behind.
pub open spec fn chain_post(before: World, after: World, holder: u64, target_name: Seq<char>, r: ChainReport) -> bool {
    &&& (after.actors@ == before.actors@)
    &&& (after.rooms@ == before.rooms@)
    &&& (after.items@ == before.items@)
    &&& (after.next_id == before.next_id)
    &&& (!(r is Bound) ==> after.chains.links@ == before.chains.links@)
    &&& (r is NoHolder <==> no_actor(before.actors@, holder))
    &&& (forall|i: int| first_actor(before.actors@, holder, i) ==> {
                let room = before.actors@[i].room;
                if before.chains.is_holder(holder) {
                    r is AlreadyHolding
                } else if forall|j: int| 0 <= j < before.actors@.len() ==> !is_target(
                    before.actors@,
                    j,
                    room,
                    target_name,
                    holder,
                ) {
                    r is NoTarget
                } else {
                    exists|t: int|
                        0 <= t < before.actors@.len() && is_target(before.actors@, t, room, target_name, holder)
                            && (forall|j: int| 0 <= j < t ==> !is_target(before.actors@, j, room, target_name, holder))
                            && if before.chains.is_bound(before.actors@[t].id) {
                            r == ChainReport::AlreadyBound { target: before.actors@[t].id }
                        } else {
                            r == ChainReport::Bound { target: before.actors@[t].id }
                                && after.chains.links@ == before.chains.links@.push(
                                ChainLink {
                                    holder,
                                    bound: before.actors@[t].id,
                                    strength: DEFAULT_CHAIN_STRENGTH,
                                    attempts: 0,
                                    last_attempt: 0,
                                },
                            )
                        }
                }
            })
}

/// What a release by `holder` leaves behind.
pub open spec fn release_post(before: World, after: World, holder: u64, r: ReleaseReport) -> bool {
    &&& (after.actors@ == before.actors@)
    &&& (after.rooms@ == before.rooms@)
    &&& (after.items@ == before.items@)
    &&& (after.next_id == before.next_id)
    &&& (r is NotHolding <==> !before.chains.is_holder(holder))
    &&& (r is NotHolding ==> after.chains.links@ == before.chains.links@)
    &&& (r matches ReleaseReport::Released { bound, present } ==> before.chains.holds(holder, bound)
                && present == !no_actor(before.actors@, bound) && !after.chains.is_holder(holder)
                && !after.chains.is_bound(bound))
    &&& (forall|h: u64, b: u64|
                #![trigger after.chains.holds(h, b)]
                h != holder ==> (after.chains.holds(h, b) <==> before.chains.holds(h, b)))
}

impl World {
    /// Actor `holder` binds the first other actor in its room whose name
    /// holds `target_name`.
    pub fn chain_target(&mut self, holder: u64, target_name: &str) -> (r: ChainReport)
        requires
            old(self).wf(),
        ensures
            final(self).wf(),
            chain_post(*old(self), *final(self), holder, target_name@, r),
    {
        let i = match self.find_actor(holder) {
            None => return ChainReport::NoHolder,
            Some(i) => i,
        };
        proof {
            assert forall|i2: int| first_actor(old(self).actors@, holder, i2) implies i2 == i by {
                lemma_first_actor_unique(old(self).actors@, holder, i as int, i2);
            }
        }
        if self.chains.link_of_holder(holder).is_some() {
            return ChainReport::AlreadyHolding;
        }
        let t = match self.find_target(self.actors[i].room, target_name, holder) {
            None => return ChainReport::NoTarget,
            Some(t) => t,
        };
        let target = self.actors[t].id;
        match self.chains.bind(holder, target) {
            Ok(()) => ChainReport::Bound { target },
            Err(_) => ChainReport::AlreadyBound { target },
        }
    }

    /// Actor `holder` lets go of the one it holds.
    pub fn release_chain(&mut self, holder: u64) -> (r: ReleaseReport)
        requires
            old(self).wf(),
        ensures
            final(self).wf(),
            release_post(*old(self), *final(self), holder, r),
    {
        let ghost o = self.chains;
        match self.chains.release(holder) {
            None => ReleaseReport::NotHolding,
            Some(l) => {
                let present = self.find_actor(l.bound).is_some();
                proof {
                    let k = choose|k: int| 0 <= k < o.links@.len() && o.links@[k] == l && self.chains.links@ == o.links@.remove(k);
                    assert(o.links@[k].holder == holder && o.links@[k].bound == l.bound);
                    assert(o.holds(holder, l.bound));
                    crate::chains::lemma_remove_wf(o.links@, k);
                    let n = self.chains.links@;
                    assert forall|x: int| 0 <= x < n.len() implies #[trigger] n[x].bound != l.bound by {
                        let ox = if x < k { x } else { x + 1 };
                        assert(n[x] == o.links@[ox]);
                        assert(o.links@[ox].bound != o.links@[k].bound);
                    }
                }
                ReleaseReport::Released { bound: l.bound, present }
            },
        }
    }

    /// Actor `bound` struggles against its chains at time `now` with `roll`
    /// (in thousandths).
    pub fn struggle_with(&mut self, bound: u64, now: u64, roll: u32) -> (r: StruggleOutcome)
        requires
            old(self).wf(),
        ensures
            final(self).wf(),
            struggle_world_post(*old(self), *final(self), bound, now, roll, r),
    {
        let present = match self.chains.link_of_bound(bound) {
            None => false,
            Some(c) => self.find_actor(self.chains.links[c].holder).is_some(),
        };
        proof {
            assert forall|i: int|
                0 <= i < self.chains.links@.len() && #[trigger] self.chains.links@[i].bound == bound implies present
                == !no_actor(self.actors@, self.chains.links@[i].holder) by {
                let c = choose|c: int| 0 <= c < self.chains.links@.len() && #[trigger] self.chains.links@[c].bound == bound;
                assert(self.chains.links@[c].bound == bound);
                if i != c {
                    assert(self.chains.links@[i].bound != self.chains.links@[c].bound);
                }
            }
        }
        self.chains.struggle(bound, now, roll, present)
    }

    /// Actor `bound` struggles, with a fresh roll.
    pub fn struggle(&mut self, bound: u64, now: u64) -> (r: StruggleOutcome)
        requires
            old(self).wf(),
        ensures
            final(self).wf(),
            final(self).rooms@ == old(self).rooms@,
            final(self).next_id == old(self).next_id,
            final(self).actors@ == old(self).actors@,
            !old(self).chains.is_bound(bound) ==> r is NotBound,
            exists|roll: u32| roll < 1000 && struggle_world_post(*old(self), *final(self), bound, now, roll, r),
    {
        let roll = roll_below(1000);
        let r = self.struggle_with(bound, now, roll);
        assert(roll < 1000 && struggle_world_post(*old(self), *self, bound, now, roll, r));
        r
    }

    /// Takes actor `id` out of the world, with every binding it took part in;
    /// returns it, if it was there.
    pub fn remove_actor(&mut self, id: u64) -> (r: Option<Actor>)
        requires
            old(self).wf(),
        ensures
            final(self).wf(),
            final(self).rooms@ == old(self).rooms@,
            final(self).items@ == old(self).items@,
            final(self).next_id == old(self).next_id,
            r is None <==> no_actor(old(self).actors@, id),
            forall|i: int| first_actor(old(self).actors@, id, i) ==> r == Some(old(self).actors@[i])
                && final(self).actors@ == old(self).actors@.remove(i),
            r is None ==> final(self).actors@ == old(self).actors@,
            !final(self).chains.is_holder(id),
            !final(self).chains.is_bound(id),
            forall|h: u64, b: u64|
                #![trigger final(self).chains.holds(h, b)]
                final(self).chains.holds(h, b) <==> old(self).chains.holds(h, b) && h != id && b != id,
    {
        self.chains.forget(id);
        match self.find_actor(id) {
            None => None,
            Some(i) => {
                proof {
                    assert forall|i2: int| first_actor(old(self).actors@, id, i2) implies i2 == i by {
                        lemma_first_actor_unique(old(self).actors@, id, i as int, i2);
                    }
                }
                let a = self.actors.remove(i);
                proof {
                    assert forall|x: int| 0 <= x < self.actors@.len() implies (#[trigger] self.actors@[x]).stats.wf() by {
                        let ox = if x < i { x } else { x + 1 };
                        assert(self.actors@[x] == old(self).actors@[ox]);
                    }
                }
                Some(a)
            },
        }
    }
}

/// In a well-formed world no entity is held by two holders, no holder holds
/// two entities, and every held entity's holder holds it: the two sides of a
/// binding always come as a pair.
pub proof fn lemma_world_restraint_exclusive(w: World)
    requires
        w.wf(),
    ensures
        forall|h1: u64, h2: u64, b: u64| w.chains.holds(h1, b) && w.chains.holds(h2, b) ==> h1 == h2,
        forall|h: u64, b1: u64, b2: u64| w.chains.holds(h, b1) && w.chains.holds(h, b2) ==> b1 == b2,
        forall|h: u64, b: u64| w.chains.holds(h, b) ==> w.chains.is_holder(h) && w.chains.is_bound(b) && h != b,
{
    assert forall|h1: u64, h2: u64, b: u64| w.chains.holds(h1, b) && w.chains.holds(h2, b) implies h1 == h2 by {
        crate::chains::lemma_restraint_exclusive(w.chains, h1, h2, b, b);
    }
    assert forall|h: u64, b1: u64, b2: u64| w.chains.holds(h, b1) && w.chains.holds(h, b2) implies b1 == b2 by {
        crate::chains::lemma_restraint_exclusive(w.chains, h, h, b1, b2);
    }
    assert forall|h: u64, b: u64| w.chains.holds(h, b) implies w.chains.is_holder(h) && w.chains.is_bound(b) && h != b by {
        crate::chains::lemma_restraint_exclusive(w.chains, h, h, b, b);
    }
}

} // verus!
