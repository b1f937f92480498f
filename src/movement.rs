//! Movement along room exits, with a held entity dragged behind its holder.
use vstd::prelude::*;

use crate::world::{
    first_actor, first_room, lemma_first_actor_unique, lemma_first_room_unique, no_actor, no_room,
    Actor, Direction, World,
};

verus! {

/// What a move attempt came to.
#[derive(PartialEq, Eq, Structural, Debug, Clone, Copy)]
pub enum MoveOutcome {
    /// No actor has that id.
    NoActor,
    /// The actor is held by `holder`, who alone decides where it goes.
    Held { holder: u64 },
    /// The actor's room is unknown.
    NoRoom,
    /// No exit leads that way.
    NoExit,
    /// The actor went to room `to`, dragging `dragged` along if it held one.
    Moved { to: u64, dragged: Option<u64> },
}

/// `a` moved to room `to`, all else kept.
pub open spec fn relocated(a: Actor, to: u64) -> Actor {
    Actor { room: to, ..a }
}

/// What a move attempt by `id` toward `d` leaves behind.
pub open spec fn move_post(before: World, after: World, id: u64, d: Direction, r: MoveOutcome) -> bool {
    &&& (after.rooms@ == before.rooms@)
    &&& (after.items@ == before.items@)
    &&& (after.chains == before.chains)
    &&& (after.next_id == before.next_id)
    &&& (!(r is Moved) ==> after.actors@ == before.actors@)
    &&& (after.actors@.len() == before.actors@.len())
    &&& (forall|x: int| 0 <= x < before.actors@.len() ==> #[trigger] after.actors@[x] == Actor {
        room: after.actors@[x].room,
        ..before.actors@[x]
    })
    &&& (r is NoActor <==> no_actor(before.actors@, id))
    &&& (forall|k: int| first_actor(before.actors@, id, k) ==> {
                let a = before.actors@[k];
                if before.chains.is_bound(id) {
                    r matches MoveOutcome::Held { holder } && before.chains.holds(holder, id)
                } else if no_room(before.rooms@, a.room) {
                    r is NoRoom
                } else {
                    forall|q: int| first_room(before.rooms@, a.room, q) ==> {
                        match before.rooms@[q].exits.toward_spec(d) {
                            None => r is NoExit,
                            Some(to) => moved_post(before, after, id, k, to, r),
                        }
                    }
                }
            })
}

impl World {
    /// Sets the room of the actor at `k`.
    pub(crate) fn set_room(&mut self, k: usize, to: u64)
        requires
            old(self).wf(),
            k < old(self).actors@.len(),
        ensures
            final(self).wf(),
            final(self).actors@ == old(self).actors@.update(k as int, relocated(old(self).actors@[k as int], to)),
            final(self).rooms@ == old(self).rooms@,
            final(self).items@ == old(self).items@,
            final(self).chains == old(self).chains,
            final(self).next_id == old(self).next_id,
    {
        self.actors[k].room = to;
        proof {
            assert(self.actors@ =~= old(self).actors@.update(k as int, relocated(old(self).actors@[k as int], to)));
            assert forall|i: int| 0 <= i < self.actors@.len() implies (#[trigger] self.actors@[i]).stats.wf() by {
                assert(self.actors@[i].stats == old(self).actors@[i].stats);
            }
        }
    }

    /// Actor `id` tries to move in direction `d`.
    ///
    /// An actor held in chains does not move by itself: its attempt is
    /// refused and only its holder's moves relocate it. When a holder moves,
    /// the actor it holds lands in the same room at once.
    pub fn move_actor(&mut self, id: u64, d: Direction) -> (r: MoveOutcome)
        requires
            old(self).wf(),
        ensures
            final(self).wf(),
            move_post(*old(self), *final(self), id, d, r),
    {
        let k = match self.find_actor(id) {
            None => return MoveOutcome::NoActor,
            Some(k) => k,
        };
        proof {
            assert forall|k2: int| first_actor(old(self).actors@, id, k2) implies k2 == k by {
                lemma_first_actor_unique(old(self).actors@, id, k as int, k2);
            }
        }
        if let Some(c) = self.chains.link_of_bound(id) {
            let holder = self.chains.links[c].holder;
            assert(self.chains.holds(holder, id));
            return MoveOutcome::Held { holder };
        }
        let q = match self.find_room(self.actors[k].room) {
            None => return MoveOutcome::NoRoom,
            Some(q) => q,
        };
        proof {
            assert forall|q2: int| first_room(old(self).rooms@, old(self).actors@[k as int].room, q2) implies q2 == q by {
                lemma_first_room_unique(old(self).rooms@, old(self).actors@[k as int].room, q as int, q2);
            }
        }
        let to = match self.rooms[q].exits.toward(d) {
            None => return MoveOutcome::NoExit,
            Some(to) => to,
        };
        self.set_room(k, to);
        let ghost moved = self.actors@;
        assert forall|x: int| 0 <= x < moved.len() implies #[trigger] moved[x].id == old(self).actors@[x].id by {}
        let dragged = match self.chains.link_of_holder(id) {
            None => {
                assert forall|b: u64| !old(self).chains.holds(id, b) by {
                    if old(self).chains.holds(id, b) {
                        let c = choose|c: int| 0 <= c < old(self).chains.links@.len()
                            && #[trigger] old(self).chains.links@[c].holder == id && old(self).chains.links@[c].bound == b;
                        assert(old(self).chains.is_holder(id));
                    }
                }
                None
            },
            Some(c) => {
                let b = self.chains.links[c].bound;
                assert(old(self).chains.holds(id, b));
                assert forall|b2: u64| old(self).chains.holds(id, b2) implies b2 == b by {
                    crate::chains::lemma_restraint_exclusive(old(self).chains, id, id, b, b2);
                }
                match self.find_actor(b) {
                    None => {
                        assert forall|x: int| 0 <= x < old(self).actors@.len() implies #[trigger] old(self).actors@[x].id != b by {
                            assert(moved[x].id == old(self).actors@[x].id);
                        }
                        None
                    },
                    Some(j) => {
                        assert(moved[j as int].id == old(self).actors@[j as int].id);
                        assert forall|x: int| 0 <= x < j implies #[trigger] old(self).actors@[x].id != b by {
                            assert(moved[x].id == old(self).actors@[x].id);
                        }
                        assert(first_actor(old(self).actors@, b, j as int));
                        self.set_room(j, to);
                        Some(b)
                    },
                }
            },
        };
        assert(moved_post(*old(self), *self, id, k as int, to, MoveOutcome::Moved { to, dragged }));
        MoveOutcome::Moved { to, dragged }
    }
}

/// The move of actor `id` (first at `k`) into room `to` as it left `after`:
/// the mover stands in `to`, and so does the one it holds, if that one exists.
pub open spec fn moved_post(before: World, after: World, id: u64, k: int, to: u64, r: MoveOutcome) -> bool {
    let moved = before.actors@.update(k, relocated(before.actors@[k], to));
    if exists|b: u64| before.chains.holds(id, b) && !no_actor(before.actors@, b) {
        exists|b: u64, j: int|
            before.chains.holds(id, b) && first_actor(before.actors@, b, j) && r == MoveOutcome::Moved {
                to,
                dragged: Some(b),
            } && after.actors@ == moved.update(j, relocated(moved[j], to))
    } else {
        &&& r == MoveOutcome::Moved { to, dragged: None }
        &&& after.actors@ == moved
    }
}

/// After a holder's successful move, the entity it holds stands in the
/// holder's new room.
pub proof fn lemma_drag_follows(before: World, after: World, id: u64, k: int, to: u64, r: MoveOutcome, b: u64)
    requires
        before.wf(),
        first_actor(before.actors@, id, k),
        moved_post(before, after, id, k, to, r),
        before.chains.holds(id, b),
        !no_actor(before.actors@, b),
    ensures
        r == (MoveOutcome::Moved { to, dragged: Some(b) }),
        forall|j: int| first_actor(after.actors@, b, j) ==> after.actors@[j].room == to,
        after.actors@[k].room == to,
{
    let (b2, j) = choose|b2: u64, j: int|
        before.chains.holds(id, b2) && first_actor(before.actors@, b2, j) && r == MoveOutcome::Moved {
            to,
            dragged: Some(b2),
        } && after.actors@ == before.actors@.update(k, relocated(before.actors@[k], to)).update(
            j,
            relocated(before.actors@.update(k, relocated(before.actors@[k], to))[j], to),
        );
    crate::chains::lemma_restraint_exclusive(before.chains, id, id, b, b2);
    assert(b2 == b);
    assert(b != id);
    assert(j != k);
    assert forall|x: int| 0 <= x < after.actors@.len() implies #[trigger] after.actors@[x].id
        == before.actors@[x].id by {}
    assert forall|j2: int| first_actor(after.actors@, b, j2) implies after.actors@[j2].room == to by {
        if j2 < j {
            assert(after.actors@[j2].id == before.actors@[j2].id);
        } else if j2 > j {
            assert(after.actors@[j].id == b);
        }
    }
}

} // verus!
