//! The stream tick: every actor's pressure moves one step; those that reach
//! the threshold are swept one room toward safety and told so.
use vstd::prelude::*;

use crate::look::look_result;
use crate::session::{addressed, capped_entropy, pressured, room_rate};
use crate::stream::{pressure_spec, pressure_step, SAFE_DIRECTION};
use crate::world::{first_room, Actor, Outbound, Room, World};

verus! {

/// Warning at half pressure, for an entity whose entropy helps it.
pub const HALF_RESISTED: &'static str = "\x1B[33mThe stream pressure builds, but your entropy helps you resist.\x1B[0m";

/// Warning at half pressure.
pub const HALF_PLAIN: &'static str = "\x1B[33mThe stream pressure intensifies. You feel yourself being pushed back.\x1B[0m";

/// Warning at critical pressure, for a chaotic entity.
pub const CRITICAL_RESISTED: &'static str = "\x1B[31mStream pressure critical! Your chaos buys you time, but not forever!\x1B[0m";

/// Warning at critical pressure.
pub const CRITICAL_PLAIN: &'static str = "\x1B[31mWARNING: Stream pressure critical! Move deeper or retreat!\x1B[0m";

/// Notice that the pressure has drained away.
pub const PRESSURE_GONE: &'static str = "\x1B[32mThe stream pressure fades. You've reached stable ground.\x1B[0m";

/// `m` holds exactly the messages `e`, in order.
pub open spec fn msgs_match(m: Seq<Outbound>, e: Seq<(u64, Seq<char>)>) -> bool {
    &&& m.len() == e.len()
    &&& forall|k: int| 0 <= k < m.len() ==> addressed(#[trigger] m[k], e[k].0, e[k].1)
}

/// The entity reaches the sweep threshold in this tick.
pub open spec fn swept(a: Actor, rooms: Seq<Room>, dt_ms: u32) -> bool {
    pressure_spec(a.pressure, room_rate(rooms, a.room), capped_entropy(a.entropy), dt_ms).push
}

/// The room the safe-direction exit of room `room` leads to.
pub open spec fn safe_exit(rooms: Seq<Room>, room: u64) -> Option<u64> {
    if exists|q: int| first_room(rooms, room, q) {
        rooms[choose|q: int| first_room(rooms, room, q)].exits.toward_spec(SAFE_DIRECTION)
    } else {
        None
    }
}

/// The title of room `room`, or "the stream" where it does not exist.
pub open spec fn title_of(rooms: Seq<Room>, room: u64) -> Seq<char> {
    if exists|q: int| first_room(rooms, room, q) {
        rooms[choose|q: int| first_room(rooms, room, q)].title@
    } else {
        "the stream"@
    }
}

/// The entity is swept and a safe exit leads out of its room.
pub open spec fn moved_on(a: Actor, rooms: Seq<Room>, dt_ms: u32) -> bool {
    swept(a, rooms, dt_ms) && safe_exit(rooms, a.room) is Some
}

/// `a` after one tick: its pressure stepped, and where it is swept and a
/// safe exit exists, standing in the room that exit leads to.
pub open spec fn pushed_back(a: Actor, rooms: Seq<Room>, dt_ms: u32) -> Actor {
    let p = pressured(a, rooms, dt_ms);
    if moved_on(a, rooms, dt_ms) {
        Actor { room: safe_exit(rooms, a.room).unwrap(), ..p }
    } else {
        p
    }
}

/// Every actor after one tick.
pub open spec fn after_tick(before: Seq<Actor>, rooms: Seq<Room>, dt_ms: u32) -> Seq<Actor> {
    Seq::new(before.len(), |x: int| pushed_back(before[x], rooms, dt_ms))
}

/// The notices one entity gets in one tick: each warning level crossed, the
/// pressure draining away, and the sweep naming the room it leaves.
pub open spec fn notes_of(a: Actor, rooms: Seq<Room>, dt_ms: u32) -> Seq<(u64, Seq<char>)> {
    let st = pressure_spec(a.pressure, room_rate(rooms, a.room), capped_entropy(a.entropy), dt_ms);
    let e = capped_entropy(a.entropy);
    (if st.warn_half { seq![(a.id, if e > 300 { HALF_RESISTED@ } else { HALF_PLAIN@ })] } else { Seq::empty() })
        + (if st.warn_critical { seq![(a.id, if e > 500 { CRITICAL_RESISTED@ } else { CRITICAL_PLAIN@ })] } else { Seq::empty() })
        + (if st.cleared { seq![(a.id, PRESSURE_GONE@)] } else { Seq::empty() })
        + (if st.push {
        seq![(a.id, "\x1B[1;31mThe stream overcomes you! You're swept back from "@ + title_of(rooms, a.room) + "!\x1B[0m"@)]
    } else {
        Seq::empty()
    })
}

/// The notices of all entities, in order.
pub open spec fn all_notes(before: Seq<Actor>, rooms: Seq<Room>, dt_ms: u32) -> Seq<(u64, Seq<char>)>
    decreases before.len(),
{
    if before.len() == 0 {
        Seq::empty()
    } else {
        all_notes(before.drop_last(), rooms, dt_ms) + notes_of(before.last(), rooms, dt_ms)
    }
}

/// The ids of the entities that were swept into another room, in order.
pub open spec fn moved_ids(before: Seq<Actor>, rooms: Seq<Room>, dt_ms: u32) -> Seq<u64>
    decreases before.len(),
{
    if before.len() == 0 {
        Seq::empty()
    } else {
        moved_ids(before.drop_last(), rooms, dt_ms) + if moved_on(before.last(), rooms, dt_ms) {
            seq![before.last().id]
        } else {
            Seq::empty()
        }
    }
}

/// What each of `ids` sees on looking, in world `w`.
pub open spec fn look_notes(w: World, ids: Seq<u64>) -> Seq<(u64, Seq<char>)>
    decreases ids.len(),
{
    if ids.len() == 0 {
        Seq::empty()
    } else {
        look_notes(w, ids.drop_last()) + match look_result(w, ids.last(), None) {
            Some(t) => seq![(ids.last(), t)],
            None => Seq::empty(),
        }
    }
}

fn send_noted(out: &mut Vec<Outbound>, to: u64, text: String, Ghost(e): Ghost<Seq<(u64, Seq<char>)>>)
    requires
        msgs_match(old(out)@, e),
    ensures
        msgs_match(final(out)@, e.push((to, text@))),
{
    let ghost t = text@;
    out.push(Outbound { to, text });
    assert forall|k: int| 0 <= k < out@.len() implies addressed(#[trigger] out@[k], e.push((to, t))[k].0, e.push((to, t))[k].1) by {
        if k < old(out)@.len() {
            assert(out@[k] == old(out)@[k]);
        }
    }
}

impl World {
    /// The safe-direction exit out of room `room`, and its title.
    fn room_facts(&self, room: u64) -> (r: (Option<u64>, String))
        ensures
            r.0 == safe_exit(self.rooms@, room),
            r.1@ == title_of(self.rooms@, room),
    {
        match self.find_room(room) {
            Some(q) => {
                proof {
                    let c = choose|c: int| first_room(self.rooms@, room, c);
                    crate::world::lemma_first_room_unique(self.rooms@, room, q as int, c);
                }
                (self.rooms[q].exits.toward(SAFE_DIRECTION), self.rooms[q].title.clone())
            },
            None => (None, String::from_str("the stream")),
        }
    }

    /// The pressure rate of room `room`.
    fn rate_of(&self, room: u64) -> (r: Option<u32>)
        ensures
            r == room_rate(self.rooms@, room),
    {
        match self.find_room(room) {
            Some(q) => {
                proof {
                    let c = choose|c: int| first_room(self.rooms@, room, c);
                    crate::world::lemma_first_room_unique(self.rooms@, room, q as int, c);
                }
                self.rooms[q].pressure_rate
            },
            None => None,
        }
    }

    /// One pressure tick of `dt_ms` milliseconds. Every actor's pressure
    /// steps as `pressure_step` says; each one that reaches the threshold is
    /// swept through its room's safe-direction exit where there is one (the
    /// stream carries it: it drags no one, and a held actor is carried too);
    /// nobody else moves. The messages are each actor's notices in order,
    /// then what each swept actor sees in its new room.
    #[verifier::rlimit(100)]
    pub fn pressure_tick(&mut self, dt_ms: u32) -> (r: Vec<Outbound>)
        requires
            old(self).wf(),
        ensures
            final(self).wf(),
            final(self).rooms@ == old(self).rooms@,
            final(self).items@ == old(self).items@,
            final(self).chains == old(self).chains,
            final(self).next_id == old(self).next_id,
            final(self).actors@ == after_tick(old(self).actors@, old(self).rooms@, dt_ms),
            msgs_match(
                r@,
                all_notes(old(self).actors@, old(self).rooms@, dt_ms) + look_notes(
                    *final(self),
                    moved_ids(old(self).actors@, old(self).rooms@, dt_ms),
                ),
            ),
    {
        let mut out: Vec<Outbound> = Vec::new();
        let mut moved: Vec<u64> = Vec::new();
        let ghost o = old(self).actors@;
        let ghost rooms = old(self).rooms@;
        let n = self.actors.len();
        let mut k: usize = 0;
        while k < n
            invariant
                self.wf(),
                n == o.len(),
                self.actors@.len() == n,
                k <= n,
                self.rooms@ == rooms,
                rooms == old(self).rooms@,
                o == old(self).actors@,
                self.items@ == old(self).items@,
                self.chains == old(self).chains,
                self.next_id == old(self).next_id,
                forall|x: int| 0 <= x < k ==> #[trigger] self.actors@[x] == pushed_back(o[x], rooms, dt_ms),
                forall|x: int| k <= x < n ==> #[trigger] self.actors@[x] == o[x],
                msgs_match(out@, all_notes(o.subrange(0, k as int), rooms, dt_ms)),
                moved@ == moved_ids(o.subrange(0, k as int), rooms, dt_ms),
            decreases n - k,
        {
            proof {
                assert(o.subrange(0, k + 1).drop_last() =~= o.subrange(0, k as int));
                assert(o.subrange(0, k + 1).last() == o[k as int]);
            }
            let a_room = self.actors[k].room;
            let rate = self.rate_of(a_room);
            let entropy = if self.actors[k].entropy > 1000 { 1000 } else { self.actors[k].entropy };
            let step = pressure_step(self.actors[k].pressure, rate, entropy, dt_ms);
            let who = self.actors[k].id;
            let ghost e0 = all_notes(o.subrange(0, k as int), rooms, dt_ms);
            let ghost e1 = e0;
            if step.warn_half {
                proof { e1 = e0.push((who, if entropy > 300 { HALF_RESISTED@ } else { HALF_PLAIN@ })); }
                send_noted(&mut out, who, String::from_str(if entropy > 300 { HALF_RESISTED } else { HALF_PLAIN }), Ghost(e0));
            }
            let ghost e2 = e1;
            if step.warn_critical {
                proof { e2 = e1.push((who, if entropy > 500 { CRITICAL_RESISTED@ } else { CRITICAL_PLAIN@ })); }
                send_noted(&mut out, who, String::from_str(if entropy > 500 { CRITICAL_RESISTED } else { CRITICAL_PLAIN }), Ghost(e1));
            }
            let ghost e3 = e2;
            if step.cleared {
                proof { e3 = e2.push((who, PRESSURE_GONE@)); }
                send_noted(&mut out, who, String::from_str(PRESSURE_GONE), Ghost(e2));
            }
            let (exit, title) = self.room_facts(a_room);
            let ghost e4 = e3;
            if step.push {
                let text = String::from_str("\x1B[1;31mThe stream overcomes you! You're swept back from ").concat(title.as_str()).concat("!\x1B[0m");
                proof { e4 = e3.push((who, text@)); }
                send_noted(&mut out, who, text, Ghost(e3));
            }
            proof {
                assert(e4 =~= all_notes(o.subrange(0, k + 1), rooms, dt_ms));
            }
            self.set_pressure(k, step.pressure);
            if step.push {
                if let Some(to) = exit {
                    self.set_room(k, to);
                    moved.push(who);
                }
            }
            proof {
                assert(self.actors@[k as int] == pushed_back(o[k as int], rooms, dt_ms));
                assert(moved@ =~= moved_ids(o.subrange(0, k + 1), rooms, dt_ms));
            }
            k = k + 1;
        }
        proof {
            assert(o.subrange(0, n as int) =~= o);
            assert(self.actors@ =~= after_tick(o, rooms, dt_ms));
        }
        let ghost notes = out@;
        let ghost base = all_notes(o, rooms, dt_ms);
        let mut p: usize = 0;
        while p < moved.len()
            invariant
                p <= moved@.len(),
                moved@ == moved_ids(o, rooms, dt_ms),
                msgs_match(out@, base + look_notes(*self, moved@.subrange(0, p as int))),
            decreases moved@.len() - p,
        {
            proof {
                assert(moved@.subrange(0, p + 1).drop_last() =~= moved@.subrange(0, p as int));
            }
            let ghost e = base + look_notes(*self, moved@.subrange(0, p as int));
            if let Some(text) = self.look(moved[p], None) {
                send_noted(&mut out, moved[p], text, Ghost(e));
                assert(e.push((moved@[p as int], text@)) =~= base + look_notes(*self, moved@.subrange(0, p + 1)));
            } else {
                assert(e =~= base + look_notes(*self, moved@.subrange(0, p + 1)));
            }
            p = p + 1;
        }
        assert(moved@.subrange(0, moved@.len() as int) =~= moved@);
        out
    }
}

} // verus!
