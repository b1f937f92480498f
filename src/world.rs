//! The world state: rooms, actors and items, each keyed by a stable id, with
//! the bindings between actors kept beside them.
use vstd::prelude::*;
use vstd::string::*;

use crate::chains::Restraints;
use crate::combat::{ClientType, CombatStance, CombatStats};
use crate::economy::{ItemType, VendorTerms};
use crate::lock::CycleLock;
use crate::weather::{CurrentWeather, WeatherZone};
use crate::text::{is_infix, lower_of, name_matches, same_text};

verus! {

/// One of the six exit directions.
#[derive(PartialEq, Eq, Structural, Debug, Clone, Copy)]
pub enum Direction {
    North,
    South,
    East,
    West,
    Up,
    Down,
}

/// The direction a word names, in full or by its first letter.
pub open spec fn direction_of(word: Seq<char>) -> Option<Direction> {
    if word == "north"@ || word == "n"@ {
        Some(Direction::North)
    } else if word == "south"@ || word == "s"@ {
        Some(Direction::South)
    } else if word == "east"@ || word == "e"@ {
        Some(Direction::East)
    } else if word == "west"@ || word == "w"@ {
        Some(Direction::West)
    } else if word == "up"@ || word == "u"@ {
        Some(Direction::Up)
    } else if word == "down"@ || word == "d"@ {
        Some(Direction::Down)
    } else {
        None
    }
}

/// The direction `word` names, if any.
pub fn parse_direction(word: &str) -> (r: Option<Direction>)
    ensures
        r == direction_of(word@),
{
    if same_text(word, "north") || same_text(word, "n") {
        Some(Direction::North)
    } else if same_text(word, "south") || same_text(word, "s") {
        Some(Direction::South)
    } else if same_text(word, "east") || same_text(word, "e") {
        Some(Direction::East)
    } else if same_text(word, "west") || same_text(word, "w") {
        Some(Direction::West)
    } else if same_text(word, "up") || same_text(word, "u") {
        Some(Direction::Up)
    } else if same_text(word, "down") || same_text(word, "d") {
        Some(Direction::Down)
    } else {
        None
    }
}

/// The full name of a direction.
pub open spec fn direction_name_spec(d: Direction) -> Seq<char> {
    match d {
        Direction::North => "north"@,
        Direction::South => "south"@,
        Direction::East => "east"@,
        Direction::West => "west"@,
        Direction::Up => "up"@,
        Direction::Down => "down"@,
    }
}

/// The full name of a direction.
pub fn direction_name(d: Direction) -> (r: &'static str)
    ensures
        r@ == direction_name_spec(d),
{
    match d {
        Direction::North => "north",
        Direction::South => "south",
        Direction::East => "east",
        Direction::West => "west",
        Direction::Up => "up",
        Direction::Down => "down",
    }
}

/// The exits of a room: for each direction, the room it leads to, if any.
#[derive(PartialEq, Eq, Structural, Debug, Clone, Copy)]
pub struct Exits {
    pub north: Option<u64>,
    pub south: Option<u64>,
    pub east: Option<u64>,
    pub west: Option<u64>,
    pub up: Option<u64>,
    pub down: Option<u64>,
}

impl Exits {
    /// Where the exit in direction `d` leads.
    pub open spec fn toward_spec(&self, d: Direction) -> Option<u64> {
        match d {
            Direction::North => self.north,
            Direction::South => self.south,
            Direction::East => self.east,
            Direction::West => self.west,
            Direction::Up => self.up,
            Direction::Down => self.down,
        }
    }

    /// Where the exit in direction `d` leads.
    pub fn toward(&self, d: Direction) -> (r: Option<u64>)
        ensures
            r == self.toward_spec(d),
    {
        match d {
            Direction::North => self.north,
            Direction::South => self.south,
            Direction::East => self.east,
            Direction::West => self.west,
            Direction::Up => self.up,
            Direction::Down => self.down,
        }
    }

    /// Where the exit named by `direction` leads; `None` for a word that
    /// names no direction.
    pub fn get(&self, direction: &str) -> (r: Option<u64>)
        ensures
            r == match direction_of(direction@) {
                Some(d) => self.toward_spec(d),
                None => None,
            },
    {
        match parse_direction(direction) {
            Some(d) => self.toward(d),
            None => None,
        }
    }
}

/// A room of the world.
pub struct Room {
    pub id: u64,
    /// The stable name a saved avatar's position refers to.
    pub key: String,
    pub title: String,
    pub description: String,
    pub exits: Exits,
    /// Pressure gained per second by those who linger, in thousandths;
    /// present only in a stream zone.
    pub pressure_rate: Option<u32>,
    /// Things in the room one can look at.
    pub details: Vec<Detail>,
    /// The weather in force, for a room that has weather.
    pub weather: Option<CurrentWeather>,
    /// The weathers the room may have.
    pub zone: Option<WeatherZone>,
}

/// A thing in a room one can look at, by any of its keywords.
pub struct Detail {
    pub keywords: Vec<String>,
    pub description: String,
}

/// A stock line of a vendor.
pub struct StockItem {
    pub item_name: String,
    pub description: String,
    pub keywords: Vec<String>,
    pub item_type: ItemType,
    pub base_price: u32,
}

/// What makes an actor a vendor.
pub struct Vendor {
    pub terms: VendorTerms,
    pub stock: Vec<StockItem>,
}

/// The fight an actor is in.
#[derive(PartialEq, Eq, Structural, Debug, Clone, Copy)]
pub struct InCombat {
    pub opponent: u64,
    pub rounds_fought: u32,
    pub stance: CombatStance,
}

/// An avatar or non-player character.
pub struct Actor {
    pub id: u64,
    /// The connection that drives this actor, if any.
    pub session: Option<u64>,
    pub uuid: String,
    pub name: String,
    pub room: u64,
    pub client_type: ClientType,
    /// A non-player character, with its descriptions.
    pub npc: bool,
    pub short_desc: String,
    pub long_desc: String,
    pub admin: bool,
    /// Held in custody: only a few commands are allowed.
    pub in_custody: bool,
    /// Identity figures, in thousandths.
    pub entropy: u32,
    pub stability: u32,
    pub signal_strength: u32,
    /// Health, in thousandths.
    pub integrity: u32,
    pub max_integrity: u32,
    pub stats: CombatStats,
    pub combat: Option<InCombat>,
    pub lock: Option<CycleLock>,
    /// Money, in cycles.
    pub wallet: u64,
    pub vendor: Option<Vendor>,
    /// Stream pressure, in thousandths.
    pub pressure: u32,
    /// The partner of an admin link.
    pub link: Option<u64>,
    /// How solid the actor is in the world, in thousandths.
    pub coherence: u32,
    /// Whether its coherence drifts.
    pub phasing: bool,
    /// How fast its coherence drifts, in thousandths per second.
    pub drift_rate: u32,
    /// Penance owed while in custody, in thousandths.
    pub penance: u32,
}

/// Where an item is: on the ground of a room, or carried by an actor.
#[derive(PartialEq, Eq, Structural, Debug, Clone, Copy)]
pub enum Place {
    InRoom(u64),
    CarriedBy(u64),
}

/// An item of the world.
pub struct Item {
    pub id: u64,
    pub uuid: String,
    pub name: String,
    pub description: String,
    pub keywords: Vec<String>,
    pub item_type: ItemType,
    pub place: Place,
    /// What its owner paid a vendor for it, if it was bought.
    pub paid: Option<u64>,
}

impl Item {
    /// The item lies in a room.
    pub open spec fn in_room(&self) -> bool {
        self.place is InRoom
    }

    /// The item is carried by an actor.
    pub open spec fn carried(&self) -> bool {
        self.place is CarriedBy
    }
}

/// Every item is either in a room or carried, never both and never neither.
pub proof fn lemma_item_place_exclusive(item: Item)
    ensures
        item.in_room() != item.carried(),
{
}

/// In any world, every item is either in a room or carried, never both and
/// never neither.
pub proof fn lemma_world_items_exclusive(w: World)
    ensures
        forall|k: int| 0 <= k < w.items@.len() ==> (#[trigger] w.items@[k]).in_room() != w.items@[k].carried(),
{
}

/// A message for the session that drives actor `to`.
pub struct Outbound {
    pub to: u64,
    pub text: String,
}

/// The whole simulated world.
pub struct World {
    pub rooms: Vec<Room>,
    pub actors: Vec<Actor>,
    pub items: Vec<Item>,
    pub chains: Restraints,
    /// The id the next created entity receives.
    pub next_id: u64,
}

/// No two rooms share a key.
pub open spec fn keys_unique(rooms: Seq<Room>) -> bool {
    forall|a: int, b: int| 0 <= a < rooms.len() && 0 <= b < rooms.len() && a != b ==> #[trigger] rooms[a].key@ != #[trigger] rooms[b].key@
}

/// `actors[k]` has id `id`, and none before it has.
pub open spec fn first_actor(actors: Seq<Actor>, id: u64, k: int) -> bool {
    &&& 0 <= k < actors.len()
    &&& actors[k].id == id
    &&& forall|j: int| 0 <= j < k ==> #[trigger] actors[j].id != id
}

/// No actor has id `id`.
pub open spec fn no_actor(actors: Seq<Actor>, id: u64) -> bool {
    forall|j: int| 0 <= j < actors.len() ==> #[trigger] actors[j].id != id
}

/// Only one position is the first with a given id.
pub proof fn lemma_first_actor_unique(actors: Seq<Actor>, id: u64, k1: int, k2: int)
    requires
        first_actor(actors, id, k1),
        first_actor(actors, id, k2),
    ensures
        k1 == k2,
{
    if k1 < k2 {
        assert(actors[k1].id != id);
    } else if k2 < k1 {
        assert(actors[k2].id != id);
    }
}

/// Only one position is the first with a given id.
pub proof fn lemma_first_room_unique(rooms: Seq<Room>, id: u64, k1: int, k2: int)
    requires
        first_room(rooms, id, k1),
        first_room(rooms, id, k2),
    ensures
        k1 == k2,
{
    if k1 < k2 {
        assert(rooms[k1].id != id);
    } else if k2 < k1 {
        assert(rooms[k2].id != id);
    }
}

/// `actors[k]` stands in room `room`, is not `exclude`, and its name matches `query`.
pub open spec fn is_target(actors: Seq<Actor>, k: int, room: u64, query: Seq<char>, exclude: u64) -> bool {
    &&& actors[k].room == room
    &&& actors[k].id != exclude
    &&& is_infix(lower_of(query), lower_of(actors[k].name@))
}

/// `rooms[k]` has id `id`, and none before it has.
pub open spec fn first_room(rooms: Seq<Room>, id: u64, k: int) -> bool {
    &&& 0 <= k < rooms.len()
    &&& rooms[k].id == id
    &&& forall|j: int| 0 <= j < k ==> #[trigger] rooms[j].id != id
}

/// No room has id `id`.
pub open spec fn no_room(rooms: Seq<Room>, id: u64) -> bool {
    forall|j: int| 0 <= j < rooms.len() ==> #[trigger] rooms[j].id != id
}

impl World {
    /// The bindings are well formed and every actor's stats lie in range.
    pub open spec fn wf(&self) -> bool {
        &&& self.chains.wf()
        &&& forall|i: int| 0 <= i < self.actors@.len() ==> (#[trigger] self.actors@[i]).stats.wf()
        &&& keys_unique(self.rooms@)
    }

    /// An empty world holding the given rooms; `None` where two rooms share
    /// a key.
    pub fn new(rooms: Vec<Room>, first_id: u64) -> (r: Option<World>)
        ensures
            r is Some <==> keys_unique(rooms@),
            r matches Some(w) ==> {
                &&& w.wf()
                &&& w.rooms@ == rooms@
                &&& w.actors@.len() == 0
                &&& w.items@.len() == 0
                &&& w.chains.links@.len() == 0
                &&& w.next_id == first_id
            },
    {
        let n = rooms.len();
        let mut i: usize = 0;
        while i < n
            invariant
                n == rooms@.len(),
                i <= n,
                forall|a: int, b: int| 0 <= a < i && 0 <= b < n && a != b ==> #[trigger] rooms@[a].key@ != #[trigger] rooms@[b].key@,
            decreases n - i,
        {
            let mut j: usize = 0;
            while j < n
                invariant
                    n == rooms@.len(),
                    i < n,
                    j <= n,
                    forall|a: int, b: int| 0 <= a < i && 0 <= b < n && a != b ==> #[trigger] rooms@[a].key@ != #[trigger] rooms@[b].key@,
                    forall|b: int| 0 <= b < j && b != i ==> rooms@[i as int].key@ != #[trigger] rooms@[b].key@,
                decreases n - j,
            {
                if j != i && same_text(rooms[i].key.as_str(), rooms[j].key.as_str()) {
                    return None;
                }
                j = j + 1;
            }
            i = i + 1;
        }
        Some(World { rooms, actors: Vec::new(), items: Vec::new(), chains: Restraints::new(), next_id: first_id })
    }

    /// Sets the integrity of the actor at `k`.
    pub(crate) fn set_integrity(&mut self, k: usize, v: u32)
        requires
            old(self).wf(),
            k < old(self).actors@.len(),
        ensures
            final(self).wf(),
            final(self).actors@ == old(self).actors@.update(k as int, Actor { integrity: v, ..old(self).actors@[k as int] }),
            final(self).rooms@ == old(self).rooms@,
            final(self).items@ == old(self).items@,
            final(self).chains == old(self).chains,
            final(self).next_id == old(self).next_id,
    {
        self.actors[k].integrity = v;
        proof {
            assert(self.actors@ =~= old(self).actors@.update(k as int, Actor { integrity: v, ..old(self).actors@[k as int] }));
            assert forall|i: int| 0 <= i < self.actors@.len() implies (#[trigger] self.actors@[i]).stats.wf() by {
                assert(self.actors@[i].stats == old(self).actors@[i].stats);
            }
        }
    }

    /// Sets the fight state of the actor at `k`.
    pub(crate) fn set_combat(&mut self, k: usize, v: Option<InCombat>)
        requires
            old(self).wf(),
            k < old(self).actors@.len(),
        ensures
            final(self).wf(),
            final(self).actors@ == old(self).actors@.update(k as int, Actor { combat: v, ..old(self).actors@[k as int] }),
            final(self).rooms@ == old(self).rooms@,
            final(self).items@ == old(self).items@,
            final(self).chains == old(self).chains,
            final(self).next_id == old(self).next_id,
    {
        self.actors[k].combat = v;
        proof {
            assert(self.actors@ =~= old(self).actors@.update(k as int, Actor { combat: v, ..old(self).actors@[k as int] }));
            assert forall|i: int| 0 <= i < self.actors@.len() implies (#[trigger] self.actors@[i]).stats.wf() by {
                assert(self.actors@[i].stats == old(self).actors@[i].stats);
            }
        }
    }

    /// Sets the cycle lock of the actor at `k`.
    pub(crate) fn set_lock(&mut self, k: usize, v: Option<CycleLock>)
        requires
            old(self).wf(),
            k < old(self).actors@.len(),
        ensures
            final(self).wf(),
            final(self).actors@ == old(self).actors@.update(k as int, Actor { lock: v, ..old(self).actors@[k as int] }),
            final(self).rooms@ == old(self).rooms@,
            final(self).items@ == old(self).items@,
            final(self).chains == old(self).chains,
            final(self).next_id == old(self).next_id,
    {
        self.actors[k].lock = v;
        proof {
            assert(self.actors@ =~= old(self).actors@.update(k as int, Actor { lock: v, ..old(self).actors@[k as int] }));
            assert forall|i: int| 0 <= i < self.actors@.len() implies (#[trigger] self.actors@[i]).stats.wf() by {
                assert(self.actors@[i].stats == old(self).actors@[i].stats);
            }
        }
    }

    /// Sets the wallet of the actor at `k`.
    pub(crate) fn set_wallet(&mut self, k: usize, v: u64)
        requires
            old(self).wf(),
            k < old(self).actors@.len(),
        ensures
            final(self).wf(),
            final(self).actors@ == old(self).actors@.update(k as int, Actor { wallet: v, ..old(self).actors@[k as int] }),
            final(self).rooms@ == old(self).rooms@,
            final(self).items@ == old(self).items@,
            final(self).chains == old(self).chains,
            final(self).next_id == old(self).next_id,
    {
        self.actors[k].wallet = v;
        proof {
            assert(self.actors@ =~= old(self).actors@.update(k as int, Actor { wallet: v, ..old(self).actors@[k as int] }));
            assert forall|i: int| 0 <= i < self.actors@.len() implies (#[trigger] self.actors@[i]).stats.wf() by {
                assert(self.actors@[i].stats == old(self).actors@[i].stats);
            }
        }
    }

    /// Sets the stream pressure of the actor at `k`.
    pub(crate) fn set_pressure(&mut self, k: usize, v: u32)
        requires
            old(self).wf(),
            k < old(self).actors@.len(),
        ensures
            final(self).wf(),
            final(self).actors@ == old(self).actors@.update(k as int, Actor { pressure: v, ..old(self).actors@[k as int] }),
            final(self).rooms@ == old(self).rooms@,
            final(self).items@ == old(self).items@,
            final(self).chains == old(self).chains,
            final(self).next_id == old(self).next_id,
    {
        self.actors[k].pressure = v;
        proof {
            assert(self.actors@ =~= old(self).actors@.update(k as int, Actor { pressure: v, ..old(self).actors@[k as int] }));
            assert forall|i: int| 0 <= i < self.actors@.len() implies (#[trigger] self.actors@[i]).stats.wf() by {
                assert(self.actors@[i].stats == old(self).actors@[i].stats);
            }
        }
    }

    /// Sets the session of the actor at `k`.
    pub(crate) fn set_session(&mut self, k: usize, v: Option<u64>)
        requires
            old(self).wf(),
            k < old(self).actors@.len(),
        ensures
            final(self).wf(),
            final(self).actors@ == old(self).actors@.update(k as int, Actor { session: v, ..old(self).actors@[k as int] }),
            final(self).rooms@ == old(self).rooms@,
            final(self).items@ == old(self).items@,
            final(self).chains == old(self).chains,
            final(self).next_id == old(self).next_id,
    {
        self.actors[k].session = v;
        proof {
            assert(self.actors@ =~= old(self).actors@.update(k as int, Actor { session: v, ..old(self).actors@[k as int] }));
            assert forall|i: int| 0 <= i < self.actors@.len() implies (#[trigger] self.actors@[i]).stats.wf() by {
                assert(self.actors@[i].stats == old(self).actors@[i].stats);
            }
        }
    }

    /// Sets the stability of the actor at `k`.
    pub(crate) fn set_stability(&mut self, k: usize, v: u32)
        requires
            old(self).wf(),
            k < old(self).actors@.len(),
        ensures
            final(self).wf(),
            final(self).actors@ == old(self).actors@.update(k as int, Actor { stability: v, ..old(self).actors@[k as int] }),
            final(self).rooms@ == old(self).rooms@,
            final(self).items@ == old(self).items@,
            final(self).chains == old(self).chains,
            final(self).next_id == old(self).next_id,
    {
        self.actors[k].stability = v;
        proof {
            assert(self.actors@ =~= old(self).actors@.update(k as int, Actor { stability: v, ..old(self).actors@[k as int] }));
            assert forall|i: int| 0 <= i < self.actors@.len() implies (#[trigger] self.actors@[i]).stats.wf() by {
                assert(self.actors@[i].stats == old(self).actors@[i].stats);
            }
        }
    }

    /// Sets the coherence of the actor at `k`.
    pub(crate) fn set_coherence(&mut self, k: usize, v: u32)
        requires
            old(self).wf(),
            k < old(self).actors@.len(),
        ensures
            final(self).wf(),
            final(self).actors@ == old(self).actors@.update(k as int, Actor { coherence: v, ..old(self).actors@[k as int] }),
            final(self).rooms@ == old(self).rooms@,
            final(self).items@ == old(self).items@,
            final(self).chains == old(self).chains,
            final(self).next_id == old(self).next_id,
    {
        self.actors[k].coherence = v;
        proof {
            assert(self.actors@ =~= old(self).actors@.update(k as int, Actor { coherence: v, ..old(self).actors@[k as int] }));
            assert forall|i: int| 0 <= i < self.actors@.len() implies (#[trigger] self.actors@[i]).stats.wf() by {
                assert(self.actors@[i].stats == old(self).actors@[i].stats);
            }
        }
    }

    /// Sets the phasing flag of the actor at `k`.
    pub(crate) fn set_phasing(&mut self, k: usize, v: bool)
        requires
            old(self).wf(),
            k < old(self).actors@.len(),
        ensures
            final(self).wf(),
            final(self).actors@ == old(self).actors@.update(k as int, Actor { phasing: v, ..old(self).actors@[k as int] }),
            final(self).rooms@ == old(self).rooms@,
            final(self).items@ == old(self).items@,
            final(self).chains == old(self).chains,
            final(self).next_id == old(self).next_id,
    {
        self.actors[k].phasing = v;
        proof {
            assert(self.actors@ =~= old(self).actors@.update(k as int, Actor { phasing: v, ..old(self).actors@[k as int] }));
            assert forall|i: int| 0 <= i < self.actors@.len() implies (#[trigger] self.actors@[i]).stats.wf() by {
                assert(self.actors@[i].stats == old(self).actors@[i].stats);
            }
        }
    }

    /// Sets the drift rate of the actor at `k`.
    pub(crate) fn set_drift_rate(&mut self, k: usize, v: u32)
        requires
            old(self).wf(),
            k < old(self).actors@.len(),
        ensures
            final(self).wf(),
            final(self).actors@ == old(self).actors@.update(k as int, Actor { drift_rate: v, ..old(self).actors@[k as int] }),
            final(self).rooms@ == old(self).rooms@,
            final(self).items@ == old(self).items@,
            final(self).chains == old(self).chains,
            final(self).next_id == old(self).next_id,
    {
        self.actors[k].drift_rate = v;
        proof {
            assert(self.actors@ =~= old(self).actors@.update(k as int, Actor { drift_rate: v, ..old(self).actors@[k as int] }));
            assert forall|i: int| 0 <= i < self.actors@.len() implies (#[trigger] self.actors@[i]).stats.wf() by {
                assert(self.actors@[i].stats == old(self).actors@[i].stats);
            }
        }
    }

    /// Sets the penance of the actor at `k`.
    pub(crate) fn set_penance(&mut self, k: usize, v: u32)
        requires
            old(self).wf(),
            k < old(self).actors@.len(),
        ensures
            final(self).wf(),
            final(self).actors@ == old(self).actors@.update(k as int, Actor { penance: v, ..old(self).actors@[k as int] }),
            final(self).rooms@ == old(self).rooms@,
            final(self).items@ == old(self).items@,
            final(self).chains == old(self).chains,
            final(self).next_id == old(self).next_id,
    {
        self.actors[k].penance = v;
        proof {
            assert(self.actors@ =~= old(self).actors@.update(k as int, Actor { penance: v, ..old(self).actors@[k as int] }));
            assert forall|i: int| 0 <= i < self.actors@.len() implies (#[trigger] self.actors@[i]).stats.wf() by {
                assert(self.actors@[i].stats == old(self).actors@[i].stats);
            }
        }
    }

    /// Sets the admin permission of the actor at `k`.
    pub(crate) fn set_admin(&mut self, k: usize, v: bool)
        requires
            old(self).wf(),
            k < old(self).actors@.len(),
        ensures
            final(self).wf(),
            final(self).actors@ == old(self).actors@.update(k as int, Actor { admin: v, ..old(self).actors@[k as int] }),
            final(self).rooms@ == old(self).rooms@,
            final(self).items@ == old(self).items@,
            final(self).chains == old(self).chains,
            final(self).next_id == old(self).next_id,
    {
        self.actors[k].admin = v;
        proof {
            assert(self.actors@ =~= old(self).actors@.update(k as int, Actor { admin: v, ..old(self).actors@[k as int] }));
            assert forall|i: int| 0 <= i < self.actors@.len() implies (#[trigger] self.actors@[i]).stats.wf() by {
                assert(self.actors@[i].stats == old(self).actors@[i].stats);
            }
        }
    }

    /// Sets the admin link of the actor at `k`.
    pub(crate) fn set_link(&mut self, k: usize, v: Option<u64>)
        requires
            old(self).wf(),
            k < old(self).actors@.len(),
        ensures
            final(self).wf(),
            final(self).actors@ == old(self).actors@.update(k as int, Actor { link: v, ..old(self).actors@[k as int] }),
            final(self).rooms@ == old(self).rooms@,
            final(self).items@ == old(self).items@,
            final(self).chains == old(self).chains,
            final(self).next_id == old(self).next_id,
    {
        self.actors[k].link = v;
        proof {
            assert(self.actors@ =~= old(self).actors@.update(k as int, Actor { link: v, ..old(self).actors@[k as int] }));
            assert forall|i: int| 0 <= i < self.actors@.len() implies (#[trigger] self.actors@[i]).stats.wf() by {
                assert(self.actors@[i].stats == old(self).actors@[i].stats);
            }
        }
    }

    /// Sets the custody flag of the actor at `k`.
    pub(crate) fn set_in_custody(&mut self, k: usize, v: bool)
        requires
            old(self).wf(),
            k < old(self).actors@.len(),
        ensures
            final(self).wf(),
            final(self).actors@ == old(self).actors@.update(k as int, Actor { in_custody: v, ..old(self).actors@[k as int] }),
            final(self).rooms@ == old(self).rooms@,
            final(self).items@ == old(self).items@,
            final(self).chains == old(self).chains,
            final(self).next_id == old(self).next_id,
    {
        self.actors[k].in_custody = v;
        proof {
            assert(self.actors@ =~= old(self).actors@.update(k as int, Actor { in_custody: v, ..old(self).actors@[k as int] }));
            assert forall|i: int| 0 <= i < self.actors@.len() implies (#[trigger] self.actors@[i]).stats.wf() by {
                assert(self.actors@[i].stats == old(self).actors@[i].stats);
            }
        }
    }

    /// Sets the entropy of the actor at `k`.
    pub(crate) fn set_entropy(&mut self, k: usize, v: u32)
        requires
            old(self).wf(),
            k < old(self).actors@.len(),
        ensures
            final(self).wf(),
            final(self).actors@ == old(self).actors@.update(k as int, Actor { entropy: v, ..old(self).actors@[k as int] }),
            final(self).rooms@ == old(self).rooms@,
            final(self).items@ == old(self).items@,
            final(self).chains == old(self).chains,
            final(self).next_id == old(self).next_id,
    {
        self.actors[k].entropy = v;
        proof {
            assert(self.actors@ =~= old(self).actors@.update(k as int, Actor { entropy: v, ..old(self).actors@[k as int] }));
            assert forall|i: int| 0 <= i < self.actors@.len() implies (#[trigger] self.actors@[i]).stats.wf() by {
                assert(self.actors@[i].stats == old(self).actors@[i].stats);
            }
        }
    }

    /// The position of the first actor with id `id`.
    pub fn find_actor(&self, id: u64) -> (r: Option<usize>)
        ensures
            r matches Some(k) ==> first_actor(self.actors@, id, k as int),
            r is None ==> no_actor(self.actors@, id),
    {
        let mut k: usize = 0;
        while k < self.actors.len()
            invariant
                k <= self.actors@.len(),
                forall|j: int| 0 <= j < k ==> #[trigger] self.actors@[j].id != id,
            decreases self.actors@.len() - k,
        {
            if self.actors[k].id == id {
                return Some(k);
            }
            k = k + 1;
        }
        None
    }

    /// The position of the first room with id `id`.
    pub fn find_room(&self, id: u64) -> (r: Option<usize>)
        ensures
            r matches Some(k) ==> first_room(self.rooms@, id, k as int),
            r is None ==> no_room(self.rooms@, id),
    {
        let mut k: usize = 0;
        while k < self.rooms.len()
            invariant
                k <= self.rooms@.len(),
                forall|j: int| 0 <= j < k ==> #[trigger] self.rooms@[j].id != id,
            decreases self.rooms@.len() - k,
        {
            if self.rooms[k].id == id {
                return Some(k);
            }
            k = k + 1;
        }
        None
    }

    /// The first actor other than `exclude` in `room` whose name, case-folded,
    /// holds `query`, case-folded.
    pub fn find_target(&self, room: u64, query: &str, exclude: u64) -> (r: Option<usize>)
        ensures
            r matches Some(k) ==> k < self.actors@.len() && is_target(
                self.actors@,
                k as int,
                room,
                query@,
                exclude,
            ) && forall|j: int| 0 <= j < k ==> !is_target(self.actors@, j, room, query@, exclude),
            r is None ==> forall|j: int|
                0 <= j < self.actors@.len() ==> !is_target(self.actors@, j, room, query@, exclude),
    {
        let mut k: usize = 0;
        while k < self.actors.len()
            invariant
                k <= self.actors@.len(),
                forall|j: int| 0 <= j < k ==> !is_target(self.actors@, j, room, query@, exclude),
            decreases self.actors@.len() - k,
        {
            let a = &self.actors[k];
            if a.room == room && a.id != exclude && name_matches(a.name.as_str(), query) {
                return Some(k);
            }
            k = k + 1;
        }
        None
    }
}

} // verus!
