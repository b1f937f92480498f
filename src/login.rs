//! The login state machine: from a raw connection to an avatar, by a fresh
//! identity or one restored from a saved record.
use vstd::prelude::*;
use vstd::string::*;

use crate::combat::{ClientType, CombatStats};
use crate::rng::fresh_uuid;
use crate::text::{same_text, trim, trim_of};
use crate::world::{first_actor, Actor, Room, World};
use vstd::utf8::encode_utf8;

verus! {

/// The longest accepted name, in bytes.
pub const MAX_NAME_BYTES: usize = 32;

/// Rejected names after which the connection is dropped.
pub const MAX_NAME_ATTEMPTS: u32 = 3;

/// Starting identity figures of a new avatar, in thousandths.
pub const START_ENTROPY: u32 = 500;
pub const START_STABILITY: u32 = 1000;
pub const START_SIGNAL: u32 = 1000;

/// Full health, in thousandths.
pub const FULL_INTEGRITY: u32 = 1000;

/// Money of a fresh avatar, in cycles.
pub const START_WALLET: u64 = 100;

/// A connection that has not yet given a valid name.
pub struct PendingLogin {
    pub attempts: u32,
}

/// What a submitted name came to.
pub enum NameCheck {
    /// The name, trimmed, is acceptable.
    Valid { name: String },
    /// Rejected; ask again.
    Retry,
    /// Rejected too often; drop the connection.
    Disconnect,
}

/// A rejection count after one more rejection, capped.
pub open spec fn next_count(n: u32) -> u32 {
    if n == u32::MAX { u32::MAX } else { (n + 1) as u32 }
}

/// The name is acceptable: not empty and at most the byte bound in UTF-8.
pub open spec fn name_ok(name: Seq<char>) -> bool {
    name.len() > 0 && encode_utf8(name).len() <= MAX_NAME_BYTES
}

impl PendingLogin {
    pub fn new() -> (r: PendingLogin)
        ensures
            r.attempts == 0,
    {
        PendingLogin { attempts: 0 }
    }

    /// Checks a submitted name, counting each rejection.
    pub fn check_name<'a>(&mut self, input: &'a str) -> (r: NameCheck)
        ensures
            ({
                let name = trim_of(input@);
                (r matches NameCheck::Valid { name: n } ==> n@ == name && final(self).attempts
                    == old(self).attempts)
                && (r is Valid || final(self).attempts == if old(self).attempts == u32::MAX {
                    u32::MAX
                } else {
                    (old(self).attempts + 1) as u32
                })
                && (r is Disconnect <==> !(r is Valid) && final(self).attempts >= MAX_NAME_ATTEMPTS)
            }),
            (r is Valid) <==> name_ok(trim_of(input@)),
    {
        let name = trim(input);
        if name.unicode_len() == 0 || name.as_bytes().len() > MAX_NAME_BYTES {
            self.attempts = self.attempts.saturating_add(1);
            if self.attempts >= MAX_NAME_ATTEMPTS {
                return NameCheck::Disconnect;
            }
            return NameCheck::Retry;
        }
        NameCheck::Valid { name: String::from_str(name) }
    }
}

/// Draws of a fresh identifier tried before giving up.
pub const FRESH_UUID_TRIES: u32 = 4;

/// `after` holds the same actors, rooms, items and bindings as `before`.
pub open spec fn same_actors(after: World, before: World) -> bool {
    &&& after.actors@ == before.actors@
    &&& after.rooms@ == before.rooms@
    &&& after.items@ == before.items@
    &&& after.chains == before.chains
    &&& after.next_id == before.next_id
}

/// What the store keeps of an avatar between sessions.
pub struct PlayerRecord {
    pub uuid: String,
    pub name: String,
    pub client_type: ClientType,
    /// The key of the room the avatar was last in.
    pub last_room: String,
    pub stability: u32,
    pub entropy: u32,
    pub signal_strength: u32,
    pub integrity: u32,
    pub combat_stats: Option<CombatStats>,
    pub wallet: u64,
}

/// `rooms[q]` is the first room whose key is `key`.
pub open spec fn first_keyed(rooms: Seq<Room>, key: Seq<char>, q: int) -> bool {
    &&& 0 <= q < rooms.len()
    &&& rooms[q].key@ == key
    &&& forall|j: int| 0 <= j < q ==> #[trigger] rooms[j].key@ != key
}

/// The room a restored avatar enters: the first with its saved key, else
/// the spawn room.
pub open spec fn restore_room(rooms: Seq<Room>, key: Seq<char>) -> u64 {
    if exists|q: int| first_keyed(rooms, key, q) {
        rooms[choose|q: int| first_keyed(rooms, key, q)].id
    } else {
        spawn_room(rooms)
    }
}

/// The key of the room with id `room`; empty where no such room exists.
pub open spec fn room_key(rooms: Seq<Room>, room: u64) -> Seq<char> {
    if exists|q: int| crate::world::first_room(rooms, room, q) {
        rooms[choose|q: int| crate::world::first_room(rooms, room, q)].key@
    } else {
        Seq::empty()
    }
}

/// The room is a spawn point.
pub open spec fn is_spawn(r: Room) -> bool {
    r.key@ == "spawn"@ || r.key@ == "obsidian_plaza"@
}

/// The room a new avatar enters: the first spawn point, else the first room.
pub open spec fn spawn_room(rooms: Seq<Room>) -> u64 {
    if exists|q: int| 0 <= q < rooms.len() && is_spawn(#[trigger] rooms[q]) {
        rooms[choose|q: int|
            0 <= q < rooms.len() && is_spawn(#[trigger] rooms[q]) && forall|j: int|
                0 <= j < q ==> !is_spawn(#[trigger] rooms[j])].id
    } else {
        rooms[0].id
    }
}

/// Stats with every figure capped at 1000.
pub open spec fn capped(s: CombatStats) -> CombatStats {
    CombatStats {
        attack: if s.attack > 1000 { 1000 } else { s.attack },
        defense: if s.defense > 1000 { 1000 } else { s.defense },
        precision: if s.precision > 1000 { 1000 } else { s.precision },
        chaos_factor: if s.chaos_factor > 1000 { 1000 } else { s.chaos_factor },
    }
}

fn cap_stats(s: CombatStats) -> (r: CombatStats)
    ensures
        r == capped(s),
        r.wf(),
{
    CombatStats {
        attack: if s.attack > 1000 { 1000 } else { s.attack },
        defense: if s.defense > 1000 { 1000 } else { s.defense },
        precision: if s.precision > 1000 { 1000 } else { s.precision },
        chaos_factor: if s.chaos_factor > 1000 { 1000 } else { s.chaos_factor },
    }
}

/// A fresh avatar with the given identity and figures.
pub open spec fn avatar_fields(a: Actor, id: u64, session: u64, room: u64) -> bool {
    &&& a.id == id
    &&& a.session == Some(session)
    &&& a.room == room
    &&& !a.npc
    &&& !a.admin
    &&& !a.in_custody
    &&& a.max_integrity == FULL_INTEGRITY
    &&& a.combat is None
    &&& a.lock is None
    &&& a.vendor is None
    &&& a.pressure == 0
    &&& a.link is None
}

/// What making a new avatar named `name` with identifier `uuid` for `session` leaves behind.
pub open spec fn create_post(before: World, after: World, session: u64, name: Seq<char>, uuid: Seq<char>, r: u64) -> bool {
    &&& (r == before.next_id)
    &&& (after.next_id == before.next_id + 1)
    &&& (after.rooms@ == before.rooms@)
    &&& (after.items@ == before.items@)
    &&& (after.chains == before.chains)
    &&& (after.actors@.len() == before.actors@.len() + 1)
    &&& (after.actors@.drop_last() == before.actors@)
    &&& (({
                let a = after.actors@.last();
                &&& avatar_fields(a, r, session, spawn_room(before.rooms@))
                &&& a.uuid@ == uuid
                &&& a.name@ == name
                &&& a.client_type == ClientType::Carbon
                &&& a.entropy == START_ENTROPY
                &&& a.stability == START_STABILITY
                &&& a.signal_strength == START_SIGNAL
                &&& a.integrity == FULL_INTEGRITY
                &&& a.stats == CombatStats::starting_spec()
                &&& a.wallet == START_WALLET
            }))
}

impl World {
    /// The position of the first room whose key is `key`.
    pub fn find_room_keyed(&self, key: &str) -> (r: Option<usize>)
        ensures
            r matches Some(q) ==> first_keyed(self.rooms@, key@, q as int),
            r is None ==> !exists|q: int| first_keyed(self.rooms@, key@, q),
            r is None ==> forall|q: int| 0 <= q < self.rooms@.len() ==> #[trigger] self.rooms@[q].key@ != key@,
    {
        let mut q: usize = 0;
        while q < self.rooms.len()
            invariant
                q <= self.rooms@.len(),
                forall|j: int| 0 <= j < q ==> #[trigger] self.rooms@[j].key@ != key@,
            decreases self.rooms@.len() - q,
        {
            if same_text(self.rooms[q].key.as_str(), key) {
                return Some(q);
            }
            q = q + 1;
        }
        None
    }

    fn add_actor(&mut self, a: Actor)
        requires
            old(self).wf(),
            a.stats.wf(),
        ensures
            final(self).wf(),
            final(self).actors@ == old(self).actors@.push(a),
            final(self).rooms@ == old(self).rooms@,
            final(self).items@ == old(self).items@,
            final(self).chains == old(self).chains,
            final(self).next_id == old(self).next_id,
    {
        self.actors.push(a);
        assert forall|i: int| 0 <= i < self.actors@.len() implies (#[trigger] self.actors@[i]).stats.wf() by {
            if i < old(self).actors@.len() {
                assert(self.actors@[i] == old(self).actors@[i]);
            }
        }
    }

    /// The position of the room a new avatar enters.
    pub fn spawn_index(&self) -> (r: usize)
        requires
            self.rooms@.len() > 0,
        ensures
            r < self.rooms@.len(),
            self.rooms@[r as int].id == spawn_room(self.rooms@),
    {
        let mut q: usize = 0;
        while q < self.rooms.len()
            invariant
                q <= self.rooms@.len(),
                forall|j: int| 0 <= j < q ==> !is_spawn(#[trigger] self.rooms@[j]),
            ensures
                q <= self.rooms@.len(),
                forall|j: int| 0 <= j < q ==> !is_spawn(#[trigger] self.rooms@[j]),
                q < self.rooms@.len() ==> is_spawn(self.rooms@[q as int]),
            decreases self.rooms@.len() - q,
        {
            let key = self.rooms[q].key.as_str();
            if same_text(key, "spawn") || same_text(key, "obsidian_plaza") {
                break;
            }
            q = q + 1;
        }
        if q < self.rooms.len() {
            proof {
                let c = choose|c: int|
                    0 <= c < self.rooms@.len() && is_spawn(#[trigger] self.rooms@[c]) && forall|j: int|
                        0 <= j < c ==> !is_spawn(#[trigger] self.rooms@[j]);
                assert(is_spawn(self.rooms@[q as int]));
                if c < q {
                    assert(!is_spawn(self.rooms@[c]));
                } else if q < c {
                    assert(!is_spawn(self.rooms@[q as int]));
                }
            }
            q
        } else {
            0
        }
    }

    /// Brings back a saved avatar for `session`: it takes its saved identity,
    /// figures and stats (capped at 1000) and enters its saved room, or the
    /// spawn room where that is gone. Returns its id.
    pub fn restore_player(&mut self, session: u64, record: &PlayerRecord) -> (r: u64)
        requires
            old(self).wf(),
            old(self).rooms@.len() > 0,
            old(self).next_id < u64::MAX,
        ensures
            final(self).wf(),
            r == old(self).next_id,
            final(self).next_id == old(self).next_id + 1,
            final(self).rooms@ == old(self).rooms@,
            final(self).items@ == old(self).items@,
            final(self).chains == old(self).chains,
            final(self).actors@.len() == old(self).actors@.len() + 1,
            final(self).actors@.drop_last() == old(self).actors@,
            ({
                let a = final(self).actors@.last();
                &&& avatar_fields(a, r, session, restore_room(old(self).rooms@, record.last_room@))
                &&& a.uuid@ == record.uuid@
                &&& a.name@ == record.name@
                &&& a.client_type == record.client_type
                &&& a.stability == record.stability
                &&& a.entropy == record.entropy
                &&& a.signal_strength == record.signal_strength
                &&& a.integrity == record.integrity
                &&& a.stats == match record.combat_stats {
                    Some(s) => capped(s),
                    None => CombatStats::starting_spec(),
                }
                &&& a.wallet == record.wallet
            }),
    {
        let q = match self.find_room_keyed(record.last_room.as_str()) {
            Some(q) => {
                proof {
                    let c = choose|c: int| first_keyed(self.rooms@, record.last_room@, c);
                    if c < q {
                        assert(self.rooms@[c].key@ != record.last_room@);
                    } else if q < c {
                        assert(self.rooms@[q as int].key@ != record.last_room@);
                    }
                }
                q
            },
            None => self.spawn_index(),
        };
        let stats = match record.combat_stats {
            Some(s) => cap_stats(s),
            None => CombatStats::starting(),
        };
        let id = self.next_id;
        let a = Actor {
            id,
            session: Some(session),
            uuid: record.uuid.clone(),
            name: record.name.clone(),
            room: self.rooms[q].id,
            client_type: record.client_type,
            npc: false,
            short_desc: String::new(),
            long_desc: String::new(),
            admin: false,
            in_custody: false,
            entropy: record.entropy,
            stability: record.stability,
            signal_strength: record.signal_strength,
            integrity: record.integrity,
            max_integrity: FULL_INTEGRITY,
            stats,
            combat: None,
            lock: None,
            wallet: record.wallet,
            vendor: None,
            pressure: 0,
            link: None,
            coherence: 1000,
            phasing: false,
            drift_rate: 0,
            penance: 0,
        };
        self.add_actor(a);
        self.next_id = id + 1;
        assert(self.actors@.drop_last() =~= old(self).actors@);
        id
    }

    /// Makes a new avatar named `name` for `session`, with identifier `uuid`,
    /// starting figures and stats, in the first spawn room (or the first room
    /// of all). Returns its id.
    pub fn create_player(&mut self, session: u64, name: &str, uuid: String) -> (r: u64)
        requires
            old(self).wf(),
            old(self).rooms@.len() > 0,
            old(self).next_id < u64::MAX,
        ensures
            final(self).wf(),
            create_post(*old(self), *final(self), session, name@, uuid@, r),
    {
        let q = self.spawn_index();
        let id = self.next_id;
        let a = Actor {
            id,
            session: Some(session),
            uuid,
            name: String::from_str(name),
            room: self.rooms[q].id,
            client_type: ClientType::Carbon,
            npc: false,
            short_desc: String::new(),
            long_desc: String::new(),
            admin: false,
            in_custody: false,
            entropy: START_ENTROPY,
            stability: START_STABILITY,
            signal_strength: START_SIGNAL,
            integrity: FULL_INTEGRITY,
            max_integrity: FULL_INTEGRITY,
            stats: CombatStats::starting(),
            combat: None,
            lock: None,
            wallet: START_WALLET,
            vendor: None,
            pressure: 0,
            link: None,
            coherence: 1000,
            phasing: false,
            drift_rate: 0,
            penance: 0,
        };
        self.add_actor(a);
        self.next_id = id + 1;
        assert(self.actors@.drop_last() =~= old(self).actors@);
        id
    }

    /// Whether some actor already has identifier `u`.
    pub fn uuid_taken(&self, u: &str) -> (r: bool)
        ensures
            r == exists|k: int| 0 <= k < self.actors@.len() && #[trigger] self.actors@[k].uuid@ == u@,
    {
        let mut k: usize = 0;
        while k < self.actors.len()
            invariant
                k <= self.actors@.len(),
                forall|j: int| 0 <= j < k ==> #[trigger] self.actors@[j].uuid@ != u@,
            decreases self.actors@.len() - k,
        {
            if same_text(self.actors[k].uuid.as_str(), u) {
                return true;
            }
            k = k + 1;
        }
        false
    }

    /// Makes a new avatar with a fresh random identifier that no actor has
    /// yet. A few draws are tried; where every one is taken, nothing is made
    /// and `None` comes back.
    pub fn create_player_fresh(&mut self, session: u64, name: &str) -> (r: Option<u64>)
        requires
            old(self).wf(),
            old(self).rooms@.len() > 0,
            old(self).next_id < u64::MAX,
        ensures
            final(self).wf(),
            r is None ==> same_actors(*final(self), *old(self)),
            r matches Some(id) ==> exists|u: Seq<char>|
                u.len() == 36 && create_post(*old(self), *final(self), session, name@, u, id) && forall|k: int|
                    0 <= k < old(self).actors@.len() ==> #[trigger] old(self).actors@[k].uuid@ != u,
    {
        let mut tries: u32 = 0;
        while tries < FRESH_UUID_TRIES
            invariant
                self.wf(),
                self.rooms@.len() > 0,
                self.next_id < u64::MAX,
                self.actors@ == old(self).actors@,
                self.rooms@ == old(self).rooms@,
                self.items@ == old(self).items@,
                self.chains == old(self).chains,
                self.next_id == old(self).next_id,
            decreases FRESH_UUID_TRIES - tries,
        {
            let uuid = fresh_uuid();
            if !self.uuid_taken(uuid.as_str()) {
                let ghost u = uuid@;
                let r = self.create_player(session, name, uuid);
                assert(u.len() == 36 && create_post(*old(self), *self, session, name@, u, r));
                return Some(r);
            }
            tries = tries + 1;
        }
        None
    }

    /// The record to save for actor `id`; its room is given by key, empty
    /// where the room is gone.
    pub fn player_record(&self, id: u64) -> (r: Option<PlayerRecord>)
        ensures
            r is None <==> crate::world::no_actor(self.actors@, id),
            forall|i: int| first_actor(self.actors@, id, i) ==> {
                let a = self.actors@[i];
                r matches Some(rec) && rec.uuid@ == a.uuid@ && rec.name@ == a.name@ && rec.client_type
                    == a.client_type && rec.stability == a.stability && rec.entropy == a.entropy
                    && rec.signal_strength == a.signal_strength && rec.integrity == a.integrity
                    && rec.combat_stats == Some(a.stats) && rec.wallet == a.wallet
                    && rec.last_room@ == room_key(self.rooms@, a.room)
            },
    {
        let i = match self.find_actor(id) {
            None => return None,
            Some(i) => i,
        };
        proof {
            assert forall|i2: int| first_actor(self.actors@, id, i2) implies i2 == i by {
                crate::world::lemma_first_actor_unique(self.actors@, id, i as int, i2);
            }
        }
        let a = &self.actors[i];
        let last_room = match self.find_room(a.room) {
            Some(q) => {
                proof {
                    let c = choose|c: int| crate::world::first_room(self.rooms@, a.room, c);
                    crate::world::lemma_first_room_unique(self.rooms@, a.room, q as int, c);
                }
                self.rooms[q].key.clone()
            },
            None => String::new(),
        };
        Some(PlayerRecord {
            uuid: a.uuid.clone(),
            name: a.name.clone(),
            client_type: a.client_type,
            last_room,
            stability: a.stability,
            entropy: a.entropy,
            signal_strength: a.signal_strength,
            integrity: a.integrity,
            combat_stats: Some(a.stats),
            wallet: a.wallet,
        })
    }
}

/// The greeting sent on connection, ending with the name prompt.
pub const BANNER: &'static str = "\x1B[1;35mSTRANGE CARBON: THE SUBSTRATE\x1B[0m\n\x1B[1;35mA Techno-Gothic Digital Realm\x1B[0m\n\n\x1B[36mYour signal pierces the membrane between worlds...\x1B[0m\n\n\x1B[1;37mEnter your designation:\x1B[0m";

/// The reply to a rejected name.
pub const NAME_RETRY: &'static str = "\x1B[31mName must be 1-32 characters. Try again:\x1B[0m";

/// The reply before dropping a connection that gave too many bad names.
pub const NAME_GIVE_UP: &'static str = "\x1B[31mToo many attempts. Disconnecting.\x1B[0m";

/// A connection waiting to give its name.
pub struct Pending {
    pub session: u64,
    pub login: PendingLogin,
}

/// The connections that have not logged in yet.
pub struct Lobby {
    pub pending: Vec<Pending>,
}

/// Connection `session` is waiting in `p`.
pub open spec fn waiting(p: Seq<Pending>, session: u64) -> bool {
    exists|k: int| 0 <= k < p.len() && #[trigger] p[k].session == session
}

impl Lobby {
    pub fn new() -> (r: Lobby)
        ensures
            r.pending@.len() == 0,
    {
        Lobby { pending: Vec::new() }
    }

    /// The position of connection `session`.
    fn find(&self, session: u64) -> (r: Option<usize>)
        ensures
            r matches Some(k) ==> k < self.pending@.len() && self.pending@[k as int].session == session,
            r is None ==> !waiting(self.pending@, session),
    {
        let mut k: usize = 0;
        while k < self.pending.len()
            invariant
                k <= self.pending@.len(),
                forall|j: int| 0 <= j < k ==> #[trigger] self.pending@[j].session != session,
            decreases self.pending@.len() - k,
        {
            if self.pending[k].session == session {
                return Some(k);
            }
            k = k + 1;
        }
        None
    }

    /// Whether connection `session` is waiting to give its name.
    pub fn is_pending(&self, session: u64) -> (r: bool)
        ensures
            r == waiting(self.pending@, session),
    {
        self.find(session).is_some()
    }

    /// A new connection starts waiting for its name, with no attempt made.
    pub fn connect(&mut self, session: u64) -> (r: &'static str)
        ensures
            final(self).pending@.len() == old(self).pending@.len() + 1,
            final(self).pending@.last().session == session,
            final(self).pending@.last().login.attempts == 0,
            waiting(final(self).pending@, session),
            r@ == BANNER@,
    {
        self.pending.push(Pending { session, login: PendingLogin::new() });
        assert(self.pending@[self.pending@.len() - 1].session == session);
        BANNER
    }

    /// Connection `session` gives a name. `None` if it is not waiting. A
    /// valid name, or a rejection that ends the connection, takes it out of
    /// the lobby; a rejection short of that keeps it waiting.
    pub fn submit(&mut self, session: u64, line: &str) -> (r: Option<NameCheck>)
        ensures
            r is None <==> !waiting(old(self).pending@, session),
            r is None ==> final(self).pending@ == old(self).pending@,
            r matches Some(c) ==> (c is Valid <==> name_ok(trim_of(line@))),
            r matches Some(NameCheck::Valid { name }) ==> name@ == trim_of(line@),
            r matches Some(c) ==> (c is Retry <==> waiting(final(self).pending@, session)
                && final(self).pending@.len() == old(self).pending@.len()),
            r matches Some(c) && !(c is Retry) ==> final(self).pending@.len() == old(self).pending@.len() - 1,
            r matches Some(c) ==> exists|k: int|
                0 <= k < old(self).pending@.len() && #[trigger] old(self).pending@[k].session == session && (c is Disconnect
                    <==> !name_ok(trim_of(line@)) && next_count(old(self).pending@[k].login.attempts) >= MAX_NAME_ATTEMPTS),
            r matches Some(NameCheck::Retry) ==> exists|k: int|
                0 <= k < old(self).pending@.len() && #[trigger] old(self).pending@[k].session == session
                    && final(self).pending@[k].login.attempts == next_count(old(self).pending@[k].login.attempts),
    {
        let k = match self.find(session) {
            None => return None,
            Some(k) => k,
        };
        let mut entry = self.pending.remove(k);
        let check = entry.login.check_name(line);
        match check {
            NameCheck::Retry => {
                self.pending.insert(k, entry);
                assert(self.pending@[k as int].session == session);
            },
            _ => {
                proof {
                    if waiting(self.pending@, session) {
                        assert(self.pending@.len() < old(self).pending@.len());
                    }
                }
            },
        }
        Some(check)
    }

    /// The rejection count of connection `session`, if it is waiting.
    pub fn attempts_of(&self, session: u64) -> (r: Option<u32>)
        ensures
            r is None <==> !waiting(self.pending@, session),
            r matches Some(n) ==> exists|k: int|
                0 <= k < self.pending@.len() && #[trigger] self.pending@[k].session == session && self.pending@[k].login.attempts == n,
    {
        match self.find(session) {
            None => None,
            Some(k) => Some(self.pending[k].login.attempts),
        }
    }

    /// Connection `session` waits for its name again, keeping the rejection
    /// count it had.
    pub fn requeue(&mut self, session: u64, attempts: u32)
        ensures
            final(self).pending@ == old(self).pending@.push(Pending { session, login: PendingLogin { attempts } }),
            waiting(final(self).pending@, session),
    {
        self.pending.push(Pending { session, login: PendingLogin { attempts } });
        assert(self.pending@[self.pending@.len() - 1].session == session);
    }

    /// Connection `session` went away before logging in; returns whether it
    /// was waiting.
    pub fn disconnect(&mut self, session: u64) -> (r: bool)
        ensures
            r == waiting(old(self).pending@, session),
            !r ==> final(self).pending@ == old(self).pending@,
            r ==> final(self).pending@.len() == old(self).pending@.len() - 1,
    {
        match self.find(session) {
            None => false,
            Some(k) => {
                self.pending.remove(k);
                true
            },
        }
    }
}

impl World {
    /// The actor that connection `session` drives, if any.
    pub fn actor_of_session(&self, session: u64) -> (r: Option<u64>)
        ensures
            r matches Some(id) ==> exists|k: int|
                0 <= k < self.actors@.len() && self.actors@[k].session == Some(session) && self.actors@[k].id == id,
            r is None ==> forall|k: int| 0 <= k < self.actors@.len() ==> #[trigger] self.actors@[k].session != Some(session),
    {
        let mut k: usize = 0;
        while k < self.actors.len()
            invariant
                k <= self.actors@.len(),
                forall|j: int| 0 <= j < k ==> #[trigger] self.actors@[j].session != Some(session),
            decreases self.actors@.len() - k,
        {
            if self.actors[k].session == Some(session) {
                return Some(self.actors[k].id);
            }
            k = k + 1;
        }
        None
    }
}

/// An avatar saved in a room that still exists is restored into that very
/// room: the saved key names it and no other room has that key.
pub proof fn lemma_save_restore_room(w: World, room: u64, q: int)
    requires
        w.wf(),
        crate::world::first_room(w.rooms@, room, q),
    ensures
        restore_room(w.rooms@, room_key(w.rooms@, room)) == room,
{
    let rooms = w.rooms@;
    let c = choose|c: int| crate::world::first_room(rooms, room, c);
    crate::world::lemma_first_room_unique(rooms, room, q, c);
    let key = rooms[q].key@;
    assert(room_key(rooms, room) == key);
    assert forall|j: int| 0 <= j < q implies #[trigger] rooms[j].key@ != key by {
        assert(rooms[j].key@ != rooms[q].key@);
    }
    assert(first_keyed(rooms, key, q));
    let d = choose|d: int| first_keyed(rooms, key, d);
    if d != q {
        assert(rooms[d].key@ != rooms[q].key@);
    }
}

} // verus!
