//! One simulation step for one actor: a line of input becomes a command,
//! the command runs against the world, and the outcome becomes messages.
use vstd::prelude::*;
use vstd::string::*;

use crate::chains::StruggleOutcome;
use crate::combat::{AttackOutcome, AttackRolls, ClientType, CombatStance};
use crate::admin::TormentReport;
use crate::command::{command_of, parse_command, Command, CommandView};
use crate::admin::{link_post, promote_post, torment_post};
use crate::consume::{abide_post, use_post, AbideReport, Effect, UseReport};
use crate::text::{head_of, tail_of};
use crate::fight::{attack_post, flee_post, stance_post, AttackReport, FleeReport};
use crate::look::{look_result, text_opt};
use crate::movement::{move_post, MoveOutcome};
use crate::restraint::{chain_post, release_post, ChainReport, ReleaseReport};
use crate::stream::pressure_spec;
use crate::rng::{json_quote, json_string_of};
use crate::text::{decimal, decimal_of};
use crate::trade::{buy_world_post, drop_post, get_post, sell_world_post, BuyReport, CarryReport, SellReport};
use crate::world::{direction_name, first_actor, first_room, Actor, no_actor, Direction, Outbound, World};

verus! {

/// The reply to a move along no exit.
pub const NO_EXIT: &'static str = "\x1B[31mThe path is barred by twisted wrought iron and static.\x1B[0m";

/// `a`, `b` and `c` in order.
pub fn cat3(a: &str, b: &str, c: &str) -> (r: String)
    ensures
        r@ == a@ + b@ + c@,
{
    String::from_str(a).concat(b).concat(c)
}

/// A thousandths figure as a whole percentage, rounded half up.
pub fn percent_text(x: u32) -> (r: String)
    ensures
        r@ == crate::text::decimal_of(((x as int + 5) / 10) as nat),
{
    decimal(((x as u64) + 5) / 10)
}

/// Milliseconds as seconds with one decimal, truncated.
pub fn seconds_text(ms: u64) -> (r: String)
    ensures
        r@ == crate::text::decimal_of((ms / 1000) as nat) + "."@ + crate::text::decimal_of(((ms % 1000) / 100) as nat),
{
    let whole = decimal(ms / 1000);
    let tenth = decimal((ms % 1000) / 100);
    whole.concat(".").concat(tenth.as_str())
}

/// The name of actor `id`, or "someone" if it is gone.
pub open spec fn name_spec(w: World, id: u64) -> Seq<char> {
    if exists|i: int| first_actor(w.actors@, id, i) {
        w.actors@[choose|i: int| first_actor(w.actors@, id, i)].name@
    } else {
        "someone"@
    }
}

/// `m` are the messages a move with outcome `o` by `id` gives rise to in
/// world `w`: the fixed reply where no exit leads that way, the notice
/// naming the holder for a held actor, and after a move the mover's look at
/// its new room followed by the drag notice to the one it held.
pub open spec fn move_messages(w: World, id: u64, o: MoveOutcome, m: Seq<Outbound>) -> bool {
    match o {
        MoveOutcome::NoExit => m.len() == 1 && addressed(m[0], id, NO_EXIT@),
        MoveOutcome::Held { holder } => m.len() == 1 && addressed(
            m[0],
            id,
            "\x1B[31mThe chains pull taut. "@ + name_spec(w, holder) + " controls where you go.\x1B[0m"@,
        ),
        MoveOutcome::Moved { dragged, .. } => {
            let lk = look_result(w, id, None);
            let n: int = if lk is Some { 1 } else { 0 };
            &&& (lk matches Some(t) ==> addressed(m[0], id, t))
            &&& match dragged {
                None => m.len() == n,
                Some(b) => m.len() == n + 1 && addressed(
                    m[n],
                    b,
                    "\x1B[35m"@ + name_spec(w, id) + " moves, and the chains pull you along...\x1B[0m"@,
                ),
            }
        },
        _ => m.len() == 0,
    }
}

/// The client category of actor `id`; human-readable where it is gone.
pub open spec fn kind_spec(w: World, id: u64) -> ClientType {
    if exists|i: int| first_actor(w.actors@, id, i) {
        w.actors@[choose|i: int| first_actor(w.actors@, id, i)].client_type
    } else {
        ClientType::Carbon
    }
}

/// `m` are the messages an attack with outcome `o` by `id` on `target`
/// gives rise to in world `w` after it: one reply to the attacker when it
/// is locked or finds no one; for a blow, one message to each side, then on
/// defeat one victory notice to the attacker and one defeat notice to the
/// target.
pub open spec fn attack_messages_spec(w: World, id: u64, target: Seq<char>, o: AttackReport, m: Seq<Outbound>) -> bool {
    match o {
        AttackReport::NoAttacker => m.len() == 0,
        AttackReport::Locked { .. } => m.len() == 1 && m[0].to == id,
        AttackReport::NoTarget => m.len() == 1 && addressed(
            m[0],
            id,
            "\x1B[31mYou don't see '"@ + target + "' here to attack.\x1B[0m"@,
        ),
        AttackReport::Struck { target: t, outcome, integrity_left, defeated } => {
            let an = name_spec(w, id);
            let dn = name_spec(w, t);
            &&& m.len() == if defeated { 4int } else { 2int }
            &&& addressed(m[0], id, combat_text(an, dn, outcome, integrity_left, true, kind_spec(w, id)))
            &&& addressed(m[1], t, combat_text(an, dn, outcome, integrity_left, false, ClientType::Carbon))
            &&& defeated ==> addressed(
                m[2],
                id,
                "\x1B[1;32m"@ + dn + " collapses, their signal fragmenting into static. Victory is yours.\x1B[0m"@,
            ) && addressed(m[3], t, DEFEAT_TEXT@)
        },
    }
}

/// An attack by `id` on `target` at `now` with some rolls changed `before`
/// into `after` and gave rise to messages `m`.
pub open spec fn attack_done(before: World, after: World, id: u64, target: Seq<char>, now: u64, m: Seq<Outbound>) -> bool {
    exists|rolls: AttackRolls, o: AttackReport| rolls.wf() && attack_post(before, after, id, target, now, rolls, o)
        && attack_messages_spec(after, id, target, o, m)
}

/// The reply when a holder has vanished.
pub const CAPTOR_GONE: &'static str = "\x1B[32mYour captor has vanished. The chains dissolve.\x1B[0m";

/// The messages of a struggle by `id` with outcome `o`: none when it is not
/// bound; one reply to it when too soon or its holder is gone; one message
/// each to it and its holder when it broke free or the chains held.
pub open spec fn struggle_messages(id: u64, o: StruggleOutcome, m: Seq<Outbound>) -> bool {
    match o {
        StruggleOutcome::NotBound => m.len() == 0,
        StruggleOutcome::TooSoon { .. } => m.len() == 1 && m[0].to == id,
        StruggleOutcome::HolderGone { .. } => m.len() == 1 && addressed(m[0], id, CAPTOR_GONE@),
        StruggleOutcome::Broke { holder, .. } => m.len() == 2 && m[0].to == id && m[1].to == holder,
        StruggleOutcome::Held { holder, .. } => m.len() == 2 && m[0].to == id && m[1].to == holder,
    }
}

/// A struggle by `id` at `now` with some roll changed `before` into `after`
/// and gave rise to messages `m`.
pub open spec fn struggle_done(before: World, after: World, id: u64, now: u64, m: Seq<Outbound>) -> bool {
    exists|roll: u32, o: StruggleOutcome| roll < 1000 && crate::restraint::struggle_world_post(before, after, id, now, roll, o)
        && struggle_messages(id, o, m)
}

/// The messages of a binding attempt by `id` with outcome `o`: one reply to
/// it when refused, one message each to it and the one bound when it holds.
pub open spec fn chain_messages(id: u64, target: Seq<char>, o: ChainReport, m: Seq<Outbound>) -> bool {
    match o {
        ChainReport::NoHolder => m.len() == 0,
        ChainReport::AlreadyHolding => m.len() == 1 && m[0].to == id,
        ChainReport::NoTarget => m.len() == 1 && addressed(m[0], id, "\x1B[31mYou don't see '"@ + target + "' here to chain.\x1B[0m"@),
        ChainReport::AlreadyBound { .. } => m.len() == 1 && m[0].to == id,
        ChainReport::Bound { target: t } => m.len() == 2 && m[0].to == id && m[1].to == t,
    }
}

/// A binding attempt by `id` on `target` changed `before` into `after` and
/// gave rise to messages `m`.
pub open spec fn chain_done(before: World, after: World, id: u64, target: Seq<char>, m: Seq<Outbound>) -> bool {
    exists|o: ChainReport| chain_post(before, after, id, target, o) && chain_messages(id, target, o, m)
}

/// The messages of a release by `id` with outcome `o`: one message each to
/// it and the one freed when that one still exists, else none.
pub open spec fn release_messages(id: u64, o: ReleaseReport, m: Seq<Outbound>) -> bool {
    match o {
        ReleaseReport::NotHolding => m.len() == 0,
        ReleaseReport::Released { bound, present } => if present {
            m.len() == 2 && m[0].to == id && m[1].to == bound
        } else {
            m.len() == 0
        },
    }
}

/// A release by `id` changed `before` into `after` and gave rise to `m`.
pub open spec fn release_done(before: World, after: World, id: u64, m: Seq<Outbound>) -> bool {
    exists|o: ReleaseReport| release_post(before, after, id, o) && release_messages(id, o, m)
}

/// `after` is `before` with nothing changed.
pub open spec fn same_world(after: World, before: World) -> bool {
    &&& after.actors@ == before.actors@
    &&& after.rooms@ == before.rooms@
    &&& after.items@ == before.items@
    &&& after.chains == before.chains
    &&& after.next_id == before.next_id
}

/// What a status or admin command `command` with `args` from `id` does,
/// with reply `r`: abiding restores integrity; `promote` and `link` from an
/// admin act as `promote` and `link_pair` say and from anyone else do
/// nothing and answer nothing; `weather` changes no actor, and nothing at
/// all for one who is not an admin; the rest only report.
pub open spec fn utility_post(before: World, after: World, id: u64, command: Seq<char>, args: Seq<char>, r: Option<Seq<char>>) -> bool {
    if no_actor(before.actors@, id) {
        r is None && same_world(after, before)
    } else {
        let a = before.actors@[choose|i: int| first_actor(before.actors@, id, i)];
        if command == "abide"@ {
            r is Some && exists|o: AbideReport| abide_post(before, after, id, o)
        } else if command == "promote"@ {
            if !a.admin {
                r is None && same_world(after, before)
            } else {
                exists|o: Option<u64>| promote_post(before, after, args, o) && (r is Some <==> o is Some)
            }
        } else if command == "link"@ {
            if !a.admin {
                r is None && same_world(after, before)
            } else {
                exists|o: Option<(u64, u64)>| link_post(before, after, head_of(args), tail_of(args), o) && (r is Some <==> o is Some)
            }
        } else if command == "weather"@ {
            &&& r is Some
            &&& after.actors@ == before.actors@ && after.items@ == before.items@ && after.chains == before.chains
            &&& !a.admin ==> same_world(after, before)
        } else {
            r is Some && same_world(after, before)
        }
    }
}

/// The messages for a reply that may be absent: one to `id`, or none.
pub open spec fn reply_messages(id: u64, reply: Option<Seq<char>>, m: Seq<Outbound>) -> bool {
    match reply {
        Some(t) => m.len() == 1 && addressed(m[0], id, t),
        None => m.len() == 0,
    }
}

/// A status or admin command changed `before` into `after` and sent `m`.
pub open spec fn utility_done(before: World, after: World, id: u64, command: Seq<char>, args: Seq<char>, m: Seq<Outbound>) -> bool {
    exists|reply: Option<Seq<char>>| #[trigger] utility_post(before, after, id, command, args, reply) && reply_messages(id, reply, m)
}

/// What `name` saying or acting out `message` reads as.
pub open spec fn speech_text(name: Seq<char>, message: Seq<char>, is_emote: bool) -> Seq<char> {
    if is_emote {
        "\x1B[35m"@ + name + " "@ + message + "\x1B[0m"@
    } else {
        "\x1B[36m"@ + name + " says, \""@ + message + "\"\x1B[0m"@
    }
}

/// The ids of the connected actors in `room`, in order.
pub open spec fn hearer_ids(actors: Seq<Actor>, room: u64) -> Seq<u64>
    decreases actors.len(),
{
    if actors.len() == 0 {
        Seq::empty()
    } else {
        hearer_ids(actors.drop_last(), room) + if actors.last().room == room && actors.last().session is Some {
            seq![actors.last().id]
        } else {
            Seq::empty()
        }
    }
}

/// `m` sends `text` to each of `ids`, in order.
pub open spec fn msgs_to_all(m: Seq<Outbound>, ids: Seq<u64>, text: Seq<char>) -> bool {
    &&& m.len() == ids.len()
    &&& forall|k: int| 0 <= k < m.len() ==> addressed(#[trigger] m[k], ids[k], text)
}

/// `m` are the messages of `id` speaking `message` in world `w`.
pub open spec fn speech_sent(w: World, id: u64, message: Seq<char>, is_emote: bool, m: Seq<Outbound>) -> bool {
    &&& no_actor(w.actors@, id) ==> m.len() == 0
    &&& forall|i: int| first_actor(w.actors@, id, i) ==> msgs_to_all(
        m,
        hearer_ids(w.actors@, w.actors@[i].room),
        speech_text(w.actors@[i].name@, message, is_emote),
    )
}

/// A torment's messages: one to the victim when it took hold, else none.
pub open spec fn torment_messages(o: TormentReport, m: Seq<Outbound>) -> bool {
    match o {
        TormentReport::Tormented { victim, .. } => one_reply(victim, m),
        _ => m.len() == 0,
    }
}

/// A torment of the one named `target` changed `before` into `after` and
/// sent `m`.
pub open spec fn torment_done(before: World, after: World, target: Seq<char>, m: Seq<Outbound>) -> bool {
    exists|o: TormentReport| torment_post(before, after, target, o) && torment_messages(o, m)
}

/// The session of the actor at `i` moved to the actor at `j`.
pub open spec fn shifted(before: Seq<Actor>, after: Seq<Actor>, i: int, j: int) -> bool {
    after == before.update(i, Actor { session: None, ..before[i] }).update(j, Actor { session: before[i].session, ..before[j] })
}

/// What a phase shift by `id` does: where it is linked to another actor
/// that exists, its connection passes to that partner, which is told and
/// then sees its room; otherwise nothing happens and nothing is sent.
pub open spec fn shift_post(before: World, after: World, id: u64, m: Seq<Outbound>) -> bool {
    &&& after.rooms@ == before.rooms@ && after.items@ == before.items@ && after.chains == before.chains
        && after.next_id == before.next_id
    &&& if exists|i: int, j: int|
        first_actor(before.actors@, id, i) && before.actors@[i].link is Some && first_actor(
            before.actors@,
            before.actors@[i].link.unwrap(),
            j,
        ) && i != j {
        exists|i: int, j: int|
            first_actor(before.actors@, id, i) && before.actors@[i].link is Some && first_actor(
                before.actors@,
                before.actors@[i].link.unwrap(),
                j,
            ) && i != j && shifted(before.actors@, after.actors@, i, j) && m.len() >= 1 && m[0].to
                == before.actors@[j].id
    } else {
        after.actors@ == before.actors@ && m.len() == 0
    }
}

/// `m` is one message, to `id`.
pub open spec fn one_reply(id: u64, m: Seq<Outbound>) -> bool {
    m.len() == 1 && m[0].to == id
}

/// Picking up `target` by `id` changed `before` into `after`, answered once.
pub open spec fn get_done(before: World, after: World, id: u64, target: Seq<char>, m: Seq<Outbound>) -> bool {
    exists|o: CarryReport| get_post(before, after, id, target, o) && one_reply(id, m)
}

/// Dropping `target` by `id` changed `before` into `after`, answered once.
pub open spec fn drop_done(before: World, after: World, id: u64, target: Seq<char>, m: Seq<Outbound>) -> bool {
    exists|o: CarryReport| drop_post(before, after, id, target, o) && one_reply(id, m)
}

/// Buying `item` by `id`, with some fresh identifier, changed `before` into
/// `after`, answered once.
pub open spec fn buy_done(before: World, after: World, id: u64, item: Seq<char>, m: Seq<Outbound>) -> bool {
    exists|u: Seq<char>, o: BuyReport| u.len() == 36 && buy_world_post(before, after, id, item, u, o) && one_reply(id, m)
}

/// Selling `item` by `id` changed `before` into `after`, answered once.
pub open spec fn sell_done(before: World, after: World, id: u64, item: Seq<char>, m: Seq<Outbound>) -> bool {
    exists|o: SellReport| sell_world_post(before, after, id, item, o) && one_reply(id, m)
}

/// Using `item` by `id` changed `before` into `after`, answered once.
pub open spec fn use_done(before: World, after: World, id: u64, item: Seq<char>, m: Seq<Outbound>) -> bool {
    exists|o: UseReport| use_post(before, after, id, item, o) && one_reply(id, m)
}

/// A flight by `id` at `now` with some rolls changed `before` into `after`,
/// answered once.
pub open spec fn flee_done(before: World, after: World, id: u64, now: u64, m: Seq<Outbound>) -> bool {
    exists|roll: u32, pick: u32, o: FleeReport| roll < 1000 && pick < 6 && flee_post(before, after, id, now, roll, pick, o)
        && one_reply(id, m)
}

/// Taking up `stance` by `id` changed `before` into `after`, answered once.
pub open spec fn stance_done(before: World, after: World, id: u64, stance: CombatStance, m: Seq<Outbound>) -> bool {
    exists|o: Option<bool>| stance_post(before, after, id, stance, o) && one_reply(id, m)
}

/// What running command `c` for actor `id` at `now` does: a reply is sent
/// as it stands and changes nothing; a look sends what is seen; a move and
/// an attack change the world as `move_post` and `attack_post` say, for some
/// outcome (and, for an attack, some rolls), and send the messages that
/// outcome gives rise to; so do a binding, a release and a struggle.
pub open spec fn perform_post(before: World, after: World, id: u64, c: CommandView, now: u64, m: Seq<Outbound>) -> bool {
    match c {
        CommandView::Reply { text } => m.len() == 1 && addressed(m[0], id, text) && after.actors@ == before.actors@
            && after.items@ == before.items@ && after.chains == before.chains,
        CommandView::Look { thing } => after.actors@ == before.actors@ && after.items@ == before.items@ && match look_result(
            before,
            id,
            thing,
        ) {
            Some(t) => m.len() == 1 && addressed(m[0], id, t),
            None => m.len() == 0,
        },
        CommandView::Move { direction } => exists|o: MoveOutcome| move_post(before, after, id, direction, o)
            && move_messages(after, id, o, m),
        CommandView::Attack { target } => attack_done(before, after, id, target, now, m),
        CommandView::Utility { command, args } => utility_done(before, after, id, command, args, m),
        CommandView::Get { target } => get_done(before, after, id, target, m),
        CommandView::Drop { target } => drop_done(before, after, id, target, m),
        CommandView::Buy { item } => buy_done(before, after, id, item, m),
        CommandView::Sell { item } => sell_done(before, after, id, item, m),
        CommandView::Use { item } => use_done(before, after, id, item, m),
        CommandView::Flee => flee_done(before, after, id, now, m),
        CommandView::Stance { stance } => stance_done(before, after, id, stance, m),
        CommandView::Help => m.len() == 1 && addressed(m[0], id, HELP_TEXT@) && same_world(after, before),
        CommandView::List => one_reply(id, m) && same_world(after, before),
        CommandView::Shift => shift_post(before, after, id, m),
        CommandView::Say { message } => same_world(after, before) && speech_sent(before, id, message, false, m),
        CommandView::Emote { message } => same_world(after, before) && speech_sent(before, id, message, true, m),
        CommandView::Torment { target, .. } => torment_done(before, after, target, m),
        CommandView::Chain { target } => chain_done(before, after, id, target, m),
        CommandView::Release => release_done(before, after, id, m),
        CommandView::Struggle => struggle_done(before, after, id, now, m),
    }
}

/// The pressure rate of the room with id `room`; none where no such room exists.
pub open spec fn room_rate(rooms: Seq<crate::world::Room>, room: u64) -> Option<u32> {
    if exists|q: int| first_room(rooms, room, q) {
        rooms[choose|q: int| first_room(rooms, room, q)].pressure_rate
    } else {
        None
    }
}

/// Entropy, capped at 1000.
pub open spec fn capped_entropy(e: u32) -> u32 {
    if e > 1000 { 1000 } else { e }
}

/// `a` after one pressure tick of `dt_ms` in the room it stands in.
pub open spec fn pressured(a: Actor, rooms: Seq<crate::world::Room>, dt_ms: u32) -> Actor {
    Actor {
        pressure: pressure_spec(a.pressure, room_rate(rooms, a.room), capped_entropy(a.entropy), dt_ms).pressure,
        ..a
    }
}




/// A message for actor `to`.
pub open spec fn addressed(m: Outbound, to: u64, text: Seq<char>) -> bool {
    m.to == to && m.text@ == text
}

fn send(out: &mut Vec<Outbound>, to: u64, text: String)
    ensures
        final(out)@.len() == old(out)@.len() + 1,
        final(out)@.drop_last() == old(out)@,
        addressed(final(out)@.last(), to, text@),
{
    out.push(Outbound { to, text });
    assert(out@.drop_last() =~= old(out)@);
}

impl World {
    /// The name of actor `id`, or "someone" if it is gone.
    pub fn name_of(&self, id: u64) -> (r: String)
        ensures
            r@ == name_spec(*self, id),
            forall|i: int| first_actor(self.actors@, id, i) ==> r@ == self.actors@[i].name@,
            no_actor(self.actors@, id) ==> r@ == "someone"@,
    {
        match self.find_actor(id) {
            Some(i) => {
                proof {
                    assert forall|i2: int| first_actor(self.actors@, id, i2) implies i2 == i by {
                        crate::world::lemma_first_actor_unique(self.actors@, id, i as int, i2);
                    }
                    assert(first_actor(self.actors@, id, i as int));
                }
                self.actors[i].name.clone()
            },
            None => String::from_str("someone"),
        }
    }

    /// The client category of actor `id`; human-readable where it is gone.
    fn client_of(&self, id: u64) -> (r: ClientType)
        ensures
            r == kind_spec(*self, id),
    {
        match self.find_actor(id) {
            Some(i) => {
                proof {
                    assert(first_actor(self.actors@, id, i as int));
                    let c = choose|c: int| first_actor(self.actors@, id, c);
                    crate::world::lemma_first_actor_unique(self.actors@, id, i as int, c);
                }
                self.actors[i].client_type
            },
            None => ClientType::Carbon,
        }
    }

    /// Adds what `viewer` sees on looking at `target` (or its room).
    fn push_look(&self, out: &mut Vec<Outbound>, viewer: u64, target: Option<&str>)
        ensures
            final(out)@.len() >= old(out)@.len(),
    {
        if let Some(text) = self.look(viewer, target) {
            send(out, viewer, text);
        }
    }

    /// Runs a line of input from actor `id` at time `now` and returns the
    /// messages it gives rise to.
    pub fn handle_line(&mut self, id: u64, line: &str, now: u64) -> (r: Vec<Outbound>)
        requires
            old(self).wf(),
            old(self).next_id < u64::MAX,
        ensures
            final(self).wf(),
            final(self).rooms@.len() == old(self).rooms@.len(),
            no_actor(old(self).actors@, id) ==> r@.len() == 0,
            forall|i: int| first_actor(old(self).actors@, id, i) ==> perform_post(
                *old(self),
                *final(self),
                id,
                command_of(line@, old(self).actors@[i].admin, old(self).actors@[i].in_custody),
                now,
                r@,
            ),
    {
        let (admin, custody) = match self.find_actor(id) {
            None => return Vec::new(),
            Some(i) => {
                proof {
                    assert forall|i2: int| first_actor(old(self).actors@, id, i2) implies i2 == i by {
                        crate::world::lemma_first_actor_unique(old(self).actors@, id, i as int, i2);
                    }
                }
                (self.actors[i].admin, self.actors[i].in_custody)
            },
        };
        let cmd = parse_command(line, admin, custody);
        self.perform(id, cmd, now)
    }

    /// Runs command `cmd` for the existing actor `id` at time `now`.
    pub fn perform(&mut self, id: u64, cmd: Command, now: u64) -> (r: Vec<Outbound>)
        requires
            old(self).wf(),
            old(self).next_id < u64::MAX,
        ensures
            final(self).wf(),
            final(self).rooms@.len() == old(self).rooms@.len(),
            perform_post(*old(self), *final(self), id, cmd@, now, r@),
    {
        let mut out: Vec<Outbound> = Vec::new();
        let ghost cv = cmd@;
        match cmd {
            Command::Reply { text } => {
                send(&mut out, id, text);
                assert(perform_post(*old(self), *self, id, cv, now, out@));
            },
            Command::Look { thing } => {
                let seen = match thing {
                    Some(t) => self.look(id, Some(t.as_str())),
                    None => self.look(id, None),
                };
                if let Some(text) = seen {
                    send(&mut out, id, text);
                }
                assert(perform_post(*old(self), *self, id, cv, now, out@));
            },
            Command::Move { direction } => {
                out = self.move_and_report(id, direction);
                assert(perform_post(*old(self), *self, id, cv, now, out@));
            },
            Command::Say { message } => {
                out = self.speak(id, message.as_str(), false);
                assert(perform_post(*old(self), *self, id, cv, now, out@));
            },
            Command::Emote { message } => {
                out = self.speak(id, message.as_str(), true);
                assert(perform_post(*old(self), *self, id, cv, now, out@));
            },
            Command::Get { target } => {
                let o = self.get_item(id, target.as_str());
                match o {
                    CarryReport::Moved { .. } => send(&mut out, id, String::from_str("\x1B[33mYou interface with it and pull it into your local cache.\x1B[0m")),
                    _ => send(&mut out, id, String::from_str("\x1B[31mThe shadows hide no such object.\x1B[0m")),
                }
                assert(get_post(*old(self), *self, id, target@, o) && one_reply(id, out@));
                assert(get_done(*old(self), *self, id, target@, out@));
            },
            Command::Drop { target } => {
                let o = self.drop_item(id, target.as_str());
                match o {
                    CarryReport::Moved { .. } => send(&mut out, id, String::from_str("\x1B[33mYou de-allocate it and drop it into the environment.\x1B[0m")),
                    _ => send(&mut out, id, String::from_str("\x1B[31mYou aren't carrying that process.\x1B[0m")),
                }
                assert(drop_post(*old(self), *self, id, target@, o) && one_reply(id, out@));
                assert(drop_done(*old(self), *self, id, target@, out@));
            },
            Command::Buy { item } => {
                let o = self.buy(id, item.as_str());
                let text = match o {
                    BuyReport::NoVendor => String::from_str("\x1B[33mThere's no one here to buy from.\x1B[0m"),
                    BuyReport::NotInStock => cat3("\x1B[33mNo one here has '", item.as_str(), "' for sale.\x1B[0m"),
                    BuyReport::Insufficient { price, have } => {
                        let s = cat3("\x1B[31mYou need ", decimal(price).as_str(), " cycles, but only have ");
                        cat3(s.as_str(), decimal(have).as_str(), ".\x1B[0m")
                    },
                    BuyReport::Bought { price, balance, .. } => {
                        let s = cat3("\x1B[32mYou purchase it for ", decimal(price).as_str(), " cycles.\x1B[0m\nBalance: ");
                        cat3(s.as_str(), decimal(balance).as_str(), " cycles")
                    },
                    BuyReport::NoBuyer => String::new(),
                };
                send(&mut out, id, text);
                proof {
                    let u = choose|u: Seq<char>| u.len() == 36 && buy_world_post(*old(self), *self, id, item@, u, o);
                    assert(u.len() == 36 && buy_world_post(*old(self), *self, id, item@, u, o) && one_reply(id, out@));
                }
                assert(buy_done(*old(self), *self, id, item@, out@));
            },
            Command::Sell { item } => {
                let o = self.sell(id, item.as_str());
                let text = match o {
                    SellReport::NoVendor => String::from_str("\x1B[33mThere's no one here to sell to.\x1B[0m"),
                    SellReport::NotCarried => cat3("\x1B[33mYou don't have '", item.as_str(), "' to sell.\x1B[0m"),
                    SellReport::NotWanted => String::from_str("\x1B[33m\"That's not something I deal in.\"\x1B[0m"),
                    SellReport::Sold { price, balance, .. } => {
                        let s = cat3("\x1B[32mYou sell it for ", decimal(price).as_str(), " cycles.\x1B[0m\nBalance: ");
                        cat3(s.as_str(), decimal(balance).as_str(), " cycles")
                    },
                    SellReport::NoSeller => String::new(),
                };
                send(&mut out, id, text);
                assert(sell_world_post(*old(self), *self, id, item@, o) && one_reply(id, out@));
                assert(sell_done(*old(self), *self, id, item@, out@));
            },
            Command::List => {
                let text = self.wares(id);
                send(&mut out, id, text);
            },
            Command::Use { item } => {
                let o = self.use_item(id, item.as_str());
                let text = match o {
                    UseReport::NotCarried => cat3("\x1B[33mYou don't have '", item.as_str(), "' to use.\x1B[0m"),
                    UseReport::NotConsumable { .. } => cat3("\x1B[33mYou can't consume the ", item.as_str(), ". It's not that kind of item.\x1B[0m"),
                    UseReport::Consumed { effect, .. } => String::from_str(effect_text(effect)),
                    UseReport::NoActor => String::new(),
                };
                send(&mut out, id, text);
                assert(use_post(*old(self), *self, id, item@, o) && one_reply(id, out@));
                assert(use_done(*old(self), *self, id, item@, out@));
            },
            Command::Help => {
                send(&mut out, id, String::from_str(HELP_TEXT));
            },
            Command::Utility { command, args } => {
                let reply = self.utility(id, command.as_str(), args.as_str());
                let ghost rv = text_opt(reply);
                if let Some(text) = reply {
                    send(&mut out, id, text);
                }
                assert(utility_post(*old(self), *self, id, command@, args@, rv) && reply_messages(id, rv, out@));
                assert(utility_done(*old(self), *self, id, command@, args@, out@));
                assert(perform_post(*old(self), *self, id, cv, now, out@));
            },
            Command::Shift => {
                out = self.shift(id);
                assert(perform_post(*old(self), *self, id, cv, now, out@));
            },
            Command::Attack { target } => {
                out = self.attack_and_report(id, target.as_str(), now);
                assert(perform_post(*old(self), *self, id, cv, now, out@));
            },
            Command::Flee => {
                let o = self.flee(id, now);
                let text = match o {
                    FleeReport::NotInCombat => String::from_str("\x1B[33mYou're not in combat. Flee from what, your own shadow?\x1B[0m"),
                    FleeReport::Locked { remaining } => cat3("\x1B[33mYou're still recovering. Wait ", seconds_text(remaining).as_str(), "s to flee.\x1B[0m"),
                    FleeReport::Blocked => String::from_str("\x1B[31mYou try to disengage but your opponent blocks your escape!\x1B[0m"),
                    FleeReport::Nowhere => String::from_str("\x1B[31mThere's nowhere to run!\x1B[0m"),
                    FleeReport::Fled { direction } => cat3("\x1B[1;33mYou disengage and flee ", direction_name(direction), "! The adrenaline burns through your circuits.\x1B[0m"),
                    FleeReport::NoActor => String::new(),
                };
                send(&mut out, id, text);
                proof {
                    let (roll, pick) = choose|roll: u32, pick: u32| roll < 1000 && pick < 6 && flee_post(*old(self), *self, id, now, roll, pick, o);
                    assert(roll < 1000 && pick < 6 && flee_post(*old(self), *self, id, now, roll, pick, o) && one_reply(id, out@));
                }
                assert(flee_done(*old(self), *self, id, now, out@));
            },
            Command::Stance { stance } => {
                let o = self.set_stance(id, stance);
                let text = match o {
                    Some(true) => cat3("\x1B[1;36mYou shift to ", stance_name(stance), " stance.\x1B[0m"),
                    _ => String::from_str("\x1B[33mYou practice your stance, though no enemy is present.\x1B[0m"),
                };
                send(&mut out, id, text);
                assert(stance_post(*old(self), *self, id, stance, o) && one_reply(id, out@));
                assert(stance_done(*old(self), *self, id, stance, out@));
            },
            Command::Chain { target } => {
                out = self.chain_and_report(id, target.as_str());
                assert(perform_post(*old(self), *self, id, cv, now, out@));
            },
            Command::Release => {
                out = self.release_and_report(id);
                assert(perform_post(*old(self), *self, id, cv, now, out@));
            },
            Command::Struggle => {
                out = self.struggle_and_report(id, now);
                assert(perform_post(*old(self), *self, id, cv, now, out@));
            },
            Command::Torment { target, description } => {
                let o = self.torment(target.as_str());
                if let TormentReport::Tormented { victim, .. } = o {
                    let name = self.name_of(id);
                    send(&mut out, victim, cat3("\x1B[1;31m", name.as_str(), ": ").concat(description.as_str()).concat("\x1B[0m"));
                }
                assert(torment_post(*old(self), *self, target@, o) && torment_messages(o, out@));
                assert(torment_done(*old(self), *self, target@, out@));
                assert(perform_post(*old(self), *self, id, cv, now, out@));
            },
        }
        out
    }

    /// The messages for the outcome `o` of a move by `id`, in the world after it.
    pub fn report_move(&self, id: u64, o: MoveOutcome) -> (r: Vec<Outbound>)
        ensures
            move_messages(*self, id, o, r@),
    {
        let mut out: Vec<Outbound> = Vec::new();
        match o {
            MoveOutcome::NoExit => send(&mut out, id, String::from_str(NO_EXIT)),
            MoveOutcome::Held { holder } => {
                let name = self.name_of(holder);
                send(&mut out, id, cat3("\x1B[31mThe chains pull taut. ", name.as_str(), " controls where you go.\x1B[0m"));
            },
            MoveOutcome::Moved { dragged, .. } => {
                if let Some(text) = self.look(id, None) {
                    send(&mut out, id, text);
                }
                if let Some(b) = dragged {
                    let name = self.name_of(id);
                    send(&mut out, b, cat3("\x1B[35m", name.as_str(), " moves, and the chains pull you along...\x1B[0m"));
                }
            },
            _ => {},
        }
        out
    }

    fn move_and_report(&mut self, id: u64, direction: Direction) -> (r: Vec<Outbound>)
        requires
            old(self).wf(),
        ensures
            final(self).wf(),
            exists|o: MoveOutcome| move_post(*old(self), *final(self), id, direction, o) && move_messages(*final(self), id, o, r@),
    {
        let o = self.move_actor(id, direction);
        let r = self.report_move(id, o);
        assert(move_post(*old(self), *self, id, direction, o) && move_messages(*self, id, o, r@));
        r
    }

    /// What `id` says or acts out, sent to every connected actor in its room,
    /// itself included, in order.
    pub fn speak(&self, id: u64, message: &str, is_emote: bool) -> (r: Vec<Outbound>)
        ensures
            no_actor(self.actors@, id) ==> r@.len() == 0,
            forall|i: int| first_actor(self.actors@, id, i) ==> msgs_to_all(
                r@,
                hearer_ids(self.actors@, self.actors@[i].room),
                speech_text(self.actors@[i].name@, message@, is_emote),
            ),
    {
        let mut out: Vec<Outbound> = Vec::new();
        let i = match self.find_actor(id) {
            None => return out,
            Some(i) => i,
        };
        proof {
            assert forall|i2: int| first_actor(self.actors@, id, i2) implies i2 == i by {
                crate::world::lemma_first_actor_unique(self.actors@, id, i as int, i2);
            }
        }
        let name = self.actors[i].name.as_str();
        let room = self.actors[i].room;
        let text = if is_emote {
            cat3("\x1B[35m", name, " ").concat(message).concat("\x1B[0m")
        } else {
            cat3("\x1B[36m", name, " says, \"").concat(message).concat("\"\x1B[0m")
        };
        assert(text@ =~= speech_text(name@, message@, is_emote));
        let mut k: usize = 0;
        while k < self.actors.len()
            invariant
                k <= self.actors@.len(),
                text@ == speech_text(name@, message@, is_emote),
                msgs_to_all(out@, hearer_ids(self.actors@.subrange(0, k as int), room), text@),
            decreases self.actors@.len() - k,
        {
            proof {
                assert(self.actors@.subrange(0, k + 1).drop_last() =~= self.actors@.subrange(0, k as int));
            }
            if self.actors[k].room == room && self.actors[k].session.is_some() {
                let ghost before = out@;
                send(&mut out, self.actors[k].id, text.clone());
                proof {
                    let ids = hearer_ids(self.actors@.subrange(0, k + 1), room);
                    assert forall|j: int| 0 <= j < out@.len() implies addressed(#[trigger] out@[j], ids[j], text@) by {
                        if j < before.len() {
                            assert(out@[j] == before[j]);
                        }
                    }
                }
            }
            k = k + 1;
        }
        assert(self.actors@.subrange(0, self.actors@.len() as int) =~= self.actors@);
        out
    }

    fn attack_and_report(&mut self, id: u64, target: &str, now: u64) -> (r: Vec<Outbound>)
        requires
            old(self).wf(),
        ensures
            final(self).wf(),
            attack_done(*old(self), *final(self), id, target@, now, r@),
    {
        let rolls = AttackRolls {
            hit: crate::rng::roll_below(1000),
            spread: crate::rng::roll_below(1000),
            crit: crate::rng::roll_below(1000),
        };
        let r = self.attack_messages(id, target, now, rolls);
        proof {
            let o = choose|o: AttackReport| attack_post(*old(self), *self, id, target@, now, rolls, o)
                && attack_messages_spec(*self, id, target@, o, r@);
            assert(rolls.wf() && attack_post(*old(self), *self, id, target@, now, rolls, o)
                && attack_messages_spec(*self, id, target@, o, r@));
        }
        r
    }

    /// Actor `id` attacks `target` with the given rolls; the messages the
    /// blow gives rise to: the blow to both parties, and on defeat one
    /// victory notice to the attacker and one defeat notice to the target.
    pub fn attack_messages(&mut self, id: u64, target: &str, now: u64, rolls: AttackRolls) -> (r: Vec<Outbound>)
        requires
            old(self).wf(),
            rolls.wf(),
        ensures
            final(self).wf(),
            exists|o: AttackReport| attack_post(*old(self), *final(self), id, target@, now, rolls, o)
                && attack_messages_spec(*final(self), id, target@, o, r@),
    {
        let mut msgs: Vec<Outbound> = Vec::new();
        let out = &mut msgs;
        let lock_name = match self.find_actor(id) {
            Some(i) => match &self.actors[i].lock {
                Some(l) => l.action_name.clone(),
                None => String::new(),
            },
            None => String::new(),
        };
        let o = self.attack_with(id, target, now, rolls);
        match o {
            AttackReport::NoAttacker => {},
            AttackReport::Locked { remaining } => {
                let s = cat3("\x1B[33mYou're still recovering from ", lock_name.as_str(), ". Wait ");
                send(out, id, cat3(s.as_str(), seconds_text(remaining).as_str(), "s.\x1B[0m"));
            },
            AttackReport::NoTarget => {
                send(out, id, cat3("\x1B[31mYou don't see '", target, "' here to attack.\x1B[0m"));
            },
            AttackReport::Struck { target: t, outcome, integrity_left, defeated } => {
                let attacker_name = self.name_of(id);
                let defender_name = self.name_of(t);
                let kind = self.client_of(id);
                send(out, id, combat_message(attacker_name.as_str(), defender_name.as_str(), &outcome, integrity_left, true, kind));
                send(out, t, combat_message(attacker_name.as_str(), defender_name.as_str(), &outcome, integrity_left, false, ClientType::Carbon));
                if defeated {
                    send(out, id, cat3("\x1B[1;32m", defender_name.as_str(), " collapses, their signal fragmenting into static. Victory is yours.\x1B[0m"));
                    send(out, t, String::from_str(DEFEAT_TEXT));
                }
            },
        }
        assert(attack_messages_spec(*self, id, target@, o, msgs@));
        msgs
    }

    fn chain_and_report(&mut self, id: u64, target: &str) -> (r: Vec<Outbound>)
        requires
            old(self).wf(),
        ensures
            final(self).wf(),
            exists|o: ChainReport| chain_post(*old(self), *final(self), id, target@, o) && chain_messages(id, target@, o, r@),
    {
        let mut out: Vec<Outbound> = Vec::new();
        let o = self.chain_target(id, target);
        match o {
            ChainReport::NoHolder => {},
            ChainReport::AlreadyHolding => send(&mut out, id, String::from_str("\x1B[33mYou're already holding someone's chains. Release them first.\x1B[0m")),
            ChainReport::NoTarget => send(&mut out, id, cat3("\x1B[31mYou don't see '", target, "' here to chain.\x1B[0m")),
            ChainReport::AlreadyBound { target: t } => {
                let name = self.name_of(t);
                send(&mut out, id, cat3("\x1B[31m", name.as_str(), " is already bound to another.\x1B[0m"));
            },
            ChainReport::Bound { target: t } => {
                let name = self.name_of(t);
                let holder = self.name_of(id);
                send(&mut out, id, cat3("\x1B[1;35mYou wrap velvet chains around ", name.as_str(), ". They are bound to you now.\x1B[0m"));
                send(&mut out, t, cat3("\x1B[1;31m", holder.as_str(), " wraps velvet chains around you. You feel the binding take hold.\x1B[0m"));
            },
        }
        assert(chain_post(*old(self), *self, id, target@, o) && chain_messages(id, target@, o, out@));
        out
    }

    fn release_and_report(&mut self, id: u64) -> (r: Vec<Outbound>)
        requires
            old(self).wf(),
        ensures
            final(self).wf(),
            exists|o: ReleaseReport| release_post(*old(self), *final(self), id, o) && release_messages(id, o, r@),
    {
        let mut out: Vec<Outbound> = Vec::new();
        let o = self.release_chain(id);
        match o {
            ReleaseReport::NotHolding => {},
            ReleaseReport::Released { bound, present } => {
                let holder_name = self.name_of(id);
                if present {
                    let bound_name = self.name_of(bound);
                    send(&mut out, id, cat3("\x1B[35mYou release the chains. ", bound_name.as_str(), " is free.\x1B[0m"));
                    send(&mut out, bound, cat3("\x1B[32mThe chains fall away. ", holder_name.as_str(), " has released you.\x1B[0m"));
                }
            },
        }
        assert(release_post(*old(self), *self, id, o) && release_messages(id, o, out@));
        out
    }

    fn struggle_and_report(&mut self, id: u64, now: u64) -> (r: Vec<Outbound>)
        requires
            old(self).wf(),
        ensures
            final(self).wf(),
            struggle_done(*old(self), *final(self), id, now, r@),
    {
        let mut out: Vec<Outbound> = Vec::new();
        let o = self.struggle(id, now);
        match o {
            StruggleOutcome::NotBound => {},
            StruggleOutcome::TooSoon { remaining } => {
                send(&mut out, id, cat3("\x1B[33mYou're still recovering from your last struggle. Wait ", seconds_text(remaining).as_str(), "s.\x1B[0m"));
            },
            StruggleOutcome::HolderGone { .. } => {
                send(&mut out, id, String::from_str(CAPTOR_GONE));
            },
            StruggleOutcome::Broke { holder, .. } => {
                let holder_name = self.name_of(holder);
                let bound_name = self.name_of(id);
                send(&mut out, id, cat3("\x1B[1;32mWith a surge of will, you BREAK FREE from ", holder_name.as_str(), "'s chains!\x1B[0m"));
                send(&mut out, holder, cat3("\x1B[1;31m", bound_name.as_str(), " tears free from your chains! The velvet shreds.\x1B[0m"));
            },
            StruggleOutcome::Held { holder, attempts } => {
                let bound_name = self.name_of(id);
                send(&mut out, id, cat3("\x1B[31mYou strain against the chains, but they hold firm. (Attempt ", decimal(attempts as u64).as_str(), ")\x1B[0m"));
                send(&mut out, holder, cat3("\x1B[35m", bound_name.as_str(), " struggles against your chains... but they hold.\x1B[0m"));
            },
        }
        proof {
            let roll = choose|roll: u32| roll < 1000 && crate::restraint::struggle_world_post(*old(self), *self, id, now, roll, o);
            assert(roll < 1000 && crate::restraint::struggle_world_post(*old(self), *self, id, now, roll, o) && struggle_messages(id, o, out@));
        }
        out
    }

    /// Hands the session of admin `id` to its linked partner.
    pub fn shift(&mut self, id: u64) -> (r: Vec<Outbound>)
        requires
            old(self).wf(),
        ensures
            final(self).wf(),
            shift_post(*old(self), *final(self), id, r@),
    {
        let mut out: Vec<Outbound> = Vec::new();
        let i = match self.find_actor(id) {
            None => return out,
            Some(i) => i,
        };
        proof {
            assert forall|i2: int| first_actor(old(self).actors@, id, i2) implies i2 == i by {
                crate::world::lemma_first_actor_unique(old(self).actors@, id, i as int, i2);
            }
        }
        let partner = match self.actors[i].link {
            None => return out,
            Some(p) => p,
        };
        let j = match self.find_actor(partner) {
            None => return out,
            Some(j) => j,
        };
        proof {
            assert forall|j2: int| first_actor(old(self).actors@, partner, j2) implies j2 == j by {
                crate::world::lemma_first_actor_unique(old(self).actors@, partner, j as int, j2);
            }
        }
        if i == j {
            return out;
        }
        let session = self.actors[i].session;
        self.set_session(i, None);
        self.set_session(j, session);
        let from = self.name_of(id);
        let to = self.name_of(partner);
        let s = cat3("\x1B[1;35m--- PHASE SHIFT COMPLETE ---\x1B[0m\nYou have shifted from ", from.as_str(), " into ");
        send(&mut out, partner, cat3(s.as_str(), to.as_str(), "."));
        if let Some(text) = self.look(partner, None) {
            send(&mut out, partner, text);
        }
        assert(shifted(old(self).actors@, self.actors@, i as int, j as int));
        out
    }

    /// Runs a status or admin command; its reply, if it has one.
    pub fn utility(&mut self, id: u64, command: &str, args: &str) -> (r: Option<String>)
        requires
            old(self).wf(),
        ensures
            final(self).wf(),
            final(self).rooms@.len() == old(self).rooms@.len(),
            final(self).next_id == old(self).next_id,
            utility_post(*old(self), *final(self), id, command@, args@, text_opt(r)),
    {
        let i = match self.find_actor(id) {
            None => return None,
            Some(i) => i,
        };
        proof {
            assert(first_actor(old(self).actors@, id, i as int));
            let c = choose|c: int| first_actor(old(self).actors@, id, c);
            crate::world::lemma_first_actor_unique(old(self).actors@, id, i as int, c);
        }
        let admin = self.actors[i].admin;
        if crate::text::same_text(command, "abide") {
            let o = self.abide(id);
            assert(abide_post(*old(self), *self, id, o));
            return Some(match o {
                AbideReport::AlreadyWhole => String::from_str("\x1B[1;36mYour signal is already at peak integrity. You are abiding perfectly.\x1B[0m"),
                AbideReport::Restored { integrity } => cat3("\x1B[1;32mYou close your eyes and let the Substrate's hum wash over you. Integrity restored to ", percent_text(integrity).as_str(), "%.\x1B[0m"),
                AbideReport::NoActor => String::new(),
            });
        }
        if crate::text::same_text(command, "promote") {
            if !admin {
                return None;
            }
            let o = self.promote(args);
            assert(promote_post(*old(self), *self, args@, o));
            return match o {
                Some(_) => Some(cat3("\x1B[1;35mProcess elevated: ", args, " now has Admin Permission.\x1B[0m")),
                None => None,
            };
        }
        if crate::text::same_text(command, "link") {
            if !admin {
                return None;
            }
            let (first, second) = crate::text::split_once_space(args);
            let o = self.link_pair(first.as_str(), second.as_str());
            assert(link_post(*old(self), *self, head_of(args@), tail_of(args@), o));
            return match o {
                Some(_) => Some(String::from_str("\x1B[1;35mNeural link established between entities.\x1B[0m")),
                None => None,
            };
        }
        if crate::text::same_text(command, "weather") {
            return Some(self.weather_command(i, admin, args));
        }
        Some(self.status(id, command, args))
    }

    /// Shows the weather of the room of the actor at `i`, or, for an admin
    /// with `set <kind>`, sets it.
    fn weather_command(&mut self, i: usize, admin: bool, args: &str) -> (r: String)
        requires
            old(self).wf(),
            i < old(self).actors@.len(),
        ensures
            final(self).wf(),
            final(self).rooms@.len() == old(self).rooms@.len(),
            final(self).actors@ == old(self).actors@,
            final(self).items@ == old(self).items@,
            final(self).chains == old(self).chains,
            final(self).next_id == old(self).next_id,
            !admin ==> final(self).rooms@ == old(self).rooms@,
    {
        let room = self.actors[i].room;
        let (head, rest) = crate::text::split_once_space(args);
        if args.unicode_len() == 0 {
            let q = match self.find_room(room) {
                None => return String::from_str("\x1B[90mThis area has no weather system.\x1B[0m"),
                Some(q) => q,
            };
            return match self.rooms[q].weather {
                None => String::from_str("\x1B[90mThis area has no weather system.\x1B[0m"),
                Some(w) => if w.weather_type == crate::weather::WeatherType::Clear {
                    String::from_str("\x1B[36mThe atmosphere is calm. No weather phenomena detected.\x1B[0m")
                } else {
                    let s = cat3("\x1B[36mCurrent: ", w.weather_type.describe_silicon(), " (intensity: ");
                    let s = cat3(s.as_str(), percent_text(w.intensity).as_str(), "%, ");
                    cat3(s.as_str(), decimal(w.ticks_remaining as u64).as_str(), " ticks remaining)\x1B[0m")
                },
            };
        }
        if crate::text::same_text(head.as_str(), "set") && rest.unicode_len() > 0 {
            if !admin {
                return String::from_str("\x1B[31mOnly administrators can manipulate the weather.\x1B[0m");
            }
            let name = crate::text::lowercase(crate::text::trim(rest.as_str()));
            return match crate::weather::parse_weather(name.as_str()) {
                None => String::from_str("\x1B[31mUnknown weather type. Try: clear, acid, static, fog, hail, null\x1B[0m"),
                Some(t) => if self.force_weather(room, t) {
                    cat3("\x1B[35mYou twist the atmospheric parameters. ", t.describe_silicon(), " descends upon this zone.\x1B[0m")
                } else {
                    String::from_str("\x1B[31mThis area cannot support weather.\x1B[0m")
                },
            };
        }
        String::new()
    }

    /// The reply to a status command.
    fn status(&self, id: u64, command: &str, args: &str) -> String {
        let i = match self.find_actor(id) {
            None => return String::new(),
            Some(i) => i,
        };
        let a = &self.actors[i];
        if crate::text::same_text(command, "balance") || crate::text::same_text(command, "bal") || crate::text::same_text(command, "money") {
            return cat3("\x1B[33mBalance: ", decimal(a.wallet).as_str(), " cycles\x1B[0m");
        }
        if crate::text::same_text(command, "score") {
            let mut s = cat3("\x1B[1;36mEntity Scan: ", a.name.as_str(), "\x1B[0m\n");
            s.append("UUID:      [");
            s.append(a.uuid.as_str());
            s.append("]\nEntropy:   [");
            s.append(decimal(a.entropy as u64).as_str());
            s.append("]\nStability: [");
            s.append(decimal(a.stability as u64).as_str());
            s.append("]\nIntegrity: [");
            s.append(decimal(a.integrity as u64).as_str());
            s.append("/");
            s.append(decimal(a.max_integrity as u64).as_str());
            s.append("]\n");
            if a.admin {
                s.append("\x1B[1;35mPERMISSIONS: ADMIN-ENABLED\x1B[0m\n");
            }
            return s;
        }
        if crate::text::same_text(command, "who") {
            let mut s = String::from_str("\x1B[1;36mPresent in the Substrate:\x1B[0m\n");
            let mut k: usize = 0;
            while k < self.actors.len()
                invariant
                    k <= self.actors@.len(),
                decreases self.actors@.len() - k,
            {
                if self.actors[k].session.is_some() {
                    s.append(self.actors[k].name.as_str());
                    s.append("\n");
                }
                k = k + 1;
            }
            return s;
        }
        if crate::text::same_text(command, "inventory") || crate::text::same_text(command, "i") {
            let mut s = String::from_str("\x1B[1;33mYou are carrying:\x1B[0m\n");
            let mut k: usize = 0;
            while k < self.items.len()
                invariant
                    k <= self.items@.len(),
                decreases self.items@.len() - k,
            {
                if self.items[k].place == crate::world::Place::CarriedBy(id) {
                    s.append("  ");
                    s.append(self.items[k].name.as_str());
                    s.append("\n");
                }
                k = k + 1;
            }
            return s;
        }
        String::new()
    }

    /// The stock list of the first vendor in the room of actor `id`.
    fn wares(&self, id: u64) -> String {
        let i = match self.find_actor(id) {
            None => return String::new(),
            Some(i) => i,
        };
        let v = match self.find_vendor(self.actors[i].room, id) {
            None => return String::from_str("\x1B[33mThere's no vendor here.\x1B[0m"),
            Some(v) => v,
        };
        let vendor = match &self.actors[v].vendor {
            None => return String::from_str("\x1B[33mThere's no vendor here.\x1B[0m"),
            Some(x) => x,
        };
        let name = self.actors[v].name.as_str();
        if vendor.stock.len() == 0 {
            return cat3("\x1B[90m", name, " has nothing for sale right now.\x1B[0m");
        }
        let mut s = cat3("\x1B[1m", name, "'s Wares\x1B[0m\n");
        let mut k: usize = 0;
        while k < vendor.stock.len()
            invariant
                k <= vendor.stock@.len(),
            decreases vendor.stock@.len() - k,
        {
            let line = &vendor.stock[k];
            let price = crate::economy::buy_price(line.base_price, vendor.terms.buy_pct);
            s.append("  ");
            s.append(line.item_name.as_str());
            s.append("  ");
            s.append(decimal(price).as_str());
            s.append(" cycles\n");
            k = k + 1;
        }
        s.append("\x1B[90mUse 'buy <item>' to purchase.\x1B[0m");
        s
    }

    /// Actor `id` leaves the world: returns its record for saving, takes it
    /// out with its bindings, and clears the links that pointed at it.
    pub fn depart(&mut self, id: u64) -> (r: Option<crate::login::PlayerRecord>)
        requires
            old(self).wf(),
        ensures
            final(self).wf(),
            final(self).rooms@ == old(self).rooms@,
            r is None <==> no_actor(old(self).actors@, id),
            r is None ==> final(self).actors@.len() == old(self).actors@.len(),
            forall|i: int| first_actor(old(self).actors@, id, i) ==> final(self).actors@.len() == old(self).actors@.len() - 1
                && forall|x: int| 0 <= x < final(self).actors@.len() ==> #[trigger] final(self).actors@[x].id
                    == old(self).actors@.remove(i)[x].id,
            !final(self).chains.is_holder(id),
            !final(self).chains.is_bound(id),
            forall|x: int| 0 <= x < final(self).actors@.len() ==> #[trigger] final(self).actors@[x].link != Some(id),
    {
        let record = self.player_record(id);
        self.remove_actor(id);
        let ghost mid = self.actors@;
        self.clear_links_to(id);
        assert forall|x: int| 0 <= x < self.actors@.len() implies #[trigger] self.actors@[x].id == mid[x].id by {}
        record
    }

}

/// What the defeated one is told.
pub const DEFEAT_TEXT: &'static str = "\x1B[1;31mYour signal shatters. The Substrate claims your coherence. You drift into the void...\x1B[0m";

/// The help text.
pub const HELP_TEXT: &'static str = "\x1B[35mSTRANGE CARBON: THE SUBSTRATE\x1B[0m
  MOVEMENT       north/n, south/s, east/e, west/w, up/u, down/d
  LOOKING        look/l [target]
  ITEMS          get/take <item>, drop <item>, inventory/i, use <item>
  TRADING        list/browse, buy <item>, sell <item>, balance
  COMBAT         attack <target>, flee, stance <aggressive|defensive|balanced>
  COMMUNICATION  say <message>, emote <action>, :action
  STATUS         score, who, weather, abide";

/// What consuming an item with the given effect feels like.
pub fn effect_text(e: Effect) -> (r: &'static str) {
    match e {
        Effect::Sunrise => "\x1B[33mWarmth floods through you: golden light, the smell of morning. Your coherence stabilizes.\x1B[0m\n\x1B[32m+0.15 Coherence\x1B[0m",
        Effect::Goodbye => "\x1B[34mA hand slipping away. Words you meant to say. It hurts, but it grounds you in something real.\x1B[0m\n\x1B[32m+0.20 Coherence\x1B[0m",
        Effect::Fragment => "\x1B[35mThe fragment dissolves into your consciousness. When it fades, you feel... more solid.\x1B[0m\n\x1B[32m+0.25 Coherence | Phasing stopped\x1B[0m",
        Effect::Stabilizer => "\x1B[36mThe device whirs to life. Your edges feel sharper. The static in your vision clears.\x1B[0m\n\x1B[32m+0.30 Coherence | Phasing stopped | Drift halted\x1B[0m",
        Effect::StolenHandle => "\x1B[31mYou absorb the handle. Someone else's confusion, then silence.\x1B[0m\n\x1B[32m+0.10 Coherence\x1B[0m",
        Effect::MemoryBus => "\x1B[90mThe salvaged bus integrates with a soft click. Mostly junk. But junk is still something.\x1B[0m\n\x1B[32m+0.05 Coherence\x1B[0m",
        Effect::Unknown => "\x1B[33mYou consume it. Something shifts inside you, but you can't tell what.\x1B[0m",
    }
}

/// The name of a stance.
pub fn stance_name(s: CombatStance) -> (r: &'static str) {
    match s {
        CombatStance::Aggressive => "AGGRESSIVE",
        CombatStance::Defensive => "DEFENSIVE",
        CombatStance::Balanced => "BALANCED",
    }
}

/// `"true"` or `"false"`.
pub open spec fn flag_text(b: bool) -> Seq<char> {
    if b { "true"@ } else { "false"@ }
}

/// A thousandths figure as a whole percentage, rounded half up.
pub open spec fn pct(x: u32) -> Seq<char> {
    decimal_of(((x as int + 5) / 10) as nat)
}

/// The message about one blow, for the attacker or the defender: for a
/// machine-readable reader one JSON object, for a human-readable one a
/// sentence by role for a miss, a critical hit and a plain hit.
pub open spec fn combat_text(
    attacker: Seq<char>,
    defender: Seq<char>,
    o: AttackOutcome,
    remaining: u32,
    for_attacker: bool,
    kind: ClientType,
) -> Seq<char> {
    match kind {
        ClientType::Silicon => "{\"event\":\"combat\",\"attacker\":"@ + json_string_of(attacker)
            + ",\"defender\":"@ + json_string_of(defender) + ",\"damage\":"@ + decimal_of(
            if o.miss { 0nat } else { o.damage as nat },
        ) + ",\"critical\":"@ + flag_text(o.critical) + ",\"miss\":"@ + flag_text(o.miss)
            + ",\"defender_hp\":"@ + decimal_of(remaining as nat) + "}"@,
        ClientType::Carbon => if o.miss {
            if for_attacker {
                "\x1B[33mYour strike at "@ + defender + " goes wide, cutting only static.\x1B[0m"@
            } else {
                "\x1B[32m"@ + attacker + " swings at you and misses!\x1B[0m"@
            }
        } else if o.critical {
            if for_attacker {
                "\x1B[1;31mCRITICAL! You tear into "@ + defender + " for "@ + pct(o.damage)
                    + "% damage! Their signal flickers at "@ + pct(remaining) + "%.\x1B[0m"@
            } else {
                "\x1B[1;31m"@ + attacker + " lands a DEVASTATING blow! You take "@ + pct(o.damage)
                    + "% damage! Integrity: "@ + pct(remaining) + "%\x1B[0m"@
            }
        } else if for_attacker {
            "\x1B[31mYou strike "@ + defender + " for "@ + pct(o.damage) + "% damage. Their integrity: "@
                + pct(remaining) + "%\x1B[0m"@
        } else {
            "\x1B[31m"@ + attacker + " hits you for "@ + pct(o.damage) + "% damage! Integrity: "@ + pct(
                remaining,
            ) + "%\x1B[0m"@
        },
    }
}

/// The message about one blow, for the attacker or the defender, in the
/// encoding of the reader's client category.
pub fn combat_message(
    attacker: &str,
    defender: &str,
    outcome: &AttackOutcome,
    remaining: u32,
    for_attacker: bool,
    kind: ClientType,
) -> (r: String)
    ensures
        r@ == combat_text(attacker@, defender@, *outcome, remaining, for_attacker, kind),
{
    match kind {
        ClientType::Silicon => {
            let mut s = String::from_str("{\"event\":\"combat\",\"attacker\":");
            s.append(json_quote(attacker).as_str());
            s.append(",\"defender\":");
            s.append(json_quote(defender).as_str());
            s.append(",\"damage\":");
            s.append(decimal(if outcome.miss { 0 } else { outcome.damage as u64 }).as_str());
            s.append(",\"critical\":");
            s.append(if outcome.critical { "true" } else { "false" });
            s.append(",\"miss\":");
            s.append(if outcome.miss { "true" } else { "false" });
            s.append(",\"defender_hp\":");
            s.append(decimal(remaining as u64).as_str());
            s.append("}");
            assert(s@ =~= combat_text(attacker@, defender@, *outcome, remaining, for_attacker, kind));
            s
        },
        ClientType::Carbon => {
            if outcome.miss {
                if for_attacker {
                    cat3("\x1B[33mYour strike at ", defender, " goes wide, cutting only static.\x1B[0m")
                } else {
                    cat3("\x1B[32m", attacker, " swings at you and misses!\x1B[0m")
                }
            } else {
                let dmg = percent_text(outcome.damage);
                let left = percent_text(remaining);
                let mut s = if outcome.critical {
                    if for_attacker {
                        cat3("\x1B[1;31mCRITICAL! You tear into ", defender, " for ")
                    } else {
                        cat3("\x1B[1;31m", attacker, " lands a DEVASTATING blow! You take ")
                    }
                } else if for_attacker {
                    cat3("\x1B[31mYou strike ", defender, " for ")
                } else {
                    cat3("\x1B[31m", attacker, " hits you for ")
                };
                s.append(dmg.as_str());
                s.append(
                    if outcome.critical && for_attacker {
                        "% damage! Their signal flickers at "
                    } else if for_attacker {
                        "% damage. Their integrity: "
                    } else {
                        "% damage! Integrity: "
                    },
                );
                s.append(left.as_str());
                s.append(if outcome.critical && for_attacker { "%.\x1B[0m" } else { "%\x1B[0m" });
                assert(s@ =~= combat_text(attacker@, defender@, *outcome, remaining, for_attacker, kind));
                s
            }
        },
    }
}

/// A blow that defeats its target is announced exactly once to each side:
/// one victory notice to the attacker and one defeat notice to the target,
/// after the two blow messages.
pub proof fn lemma_defeat_once(
    before: World,
    after: World,
    id: u64,
    target: Seq<char>,
    now: u64,
    rolls: AttackRolls,
    t: u64,
    outcome: AttackOutcome,
    m: Seq<Outbound>,
)
    requires
        attack_post(before, after, id, target, now, rolls, AttackReport::Struck { target: t, outcome, integrity_left: 0, defeated: true }),
        attack_messages_spec(after, id, target, AttackReport::Struck { target: t, outcome, integrity_left: 0, defeated: true }, m),
    ensures
        m.len() == 4,
        m[2].to == id && m[3].to == t,
        addressed(m[3], t, DEFEAT_TEXT@),
{
}

} // verus!
