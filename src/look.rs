//! The look system: what an actor sees of its room, or of one thing in it.
use vstd::prelude::*;
use vstd::string::*;

use crate::combat::ClientType;
use crate::economy::ItemType;
use crate::rng::{json_quote, json_string_of};
use crate::trade::{keyword_match, matches_keywords};
use crate::text::{is_infix, lower_of, name_matches};
use crate::text::{decimal, decimal_of, lowercase};
use crate::weather::{carbon_text, silicon_name, CurrentWeather};
use crate::world::{
    first_actor, first_room, lemma_first_actor_unique, lemma_first_room_unique, Actor, Detail, Item, Place,
    World,
};

verus! {

/// The line for an item lying on the ground.
pub open spec fn ground_line(name: Seq<char>) -> Seq<char> {
    "\x1B[33mA "@ + name + " is discarded here.\x1B[0m\n"@
}

/// The line for a non-player character present.
pub open spec fn mob_line(short_desc: Seq<char>) -> Seq<char> {
    "\x1B[1;35m"@ + short_desc + "\x1B[0m\n"@
}

/// The line for another actor present.
pub open spec fn other_line(name: Seq<char>) -> Seq<char> {
    "\x1B[1;34m"@ + name + " is lurking in the shadows.\x1B[0m\n"@
}

/// The lines for the items of `items` lying in `room`, in order.
pub open spec fn ground_lines(items: Seq<Item>, room: u64) -> Seq<char>
    decreases items.len(),
{
    if items.len() == 0 {
        Seq::empty()
    } else {
        ground_lines(items.drop_last(), room) + if items.last().place == Place::InRoom(room) {
            ground_line(items.last().name@)
        } else {
            Seq::empty()
        }
    }
}

/// The lines for the non-player characters of `actors` in `room`, in order.
pub open spec fn mob_lines(actors: Seq<Actor>, room: u64) -> Seq<char>
    decreases actors.len(),
{
    if actors.len() == 0 {
        Seq::empty()
    } else {
        mob_lines(actors.drop_last(), room) + if actors.last().npc && actors.last().room == room {
            mob_line(actors.last().short_desc@)
        } else {
            Seq::empty()
        }
    }
}

/// The lines for the actors of `actors` in `room` other than `viewer`, in order.
pub open spec fn other_lines(actors: Seq<Actor>, room: u64, viewer: u64) -> Seq<char>
    decreases actors.len(),
{
    if actors.len() == 0 {
        Seq::empty()
    } else {
        other_lines(actors.drop_last(), room, viewer) + if actors.last().room == room && actors.last().id
            != viewer {
            other_line(actors.last().name@)
        } else {
            Seq::empty()
        }
    }
}

/// The human-readable view of a room: its title, its description, then the
/// items on its ground, the characters in it and the other actors in it.
pub open spec fn room_text(w: World, q: int, viewer: u64) -> Seq<char> {
    let room = w.rooms@[q];
    "\n\x1B[1;32m"@ + room.title@ + "\x1B[0m\n"@ + room.description@ + "\n"@ + weather_line(room.weather) + ground_lines(
        w.items@,
        room.id,
    ) + mob_lines(w.actors@, room.id) + other_lines(w.actors@, room.id, viewer)
}

/// The line describing a room's weather; none for clear skies or no weather.
pub open spec fn weather_line(w: Option<CurrentWeather>) -> Seq<char> {
    match w {
        Some(c) => if carbon_text(c.weather_type).len() > 0 {
            carbon_text(c.weather_type) + "\n"@
        } else {
            Seq::empty()
        },
        None => Seq::empty(),
    }
}

/// A thousandths figure as a decimal fraction with three places.
pub open spec fn thousandths_text(x: u32) -> Seq<char> {
    decimal_of((x / 1000) as nat) + "."@ + decimal_of(((x % 1000) / 100) as nat) + decimal_of(((x % 100) / 10) as nat)
        + decimal_of((x % 10) as nat)
}

/// The JSON fields for a room's weather.
pub open spec fn weather_fields(w: Option<CurrentWeather>) -> Seq<char> {
    match w {
        Some(c) => ",\"weather\":\""@ + silicon_name(c.weather_type) + "\",\"weather_intensity\":"@ + thousandths_text(
            c.intensity,
        ) + "}"@,
        None => ",\"weather\":null,\"weather_intensity\":null}"@,
    }
}

/// The machine-readable view of a room: one JSON object.
pub open spec fn room_json(w: World, q: int) -> Seq<char> {
    let room = w.rooms@[q];
    "{\"title\":"@ + json_string_of(room.title@) + ",\"description\":"@ + json_string_of(
        room.description@,
    ) + weather_fields(room.weather)
}

/// The label of an item category.
pub open spec fn type_label(t: ItemType) -> Seq<char> {
    match t {
        ItemType::Weapon => "\x1B[31m[Weapon]\x1B[0m"@,
        ItemType::Armor => "\x1B[34m[Armor]\x1B[0m"@,
        ItemType::Consumable => "\x1B[32m[Consumable]\x1B[0m"@,
        ItemType::Contraband => "\x1B[35m[Contraband]\x1B[0m"@,
        ItemType::Fragment => "\x1B[36m[Fragment]\x1B[0m"@,
        ItemType::Quest => "\x1B[33m[Quest]\x1B[0m"@,
        ItemType::Misc => "\x1B[90m[Misc]\x1B[0m"@,
    }
}

fn label_of(t: ItemType) -> (r: &'static str)
    ensures
        r@ == type_label(t),
{
    match t {
        ItemType::Weapon => "\x1B[31m[Weapon]\x1B[0m",
        ItemType::Armor => "\x1B[34m[Armor]\x1B[0m",
        ItemType::Consumable => "\x1B[32m[Consumable]\x1B[0m",
        ItemType::Contraband => "\x1B[35m[Contraband]\x1B[0m",
        ItemType::Fragment => "\x1B[36m[Fragment]\x1B[0m",
        ItemType::Quest => "\x1B[33m[Quest]\x1B[0m",
        ItemType::Misc => "\x1B[90m[Misc]\x1B[0m",
    }
}

/// The texts of `words` joined by ", ".
pub open spec fn comma_joined(words: Seq<String>) -> Seq<char>
    decreases words.len(),
{
    if words.len() == 0 {
        Seq::empty()
    } else if words.len() == 1 {
        words[0]@
    } else {
        comma_joined(words.drop_last()) + ", "@ + words.last()@
    }
}

/// The reply when nothing answers to the name looked at.
pub const NOTHING_SEEN: &'static str = "\x1B[31mThe shadows hide no such entity or detail.\x1B[0m";

/// `actors[k]` is a character whose name holds `query`, case-folded.
pub open spec fn mob_named(actors: Seq<Actor>, k: int, query: Seq<char>) -> bool {
    actors[k].npc && is_infix(lower_of(query), lower_of(actors[k].name@))
}

/// `items[k]` lies at `place` and matches `query`.
pub open spec fn item_at(items: Seq<Item>, k: int, place: Place, query: Seq<char>) -> bool {
    items[k].place == place && keyword_match(items[k].keywords@, items[k].name@, query)
}

/// One of the detail's keywords, case-folded, equals `query` case-folded.
pub open spec fn detail_named(d: Detail, query: Seq<char>) -> bool {
    exists|k: int| 0 <= k < d.keywords@.len() && lower_of(#[trigger] d.keywords@[k]@) == lower_of(query)
}

/// The details of the room with id `room`; none where it does not exist.
pub open spec fn details_of(w: World, room: u64) -> Seq<Detail> {
    if exists|q: int| first_room(w.rooms@, room, q) {
        w.rooms@[choose|q: int| first_room(w.rooms@, room, q)].details@
    } else {
        Seq::empty()
    }
}

/// What looking at `query` shows the actor `viewer` standing in `room`: the
/// first character of that name anywhere, else the first such item carried,
/// else the first such item on the ground here, else the first detail of the
/// room with that keyword.
pub open spec fn target_text(w: World, viewer: u64, room: u64, query: Seq<char>) -> Seq<char> {
    let a = w.actors@;
    let items = w.items@;
    if exists|k: int| 0 <= k < a.len() && mob_named(a, k, query) {
        let k = choose|k: int|
            0 <= k < a.len() && mob_named(a, k, query) && forall|j: int| 0 <= j < k ==> !mob_named(a, j, query);
        "\x1B[1;35m"@ + a[k].name@ + "\x1B[0m\n"@ + a[k].long_desc@
    } else if exists|k: int| 0 <= k < items.len() && item_at(items, k, Place::CarriedBy(viewer), query) {
        let k = choose|k: int|
            0 <= k < items.len() && item_at(items, k, Place::CarriedBy(viewer), query) && forall|j: int|
                0 <= j < k ==> !item_at(items, j, Place::CarriedBy(viewer), query);
        "\x1B[1;33m"@ + items[k].name@ + "\x1B[0m "@ + type_label(items[k].item_type) + "\n"@
            + items[k].description@ + "\n\x1B[90mKeywords: "@ + comma_joined(items[k].keywords@) + "\x1B[0m"@
    } else if exists|k: int| 0 <= k < items.len() && item_at(items, k, Place::InRoom(room), query) {
        let k = choose|k: int|
            0 <= k < items.len() && item_at(items, k, Place::InRoom(room), query) && forall|j: int|
                0 <= j < k ==> !item_at(items, j, Place::InRoom(room), query);
        "\x1B[1;33m"@ + items[k].name@ + "\x1B[0m "@ + type_label(items[k].item_type) + "\n"@
            + items[k].description@
    } else if exists|k: int| 0 <= k < details_of(w, room).len() && detail_named(details_of(w, room)[k], query) {
        let ds = details_of(w, room);
        let k = choose|k: int|
            0 <= k < ds.len() && detail_named(ds[k], query) && forall|j: int| 0 <= j < k ==> !detail_named(ds[j], query);
        "\x1B[1;36m[Detail]\x1B[0m\n"@ + ds[k].description@
    } else {
        NOTHING_SEEN@
    }
}

fn detail_matches(d: &Detail, query_lower: &str) -> (r: bool)
    ensures
        r == exists|k: int| 0 <= k < d.keywords@.len() && lower_of(#[trigger] d.keywords@[k]@) == query_lower@,
{
    let mut k: usize = 0;
    while k < d.keywords.len()
        invariant
            k <= d.keywords@.len(),
            forall|j: int| 0 <= j < k ==> lower_of(#[trigger] d.keywords@[j]@) != query_lower@,
        decreases d.keywords@.len() - k,
    {
        let kw = lowercase(d.keywords[k].as_str());
        if crate::text::same_text(kw.as_str(), query_lower) {
            return true;
        }
        k = k + 1;
    }
    false
}

proof fn lemma_first_unique_mob(a: Seq<Actor>, query: Seq<char>, k: int)
    requires
        0 <= k < a.len(),
        mob_named(a, k, query),
        forall|j: int| 0 <= j < k ==> !mob_named(a, j, query),
    ensures
        (choose|k2: int|
            0 <= k2 < a.len() && mob_named(a, k2, query) && forall|j: int| 0 <= j < k2 ==> !mob_named(a, j, query))
            == k,
{
    let k2 = choose|k2: int|
        0 <= k2 < a.len() && mob_named(a, k2, query) && forall|j: int| 0 <= j < k2 ==> !mob_named(a, j, query);
    assert(0 <= k2 < a.len() && mob_named(a, k2, query) && forall|j: int| 0 <= j < k2 ==> !mob_named(a, j, query));
    if k2 < k {
        assert(!mob_named(a, k2, query));
    } else if k < k2 {
        assert(!mob_named(a, k, query));
    }
}

proof fn lemma_first_unique_item(items: Seq<Item>, place: Place, query: Seq<char>, k: int)
    requires
        0 <= k < items.len(),
        item_at(items, k, place, query),
        forall|j: int| 0 <= j < k ==> !item_at(items, j, place, query),
    ensures
        (choose|k2: int|
            0 <= k2 < items.len() && item_at(items, k2, place, query) && forall|j: int|
                0 <= j < k2 ==> !item_at(items, j, place, query)) == k,
{
    let k2 = choose|k2: int|
        0 <= k2 < items.len() && item_at(items, k2, place, query) && forall|j: int|
            0 <= j < k2 ==> !item_at(items, j, place, query);
    assert(0 <= k2 < items.len() && item_at(items, k2, place, query) && forall|j: int|
        0 <= j < k2 ==> !item_at(items, j, place, query));
    if k2 < k {
        assert(!item_at(items, k2, place, query));
    } else if k < k2 {
        assert(!item_at(items, k, place, query));
    }
}

/// The texts of `words` joined by ", ".
pub fn join_words(words: &Vec<String>) -> (r: String)
    ensures
        r@ == comma_joined(words@),
{
    let mut out = String::new();
    let mut k: usize = 0;
    while k < words.len()
        invariant
            k <= words@.len(),
            out@ == comma_joined(words@.subrange(0, k as int)),
        decreases words@.len() - k,
    {
        proof {
            let next = words@.subrange(0, k + 1);
            assert(next.drop_last() =~= words@.subrange(0, k as int));
            if k == 0 {
                assert(words@.subrange(0, 0) =~= Seq::<String>::empty());
            }
        }
        if k > 0 {
            out.append(", ");
        }
        out.append(words[k].as_str());
        k = k + 1;
    }
    assert(words@.subrange(0, words@.len() as int) =~= words@);
    out
}

impl World {
    /// The human-readable view of the room at `q` for `viewer`.
    pub fn describe_room(&self, q: usize, viewer: u64) -> (r: String)
        requires
            q < self.rooms@.len(),
        ensures
            r@ == room_text(*self, q as int, viewer),
    {
        let room = &self.rooms[q];
        let mut out = String::from_str("\n\x1B[1;32m");
        out.append(room.title.as_str());
        out.append("\x1B[0m\n");
        out.append(room.description.as_str());
        out.append("\n");
        if let Some(c) = room.weather {
            let t = c.weather_type.describe_carbon();
            if t.unicode_len() > 0 {
                out.append(t);
                out.append("\n");
            }
        }
        let ghost head = out@;
        let mut k: usize = 0;
        while k < self.items.len()
            invariant
                k <= self.items@.len(),
                out@ == head + ground_lines(self.items@.subrange(0, k as int), room.id),
            decreases self.items@.len() - k,
        {
            proof {
                assert(self.items@.subrange(0, k + 1).drop_last() =~= self.items@.subrange(0, k as int));
            }
            if self.items[k].place == Place::InRoom(room.id) {
                out.append("\x1B[33mA ");
                out.append(self.items[k].name.as_str());
                out.append(" is discarded here.\x1B[0m\n");
            }
            k = k + 1;
            assert(out@ =~= head + ground_lines(self.items@.subrange(0, k as int), room.id));
        }
        assert(self.items@.subrange(0, self.items@.len() as int) =~= self.items@);
        let ghost head2 = out@;
        let mut k: usize = 0;
        while k < self.actors.len()
            invariant
                k <= self.actors@.len(),
                out@ == head2 + mob_lines(self.actors@.subrange(0, k as int), room.id),
            decreases self.actors@.len() - k,
        {
            proof {
                assert(self.actors@.subrange(0, k + 1).drop_last() =~= self.actors@.subrange(0, k as int));
            }
            if self.actors[k].npc && self.actors[k].room == room.id {
                out.append("\x1B[1;35m");
                out.append(self.actors[k].short_desc.as_str());
                out.append("\x1B[0m\n");
            }
            k = k + 1;
            assert(out@ =~= head2 + mob_lines(self.actors@.subrange(0, k as int), room.id));
        }
        assert(self.actors@.subrange(0, self.actors@.len() as int) =~= self.actors@);
        let ghost head3 = out@;
        let mut k: usize = 0;
        while k < self.actors.len()
            invariant
                k <= self.actors@.len(),
                out@ == head3 + other_lines(self.actors@.subrange(0, k as int), room.id, viewer),
            decreases self.actors@.len() - k,
        {
            proof {
                assert(self.actors@.subrange(0, k + 1).drop_last() =~= self.actors@.subrange(0, k as int));
            }
            if self.actors[k].room == room.id && self.actors[k].id != viewer {
                out.append("\x1B[1;34m");
                out.append(self.actors[k].name.as_str());
                out.append(" is lurking in the shadows.\x1B[0m\n");
            }
            k = k + 1;
            assert(out@ =~= head3 + other_lines(self.actors@.subrange(0, k as int), room.id, viewer));
        }
        assert(out@ =~= room_text(*self, q as int, viewer));
        out
    }

    /// The machine-readable view of the room at `q`, if its texts could be
    /// encoded.
    pub fn room_as_json(&self, q: usize) -> (r: String)
        requires
            q < self.rooms@.len(),
        ensures
            r@ == room_json(*self, q as int),
    {
        let room = &self.rooms[q];
        let title = json_quote(room.title.as_str());
        let desc = json_quote(room.description.as_str());
        let mut out = String::from_str("{\"title\":");
        out.append(title.as_str());
        out.append(",\"description\":");
        out.append(desc.as_str());
        match room.weather {
            Some(c) => {
                out.append(",\"weather\":\"");
                out.append(c.weather_type.describe_silicon());
                out.append("\",\"weather_intensity\":");
                out.append(decimal((c.intensity / 1000) as u64).as_str());
                out.append(".");
                out.append(decimal(((c.intensity % 1000) / 100) as u64).as_str());
                out.append(decimal(((c.intensity % 100) / 10) as u64).as_str());
                out.append(decimal((c.intensity % 10) as u64).as_str());
                out.append("}");
            },
            None => out.append(",\"weather\":null,\"weather_intensity\":null}"),
        }
        assert(out@ =~= room_json(*self, q as int));
        out
    }

    /// What `viewer` sees of `query` from `room`.
    pub fn describe_target(&self, viewer: u64, room: u64, query: &str) -> (r: String)
        ensures
            r@ == target_text(*self, viewer, room, query@),
    {
        let mut k: usize = 0;
        while k < self.actors.len()
            invariant
                k <= self.actors@.len(),
                forall|j: int| 0 <= j < k ==> !mob_named(self.actors@, j, query@),
            decreases self.actors@.len() - k,
        {
            let a = &self.actors[k];
            if a.npc && name_matches(a.name.as_str(), query) {
                proof {
                    lemma_first_unique_mob(self.actors@, query@, k as int);
                }
                let mut out = String::from_str("\x1B[1;35m");
                out.append(a.name.as_str());
                out.append("\x1B[0m\n");
                out.append(a.long_desc.as_str());
                return out;
            }
            k = k + 1;
        }
        let mut k: usize = 0;
        while k < self.items.len()
            invariant
                k <= self.items@.len(),
                forall|j: int| 0 <= j < self.actors@.len() ==> !mob_named(self.actors@, j, query@),
                forall|j: int| 0 <= j < k ==> !item_at(self.items@, j, Place::CarriedBy(viewer), query@),
            decreases self.items@.len() - k,
        {
            let it = &self.items[k];
            if it.place == Place::CarriedBy(viewer) && matches_keywords(&it.keywords, it.name.as_str(), query) {
                proof {
                    lemma_first_unique_item(self.items@, Place::CarriedBy(viewer), query@, k as int);
                    assert(!exists|j: int| 0 <= j < self.actors@.len() && mob_named(self.actors@, j, query@));
                    assert(item_at(self.items@, k as int, Place::CarriedBy(viewer), query@));
                }
                let mut out = String::from_str("\x1B[1;33m");
                out.append(it.name.as_str());
                out.append("\x1B[0m ");
                out.append(label_of(it.item_type));
                out.append("\n");
                out.append(it.description.as_str());
                out.append("\n\x1B[90mKeywords: ");
                let kw = join_words(&it.keywords);
                out.append(kw.as_str());
                out.append("\x1B[0m");
                assert(out@ =~= target_text(*self, viewer, room, query@));
                return out;
            }
            k = k + 1;
        }
        let mut k: usize = 0;
        while k < self.items.len()
            invariant
                k <= self.items@.len(),
                forall|j: int| 0 <= j < self.actors@.len() ==> !mob_named(self.actors@, j, query@),
                forall|j: int| 0 <= j < self.items@.len() ==> !item_at(self.items@, j, Place::CarriedBy(viewer), query@),
                forall|j: int| 0 <= j < k ==> !item_at(self.items@, j, Place::InRoom(room), query@),
            decreases self.items@.len() - k,
        {
            let it = &self.items[k];
            if it.place == Place::InRoom(room) && matches_keywords(&it.keywords, it.name.as_str(), query) {
                proof {
                    lemma_first_unique_item(self.items@, Place::InRoom(room), query@, k as int);
                    assert(!exists|j: int| 0 <= j < self.actors@.len() && mob_named(self.actors@, j, query@));
                    assert(!exists|j: int| 0 <= j < self.items@.len() && item_at(self.items@, j, Place::CarriedBy(viewer), query@));
                    assert(item_at(self.items@, k as int, Place::InRoom(room), query@));
                }
                let mut out = String::from_str("\x1B[1;33m");
                out.append(it.name.as_str());
                out.append("\x1B[0m ");
                out.append(label_of(it.item_type));
                out.append("\n");
                out.append(it.description.as_str());
                assert(out@ =~= target_text(*self, viewer, room, query@));
                return out;
            }
            k = k + 1;
        }
        proof {
            assert(!exists|j: int| 0 <= j < self.actors@.len() && mob_named(self.actors@, j, query@));
            assert(!exists|j: int| 0 <= j < self.items@.len() && item_at(self.items@, j, Place::CarriedBy(viewer), query@));
            assert(!exists|j: int| 0 <= j < self.items@.len() && item_at(self.items@, j, Place::InRoom(room), query@));
        }
        let q = match self.find_room(room) {
            None => {
                assert(details_of(*self, room) =~= Seq::<Detail>::empty());
                return String::from_str(NOTHING_SEEN);
            },
            Some(q) => q,
        };
        proof {
            let c = choose|c: int| first_room(self.rooms@, room, c);
            lemma_first_room_unique(self.rooms@, room, q as int, c);
        }
        let ql = lowercase(query);
        let details = &self.rooms[q].details;
        let ghost ds = details_of(*self, room);
        assert(ds == details@);
        let mut k: usize = 0;
        while k < details.len()
            invariant
                k <= details@.len(),
                ds == details@,
                ds == details_of(*self, room),
                ql@ == lower_of(query@),
                forall|j: int| 0 <= j < self.actors@.len() ==> !mob_named(self.actors@, j, query@),
                forall|j: int| 0 <= j < self.items@.len() ==> !item_at(self.items@, j, Place::CarriedBy(viewer), query@),
                forall|j: int| 0 <= j < self.items@.len() ==> !item_at(self.items@, j, Place::InRoom(room), query@),
                forall|j: int| 0 <= j < k ==> !detail_named(ds[j], query@),
            decreases details@.len() - k,
        {
            if detail_matches(&details[k], ql.as_str()) {
                proof {
                    let d = details@[k as int];
                    let kk = choose|kk: int| 0 <= kk < d.keywords@.len() && lower_of(#[trigger] d.keywords@[kk]@) == ql@;
                    assert(lower_of(d.keywords@[kk]@) == lower_of(query@));
                    assert(detail_named(d, query@));
                    assert(ds[k as int] == d);
                    let c = choose|c: int|
                        0 <= c < ds.len() && detail_named(ds[c], query@) && forall|j: int| 0 <= j < c ==> !detail_named(ds[j], query@);
                    assert(detail_named(ds[k as int], query@));
                    if c < k {
                        assert(!detail_named(ds[c], query@));
                    } else if k < c {
                        assert(!detail_named(ds[k as int], query@));
                    }
                }
                let out = String::from_str("\x1B[1;36m[Detail]\x1B[0m\n").concat(details[k].description.as_str());
                proof {
                    assert(!exists|j: int| 0 <= j < self.actors@.len() && mob_named(self.actors@, j, query@));
                    assert(!exists|j: int| 0 <= j < self.items@.len() && item_at(self.items@, j, Place::CarriedBy(viewer), query@));
                    assert(!exists|j: int| 0 <= j < self.items@.len() && item_at(self.items@, j, Place::InRoom(room), query@));
                    assert(0 <= k < details_of(*self, room).len() && detail_named(details_of(*self, room)[k as int], query@));
                    assert(out@ =~= "\x1B[1;36m[Detail]\x1B[0m\n"@ + ds[k as int].description@);
                }
                return out;
            }
            k = k + 1;
        }
        String::from_str(NOTHING_SEEN)
    }

    /// What actor `viewer` sees on looking: its room, in the encoding of its
    /// client category, or the thing named `target`. `None` when the viewer
    /// or its room does not exist.
    pub fn look(&self, viewer: u64, target: Option<&str>) -> (r: Option<String>)
        ensures
            text_opt(r) == look_result(*self, viewer, str_opt(target)),
            forall|i: int| first_actor(self.actors@, viewer, i) ==> {
                let a = self.actors@[i];
                match target {
                    Some(t) => r matches Some(s) && s@ == target_text(*self, viewer, a.room, t@),
                    None => forall|q: int| first_room(self.rooms@, a.room, q) ==> match a.client_type {
                        ClientType::Carbon => r matches Some(s) && s@ == room_text(*self, q, viewer),
                        ClientType::Silicon => r matches Some(s) && s@ == room_json(*self, q),
                    },
                }
            },
            forall|i: int| first_actor(self.actors@, viewer, i) && target is None && (forall|q: int|
                0 <= q < self.rooms@.len() ==> #[trigger] self.rooms@[q].id != self.actors@[i].room) ==> r is None,
            (forall|i: int| 0 <= i < self.actors@.len() ==> #[trigger] self.actors@[i].id != viewer) ==> r is None,
    {
        let i = match self.find_actor(viewer) {
            None => return None,
            Some(i) => i,
        };
        proof {
            assert forall|i2: int| first_actor(self.actors@, viewer, i2) implies i2 == i by {
                lemma_first_actor_unique(self.actors@, viewer, i as int, i2);
            }
        }
        let room = self.actors[i].room;
        proof {
            assert(first_actor(self.actors@, viewer, i as int));
            let c = choose|c: int| first_actor(self.actors@, viewer, c);
            assert(c == i);
        }
        match target {
            Some(t) => Some(self.describe_target(viewer, room, t)),
            None => {
                let q = match self.find_room(room) {
                    None => {
                        assert(!exists|q: int| first_room(self.rooms@, room, q));
                        return None;
                    },
                    Some(q) => q,
                };
                proof {
                    assert forall|q2: int| first_room(self.rooms@, room, q2) implies q2 == q by {
                        lemma_first_room_unique(self.rooms@, room, q as int, q2);
                    }
                }
                match self.actors[i].client_type {
                    ClientType::Carbon => Some(self.describe_room(q, viewer)),
                    ClientType::Silicon => Some(self.room_as_json(q)),
                }
            },
        }
    }
}

/// The texts of an optional string.
pub open spec fn text_opt(r: Option<String>) -> Option<Seq<char>> {
    match r {
        Some(s) => Some(s@),
        None => None,
    }
}

/// The text of an optional string slice.
pub open spec fn str_opt(r: Option<&str>) -> Option<Seq<char>> {
    match r {
        Some(s) => Some(s@),
        None => None,
    }
}

/// What actor `viewer` sees on looking at `target`, or at its room: nothing
/// where the viewer or its room does not exist.
pub open spec fn look_result(w: World, viewer: u64, target: Option<Seq<char>>) -> Option<Seq<char>> {
    if exists|i: int| first_actor(w.actors@, viewer, i) {
        let a = w.actors@[choose|i: int| first_actor(w.actors@, viewer, i)];
        match target {
            Some(t) => Some(target_text(w, viewer, a.room, t)),
            None => if exists|q: int| first_room(w.rooms@, a.room, q) {
                let q = choose|q: int| first_room(w.rooms@, a.room, q);
                match a.client_type {
                    ClientType::Carbon => Some(room_text(w, q, viewer)),
                    ClientType::Silicon => Some(room_json(w, q)),
                }
            } else {
                None
            },
        }
    } else {
        None
    }
}

/// Looking twice at the same world, with nothing changed between, shows the
/// same thing both times, for every kind of client.
pub proof fn lemma_look_idempotent(w: World, viewer: u64, target: Option<Seq<char>>, first: Option<Seq<char>>, second: Option<Seq<char>>)
    requires
        first == look_result(w, viewer, target),
        second == look_result(w, viewer, target),
    ensures
        first == second,
{
}

} // verus!
