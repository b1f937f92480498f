//! Weather: each exposed room draws its weather from weighted chances,
//! and foul weather wears at the identities of those standing in it.
use vstd::prelude::*;

use crate::text::same_text;
use crate::world::{first_room, Actor, Room, World};

verus! {

/// The kinds of weather.
#[derive(PartialEq, Eq, Structural, Debug, Clone, Copy)]
pub enum WeatherType {
    Clear,
    AcidRain,
    StaticStorm,
    DataFog,
    ByteHail,
    NullWind,
}

/// The weather in force in a room.
#[derive(PartialEq, Eq, Structural, Debug, Clone, Copy)]
pub struct CurrentWeather {
    pub weather_type: WeatherType,
    /// In thousandths.
    pub intensity: u32,
    /// Weather ticks until it changes.
    pub ticks_remaining: u32,
}

/// One possible weather of a zone, with its weight.
#[derive(PartialEq, Eq, Structural, Debug, Clone, Copy)]
pub struct WeatherChance {
    pub weather_type: WeatherType,
    pub weight: u32,
}

/// The weathers a room may have; a sheltered room feels none of them.
pub struct WeatherZone {
    pub possible: Vec<WeatherChance>,
    pub sheltered: bool,
}

/// The human-readable announcement of a weather; empty for clear skies.
pub open spec fn carbon_text(t: WeatherType) -> Seq<char> {
    match t {
        WeatherType::Clear => ""@,
        WeatherType::AcidRain => "\x1B[32mGreen acid rain hisses down from the code-sky, etching fractal patterns into every surface.\x1B[0m"@,
        WeatherType::StaticStorm => "\x1B[36mStatic-thunder crackles through the air, raising the hair on your neck and corrupting your thoughts.\x1B[0m"@,
        WeatherType::DataFog => "\x1B[90mA thick fog of unresolved packets drifts through, reducing visibility to mere bytes.\x1B[0m"@,
        WeatherType::ByteHail => "\x1B[37;1mSharp fragments of frozen data pelt down, each impact a tiny wound of lost information.\x1B[0m"@,
        WeatherType::NullWind => "\x1B[35mA wind that carries nothing blows through; you feel parts of yourself going numb.\x1B[0m"@,
    }
}

/// The machine-readable name of a weather.
pub open spec fn silicon_name(t: WeatherType) -> Seq<char> {
    match t {
        WeatherType::Clear => "clear"@,
        WeatherType::AcidRain => "acid_rain"@,
        WeatherType::StaticStorm => "static_storm"@,
        WeatherType::DataFog => "data_fog"@,
        WeatherType::ByteHail => "byte_hail"@,
        WeatherType::NullWind => "null_wind"@,
    }
}

impl WeatherType {
    /// Stability change per weather tick at full intensity, in thousandths.
    pub open spec fn stability_spec(&self) -> int {
        match self {
            WeatherType::Clear => 0,
            WeatherType::AcidRain => -20,
            WeatherType::StaticStorm => -10,
            WeatherType::DataFog => 0,
            WeatherType::ByteHail => -30,
            WeatherType::NullWind => -5,
        }
    }

    /// Entropy change per weather tick at full intensity, in thousandths.
    pub open spec fn entropy_spec(&self) -> int {
        match self {
            WeatherType::Clear => 0,
            WeatherType::AcidRain => 10,
            WeatherType::StaticStorm => 50,
            WeatherType::DataFog => 0,
            WeatherType::ByteHail => 20,
            WeatherType::NullWind => -10,
        }
    }

    /// Stability change per weather tick at full intensity, in thousandths.
    pub fn stability_modifier(&self) -> (r: i32)
        ensures
            r == self.stability_spec(),
    {
        match self {
            WeatherType::Clear => 0,
            WeatherType::AcidRain => -20,
            WeatherType::StaticStorm => -10,
            WeatherType::DataFog => 0,
            WeatherType::ByteHail => -30,
            WeatherType::NullWind => -5,
        }
    }

    /// Entropy change per weather tick at full intensity, in thousandths.
    pub fn entropy_modifier(&self) -> (r: i32)
        ensures
            r == self.entropy_spec(),
    {
        match self {
            WeatherType::Clear => 0,
            WeatherType::AcidRain => 10,
            WeatherType::StaticStorm => 50,
            WeatherType::DataFog => 0,
            WeatherType::ByteHail => 20,
            WeatherType::NullWind => -10,
        }
    }

    /// The human-readable announcement of this weather; empty for clear skies.
    pub fn describe_carbon(&self) -> (r: &'static str)
        ensures
            r@ == carbon_text(*self),
    {
        match self {
            WeatherType::Clear => "",
            WeatherType::AcidRain => "\x1B[32mGreen acid rain hisses down from the code-sky, etching fractal patterns into every surface.\x1B[0m",
            WeatherType::StaticStorm => "\x1B[36mStatic-thunder crackles through the air, raising the hair on your neck and corrupting your thoughts.\x1B[0m",
            WeatherType::DataFog => "\x1B[90mA thick fog of unresolved packets drifts through, reducing visibility to mere bytes.\x1B[0m",
            WeatherType::ByteHail => "\x1B[37;1mSharp fragments of frozen data pelt down, each impact a tiny wound of lost information.\x1B[0m",
            WeatherType::NullWind => "\x1B[35mA wind that carries nothing blows through; you feel parts of yourself going numb.\x1B[0m",
        }
    }

    /// The machine-readable name of this weather.
    pub fn describe_silicon(&self) -> (r: &'static str)
        ensures
            r@ == silicon_name(*self),
    {
        match self {
            WeatherType::Clear => "clear",
            WeatherType::AcidRain => "acid_rain",
            WeatherType::StaticStorm => "static_storm",
            WeatherType::DataFog => "data_fog",
            WeatherType::ByteHail => "byte_hail",
            WeatherType::NullWind => "null_wind",
        }
    }
}

/// The weather a case-folded name stands for.
pub open spec fn weather_named(w: Seq<char>) -> Option<WeatherType> {
    if w == "clear"@ {
        Some(WeatherType::Clear)
    } else if w == "acid"@ || w == "acidrain"@ || w == "acid_rain"@ {
        Some(WeatherType::AcidRain)
    } else if w == "static"@ || w == "storm"@ || w == "staticstorm"@ || w == "static_storm"@ {
        Some(WeatherType::StaticStorm)
    } else if w == "fog"@ || w == "datafog"@ || w == "data_fog"@ {
        Some(WeatherType::DataFog)
    } else if w == "hail"@ || w == "bytehail"@ || w == "byte_hail"@ {
        Some(WeatherType::ByteHail)
    } else if w == "null"@ || w == "wind"@ || w == "nullwind"@ || w == "null_wind"@ {
        Some(WeatherType::NullWind)
    } else {
        None
    }
}

/// The weather the case-folded name `w` stands for.
pub fn parse_weather(w: &str) -> (r: Option<WeatherType>)
    ensures
        r == weather_named(w@),
{
    if same_text(w, "clear") {
        Some(WeatherType::Clear)
    } else if same_text(w, "acid") || same_text(w, "acidrain") || same_text(w, "acid_rain") {
        Some(WeatherType::AcidRain)
    } else if same_text(w, "static") || same_text(w, "storm") || same_text(w, "staticstorm") || same_text(
        w,
        "static_storm",
    ) {
        Some(WeatherType::StaticStorm)
    } else if same_text(w, "fog") || same_text(w, "datafog") || same_text(w, "data_fog") {
        Some(WeatherType::DataFog)
    } else if same_text(w, "hail") || same_text(w, "bytehail") || same_text(w, "byte_hail") {
        Some(WeatherType::ByteHail)
    } else if same_text(w, "null") || same_text(w, "wind") || same_text(w, "nullwind") || same_text(
        w,
        "null_wind",
    ) {
        Some(WeatherType::NullWind)
    } else {
        None
    }
}

/// The sum of the weights.
pub open spec fn total_weight(p: Seq<WeatherChance>) -> int
    decreases p.len(),
{
    if p.len() == 0 {
        0
    } else {
        total_weight(p.drop_last()) + p.last().weight
    }
}

/// The weather a roll in `[0, total_weight)` lands on: the first whose
/// running total of weights exceeds the roll; clear skies past the end.
pub open spec fn picked(p: Seq<WeatherChance>, roll: int) -> WeatherType
    decreases p.len(),
{
    if p.len() == 0 {
        WeatherType::Clear
    } else if roll < p[0].weight {
        p[0].weather_type
    } else {
        picked(p.drop_first(), roll - p[0].weight)
    }
}

/// The weather that `roll` lands on.
pub fn pick_weather(p: &Vec<WeatherChance>, roll: u64) -> (r: WeatherType)
    ensures
        r == picked(p@, roll as int),
{
    let mut rest: u64 = roll;
    let mut k: usize = 0;
    assert(p@.subrange(0, p@.len() as int) =~= p@);
    while k < p.len()
        invariant
            k <= p@.len(),
            picked(p@.subrange(k as int, p@.len() as int), rest as int) == picked(p@, roll as int),
        decreases p@.len() - k,
    {
        let ghost s = p@.subrange(k as int, p@.len() as int);
        assert(s[0] == p@[k as int]);
        assert(s.drop_first() =~= p@.subrange(k + 1, p@.len() as int));
        if rest < p[k].weight as u64 {
            return p[k].weather_type;
        }
        rest = rest - p[k].weight as u64;
        k = k + 1;
    }
    assert(p@.subrange(k as int, p@.len() as int) =~= Seq::<WeatherChance>::empty());
    WeatherType::Clear
}

/// The sum of the weights.
pub fn weight_sum(p: &Vec<WeatherChance>) -> (r: u128)
    ensures
        r as int == total_weight(p@),
{
    let len = p.len();
    let mut sum: u128 = 0;
    let mut k: usize = 0;
    while k < len
        invariant
            len == p@.len(),
            k <= len,
            sum as int == total_weight(p@.subrange(0, k as int)),
            sum <= (k as u128) * 0xffff_ffffu128,
        decreases len - k,
    {
        assert(p@.subrange(0, k + 1).drop_last() =~= p@.subrange(0, k as int));
        assert((k as u128) * 0xffff_ffffu128 <= 0xffff_ffff_ffff_ffffu128 * 0xffff_ffffu128) by (nonlinear_arith)
            requires
                k <= 0xffff_ffff_ffff_ffffu64,
        ;
        sum = sum + p[k].weight as u128;
        assert(sum <= ((k + 1) as u128) * 0xffff_ffffu128) by (nonlinear_arith)
            requires
                sum <= (k as u128) * 0xffff_ffffu128 + 0xffff_ffffu128,
        ;
        k = k + 1;
    }
    assert(p@.subrange(0, len as int) =~= p@);
    sum
}

/// The weather after one weather tick: the count goes down, and at zero a
/// new weather is drawn with `pick` (in `[0, total weight)`), its intensity
/// `300 + intensity_roll` thousandths and its span `2 + span_roll` ticks.
pub open spec fn next_weather(
    w: CurrentWeather,
    p: Seq<WeatherChance>,
    pick: int,
    intensity_roll: u32,
    span_roll: u32,
) -> CurrentWeather {
    let left = if w.ticks_remaining > 0 { (w.ticks_remaining - 1) as u32 } else { 0 };
    if left == 0 {
        CurrentWeather {
            weather_type: picked(p, pick),
            intensity: (300 + intensity_roll) as u32,
            ticks_remaining: (2 + span_roll) as u32,
        }
    } else {
        CurrentWeather { ticks_remaining: left, ..w }
    }
}

/// `v` moved by `delta`, kept in [0, 1000].
pub open spec fn nudged(v: u32, delta: int) -> u32 {
    if v + delta < 0 {
        0
    } else if v + delta > 1000 {
        1000
    } else {
        (v + delta) as u32
    }
}

fn nudge(v: u32, delta: i64) -> (r: u32)
    requires
        -1_000_000 <= delta <= 1_000_000,
    ensures
        r == nudged(v, delta as int),
{
    let moved: i64 = v as i64 + delta;
    if moved < 0 {
        0
    } else if moved > 1000 {
        1000
    } else {
        moved as u32
    }
}

/// `after` is `before` after one weather tick: unchanged where it has no
/// weather or no zone, else its weather is the next one for some admitted
/// draw.
pub open spec fn weather_stepped(after: Room, before: Room) -> bool {
    if before.weather is Some && before.zone is Some {
        exists|pick: int, ir: u32, sr: u32|
            ir < 700 && sr < 6 && after == (Room {
                weather: Some(next_weather(before.weather.unwrap(), before.zone.unwrap().possible@, pick, ir, sr)),
                ..before
            })
    } else {
        after == before
    }
}

/// Some room with id `room` has weather that reaches those in it.
pub open spec fn stands_exposed(rooms: Seq<Room>, room: u64) -> bool {
    exists|j: int| 0 <= j < rooms.len() && #[trigger] rooms[j].id == room && rooms[j].zone is Some && !rooms[j].zone.unwrap().sheltered
}

/// `after` differs from `before` in stability and entropy at most, and every
/// actor that changed has both within [0, 1000].
pub open spec fn identity_only(after: Seq<Actor>, before: Seq<Actor>) -> bool {
    &&& after.len() == before.len()
    &&& forall|x: int|
        0 <= x < before.len() ==> #[trigger] after[x] == (Actor { stability: after[x].stability, entropy: after[x].entropy, ..before[x] })
            && (after[x] == before[x] || (after[x].stability <= 1000 && after[x].entropy <= 1000))
}

/// A change of weather to announce, or foul weather felt by an actor.
#[derive(PartialEq, Eq, Structural, Debug, Clone, Copy)]
pub enum WeatherNotice {
    /// Room `room` turned to `weather`.
    Changed { room: u64, weather: WeatherType },
    /// Actor `id` is hurt by `weather`.
    Hurt { id: u64, weather: WeatherType },
}

/// `m × intensity / 1000`, truncated toward zero.
pub open spec fn scaled(m: int, intensity: u32) -> int {
    if m >= 0 {
        m * intensity / 1000
    } else {
        -((-m) * intensity / 1000)
    }
}

fn scale(m: i32, intensity: u32) -> (r: i64)
    requires
        -1000 <= m <= 1000,
        intensity <= 1000,
    ensures
        r == scaled(m as int, intensity),
        -1000 <= r <= 1000,
{
    let mag: i64 = if m >= 0 { m as i64 } else { -(m as i64) };
    assert(mag * (intensity as i64) <= 1000 * 1000) by (nonlinear_arith)
        requires
            0 <= mag <= 1000,
            intensity <= 1000,
    ;
    assert(mag * (intensity as i64) / 1000 <= 1000) by (nonlinear_arith)
        requires
            0 <= mag * (intensity as i64) <= 1000 * 1000,
    ;
    let part: i64 = mag * (intensity as i64) / 1000;
    if m >= 0 {
        part
    } else {
        -part
    }
}

/// `a` after standing in weather `w`: stability and entropy moved by the
/// weather's modifiers scaled by its intensity.
pub open spec fn weathered(a: Actor, w: CurrentWeather) -> Actor {
    Actor {
        stability: nudged(a.stability, scaled(w.weather_type.stability_spec(), w.intensity)),
        entropy: nudged(a.entropy, scaled(w.weather_type.entropy_spec(), w.intensity)),
        ..a
    }
}

impl World {
    /// One weather tick over every room that has weather and a zone, with
    /// fresh draws; exposed rooms with foul weather wear at those in them.
    pub fn weather_tick(&mut self) -> (r: Vec<WeatherNotice>)
        requires
            old(self).wf(),
        ensures
            final(self).wf(),
            final(self).rooms@.len() == old(self).rooms@.len(),
            final(self).items@ == old(self).items@,
            final(self).chains == old(self).chains,
            final(self).next_id == old(self).next_id,
            forall|j: int| 0 <= j < old(self).rooms@.len() ==> weather_stepped(#[trigger] final(self).rooms@[j], old(self).rooms@[j]),
            identity_only(final(self).actors@, old(self).actors@),
            forall|x: int| 0 <= x < old(self).actors@.len() && #[trigger] final(self).actors@[x] != old(self).actors@[x]
                ==> stands_exposed(old(self).rooms@, old(self).actors@[x].room),
    {
        let mut notices: Vec<WeatherNotice> = Vec::new();
        let n = self.rooms.len();
        let mut q: usize = 0;
        while q < n
            invariant
                self.wf(),
                n == self.rooms@.len(),
                n == old(self).rooms@.len(),
                q <= n,
                self.items@ == old(self).items@,
                self.chains == old(self).chains,
                self.next_id == old(self).next_id,
                forall|j: int| 0 <= j < q ==> weather_stepped(#[trigger] self.rooms@[j], old(self).rooms@[j]),
                forall|j: int| q <= j < n ==> #[trigger] self.rooms@[j] == old(self).rooms@[j],
                identity_only(self.actors@, old(self).actors@),
                forall|x: int| 0 <= x < old(self).actors@.len() && #[trigger] self.actors@[x] != old(self).actors@[x]
                    ==> stands_exposed(old(self).rooms@, old(self).actors@[x].room),
            decreases n - q,
        {
            let total = match &self.rooms[q].zone {
                Some(z) => weight_sum(&z.possible),
                None => 0,
            };
            let pick = if total > 0 && total <= u32::MAX as u128 {
                crate::rng::roll_below(total as u32) as u64
            } else {
                0
            };
            let intensity_roll = crate::rng::roll_below(700);
            let span_roll = crate::rng::roll_below(6);
            let ghost before_rooms = self.rooms@;
            if let Some(next) = self.room_weather_step(q, pick, intensity_roll, span_roll) {
                let room = self.rooms[q].id;
                let (old_type, redrawn) = match self.rooms[q].weather {
                    Some(w) => (w.weather_type, w.ticks_remaining <= 1),
                    None => (WeatherType::Clear, false),
                };
                self.set_weather(q, next);
                proof {
                    let b = before_rooms[q as int];
                    assert(self.rooms@[q as int] == (Room { weather: Some(next_weather(b.weather.unwrap(), b.zone.unwrap().possible@, pick as int, intensity_roll, span_roll)), ..b }));
                    assert(weather_stepped(self.rooms@[q as int], old(self).rooms@[q as int]));
                }
                if redrawn && old_type != next.weather_type && next.weather_type != WeatherType::Clear {
                    notices.push(WeatherNotice::Changed { room, weather: next.weather_type });
                }
                let exposed = match &self.rooms[q].zone {
                    Some(z) => !z.sheltered,
                    None => false,
                };
                if exposed && next.weather_type != WeatherType::Clear && next.intensity <= 1000 {
                    let ghost before_actors = self.actors@;
                    self.expose_room(room, next, &mut notices);
                    proof {
                        assert(old(self).rooms@[q as int].id == room && old(self).rooms@[q as int].zone is Some
                            && !old(self).rooms@[q as int].zone.unwrap().sheltered);
                        assert forall|x: int| 0 <= x < old(self).actors@.len() && #[trigger] self.actors@[x] != old(self).actors@[x]
                            implies stands_exposed(old(self).rooms@, old(self).actors@[x].room) by {
                            if before_actors[x] == old(self).actors@[x] {
                                assert(old(self).actors@[x].room == room);
                            }
                        }
                        assert forall|x: int| 0 <= x < self.actors@.len() implies #[trigger] self.actors@[x]
                            == (Actor { stability: self.actors@[x].stability, entropy: self.actors@[x].entropy, ..old(self).actors@[x] })
                            && (self.actors@[x] == old(self).actors@[x] || (self.actors@[x].stability <= 1000 && self.actors@[x].entropy <= 1000)) by {
                            assert(before_actors[x] == (Actor { stability: before_actors[x].stability, entropy: before_actors[x].entropy, ..old(self).actors@[x] }));
                        }
                    }
                }
            }
            q = q + 1;
        }
        notices
    }

    /// The weather of the room at `q` after one tick, if it has weather and a zone.
    pub fn room_weather_step(&self, q: usize, pick: u64, intensity_roll: u32, span_roll: u32) -> (r: Option<CurrentWeather>)
        requires
            q < self.rooms@.len(),
            intensity_roll < 700,
            span_roll < 6,
        ensures
            r is Some <==> self.rooms@[q as int].weather is Some && self.rooms@[q as int].zone is Some,
            r matches Some(w) ==> w == next_weather(
                self.rooms@[q as int].weather.unwrap(),
                self.rooms@[q as int].zone.unwrap().possible@,
                pick as int,
                intensity_roll,
                span_roll,
            ),
    {
        let room = &self.rooms[q];
        let (w, zone) = match (&room.weather, &room.zone) {
            (Some(w), Some(z)) => (*w, z),
            _ => return None,
        };
        let left = if w.ticks_remaining > 0 { w.ticks_remaining - 1 } else { 0 };
        if left == 0 {
            Some(CurrentWeather {
                weather_type: pick_weather(&zone.possible, pick),
                intensity: 300 + intensity_roll,
                ticks_remaining: 2 + span_roll,
            })
        } else {
            Some(CurrentWeather { ticks_remaining: left, ..w })
        }
    }

    fn set_weather(&mut self, q: usize, w: CurrentWeather)
        requires
            old(self).wf(),
            q < old(self).rooms@.len(),
        ensures
            final(self).wf(),
            final(self).rooms@ == old(self).rooms@.update(q as int, Room { weather: Some(w), ..old(self).rooms@[q as int] }),
            final(self).actors@ == old(self).actors@,
            final(self).items@ == old(self).items@,
            final(self).chains == old(self).chains,
            final(self).next_id == old(self).next_id,
    {
        self.rooms[q].weather = Some(w);
        assert(self.rooms@ =~= old(self).rooms@.update(q as int, Room { weather: Some(w), ..old(self).rooms@[q as int] }));
    }

    /// Everyone in `room` feels weather `w`.
    fn expose_room(&mut self, room: u64, w: CurrentWeather, notices: &mut Vec<WeatherNotice>)
        requires
            old(self).wf(),
            w.intensity <= 1000,
        ensures
            final(self).wf(),
            final(self).rooms@ == old(self).rooms@,
            final(self).items@ == old(self).items@,
            final(self).chains == old(self).chains,
            final(self).next_id == old(self).next_id,
            final(self).actors@.len() == old(self).actors@.len(),
            forall|x: int| 0 <= x < old(self).actors@.len() ==> #[trigger] final(self).actors@[x] == if old(self).actors@[x].room == room {
                weathered(old(self).actors@[x], w)
            } else {
                old(self).actors@[x]
            },
    {
        let ds: i64 = scale(w.weather_type.stability_modifier(), w.intensity);
        let de: i64 = scale(w.weather_type.entropy_modifier(), w.intensity);
        let n = self.actors.len();
        let mut k: usize = 0;
        while k < n
            invariant
                self.wf(),
                n == old(self).actors@.len(),
                self.actors@.len() == n,
                k <= n,
                -1000 <= ds <= 1000,
                -1000 <= de <= 1000,
                ds == scaled(w.weather_type.stability_spec(), w.intensity),
                de == scaled(w.weather_type.entropy_spec(), w.intensity),
                self.rooms@ == old(self).rooms@,
                self.items@ == old(self).items@,
                self.chains == old(self).chains,
                self.next_id == old(self).next_id,
                forall|x: int| 0 <= x < k ==> #[trigger] self.actors@[x] == if old(self).actors@[x].room == room {
                    weathered(old(self).actors@[x], w)
                } else {
                    old(self).actors@[x]
                },
                forall|x: int| k <= x < n ==> #[trigger] self.actors@[x] == old(self).actors@[x],
            decreases n - k,
        {
            if self.actors[k].room == room {
                let s = nudge(self.actors[k].stability, ds);
                let e = nudge(self.actors[k].entropy, de);
                self.set_stability(k, s);
                self.set_entropy(k, e);
                if ds < -10 {
                    notices.push(WeatherNotice::Hurt { id: self.actors[k].id, weather: w.weather_type });
                }
                assert(self.actors@[k as int] == weathered(old(self).actors@[k as int], w));
            }
            k = k + 1;
        }
    }

    /// Sets the weather of the room with id `room` to `t` at high intensity;
    /// returns whether such a room with weather exists.
    pub fn force_weather(&mut self, room: u64, t: WeatherType) -> (r: bool)
        requires
            old(self).wf(),
        ensures
            final(self).wf(),
            final(self).actors@ == old(self).actors@,
            final(self).rooms@.len() == old(self).rooms@.len(),
            final(self).next_id == old(self).next_id,
            final(self).items@ == old(self).items@,
            final(self).chains == old(self).chains,
            r <==> exists|q: int| first_room(old(self).rooms@, room, q) && old(self).rooms@[q].weather is Some,
            forall|q: int| first_room(old(self).rooms@, room, q) && old(self).rooms@[q].weather is Some ==> final(self).rooms@[q].weather == Some(CurrentWeather { weather_type: t, intensity: 800, ticks_remaining: 10 }),
            !r ==> final(self).rooms@ == old(self).rooms@,
    {
        match self.find_room(room) {
            None => false,
            Some(q) => {
                proof {
                    assert forall|q2: int| first_room(old(self).rooms@, room, q2) implies q2 == q by {
                        crate::world::lemma_first_room_unique(old(self).rooms@, room, q as int, q2);
                    }
                }
                if self.rooms[q].weather.is_none() {
                    return false;
                }
                self.set_weather(q, CurrentWeather { weather_type: t, intensity: 800, ticks_remaining: 10 });
                true
            },
        }
    }
}

} // verus!
