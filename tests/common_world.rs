use substrate::admin::TormentReport;
use substrate::chains::{struggle_chance, BindError, Restraints, StruggleOutcome};
use substrate::consume::{consumable_effect, drift, is_coherent, AbideReport, Effect, UseReport};
use substrate::combat::{resolve_attack, AttackRolls, ClientType, CombatStats};
use substrate::command::{parse_command, Command, CUSTODY_REPLY};
use substrate::economy::{buy_price, sell_price, ItemType, VendorTerms, VendorType};
use substrate::fight::{AttackReport, FleeReport};
use substrate::lock::CycleLock;
use substrate::login::{Lobby, NameCheck, PendingLogin, PlayerRecord};
use substrate::movement::MoveOutcome;
use substrate::stream::pressure_step;
use substrate::text::{contains_text, decimal, name_matches, split_once_space};
use substrate::trade::{BuyReport, CarryReport, SellReport};
use substrate::weather::{pick_weather, CurrentWeather, WeatherChance, WeatherType, WeatherZone};
use substrate::world::{Actor, Direction, Exits, Item, Place, Room, StockItem, Vendor, World};

fn no_exits() -> Exits {
    Exits { north: None, south: None, east: None, west: None, up: None, down: None }
}

fn room(id: u64, key: &str, exits: Exits) -> Room {
    Room {
        id,
        key: key.to_string(),
        title: format!("Room {}", key),
        description: format!("The {} lies quiet.", key),
        exits,
        pressure_rate: None,
        details: Vec::new(),
        weather: None,
        zone: None,
    }
}

fn actor(id: u64, name: &str, room: u64) -> Actor {
    Actor {
        id,
        session: Some(id),
        uuid: format!("uuid-{}", id),
        name: name.to_string(),
        room,
        client_type: ClientType::Carbon,
        npc: false,
        short_desc: String::new(),
        long_desc: String::new(),
        admin: false,
        in_custody: false,
        entropy: 500,
        stability: 1000,
        signal_strength: 1000,
        integrity: 1000,
        max_integrity: 1000,
        stats: CombatStats::starting(),
        combat: None,
        lock: None,
        wallet: 100,
        vendor: None,
        pressure: 0,
        link: None,
        coherence: 1000,
        phasing: false,
        drift_rate: 0,
        penance: 0,
    }
}

/// Two rooms: 1 (key "spawn") with a north exit to 2 (key "vault").
fn two_rooms() -> World {
    let mut north = no_exits();
    north.north = Some(2);
    let mut south = no_exits();
    south.south = Some(1);
    World::new(vec![room(1, "spawn", north), room(2, "vault", south)], 100).unwrap()
}

fn record(last_room: &str, stability: u32) -> PlayerRecord {
    PlayerRecord {
        uuid: "u-ada".to_string(),
        name: "Ada".to_string(),
        client_type: ClientType::Carbon,
        last_room: last_room.to_string(),
        stability,
        entropy: 300,
        signal_strength: 900,
        integrity: 800,
        combat_stats: None,
        wallet: 55,
    }
}

#[test]
fn login_restore_keeps_stability_and_room() {
    let mut w = two_rooms();
    let id = w.restore_player(7, &record("vault", 420));
    let a = w.actors.last().unwrap();
    assert_eq!(a.id, id);
    assert_eq!(a.stability, 420);
    assert_eq!(a.room, 2);
    assert_eq!(a.name, "Ada");
    assert_eq!(a.session, Some(7));
    assert_eq!(a.wallet, 55);
}

#[test]
fn login_restore_falls_back_to_first_room() {
    let mut w = two_rooms();
    w.restore_player(7, &record("collapsed_wing", 420));
    let a = w.actors.last().unwrap();
    assert_eq!(a.stability, 420);
    assert_eq!(a.room, 1);
}

#[test]
fn new_player_enters_spawn_with_fresh_uuid() {
    let mut w = World::new(vec![room(5, "hall", no_exits()), room(6, "spawn", no_exits())], 1).unwrap();
    let id = w.create_player_fresh(3, "Bo").unwrap();
    let a = w.actors.last().unwrap();
    assert_eq!(a.id, id);
    assert_eq!(a.room, 6);
    assert_eq!(a.uuid.chars().count(), 36);
    assert_eq!(a.stability, 1000);
    assert_eq!(a.entropy, 500);
}

#[test]
fn name_checks_count_rejections() {
    let mut p = PendingLogin::new();
    assert!(matches!(p.check_name("   "), NameCheck::Retry));
    assert!(matches!(p.check_name(&"x".repeat(33)), NameCheck::Retry));
    assert!(matches!(p.check_name(""), NameCheck::Disconnect));
    let mut q = PendingLogin::new();
    match q.check_name("  Ada  ") {
        NameCheck::Valid { name } => assert_eq!(name, "Ada"),
        _ => panic!("expected a valid name"),
    }
    assert_eq!(q.attempts, 0);
}

#[test]
fn lobby_tracks_pending_connections() {
    let mut l = Lobby::new();
    assert!(l.connect(9).ends_with("Enter your designation:\x1B[0m"));
    assert!(l.is_pending(9));
    assert!(matches!(l.submit(9, ""), Some(NameCheck::Retry)));
    assert!(l.is_pending(9));
    assert!(matches!(l.submit(9, "Ada"), Some(NameCheck::Valid { .. })));
    assert!(!l.is_pending(9));
    assert!(l.submit(9, "Ada").is_none());
    l.connect(10);
    assert!(l.disconnect(10));
    assert!(!l.disconnect(10));
}

#[test]
fn combat_to_defeat() {
    let mut w = two_rooms();
    let mut a = actor(1, "Ada", 1);
    a.stats = CombatStats { attack: 1000, defense: 0, precision: 500, chaos_factor: 0 };
    let mut t = actor(2, "Grunt", 1);
    t.stats.defense = 0;
    t.integrity = 50;
    w.actors.push(a);
    w.actors.push(t);
    let r = w.attack_with(1, "gru", 0, AttackRolls { hit: 0, spread: 0, crit: 999 });
    match r {
        AttackReport::Struck { target, outcome, integrity_left, defeated } => {
            assert_eq!(target, 2);
            assert!(!outcome.miss);
            assert_eq!(outcome.damage, 500);
            assert_eq!(integrity_left, 0);
            assert!(defeated);
        }
        _ => panic!("expected a blow"),
    }
    assert_eq!(w.actors[1].integrity, 0);
    assert!(w.actors[1].combat.is_none());
    assert!(w.actors[0].combat.is_some());
    let lock = w.actors[0].lock.as_ref().unwrap();
    assert_eq!(lock.expires_at, 2000);
    assert_eq!(lock.action_name, "attack");
    let again = w.attack_with(1, "gru", 1000, AttackRolls { hit: 0, spread: 0, crit: 999 });
    assert_eq!(again, AttackReport::Locked { remaining: 1000 });
}

#[test]
fn attack_misses_and_unknown_targets() {
    let mut w = two_rooms();
    w.actors.push(actor(1, "Ada", 1));
    w.actors.push(actor(2, "Grunt", 2));
    assert_eq!(w.attack_with(1, "grunt", 0, AttackRolls { hit: 0, spread: 0, crit: 0 }), AttackReport::NoTarget);
    assert_eq!(w.attack_with(9, "grunt", 0, AttackRolls { hit: 0, spread: 0, crit: 0 }), AttackReport::NoAttacker);
    w.actors[1].room = 1;
    match w.attack_with(1, "GRUNT", 0, AttackRolls { hit: 999, spread: 0, crit: 0 }) {
        AttackReport::Struck { outcome, integrity_left, defeated, .. } => {
            assert!(outcome.miss);
            assert_eq!(integrity_left, 1000);
            assert!(!defeated);
        }
        _ => panic!("expected a miss"),
    }
}

#[test]
fn attack_formulas_give_exact_damage() {
    let precise = CombatStats { attack: 1000, defense: 0, precision: 0, chaos_factor: 0 };
    let target = CombatStats { attack: 0, defense: 0, precision: 0, chaos_factor: 0 };
    let o = resolve_attack(&precise, &target, ClientType::Silicon, AttackRolls { hit: 0, spread: 500, crit: 999 });
    assert_eq!(o.damage, 1000);
    assert!(!o.critical);
    let chaotic = CombatStats { attack: 1000, defense: 0, precision: 0, chaos_factor: 1000 };
    let o = resolve_attack(&chaotic, &target, ClientType::Carbon, AttackRolls { hit: 0, spread: 0, crit: 0 });
    assert!(o.critical);
    assert_eq!(o.damage, 1000);
    let armored = CombatStats { attack: 0, defense: 500, precision: 0, chaos_factor: 0 };
    let o = resolve_attack(&precise, &armored, ClientType::Silicon, AttackRolls { hit: 0, spread: 0, crit: 999 });
    assert_eq!(o.damage, 450);
    let o = resolve_attack(&chaotic, &target, ClientType::Carbon, AttackRolls { hit: 701, spread: 0, crit: 0 });
    assert!(o.miss);
}

#[test]
fn chained_drag() {
    let mut w = two_rooms();
    w.actors.push(actor(1, "Holder", 1));
    w.actors.push(actor(2, "Target", 1));
    assert_eq!(w.chains.bind(1, 2), Ok(()));
    assert_eq!(w.move_actor(2, Direction::North), MoveOutcome::Held { holder: 1 });
    assert_eq!(w.actors[1].room, 1);
    assert_eq!(w.move_actor(1, Direction::North), MoveOutcome::Moved { to: 2, dragged: Some(2) });
    assert_eq!(w.actors[0].room, 2);
    assert_eq!(w.actors[1].room, w.actors[0].room);
    assert_eq!(w.move_actor(1, Direction::East), MoveOutcome::NoExit);
}

#[test]
fn restraint_is_exclusive() {
    let mut r = Restraints::new();
    assert_eq!(r.bind(1, 2), Ok(()));
    assert_eq!(r.bind(3, 2), Err(BindError::AlreadyBound));
    assert_eq!(r.bind(1, 3), Err(BindError::AlreadyHolding));
    assert_eq!(r.bind(4, 4), Err(BindError::SelfTarget));
    assert_eq!(r.links.len(), 1);
    let l = r.release(1).unwrap();
    assert_eq!((l.holder, l.bound), (1, 2));
    assert!(r.release(1).is_none());
    assert_eq!(r.bind(3, 2), Ok(()));
    r.forget(2);
    assert!(r.links.is_empty());
}

#[test]
fn struggle_cooldown_and_outcomes() {
    let mut r = Restraints::new();
    r.bind(1, 2).unwrap();
    assert_eq!(r.struggle(2, 1000, 0, true), StruggleOutcome::TooSoon { remaining: 2000 });
    assert_eq!(r.struggle(2, 5000, 999, true), StruggleOutcome::Held { holder: 1, attempts: 1 });
    assert_eq!(r.links[0].attempts, 1);
    assert_eq!(r.links[0].last_attempt, 5000);
    assert_eq!(r.struggle(2, 6000, 0, true), StruggleOutcome::TooSoon { remaining: 2000 });
    assert_eq!(r.struggle(2, 9000, 0, true), StruggleOutcome::Broke { holder: 1, attempts: 2 });
    assert!(r.links.is_empty());
    assert_eq!(r.struggle(2, 9000, 0, true), StruggleOutcome::NotBound);
    r.bind(1, 2).unwrap();
    assert_eq!(r.struggle(2, 9000, 999, false), StruggleOutcome::HolderGone { holder: 1 });
}

#[test]
fn struggle_chance_is_clamped() {
    assert_eq!(struggle_chance(1, 700), 162);
    assert_eq!(struggle_chance(0, 0), 200);
    assert_eq!(struggle_chance(1_000_000, 0), 1000);
    assert_eq!(struggle_chance(u32::MAX, 1000), 1000);
}

#[test]
fn cycle_lock_lapses_for_good() {
    let l = CycleLock::new(2000, "attack", 1000);
    assert!(l.is_locked(1000));
    assert!(l.is_locked(2999));
    assert!(!l.is_locked(3000));
    assert!(!l.is_locked(10_000));
    assert_eq!(l.remaining(2500), 500);
    assert_eq!(l.remaining(4000), 0);
    let capped = CycleLock::new(10, "x", u64::MAX - 1);
    assert_eq!(capped.expires_at, u64::MAX);
}

#[test]
fn expired_locks_are_cleared() {
    let mut w = two_rooms();
    let mut a = actor(1, "Ada", 1);
    a.lock = Some(CycleLock::new(2000, "attack", 0));
    let mut b = actor(2, "Bo", 1);
    b.lock = Some(CycleLock::new(9000, "attack", 0));
    w.actors.push(a);
    w.actors.push(b);
    w.clear_expired_locks(3000);
    assert!(w.actors[0].lock.is_none());
    assert!(w.actors[1].lock.is_some());
}

fn specialist() -> Vendor {
    Vendor {
        terms: VendorTerms { buy_pct: 120, sell_pct: 40, kind: VendorType::Specialist },
        stock: vec![StockItem {
            item_name: "Bottled Memory: First Sunrise".to_string(),
            description: "Warm light in a vial.".to_string(),
            keywords: vec!["sunrise".to_string(), "memory".to_string()],
            item_type: ItemType::Consumable,
            base_price: 50,
        }],
    }
}

#[test]
fn economy_round_trip() {
    let mut w = two_rooms();
    w.actors.push(actor(1, "Ada", 1));
    let mut broker = actor(2, "Broker", 1);
    broker.npc = true;
    broker.vendor = Some(specialist());
    w.actors.push(broker);
    let before = w.actors[0].wallet;
    let r = w.buy_with(1, "SUNRISE", "item-uuid".to_string());
    assert_eq!(r, BuyReport::Bought { item: 100, price: 60, balance: 40 });
    assert_eq!(w.items.len(), 1);
    assert_eq!(w.items[0].place, Place::CarriedBy(1));
    assert_eq!(w.items[0].uuid, "item-uuid");
    let s = w.sell(1, "sunrise");
    assert_eq!(s, SellReport::Sold { item: 100, price: 6, balance: 46 });
    assert!(w.items.is_empty());
    assert!(w.actors[0].wallet <= before);
}

#[test]
fn buying_needs_money_vendor_and_stock() {
    let mut w = two_rooms();
    let mut poor = actor(1, "Ada", 1);
    poor.wallet = 10;
    w.actors.push(poor);
    assert_eq!(w.buy_with(1, "sunrise", "u".to_string()), BuyReport::NoVendor);
    let mut broker = actor(2, "Broker", 1);
    broker.vendor = Some(specialist());
    w.actors.push(broker);
    assert_eq!(w.buy_with(1, "sword", "u".to_string()), BuyReport::NotInStock);
    assert_eq!(w.buy_with(1, "sunrise", "u".to_string()), BuyReport::Insufficient { price: 60, have: 10 });
    assert_eq!(w.sell(1, "sunrise"), SellReport::NotCarried);
    let uuid_buy = w.buy(1, "sunrise");
    assert_eq!(uuid_buy, BuyReport::Insufficient { price: 60, have: 10 });
}

#[test]
fn prices_round_half_up() {
    assert_eq!(buy_price(45, 90), 41);
    assert_eq!(buy_price(50, 120), 60);
    let fence = VendorTerms { buy_pct: 90, sell_pct: 60, kind: VendorType::Fence };
    assert_eq!(sell_price(ItemType::Contraband, &fence), Some(68));
    assert_eq!(sell_price(ItemType::Weapon, &fence), Some(30));
    assert_eq!(sell_price(ItemType::Quest, &fence), None);
}

#[test]
fn quest_items_are_not_bought_back() {
    let mut w = two_rooms();
    w.actors.push(actor(1, "Ada", 1));
    let mut broker = actor(2, "Broker", 1);
    broker.vendor = Some(specialist());
    w.actors.push(broker);
    w.items.push(Item {
        id: 50,
        uuid: "q".to_string(),
        name: "Sealed Letter".to_string(),
        description: "Not yours to sell.".to_string(),
        keywords: vec!["letter".to_string()],
        item_type: ItemType::Quest,
        place: Place::CarriedBy(1),
        paid: None,
    });
    assert_eq!(w.sell(1, "letter"), SellReport::NotWanted);
    assert_eq!(w.items.len(), 1);
}

#[test]
fn items_move_between_ground_and_carrier() {
    let mut w = two_rooms();
    w.actors.push(actor(1, "Ada", 1));
    w.items.push(Item {
        id: 50,
        uuid: "k".to_string(),
        name: "Rusted Key".to_string(),
        description: "It opens nothing now.".to_string(),
        keywords: vec!["key".to_string(), "rusted".to_string()],
        item_type: ItemType::Misc,
        place: Place::InRoom(1),
        paid: None,
    });
    assert_eq!(w.get_item(1, "KEY"), CarryReport::Moved { item: 50 });
    assert_eq!(w.items[0].place, Place::CarriedBy(1));
    assert_eq!(w.get_item(1, "key"), CarryReport::NotFound);
    w.move_actor(1, Direction::North);
    assert_eq!(w.drop_item(1, "rusted"), CarryReport::Moved { item: 50 });
    assert_eq!(w.items[0].place, Place::InRoom(2));
    assert_eq!(w.drop_item(1, "rusted"), CarryReport::NotFound);
}

#[test]
fn look_twice_shows_the_same() {
    let mut w = two_rooms();
    w.actors.push(actor(1, "Ada", 1));
    w.actors.push(actor(2, "Bo", 1));
    w.items.push(Item {
        id: 50,
        uuid: "k".to_string(),
        name: "Rusted Key".to_string(),
        description: "It opens nothing now.".to_string(),
        keywords: vec!["key".to_string()],
        item_type: ItemType::Misc,
        place: Place::InRoom(1),
        paid: None,
    });
    let first = w.look(1, None).unwrap();
    let second = w.look(1, None).unwrap();
    assert_eq!(first, second);
    assert_eq!(
        first,
        "\n\x1B[1;32mRoom spawn\x1B[0m\nThe spawn lies quiet.\n\x1B[33mA Rusted Key is discarded here.\x1B[0m\n\x1B[1;34mBo is lurking in the shadows.\x1B[0m\n"
    );
    assert_eq!(
        w.look(1, Some("key")).unwrap(),
        "\x1B[1;33mRusted Key\x1B[0m \x1B[90m[Misc]\x1B[0m\nIt opens nothing now."
    );
    assert_eq!(w.look(1, Some("lamp")).unwrap(), "\x1B[31mThe shadows hide no such entity or detail.\x1B[0m");
    assert!(w.look(9, None).is_none());
}

#[test]
fn machine_clients_see_json() {
    let mut w = two_rooms();
    let mut a = actor(1, "Unit", 1);
    a.client_type = ClientType::Silicon;
    w.actors.push(a);
    w.rooms[0].title = "Quote \"Hall\"".to_string();
    assert_eq!(
        w.look(1, None).unwrap(),
        "{\"title\":\"Quote \\\"Hall\\\"\",\"description\":\"The spawn lies quiet.\",\"weather\":null,\"weather_intensity\":null}"
    );
}

#[test]
fn commands_parse_by_synonym_table() {
    assert!(matches!(parse_command("n", false, false), Command::Move { direction: Direction::North }));
    assert!(matches!(parse_command("  DOWN  ", false, false), Command::Move { direction: Direction::Down }));
    match parse_command("LOOK", false, false) {
        Command::Look { thing } => assert!(thing.is_none()),
        _ => panic!("expected look"),
    }
    match parse_command("say hello there world", false, false) {
        Command::Say { message } => assert_eq!(message, "hello there world"),
        _ => panic!("expected say"),
    }
    match parse_command(":waves at you", false, false) {
        Command::Emote { message } => assert_eq!(message, "waves at you"),
        _ => panic!("expected emote"),
    }
    match parse_command("torment ada you fool", true, false) {
        Command::Torment { target, description } => {
            assert_eq!(target, "ada");
            assert_eq!(description, "you fool");
        }
        _ => panic!("expected torment"),
    }
    match parse_command("stance DEF", false, false) {
        Command::Stance { stance } => assert_eq!(stance, substrate::combat::CombatStance::Defensive),
        _ => panic!("expected stance"),
    }
}

#[test]
fn privileged_and_unknown_verbs_get_one_reply() {
    match parse_command("chain bo", false, false) {
        Command::Reply { text } => assert_eq!(text, "Unknown command: chain bo. Type 'help' for commands."),
        _ => panic!("expected the unknown reply"),
    }
    match parse_command("chain", true, false) {
        Command::Reply { text } => assert_eq!(text, "\x1B[33mChain whom? (chain <target>)\x1B[0m"),
        _ => panic!("expected usage"),
    }
    match parse_command("north", false, true) {
        Command::Reply { text } => assert_eq!(text, CUSTODY_REPLY),
        _ => panic!("expected the custody reply"),
    }
    assert!(matches!(parse_command("say help", false, true), Command::Say { .. }));
    match parse_command("buy", false, false) {
        Command::Reply { text } => assert!(text.contains("Buy what?")),
        _ => panic!("expected usage"),
    }
}

#[test]
fn handle_line_answers_issuer_only_on_rejection() {
    let mut w = two_rooms();
    w.actors.push(actor(1, "Ada", 1));
    w.actors.push(actor(2, "Bo", 1));
    let out = w.handle_line(1, "xyzzy", 0);
    assert_eq!(out.len(), 1);
    assert_eq!(out[0].to, 1);
    let out = w.handle_line(1, "east", 0);
    assert_eq!(out.len(), 1);
    assert_eq!(out[0].text, "\x1B[31mThe path is barred by twisted wrought iron and static.\x1B[0m");
    let out = w.handle_line(1, "north", 0);
    assert_eq!(out.len(), 1);
    assert!(out[0].text.contains("Room vault"));
    assert_eq!(w.actors[0].room, 2);
    assert!(w.handle_line(9, "look", 0).is_empty());
}

#[test]
fn flee_needs_a_fight_and_luck() {
    let mut w = two_rooms();
    w.actors.push(actor(1, "Ada", 1));
    assert_eq!(w.flee_with(1, 0, 0, 0), FleeReport::NotInCombat);
    w.actors[0].combat = Some(substrate::world::InCombat {
        opponent: 2,
        rounds_fought: 1,
        stance: substrate::combat::CombatStance::Balanced,
    });
    assert_eq!(w.flee_with(1, 0, 700, 0), FleeReport::Blocked);
    assert_eq!(w.actors[0].lock.as_ref().unwrap().expires_at, 1000);
    assert_eq!(w.flee_with(1, 500, 0, 0), FleeReport::Locked { remaining: 500 });
    assert_eq!(w.flee_with(1, 1000, 600, 3), FleeReport::Fled { direction: Direction::North });
    assert!(w.actors[0].combat.is_none());
    assert_eq!(w.actors[0].room, 1);
}

#[test]
fn pressure_builds_warns_and_sweeps() {
    let s = pressure_step(400, Some(1000), 0, 200);
    assert_eq!(s.pressure, 600);
    assert!(s.warn_half && !s.warn_critical && !s.push);
    let s = pressure_step(600, Some(1000), 1000, 400);
    assert_eq!(s.pressure, 800);
    assert!(s.warn_critical);
    let s = pressure_step(900, Some(1000), 0, 200);
    assert!(s.push);
    assert_eq!(s.pressure, 300);
    let s = pressure_step(100, None, 0, 1000);
    assert_eq!(s.pressure, 0);
    assert!(s.cleared);
}

#[test]
fn text_helpers() {
    assert!(name_matches("Grunt the Bold", "BOLD"));
    assert!(!name_matches("Grunt", "ada"));
    assert!(contains_text("abc", ""));
    assert!(!contains_text("ab", "abc"));
    let (a, b) = split_once_space("one two three");
    assert_eq!((a.as_str(), b.as_str()), ("one", "two three"));
    assert_eq!(decimal(0), "0");
    assert_eq!(decimal(120), "120");
    assert_eq!(decimal(u64::MAX), u64::MAX.to_string());
}

#[test]
fn leaving_clears_bindings() {
    let mut w = two_rooms();
    w.actors.push(actor(1, "Holder", 1));
    w.actors.push(actor(2, "Target", 1));
    w.chains.bind(1, 2).unwrap();
    let gone = w.remove_actor(1).unwrap();
    assert_eq!(gone.name, "Holder");
    assert!(w.chains.links.is_empty());
    assert_eq!(w.actors.len(), 1);
    let rec = w.player_record(2).unwrap();
    assert_eq!(rec.last_room, "spawn");
    assert!(w.player_record(1).is_none());
}

fn carried(id: u64, name: &str, keywords: &[&str], item_type: ItemType, owner: u64) -> Item {
    Item {
        id,
        uuid: format!("item-{}", id),
        name: name.to_string(),
        description: "A thing.".to_string(),
        keywords: keywords.iter().map(|k| k.to_string()).collect(),
        item_type,
        place: Place::CarriedBy(owner),
        paid: None,
    }
}

#[test]
fn consumables_steady_coherence() {
    let mut w = two_rooms();
    let mut a = actor(1, "Ada", 1);
    a.coherence = 800;
    a.phasing = true;
    a.drift_rate = 40;
    w.actors.push(a);
    w.items.push(carried(50, "Bootleg Coherence Stabilizer", &["device"], ItemType::Contraband, 1));
    w.items.push(carried(51, "Rusted Key", &["key"], ItemType::Misc, 1));
    w.items.push(carried(52, "Bottled Memory: First Sunrise", &["memory"], ItemType::Consumable, 1));
    assert_eq!(w.use_item(1, "key"), UseReport::NotConsumable { item: 51 });
    assert_eq!(w.use_item(1, "lamp"), UseReport::NotCarried);
    assert_eq!(w.use_item(1, "STABILIZER"), UseReport::Consumed { item: 50, effect: Effect::Stabilizer });
    assert_eq!(w.actors[0].coherence, 1000);
    assert!(!w.actors[0].phasing);
    assert_eq!(w.actors[0].drift_rate, 0);
    w.actors[0].coherence = 100;
    assert_eq!(w.use_item(1, "sunrise"), UseReport::Consumed { item: 52, effect: Effect::Sunrise });
    assert_eq!(w.actors[0].coherence, 250);
    assert_eq!(w.items.len(), 1);
    assert_eq!(consumable_effect("Salvaged Memory Bus", &vec![]), Effect::MemoryBus);
    assert_eq!(consumable_effect("Odd Thing", &vec!["stolen".to_string()]), Effect::StolenHandle);
    assert_eq!(consumable_effect("Odd Thing", &vec!["Stolen".to_string()]), Effect::Unknown);
}

#[test]
fn abiding_restores_integrity_up_to_max() {
    let mut w = two_rooms();
    let mut a = actor(1, "Ada", 1);
    a.integrity = 950;
    w.actors.push(a);
    assert_eq!(w.abide(1), AbideReport::Restored { integrity: 1000 });
    assert_eq!(w.abide(1), AbideReport::AlreadyWhole);
    w.actors[0].integrity = 300;
    assert_eq!(w.abide(1), AbideReport::Restored { integrity: 400 });
    assert_eq!(w.abide(9), AbideReport::NoActor);
}

#[test]
fn admin_powers() {
    let mut w = two_rooms();
    w.actors.push(actor(1, "Lyra", 1));
    w.actors.push(actor(2, "Ada", 1));
    w.actors.push(actor(3, "Bo", 2));
    w.actors[0].admin = true;
    assert_eq!(w.promote("ADA"), Some(2));
    assert!(w.actors[1].admin);
    assert_eq!(w.promote("nobody"), None);
    assert_eq!(w.link_pair("ada", "bo"), Some((2, 3)));
    assert_eq!(w.actors[1].link, Some(3));
    assert_eq!(w.actors[2].link, Some(2));
    assert_eq!(w.link_pair("lyra", "ada"), Some((1, 2)));
    assert_eq!(w.actors[2].link, None);
    assert_eq!(w.link_pair("ada", "ada"), None);
    assert_eq!(w.torment("bo"), TormentReport::NotInCustody { victim: 3 });
    w.actors[2].in_custody = true;
    assert_eq!(w.torment("bo"), TormentReport::Tormented { victim: 3, stability: 900, penance: 1000 });
    let out = w.handle_line(1, "torment bo stay still", 0);
    assert_eq!(out.len(), 1);
    assert_eq!(out[0].to, 3);
    assert_eq!(out[0].text, "\x1B[1;31mLyra: stay still\x1B[0m");
}

#[test]
fn departing_clears_links_and_chains() {
    let mut w = two_rooms();
    w.actors.push(actor(1, "Ada", 1));
    w.actors.push(actor(2, "Bo", 1));
    w.link_pair("ada", "bo").unwrap();
    w.chains.bind(2, 1).unwrap();
    let rec = w.depart(1).unwrap();
    assert_eq!(rec.name, "Ada");
    assert_eq!(w.actors.len(), 1);
    assert_eq!(w.actors[0].link, None);
    assert!(w.chains.links.is_empty());
    assert!(w.depart(1).is_none());
}

#[test]
fn room_details_answer_to_keywords() {
    let mut w = two_rooms();
    w.rooms[0].details.push(substrate::world::Detail {
        keywords: vec!["Statue".to_string(), "angel".to_string()],
        description: "A weeping angel of cracked silicon.".to_string(),
    });
    w.actors.push(actor(1, "Ada", 1));
    assert_eq!(w.look(1, Some("STATUE")).unwrap(), "\x1B[1;36m[Detail]\x1B[0m\nA weeping angel of cracked silicon.");
    assert_eq!(w.look(1, Some("stat")).unwrap(), "\x1B[31mThe shadows hide no such entity or detail.\x1B[0m");
}

#[test]
fn coherence_drifts_within_bounds() {
    assert_eq!(drift(500, 100, 2000 - 1, 1000), 599);
    assert_eq!(drift(500, 100, 0, 1000), 400);
    assert_eq!(drift(500, 100, 1000, 1000), 500);
    assert_eq!(drift(990, 100, 1999, 1000), 1000);
    assert_eq!(drift(10, 100, 0, 1000), 0);
    assert!(is_coherent(300));
    assert!(!is_coherent(299));
    let mut w = two_rooms();
    let mut a = actor(1, "Ada", 1);
    a.phasing = true;
    a.drift_rate = 0;
    w.actors.push(a);
    assert!(w.phase_tick(16).is_empty());
    assert_eq!(w.actors[0].coherence, 1000);
}

#[test]
fn defeat_is_announced_once() {
    let mut w = two_rooms();
    let mut a = actor(1, "Ada", 1);
    a.stats = CombatStats { attack: 1000, defense: 0, precision: 500, chaos_factor: 0 };
    let mut t = actor(2, "Grunt", 1);
    t.integrity = 50;
    w.actors.push(a);
    w.actors.push(t);
    let out = w.attack_messages(1, "grunt", 0, AttackRolls { hit: 0, spread: 0, crit: 999 });
    let victories = out.iter().filter(|m| m.to == 1 && m.text.contains("Victory is yours")).count();
    let defeats = out.iter().filter(|m| m.to == 2 && m.text.contains("Your signal shatters")).count();
    assert_eq!((victories, defeats), (1, 1));
    assert_eq!(out.len(), 4);
    assert_eq!(out[0].text, "\x1B[31mYou strike Grunt for 50% damage. Their integrity: 0%\x1B[0m");
}

#[test]
fn weather_draws_and_wears() {
    let chances = vec![
        WeatherChance { weather_type: WeatherType::Clear, weight: 5 },
        WeatherChance { weather_type: WeatherType::AcidRain, weight: 2 },
    ];
    assert_eq!(pick_weather(&chances, 4), WeatherType::Clear);
    assert_eq!(pick_weather(&chances, 5), WeatherType::AcidRain);
    assert_eq!(pick_weather(&chances, 7), WeatherType::Clear);
    let mut w = two_rooms();
    w.rooms[0].weather = Some(CurrentWeather { weather_type: WeatherType::ByteHail, intensity: 1000, ticks_remaining: 5 });
    w.rooms[0].zone = Some(WeatherZone { possible: chances, sheltered: false });
    w.actors.push(actor(1, "Ada", 1));
    w.actors.push(actor(2, "Bo", 2));
    let notices = w.weather_tick();
    assert_eq!(w.rooms[0].weather.unwrap().ticks_remaining, 4);
    assert_eq!(w.actors[0].stability, 970);
    assert_eq!(w.actors[0].entropy, 520);
    assert_eq!(w.actors[1].stability, 1000);
    assert_eq!(notices.len(), 1);
    let mut admin = actor(3, "Lyra", 1);
    admin.admin = true;
    w.actors.push(admin);
    let out = w.handle_line(3, "weather set fog", 0);
    assert_eq!(out[0].text, "\x1B[35mYou twist the atmospheric parameters. data_fog descends upon this zone.\x1B[0m");
    let out = w.handle_line(1, "weather", 0);
    assert_eq!(out[0].text, "\x1B[36mCurrent: data_fog (intensity: 80%, 10 ticks remaining)\x1B[0m");
    let out = w.handle_line(1, "weather set acid", 0);
    assert_eq!(out[0].text, "\x1B[31mOnly administrators can manipulate the weather.\x1B[0m");
}

#[test]
fn restore_into_vanished_room_uses_spawn() {
    let mut w = World::new(vec![room(1, "alley", no_exits()), room(2, "spawn", no_exits())], 100).unwrap();
    w.restore_player(7, &record("collapsed_wing", 420));
    let a = w.actors.last().unwrap();
    assert_eq!(a.room, 2);
    assert_eq!(a.stability, 420);
}

#[test]
fn fence_never_pays_more_than_it_was_paid() {
    let mut w = two_rooms();
    w.actors.push(actor(1, "Ada", 1));
    let mut fence = actor(2, "Fence", 1);
    fence.vendor = Some(Vendor {
        terms: VendorTerms { buy_pct: 90, sell_pct: 60, kind: VendorType::Fence },
        stock: vec![StockItem {
            item_name: "Stolen Process Handle".to_string(),
            description: "Still warm.".to_string(),
            keywords: vec!["handle".to_string()],
            item_type: ItemType::Contraband,
            base_price: 45,
        }],
    });
    w.actors.push(fence);
    assert_eq!(w.buy_with(1, "handle", "h".to_string()), BuyReport::Bought { item: 100, price: 41, balance: 59 });
    assert_eq!(w.items[0].paid, Some(41));
    assert_eq!(w.sell(1, "handle"), SellReport::Sold { item: 100, price: 41, balance: 100 });
}

#[test]
fn look_shows_weather() {
    let mut w = two_rooms();
    w.rooms[0].weather = Some(CurrentWeather { weather_type: WeatherType::DataFog, intensity: 800, ticks_remaining: 3 });
    w.actors.push(actor(1, "Ada", 1));
    let mut unit = actor(2, "Unit", 1);
    unit.client_type = ClientType::Silicon;
    w.actors.push(unit);
    let seen = w.look(1, None).unwrap();
    assert!(seen.contains("A thick fog of unresolved packets drifts through"));
    assert_eq!(
        w.look(2, None).unwrap(),
        "{\"title\":\"Room spawn\",\"description\":\"The spawn lies quiet.\",\"weather\":\"data_fog\",\"weather_intensity\":0.800}"
    );
}

#[test]
fn machine_combat_lines_escape_names() {
    let o = substrate::combat::AttackOutcome { damage: 120, critical: true, miss: false };
    assert_eq!(
        substrate::session::combat_message("Ada \"the\" Bold", "Bo", &o, 880, true, ClientType::Silicon),
        "{\"event\":\"combat\",\"attacker\":\"Ada \\\"the\\\" Bold\",\"defender\":\"Bo\",\"damage\":120,\"critical\":true,\"miss\":false,\"defender_hp\":880}"
    );
    assert_eq!(
        substrate::session::combat_message("Ada", "Bo", &o, 880, true, ClientType::Carbon),
        "\x1B[1;31mCRITICAL! You tear into Bo for 12% damage! Their signal flickers at 88%.\x1B[0m"
    );
}

#[test]
fn chain_and_struggle_notify_both_sides() {
    let mut w = two_rooms();
    let mut holder = actor(1, "Lyra", 1);
    holder.admin = true;
    w.actors.push(holder);
    w.actors.push(actor(2, "Ada", 1));
    let out = w.handle_line(1, "chain ada", 0);
    assert_eq!(out.iter().map(|m| m.to).collect::<Vec<_>>(), vec![1, 2]);
    let out = w.handle_line(2, "struggle", 0);
    assert_eq!(out.len(), 1);
    assert_eq!(out[0].to, 2);
    let out = w.handle_line(1, "release", 0);
    assert_eq!(out.iter().map(|m| m.to).collect::<Vec<_>>(), vec![1, 2]);
    assert!(w.chains.links.is_empty());
}

#[test]
fn duplicate_room_keys_are_refused() {
    assert!(World::new(vec![room(1, "hall", no_exits()), room(2, "hall", no_exits())], 1).is_none());
}

#[test]
fn swept_actor_moves_west_and_is_told() {
    let mut stream_exits = no_exits();
    stream_exits.west = Some(1);
    let mut stream = room(2, "stream", stream_exits);
    stream.title = "The Packet Stream".to_string();
    stream.pressure_rate = Some(1000);
    let mut w = World::new(vec![room(1, "plaza", no_exits()), stream], 100).unwrap();
    let mut a = actor(1, "Ada", 2);
    a.pressure = 900;
    a.entropy = 0;
    w.actors.push(a);
    w.actors.push(actor(2, "Bo", 2));
    let out = w.pressure_tick(200);
    assert_eq!(w.actors[0].room, 1);
    assert_eq!(w.actors[0].pressure, 300);
    assert_eq!(w.actors[1].room, 2);
    assert_eq!(w.actors[1].pressure, 150);
    assert_eq!(out[0].to, 1);
    assert_eq!(out[0].text, "\x1B[1;31mThe stream overcomes you! You're swept back from The Packet Stream!\x1B[0m");
    assert_eq!(out[1].to, 1);
    assert!(out[1].text.contains("Room plaza"));
    assert_eq!(out.len(), 2);
}

#[test]
fn utility_admin_commands_need_permission() {
    let mut w = two_rooms();
    w.actors.push(actor(1, "Ada", 1));
    w.actors.push(actor(2, "Bo", 1));
    assert!(w.handle_line(1, "link ada bo", 0).is_empty());
    assert_eq!(w.actors[0].link, None);
    assert!(w.handle_line(1, "promote bo", 0).is_empty());
    assert!(!w.actors[1].admin);
}

#[test]
fn shift_hands_the_session_to_the_partner() {
    let mut w = two_rooms();
    let mut a = actor(1, "Lyra", 1);
    a.admin = true;
    w.actors.push(a);
    let mut b = actor(2, "Echo", 2);
    b.session = None;
    w.actors.push(b);
    w.link_pair("lyra", "echo").unwrap();
    let out = w.handle_line(1, "shift", 0);
    assert_eq!(w.actors[0].session, None);
    assert_eq!(w.actors[1].session, Some(1));
    assert_eq!(out[0].to, 2);
    assert_eq!(out.len(), 2);
}

#[test]
fn requeue_keeps_the_rejection_count() {
    let mut l = Lobby::new();
    l.connect(4);
    assert!(matches!(l.submit(4, ""), Some(NameCheck::Retry)));
    assert_eq!(l.attempts_of(4), Some(1));
    assert!(matches!(l.submit(4, "Ada"), Some(NameCheck::Valid { .. })));
    l.requeue(4, 1);
    assert_eq!(l.attempts_of(4), Some(1));
    assert!(matches!(l.submit(4, ""), Some(NameCheck::Retry)));
    assert!(matches!(l.submit(4, ""), Some(NameCheck::Disconnect)));
}
