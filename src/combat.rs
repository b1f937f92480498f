//! Combat resolution: two asymmetric formulas, chosen by the attacker's
//! client category, over stats and rolls in thousandths.
use vstd::prelude::*;

verus! {

/// The category of a client: human-readable output and the chaotic formula,
/// or machine-readable output and the precise formula.
#[derive(PartialEq, Eq, Structural, Debug, Clone, Copy)]
pub enum ClientType {
    Carbon,
    Silicon,
}

/// How a combatant stands in a fight.
#[derive(PartialEq, Eq, Structural, Debug, Clone, Copy)]
pub enum CombatStance {
    Aggressive,
    Defensive,
    Balanced,
}

/// Fighting figures, each in thousandths.
#[derive(PartialEq, Eq, Structural, Debug, Clone, Copy)]
pub struct CombatStats {
    pub attack: u32,
    pub defense: u32,
    pub precision: u32,
    pub chaos_factor: u32,
}

/// The stats of a fresh avatar.
pub const DEFAULT_ATTACK: u32 = 100;
pub const DEFAULT_DEFENSE: u32 = 0;
pub const DEFAULT_PRECISION: u32 = 500;
pub const DEFAULT_CHAOS: u32 = 500;

/// Hit chance before category adjustments, in thousandths.
pub const BASE_HIT_CHANCE: u32 = 750;

impl CombatStats {
    /// Every figure lies in [0, 1000].
    pub open spec fn wf(&self) -> bool {
        &&& self.attack <= 1000
        &&& self.defense <= 1000
        &&& self.precision <= 1000
        &&& self.chaos_factor <= 1000
    }

    /// The stats of a fresh avatar.
    pub open spec fn starting_spec() -> CombatStats {
        CombatStats {
            attack: DEFAULT_ATTACK,
            defense: DEFAULT_DEFENSE,
            precision: DEFAULT_PRECISION,
            chaos_factor: DEFAULT_CHAOS,
        }
    }

    /// The stats of a fresh avatar.
    pub fn starting() -> (r: CombatStats)
        ensures
            r.wf(),
            r == CombatStats::starting_spec(),
    {
        CombatStats {
            attack: DEFAULT_ATTACK,
            defense: DEFAULT_DEFENSE,
            precision: DEFAULT_PRECISION,
            chaos_factor: DEFAULT_CHAOS,
        }
    }
}

/// Three uniform rolls in [0, 1000): whether the blow lands, where the damage
/// falls in its spread, and whether it is critical.
#[derive(PartialEq, Eq, Structural, Debug, Clone, Copy)]
pub struct AttackRolls {
    pub hit: u32,
    pub spread: u32,
    pub crit: u32,
}

impl AttackRolls {
    pub open spec fn wf(&self) -> bool {
        self.hit < 1000 && self.spread < 1000 && self.crit < 1000
    }
}

/// The result of one blow; damage in thousandths of integrity.
#[derive(PartialEq, Eq, Structural, Debug, Clone, Copy)]
pub struct AttackOutcome {
    pub damage: u32,
    pub critical: bool,
    pub miss: bool,
}

/// Hit chance of the attacker's category, in thousandths.
pub open spec fn hit_chance_spec(attacker: CombatStats, kind: ClientType) -> u32 {
    match kind {
        ClientType::Silicon => (BASE_HIT_CHANCE + attacker.precision * 200 / 1000) as u32,
        ClientType::Carbon => (BASE_HIT_CHANCE - 50) as u32,
    }
}

/// Damage multiplier of the category for a spread roll, in thousandths:
/// [900, 1100) for the precise formula, [500, 1500) for the chaotic one.
pub open spec fn spread_factor_spec(kind: ClientType, spread: u32) -> u32 {
    match kind {
        ClientType::Silicon => (900 + spread / 5) as u32,
        ClientType::Carbon => (500 + spread) as u32,
    }
}

/// Critical chance of the category, in thousandths.
pub open spec fn crit_chance_spec(attacker: CombatStats, kind: ClientType) -> u32 {
    match kind {
        ClientType::Silicon => (attacker.precision * 100 / 1000) as u32,
        ClientType::Carbon => (attacker.chaos_factor * 250 / 1000) as u32,
    }
}

/// The outcome of a blow: a miss when the hit roll exceeds the hit chance;
/// otherwise `attack × spread × (1 − defense)`, times 1.5 (precise) or 2
/// (chaotic) when the critical roll falls under the critical chance.
pub open spec fn attack_spec(
    attacker: CombatStats,
    defender: CombatStats,
    kind: ClientType,
    rolls: AttackRolls,
) -> AttackOutcome {
    if rolls.hit > hit_chance_spec(attacker, kind) {
        AttackOutcome { damage: 0, critical: false, miss: true }
    } else {
        let base = attacker.attack * spread_factor_spec(kind, rolls.spread) / 1000 * (1000
            - defender.defense) / 1000;
        let critical = rolls.crit < crit_chance_spec(attacker, kind);
        let damage = if !critical {
            base
        } else {
            match kind {
                ClientType::Silicon => base * 3 / 2,
                ClientType::Carbon => base * 2,
            }
        };
        AttackOutcome { damage: damage as u32, critical, miss: false }
    }
}

/// Resolves one blow from the rolls given.
pub fn resolve_attack(
    attacker: &CombatStats,
    defender: &CombatStats,
    kind: ClientType,
    rolls: AttackRolls,
) -> (r: AttackOutcome)
    requires
        attacker.wf(),
        defender.wf(),
        rolls.wf(),
    ensures
        r == attack_spec(*attacker, *defender, kind, rolls),
        r.damage <= 3000,
{
    let hit_chance: u32 = match kind {
        ClientType::Silicon => BASE_HIT_CHANCE + attacker.precision * 200 / 1000,
        ClientType::Carbon => BASE_HIT_CHANCE - 50,
    };
    if rolls.hit > hit_chance {
        return AttackOutcome { damage: 0, critical: false, miss: true };
    }
    let factor: u32 = match kind {
        ClientType::Silicon => 900 + rolls.spread / 5,
        ClientType::Carbon => 500 + rolls.spread,
    };
    assert(attacker.attack * factor <= 1500_000) by (nonlinear_arith)
        requires
            attacker.attack <= 1000,
            factor < 1500,
    ;
    let scaled: u32 = attacker.attack * factor / 1000;
    assert(scaled <= 1500) by (nonlinear_arith)
        requires
            scaled == attacker.attack * factor / 1000,
            attacker.attack <= 1000,
            factor < 1500,
    ;
    assert(scaled * (1000 - defender.defense) <= 1500_000) by (nonlinear_arith)
        requires
            scaled <= 1500,
            defender.defense <= 1000,
    ;
    let base: u32 = scaled * (1000 - defender.defense) / 1000;
    assert(base <= scaled) by (nonlinear_arith)
        requires
            base == scaled * (1000 - defender.defense) / 1000,
            defender.defense <= 1000,
    ;
    let crit_chance: u32 = match kind {
        ClientType::Silicon => attacker.precision * 100 / 1000,
        ClientType::Carbon => attacker.chaos_factor * 250 / 1000,
    };
    let critical = rolls.crit < crit_chance;
    let damage: u32 = if !critical {
        base
    } else {
        match kind {
            ClientType::Silicon => base * 3 / 2,
            ClientType::Carbon => base * 2,
        }
    };
    AttackOutcome { damage, critical, miss: false }
}

/// Integrity after taking `damage`, floored at zero.
pub fn apply_damage(integrity: u32, damage: u32) -> (r: u32)
    ensures
        damage >= integrity ==> r == 0,
        damage < integrity ==> r == integrity - damage,
{
    integrity.saturating_sub(damage)
}

} // verus!
