//! Vendor prices: what a vendor asks for its stock and pays for an item.
use vstd::prelude::*;

verus! {

/// The category of an item.
#[derive(PartialEq, Eq, Structural, Debug, Clone, Copy)]
pub enum ItemType {
    Weapon,
    Armor,
    Consumable,
    Contraband,
    Fragment,
    Quest,
    Misc,
}

/// The trade a vendor plies.
#[derive(PartialEq, Eq, Structural, Debug, Clone, Copy)]
pub enum VendorType {
    General,
    Specialist,
    Fence,
}

/// A vendor's terms: `buy_pct` is what it asks, in percent of an item's base
/// price; `sell_pct` what it pays, in percent of an item's category value.
#[derive(PartialEq, Eq, Structural, Debug, Clone, Copy)]
pub struct VendorTerms {
    pub buy_pct: u32,
    pub sell_pct: u32,
    pub kind: VendorType,
}

/// What a vendor pays for an item of each category before its own
/// multiplier; zero for what cannot be sold.
pub open spec fn category_value_spec(t: ItemType) -> u64 {
    match t {
        ItemType::Weapon => 50,
        ItemType::Armor => 40,
        ItemType::Consumable => 15,
        ItemType::Contraband => 75,
        ItemType::Fragment => 100,
        ItemType::Quest => 0,
        ItemType::Misc => 10,
    }
}

/// The category value of `t`.
pub fn category_value(t: ItemType) -> (r: u64)
    ensures
        r == category_value_spec(t),
{
    match t {
        ItemType::Weapon => 50,
        ItemType::Armor => 40,
        ItemType::Consumable => 15,
        ItemType::Contraband => 75,
        ItemType::Fragment => 100,
        ItemType::Quest => 0,
        ItemType::Misc => 10,
    }
}

/// `value × pct / 100`, rounded half up.
pub open spec fn percent_rounded(value: u64, pct: u32) -> u64 {
    ((value * pct + 50) / 100) as u64
}

/// The price a vendor with `buy_pct` asks for stock of base price `base`:
/// `round(base × buy_pct / 100)`.
pub fn buy_price(base: u32, buy_pct: u32) -> (r: u64)
    ensures
        r == percent_rounded(base as u64, buy_pct),
{
    assert((base as u64) * (buy_pct as u64) <= 0xffff_ffff * 0xffff_ffffu64) by (nonlinear_arith);
    ((base as u64) * (buy_pct as u64) + 50) / 100
}

/// The fence's bonus on contraband: `round(p × 1.5)`.
pub open spec fn fence_bonus(p: u64) -> u64 {
    ((3 * p + 1) / 2) as u64
}

/// Whether the vendor adds the contraband bonus for this item.
pub open spec fn gets_bonus(terms: VendorTerms, t: ItemType) -> bool {
    terms.kind == VendorType::Fence && t == ItemType::Contraband
}

/// What the vendor pays for an item of category `t`: `None` where the
/// category has no value, else `round(value × sell_pct / 100)`, and for a
/// fence buying contraband that figure times 1.5, rounded.
pub open spec fn sell_price_spec(t: ItemType, terms: VendorTerms) -> Option<u64> {
    let v = category_value_spec(t);
    if v == 0 {
        None
    } else {
        let p = percent_rounded(v, terms.sell_pct);
        Some(if gets_bonus(terms, t) { fence_bonus(p) } else { p })
    }
}

/// The price the vendor pays for an item of category `t`.
pub fn sell_price(t: ItemType, terms: &VendorTerms) -> (r: Option<u64>)
    ensures
        r == sell_price_spec(t, *terms),
{
    let v = category_value(t);
    if v == 0 {
        return None;
    }
    assert(v * (terms.sell_pct as u64) <= 100 * 0xffff_ffffu64) by (nonlinear_arith)
        requires
            v <= 100,
    ;
    let p = (v * (terms.sell_pct as u64) + 50) / 100;
    if terms.kind == VendorType::Fence && t == ItemType::Contraband {
        Some((3 * p + 1) / 2)
    } else {
        Some(p)
    }
}

/// What the vendor pays for an item of category `t` that its owner bought
/// for `paid` (if it was bought): the category price, but never more than
/// was paid for it.
pub open spec fn sale_price_spec(t: ItemType, terms: VendorTerms, paid: Option<u64>) -> Option<u64> {
    match sell_price_spec(t, terms) {
        None => None,
        Some(p) => Some(
            match paid {
                Some(c) => if c < p { c } else { p },
                None => p,
            },
        ),
    }
}

/// The price the vendor pays for an item of category `t` bought for `paid`.
pub fn sale_price(t: ItemType, terms: &VendorTerms, paid: Option<u64>) -> (r: Option<u64>)
    ensures
        r == sale_price_spec(t, *terms, paid),
{
    match sell_price(t, terms) {
        None => None,
        Some(p) => Some(
            match paid {
                Some(c) => if c < p { c } else { p },
                None => p,
            },
        ),
    }
}

/// Buying an item for price `price` and at once selling it back never
/// leaves more money than before: a sale never pays more than was paid.
pub proof fn lemma_round_trip_no_gain(balance: u64, price: u64, t: ItemType, terms: VendorTerms)
    requires
        balance >= price,
    ensures
        sale_price_spec(t, terms, Some(price)) matches Some(s) ==> s <= price && balance - price + s <= balance,
{
}

} // verus!
