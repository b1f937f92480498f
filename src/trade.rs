//! The economy and inventory systems: buying from and selling to vendors,
//! picking items up and dropping them.
use vstd::prelude::*;

use crate::economy::{buy_price, percent_rounded, sale_price, sale_price_spec};
use crate::rng::fresh_uuid;
use crate::text::{is_infix, lower_of, lowercase, name_matches, same_text};
use crate::world::{first_actor, lemma_first_actor_unique, no_actor, Actor, Item, Place, StockItem, World};

verus! {

/// `query`, case-folded, occurs in one of `keywords` or in `name`, each
/// case-folded.
pub open spec fn keyword_match(keywords: Seq<String>, name: Seq<char>, query: Seq<char>) -> bool {
    (exists|k: int| 0 <= k < keywords.len() && is_infix(lower_of(query), lower_of(#[trigger] keywords[k]@)))
        || is_infix(lower_of(query), lower_of(name))
}

/// One of `keywords` equals `query` case-folded.
pub open spec fn keyword_exact(keywords: Seq<String>, query: Seq<char>) -> bool {
    exists|k: int| 0 <= k < keywords.len() && #[trigger] keywords[k]@ == lower_of(query)
}

/// Whether `query` matches one of `keywords` or `name`, as `keyword_match` says.
pub fn matches_keywords(keywords: &Vec<String>, name: &str, query: &str) -> (r: bool)
    ensures
        r == keyword_match(keywords@, name@, query@),
{
    let mut k: usize = 0;
    while k < keywords.len()
        invariant
            k <= keywords@.len(),
            forall|j: int| 0 <= j < k ==> !is_infix(lower_of(query@), lower_of(#[trigger] keywords@[j]@)),
        decreases keywords@.len() - k,
    {
        if name_matches(keywords[k].as_str(), query) {
            return true;
        }
        k = k + 1;
    }
    name_matches(name, query)
}

/// Whether one of `keywords` equals `query` case-folded.
pub fn has_keyword(keywords: &Vec<String>, query: &str) -> (r: bool)
    ensures
        r == keyword_exact(keywords@, query@),
{
    let q = lowercase(query);
    let mut k: usize = 0;
    while k < keywords.len()
        invariant
            k <= keywords@.len(),
            q@ == lower_of(query@),
            forall|j: int| 0 <= j < k ==> #[trigger] keywords@[j]@ != lower_of(query@),
        decreases keywords@.len() - k,
    {
        if same_text(keywords[k].as_str(), q.as_str()) {
            return true;
        }
        k = k + 1;
    }
    false
}

/// A copy of a list of strings.
pub fn copy_strings(v: &Vec<String>) -> (r: Vec<String>)
    ensures
        r@ == v@,
{
    let mut out: Vec<String> = Vec::new();
    let mut k: usize = 0;
    while k < v.len()
        invariant
            k <= v@.len(),
            out@ == v@.subrange(0, k as int),
        decreases v@.len() - k,
    {
        out.push(v[k].clone());
        k = k + 1;
        assert(out@ =~= v@.subrange(0, k as int));
    }
    assert(out@ =~= v@);
    out
}

/// The first actor other than `exclude` in `room` that is a vendor.
pub open spec fn is_vendor_at(actors: Seq<Actor>, k: int, room: u64, exclude: u64) -> bool {
    actors[k].room == room && actors[k].vendor is Some && actors[k].id != exclude
}

/// What a purchase came to.
#[derive(PartialEq, Eq, Structural, Debug, Clone, Copy)]
pub enum BuyReport {
    NoBuyer,
    NoVendor,
    NotInStock,
    /// The price is more than the buyer has.
    Insufficient { price: u64, have: u64 },
    /// Item `item` now belongs to the buyer, who has `balance` left.
    Bought { item: u64, price: u64, balance: u64 },
}

/// What a sale came to.
#[derive(PartialEq, Eq, Structural, Debug, Clone, Copy)]
pub enum SellReport {
    NoSeller,
    NoVendor,
    NotCarried,
    /// The vendor does not deal in the item's category.
    NotWanted,
    /// The item is gone and the seller has `balance`.
    Sold { item: u64, price: u64, balance: u64 },
}

/// What picking up or dropping an item came to.
#[derive(PartialEq, Eq, Structural, Debug, Clone, Copy)]
pub enum CarryReport {
    NoActor,
    NotFound,
    Moved { item: u64 },
}

/// The position of the first stock line that matches `query`.
pub fn find_stock(stock: &Vec<StockItem>, query: &str) -> (r: Option<usize>)
    ensures
        r matches Some(x) ==> x < stock@.len() && stock_match(stock@[x as int], query@)
            && forall|j: int| 0 <= j < x ==> !stock_match(stock@[j], query@),
        r is None ==> forall|j: int| 0 <= j < stock@.len() ==> !stock_match(stock@[j], query@),
{
    let mut s: usize = 0;
    while s < stock.len()
        invariant
            s <= stock@.len(),
            forall|j: int| 0 <= j < s ==> !stock_match(stock@[j], query@),
        decreases stock@.len() - s,
    {
        let line = &stock[s];
        if matches_keywords(&line.keywords, line.item_name.as_str(), query) {
            return Some(s);
        }
        s = s + 1;
    }
    None
}

/// What a purchase by `buyer` of `keyword`, with `uuid` for the new item, leaves behind.
pub open spec fn buy_world_post(before: World, after: World, buyer: u64, keyword: Seq<char>, uuid: Seq<char>, r: BuyReport) -> bool {
    &&& (after.rooms@ == before.rooms@)
    &&& (after.chains == before.chains)
    &&& (!(r is Bought) ==> after.actors@ == before.actors@ && after.items@ == before.items@
                && after.next_id == before.next_id)
    &&& (r is NoBuyer <==> no_actor(before.actors@, buyer))
    &&& (forall|i: int| first_actor(before.actors@, buyer, i) ==> {
                let a = before.actors@[i];
                if forall|j: int| 0 <= j < before.actors@.len() ==> !is_vendor_at(before.actors@, j, a.room, buyer) {
                    r is NoVendor
                } else {
                    exists|v: int| 0 <= v < before.actors@.len() && is_vendor_at(before.actors@, v, a.room, buyer)
                        && (forall|j: int| 0 <= j < v ==> !is_vendor_at(before.actors@, j, a.room, buyer))
                        && buy_post(before, after, i, before.actors@[v].vendor.unwrap().stock@,
                            before.actors@[v].vendor.unwrap().terms.buy_pct, keyword, uuid, r)
                }
            })
}

/// What a sale by `seller` of `keyword` leaves behind.
pub open spec fn sell_world_post(before: World, after: World, seller: u64, keyword: Seq<char>, r: SellReport) -> bool {
    &&& (after.rooms@ == before.rooms@)
    &&& (after.chains == before.chains)
    &&& (after.next_id == before.next_id)
    &&& (!(r is Sold) ==> after.actors@ == before.actors@ && after.items@ == before.items@)
    &&& (r is NoSeller <==> no_actor(before.actors@, seller))
    &&& (forall|i: int| first_actor(before.actors@, seller, i) ==> {
                let a = before.actors@[i];
                if forall|j: int| 0 <= j < before.actors@.len() ==> !is_vendor_at(before.actors@, j, a.room, seller) {
                    r is NoVendor
                } else {
                    exists|v: int| 0 <= v < before.actors@.len() && is_vendor_at(before.actors@, v, a.room, seller)
                        && (forall|j: int| 0 <= j < v ==> !is_vendor_at(before.actors@, j, a.room, seller))
                        && sell_post(before, after, i, before.actors@[v].vendor.unwrap().terms, keyword, r)
                }
            })
}

/// What picking up `keyword` by `id` leaves behind.
pub open spec fn get_post(before: World, after: World, id: u64, keyword: Seq<char>, r: CarryReport) -> bool {
    &&& (after.actors@ == before.actors@)
    &&& (after.rooms@ == before.rooms@)
    &&& (after.chains == before.chains)
    &&& (after.next_id == before.next_id)
    &&& (!(r is Moved) ==> after.items@ == before.items@)
    &&& (r is NoActor <==> no_actor(before.actors@, id))
    &&& (forall|i: int| first_actor(before.actors@, id, i) ==> {
                let place = Place::InRoom(before.actors@[i].room);
                carry_post(before.items@, after.items@, place, Place::CarriedBy(id), keyword, r)
            })
}

/// What dropping `keyword` by `id` leaves behind.
pub open spec fn drop_post(before: World, after: World, id: u64, keyword: Seq<char>, r: CarryReport) -> bool {
    &&& (after.actors@ == before.actors@)
    &&& (after.rooms@ == before.rooms@)
    &&& (after.chains == before.chains)
    &&& (after.next_id == before.next_id)
    &&& (!(r is Moved) ==> after.items@ == before.items@)
    &&& (r is NoActor <==> no_actor(before.actors@, id))
    &&& (forall|i: int| first_actor(before.actors@, id, i) ==> {
                let place = Place::InRoom(before.actors@[i].room);
                carry_post(before.items@, after.items@, Place::CarriedBy(id), place, keyword, r)
            })
}

impl World {
    /// The position of the first vendor other than `exclude` in `room`.
    pub fn find_vendor(&self, room: u64, exclude: u64) -> (r: Option<usize>)
        ensures
            r matches Some(k) ==> k < self.actors@.len() && is_vendor_at(self.actors@, k as int, room, exclude)
                && forall|j: int| 0 <= j < k ==> !is_vendor_at(self.actors@, j, room, exclude),
            r is None ==> forall|j: int| 0 <= j < self.actors@.len() ==> !is_vendor_at(self.actors@, j, room, exclude),
    {
        let mut k: usize = 0;
        while k < self.actors.len()
            invariant
                k <= self.actors@.len(),
                forall|j: int| 0 <= j < k ==> !is_vendor_at(self.actors@, j, room, exclude),
            decreases self.actors@.len() - k,
        {
            if self.actors[k].room == room && self.actors[k].vendor.is_some() && self.actors[k].id != exclude {
                return Some(k);
            }
            k = k + 1;
        }
        None
    }

    /// Actor `buyer` buys the first stock line of the first vendor in its
    /// room that matches `keyword`, with `uuid` for the new item.
    pub fn buy_with(&mut self, buyer: u64, keyword: &str, uuid: String) -> (r: BuyReport)
        requires
            old(self).wf(),
            old(self).next_id < u64::MAX,
        ensures
            final(self).wf(),
            buy_world_post(*old(self), *final(self), buyer, keyword@, uuid@, r),
    {
        let i = match self.find_actor(buyer) {
            None => return BuyReport::NoBuyer,
            Some(i) => i,
        };
        proof {
            assert forall|i2: int| first_actor(old(self).actors@, buyer, i2) implies i2 == i by {
                lemma_first_actor_unique(old(self).actors@, buyer, i as int, i2);
            }
        }
        let v = match self.find_vendor(self.actors[i].room, buyer) {
            None => return BuyReport::NoVendor,
            Some(v) => v,
        };
        let ghost stock = self.actors@[v as int].vendor.unwrap().stock@;
        let ghost buy_pct = self.actors@[v as int].vendor.unwrap().terms.buy_pct;
        let vendor = match &self.actors[v].vendor {
            None => return BuyReport::NotInStock,
            Some(vendor) => vendor,
        };
        let x = match find_stock(&vendor.stock, keyword) {
            None => return BuyReport::NotInStock,
            Some(x) => x,
        };
        let line = &vendor.stock[x];
        let price = buy_price(line.base_price, vendor.terms.buy_pct);
        let have = self.actors[i].wallet;
        if have < price {
            let r = BuyReport::Insufficient { price, have };
            assert(stock_match(stock[x as int], keyword@));
            assert(buy_post(*old(self), *self, i as int, stock, buy_pct, keyword@, uuid@, r));
            return r;
        }
        let balance = have - price;
        let item = Item {
            id: self.next_id,
            uuid,
            name: line.item_name.clone(),
            description: line.description.clone(),
            keywords: copy_strings(&line.keywords),
            item_type: line.item_type,
            place: Place::CarriedBy(buyer),
            paid: Some(price),
        };
        let id = self.next_id;
        self.set_wallet(i, balance);
        self.items.push(item);
        self.next_id = self.next_id + 1;
        let r = BuyReport::Bought { item: id, price, balance };
        assert(self.items@.drop_last() =~= old(self).items@);
        assert(stock_match(stock[x as int], keyword@));
        assert(buy_post(*old(self), *self, i as int, stock, buy_pct, keyword@, uuid@, r));
        r
    }

    /// Actor `buyer` buys an item, which gets a fresh identifier.
    pub fn buy(&mut self, buyer: u64, keyword: &str) -> (r: BuyReport)
        requires
            old(self).wf(),
            old(self).next_id < u64::MAX,
        ensures
            final(self).wf(),
            final(self).rooms@ == old(self).rooms@,
            r is NoBuyer <==> no_actor(old(self).actors@, buyer),
            exists|u: Seq<char>| u.len() == 36 && buy_world_post(*old(self), *final(self), buyer, keyword@, u, r),
    {
        let uuid = fresh_uuid();
        let ghost u = uuid@;
        let r = self.buy_with(buyer, keyword, uuid);
        assert(u.len() == 36 && buy_world_post(*old(self), *self, buyer, keyword@, u, r));
        r
    }

    /// Actor `seller` sells the first item it carries that matches `keyword`
    /// to the first vendor in its room.
    pub fn sell(&mut self, seller: u64, keyword: &str) -> (r: SellReport)
        requires
            old(self).wf(),
        ensures
            final(self).wf(),
            sell_world_post(*old(self), *final(self), seller, keyword@, r),
    {
        let i = match self.find_actor(seller) {
            None => return SellReport::NoSeller,
            Some(i) => i,
        };
        proof {
            assert forall|i2: int| first_actor(old(self).actors@, seller, i2) implies i2 == i by {
                lemma_first_actor_unique(old(self).actors@, seller, i as int, i2);
            }
        }
        let v = match self.find_vendor(self.actors[i].room, seller) {
            None => return SellReport::NoVendor,
            Some(v) => v,
        };
        let terms = match &self.actors[v].vendor {
            None => return SellReport::NoVendor,
            Some(vendor) => vendor.terms,
        };
        let mut k: usize = 0;
        while k < self.items.len()
            invariant
                k <= self.items@.len(),
                forall|j: int| 0 <= j < k ==> !carried_match(self.items@[j], seller, keyword@),
            ensures
                k <= self.items@.len(),
                forall|j: int| 0 <= j < k ==> !carried_match(self.items@[j], seller, keyword@),
                k < self.items@.len() ==> carried_match(self.items@[k as int], seller, keyword@),
            decreases self.items@.len() - k,
        {
            let it = &self.items[k];
            if it.place == Place::CarriedBy(seller) && matches_keywords(&it.keywords, it.name.as_str(), keyword) {
                break;
            }
            k = k + 1;
        }
        if k == self.items.len() {
            return SellReport::NotCarried;
        }
        assert(carried_match(old(self).items@[k as int], old(self).actors@[i as int].id, keyword@));
        let price = match sale_price(self.items[k].item_type, &terms, self.items[k].paid) {
            None => return SellReport::NotWanted,
            Some(p) => p,
        };
        let balance = self.actors[i].wallet.saturating_add(price);
        let item = self.items[k].id;
        self.set_wallet(i, balance);
        self.items.remove(k);
        let r = SellReport::Sold { item, price, balance };
        assert(sell_post(*old(self), *self, i as int, terms, keyword@, r));
        r
    }

    /// Actor `id` picks up the first item in its room with a keyword equal
    /// to `keyword` case-folded.
    pub fn get_item(&mut self, id: u64, keyword: &str) -> (r: CarryReport)
        requires
            old(self).wf(),
        ensures
            final(self).wf(),
            get_post(*old(self), *final(self), id, keyword@, r),
    {
        let i = match self.find_actor(id) {
            None => return CarryReport::NoActor,
            Some(i) => i,
        };
        proof {
            assert forall|i2: int| first_actor(old(self).actors@, id, i2) implies i2 == i by {
                lemma_first_actor_unique(old(self).actors@, id, i as int, i2);
            }
        }
        let from = Place::InRoom(self.actors[i].room);
        self.carry(from, Place::CarriedBy(id), keyword)
    }

    /// Actor `id` drops the first item it carries with a keyword equal to
    /// `keyword` case-folded.
    pub fn drop_item(&mut self, id: u64, keyword: &str) -> (r: CarryReport)
        requires
            old(self).wf(),
        ensures
            final(self).wf(),
            drop_post(*old(self), *final(self), id, keyword@, r),
    {
        let i = match self.find_actor(id) {
            None => return CarryReport::NoActor,
            Some(i) => i,
        };
        proof {
            assert forall|i2: int| first_actor(old(self).actors@, id, i2) implies i2 == i by {
                lemma_first_actor_unique(old(self).actors@, id, i as int, i2);
            }
        }
        let to = Place::InRoom(self.actors[i].room);
        self.carry(Place::CarriedBy(id), to, keyword)
    }

    /// Moves the first item at `from` with a keyword equal to `keyword`
    /// case-folded to `to`.
    fn carry(&mut self, from: Place, to: Place, keyword: &str) -> (r: CarryReport)
        requires
            old(self).wf(),
        ensures
            final(self).wf(),
            final(self).actors@ == old(self).actors@,
            final(self).rooms@ == old(self).rooms@,
            final(self).chains == old(self).chains,
            final(self).next_id == old(self).next_id,
            carry_post(old(self).items@, final(self).items@, from, to, keyword@, r),
            r !is NoActor,
    {
        let mut k: usize = 0;
        while k < self.items.len()
            invariant
                k <= self.items@.len(),
                forall|j: int| 0 <= j < k ==> !(self.items@[j].place == from && keyword_exact(self.items@[j].keywords@, keyword@)),
            ensures
                k <= self.items@.len(),
                forall|j: int| 0 <= j < k ==> !(self.items@[j].place == from && keyword_exact(self.items@[j].keywords@, keyword@)),
                k < self.items@.len() ==> self.items@[k as int].place == from && keyword_exact(self.items@[k as int].keywords@, keyword@),
            decreases self.items@.len() - k,
        {
            if self.items[k].place == from && has_keyword(&self.items[k].keywords, keyword) {
                break;
            }
            k = k + 1;
        }
        if k == self.items.len() {
            return CarryReport::NotFound;
        }
        let item = self.items[k].id;
        let ghost before = self.items@;
        self.items[k].place = to;
        assert(self.items@ =~= old(self).items@.update(k as int, Item { place: to, ..old(self).items@[k as int] }));
        assert(before[k as int].place == from && keyword_exact(before[k as int].keywords@, keyword@));
        CarryReport::Moved { item }
    }
}

/// Stock line `line` matches `query`.
pub open spec fn stock_match(line: StockItem, query: Seq<char>) -> bool {
    keyword_match(line.keywords@, line.item_name@, query)
}

/// `item` is carried by `owner` and matches `query`.
pub open spec fn carried_match(item: Item, owner: u64, query: Seq<char>) -> bool {
    item.place == Place::CarriedBy(owner) && keyword_match(item.keywords@, item.name@, query)
}

/// What a purchase by the actor at `i` from a vendor with `stock` and
/// `buy_pct` leaves behind.
pub open spec fn buy_post(
    before: World,
    after: World,
    i: int,
    stock: Seq<StockItem>,
    buy_pct: u32,
    query: Seq<char>,
    uuid: Seq<char>,
    r: BuyReport,
) -> bool {
    let a = before.actors@[i];
    if forall|j: int| 0 <= j < stock.len() ==> !stock_match(stock[j], query) {
        r is NotInStock
    } else {
        exists|x: int|
            0 <= x < stock.len() && stock_match(stock[x], query) && (forall|j: int|
                0 <= j < x ==> !stock_match(stock[j], query)) && {
                let price = percent_rounded(stock[x].base_price as u64, buy_pct);
                if a.wallet < price {
                    r == BuyReport::Insufficient { price, have: a.wallet }
                } else {
                    let balance = (a.wallet - price) as u64;
                    &&& r == BuyReport::Bought { item: before.next_id, price, balance }
                    &&& after.actors@ == before.actors@.update(i, Actor { wallet: balance, ..a })
                    &&& after.next_id == before.next_id + 1
                    &&& after.items@.len() == before.items@.len() + 1
                    &&& after.items@.drop_last() == before.items@
                    &&& after.items@.last().id == before.next_id
                    &&& after.items@.last().uuid@ == uuid
                    &&& after.items@.last().name@ == stock[x].item_name@
                    &&& after.items@.last().description@ == stock[x].description@
                    &&& after.items@.last().paid == Some(price)
                    &&& after.items@.last().keywords@ == stock[x].keywords@
                    &&& after.items@.last().item_type == stock[x].item_type
                    &&& after.items@.last().place == Place::CarriedBy(a.id)
                }
            }
    }
}

/// What a sale by the actor at `i` to a vendor with `terms` leaves behind.
pub open spec fn sell_post(
    before: World,
    after: World,
    i: int,
    terms: crate::economy::VendorTerms,
    query: Seq<char>,
    r: SellReport,
) -> bool {
    let a = before.actors@[i];
    let items = before.items@;
    if forall|j: int| 0 <= j < items.len() ==> !carried_match(items[j], a.id, query) {
        r is NotCarried
    } else {
        exists|k: int|
            0 <= k < items.len() && carried_match(items[k], a.id, query) && (forall|j: int|
                0 <= j < k ==> !carried_match(items[j], a.id, query)) && match sale_price_spec(
                items[k].item_type,
                terms,
                items[k].paid,
            ) {
                None => r is NotWanted,
                Some(price) => {
                    let balance = if a.wallet + price > u64::MAX {
                        u64::MAX
                    } else {
                        (a.wallet + price) as u64
                    };
                    &&& r == SellReport::Sold { item: items[k].id, price, balance }
                    &&& after.actors@ == before.actors@.update(i, Actor { wallet: balance, ..a })
                    &&& after.items@ == items.remove(k)
                },
            }
    }
}

/// What moving the first item at `from` with keyword `query` to `to` leaves.
pub open spec fn carry_post(
    before: Seq<Item>,
    after: Seq<Item>,
    from: Place,
    to: Place,
    query: Seq<char>,
    r: CarryReport,
) -> bool {
    if forall|j: int| 0 <= j < before.len() ==> !(before[j].place == from && keyword_exact(before[j].keywords@, query)) {
        r is NotFound && after == before
    } else {
        exists|k: int|
            0 <= k < before.len() && before[k].place == from && keyword_exact(before[k].keywords@, query)
                && (forall|j: int| 0 <= j < k ==> !(before[j].place == from && keyword_exact(before[j].keywords@, query)))
                && r == CarryReport::Moved { item: before[k].id } && after == before.update(k, Item { place: to, ..before[k] })
    }
}

} // verus!
