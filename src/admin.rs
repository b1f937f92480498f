//! Admin powers: granting permission, linking two avatars for phase shifts,
//! and tormenting those held in custody.
use vstd::prelude::*;

use crate::text::{is_infix, lower_of, name_matches};
use crate::world::{Actor, World};

verus! {

/// Stability a torment takes, in thousandths.
pub const TORMENT_INTENSITY: u32 = 100;

/// Penance a torment adds, in thousandths: ten times its intensity.
pub const TORMENT_PENANCE: u32 = 1000;

/// `actors[k]`'s name holds `query`, case-folded.
pub open spec fn named(actors: Seq<Actor>, k: int, query: Seq<char>) -> bool {
    is_infix(lower_of(query), lower_of(actors[k].name@))
}

/// `k` is the first actor anywhere whose name holds `query`.
pub open spec fn first_named(actors: Seq<Actor>, query: Seq<char>, k: int) -> bool {
    0 <= k < actors.len() && named(actors, k, query) && forall|j: int| 0 <= j < k ==> !named(actors, j, query)
}

/// Only one position is the first whose name holds `query`.
pub proof fn lemma_first_named_unique(actors: Seq<Actor>, query: Seq<char>, k1: int, k2: int)
    requires
        first_named(actors, query, k1),
        first_named(actors, query, k2),
    ensures
        k1 == k2,
{
    if k1 < k2 {
        assert(!named(actors, k1, query));
    } else if k2 < k1 {
        assert(!named(actors, k2, query));
    }
}

/// What a torment came to.
#[derive(PartialEq, Eq, Structural, Debug, Clone, Copy)]
pub enum TormentReport {
    /// No one of that name exists.
    NoVictim,
    /// The one found is not in custody; nothing happens.
    NotInCustody { victim: u64 },
    /// The victim lost stability and owes more penance.
    Tormented { victim: u64, stability: u32, penance: u32 },
}

/// What granting admin permission by `query` leaves behind.
pub open spec fn promote_post(before: World, after: World, query: Seq<char>, r: Option<u64>) -> bool {
    &&& (after.rooms@ == before.rooms@)
    &&& (after.items@ == before.items@)
    &&& (after.chains == before.chains)
    &&& (after.next_id == before.next_id)
    &&& (r is None <==> forall|j: int| 0 <= j < before.actors@.len() ==> !named(before.actors@, j, query))
    &&& (r is None ==> after.actors@ == before.actors@)
    &&& (forall|k: int| first_named(before.actors@, query, k) ==> r == Some(before.actors@[k].id)
                && after.actors@ == before.actors@.update(k, Actor { admin: true, ..before.actors@[k] }))
}

/// What linking the actors named `first` and `second` leaves behind.
pub open spec fn link_post(before: World, after: World, first: Seq<char>, second: Seq<char>, r: Option<(u64, u64)>) -> bool {
    &&& (after.rooms@ == before.rooms@)
    &&& (after.items@ == before.items@)
    &&& (after.chains == before.chains)
    &&& (after.next_id == before.next_id)
    &&& (r is None ==> after.actors@ == before.actors@)
    &&& (r is Some <==> exists|i: int, j: int|
                first_named(before.actors@, first, i) && first_named(before.actors@, second, j)
                    && before.actors@[i].id != before.actors@[j].id)
    &&& (r matches Some((a, b)) ==> a != b && exists|i: int, j: int|
                first_named(before.actors@, first, i) && first_named(before.actors@, second, j)
                    && before.actors@[i].id == a && before.actors@[j].id == b
                    && after.actors@[i].link == Some(b) && after.actors@[j].link == Some(a)
                    && forall|x: int| 0 <= x < after.actors@.len() && x != i && x != j
                        ==> #[trigger] after.actors@[x].link != Some(a) && after.actors@[x].link != Some(b))
}

/// What a torment of the one named `query` leaves behind.
pub open spec fn torment_post(before: World, after: World, query: Seq<char>, r: TormentReport) -> bool {
    &&& (after.rooms@ == before.rooms@)
    &&& (after.items@ == before.items@)
    &&& (after.chains == before.chains)
    &&& (after.next_id == before.next_id)
    &&& (!(r is Tormented) ==> after.actors@ == before.actors@)
    &&& (r is NoVictim <==> forall|j: int| 0 <= j < before.actors@.len() ==> !named(before.actors@, j, query))
    &&& (forall|k: int| first_named(before.actors@, query, k) ==> {
                let v = before.actors@[k];
                if !v.in_custody {
                    r == TormentReport::NotInCustody { victim: v.id }
                } else {
                    let stability = if v.stability > TORMENT_INTENSITY { (v.stability - TORMENT_INTENSITY) as u32 } else { 0 };
                    let penance = if v.penance + TORMENT_PENANCE > u32::MAX { u32::MAX } else { (v.penance + TORMENT_PENANCE) as u32 };
                    r == TormentReport::Tormented { victim: v.id, stability, penance }
                        && after.actors@ == before.actors@.update(k, Actor { stability, penance, ..v })
                }
            })
}

impl World {
    /// The position of the first actor anywhere whose name holds `query`.
    pub fn find_named(&self, query: &str) -> (r: Option<usize>)
        ensures
            r matches Some(k) ==> first_named(self.actors@, query@, k as int),
            r is None ==> forall|j: int| 0 <= j < self.actors@.len() ==> !named(self.actors@, j, query@),
    {
        let mut k: usize = 0;
        while k < self.actors.len()
            invariant
                k <= self.actors@.len(),
                forall|j: int| 0 <= j < k ==> !named(self.actors@, j, query@),
            decreases self.actors@.len() - k,
        {
            if name_matches(self.actors[k].name.as_str(), query) {
                return Some(k);
            }
            k = k + 1;
        }
        None
    }

    /// Grants admin permission to the first actor whose name holds `query`;
    /// returns its id.
    pub fn promote(&mut self, query: &str) -> (r: Option<u64>)
        requires
            old(self).wf(),
        ensures
            final(self).wf(),
            promote_post(*old(self), *final(self), query@, r),
    {
        match self.find_named(query) {
            None => None,
            Some(k) => {
                proof {
                    assert forall|k2: int| first_named(old(self).actors@, query@, k2) implies k2 == k by {
                        if k2 < k {
                            assert(!named(old(self).actors@, k2, query@));
                        } else if k < k2 {
                            assert(!named(old(self).actors@, k as int, query@));
                        }
                    }
                }
                let id = self.actors[k].id;
                self.set_admin(k, true);
                Some(id)
            },
        }
    }

    /// Clears every admin link that points at `id`.
    pub fn clear_links_to(&mut self, id: u64)
        requires
            old(self).wf(),
        ensures
            final(self).wf(),
            final(self).rooms@ == old(self).rooms@,
            final(self).items@ == old(self).items@,
            final(self).chains == old(self).chains,
            final(self).next_id == old(self).next_id,
            final(self).actors@.len() == old(self).actors@.len(),
            forall|x: int| 0 <= x < old(self).actors@.len() ==> #[trigger] final(self).actors@[x] == if old(self).actors@[x].link == Some(id) {
                Actor { link: None, ..old(self).actors@[x] }
            } else {
                old(self).actors@[x]
            },
    {
        let n = self.actors.len();
        let mut k: usize = 0;
        while k < n
            invariant
                self.wf(),
                n == old(self).actors@.len(),
                self.actors@.len() == n,
                k <= n,
                self.rooms@ == old(self).rooms@,
                self.items@ == old(self).items@,
                self.chains == old(self).chains,
                self.next_id == old(self).next_id,
                forall|x: int| 0 <= x < k ==> #[trigger] self.actors@[x] == if old(self).actors@[x].link == Some(id) {
                    Actor { link: None, ..old(self).actors@[x] }
                } else {
                    old(self).actors@[x]
                },
                forall|x: int| k <= x < n ==> #[trigger] self.actors@[x] == old(self).actors@[x],
            decreases n - k,
        {
            if self.actors[k].link == Some(id) {
                self.set_link(k, None);
            }
            k = k + 1;
        }
    }

    /// Links the first actors named by `first` and `second` to each other,
    /// after clearing every link that pointed at either; returns their ids.
    /// Nothing happens where either name finds no one or both find the same
    /// actor.
    pub fn link_pair(&mut self, first: &str, second: &str) -> (r: Option<(u64, u64)>)
        requires
            old(self).wf(),
        ensures
            final(self).wf(),
            link_post(*old(self), *final(self), first@, second@, r),
    {
        let i = match self.find_named(first) {
            None => return None,
            Some(i) => i,
        };
        let j = match self.find_named(second) {
            None => return None,
            Some(j) => j,
        };
        let a = self.actors[i].id;
        let b = self.actors[j].id;
        proof {
            assert forall|i2: int, j2: int|
                first_named(self.actors@, first@, i2) && first_named(self.actors@, second@, j2) implies i2 == i && j2 == j by {
                lemma_first_named_unique(self.actors@, first@, i as int, i2);
                lemma_first_named_unique(self.actors@, second@, j as int, j2);
            }
        }
        if a == b {
            return None;
        }
        let ghost base = self.actors@;
        self.clear_links_to(a);
        self.clear_links_to(b);
        self.set_link(i, Some(b));
        self.set_link(j, Some(a));
        assert(first_named(base, first@, i as int));
        assert(first_named(base, second@, j as int));
        Some((a, b))
    }

    /// Torments the first actor whose name holds `query`: one in custody
    /// loses stability (floored at zero) and owes more penance.
    pub fn torment(&mut self, query: &str) -> (r: TormentReport)
        requires
            old(self).wf(),
        ensures
            final(self).wf(),
            torment_post(*old(self), *final(self), query@, r),
    {
        let k = match self.find_named(query) {
            None => return TormentReport::NoVictim,
            Some(k) => k,
        };
        proof {
            assert forall|k2: int| first_named(old(self).actors@, query@, k2) implies k2 == k by {
                if k2 < k {
                    assert(!named(old(self).actors@, k2, query@));
                } else if k < k2 {
                    assert(!named(old(self).actors@, k as int, query@));
                }
            }
        }
        let victim = self.actors[k].id;
        if !self.actors[k].in_custody {
            return TormentReport::NotInCustody { victim };
        }
        let stability = self.actors[k].stability.saturating_sub(TORMENT_INTENSITY);
        let penance = self.actors[k].penance.saturating_add(TORMENT_PENANCE);
        self.set_stability(k, stability);
        self.set_penance(k, penance);
        proof {
            assert(self.actors@ =~= old(self).actors@.update(k as int, Actor { stability, penance, ..old(self).actors@[k as int] }));
        }
        TormentReport::Tormented { victim, stability, penance }
    }
}

} // verus!
