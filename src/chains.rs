//! Restraint: a holder binds one other entity; the bound one may struggle.
//!
//! Each binding is one record holding both sides, so the holder's side and
//! the bound side are made and removed together.
use vstd::prelude::*;

verus! {

/// Strength of a freshly applied chain, in thousandths.
pub const DEFAULT_CHAIN_STRENGTH: u32 = 700;

/// Milliseconds that must pass between two struggles.
pub const STRUGGLE_COOLDOWN_MS: u64 = 3000;

/// One binding: `holder` holds `bound`.
pub struct ChainLink {
    pub holder: u64,
    pub bound: u64,
    /// In thousandths; a stronger chain is harder to break.
    pub strength: u32,
    pub attempts: u32,
    /// Time of the last struggle, in milliseconds.
    pub last_attempt: u64,
}

/// Why a binding was refused.
#[derive(PartialEq, Eq, Structural, Debug, Clone, Copy)]
pub enum BindError {
    AlreadyHolding,
    SelfTarget,
    AlreadyBound,
}

/// What a struggle came to.
#[derive(PartialEq, Eq, Structural, Debug, Clone, Copy)]
pub enum StruggleOutcome {
    /// The entity is not bound.
    NotBound,
    /// The last struggle was too recent; milliseconds left to wait.
    TooSoon { remaining: u64 },
    /// The holder is gone; the chains dissolve.
    HolderGone { holder: u64 },
    /// The bound entity broke free on this attempt.
    Broke { holder: u64, attempts: u32 },
    /// The chains held.
    Held { holder: u64, attempts: u32 },
}

/// Chance that a struggle succeeds, in thousandths, on the given attempt
/// against a chain of the given strength: `(0.20 + 0.05 × attempts) ×
/// (1 − strength × 0.5)`, capped at certainty.
pub open spec fn struggle_chance_spec(attempts: u32, strength: u32) -> u32 {
    let raw = (200 + 50 * attempts) * (1000 - strength / 2) / 1000;
    if raw > 1000 {
        1000
    } else {
        raw as u32
    }
}

/// The struggle success chance, in thousandths; never above 1000.
pub fn struggle_chance(attempts: u32, strength: u32) -> (r: u32)
    requires
        strength <= 1000,
    ensures
        r == struggle_chance_spec(attempts, strength),
        r <= 1000,
{
    let base: u64 = 200 + 50 * (attempts as u64);
    let keep: u64 = 1000 - (strength as u64) / 2;
    assert(base * keep <= 1_000_000_000_000_000) by (nonlinear_arith)
        requires
            base <= 200 + 50 * 0xffff_ffffu64,
            keep <= 1000,
    ;
    let raw = base * keep / 1000;
    if raw > 1000 {
        1000
    } else {
        raw as u32
    }
}

/// No entity holds two chains, none is held by two, none holds itself,
/// and every strength is at most 1000.
pub open spec fn links_wf(s: Seq<ChainLink>) -> bool {
    &&& forall|i: int, j: int|
        #![trigger s[i], s[j]]
        0 <= i < s.len() && 0 <= j < s.len() && i != j ==> s[i].holder != s[j].holder && s[i].bound
            != s[j].bound
    &&& forall|i: int|
        #![trigger s[i]]
        0 <= i < s.len() ==> s[i].holder != s[i].bound && s[i].strength <= 1000
}

/// Some binding of `s` has `h` hold `b`.
pub open spec fn holds_in(s: Seq<ChainLink>, h: u64, b: u64) -> bool {
    exists|k: int| 0 <= k < s.len() && #[trigger] s[k].holder == h && s[k].bound == b
}

/// Removing a binding keeps the set well formed and keeps every other binding.
pub proof fn lemma_remove_wf(s: Seq<ChainLink>, i: int)
    requires
        links_wf(s),
        0 <= i < s.len(),
    ensures
        links_wf(s.remove(i)),
        forall|h: u64, b: u64|
            holds_in(s.remove(i), h, b) <==> holds_in(s, h, b) && !(h == s[i].holder && b
                == s[i].bound),
{
    let t = s.remove(i);
    assert forall|a: int, c: int| 0 <= a < t.len() && 0 <= c < t.len() && a != c implies #[trigger] t[a].holder
        != #[trigger] t[c].holder && t[a].bound != t[c].bound by {
        let oa = if a < i { a } else { a + 1 };
        let oc = if c < i { c } else { c + 1 };
        assert(t[a] == s[oa] && t[c] == s[oc]);
    }
    assert forall|a: int| 0 <= a < t.len() implies #[trigger] t[a].holder != t[a].bound
        && t[a].strength <= 1000 by {
        let oa = if a < i { a } else { a + 1 };
        assert(t[a] == s[oa]);
    }
    assert forall|h: u64, b: u64|
        holds_in(t, h, b) <==> holds_in(s, h, b) && !(h == s[i].holder && b == s[i].bound) by {
        if holds_in(t, h, b) {
            let k = choose|k: int| 0 <= k < t.len() && #[trigger] t[k].holder == h && t[k].bound == b;
            let ok = if k < i { k } else { k + 1 };
            assert(t[k] == s[ok]);
            assert(s[ok].holder != s[i].holder || ok == i);
        }
        if holds_in(s, h, b) && !(h == s[i].holder && b == s[i].bound) {
            let k = choose|k: int| 0 <= k < s.len() && #[trigger] s[k].holder == h && s[k].bound == b;
            let nk = if k < i { k } else { k - 1 };
            assert(t[nk] == s[k]);
        }
    }
}

/// The set of bindings in force.
pub struct Restraints {
    pub links: Vec<ChainLink>,
}

impl Restraints {
    /// No entity holds two chains, none is held by two, none holds itself,
    /// and every strength is at most 1000.
    pub open spec fn wf(&self) -> bool {
        links_wf(self.links@)
    }

    /// `h` holds `b`.
    pub open spec fn holds(&self, h: u64, b: u64) -> bool {
        holds_in(self.links@, h, b)
    }

    /// `h` holds some entity.
    pub open spec fn is_holder(&self, h: u64) -> bool {
        exists|i: int| 0 <= i < self.links@.len() && #[trigger] self.links@[i].holder == h
    }

    /// `b` is held by some entity.
    pub open spec fn is_bound(&self, b: u64) -> bool {
        exists|i: int| 0 <= i < self.links@.len() && #[trigger] self.links@[i].bound == b
    }

    /// No bindings.
    pub fn new() -> (r: Restraints)
        ensures
            r.wf(),
            r.links@.len() == 0,
    {
        Restraints { links: Vec::new() }
    }

    /// The position of the binding that `h` holds.
    pub fn link_of_holder(&self, h: u64) -> (r: Option<usize>)
        ensures
            r matches Some(i) ==> i < self.links@.len() && self.links@[i as int].holder == h,
            r is None ==> !self.is_holder(h),
    {
        let mut i: usize = 0;
        while i < self.links.len()
            invariant
                i <= self.links@.len(),
                forall|k: int| 0 <= k < i ==> #[trigger] self.links@[k].holder != h,
            decreases self.links@.len() - i,
        {
            if self.links[i].holder == h {
                return Some(i);
            }
            i = i + 1;
        }
        None
    }

    /// The position of the binding that holds `b`.
    pub fn link_of_bound(&self, b: u64) -> (r: Option<usize>)
        ensures
            r matches Some(i) ==> i < self.links@.len() && self.links@[i as int].bound == b,
            r is None ==> !self.is_bound(b),
    {
        let mut i: usize = 0;
        while i < self.links.len()
            invariant
                i <= self.links@.len(),
                forall|k: int| 0 <= k < i ==> #[trigger] self.links@[k].bound != b,
            decreases self.links@.len() - i,
        {
            if self.links[i].bound == b {
                return Some(i);
            }
            i = i + 1;
        }
        None
    }

    /// `holder` binds `target` with a chain of default strength.
    pub fn bind(&mut self, holder: u64, target: u64) -> (r: Result<(), BindError>)
        requires
            old(self).wf(),
        ensures
            final(self).wf(),
            old(self).is_holder(holder) ==> r == Err::<(), BindError>(BindError::AlreadyHolding),
            !old(self).is_holder(holder) && holder == target ==> r == Err::<(), BindError>(
                BindError::SelfTarget,
            ),
            !old(self).is_holder(holder) && holder != target && old(self).is_bound(target) ==> r
                == Err::<(), BindError>(BindError::AlreadyBound),
            r is Err ==> final(self).links@ == old(self).links@,
            r is Ok ==> final(self).links@ == old(self).links@.push(
                ChainLink {
                    holder,
                    bound: target,
                    strength: DEFAULT_CHAIN_STRENGTH,
                    attempts: 0,
                    last_attempt: 0,
                },
            ),
            r is Ok <==> !old(self).is_holder(holder) && holder != target && !old(self).is_bound(target),
    {
        if self.link_of_holder(holder).is_some() {
            return Err(BindError::AlreadyHolding);
        }
        if holder == target {
            return Err(BindError::SelfTarget);
        }
        if self.link_of_bound(target).is_some() {
            return Err(BindError::AlreadyBound);
        }
        let link = ChainLink {
            holder,
            bound: target,
            strength: DEFAULT_CHAIN_STRENGTH,
            attempts: 0,
            last_attempt: 0,
        };
        self.links.push(link);
        proof {
            let n = old(self).links@.len() as int;
            assert forall|i: int| 0 <= i < n implies #[trigger] self.links@[i].holder != holder
                && self.links@[i].bound != target by {
                assert(old(self).links@[i] == self.links@[i]);
            }
        }
        Ok(())
    }

    /// Removes the binding at position `i`.
    fn remove_at(&mut self, i: usize) -> (r: ChainLink)
        requires
            old(self).wf(),
            i < old(self).links@.len(),
        ensures
            final(self).wf(),
            r == old(self).links@[i as int],
            final(self).links@ == old(self).links@.remove(i as int),
    {
        let r = self.links.remove(i);
        proof {
            lemma_remove_wf(old(self).links@, i as int);
        }
        r
    }

    /// The holder lets go; returns the binding that ended, if there was one.
    pub fn release(&mut self, holder: u64) -> (r: Option<ChainLink>)
        requires
            old(self).wf(),
        ensures
            final(self).wf(),
            r is None <==> !old(self).is_holder(holder),
            r is None ==> final(self).links@ == old(self).links@,
            r matches Some(l) ==> l.holder == holder && exists|i: int|
                0 <= i < old(self).links@.len() && old(self).links@[i] == l && final(self).links@ == old(self).links@.remove(i),
            !final(self).is_holder(holder),
    {
        match self.link_of_holder(holder) {
            None => None,
            Some(i) => {
                let l = self.remove_at(i);
                proof {
                    let o = old(self).links@;
                    assert forall|k: int| 0 <= k < self.links@.len() implies #[trigger] self.links@[k].holder
                        != holder by {
                        let ok = if k < i { k } else { k + 1 };
                        assert(self.links@[k] == o[ok]);
                    }
                }
                Some(l)
            },
        }
    }

    /// Removes every binding that `e` takes part in, on either side; the
    /// others stay.
    pub fn forget(&mut self, e: u64)
        requires
            old(self).wf(),
        ensures
            final(self).wf(),
            !final(self).is_holder(e),
            !final(self).is_bound(e),
            forall|h: u64, b: u64|
                final(self).holds(h, b) <==> old(self).holds(h, b) && h != e && b != e,
    {
        let ghost o = self.links@;
        if let Some(i) = self.link_of_holder(e) {
            proof {
                lemma_remove_wf(o, i as int);
                assert forall|h: u64, b: u64| holds_in(o, h, b) && h == e implies b == o[i as int].bound by {
                    let k = choose|k: int| 0 <= k < o.len() && #[trigger] o[k].holder == h && o[k].bound == b;
                    assert(k == i);
                }
            }
            self.remove_at(i);
        }
        assert(forall|h: u64, b: u64| holds_in(self.links@, h, b) <==> holds_in(o, h, b) && h != e);
        let ghost mid = self.links@;
        if let Some(j) = self.link_of_bound(e) {
            proof {
                lemma_remove_wf(mid, j as int);
                assert forall|h: u64, b: u64| holds_in(mid, h, b) && b == e implies h == mid[j as int].holder by {
                    let k = choose|k: int| 0 <= k < mid.len() && #[trigger] mid[k].holder == h && mid[k].bound == b;
                    assert(k == j);
                }
            }
            self.remove_at(j);
        }
        assert(forall|h: u64, b: u64| holds_in(self.links@, h, b) <==> holds_in(o, h, b) && h != e && b != e);
        assert forall|k: int| 0 <= k < self.links@.len() implies #[trigger] self.links@[k].holder != e
            && self.links@[k].bound != e by {
            assert(holds_in(self.links@, self.links@[k].holder, self.links@[k].bound));
        }
    }

    /// The entity `bound` struggles at time `now` with a roll in thousandths;
    /// `holder_present` says whether its holder still exists.
    pub fn struggle(&mut self, bound: u64, now: u64, roll: u32, holder_present: bool) -> (r:
        StruggleOutcome)
        requires
            old(self).wf(),
        ensures
            final(self).wf(),
            !old(self).is_bound(bound) ==> r == StruggleOutcome::NotBound && final(self).links@
                == old(self).links@,
            old(self).is_bound(bound) ==> exists|i: int|
                0 <= i < old(self).links@.len() && old(self).links@[i].bound == bound
                    && struggle_post(old(self).links@, final(self).links@, i, now, roll, holder_present, r),
    {
        match self.link_of_bound(bound) {
            None => StruggleOutcome::NotBound,
            Some(i) => {
                let link = &self.links[i];
                let holder = link.holder;
                let last = link.last_attempt;
                if now < last || now - last < STRUGGLE_COOLDOWN_MS {
                    let remaining = if now < last {
                        STRUGGLE_COOLDOWN_MS
                    } else {
                        STRUGGLE_COOLDOWN_MS - (now - last)
                    };
                    let r = StruggleOutcome::TooSoon { remaining };
                    assert(struggle_post(old(self).links@, self.links@, i as int, now, roll, holder_present, r));
                    return r;
                }
                if !holder_present {
                    self.remove_at(i);
                    let r = StruggleOutcome::HolderGone { holder };
                    assert(struggle_post(old(self).links@, self.links@, i as int, now, roll, holder_present, r));
                    return r;
                }
                let attempts = link.attempts.saturating_add(1);
                let strength = link.strength;
                let chance = struggle_chance(attempts, strength);
                if roll < chance {
                    self.remove_at(i);
                    let r = StruggleOutcome::Broke { holder, attempts };
                    assert(struggle_post(old(self).links@, self.links@, i as int, now, roll, holder_present, r));
                    r
                } else {
                    let updated = ChainLink {
                        holder,
                        bound,
                        strength,
                        attempts,
                        last_attempt: now,
                    };
                    self.links.set(i, updated);
                    proof {
                        let o = old(self).links@;
                        assert forall|a: int| 0 <= a < self.links@.len() implies (
                        #[trigger] self.links@[a]).holder == o[a].holder && self.links@[a].bound
                            == o[a].bound && self.links@[a].strength == o[a].strength by {}
                    }
                    let r = StruggleOutcome::Held { holder, attempts };
                    assert(self.links@ =~= old(self).links@.update(i as int, ChainLink { attempts, last_attempt: now, ..old(self).links@[i as int] }));
                    assert(struggle_post(old(self).links@, self.links@, i as int, now, roll, holder_present, r));
                    r
                }
            },
        }
    }
}

/// `attempts + 1`, capped.
pub open spec fn next_attempt(attempts: u32) -> u32 {
    if attempts == u32::MAX {
        u32::MAX
    } else {
        (attempts + 1) as u32
    }
}

/// What a struggle against the binding at `i` of `before` does, as `after` and `r`.
pub open spec fn struggle_post(
    before: Seq<ChainLink>,
    after: Seq<ChainLink>,
    i: int,
    now: u64,
    roll: u32,
    holder_present: bool,
    r: StruggleOutcome,
) -> bool {
    let l = before[i];
    let attempts = next_attempt(l.attempts);
    if now < l.last_attempt || now - l.last_attempt < STRUGGLE_COOLDOWN_MS {
        &&& after == before
        &&& r == StruggleOutcome::TooSoon {
            remaining: if now < l.last_attempt {
                STRUGGLE_COOLDOWN_MS
            } else {
                (STRUGGLE_COOLDOWN_MS - (now - l.last_attempt)) as u64
            },
        }
    } else if !holder_present {
        &&& after == before.remove(i)
        &&& r == StruggleOutcome::HolderGone { holder: l.holder }
    } else if roll < struggle_chance_spec(attempts, l.strength) {
        &&& after == before.remove(i)
        &&& r == StruggleOutcome::Broke { holder: l.holder, attempts }
    } else {
        &&& after == before.update(i, ChainLink { attempts, last_attempt: now, ..l })
        &&& r == StruggleOutcome::Held { holder: l.holder, attempts }
    }
}

/// At most one holder holds any entity, and the holder of a bound entity
/// holds that entity and no other.
pub proof fn lemma_restraint_exclusive(r: Restraints, h1: u64, h2: u64, b1: u64, b2: u64)
    requires
        r.wf(),
    ensures
        r.holds(h1, b1) && r.holds(h2, b1) ==> h1 == h2,
        r.holds(h1, b1) && r.holds(h1, b2) ==> b1 == b2,
        r.holds(h1, b1) ==> r.is_holder(h1) && r.is_bound(b1) && h1 != b1,
{
    if r.holds(h1, b1) && r.holds(h2, b1) {
        let i = choose|i: int|
            0 <= i < r.links@.len() && #[trigger] r.links@[i].holder == h1 && r.links@[i].bound
                == b1;
        let j = choose|j: int|
            0 <= j < r.links@.len() && #[trigger] r.links@[j].holder == h2 && r.links@[j].bound
                == b1;
        assert(i == j);
    }
    if r.holds(h1, b1) && r.holds(h1, b2) {
        let i = choose|i: int|
            0 <= i < r.links@.len() && #[trigger] r.links@[i].holder == h1 && r.links@[i].bound
                == b1;
        let j = choose|j: int|
            0 <= j < r.links@.len() && #[trigger] r.links@[j].holder == h1 && r.links@[j].bound
                == b2;
        assert(i == j);
    }
}

} // verus!
