//! The will registry: at most one will per owner, with the escrowed secret and
//! the owner's liveness signals.
use vstd::prelude::*;

use crate::identity::Identity;
use crate::liveness::{expired_spec, is_expired, remaining_spec, time_remaining};

verus! {

/// Why an operation on the registry, or a gated request, was refused.
#[derive(Clone, Copy, Debug, PartialEq, Eq, Structural)]
pub enum WillError {
    /// No will is registered for the owner in question.
    NotFound,
    /// The caller is not the party this operation is reserved for.
    Unauthorized,
    /// The owner's heartbeat interval has not yet run out.
    StillAlive,
    /// The caller may not obtain key material for the requested scope.
    AccessDenied,
}

/// One owner's will.
pub struct WillRecord {
    pub owner: Identity,
    pub beneficiary: Identity,
    pub payout_address: String,
    pub heartbeat_interval: u64,
    pub last_active: u64,
    pub encrypted_secret: Option<Vec<u8>>,
}

/// The mathematical content of a will.
pub struct WillView {
    pub owner: Seq<u8>,
    pub beneficiary: Seq<u8>,
    pub payout_address: Seq<char>,
    pub heartbeat_interval: u64,
    pub last_active: u64,
    pub encrypted_secret: Option<Seq<u8>>,
}

impl View for WillRecord {
    type V = WillView;

    open spec fn view(&self) -> WillView {
        WillView {
            owner: self.owner@,
            beneficiary: self.beneficiary@,
            payout_address: self.payout_address@,
            heartbeat_interval: self.heartbeat_interval,
            last_active: self.last_active,
            encrypted_secret: match self.encrypted_secret {
                Some(s) => Some(s@),
                None => None,
            },
        }
    }
}

/// The escrow as stored at registration: an empty ciphertext stores nothing.
pub open spec fn escrow_of(ciphertext: Seq<u8>) -> Option<Seq<u8>> {
    if ciphertext.len() == 0 {
        None
    } else {
        Some(ciphertext)
    }
}

/// The will that a fresh registration stores.
pub open spec fn fresh_will(
    owner: Seq<u8>,
    beneficiary: Seq<u8>,
    payout_address: Seq<char>,
    heartbeat_interval: u64,
    ciphertext: Seq<u8>,
    now: u64,
) -> WillView {
    WillView {
        owner,
        beneficiary,
        payout_address,
        heartbeat_interval,
        last_active: now,
        encrypted_secret: escrow_of(ciphertext),
    }
}

/// A will after a liveness signal at `now`: `last_active` moves forward to
/// `now`, never backward.
pub open spec fn after_heartbeat(w: WillView, now: u64) -> WillView {
    WillView { last_active: if now > w.last_active { now } else { w.last_active }, ..w }
}

/// A will after its owner replaced the escrowed secret.
pub open spec fn with_secret(w: WillView, ciphertext: Seq<u8>) -> WillView {
    WillView { encrypted_secret: Some(ciphertext), ..w }
}

/// No two wills in `s` share an owner.
pub open spec fn owners_unique(s: Seq<WillView>) -> bool {
    forall|i: int, j: int|
        0 <= i < s.len() && 0 <= j < s.len() && #[trigger] s[i].owner == #[trigger] s[j].owner
            ==> i == j
}

/// Some will in `s` belongs to `owner`.
pub open spec fn has_owner(s: Seq<WillView>, owner: Seq<u8>) -> bool {
    exists|i: int| 0 <= i < s.len() && #[trigger] s[i].owner == owner
}

/// The wills of `s` keyed by owner.
pub open spec fn keyed(s: Seq<WillView>) -> Map<Seq<u8>, WillView> {
    Map::new(
        |o: Seq<u8>| has_owner(s, o),
        |o: Seq<u8>| s[choose|i: int| 0 <= i < s.len() && #[trigger] s[i].owner == o],
    )
}

proof fn lemma_keyed_at(s: Seq<WillView>, i: int)
    requires
        owners_unique(s),
        0 <= i < s.len(),
    ensures
        keyed(s).contains_key(s[i].owner),
        keyed(s)[s[i].owner] == s[i],
{
    let o = s[i].owner;
    assert(has_owner(s, o));
    let j = choose|j: int| 0 <= j < s.len() && #[trigger] s[j].owner == o;
    assert(s[j].owner == s[i].owner);
}

proof fn lemma_keyed_update(s: Seq<WillView>, i: int, w: WillView)
    requires
        owners_unique(s),
        0 <= i < s.len(),
        s[i].owner == w.owner,
    ensures
        owners_unique(s.update(i, w)),
        keyed(s.update(i, w)) == keyed(s).insert(w.owner, w),
{
    let t = s.update(i, w);
    assert(owners_unique(t)) by {
        assert forall|a: int, b: int|
            0 <= a < t.len() && 0 <= b < t.len() && #[trigger] t[a].owner == #[trigger] t[b].owner
            implies a == b by {
            assert(s[a].owner == s[b].owner);
        }
    }
    let m = keyed(s).insert(w.owner, w);
    assert forall|o: Seq<u8>| #[trigger] keyed(t).contains_key(o) == m.contains_key(o) by {
        if o == w.owner {
            assert(t[i].owner == o);
        } else {
            if has_owner(t, o) {
                let j = choose|j: int| 0 <= j < t.len() && #[trigger] t[j].owner == o;
                assert(s[j].owner == o);
            }
            if has_owner(s, o) {
                let j = choose|j: int| 0 <= j < s.len() && #[trigger] s[j].owner == o;
                assert(t[j].owner == o);
            }
        }
    }
    assert forall|o: Seq<u8>| keyed(t).contains_key(o) implies keyed(t)[o] == m[o] by {
        let j = choose|j: int| 0 <= j < t.len() && #[trigger] t[j].owner == o;
        lemma_keyed_at(t, j);
        if j != i {
            assert(s[j] == t[j]);
            lemma_keyed_at(s, j);
        }
    }
    assert(keyed(t) =~= m);
}

proof fn lemma_keyed_push(s: Seq<WillView>, w: WillView)
    requires
        owners_unique(s),
        !has_owner(s, w.owner),
    ensures
        owners_unique(s.push(w)),
        keyed(s.push(w)) == keyed(s).insert(w.owner, w),
{
    let t = s.push(w);
    let n = s.len() as int;
    assert(owners_unique(t)) by {
        assert forall|a: int, b: int|
            0 <= a < t.len() && 0 <= b < t.len() && #[trigger] t[a].owner == #[trigger] t[b].owner
            implies a == b by {
            if a < n && b < n {
                assert(s[a].owner == s[b].owner);
            } else if a < n {
                assert(s[a].owner == w.owner);
            } else if b < n {
                assert(s[b].owner == w.owner);
            }
        }
    }
    let m = keyed(s).insert(w.owner, w);
    assert forall|o: Seq<u8>| #[trigger] keyed(t).contains_key(o) == m.contains_key(o) by {
        if o == w.owner {
            assert(t[n].owner == o);
        } else {
            if has_owner(t, o) {
                let j = choose|j: int| 0 <= j < t.len() && #[trigger] t[j].owner == o;
                assert(s[j].owner == o);
            }
            if has_owner(s, o) {
                let j = choose|j: int| 0 <= j < s.len() && #[trigger] s[j].owner == o;
                assert(t[j].owner == o);
            }
        }
    }
    assert forall|o: Seq<u8>| keyed(t).contains_key(o) implies keyed(t)[o] == m[o] by {
        let j = choose|j: int| 0 <= j < t.len() && #[trigger] t[j].owner == o;
        lemma_keyed_at(t, j);
        if j != n {
            assert(s[j] == t[j]);
            lemma_keyed_at(s, j);
        }
    }
    assert(keyed(t) =~= m);
}

/// The heartbeat settings of one will.
#[derive(Clone, Copy, Debug, PartialEq, Eq, Structural)]
pub struct WillStatus {
    pub heartbeat_interval: u64,
    pub last_active: u64,
}

/// One will as its beneficiary sees it, with liveness computed at query time.
pub struct InheritanceInfo {
    pub owner: Identity,
    pub payout_address: String,
    pub heartbeat_interval: u64,
    pub last_active: u64,
    pub time_remaining: u64,
    pub is_expired: bool,
}

/// The mathematical content of an [`InheritanceInfo`].
pub struct InfoView {
    pub owner: Seq<u8>,
    pub payout_address: Seq<char>,
    pub heartbeat_interval: u64,
    pub last_active: u64,
    pub time_remaining: int,
    pub is_expired: bool,
}

impl View for InheritanceInfo {
    type V = InfoView;

    open spec fn view(&self) -> InfoView {
        InfoView {
            owner: self.owner@,
            payout_address: self.payout_address@,
            heartbeat_interval: self.heartbeat_interval,
            last_active: self.last_active,
            time_remaining: self.time_remaining as int,
            is_expired: self.is_expired,
        }
    }
}

/// What a beneficiary is told of will `w` at `now`.
pub open spec fn info_of(w: WillView, now: u64) -> InfoView {
    InfoView {
        owner: w.owner,
        payout_address: w.payout_address,
        heartbeat_interval: w.heartbeat_interval,
        last_active: w.last_active,
        time_remaining: remaining_spec(w.last_active, w.heartbeat_interval, now),
        is_expired: expired_spec(w.last_active, w.heartbeat_interval, now),
    }
}

/// `out` lists exactly the wills of `m` that name `beneficiary`, as seen at
/// `now`, each owner once.
pub open spec fn lists_inheritances(
    m: Map<Seq<u8>, WillView>,
    beneficiary: Seq<u8>,
    now: u64,
    out: Seq<InfoView>,
) -> bool {
    &&& forall|k: int| 0 <= k < out.len() ==> {
        &&& m.contains_key(#[trigger] out[k].owner)
        &&& m[out[k].owner].beneficiary == beneficiary
        &&& out[k] == info_of(m[out[k].owner], now)
    }
    &&& forall|o: Seq<u8>| m.contains_key(o) && (#[trigger] m[o]).beneficiary == beneficiary
        ==> exists|k: int| 0 <= k < out.len() && out[k].owner == o
    &&& forall|a: int, b: int| 0 <= a < b < out.len() ==> #[trigger] out[a].owner != #[trigger] out[b].owner
}

/// All wills, keyed by owner.
pub struct Registry {
    wills: Vec<WillRecord>,
}

impl View for Registry {
    type V = Map<Seq<u8>, WillView>;

    closed spec fn view(&self) -> Map<Seq<u8>, WillView> {
        keyed(self.records())
    }
}

impl Registry {
    /// The stored wills, in storage order.
    pub closed spec fn records(&self) -> Seq<WillView> {
        self.wills@.map_values(|w: WillRecord| w@)
    }

    /// The registry's internal invariant: each owner has at most one will.
    pub closed spec fn wf(&self) -> bool {
        owners_unique(self.records())
    }

    /// An empty registry.
    pub fn new() -> (r: Registry)
        ensures
            r.wf(),
            r@ == Map::<Seq<u8>, WillView>::empty(),
    {
        let r = Registry { wills: Vec::new() };
        assert(r@ =~= Map::<Seq<u8>, WillView>::empty());
        r
    }

    /// Where `owner`'s will is stored, if anywhere.
    fn position(&self, owner: &Identity) -> (r: Option<usize>)
        requires
            self.wf(),
        ensures
            match r {
                Some(i) => i < self.wills.len() && self.records()[i as int].owner == owner@
                    && self@.contains_key(owner@) && self@[owner@] == self.records()[i as int],
                None => !self@.contains_key(owner@),
            },
    {
        let mut i: usize = 0;
        while i < self.wills.len()
            invariant
                self.wf(),
                i <= self.wills.len(),
                forall|j: int| 0 <= j < i ==> #[trigger] self.records()[j].owner != owner@,
            decreases self.wills.len() - i,
        {
            if self.wills[i].owner.same_as(owner) {
                proof {
                    lemma_keyed_at(self.records(), i as int);
                }
                return Some(i);
            }
            i = i + 1;
        }
        None
    }

    /// Registers a will for `owner`, replacing any earlier one wholesale.
    /// `last_active` starts at `now`; an empty `ciphertext` escrows nothing.
    pub fn register(
        &mut self,
        owner: Identity,
        beneficiary: Identity,
        payout_address: String,
        heartbeat_interval: u64,
        ciphertext: Vec<u8>,
        now: u64,
    )
        requires
            old(self).wf(),
        ensures
            final(self).wf(),
            final(self)@ == old(self)@.insert(
                owner@,
                fresh_will(owner@, beneficiary@, payout_address@, heartbeat_interval, ciphertext@, now),
            ),
    {
        let ghost w = fresh_will(owner@, beneficiary@, payout_address@, heartbeat_interval, ciphertext@, now);
        let pos = self.position(&owner);
        let encrypted_secret = if ciphertext.len() == 0 {
            None
        } else {
            Some(ciphertext)
        };
        let record = WillRecord {
            owner,
            beneficiary,
            payout_address,
            heartbeat_interval,
            last_active: now,
            encrypted_secret,
        };
        assert(record@ == w);
        match pos {
            Some(i) => {
                let ghost s = self.records();
                self.wills.set(i, record);
                proof {
                    assert(self.records() =~= s.update(i as int, w));
                    lemma_keyed_update(s, i as int, w);
                }
            },
            None => {
                let ghost s = self.records();
                self.wills.push(record);
                proof {
                    assert(self.records() =~= s.push(w));
                    lemma_keyed_push(s, w);
                }
            },
        }
    }

    /// A liveness signal from `owner` at `now`: `last_active` moves forward to
    /// `now` (never backward). Fails with `NotFound`, changing nothing, when
    /// `owner` has no will.
    pub fn heartbeat(&mut self, owner: &Identity, now: u64) -> (r: Result<(), WillError>)
        requires
            old(self).wf(),
        ensures
            final(self).wf(),
            match r {
                Ok(()) => old(self)@.contains_key(owner@) && final(self)@ == old(self)@.insert(
                    owner@,
                    after_heartbeat(old(self)@[owner@], now),
                ),
                Err(e) => e == WillError::NotFound && !old(self)@.contains_key(owner@)
                    && final(self)@ == old(self)@,
            },
            r is Ok ==> {
                let before = old(self)@[owner@];
                let after = final(self)@[owner@];
                &&& after.last_active >= before.last_active
                &&& now > before.last_active ==> after.last_active > before.last_active
                &&& now <= before.last_active ==> after.last_active == before.last_active
                &&& !expired_spec(after.last_active, after.heartbeat_interval, now)
            },
    {
        match self.position(owner) {
            Some(i) => {
                let ghost s = self.records();
                let ghost w = after_heartbeat(s[i as int], now);
                if now > self.wills[i].last_active {
                    self.wills[i].last_active = now;
                }
                proof {
                    assert(self.records() =~= s.update(i as int, w));
                    lemma_keyed_update(s, i as int, w);
                }
                Ok(())
            },
            None => Err(WillError::NotFound),
        }
    }

    /// The owner replaces the escrowed secret with `ciphertext`, stored as
    /// given. Fails with `NotFound`, changing nothing, when `owner` has no will.
    pub fn update_secret(&mut self, owner: &Identity, ciphertext: Vec<u8>) -> (r: Result<(), WillError>)
        requires
            old(self).wf(),
        ensures
            final(self).wf(),
            match r {
                Ok(()) => old(self)@.contains_key(owner@) && final(self)@ == old(self)@.insert(
                    owner@,
                    with_secret(old(self)@[owner@], ciphertext@),
                ),
                Err(e) => e == WillError::NotFound && !old(self)@.contains_key(owner@)
                    && final(self)@ == old(self)@,
            },
    {
        match self.position(owner) {
            Some(i) => {
                let ghost s = self.records();
                let ghost w = with_secret(s[i as int], ciphertext@);
                self.wills[i].encrypted_secret = Some(ciphertext);
                proof {
                    assert(self.records() =~= s.update(i as int, w));
                    lemma_keyed_update(s, i as int, w);
                }
                Ok(())
            },
            None => Err(WillError::NotFound),
        }
    }

    /// The will registered for `owner`, if any.
    pub fn get(&self, owner: &Identity) -> (r: Option<&WillRecord>)
        requires
            self.wf(),
        ensures
            match r {
                Some(w) => self@.contains_key(owner@) && w@ == self@[owner@],
                None => !self@.contains_key(owner@),
            },
    {
        match self.position(owner) {
            Some(i) => Some(&self.wills[i]),
            None => None,
        }
    }

    /// The heartbeat settings of `owner`'s will, or `NotFound`.
    pub fn will_status(&self, owner: &Identity) -> (r: Result<WillStatus, WillError>)
        requires
            self.wf(),
        ensures
            match r {
                Ok(st) => self@.contains_key(owner@)
                    && st.heartbeat_interval == self@[owner@].heartbeat_interval
                    && st.last_active == self@[owner@].last_active,
                Err(e) => e == WillError::NotFound && !self@.contains_key(owner@),
            },
    {
        match self.get(owner) {
            Some(w) => Ok(WillStatus { heartbeat_interval: w.heartbeat_interval, last_active: w.last_active }),
            None => Err(WillError::NotFound),
        }
    }

    /// Every will naming `beneficiary`, with its liveness at `now`, each owner
    /// once, in no promised order.
    pub fn list_by_beneficiary(&self, beneficiary: &Identity, now: u64) -> (r: Vec<InheritanceInfo>)
        requires
            self.wf(),
        ensures
            lists_inheritances(self@, beneficiary@, now, r@.map_values(|x: InheritanceInfo| x@)),
    {
        let ghost s = self.records();
        let ghost mut idx: Seq<int> = Seq::empty();
        let mut out: Vec<InheritanceInfo> = Vec::new();
        let mut i: usize = 0;
        while i < self.wills.len()
            invariant
                self.wf(),
                s == self.records(),
                i <= self.wills.len(),
                idx.len() == out.len(),
                forall|k: int| 0 <= k < idx.len() ==> 0 <= #[trigger] idx[k] < i,
                forall|k: int| 0 <= k < idx.len() ==> s[#[trigger] idx[k]].beneficiary == beneficiary@,
                forall|k: int| 0 <= k < idx.len() ==> out@[k]@ == info_of(s[#[trigger] idx[k]], now),
                forall|a: int, b: int| 0 <= a < b < idx.len() ==> #[trigger] idx[a] < #[trigger] idx[b],
                forall|j: int| 0 <= j < i && (#[trigger] s[j]).beneficiary == beneficiary@
                    ==> exists|k: int| 0 <= k < idx.len() && idx[k] == j,
            decreases self.wills.len() - i,
        {
            let w = &self.wills[i];
            if w.beneficiary.same_as(beneficiary) {
                let info = InheritanceInfo {
                    owner: w.owner.clone(),
                    payout_address: w.payout_address.clone(),
                    heartbeat_interval: w.heartbeat_interval,
                    last_active: w.last_active,
                    time_remaining: time_remaining(w.last_active, w.heartbeat_interval, now),
                    is_expired: is_expired(w.last_active, w.heartbeat_interval, now),
                };
                out.push(info);
                proof {
                    let old_idx = idx;
                    idx = idx.push(i as int);
                    assert forall|j: int| 0 <= j < i + 1 && (#[trigger] s[j]).beneficiary == beneficiary@
                        implies exists|k: int| 0 <= k < idx.len() && idx[k] == j by {
                        if j < i {
                            let k = choose|k: int| 0 <= k < old_idx.len() && old_idx[k] == j;
                            assert(idx[k] == j);
                        } else {
                            assert(idx[idx.len() - 1] == j);
                        }
                    }
                }
            } else {
                proof {
                    assert forall|j: int| 0 <= j < i + 1 && (#[trigger] s[j]).beneficiary == beneficiary@
                        implies exists|k: int| 0 <= k < idx.len() && idx[k] == j by {
                        if j == i {
                            assert(false);
                        }
                    }
                }
            }
            i = i + 1;
        }
        proof {
            let v = out@.map_values(|x: InheritanceInfo| x@);
            assert forall|k: int| 0 <= k < v.len() implies {
                &&& self@.contains_key(#[trigger] v[k].owner)
                &&& self@[v[k].owner].beneficiary == beneficiary@
                &&& v[k] == info_of(self@[v[k].owner], now)
            } by {
                lemma_keyed_at(s, idx[k]);
            }
            assert forall|o: Seq<u8>| self@.contains_key(o) && (#[trigger] self@[o]).beneficiary == beneficiary@
                implies exists|k: int| 0 <= k < v.len() && v[k].owner == o by {
                let j = choose|j: int| 0 <= j < s.len() && #[trigger] s[j].owner == o;
                lemma_keyed_at(s, j);
                assert(s[j].beneficiary == beneficiary@);
                let k = choose|k: int| 0 <= k < idx.len() && idx[k] == j;
                assert(v[k].owner == o);
            }
            assert forall|a: int, b: int| 0 <= a < b < v.len() implies #[trigger] v[a].owner != #[trigger] v[b].owner by {
                assert(idx[a] < idx[b]);
            }
        }
        out
    }
}

} // verus!
