//! The authorization gate: who may claim an owner's inheritance, and who may
//! obtain key material scoped to an owner, decided afresh from the stored wills
//! and the current time on every request.
use vstd::prelude::*;

use crate::identity::{anonymous_bytes, copy_bytes, Identity};
use crate::liveness::{expired_spec, is_expired};
use crate::registry::{Registry, WillError, WillView};

verus! {

/// What a granted claim hands on to settlement: a snapshot of the will taken
/// at decision time.
pub struct ClaimGrant {
    pub owner: Identity,
    pub beneficiary: Identity,
    pub payout_address: String,
    pub secret: Vec<u8>,
}

/// The mathematical content of a [`ClaimGrant`].
pub struct GrantView {
    pub owner: Seq<u8>,
    pub beneficiary: Seq<u8>,
    pub payout_address: Seq<char>,
    pub secret: Seq<u8>,
}

impl View for ClaimGrant {
    type V = GrantView;

    open spec fn view(&self) -> GrantView {
        GrantView {
            owner: self.owner@,
            beneficiary: self.beneficiary@,
            payout_address: self.payout_address@,
            secret: self.secret@,
        }
    }
}

/// The escrowed secret of `w`; empty when none was set.
pub open spec fn secret_of(w: WillView) -> Seq<u8> {
    match w.encrypted_secret {
        Some(s) => s,
        None => Seq::empty(),
    }
}

/// The grant that a successful claim on will `w` yields.
pub open spec fn grant_of(w: WillView) -> GrantView {
    GrantView {
        owner: w.owner,
        beneficiary: w.beneficiary,
        payout_address: w.payout_address,
        secret: secret_of(w),
    }
}

/// The claim decision: the will must exist, the caller must be its
/// beneficiary (never the anonymous identity), and the owner must have
/// expired, checked in that order.
pub open spec fn claim_decision(
    m: Map<Seq<u8>, WillView>,
    caller: Seq<u8>,
    owner: Seq<u8>,
    now: u64,
) -> Result<GrantView, WillError> {
    if !m.contains_key(owner) {
        Err(WillError::NotFound)
    } else if caller != m[owner].beneficiary || caller == anonymous_bytes() {
        Err(WillError::Unauthorized)
    } else if !expired_spec(m[owner].last_active, m[owner].heartbeat_interval, now) {
        Err(WillError::StillAlive)
    } else {
        Ok(grant_of(m[owner]))
    }
}

/// The key-derivation decision: an owner may always use their own scope;
/// the beneficiary of a registered will may once its owner has expired. The
/// anonymous identity never may.
pub open spec fn key_access(
    m: Map<Seq<u8>, WillView>,
    caller: Seq<u8>,
    scope: Seq<u8>,
    now: u64,
) -> bool {
    if caller == anonymous_bytes() {
        false
    } else if caller == scope {
        true
    } else if !m.contains_key(scope) {
        false
    } else {
        caller == m[scope].beneficiary && expired_spec(
            m[scope].last_active,
            m[scope].heartbeat_interval,
            now,
        )
    }
}

impl Registry {
    /// Decides a claim by `caller` on `owner`'s inheritance at `now`; when
    /// granted, returns a snapshot of what settlement needs.
    pub fn authorize_claim(&self, caller: &Identity, owner: &Identity, now: u64) -> (r: Result<
        ClaimGrant,
        WillError,
    >)
        requires
            self.wf(),
        ensures
            match r {
                Ok(g) => claim_decision(self@, caller@, owner@, now) == Ok::<GrantView, WillError>(g@),
                Err(e) => claim_decision(self@, caller@, owner@, now) == Err::<GrantView, WillError>(e),
            },
    {
        let w = match self.get(owner) {
            Some(w) => w,
            None => {
                return Err(WillError::NotFound);
            },
        };
        if !caller.same_as(&w.beneficiary) || caller.is_anonymous() {
            return Err(WillError::Unauthorized);
        }
        if !is_expired(w.last_active, w.heartbeat_interval, now) {
            return Err(WillError::StillAlive);
        }
        let secret = match &w.encrypted_secret {
            Some(s) => copy_bytes(s.as_slice()),
            None => Vec::new(),
        };
        let g = ClaimGrant {
            owner: w.owner.clone(),
            beneficiary: w.beneficiary.clone(),
            payout_address: w.payout_address.clone(),
            secret,
        };
        assert(g@.secret =~= secret_of(w@));
        Ok(g)
    }

    /// Decides whether `caller` may obtain key material scoped to `scope` at
    /// `now`; refuses with `AccessDenied`.
    pub fn authorize_key_derivation(&self, caller: &Identity, scope: &Identity, now: u64) -> (r:
        Result<(), WillError>)
        requires
            self.wf(),
        ensures
            r is Ok <==> key_access(self@, caller@, scope@, now),
            r matches Err(e) ==> e == WillError::AccessDenied,
    {
        if caller.is_anonymous() {
            return Err(WillError::AccessDenied);
        }
        if caller.same_as(scope) {
            return Ok(());
        }
        match self.get(scope) {
            Some(w) => {
                if caller.same_as(&w.beneficiary) && is_expired(w.last_active, w.heartbeat_interval, now) {
                    Ok(())
                } else {
                    Err(WillError::AccessDenied)
                }
            },
            None => Err(WillError::AccessDenied),
        }
    }
}

/// Only the registered beneficiary can pass claim authorization: any other
/// caller of a registered will, the owner included, is refused with
/// `Unauthorized`.
pub proof fn lemma_only_beneficiary_claims(reg: Registry, caller: Seq<u8>, owner: Seq<u8>, now: u64)
    ensures
        claim_decision(reg@, caller, owner, now) is Ok ==> reg@.contains_key(owner)
            && caller == reg@[owner].beneficiary,
        reg@.contains_key(owner) && caller != reg@[owner].beneficiary ==> claim_decision(
            reg@,
            caller,
            owner,
            now,
        ) == Err::<GrantView, WillError>(WillError::Unauthorized),
{
}

/// While the owner's silence does not exceed the heartbeat interval, every
/// claim is refused, whoever makes it; the beneficiary's is refused with
/// `StillAlive`.
pub proof fn lemma_alive_owner_blocks_claims(reg: Registry, caller: Seq<u8>, owner: Seq<u8>, now: u64)
    requires
        reg@.contains_key(owner),
        !expired_spec(reg@[owner].last_active, reg@[owner].heartbeat_interval, now),
    ensures
        claim_decision(reg@, caller, owner, now) is Err,
        caller == reg@[owner].beneficiary && caller != anonymous_bytes() ==> claim_decision(
            reg@,
            caller,
            owner,
            now,
        ) == Err::<GrantView, WillError>(WillError::StillAlive),
{
}

/// An owner (any identity but the anonymous one) always passes key-derivation
/// authorization for their own scope, registered or not, alive or expired.
pub proof fn lemma_owner_always_derives(reg: Registry, owner: Seq<u8>, now: u64)
    requires
        owner != anonymous_bytes(),
    ensures
        key_access(reg@, owner, owner, now),
{
}

/// A beneficiary other than the owner and the anonymous identity passes
/// key-derivation authorization for the owner's scope exactly when the owner
/// has expired.
pub proof fn lemma_beneficiary_derives_iff_expired(reg: Registry, owner: Seq<u8>, now: u64)
    requires
        reg@.contains_key(owner),
        reg@[owner].beneficiary != owner,
        reg@[owner].beneficiary != anonymous_bytes(),
    ensures
        key_access(reg@, reg@[owner].beneficiary, owner, now) <==> expired_spec(
            reg@[owner].last_active,
            reg@[owner].heartbeat_interval,
            now,
        ),
{
}

} // verus!
