//! Claim settlement: after a granted claim, best-effort transfers run one after
//! the other, and the escrowed secret is released whatever they report.
//!
//! The host performs each transfer that [`Settlement::next_action`] asks for
//! and feeds its outcome back through [`Settlement::record`]; outcomes are kept
//! for operators and never change what comes next.
use vstd::prelude::*;

use crate::gate::{claim_decision, secret_of, ClaimGrant, GrantView};
use crate::identity::{copy_bytes, Identity};
use crate::registry::{Registry, WillError};

verus! {

/// Units of the liquid asset sent to the beneficiary on a granted claim.
pub const CLAIM_LIQUID_AMOUNT: u64 = 1000;

/// What an external transfer reported.
#[derive(Clone, Copy, Debug, PartialEq, Eq, Structural)]
pub enum TransferOutcome {
    Succeeded,
    Failed,
}

/// Where a settlement stands.
#[derive(Clone, Copy, Debug, PartialEq, Eq, Structural)]
pub enum Stage {
    /// The liquid-asset transfer to the beneficiary is due.
    Liquid,
    /// The native on-chain transfer to the payout address is due.
    Native,
    /// Both transfers were attempted; the secret is released.
    Released,
}

/// The next thing the host must do for a settlement.
pub enum SettlementAction {
    /// Send `amount` units of the liquid asset to `to`.
    TransferLiquid { to: Identity, amount: u64 },
    /// Send `owner`'s native vault funds to `payout_address`.
    TransferNative { owner: Identity, payout_address: String },
    /// Hand `secret` to the claimant: the claim's result.
    Release { secret: Vec<u8> },
}

/// The mathematical content of a [`SettlementAction`].
pub enum ActionView {
    TransferLiquid { to: Seq<u8>, amount: u64 },
    TransferNative { owner: Seq<u8>, payout_address: Seq<char> },
    Release { secret: Seq<u8> },
}

impl View for SettlementAction {
    type V = ActionView;

    open spec fn view(&self) -> ActionView {
        match self {
            SettlementAction::TransferLiquid { to, amount } => ActionView::TransferLiquid {
                to: to@,
                amount: *amount,
            },
            SettlementAction::TransferNative { owner, payout_address } => ActionView::TransferNative {
                owner: owner@,
                payout_address: payout_address@,
            },
            SettlementAction::Release { secret } => ActionView::Release { secret: secret@ },
        }
    }
}

/// The settlement of one granted claim.
pub struct Settlement {
    grant: ClaimGrant,
    amount: u64,
    stage: Stage,
    outcomes: Vec<TransferOutcome>,
}

/// The mathematical content of a [`Settlement`].
pub struct SettlementView {
    pub grant: GrantView,
    pub amount: u64,
    pub stage: Stage,
    pub outcomes: Seq<TransferOutcome>,
}

impl View for Settlement {
    type V = SettlementView;

    closed spec fn view(&self) -> SettlementView {
        SettlementView {
            grant: self.grant@,
            amount: self.amount,
            stage: self.stage,
            outcomes: self.outcomes@,
        }
    }
}

/// A settlement that has just started for grant `g`.
pub open spec fn begin_spec(g: GrantView, amount: u64) -> SettlementView {
    SettlementView { grant: g, amount, stage: Stage::Liquid, outcomes: Seq::empty() }
}

/// What a settlement in state `s` asks the host to do.
pub open spec fn action_spec(s: SettlementView) -> ActionView {
    match s.stage {
        Stage::Liquid => ActionView::TransferLiquid { to: s.grant.beneficiary, amount: s.amount },
        Stage::Native => ActionView::TransferNative {
            owner: s.grant.owner,
            payout_address: s.grant.payout_address,
        },
        Stage::Released => ActionView::Release { secret: s.grant.secret },
    }
}

/// The settlement after the pending transfer reported `o`: the outcome is
/// logged and the next stage follows regardless of it.
pub open spec fn advance_spec(s: SettlementView, o: TransferOutcome) -> SettlementView {
    SettlementView {
        stage: match s.stage {
            Stage::Liquid => Stage::Native,
            _ => Stage::Released,
        },
        outcomes: s.outcomes.push(o),
        ..s
    }
}

impl Settlement {
    /// Starts settling `grant`, sending `liquid_amount` units of the liquid
    /// asset first.
    pub fn begin(grant: ClaimGrant, liquid_amount: u64) -> (r: Settlement)
        ensures
            r@ == begin_spec(grant@, liquid_amount),
    {
        let r = Settlement { grant, amount: liquid_amount, stage: Stage::Liquid, outcomes: Vec::new() };
        assert(r@.outcomes =~= Seq::<TransferOutcome>::empty());
        r
    }

    /// The action that the host must perform next.
    pub fn next_action(&self) -> (r: SettlementAction)
        ensures
            r@ == action_spec(self@),
    {
        match self.stage {
            Stage::Liquid => SettlementAction::TransferLiquid {
                to: self.grant.beneficiary.clone(),
                amount: self.amount,
            },
            Stage::Native => SettlementAction::TransferNative {
                owner: self.grant.owner.clone(),
                payout_address: self.grant.payout_address.clone(),
            },
            Stage::Released => SettlementAction::Release {
                secret: copy_bytes(self.grant.secret.as_slice()),
            },
        }
    }

    /// Records what the pending transfer reported and moves on.
    pub fn record(&mut self, outcome: TransferOutcome)
        requires
            old(self)@.stage != Stage::Released,
        ensures
            final(self)@ == advance_spec(old(self)@, outcome),
    {
        self.stage = match self.stage {
            Stage::Liquid => Stage::Native,
            _ => Stage::Released,
        };
        self.outcomes.push(outcome);
    }

    /// Whether the secret is released, so that no transfer is pending.
    pub fn is_released(&self) -> (r: bool)
        ensures
            r == (self@.stage == Stage::Released),
    {
        self.stage == Stage::Released
    }

    /// The transfer outcomes recorded so far, in order.
    pub fn outcomes(&self) -> (r: &[TransferOutcome])
        ensures
            r@ == self@.outcomes,
    {
        self.outcomes.as_slice()
    }
}

impl Registry {
    /// Decides a claim by `caller` on `owner`'s inheritance at `now` and, when
    /// granted, starts its settlement with the standard liquid amount.
    pub fn begin_claim(&self, caller: &Identity, owner: &Identity, now: u64) -> (r: Result<
        Settlement,
        WillError,
    >)
        requires
            self.wf(),
        ensures
            match r {
                Ok(s) => claim_decision(self@, caller@, owner@, now) is Ok && s@ == begin_spec(
                    claim_decision(self@, caller@, owner@, now)->Ok_0,
                    CLAIM_LIQUID_AMOUNT,
                ),
                Err(e) => claim_decision(self@, caller@, owner@, now) == Err::<GrantView, WillError>(e),
            },
    {
        match self.authorize_claim(caller, owner, now) {
            Ok(g) => Ok(Settlement::begin(g, CLAIM_LIQUID_AMOUNT)),
            Err(e) => Err(e),
        }
    }
}

/// A granted claim releases the owner's escrowed secret (empty when none was
/// set) once both transfers have been attempted, whatever they reported:
/// failing external services never withhold the secret.
pub proof fn lemma_release_ignores_transfers(
    reg: Registry,
    caller: Seq<u8>,
    owner: Seq<u8>,
    now: u64,
    amount: u64,
    first: TransferOutcome,
    second: TransferOutcome,
)
    requires
        claim_decision(reg@, caller, owner, now) is Ok,
    ensures
        ({
            let g = claim_decision(reg@, caller, owner, now)->Ok_0;
            let s = advance_spec(advance_spec(begin_spec(g, amount), first), second);
            &&& s.stage == Stage::Released
            &&& action_spec(s) == ActionView::Release { secret: secret_of(reg@[owner]) }
        }),
{
}

} // verus!
