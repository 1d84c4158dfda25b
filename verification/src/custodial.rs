//! The custodial royalty layer.
//!
//! The layer wraps assets of a non-fungible registry: it tracks a
//! "real owner" distinct from the registry's recorded holder, at most
//! one active delegate per asset, a per-asset royalty-payment record,
//! and two whitelists.  Every operation is a function from the
//! contract's state and the call's context to a new state and a
//! result; money and asset movements are returned to the caller as
//! amounts to move, since the ledger performs them outside the
//! library.

use vstd::prelude::*;
use crate::amount::Amount;
use crate::call_stack::CallStackElement;
use crate::error::CustodialError;
use crate::ids::{Addr32, Key};
use crate::kv::{addr_get, addr_insert, kv_map, kv_unique, token_get, token_insert};
use crate::royalty::{total_royalty_spec, RoyaltyStepView, RoyaltyStructure};
use crate::token::{TokenIdentifier, TokenIdentifierView};

verus! {

/// Per-asset royalty payment record.  A `Paid` record authorizes
/// exactly one subsequent transfer from `source_key`; the transfer
/// filter consumes it.
#[derive(Clone, Copy, Debug)]
pub enum RoyaltyPaymentState {
    /// No unconsumed royalty payment exists.
    Unpaid,
    /// `payer` paid `amount` of royalty for a transfer out of
    /// `source_key`.
    Paid { payer: Key, source_key: Key, amount: Amount },
}

/// The mathematical shape of a [`RoyaltyPaymentState`].
pub enum RoyaltyPaymentStateView {
    Unpaid,
    Paid { payer: Key, source_key: Key, amount: nat },
}

impl View for RoyaltyPaymentState {
    type V = RoyaltyPaymentStateView;

    open spec fn view(&self) -> RoyaltyPaymentStateView {
        match self {
            RoyaltyPaymentState::Unpaid => RoyaltyPaymentStateView::Unpaid,
            RoyaltyPaymentState::Paid { payer, source_key, amount } => RoyaltyPaymentStateView::Paid {
                payer: *payer,
                source_key: *source_key,
                amount: amount@,
            },
        }
    }
}

/// Custodial record of one managed asset: its real owner and its
/// active delegate, if any.
#[derive(Clone, Copy, Debug, PartialEq, Eq, Structural)]
pub struct Holding {
    pub real_owner: Key,
    pub delegate: Option<Addr32>,
}

impl View for Holding {
    type V = Holding;

    open spec fn view(&self) -> Holding {
        *self
    }
}

/// The custodial contract's persistent state.
pub struct CustodialState {
    /// The account or contract the royalty proceeds belong to; also
    /// the only caller allowed to claim assets.
    pub manager: Key,
    /// The royalty step function; immutable after installation.
    pub royalty_structure: RoyaltyStructure,
    /// When false, every marketplace is accepted.
    pub marketplace_whitelist_enabled: bool,
    pub whitelisted_marketplaces: Vec<(Addr32, bool)>,
    /// When false, every payment token is accepted.
    pub payment_token_whitelist_enabled: bool,
    pub whitelisted_payment_tokens: Vec<(Addr32, bool)>,
    pub royalty_payments: Vec<(TokenIdentifier, RoyaltyPaymentState)>,
    pub holdings: Vec<(TokenIdentifier, Holding)>,
}

/// The mathematical shape of a [`CustodialState`].
#[verifier::ext_equal]
pub struct CustodialStateView {
    pub manager: Key,
    pub structure: Seq<RoyaltyStepView>,
    pub marketplace_whitelist_enabled: bool,
    pub whitelisted_marketplaces: Map<Addr32, bool>,
    pub payment_token_whitelist_enabled: bool,
    pub whitelisted_payment_tokens: Map<Addr32, bool>,
    pub royalty_payments: Map<TokenIdentifierView, RoyaltyPaymentStateView>,
    pub holdings: Map<TokenIdentifierView, Holding>,
}

impl View for CustodialState {
    type V = CustodialStateView;

    open spec fn view(&self) -> CustodialStateView {
        CustodialStateView {
            manager: self.manager,
            structure: self.royalty_structure@,
            marketplace_whitelist_enabled: self.marketplace_whitelist_enabled,
            whitelisted_marketplaces: kv_map(self.whitelisted_marketplaces@),
            payment_token_whitelist_enabled: self.payment_token_whitelist_enabled,
            whitelisted_payment_tokens: kv_map(self.whitelisted_payment_tokens@),
            royalty_payments: kv_map(self.royalty_payments@),
            holdings: kv_map(self.holdings@),
        }
    }
}

impl CustodialState {
    /// The keys of all association vectors are pairwise distinct.
    pub open spec fn wf(&self) -> bool {
        &&& kv_unique(self.whitelisted_marketplaces@)
        &&& kv_unique(self.whitelisted_payment_tokens@)
        &&& kv_unique(self.royalty_payments@)
        &&& kv_unique(self.holdings@)
    }
}

/// Whether a marketplace package appears on the whitelist with a
/// `true` mark; an absent entry counts as not whitelisted.
pub open spec fn spec_is_marketplace_whitelisted(v: CustodialStateView, marketplace: Addr32) -> bool {
    v.whitelisted_marketplaces.contains_key(marketplace) && v.whitelisted_marketplaces[marketplace]
}

/// Whether the layer accepts a marketplace: always when the whitelist
/// is disabled, else by the whitelist.
pub open spec fn marketplace_allowed(v: CustodialStateView, marketplace: Addr32) -> bool {
    !v.marketplace_whitelist_enabled || spec_is_marketplace_whitelisted(v, marketplace)
}

/// Whether the layer accepts a payment token.
pub open spec fn payment_token_allowed(v: CustodialStateView, token: Addr32) -> bool {
    !v.payment_token_whitelist_enabled || (v.whitelisted_payment_tokens.contains_key(token)
        && v.whitelisted_payment_tokens[token])
}

/// The payment record of an asset; an absent record means `Unpaid`.
pub open spec fn payment_state_of(
    v: CustodialStateView,
    token: TokenIdentifierView,
) -> RoyaltyPaymentStateView {
    if v.royalty_payments.contains_key(token) {
        v.royalty_payments[token]
    } else {
        RoyaltyPaymentStateView::Unpaid
    }
}

/// Outcome of [`CustodialState::pay_royalty`]: on success, the new
/// state and the royalty amount that must move from the payment purse
/// into the royalty purse.
pub open spec fn pay_royalty_spec(
    v: CustodialStateView,
    caller: CallStackElement,
    registry_approved: Option<Key>,
    registry_owner: Key,
    token: TokenIdentifierView,
    payer: Key,
    source_key: Key,
    target_key: Key,
    payment_amount: nat,
) -> Result<(CustodialStateView, nat), CustodialError> {
    match total_royalty_spec(v.structure, payment_amount) {
        None => Err(CustodialError::Overflow),
        Some(royalty) => if caller.spec_contract() is None || caller.spec_contract_package() is None {
            Err(CustodialError::CallerMustBeContract)
        } else {
            match registry_approved {
                None => Err(CustodialError::CallerMustBeApproved),
                Some(approved) => if Key::Hash(caller.spec_contract()->Some_0) != approved {
                    Err(CustodialError::CallerMustBeApproved)
                } else if !marketplace_allowed(v, caller.spec_contract_package()->Some_0) {
                    Err(CustodialError::MarketplaceNotWhitelisted)
                } else if registry_owner != source_key {
                    Err(CustodialError::SourceMustBeOwner)
                } else if source_key == target_key {
                    Err(CustodialError::SelfTransferForbidden)
                } else if payment_state_of(v, token) matches RoyaltyPaymentStateView::Paid {
                    payer: paid_payer,
                    ..
                } && paid_payer == payer {
                    Err(CustodialError::AlreadyPaid)
                } else {
                    Ok(
                        (
                            CustodialStateView {
                                royalty_payments: v.royalty_payments.insert(
                                    token,
                                    RoyaltyPaymentStateView::Paid {
                                        payer,
                                        source_key,
                                        amount: royalty,
                                    },
                                ),
                                ..v
                            },
                            royalty,
                        ),
                    )
                },
            }
        },
    }
}

/// Outcome of [`CustodialState::can_transfer`]: the new state and the
/// verdict handed back to the registry (1 proceed, 0 deny).
pub open spec fn can_transfer_spec(
    v: CustodialStateView,
    caller_package: Option<Addr32>,
    registry_owner: Key,
    token: TokenIdentifierView,
    source_key: Key,
) -> Result<(CustodialStateView, u8), CustodialError> {
    match caller_package {
        None => Err(CustodialError::CallerMustBeContract),
        Some(_) => match payment_state_of(v, token) {
            RoyaltyPaymentStateView::Unpaid => Ok((v, 0u8)),
            RoyaltyPaymentStateView::Paid { source_key: paid_source_key, .. } => if source_key
                == paid_source_key && source_key == registry_owner {
                Ok(
                    (
                        CustodialStateView {
                            royalty_payments: v.royalty_payments.insert(
                                token,
                                RoyaltyPaymentStateView::Unpaid,
                            ),
                            ..v
                        },
                        1u8,
                    ),
                )
            } else {
                Ok((v, 0u8))
            },
        },
    }
}

/// Outcome of [`CustodialState::claim`].
pub open spec fn claim_spec(
    v: CustodialStateView,
    caller: Key,
    token: TokenIdentifierView,
    owner: Key,
) -> Result<CustodialStateView, CustodialError> {
    if caller != v.manager {
        Err(CustodialError::CallerMustBeManager)
    } else if v.holdings.contains_key(token) {
        Err(CustodialError::AlreadyClaimed)
    } else {
        Ok(
            CustodialStateView {
                holdings: v.holdings.insert(token, Holding { real_owner: owner, delegate: None }),
                ..v
            },
        )
    }
}

/// Outcome of [`CustodialState::set_delegate`].  `undelegate_approved`
/// is the current delegate's answer to the synchronous undelegation
/// callback; it is read only when an active delegation is revoked.
pub open spec fn set_delegate_spec(
    v: CustodialStateView,
    caller: Key,
    token: TokenIdentifierView,
    new_delegate: Option<Addr32>,
    undelegate_approved: bool,
) -> Result<CustodialStateView, CustodialError> {
    if !v.holdings.contains_key(token) {
        Err(CustodialError::Unmanaged)
    } else {
        let h = v.holdings[token];
        if caller != h.real_owner {
            Err(CustodialError::CallerMustBeOwner)
        } else {
            match new_delegate {
                Some(d) => if h.delegate is Some {
                    Err(CustodialError::AlreadyDelegated)
                } else if !marketplace_allowed(v, d) {
                    Err(CustodialError::MarketplaceNotWhitelisted)
                } else {
                    Ok(
                        CustodialStateView {
                            holdings: v.holdings.insert(
                                token,
                                Holding { real_owner: h.real_owner, delegate: Some(d) },
                            ),
                            ..v
                        },
                    )
                },
                None => if h.delegate is Some && !undelegate_approved {
                    Err(CustodialError::UndelegationNotAllowed)
                } else {
                    Ok(
                        CustodialStateView {
                            holdings: v.holdings.insert(
                                token,
                                Holding { real_owner: h.real_owner, delegate: None },
                            ),
                            ..v
                        },
                    )
                },
            }
        }
    }
}

/// Outcome of [`CustodialState::transfer`]: the new state and the
/// royalty amount that must move from the payment source to the
/// manager.
pub open spec fn transfer_spec(
    v: CustodialStateView,
    caller_package: Option<Addr32>,
    token: TokenIdentifierView,
    target_key: Key,
    payment_token: Addr32,
    payment_amount: nat,
) -> Result<(CustodialStateView, nat), CustodialError> {
    match caller_package {
        None => Err(CustodialError::CallerMustBeContract),
        Some(pkg) => if !v.holdings.contains_key(token) {
            Err(CustodialError::Unmanaged)
        } else if v.holdings[token].delegate != Some(pkg) {
            Err(CustodialError::CallerMustBeDelegate)
        } else if !payment_token_allowed(v, payment_token) {
            Err(CustodialError::PaymentTokenNotWhitelisted)
        } else {
            match total_royalty_spec(v.structure, payment_amount) {
                None => Err(CustodialError::Overflow),
                Some(royalty) => Ok(
                    (
                        CustodialStateView {
                            holdings: v.holdings.insert(
                                token,
                                Holding { real_owner: target_key, delegate: None },
                            ),
                            ..v
                        },
                        royalty,
                    ),
                ),
            }
        },
    }
}

impl CustodialState {
    /// Install the layer: record the manager and the royalty
    /// structure, and fill the two whitelists.  An empty list disables
    /// the corresponding whitelist, so that every candidate is
    /// accepted.
    pub fn init(
        manager: Key,
        royalty_structure: RoyaltyStructure,
        whitelisted_marketplaces: Vec<Addr32>,
        whitelisted_payment_tokens: Vec<Addr32>,
    ) -> (r: CustodialState)
        ensures
            r.wf(),
            r@.manager == manager,
            r@.structure == royalty_structure@,
            r@.marketplace_whitelist_enabled == (whitelisted_marketplaces@.len() > 0),
            r@.payment_token_whitelist_enabled == (whitelisted_payment_tokens@.len() > 0),
            forall|a: Addr32| #[trigger]
                spec_is_marketplace_whitelisted(r@, a) <==> whitelisted_marketplaces@.contains(a),
            forall|a: Addr32| #[trigger]
                payment_token_allowed(r@, a) <==> (whitelisted_payment_tokens@.len() == 0
                    || whitelisted_payment_tokens@.contains(a)),
            r@.royalty_payments =~= Map::<TokenIdentifierView, RoyaltyPaymentStateView>::empty(),
            r@.holdings =~= Map::<TokenIdentifierView, Holding>::empty(),
    {
        let mut mkt: Vec<(Addr32, bool)> = Vec::new();
        let mut i: usize = 0;
        while i < whitelisted_marketplaces.len()
            invariant
                i <= whitelisted_marketplaces@.len(),
                kv_unique(mkt@),
                forall|a: Addr32|
                    #![trigger kv_map(mkt@).contains_key(a)]
                    (kv_map(mkt@).contains_key(a) <==> exists|j: int|
                        0 <= j < i && whitelisted_marketplaces@[j] == a),
                forall|a: Addr32|
                    kv_map(mkt@).contains_key(a) ==> kv_map(mkt@)[a] == true,
            decreases whitelisted_marketplaces@.len() - i,
        {
            addr_insert(&mut mkt, whitelisted_marketplaces[i], true);
            i = i + 1;
        }
        let mut pay: Vec<(Addr32, bool)> = Vec::new();
        let mut k: usize = 0;
        while k < whitelisted_payment_tokens.len()
            invariant
                k <= whitelisted_payment_tokens@.len(),
                kv_unique(pay@),
                forall|a: Addr32|
                    #![trigger kv_map(pay@).contains_key(a)]
                    (kv_map(pay@).contains_key(a) <==> exists|j: int|
                        0 <= j < k && whitelisted_payment_tokens@[j] == a),
                forall|a: Addr32|
                    kv_map(pay@).contains_key(a) ==> kv_map(pay@)[a] == true,
            decreases whitelisted_payment_tokens@.len() - k,
        {
            addr_insert(&mut pay, whitelisted_payment_tokens[k], true);
            k = k + 1;
        }
        CustodialState {
            manager,
            royalty_structure,
            marketplace_whitelist_enabled: whitelisted_marketplaces.len() > 0,
            whitelisted_marketplaces: mkt,
            payment_token_whitelist_enabled: whitelisted_payment_tokens.len() > 0,
            whitelisted_payment_tokens: pay,
            royalty_payments: Vec::new(),
            holdings: Vec::new(),
        }
    }

    /// Whether a marketplace package is on the whitelist; an absent
    /// entry counts as not whitelisted.
    pub fn is_marketplace_whitelisted(&self, marketplace: Addr32) -> (r: bool)
        requires
            self.wf(),
        ensures
            r == spec_is_marketplace_whitelisted(self@, marketplace),
    {
        match addr_get(&self.whitelisted_marketplaces, marketplace) {
            Some(b) => *b,
            None => false,
        }
    }

    /// The total royalty owed on a payment amount, independent of the
    /// asset.
    pub fn calculate_royalty_inner(&self, _token_id: &TokenIdentifier, payment_amount: Amount) -> (r:
        Result<Amount, CustodialError>)
        ensures
            match r {
                Ok(a) => total_royalty_spec(self@.structure, payment_amount@) == Some(a@),
                Err(e) => e == CustodialError::Overflow && total_royalty_spec(
                    self@.structure,
                    payment_amount@,
                ) is None,
            },
    {
        self.royalty_structure.calculate_total_royalty(payment_amount)
    }

    /// Quote the royalty owed on a payment amount.  Deterministic:
    /// the result is a function of the royalty structure and the
    /// payment amount alone.
    pub fn calculate_royalty(
        &self,
        _token_contract: Addr32,
        token_id: &TokenIdentifier,
        payment_amount: Amount,
    ) -> (r: Result<Amount, CustodialError>)
        ensures
            match r {
                Ok(a) => total_royalty_spec(self@.structure, payment_amount@) == Some(a@),
                Err(e) => e == CustodialError::Overflow && total_royalty_spec(
                    self@.structure,
                    payment_amount@,
                ) is None,
            },
    {
        self.calculate_royalty_inner(token_id, payment_amount)
    }

    /// Record a royalty payment for one upcoming transfer of the
    /// asset.  `registry_approved` and `registry_owner` are the asset
    /// registry's current approval and owner records for the token;
    /// the caller is the immediate calling context.  A still-unconsumed
    /// record blocks a repeat payment by the same payer; a different
    /// payer replaces the record.  On success the returned amount must
    /// move from the payment purse into the royalty purse, atomically
    /// with this state change.
    pub fn pay_royalty(
        &mut self,
        caller: &CallStackElement,
        registry_approved: Option<Key>,
        registry_owner: Key,
        token_id: &TokenIdentifier,
        payer: Key,
        source_key: Key,
        target_key: Key,
        payment_amount: Amount,
    ) -> (r: Result<Amount, CustodialError>)
        requires
            old(self).wf(),
        ensures
            final(self).wf(),
            match r {
                Ok(a) => pay_royalty_spec(
                    old(self)@,
                    *caller,
                    registry_approved,
                    registry_owner,
                    token_id@,
                    payer,
                    source_key,
                    target_key,
                    payment_amount@,
                ) == Ok::<_, CustodialError>((final(self)@, a@)),
                Err(e) => pay_royalty_spec(
                    old(self)@,
                    *caller,
                    registry_approved,
                    registry_owner,
                    token_id@,
                    payer,
                    source_key,
                    target_key,
                    payment_amount@,
                ) == Err::<(CustodialStateView, nat), _>(e) && final(self)@ == old(self)@,
            },
    {
        let total_royalty = match self.calculate_royalty_inner(token_id, payment_amount) {
            Ok(a) => a,
            Err(e) => {
                return Err(e);
            },
        };
        let caller_contract = match caller.contract() {
            Some(c) => c,
            None => {
                return Err(CustodialError::CallerMustBeContract);
            },
        };
        let caller_package = match caller.contract_package() {
            Some(p) => p,
            None => {
                return Err(CustodialError::CallerMustBeContract);
            },
        };
        let approved = match registry_approved {
            Some(a) => a,
            None => {
                return Err(CustodialError::CallerMustBeApproved);
            },
        };
        if Key::Hash(caller_contract) != approved {
            return Err(CustodialError::CallerMustBeApproved);
        }
        let is_whitelisted = !self.marketplace_whitelist_enabled || self.is_marketplace_whitelisted(
            caller_package,
        );
        if !is_whitelisted {
            return Err(CustodialError::MarketplaceNotWhitelisted);
        }
        if registry_owner != source_key {
            return Err(CustodialError::SourceMustBeOwner);
        }
        if source_key == target_key {
            return Err(CustodialError::SelfTransferForbidden);
        }
        let old_payment_state = match token_get(&self.royalty_payments, token_id) {
            Some(s) => *s,
            None => RoyaltyPaymentState::Unpaid,
        };
        if let RoyaltyPaymentState::Paid { payer: paid_payer, .. } = old_payment_state {
            if payer == paid_payer {
                return Err(CustodialError::AlreadyPaid);
            }
        }
        let payment_state = RoyaltyPaymentState::Paid {
            payer,
            source_key,
            amount: total_royalty,
        };
        token_insert(&mut self.royalty_payments, token_id, payment_state);
        proof {
            assert(final(self)@ =~= CustodialStateView {
                royalty_payments: old(self)@.royalty_payments.insert(
                    token_id@,
                    payment_state@,
                ),
                ..old(self)@
            });
        }
        Ok(total_royalty)
    }

    /// The transfer filter the registry consults before it moves an
    /// asset: proceed (1) only when the payment record's source
    /// matches both the attempted transfer's source and the registry's
    /// live owner, consuming the record; else deny (0).  The caller is
    /// the registry itself, and `registry_owner` is its current owner
    /// record for the token.
    pub fn can_transfer(
        &mut self,
        caller_package: Option<Addr32>,
        registry_owner: Key,
        token_id: &TokenIdentifier,
        source_key: Key,
        _target_key: Key,
    ) -> (r: Result<u8, CustodialError>)
        requires
            old(self).wf(),
        ensures
            final(self).wf(),
            match r {
                Ok(verdict) => can_transfer_spec(
                    old(self)@,
                    caller_package,
                    registry_owner,
                    token_id@,
                    source_key,
                ) == Ok::<_, CustodialError>((final(self)@, verdict)),
                Err(e) => can_transfer_spec(
                    old(self)@,
                    caller_package,
                    registry_owner,
                    token_id@,
                    source_key,
                ) == Err::<(CustodialStateView, u8), _>(e) && final(self)@ == old(self)@,
            },
    {
        if caller_package.is_none() {
            return Err(CustodialError::CallerMustBeContract);
        }
        let payment_state = match token_get(&self.royalty_payments, token_id) {
            Some(s) => *s,
            None => RoyaltyPaymentState::Unpaid,
        };
        match payment_state {
            RoyaltyPaymentState::Unpaid => Ok(0),
            RoyaltyPaymentState::Paid { source_key: paid_source_key, .. } => {
                if source_key == paid_source_key && source_key == registry_owner {
                    // Writing `Unpaid` before the registry actually moves the
                    // asset is sound: a denied or failing transfer reverts the
                    // whole call, this write included.
                    token_insert(&mut self.royalty_payments, token_id, RoyaltyPaymentState::Unpaid);
                    proof {
                        assert(final(self)@ =~= CustodialStateView {
                            royalty_payments: old(self)@.royalty_payments.insert(
                                token_id@,
                                RoyaltyPaymentStateView::Unpaid,
                            ),
                            ..old(self)@
                        });
                    }
                    Ok(1)
                } else {
                    Ok(0)
                }
            },
        }
    }

    /// Take an asset under management: record its real owner.  Only
    /// the manager may claim, and only an unclaimed asset.
    pub fn claim(&mut self, caller: Key, token_id: &TokenIdentifier, owner: Key) -> (r: Result<
        (),
        CustodialError,
    >)
        requires
            old(self).wf(),
        ensures
            final(self).wf(),
            match r {
                Ok(()) => claim_spec(old(self)@, caller, token_id@, owner) == Ok::<
                    _,
                    CustodialError,
                >(final(self)@),
                Err(e) => claim_spec(old(self)@, caller, token_id@, owner) == Err::<
                    CustodialStateView,
                    _,
                >(e) && final(self)@ == old(self)@,
            },
    {
        if caller != self.manager {
            return Err(CustodialError::CallerMustBeManager);
        }
        if token_get(&self.holdings, token_id).is_some() {
            return Err(CustodialError::AlreadyClaimed);
        }
        let holding = Holding { real_owner: owner, delegate: None };
        token_insert(&mut self.holdings, token_id, holding);
        proof {
            assert(final(self)@ =~= CustodialStateView {
                holdings: old(self)@.holdings.insert(token_id@, holding),
                ..old(self)@
            });
        }
        Ok(())
    }

    /// Grant or revoke the delegation of a managed asset.  Granting
    /// requires that no delegate exists and that the new delegate is
    /// an accepted marketplace; revoking an active delegation requires
    /// the delegate's consent, handed in as `undelegate_approved`.
    pub fn set_delegate(
        &mut self,
        caller: Key,
        token_id: &TokenIdentifier,
        new_delegate: Option<Addr32>,
        undelegate_approved: bool,
    ) -> (r: Result<(), CustodialError>)
        requires
            old(self).wf(),
        ensures
            final(self).wf(),
            match r {
                Ok(()) => set_delegate_spec(
                    old(self)@,
                    caller,
                    token_id@,
                    new_delegate,
                    undelegate_approved,
                ) == Ok::<_, CustodialError>(final(self)@),
                Err(e) => set_delegate_spec(
                    old(self)@,
                    caller,
                    token_id@,
                    new_delegate,
                    undelegate_approved,
                ) == Err::<CustodialStateView, _>(e) && final(self)@ == old(self)@,
            },
    {
        let holding = match token_get(&self.holdings, token_id) {
            Some(h) => *h,
            None => {
                return Err(CustodialError::Unmanaged);
            },
        };
        if caller != holding.real_owner {
            return Err(CustodialError::CallerMustBeOwner);
        }
        match new_delegate {
            Some(d) => {
                if holding.delegate.is_some() {
                    return Err(CustodialError::AlreadyDelegated);
                }
                let allowed = !self.marketplace_whitelist_enabled
                    || self.is_marketplace_whitelisted(d);
                if !allowed {
                    return Err(CustodialError::MarketplaceNotWhitelisted);
                }
                let updated = Holding { real_owner: holding.real_owner, delegate: Some(d) };
                token_insert(&mut self.holdings, token_id, updated);
                proof {
                    assert(final(self)@ =~= CustodialStateView {
                        holdings: old(self)@.holdings.insert(token_id@, updated),
                        ..old(self)@
                    });
                }
                Ok(())
            },
            None => {
                if holding.delegate.is_some() && !undelegate_approved {
                    return Err(CustodialError::UndelegationNotAllowed);
                }
                let updated = Holding { real_owner: holding.real_owner, delegate: None };
                token_insert(&mut self.holdings, token_id, updated);
                proof {
                    assert(final(self)@ =~= CustodialStateView {
                        holdings: old(self)@.holdings.insert(token_id@, updated),
                        ..old(self)@
                    });
                }
                Ok(())
            },
        }
    }

    /// The active delegate of a managed asset, if any.
    pub fn delegate(&self, token_id: &TokenIdentifier) -> (r: Option<Addr32>)
        requires
            self.wf(),
        ensures
            match r {
                Some(d) => self@.holdings.contains_key(token_id@) && self@.holdings[token_id@].delegate
                    == Some(d),
                None => !self@.holdings.contains_key(token_id@) || self@.holdings[token_id@].delegate
                    is None,
            },
    {
        match token_get(&self.holdings, token_id) {
            Some(h) => h.delegate,
            None => None,
        }
    }

    /// The real owner of a managed asset, if it is managed.
    pub fn real_owner(&self, token_id: &TokenIdentifier) -> (r: Option<Key>)
        requires
            self.wf(),
        ensures
            match r {
                Some(o) => self@.holdings.contains_key(token_id@) && self@.holdings[token_id@].real_owner
                    == o,
                None => !self@.holdings.contains_key(token_id@),
            },
    {
        match token_get(&self.holdings, token_id) {
            Some(h) => Some(h.real_owner),
            None => None,
        }
    }

    /// Delegate-gated transfer of a managed asset: callable only by
    /// the active delegate, with an accepted payment token.  On
    /// success the asset's real owner becomes `target_key`, the
    /// delegation is cleared, and the returned royalty amount must
    /// move from the payment source to the manager, atomically with
    /// this state change.
    pub fn transfer(
        &mut self,
        caller_package: Option<Addr32>,
        token_id: &TokenIdentifier,
        target_key: Key,
        payment_token: Addr32,
        payment_amount: Amount,
    ) -> (r: Result<Amount, CustodialError>)
        requires
            old(self).wf(),
        ensures
            final(self).wf(),
            match r {
                Ok(a) => transfer_spec(
                    old(self)@,
                    caller_package,
                    token_id@,
                    target_key,
                    payment_token,
                    payment_amount@,
                ) == Ok::<_, CustodialError>((final(self)@, a@)),
                Err(e) => transfer_spec(
                    old(self)@,
                    caller_package,
                    token_id@,
                    target_key,
                    payment_token,
                    payment_amount@,
                ) == Err::<(CustodialStateView, nat), _>(e) && final(self)@ == old(self)@,
            },
    {
        let pkg = match caller_package {
            Some(p) => p,
            None => {
                return Err(CustodialError::CallerMustBeContract);
            },
        };
        let holding = match token_get(&self.holdings, token_id) {
            Some(h) => *h,
            None => {
                return Err(CustodialError::Unmanaged);
            },
        };
        let is_delegate = match holding.delegate {
            Some(d) => d == pkg,
            None => false,
        };
        if !is_delegate {
            return Err(CustodialError::CallerMustBeDelegate);
        }
        let token_ok = !self.payment_token_whitelist_enabled || {
            match addr_get(&self.whitelisted_payment_tokens, payment_token) {
                Some(b) => *b,
                None => false,
            }
        };
        if !token_ok {
            return Err(CustodialError::PaymentTokenNotWhitelisted);
        }
        let royalty = match self.calculate_royalty_inner(token_id, payment_amount) {
            Ok(a) => a,
            Err(e) => {
                return Err(e);
            },
        };
        let updated = Holding { real_owner: target_key, delegate: None };
        token_insert(&mut self.holdings, token_id, updated);
        proof {
            assert(final(self)@ =~= CustodialStateView {
                holdings: old(self)@.holdings.insert(token_id@, updated),
                ..old(self)@
            });
        }
        Ok(royalty)
    }
}

} // verus!
