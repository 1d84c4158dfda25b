//! One deployment of the protocol, composed: a marketplace, a
//! custodial royalty layer, the asset registry whose assets are
//! traded, and the ledger's purses.
//!
//! The registry and the purse system are external collaborators of the
//! core contracts; they appear here as models of exactly what their
//! interfaces promise (an owner and an approval per token; a balance
//! per purse, moved all-or-nothing).  The composed operations execute
//! a whole top-level call: every check precedes every state change, so
//! a failed call leaves the world exactly as it was — the model of the
//! ledger's total rollback.

use vstd::prelude::*;
use crate::amount::{amount_limit, Amount};
use crate::call_stack::CallStackElement;
use crate::custodial::{pay_royalty_spec, CustodialState, CustodialStateView, RoyaltyPaymentStateView};
use crate::error::{CustodialError, MarketError};
use crate::ids::{Addr32, Key};
use crate::kv::{kv_map, kv_unique, token_get, token_insert, u64_get, u64_insert};
use crate::marketplace::{cancel_spec, MarketplaceState, MarketplaceStateView, OrderbookEntryView};
use crate::royalty::total_royalty_spec;
use crate::token::{TokenIdentifier, TokenIdentifierView};

verus! {

/// Failures of the ledger's purse operations.
#[derive(Clone, Copy, Debug, PartialEq, Eq, Structural)]
pub enum LedgerError {
    /// No purse exists under the reference.
    UnknownPurse,
    /// The source purse holds less than the amount to move.
    InsufficientFunds,
    /// The target purse cannot hold the sum.
    BalanceOverflow,
}

/// Everything a composed bid can fail with: a marketplace error, a
/// custodial error, or a purse failure.
#[derive(Clone, Copy, Debug, PartialEq, Eq, Structural)]
pub enum BidError {
    Market(MarketError),
    Custodial(CustodialError),
    Ledger(LedgerError),
}

/// The registry's record of one token: its recorded holder and the
/// operator approved to transfer it, if any.
#[derive(Clone, Copy, Debug, PartialEq, Eq, Structural)]
pub struct TokenRecord {
    pub owner: Key,
    pub approved: Option<Key>,
}

impl View for TokenRecord {
    type V = TokenRecord;

    open spec fn view(&self) -> TokenRecord {
        *self
    }
}

/// Model of the non-fungible registry at its interface: one record per
/// minted token.
pub struct RegistryState {
    pub tokens: Vec<(TokenIdentifier, TokenRecord)>,
}

impl View for RegistryState {
    type V = Map<TokenIdentifierView, TokenRecord>;

    open spec fn view(&self) -> Map<TokenIdentifierView, TokenRecord> {
        kv_map(self.tokens@)
    }
}

impl RegistryState {
    pub open spec fn wf(&self) -> bool {
        kv_unique(self.tokens@)
    }

    /// An empty registry.
    pub fn new() -> (r: RegistryState)
        ensures
            r.wf(),
            r@ =~= Map::<TokenIdentifierView, TokenRecord>::empty(),
    {
        RegistryState { tokens: Vec::new() }
    }

    /// The record of a token, if it was minted.
    pub fn record(&self, token_id: &TokenIdentifier) -> (r: Option<TokenRecord>)
        requires
            self.wf(),
        ensures
            match r {
                Some(rec) => self@.contains_key(token_id@) && self@[token_id@] == rec,
                None => !self@.contains_key(token_id@),
            },
    {
        match token_get(&self.tokens, token_id) {
            Some(rec) => Some(*rec),
            None => None,
        }
    }

    /// Mint or overwrite a token record with a fresh owner and no
    /// approval.
    pub fn mint(&mut self, token_id: &TokenIdentifier, owner: Key)
        requires
            old(self).wf(),
        ensures
            final(self).wf(),
            final(self)@ =~= old(self)@.insert(
                token_id@,
                TokenRecord { owner, approved: None },
            ),
    {
        token_insert(&mut self.tokens, token_id, TokenRecord { owner, approved: None });
    }

    /// Set or clear the approved operator of a minted token.
    pub fn approve(&mut self, token_id: &TokenIdentifier, operator: Option<Key>) -> (r: Result<
        (),
        MarketError,
    >)
        requires
            old(self).wf(),
        ensures
            final(self).wf(),
            match r {
                Ok(()) => old(self)@.contains_key(token_id@) && final(self)@ =~= old(self)@.insert(
                    token_id@,
                    TokenRecord { owner: old(self)@[token_id@].owner, approved: operator },
                ),
                Err(e) => e == MarketError::UnknownTokenId && !old(self)@.contains_key(token_id@)
                    && final(self)@ == old(self)@,
            },
    {
        let rec = match token_get(&self.tokens, token_id) {
            Some(rec) => *rec,
            None => {
                return Err(MarketError::UnknownTokenId);
            },
        };
        token_insert(
            &mut self.tokens,
            token_id,
            TokenRecord { owner: rec.owner, approved: operator },
        );
        Ok(())
    }

    /// Move a minted token to a new holder, clearing its approval.
    /// The transfer filter, where one is configured, is consulted by
    /// the caller before this record change.
    pub fn transfer(&mut self, token_id: &TokenIdentifier, target: Key) -> (r: Result<
        (),
        MarketError,
    >)
        requires
            old(self).wf(),
        ensures
            final(self).wf(),
            match r {
                Ok(()) => old(self)@.contains_key(token_id@) && final(self)@ =~= old(self)@.insert(
                    token_id@,
                    TokenRecord { owner: target, approved: None },
                ),
                Err(e) => e == MarketError::UnknownTokenId && !old(self)@.contains_key(token_id@)
                    && final(self)@ == old(self)@,
            },
    {
        if token_get(&self.tokens, token_id).is_none() {
            return Err(MarketError::UnknownTokenId);
        }
        token_insert(&mut self.tokens, token_id, TokenRecord { owner: target, approved: None });
        Ok(())
    }
}

/// The mathematical shape of a [`PurseLedger`].
#[verifier::ext_equal]
pub struct PurseLedgerView {
    pub next: u64,
    pub balances: Map<u64, nat>,
}

/// Model of the ledger's purse system: a balance per purse reference,
/// and a supply of fresh references.
pub struct PurseLedger {
    pub next_purse: u64,
    pub balances: Vec<(u64, Amount)>,
}

impl View for PurseLedger {
    type V = PurseLedgerView;

    open spec fn view(&self) -> PurseLedgerView {
        PurseLedgerView { next: self.next_purse, balances: kv_map(self.balances@) }
    }
}

/// Moving `amount` between two purse balances, all-or-nothing.  A
/// transfer into the source purse itself leaves it unchanged.
pub open spec fn purse_transfer_spec(b: Map<u64, nat>, source: u64, target: u64, amount: nat) -> Result<
    Map<u64, nat>,
    LedgerError,
> {
    if !b.contains_key(source) {
        Err(LedgerError::UnknownPurse)
    } else if b[source] < amount {
        Err(LedgerError::InsufficientFunds)
    } else {
        let b1 = b.insert(source, (b[source] - amount) as nat);
        if !b1.contains_key(target) {
            Err(LedgerError::UnknownPurse)
        } else if b1[target] + amount >= amount_limit() {
            Err(LedgerError::BalanceOverflow)
        } else {
            Ok(b1.insert(target, (b1[target] + amount) as nat))
        }
    }
}

impl PurseLedger {
    /// Every purse reference was handed out below `next_purse`.
    pub open spec fn wf(&self) -> bool {
        &&& kv_unique(self.balances@)
        &&& forall|p: u64| #[trigger] self@.balances.contains_key(p) ==> p < self.next_purse
    }

    /// A ledger with no purses.
    pub fn new() -> (r: PurseLedger)
        ensures
            r.wf(),
            r@.next == 0,
            r@.balances =~= Map::<u64, nat>::empty(),
    {
        PurseLedger { next_purse: 0, balances: Vec::new() }
    }

    /// Create an empty purse under a fresh reference.
    pub fn create_purse(&mut self) -> (r: u64)
        requires
            old(self).wf(),
            old(self).next_purse < u64::MAX,
        ensures
            final(self).wf(),
            !old(self)@.balances.contains_key(r),
            r == old(self)@.next,
            final(self)@ =~= (PurseLedgerView {
                next: (old(self)@.next + 1) as u64,
                balances: old(self)@.balances.insert(r, 0),
            }),
    {
        let id = self.next_purse;
        self.next_purse = id + 1;
        u64_insert(&mut self.balances, id, Amount::zero());
        proof {
            assert forall|p: u64| #[trigger]
                self@.balances.contains_key(p) implies p < self.next_purse by {
                if p != id {
                    assert(old(self)@.balances.contains_key(p));
                }
            }
        }
        id
    }

    /// Fund a purse from outside the model (minting motes), for
    /// installation and tests.
    pub fn fund(&mut self, purse: u64, amount: Amount)
        requires
            old(self).wf(),
            purse < old(self).next_purse,
        ensures
            final(self).wf(),
            final(self)@ =~= (PurseLedgerView {
                next: old(self)@.next,
                balances: old(self)@.balances.insert(purse, amount@),
            }),
    {
        u64_insert(&mut self.balances, purse, amount);
        proof {
            assert forall|p: u64| #[trigger]
                self@.balances.contains_key(p) implies p < self.next_purse by {
                if p != purse {
                    assert(old(self)@.balances.contains_key(p));
                }
            }
        }
    }

    /// The balance of a purse, if it exists.
    pub fn balance(&self, purse: u64) -> (r: Option<Amount>)
        requires
            self.wf(),
        ensures
            match r {
                Some(a) => self@.balances.contains_key(purse) && self@.balances[purse] == a@,
                None => !self@.balances.contains_key(purse),
            },
    {
        match u64_get(&self.balances, purse) {
            Some(a) => Some(*a),
            None => None,
        }
    }

    /// Move `amount` from one purse to another, all-or-nothing.
    pub fn transfer(&mut self, source: u64, target: u64, amount: Amount) -> (r: Result<
        (),
        LedgerError,
    >)
        requires
            old(self).wf(),
        ensures
            final(self).wf(),
            final(self)@.next == old(self)@.next,
            match r {
                Ok(()) => purse_transfer_spec(old(self)@.balances, source, target, amount@) == Ok::<
                    _,
                    LedgerError,
                >(final(self)@.balances),
                Err(e) => purse_transfer_spec(old(self)@.balances, source, target, amount@) == Err::<
                    Map<u64, nat>,
                    _,
                >(e) && final(self)@ == old(self)@,
            },
    {
        let source_balance = match u64_get(&self.balances, source) {
            Some(a) => *a,
            None => {
                return Err(LedgerError::UnknownPurse);
            },
        };
        let reduced = match source_balance.checked_sub(&amount) {
            Some(a) => a,
            None => {
                return Err(LedgerError::InsufficientFunds);
            },
        };
        // Read the target balance as it stands after the withdrawal,
        // so that a transfer into the source purse is handled.
        let target_balance: Amount = if target == source {
            reduced
        } else {
            match u64_get(&self.balances, target) {
                Some(a) => *a,
                None => {
                    return Err(LedgerError::UnknownPurse);
                },
            }
        };
        let raised = match target_balance.checked_add(&amount) {
            Some(a) => a,
            None => {
                return Err(LedgerError::BalanceOverflow);
            },
        };
        proof {
            crate::amount::lemma_amount_in_range(raised);
        }
        u64_insert(&mut self.balances, source, reduced);
        u64_insert(&mut self.balances, target, raised);
        proof {
            let b = old(self)@.balances;
            let b1 = b.insert(source, (b[source] - amount@) as nat);
            assert(final(self)@.balances =~= b1.insert(target, (b1[target] + amount@) as nat));
        }
        Ok(())
    }
}

/// One deployment: the two core contracts with the registry and the
/// purses they work against, and the identities under which they call
/// each other.
pub struct World {
    pub marketplace: MarketplaceState,
    pub custodial: CustodialState,
    pub registry: RegistryState,
    pub purses: PurseLedger,
    /// The marketplace's contract package hash (checked against the
    /// custodial layer's whitelist).
    pub marketplace_package: Addr32,
    /// The marketplace's contract hash (the operator sellers approve).
    pub marketplace_contract: Addr32,
    /// The registry's contract package hash (the caller of the
    /// transfer filter).
    pub registry_package: Addr32,
    /// The custodial layer's own royalty purse.
    pub royalty_purse: u64,
}

/// The mathematical shape of a [`World`].
#[verifier::ext_equal]
pub struct WorldView {
    pub mp: MarketplaceStateView,
    pub cust: CustodialStateView,
    pub reg: Map<TokenIdentifierView, TokenRecord>,
    pub purses: PurseLedgerView,
    pub marketplace_package: Addr32,
    pub marketplace_contract: Addr32,
    pub registry_package: Addr32,
    pub royalty_purse: u64,
}

impl View for World {
    type V = WorldView;

    open spec fn view(&self) -> WorldView {
        WorldView {
            mp: self.marketplace@,
            cust: self.custodial@,
            reg: self.registry@,
            purses: self.purses@,
            marketplace_package: self.marketplace_package,
            marketplace_contract: self.marketplace_contract,
            registry_package: self.registry_package,
            royalty_purse: self.royalty_purse,
        }
    }
}

/// The marketplace's own context when it calls the custodial layer.
pub open spec fn marketplace_element(w: WorldView) -> CallStackElement {
    CallStackElement::StoredContract {
        contract_package: w.marketplace_package,
        contract: w.marketplace_contract,
    }
}

impl World {
    pub open spec fn wf(&self) -> bool {
        &&& self.marketplace.wf()
        &&& self.custodial.wf()
        &&& self.registry.wf()
        &&& self.purses.wf()
        &&& self@.purses.balances.contains_key(self.royalty_purse)
    }
}

/// Outcome of [`World::post`].
pub open spec fn world_post_spec(
    w: WorldView,
    caller: Key,
    nft_contract: Addr32,
    token: TokenIdentifierView,
    target_purse: u64,
    price: nat,
) -> Result<(WorldView, u64), MarketError> {
    if !(w.mp.id_by_package.contains_key(nft_contract) && w.mp.nft_meta.contains_key(
        w.mp.id_by_package[nft_contract],
    )) {
        Err(MarketError::UnsupportedNFTContract)
    } else if !w.reg.contains_key(token) {
        // An unminted token has no approval record, so the registry
        // reports no approved operator for it.
        Err(MarketError::MustBeApproved)
    } else {
        match crate::marketplace::post_spec(
            w.mp,
            caller,
            w.marketplace_contract,
            w.reg[token].approved,
            w.reg[token].owner,
            nft_contract,
            token,
            target_purse,
            price,
        ) {
            Ok((mp2, id)) => Ok((WorldView { mp: mp2, ..w }, id)),
            Err(e) => Err(e),
        }
    }
}

/// Outcome of [`World::bid`]: the whole settlement of one bid, or the
/// first failure, after which nothing has changed.
pub open spec fn bid_spec(
    w: WorldView,
    bidder: Key,
    post_id: u64,
    source_purse: u64,
    amount: nat,
) -> Result<WorldView, BidError> {
    if !w.mp.listings.contains_key(post_id) {
        Err(BidError::Market(MarketError::UnknownPostId))
    } else {
        let entry = w.mp.listings[post_id];
        if amount < entry.price {
            Err(BidError::Market(MarketError::InvalidPaymentAmount))
        } else if !w.mp.nft_meta.contains_key(entry.nft_contract_id) {
            Err(BidError::Market(MarketError::UnsupportedNFTContract))
        } else {
            match w.mp.nft_meta[entry.nft_contract_id].custodial_package {
                None => bid_direct_spec(w, bidder, post_id, source_purse, entry),
                Some(_) => bid_royalty_spec(w, bidder, post_id, source_purse, amount, entry),
            }
        }
    }
}

/// The direct settlement: the asking price moves from the bidder's
/// purse to the listing's target purse, and the asset moves to the
/// bidder.
pub open spec fn bid_direct_spec(
    w: WorldView,
    bidder: Key,
    post_id: u64,
    source_purse: u64,
    entry: OrderbookEntryView,
) -> Result<WorldView, BidError> {
    if !w.mp.target_purses.contains_key(post_id) {
        Err(BidError::Market(MarketError::UnknownPostId))
    } else if !w.reg.contains_key(entry.token_id) {
        Err(BidError::Market(MarketError::UnknownTokenId))
    } else {
        match purse_transfer_spec(
            w.purses.balances,
            source_purse,
            w.mp.target_purses[post_id],
            entry.price,
        ) {
            Err(e) => Err(BidError::Ledger(e)),
            Ok(b1) => Ok(
                WorldView {
                    mp: MarketplaceStateView {
                        listings: w.mp.listings.remove(post_id),
                        post_by_token: w.mp.post_by_token.remove(entry.token_id),
                        target_purses: w.mp.target_purses.remove(post_id),
                        ..w.mp
                    },
                    reg: w.reg.insert(entry.token_id, TokenRecord { owner: bidder, approved: None }),
                    purses: PurseLedgerView { next: w.purses.next, balances: b1 },
                    ..w
                },
            ),
        }
    }
}

/// The royalty-enforced settlement over purses: the quoted royalty
/// moves through a fresh purse into the custodial layer's royalty
/// purse, the remainder moves to the listing's target purse, the
/// royalty payment is recorded and at once consumed by the registry's
/// transfer filter, and the asset moves to the bidder.
pub open spec fn bid_royalty_spec(
    w: WorldView,
    bidder: Key,
    post_id: u64,
    source_purse: u64,
    amount: nat,
    entry: OrderbookEntryView,
) -> Result<WorldView, BidError> {
    match total_royalty_spec(w.cust.structure, entry.price) {
        None => Err(BidError::Custodial(CustodialError::Overflow)),
        Some(royalty) => if amount < royalty {
            Err(BidError::Market(MarketError::ArithmeticOverflow))
        } else if !w.mp.target_purses.contains_key(post_id) {
            Err(BidError::Market(MarketError::UnknownPostId))
        } else {
            let target = w.mp.target_purses[post_id];
            let tmp = w.purses.next;
            let b0 = w.purses.balances.insert(tmp, 0);
            match purse_transfer_spec(b0, source_purse, tmp, royalty) {
                Err(e) => Err(BidError::Ledger(e)),
                Ok(b1) => match purse_transfer_spec(b1, source_purse, target, (amount - royalty) as nat) {
                    Err(e) => Err(BidError::Ledger(e)),
                    Ok(b2) => match purse_transfer_spec(b2, tmp, w.royalty_purse, royalty) {
                        Err(e) => Err(BidError::Ledger(e)),
                        Ok(b3) => if !w.reg.contains_key(entry.token_id) {
                            Err(BidError::Custodial(CustodialError::CallerMustBeApproved))
                        } else {
                            match pay_royalty_spec(
                                w.cust,
                                marketplace_element(w),
                                w.reg[entry.token_id].approved,
                                w.reg[entry.token_id].owner,
                                entry.token_id,
                                bidder,
                                entry.owner,
                                bidder,
                                entry.price,
                            ) {
                                Err(e) => Err(BidError::Custodial(e)),
                                Ok((cust2, _)) => Ok(
                                    WorldView {
                                        mp: MarketplaceStateView {
                                            listings: w.mp.listings.remove(post_id),
                                            post_by_token: w.mp.post_by_token.remove(entry.token_id),
                                            target_purses: w.mp.target_purses.remove(post_id),
                                            ..w.mp
                                        },
                                        cust: CustodialStateView {
                                            royalty_payments: cust2.royalty_payments.insert(
                                                entry.token_id,
                                                RoyaltyPaymentStateView::Unpaid,
                                            ),
                                            ..cust2
                                        },
                                        reg: w.reg.insert(
                                            entry.token_id,
                                            TokenRecord { owner: bidder, approved: None },
                                        ),
                                        purses: PurseLedgerView {
                                            next: (w.purses.next + 1) as u64,
                                            balances: b3,
                                        },
                                        ..w
                                    },
                                ),
                            }
                        },
                    },
                },
            }
        },
    }
}

/// A bid below the asking price of a live listing always fails with
/// `InvalidPaymentAmount` — and, since a failed bid leaves the world
/// unchanged, it neither mutates the listing nor moves funds.
pub proof fn lemma_bid_below_price_fails(
    w: WorldView,
    bidder: Key,
    post_id: u64,
    source_purse: u64,
    amount: nat,
)
    requires
        w.mp.listings.contains_key(post_id),
        amount < w.mp.listings[post_id].price,
    ensures
        bid_spec(w, bidder, post_id, source_purse, amount) == Err::<WorldView, _>(
            BidError::Market(MarketError::InvalidPaymentAmount),
        ),
{
}

/// At most one bid on a listing ever succeeds: a successful bid
/// removes the listing, and on a world without the listing any bid
/// and any cancel under the same id fail with the unknown-listing
/// error (and change nothing, by the operations' contracts).
pub proof fn lemma_bid_settles_at_most_once(
    w: WorldView,
    bidder: Key,
    post_id: u64,
    source_purse: u64,
    amount: nat,
    w2: WorldView,
)
    requires
        bid_spec(w, bidder, post_id, source_purse, amount) == Ok::<_, BidError>(w2),
    ensures
        !w2.mp.listings.contains_key(post_id),
        forall|bidder2: Key, source2: u64, amount2: nat|
            bid_spec(w2, bidder2, post_id, source2, amount2) == Err::<WorldView, _>(
                BidError::Market(MarketError::UnknownPostId),
            ),
        forall|caller: Key|
            cancel_spec(w2.mp, caller, post_id) == Err::<MarketplaceStateView, _>(
                MarketError::UnknownPostId,
            ),
{
    let entry = w.mp.listings[post_id];
    if w.mp.nft_meta[entry.nft_contract_id].custodial_package is None {
        assert(w2.mp.listings =~= w.mp.listings.remove(post_id));
    } else {
        assert(w2.mp.listings =~= w.mp.listings.remove(post_id));
    }
}

/// How a successful royalty-enforced settlement splits the funds,
/// for distinct bidder, seller and royalty purses: the bidder's purse
/// falls by the full bid, the seller's target purse rises by the bid
/// minus the quoted royalty, the custodial layer's royalty purse
/// rises by exactly that royalty, the escrow purse created for the
/// settlement ends empty, and the bidder owns the asset.
pub proof fn lemma_bid_settlement_balances(
    w: WorldView,
    bidder: Key,
    post_id: u64,
    source_purse: u64,
    amount: nat,
    w2: WorldView,
    target: u64,
    royalty: nat,
)
    requires
        bid_spec(w, bidder, post_id, source_purse, amount) == Ok::<_, BidError>(w2),
        w.mp.nft_meta[w.mp.listings[post_id].nft_contract_id].custodial_package is Some,
        w.mp.target_purses.contains_key(post_id) && w.mp.target_purses[post_id] == target,
        total_royalty_spec(w.cust.structure, w.mp.listings[post_id].price) == Some(royalty),
        forall|p: u64| #[trigger] w.purses.balances.contains_key(p) ==> p < w.purses.next,
        w.purses.balances.contains_key(source_purse),
        w.purses.balances.contains_key(target),
        w.purses.balances.contains_key(w.royalty_purse),
        source_purse != target,
        source_purse != w.royalty_purse,
        target != w.royalty_purse,
    ensures
        w2.purses.balances[source_purse] == w.purses.balances[source_purse] - amount,
        w2.purses.balances[target] == w.purses.balances[target] + (amount - royalty),
        w2.purses.balances[w.royalty_purse] == w.purses.balances[w.royalty_purse] + royalty,
        w2.purses.balances[w.purses.next] == 0,
        w2.reg[w.mp.listings[post_id].token_id] == (TokenRecord { owner: bidder, approved: None }),
{
    let entry = w.mp.listings[post_id];
    let tmp = w.purses.next;
    let b = w.purses.balances;
    let b0 = b.insert(tmp, 0);
    let b1 = purse_transfer_spec(b0, source_purse, tmp, royalty)->Ok_0;
    let b2 = purse_transfer_spec(b1, source_purse, target, (amount - royalty) as nat)->Ok_0;
    // The three purses existed before the call, so none of them is
    // the fresh escrow purse.
    assert(source_purse != tmp && target != tmp && w.royalty_purse != tmp);
    assert(b1 == b0.insert(source_purse, (b0[source_purse] - royalty) as nat).insert(
        tmp,
        royalty,
    ));
    assert(b2[source_purse] == b[source_purse] - amount);
    assert(b2[target] == b[target] + (amount - royalty));
    assert(b2[tmp] == royalty);
    assert(b2[w.royalty_purse] == b[w.royalty_purse]);
}

/// A by-value copy of a purse table, for restoring it when a later
/// step of the same call fails: the ledger reverts the whole call.
fn copy_balances(v: &Vec<(u64, Amount)>) -> (r: Vec<(u64, Amount)>)
    ensures
        r@ == v@,
{
    let mut r: Vec<(u64, Amount)> = Vec::new();
    let mut i: usize = 0;
    while i < v.len()
        invariant
            i <= v@.len(),
            r@ =~= v@.subrange(0, i as int),
        decreases v@.len() - i,
    {
        r.push(v[i]);
        i = i + 1;
    }
    proof {
        assert(r@ =~= v@);
    }
    r
}

impl World {
    /// Deploy a fresh instance of the protocol: an installed
    /// marketplace, a custodial layer with the given manager, royalty
    /// structure and whitelists, an empty registry, and a purse
    /// ledger holding only the custodial layer's royalty purse.
    pub fn new(
        manager: Key,
        royalty_structure: crate::royalty::RoyaltyStructure,
        whitelisted_marketplaces: Vec<Addr32>,
        whitelisted_payment_tokens: Vec<Addr32>,
        marketplace_package: Addr32,
        marketplace_contract: Addr32,
        registry_package: Addr32,
    ) -> (r: World)
        ensures
            r.wf(),
            r@.cust.manager == manager,
            r@.cust.structure == royalty_structure@,
            r@.cust.marketplace_whitelist_enabled == (whitelisted_marketplaces@.len() > 0),
            forall|a: Addr32| #[trigger]
                crate::custodial::spec_is_marketplace_whitelisted(r@.cust, a)
                    <==> whitelisted_marketplaces@.contains(a),
            r@.cust.royalty_payments =~= Map::<
                TokenIdentifierView,
                RoyaltyPaymentStateView,
            >::empty(),
            r@.cust.holdings =~= Map::<TokenIdentifierView, crate::custodial::Holding>::empty(),
            r@.mp.listings =~= Map::<u64, OrderbookEntryView>::empty(),
            r@.mp.post_by_token =~= Map::<TokenIdentifierView, u64>::empty(),
            r@.mp.counters.post_id == 0,
            r@.mp.counters.nft_contract_id == 0,
            r@.reg =~= Map::<TokenIdentifierView, TokenRecord>::empty(),
            r@.royalty_purse == 0,
            r@.purses.next == 1,
            r@.purses.balances =~= Map::<u64, nat>::empty().insert(r@.royalty_purse, 0),
            r@.marketplace_package == marketplace_package,
            r@.marketplace_contract == marketplace_contract,
            r@.registry_package == registry_package,
    {
        let marketplace = MarketplaceState::install();
        let custodial = CustodialState::init(
            manager,
            royalty_structure,
            whitelisted_marketplaces,
            whitelisted_payment_tokens,
        );
        let registry = RegistryState::new();
        let mut purses = PurseLedger::new();
        let royalty_purse = purses.create_purse();
        World {
            marketplace,
            custodial,
            registry,
            purses,
            marketplace_package,
            marketplace_contract,
            registry_package,
            royalty_purse,
        }
    }

    /// Post a listing: the seller must own the asset in the registry
    /// and must have approved the marketplace contract for it.
    pub fn post(
        &mut self,
        caller: Key,
        nft_contract: Addr32,
        token_id: &TokenIdentifier,
        target_purse: u64,
        price: Amount,
    ) -> (r: Result<u64, MarketError>)
        requires
            old(self).wf(),
            old(self).marketplace.counters.post_id < u64::MAX,
        ensures
            final(self).wf(),
            match r {
                Ok(id) => world_post_spec(
                    old(self)@,
                    caller,
                    nft_contract,
                    token_id@,
                    target_purse,
                    price@,
                ) == Ok::<_, MarketError>((final(self)@, id)),
                Err(e) => world_post_spec(
                    old(self)@,
                    caller,
                    nft_contract,
                    token_id@,
                    target_purse,
                    price@,
                ) == Err::<(WorldView, u64), _>(e) && final(self)@ == old(self)@,
            },
    {
        if !self.marketplace.is_registered(nft_contract) {
            return Err(MarketError::UnsupportedNFTContract);
        }
        let rec = match self.registry.record(token_id) {
            Some(rec) => rec,
            None => {
                return Err(MarketError::MustBeApproved);
            },
        };
        let this_contract = self.marketplace_contract;
        let r = self.marketplace.post(
            caller,
            this_contract,
            rec.approved,
            rec.owner,
            nft_contract,
            token_id,
            target_purse,
            price,
        );
        proof {
            if r is Ok {
                assert(final(self)@ =~= (WorldView { mp: final(self).marketplace@, ..old(self)@ }));
            } else {
                assert(final(self)@ =~= old(self)@);
            }
        }
        r
    }

    /// Cancel a listing: only the seller may, and nothing moves.
    pub fn cancel(&mut self, caller: Key, post_id: u64) -> (r: Result<(), MarketError>)
        requires
            old(self).wf(),
        ensures
            final(self).wf(),
            match r {
                Ok(()) => cancel_spec(old(self)@.mp, caller, post_id) == Ok::<_, MarketError>(
                    final(self)@.mp,
                ) && final(self)@ == (WorldView { mp: final(self)@.mp, ..old(self)@ }),
                Err(e) => cancel_spec(old(self)@.mp, caller, post_id) == Err::<
                    MarketplaceStateView,
                    _,
                >(e) && final(self)@ == old(self)@,
            },
    {
        let r = self.marketplace.cancel(caller, post_id);
        proof {
            if r is Ok {
                assert(final(self)@ =~= (WorldView { mp: final(self).marketplace@, ..old(self)@ }));
            } else {
                assert(final(self)@ =~= old(self)@);
            }
        }
        r
    }

    /// Settle a bid on a listing.  The bid fails below the asking
    /// price; settlement is direct or royalty-enforced according to
    /// the listing's registry registration.  On failure the world is
    /// exactly as before the call.
    pub fn bid(&mut self, bidder: Key, post_id: u64, source_purse: u64, amount: Amount) -> (r:
        Result<(), BidError>)
        requires
            old(self).wf(),
            old(self).purses.next_purse < u64::MAX,
        ensures
            final(self).wf(),
            match r {
                Ok(()) => bid_spec(old(self)@, bidder, post_id, source_purse, amount@) == Ok::<
                    _,
                    BidError,
                >(final(self)@),
                Err(e) => bid_spec(old(self)@, bidder, post_id, source_purse, amount@) == Err::<
                    WorldView,
                    _,
                >(e) && final(self)@ == old(self)@,
            },
    {
        let entry = match self.marketplace.orderbook_entry_by_id(post_id) {
            Ok(e) => e,
            Err(e) => {
                return Err(BidError::Market(e));
            },
        };
        if amount.lt(&entry.price) {
            return Err(BidError::Market(MarketError::InvalidPaymentAmount));
        }
        let meta = match self.marketplace.nft_contract_by_id(entry.nft_contract_id) {
            Ok(m) => m,
            Err(e) => {
                return Err(BidError::Market(e));
            },
        };
        match meta.custodial_package {
            None => self.bid_direct(bidder, post_id, source_purse, entry),
            Some(_) => self.bid_royalty(bidder, post_id, source_purse, amount, entry),
        }
    }

    /// The direct settlement path of [`World::bid`].
    fn bid_direct(
        &mut self,
        bidder: Key,
        post_id: u64,
        source_purse: u64,
        entry: crate::marketplace::OrderbookEntry,
    ) -> (r: Result<(), BidError>)
        requires
            old(self).wf(),
            old(self)@.mp.listings.contains_key(post_id),
            old(self)@.mp.listings[post_id] == entry@,
        ensures
            final(self).wf(),
            match r {
                Ok(()) => bid_direct_spec(old(self)@, bidder, post_id, source_purse, entry@) == Ok::<
                    _,
                    BidError,
                >(final(self)@),
                Err(e) => bid_direct_spec(old(self)@, bidder, post_id, source_purse, entry@)
                    == Err::<WorldView, _>(e) && final(self)@ == old(self)@,
            },
    {
        let target = match self.marketplace.target_purse_by_post_id(post_id) {
            Some(t) => t,
            None => {
                return Err(BidError::Market(MarketError::UnknownPostId));
            },
        };
        if self.registry.record(&entry.token_id).is_none() {
            return Err(BidError::Market(MarketError::UnknownTokenId));
        }
        match self.purses.transfer(source_purse, target, entry.price) {
            Ok(()) => (),
            Err(e) => {
                return Err(BidError::Ledger(e));
            },
        }
        let transferred = self.registry.transfer(&entry.token_id, bidder);
        proof {
            assert(transferred is Ok);
        }
        self.marketplace.set_post_id_by_token_id(&entry.token_id, None);
        self.marketplace.unset_target_purse_by_post_id(post_id);
        self.marketplace.remove_listing(post_id);
        proof {
            assert(final(self)@ =~= bid_direct_spec(
                old(self)@,
                bidder,
                post_id,
                source_purse,
                entry@,
            )->Ok_0);
        }
        Ok(())
    }

    /// The royalty-enforced settlement path of [`World::bid`].
    fn bid_royalty(
        &mut self,
        bidder: Key,
        post_id: u64,
        source_purse: u64,
        amount: Amount,
        entry: crate::marketplace::OrderbookEntry,
    ) -> (r: Result<(), BidError>)
        requires
            old(self).wf(),
            old(self).purses.next_purse < u64::MAX,
            old(self)@.mp.listings.contains_key(post_id),
            old(self)@.mp.listings[post_id] == entry@,
            amount@ >= entry@.price,
        ensures
            final(self).wf(),
            match r {
                Ok(()) => bid_royalty_spec(
                    old(self)@,
                    bidder,
                    post_id,
                    source_purse,
                    amount@,
                    entry@,
                ) == Ok::<_, BidError>(final(self)@),
                Err(e) => bid_royalty_spec(
                    old(self)@,
                    bidder,
                    post_id,
                    source_purse,
                    amount@,
                    entry@,
                ) == Err::<WorldView, _>(e) && final(self)@ == old(self)@,
            },
    {
        let royalty = match self.custodial.calculate_royalty_inner(&entry.token_id, entry.price) {
            Ok(a) => a,
            Err(e) => {
                return Err(BidError::Custodial(e));
            },
        };
        let remaining = match amount.checked_sub(&royalty) {
            Some(a) => a,
            None => {
                return Err(BidError::Market(MarketError::ArithmeticOverflow));
            },
        };
        let target = match self.marketplace.target_purse_by_post_id(post_id) {
            Some(t) => t,
            None => {
                return Err(BidError::Market(MarketError::UnknownPostId));
            },
        };
        // The whole purse state is snapshotted: a failure after this
        // point reverts the call, purse movements included.
        let saved_balances = copy_balances(&self.purses.balances);
        let saved_next = self.purses.next_purse;
        let royalty_purse = self.purses.create_purse();
        match self.purses.transfer(source_purse, royalty_purse, royalty) {
            Ok(()) => (),
            Err(e) => {
                self.purses.balances = saved_balances;
                self.purses.next_purse = saved_next;
                proof {
                    assert(final(self)@ =~= old(self)@);
                }
                return Err(BidError::Ledger(e));
            },
        }
        match self.purses.transfer(source_purse, target, remaining) {
            Ok(()) => (),
            Err(e) => {
                self.purses.balances = saved_balances;
                self.purses.next_purse = saved_next;
                proof {
                    assert(final(self)@ =~= old(self)@);
                }
                return Err(BidError::Ledger(e));
            },
        }
        let own_royalty_purse = self.royalty_purse;
        match self.purses.transfer(royalty_purse, own_royalty_purse, royalty) {
            Ok(()) => (),
            Err(e) => {
                self.purses.balances = saved_balances;
                self.purses.next_purse = saved_next;
                proof {
                    assert(final(self)@ =~= old(self)@);
                }
                return Err(BidError::Ledger(e));
            },
        }
        let rec = match self.registry.record(&entry.token_id) {
            Some(rec) => rec,
            None => {
                self.purses.balances = saved_balances;
                self.purses.next_purse = saved_next;
                proof {
                    assert(final(self)@ =~= old(self)@);
                }
                return Err(BidError::Custodial(CustodialError::CallerMustBeApproved));
            },
        };
        let caller_element = CallStackElement::StoredContract {
            contract_package: self.marketplace_package,
            contract: self.marketplace_contract,
        };
        match self.custodial.pay_royalty(
            &caller_element,
            rec.approved,
            rec.owner,
            &entry.token_id,
            bidder,
            entry.owner,
            bidder,
            entry.price,
        ) {
            Ok(_) => (),
            Err(e) => {
                self.purses.balances = saved_balances;
                self.purses.next_purse = saved_next;
                proof {
                    assert(final(self)@ =~= old(self)@);
                }
                return Err(BidError::Custodial(e));
            },
        }
        // The registry consults the transfer filter before it moves
        // the asset; with the payment just recorded for this very
        // source and owner, the filter provably proceeds.
        let registry_caller = Some(self.registry_package);
        let verdict = self.custodial.can_transfer(
            registry_caller,
            rec.owner,
            &entry.token_id,
            entry.owner,
            bidder,
        );
        proof {
            assert(verdict == Ok::<u8, CustodialError>(1u8));
        }
        let transferred = self.registry.transfer(&entry.token_id, bidder);
        proof {
            assert(transferred is Ok);
        }
        self.marketplace.set_post_id_by_token_id(&entry.token_id, None);
        self.marketplace.unset_target_purse_by_post_id(post_id);
        self.marketplace.remove_listing(post_id);
        proof {
            assert(final(self)@ =~= bid_royalty_spec(
                old(self)@,
                bidder,
                post_id,
                source_purse,
                amount@,
                entry@,
            )->Ok_0);
        }
        Ok(())
    }
}

} // verus!
