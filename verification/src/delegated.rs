//! The delegate-authorization settlement: the asset never leaves the
//! custodial wrapper; the marketplace holds a one-time transfer
//! delegation, the quote currency is a fungible token, and the
//! marketplace defends itself against the custodial layer with a
//! balance-delta check around the delegated transfer.

use vstd::prelude::*;
use crate::amount::{amount_limit, Amount};
use crate::custodial::{transfer_spec, CustodialState, CustodialStateView, Holding};
use crate::error::{CustodialError, MarketError};
use crate::ids::{Addr32, Key};
use crate::kv::{key_get, key_insert, kv_map, kv_unique};
use crate::marketplace::{verify_royalty_delta, MarketplaceState, MarketplaceStateView};
use crate::royalty::total_royalty_spec;
use crate::token::TokenIdentifier;
use crate::world::{BidError, LedgerError};

verus! {

/// The balance an account holds in a fungible-token ledger; absence
/// means zero.
pub open spec fn fungible_balance(b: Map<Key, nat>, who: Key) -> nat {
    if b.contains_key(who) {
        b[who]
    } else {
        0
    }
}

/// Moving `amount` between two fungible balances, all-or-nothing.
pub open spec fn fungible_transfer_spec(b: Map<Key, nat>, from: Key, to: Key, amount: nat) -> Result<
    Map<Key, nat>,
    LedgerError,
> {
    if fungible_balance(b, from) < amount {
        Err(LedgerError::InsufficientFunds)
    } else {
        let b1 = b.insert(from, (fungible_balance(b, from) - amount) as nat);
        if fungible_balance(b1, to) + amount >= amount_limit() {
            Err(LedgerError::BalanceOverflow)
        } else {
            Ok(b1.insert(to, (fungible_balance(b1, to) + amount) as nat))
        }
    }
}

/// Model of the fungible quote currency at its interface: a balance
/// per account key.
pub struct FungibleLedger {
    pub balances: Vec<(Key, Amount)>,
}

impl View for FungibleLedger {
    type V = Map<Key, nat>;

    open spec fn view(&self) -> Map<Key, nat> {
        kv_map(self.balances@)
    }
}

impl FungibleLedger {
    pub open spec fn wf(&self) -> bool {
        kv_unique(self.balances@)
    }

    /// A ledger with no balances.
    pub fn new() -> (r: FungibleLedger)
        ensures
            r.wf(),
            r@ =~= Map::<Key, nat>::empty(),
    {
        FungibleLedger { balances: Vec::new() }
    }

    /// Set an account's balance from outside the model (minting), for
    /// installation and tests.
    pub fn fund(&mut self, who: Key, amount: Amount)
        requires
            old(self).wf(),
        ensures
            final(self).wf(),
            final(self)@ =~= old(self)@.insert(who, amount@),
    {
        key_insert(&mut self.balances, who, amount);
    }

    /// The balance an account holds; absence means zero.
    pub fn balance_of(&self, who: Key) -> (r: Amount)
        requires
            self.wf(),
        ensures
            r@ == fungible_balance(self@, who),
    {
        match key_get(&self.balances, who) {
            Some(a) => *a,
            None => Amount::zero(),
        }
    }

    /// Move `amount` between two accounts, all-or-nothing.
    pub fn transfer(&mut self, from: Key, to: Key, amount: Amount) -> (r: Result<(), LedgerError>)
        requires
            old(self).wf(),
        ensures
            final(self).wf(),
            match r {
                Ok(()) => fungible_transfer_spec(old(self)@, from, to, amount@) == Ok::<
                    _,
                    LedgerError,
                >(final(self)@),
                Err(e) => fungible_transfer_spec(old(self)@, from, to, amount@) == Err::<
                    Map<Key, nat>,
                    _,
                >(e) && final(self)@ == old(self)@,
            },
    {
        let from_balance = self.balance_of(from);
        let reduced = match from_balance.checked_sub(&amount) {
            Some(a) => a,
            None => {
                return Err(LedgerError::InsufficientFunds);
            },
        };
        let to_balance: Amount = if to == from {
            reduced
        } else {
            self.balance_of(to)
        };
        let raised = match to_balance.checked_add(&amount) {
            Some(a) => a,
            None => {
                return Err(LedgerError::BalanceOverflow);
            },
        };
        proof {
            crate::amount::lemma_amount_in_range(raised);
        }
        key_insert(&mut self.balances, from, reduced);
        key_insert(&mut self.balances, to, raised);
        proof {
            let b = old(self)@;
            let b1 = b.insert(from, (fungible_balance(b, from) - amount@) as nat);
            assert(final(self)@ =~= b1.insert(to, (fungible_balance(b1, to) + amount@) as nat));
        }
        Ok(())
    }
}

/// Outcome of [`settle_delegated`]: the marketplace, custodial and
/// quote-currency states after one royalty-enforced settlement, or the
/// first failure.
pub open spec fn settle_delegated_spec(
    mp: MarketplaceStateView,
    cust: CustodialStateView,
    quote: Map<Key, nat>,
    marketplace_package: Addr32,
    quote_package: Addr32,
    bidder: Key,
    post_id: u64,
    amount: nat,
) -> Result<(MarketplaceStateView, CustodialStateView, Map<Key, nat>), BidError> {
    if !mp.listings.contains_key(post_id) {
        Err(BidError::Market(MarketError::UnknownPostId))
    } else {
        let entry = mp.listings[post_id];
        let marketplace_key = Key::Hash(marketplace_package);
        if amount < entry.price {
            Err(BidError::Market(MarketError::InvalidPaymentAmount))
        } else {
            match total_royalty_spec(cust.structure, entry.price) {
                None => Err(BidError::Custodial(CustodialError::Overflow)),
                Some(quoted) => if amount < quoted {
                    Err(BidError::Market(MarketError::ArithmeticOverflow))
                } else {
                    match fungible_transfer_spec(quote, bidder, marketplace_key, amount) {
                        Err(e) => Err(BidError::Ledger(e)),
                        Ok(q1) => match transfer_spec(
                            cust,
                            Some(marketplace_package),
                            entry.token_id,
                            bidder,
                            quote_package,
                            entry.price,
                        ) {
                            Err(e) => Err(BidError::Custodial(e)),
                            Ok((cust2, royalty)) => match fungible_transfer_spec(
                                q1,
                                marketplace_key,
                                cust.manager,
                                royalty,
                            ) {
                                Err(e) => Err(BidError::Ledger(e)),
                                Ok(q2) => if fungible_balance(q2, marketplace_key) + quoted
                                    != fungible_balance(q1, marketplace_key) {
                                    Err(BidError::Market(MarketError::RoyaltyMismatch))
                                } else {
                                    match fungible_transfer_spec(
                                        q2,
                                        marketplace_key,
                                        entry.owner,
                                        (amount - quoted) as nat,
                                    ) {
                                        Err(e) => Err(BidError::Ledger(e)),
                                        Ok(q3) => Ok(
                                            (
                                                MarketplaceStateView {
                                                    listings: mp.listings.remove(post_id),
                                                    post_by_token: mp.post_by_token.remove(
                                                        entry.token_id,
                                                    ),
                                                    ..mp
                                                },
                                                cust2,
                                                q3,
                                            ),
                                        ),
                                    }
                                },
                            },
                        },
                    }
                },
            }
        }
    }
}

/// A by-value copy of a fungible balance table.
fn copy_fungible_balances(v: &Vec<(Key, Amount)>) -> (r: Vec<(Key, Amount)>)
    ensures
        r@ == v@,
{
    let mut r: Vec<(Key, Amount)> = Vec::new();
    let mut i: usize = 0;
    while i < v.len()
        invariant
            i <= v@.len(),
            r@ =~= v@.subrange(0, i as int),
        decreases v@.len() - i,
    {
        r.push(v[i]);
        i = i + 1;
    }
    proof {
        assert(r@ =~= v@);
    }
    r
}

/// A by-value copy of a custodial holdings table.
fn copy_holdings(v: &Vec<(TokenIdentifier, Holding)>) -> (r: Vec<(TokenIdentifier, Holding)>)
    ensures
        r@ == v@,
{
    let mut r: Vec<(TokenIdentifier, Holding)> = Vec::new();
    let mut i: usize = 0;
    while i < v.len()
        invariant
            i <= v@.len(),
            r@ =~= v@.subrange(0, i as int),
        decreases v@.len() - i,
    {
        let pair = (v[i].0.duplicate(), v[i].1);
        proof {
            assert(pair == v@[i as int]);
        }
        r.push(pair);
        i = i + 1;
    }
    proof {
        assert(r@ =~= v@);
    }
    r
}

/// Settle a bid in the delegate-authorization design: the bid is
/// escrowed into the marketplace's own balance, exactly the quoted
/// royalty is expected to leave it through the custodial layer's
/// delegated transfer, the marketplace's balance delta is checked
/// against the quote, and the remainder goes to the seller.  On any
/// failure — the delta check included — every state is exactly as
/// before the call.
pub fn settle_delegated(
    mp: &mut MarketplaceState,
    cust: &mut CustodialState,
    quote: &mut FungibleLedger,
    marketplace_package: Addr32,
    quote_package: Addr32,
    bidder: Key,
    post_id: u64,
    amount: Amount,
) -> (r: Result<(), BidError>)
    requires
        old(mp).wf(),
        old(cust).wf(),
        old(quote).wf(),
    ensures
        final(mp).wf(),
        final(cust).wf(),
        final(quote).wf(),
        match r {
            Ok(()) => settle_delegated_spec(
                old(mp)@,
                old(cust)@,
                old(quote)@,
                marketplace_package,
                quote_package,
                bidder,
                post_id,
                amount@,
            ) == Ok::<_, BidError>((final(mp)@, final(cust)@, final(quote)@)),
            Err(e) => settle_delegated_spec(
                old(mp)@,
                old(cust)@,
                old(quote)@,
                marketplace_package,
                quote_package,
                bidder,
                post_id,
                amount@,
            ) == Err::<(MarketplaceStateView, CustodialStateView, Map<Key, nat>), _>(e)
                && final(mp)@ == old(mp)@ && final(cust)@ == old(cust)@
                && final(quote)@ == old(quote)@,
        },
{
    let entry = match mp.orderbook_entry_by_id(post_id) {
        Ok(e) => e,
        Err(e) => {
            return Err(BidError::Market(e));
        },
    };
    let marketplace_key = Key::Hash(marketplace_package);
    if amount.lt(&entry.price) {
        return Err(BidError::Market(MarketError::InvalidPaymentAmount));
    }
    let quoted = match cust.calculate_royalty_inner(&entry.token_id, entry.price) {
        Ok(a) => a,
        Err(e) => {
            return Err(BidError::Custodial(e));
        },
    };
    let remaining = match amount.checked_sub(&quoted) {
        Some(a) => a,
        None => {
            return Err(BidError::Market(MarketError::ArithmeticOverflow));
        },
    };
    let manager = cust.manager;
    // Snapshots to restore on a failure after funds started moving:
    // the ledger reverts the whole call.
    let saved_quote = copy_fungible_balances(&quote.balances);
    let saved_holdings = copy_holdings(&cust.holdings);
    match quote.transfer(bidder, marketplace_key, amount) {
        Ok(()) => (),
        Err(e) => {
            return Err(BidError::Ledger(e));
        },
    }
    let balance_before = quote.balance_of(marketplace_key);
    let royalty = match cust.transfer(
        Some(marketplace_package),
        &entry.token_id,
        bidder,
        quote_package,
        entry.price,
    ) {
        Ok(a) => a,
        Err(e) => {
            quote.balances = saved_quote;
            proof {
                assert(final(quote)@ =~= old(quote)@);
            }
            return Err(BidError::Custodial(e));
        },
    };
    match quote.transfer(marketplace_key, manager, royalty) {
        Ok(()) => (),
        Err(e) => {
            quote.balances = saved_quote;
            cust.holdings = saved_holdings;
            proof {
                assert(final(quote)@ =~= old(quote)@);
                assert(final(cust)@ =~= old(cust)@);
            }
            return Err(BidError::Ledger(e));
        },
    }
    let balance_after = quote.balance_of(marketplace_key);
    match verify_royalty_delta(quoted, balance_before, balance_after) {
        Ok(()) => (),
        Err(_) => {
            quote.balances = saved_quote;
            cust.holdings = saved_holdings;
            proof {
                assert(final(quote)@ =~= old(quote)@);
                assert(final(cust)@ =~= old(cust)@);
            }
            return Err(BidError::Market(MarketError::RoyaltyMismatch));
        },
    }
    match quote.transfer(marketplace_key, entry.owner, remaining) {
        Ok(()) => (),
        Err(e) => {
            quote.balances = saved_quote;
            cust.holdings = saved_holdings;
            proof {
                assert(final(quote)@ =~= old(quote)@);
                assert(final(cust)@ =~= old(cust)@);
            }
            return Err(BidError::Ledger(e));
        },
    }
    mp.set_post_id_by_token_id(&entry.token_id, None);
    mp.remove_listing(post_id);
    proof {
        assert(final(mp)@ =~= (MarketplaceStateView {
            listings: old(mp)@.listings.remove(post_id),
            post_by_token: old(mp)@.post_by_token.remove(old(mp)@.listings[post_id].token_id),
            ..old(mp)@
        }));
    }
    Ok(())
}

/// Revoke a delegation with the delegate's consent: the custodial
/// layer asks the delegate marketplace through its undelegation
/// callback, which approves exactly when the asset has no active
/// listing.
pub fn undelegate(
    cust: &mut CustodialState,
    marketplace: &MarketplaceState,
    caller: Key,
    token_id: &TokenIdentifier,
) -> (r: Result<(), CustodialError>)
    requires
        old(cust).wf(),
        marketplace.wf(),
    ensures
        final(cust).wf(),
        match r {
            Ok(()) => crate::custodial::set_delegate_spec(
                old(cust)@,
                caller,
                token_id@,
                None,
                !marketplace@.post_by_token.contains_key(token_id@),
            ) == Ok::<_, CustodialError>(final(cust)@),
            Err(e) => crate::custodial::set_delegate_spec(
                old(cust)@,
                caller,
                token_id@,
                None,
                !marketplace@.post_by_token.contains_key(token_id@),
            ) == Err::<CustodialStateView, _>(e) && final(cust)@ == old(cust)@,
        },
{
    let approved = marketplace.request_undelegate(token_id, caller);
    cust.set_delegate(caller, token_id, None, approved)
}

} // verus!
