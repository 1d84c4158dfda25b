use cep82::amount::Amount;
use cep82::custodial::CustodialState;
use cep82::delegated::{settle_delegated, undelegate, FungibleLedger};
use cep82::error::{CustodialError, MarketError};
use cep82::ids::{Addr32, Key};
use cep82::marketplace::{verify_royalty_delta, MarketplaceState};
use cep82::royalty::{RoyaltyStep, RoyaltyStructure};
use cep82::token::TokenIdentifier;
use cep82::world::BidError;

fn addr(n: u64) -> Addr32 {
    Addr32 { w0: n, w1: 0, w2: 0, w3: 0 }
}

fn amount(x: u64) -> Amount {
    Amount::from_u64(x)
}

const MARKETPLACE_PACKAGE: u64 = 1;
const MARKETPLACE_CONTRACT: u64 = 2;
const REGISTRY_PACKAGE: u64 = 3;
const QUOTE_PACKAGE: u64 = 6;

struct Setup {
    mp: MarketplaceState,
    cust: CustodialState,
    quote: FungibleLedger,
    manager: Key,
    seller: Key,
    bidder: Key,
    token: TokenIdentifier,
    post_id: u64,
}

/// A listing in the delegate-authorization design: the asset is
/// claimed by its owner's manager, delegated to the marketplace, and
/// listed; the bidder holds quote currency.
fn setup(manager: Key) -> Setup {
    let seller = Key::Account(addr(11));
    let bidder = Key::Account(addr(20));
    let token = TokenIdentifier::Index(7);

    let mut mp = MarketplaceState::install();
    mp.register_cep78_contract(addr(REGISTRY_PACKAGE), Some(addr(4)));
    let mut cust = CustodialState::init(
        manager,
        RoyaltyStructure::new(vec![RoyaltyStep::Flat { amount: amount(100) }]),
        vec![addr(MARKETPLACE_PACKAGE)],
        vec![addr(QUOTE_PACKAGE)],
    );
    cust.claim(manager, &token, seller).unwrap();
    cust.set_delegate(seller, &token, Some(addr(MARKETPLACE_PACKAGE)), false).unwrap();

    let post_id = mp
        .post(
            seller,
            addr(MARKETPLACE_CONTRACT),
            Some(Key::Hash(addr(MARKETPLACE_CONTRACT))),
            seller,
            addr(REGISTRY_PACKAGE),
            &token,
            0,
            amount(1000),
        )
        .unwrap();

    let mut quote = FungibleLedger::new();
    quote.fund(bidder, amount(5000));

    Setup { mp, cust, quote, manager, seller, bidder, token, post_id }
}

#[test]
fn delegated_settlement_pays_royalty_and_remainder() {
    let manager = Key::Account(addr(10));
    let mut s = setup(manager);
    settle_delegated(
        &mut s.mp,
        &mut s.cust,
        &mut s.quote,
        addr(MARKETPLACE_PACKAGE),
        addr(QUOTE_PACKAGE),
        s.bidder,
        s.post_id,
        amount(1200),
    )
    .unwrap();

    // Royalty to the manager, remainder to the seller, the rest stays
    // with the bidder; the marketplace keeps nothing.
    assert!(s.quote.balance_of(manager).eq_value(&amount(100)));
    assert!(s.quote.balance_of(s.seller).eq_value(&amount(1100)));
    assert!(s.quote.balance_of(s.bidder).eq_value(&amount(3800)));
    assert!(s.quote.balance_of(Key::Hash(addr(MARKETPLACE_PACKAGE))).eq_value(&amount(0)));
    // The real owner changed and the delegation was consumed.
    assert_eq!(s.cust.real_owner(&s.token), Some(s.bidder));
    assert_eq!(s.cust.delegate(&s.token), None);
    // The listing is gone.
    assert_eq!(
        s.mp.orderbook_entry_by_id(s.post_id).unwrap_err(),
        MarketError::UnknownPostId
    );
}

#[test]
fn delegated_settlement_rejects_underpriced_bids() {
    let manager = Key::Account(addr(10));
    let mut s = setup(manager);
    let r = settle_delegated(
        &mut s.mp,
        &mut s.cust,
        &mut s.quote,
        addr(MARKETPLACE_PACKAGE),
        addr(QUOTE_PACKAGE),
        s.bidder,
        s.post_id,
        amount(900),
    );
    assert_eq!(r.unwrap_err(), BidError::Market(MarketError::InvalidPaymentAmount));
    assert!(s.quote.balance_of(s.bidder).eq_value(&amount(5000)));
    assert_eq!(s.cust.real_owner(&s.token), Some(s.seller));
}

#[test]
fn mismatched_royalty_delta_aborts_the_whole_bid() {
    // The custodial layer's manager is the marketplace's own balance
    // key, so the royalty it pulls flows straight back: the observed
    // balance delta is zero while the quote is 100.  The marketplace's
    // delta check must abort the settlement, and the asset must not
    // change owner.
    let manager = Key::Hash(addr(MARKETPLACE_PACKAGE));
    let mut s = setup(manager);
    let r = settle_delegated(
        &mut s.mp,
        &mut s.cust,
        &mut s.quote,
        addr(MARKETPLACE_PACKAGE),
        addr(QUOTE_PACKAGE),
        s.bidder,
        s.post_id,
        amount(1200),
    );
    assert_eq!(r.unwrap_err(), BidError::Market(MarketError::RoyaltyMismatch));
    // Total rollback: funds, custody and the listing are untouched.
    assert!(s.quote.balance_of(s.bidder).eq_value(&amount(5000)));
    assert!(s.quote.balance_of(s.seller).eq_value(&amount(0)));
    assert_eq!(s.cust.real_owner(&s.token), Some(s.seller));
    assert_eq!(s.cust.delegate(&s.token), Some(addr(MARKETPLACE_PACKAGE)));
    assert!(s.mp.orderbook_entry_by_id(s.post_id).is_ok());
}

#[test]
fn royalty_delta_guard_accepts_exactly_the_quote() {
    assert!(verify_royalty_delta(amount(100), amount(1000), amount(900)).is_ok());
    assert_eq!(
        verify_royalty_delta(amount(100), amount(1000), amount(950)).unwrap_err(),
        MarketError::RoyaltyMismatch
    );
    assert_eq!(
        verify_royalty_delta(amount(100), amount(1000), amount(850)).unwrap_err(),
        MarketError::RoyaltyMismatch
    );
    // A balance that rose cannot match a positive quote.
    assert_eq!(
        verify_royalty_delta(amount(100), amount(900), amount(1000)).unwrap_err(),
        MarketError::RoyaltyMismatch
    );
}

#[test]
fn whitelisted_payment_token_is_required() {
    let manager = Key::Account(addr(10));
    let mut s = setup(manager);
    let r = settle_delegated(
        &mut s.mp,
        &mut s.cust,
        &mut s.quote,
        addr(MARKETPLACE_PACKAGE),
        addr(99),
        s.bidder,
        s.post_id,
        amount(1200),
    );
    assert_eq!(
        r.unwrap_err(),
        BidError::Custodial(CustodialError::PaymentTokenNotWhitelisted)
    );
    assert!(s.quote.balance_of(s.bidder).eq_value(&amount(5000)));
}

#[test]
fn undelegation_is_vetoed_while_a_listing_stands() {
    let manager = Key::Account(addr(10));
    let mut s = setup(manager);
    let r = undelegate(&mut s.cust, &s.mp, s.seller, &s.token);
    assert_eq!(r.unwrap_err(), CustodialError::UndelegationNotAllowed);
    assert_eq!(s.cust.delegate(&s.token), Some(addr(MARKETPLACE_PACKAGE)));

    // Once the listing is cancelled, the marketplace consents.
    s.mp.cancel(s.seller, s.post_id).unwrap();
    undelegate(&mut s.cust, &s.mp, s.seller, &s.token).unwrap();
    assert_eq!(s.cust.delegate(&s.token), None);
}
