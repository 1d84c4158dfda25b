use cep82::amount::Amount;
use cep82::error::MarketError;
use cep82::ids::{Addr32, Key};
use cep82::royalty::{RoyaltyStep, RoyaltyStructure};
use cep82::token::TokenIdentifier;
use cep82::world::{BidError, LedgerError, World};

fn addr(n: u64) -> Addr32 {
    Addr32 { w0: n, w1: 0, w2: 0, w3: 0 }
}

fn amount(x: u64) -> Amount {
    Amount::from_u64(x)
}

fn basic_structure() -> RoyaltyStructure {
    RoyaltyStructure::new(vec![RoyaltyStep::Flat { amount: amount(100) }])
}

/// A deployed world with one registered royalty-managed registry, one
/// minted token approved for the marketplace, and funded purses.
/// Returns the world with the seller's target purse and the bidder's
/// source purse.
fn trading_world(seller: Key, bidder_funds: u64) -> (World, u64, u64) {
    let mut world = World::new(
        Key::Account(addr(10)),
        basic_structure(),
        vec![addr(1)],
        vec![],
        addr(1),
        addr(2),
        addr(3),
    );
    world.marketplace.register_cep78_contract(addr(3), Some(addr(4)));
    let token = TokenIdentifier::Index(7);
    world.registry.mint(&token, seller);
    world.registry.approve(&token, Some(Key::Hash(addr(2)))).unwrap();
    let post_purse = world.purses.create_purse();
    let bid_purse = world.purses.create_purse();
    world.purses.fund(bid_purse, amount(bidder_funds));
    (world, post_purse, bid_purse)
}

#[test]
fn health_test() {
    let mut world = World::new(
        Key::Account(addr(10)),
        basic_structure(),
        vec![],
        vec![],
        addr(1),
        addr(2),
        addr(3),
    );
    let account = Key::Account(addr(42));
    let id1 = TokenIdentifier::Index(1);
    let id2 = TokenIdentifier::Index(2);
    world.registry.mint(&id1, account);
    world.registry.mint(&id2, account);
    let owner1 = world.registry.record(&id1).unwrap().owner;
    let owner2 = world.registry.record(&id2).unwrap().owner;
    assert_eq!(owner1, owner2);
    assert_eq!(owner1, account);
}

#[test]
fn post_and_trade() {
    let manager = Key::Account(addr(10));
    let buyer = Key::Account(addr(20));
    let (mut world, post_purse, bid_purse) = trading_world(manager, 10_000_000);
    let token = TokenIdentifier::Index(7);

    let post_id = world
        .post(manager, addr(3), &token, post_purse, amount(1_000_000))
        .unwrap();
    world.bid(buyer, post_id, bid_purse, amount(1_000_000)).unwrap();

    let owner = world.registry.record(&token).unwrap().owner;
    assert_eq!(owner, buyer);
}

#[test]
fn bid_below_price_fails_and_changes_nothing() {
    let seller = Key::Account(addr(11));
    let bidder = Key::Account(addr(20));
    let (mut world, post_purse, bid_purse) = trading_world(seller, 10_000_000);
    let token = TokenIdentifier::Index(7);

    let post_id = world.post(seller, addr(3), &token, post_purse, amount(1000)).unwrap();
    let r = world.bid(bidder, post_id, bid_purse, amount(900));
    assert_eq!(r.unwrap_err(), BidError::Market(MarketError::InvalidPaymentAmount));

    // The listing is still queryable at its full price and no funds
    // moved.
    let entry = world.marketplace.orderbook_entry_by_id(post_id).unwrap();
    assert!(entry.price.eq_value(&amount(1000)));
    assert_eq!(entry.owner, seller);
    assert!(world.purses.balance(bid_purse).unwrap().eq_value(&amount(10_000_000)));
    assert!(world.purses.balance(post_purse).unwrap().eq_value(&amount(0)));
    assert_eq!(world.registry.record(&token).unwrap().owner, seller);

    // The same bidder then meets the price: the listing settles.
    world.bid(bidder, post_id, bid_purse, amount(1000)).unwrap();
    assert_eq!(world.registry.record(&token).unwrap().owner, bidder);
    assert!(world.purses.balance(post_purse).unwrap().eq_value(&amount(900)));
    assert!(world.purses.balance(world.royalty_purse).unwrap().eq_value(&amount(100)));
    assert!(world.purses.balance(bid_purse).unwrap().eq_value(&amount(9_999_000)));
    assert_eq!(
        world.marketplace.orderbook_entry_by_id(post_id).unwrap_err(),
        MarketError::UnknownPostId
    );
}

#[test]
fn second_bid_and_cancel_fail_after_settlement() {
    let seller = Key::Account(addr(11));
    let bidder = Key::Account(addr(20));
    let other = Key::Account(addr(21));
    let (mut world, post_purse, bid_purse) = trading_world(seller, 5_000);
    let token = TokenIdentifier::Index(7);

    let post_id = world.post(seller, addr(3), &token, post_purse, amount(1000)).unwrap();
    world.bid(bidder, post_id, bid_purse, amount(1000)).unwrap();

    let r = world.bid(other, post_id, bid_purse, amount(2000));
    assert_eq!(r.unwrap_err(), BidError::Market(MarketError::UnknownPostId));
    let r = world.cancel(seller, post_id);
    assert_eq!(r.unwrap_err(), MarketError::UnknownPostId);
}

#[test]
fn cancel_requires_the_seller() {
    let seller = Key::Account(addr(11));
    let stranger = Key::Account(addr(12));
    let (mut world, post_purse, _) = trading_world(seller, 0);
    let token = TokenIdentifier::Index(7);

    let post_id = world.post(seller, addr(3), &token, post_purse, amount(1000)).unwrap();
    let r = world.cancel(stranger, post_id);
    assert_eq!(r.unwrap_err(), MarketError::InvalidMethodAccess);
    // The listing remains.
    assert!(world.marketplace.orderbook_entry_by_id(post_id).is_ok());

    world.cancel(seller, post_id).unwrap();
    assert_eq!(
        world.marketplace.orderbook_entry_by_id(post_id).unwrap_err(),
        MarketError::UnknownPostId
    );
    assert_eq!(world.marketplace.post_id_by_token_id(&token), None);
}

#[test]
fn post_requires_registration_approval_and_ownership() {
    let seller = Key::Account(addr(11));
    let stranger = Key::Account(addr(12));
    let (mut world, post_purse, _) = trading_world(seller, 0);
    let token = TokenIdentifier::Index(7);

    // Unregistered registry reference.
    let r = world.post(seller, addr(99), &token, post_purse, amount(1000));
    assert_eq!(r.unwrap_err(), MarketError::UnsupportedNFTContract);

    // Caller does not own the asset.
    let r = world.post(stranger, addr(3), &token, post_purse, amount(1000));
    assert_eq!(r.unwrap_err(), MarketError::InvalidMethodAccess);

    // Approval missing.
    world.registry.approve(&token, None).unwrap();
    let r = world.post(seller, addr(3), &token, post_purse, amount(1000));
    assert_eq!(r.unwrap_err(), MarketError::MustBeApproved);
}

#[test]
fn insufficient_funds_abort_the_bid() {
    let seller = Key::Account(addr(11));
    let bidder = Key::Account(addr(20));
    let (mut world, post_purse, bid_purse) = trading_world(seller, 500);
    let token = TokenIdentifier::Index(7);

    let post_id = world.post(seller, addr(3), &token, post_purse, amount(1000)).unwrap();
    let r = world.bid(bidder, post_id, bid_purse, amount(1000));
    assert!(matches!(r.unwrap_err(), BidError::Ledger(_)));
    // Nothing moved and the listing is still there.
    assert!(world.purses.balance(bid_purse).unwrap().eq_value(&amount(500)));
    assert!(world.marketplace.orderbook_entry_by_id(post_id).is_ok());
    assert_eq!(world.registry.record(&token).unwrap().owner, seller);
}

#[test]
fn direct_settlement_moves_the_asking_price() {
    let seller = Key::Account(addr(11));
    let bidder = Key::Account(addr(20));
    let mut world = World::new(
        Key::Account(addr(10)),
        basic_structure(),
        vec![addr(1)],
        vec![],
        addr(1),
        addr(2),
        addr(3),
    );
    // Registered without a custodial layer: the direct strategy.
    world.marketplace.register_cep78_contract(addr(3), None);
    let token = TokenIdentifier::Index(9);
    world.registry.mint(&token, seller);
    world.registry.approve(&token, Some(Key::Hash(addr(2)))).unwrap();
    let post_purse = world.purses.create_purse();
    let bid_purse = world.purses.create_purse();
    world.purses.fund(bid_purse, amount(5000));

    let post_id = world.post(seller, addr(3), &token, post_purse, amount(1000)).unwrap();
    world.bid(bidder, post_id, bid_purse, amount(1200)).unwrap();

    // The asking price moved in full; no royalty was taken.
    assert!(world.purses.balance(post_purse).unwrap().eq_value(&amount(1000)));
    assert!(world.purses.balance(bid_purse).unwrap().eq_value(&amount(4000)));
    assert!(world.purses.balance(world.royalty_purse).unwrap().eq_value(&amount(0)));
    assert_eq!(world.registry.record(&token).unwrap().owner, bidder);
}

#[test]
fn bid_covering_price_but_not_royalty_overflows() {
    // A flat royalty of 100 on a price of 50: the bid meets the price
    // but the remainder computation underflows.
    let seller = Key::Account(addr(11));
    let bidder = Key::Account(addr(20));
    let (mut world, post_purse, bid_purse) = trading_world(seller, 10_000);
    let token = TokenIdentifier::Index(7);

    let post_id = world.post(seller, addr(3), &token, post_purse, amount(50)).unwrap();
    let r = world.bid(bidder, post_id, bid_purse, amount(50));
    assert_eq!(r.unwrap_err(), BidError::Market(MarketError::ArithmeticOverflow));
}

#[test]
fn registry_rejects_unknown_tokens() {
    let seller = Key::Account(addr(11));
    let (mut world, _, _) = trading_world(seller, 0);
    let unknown = TokenIdentifier::Index(404);
    assert_eq!(
        world.registry.approve(&unknown, None).unwrap_err(),
        MarketError::UnknownTokenId
    );
    assert_eq!(
        world.registry.transfer(&unknown, seller).unwrap_err(),
        MarketError::UnknownTokenId
    );
}

#[test]
fn purse_transfers_fail_cleanly() {
    let seller = Key::Account(addr(11));
    let (mut world, post_purse, _) = trading_world(seller, 0);
    // Unknown source purse.
    let r = world.purses.transfer(999, post_purse, amount(1));
    assert_eq!(r.unwrap_err(), LedgerError::UnknownPurse);
    // A target already at the 512-bit ceiling cannot take more.
    let top = Amount { limbs: [u64::MAX; 8] };
    world.purses.fund(post_purse, top);
    let full = world.purses.create_purse();
    world.purses.fund(full, amount(5));
    let r = world.purses.transfer(full, post_purse, amount(5));
    assert_eq!(r.unwrap_err(), LedgerError::BalanceOverflow);
}

#[test]
fn listing_ids_are_dense_and_never_reused() {
    let seller = Key::Account(addr(11));
    let (mut world, post_purse, _) = trading_world(seller, 0);
    let token = TokenIdentifier::Index(7);

    let first = world.post(seller, addr(3), &token, post_purse, amount(1000)).unwrap();
    world.cancel(seller, first).unwrap();
    let second = world.post(seller, addr(3), &token, post_purse, amount(2000)).unwrap();
    assert_eq!(first, 0);
    assert_eq!(second, 1);
}
