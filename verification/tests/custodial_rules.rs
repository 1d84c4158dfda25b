use cep82::amount::Amount;
use cep82::call_stack::CallStackElement;
use cep82::custodial::{CustodialState, RoyaltyPaymentState};
use cep82::error::CustodialError;
use cep82::ids::{Addr32, Key};
use cep82::royalty::{RoyaltyStep, RoyaltyStructure};
use cep82::token::TokenIdentifier;

fn addr(n: u64) -> Addr32 {
    Addr32 { w0: n, w1: 0, w2: 0, w3: 0 }
}

fn amount(x: u64) -> Amount {
    Amount::from_u64(x)
}

fn custodial(whitelist: Vec<Addr32>) -> CustodialState {
    CustodialState::init(
        Key::Account(addr(10)),
        RoyaltyStructure::new(vec![RoyaltyStep::Flat { amount: amount(100) }]),
        whitelist,
        vec![],
    )
}

fn marketplace_context() -> CallStackElement {
    CallStackElement::StoredContract { contract_package: addr(1), contract: addr(2) }
}

#[test]
fn whitelist_is_default_deny_when_enabled() {
    let state = custodial(vec![addr(1)]);
    assert!(state.is_marketplace_whitelisted(addr(1)));
    assert!(!state.is_marketplace_whitelisted(addr(5)));
}

#[test]
fn pay_royalty_records_the_payment() {
    let mut state = custodial(vec![addr(1)]);
    let token = TokenIdentifier::Index(7);
    let owner = Key::Account(addr(11));
    let bidder = Key::Account(addr(20));
    let royalty = state
        .pay_royalty(
            &marketplace_context(),
            Some(Key::Hash(addr(2))),
            owner,
            &token,
            bidder,
            owner,
            bidder,
            amount(1000),
        )
        .unwrap();
    assert!(royalty.eq_value(&amount(100)));
}

#[test]
fn pay_royalty_rejects_plain_accounts() {
    let mut state = custodial(vec![addr(1)]);
    let token = TokenIdentifier::Index(7);
    let owner = Key::Account(addr(11));
    let session = CallStackElement::Session { account: addr(20) };
    let r = state.pay_royalty(
        &session,
        Some(Key::Hash(addr(2))),
        owner,
        &token,
        Key::Account(addr(20)),
        owner,
        Key::Account(addr(20)),
        amount(1000),
    );
    assert_eq!(r.unwrap_err(), CustodialError::CallerMustBeContract);
}

#[test]
fn pay_royalty_requires_the_registry_approval() {
    let mut state = custodial(vec![addr(1)]);
    let token = TokenIdentifier::Index(7);
    let owner = Key::Account(addr(11));
    let bidder = Key::Account(addr(20));
    let r = state.pay_royalty(
        &marketplace_context(),
        Some(Key::Hash(addr(99))),
        owner,
        &token,
        bidder,
        owner,
        bidder,
        amount(1000),
    );
    assert_eq!(r.unwrap_err(), CustodialError::CallerMustBeApproved);
    let r = state.pay_royalty(
        &marketplace_context(),
        None,
        owner,
        &token,
        bidder,
        owner,
        bidder,
        amount(1000),
    );
    assert_eq!(r.unwrap_err(), CustodialError::CallerMustBeApproved);
}

#[test]
fn pay_royalty_enforces_the_whitelist() {
    let mut state = custodial(vec![addr(5)]);
    let token = TokenIdentifier::Index(7);
    let owner = Key::Account(addr(11));
    let bidder = Key::Account(addr(20));
    let r = state.pay_royalty(
        &marketplace_context(),
        Some(Key::Hash(addr(2))),
        owner,
        &token,
        bidder,
        owner,
        bidder,
        amount(1000),
    );
    assert_eq!(r.unwrap_err(), CustodialError::MarketplaceNotWhitelisted);
}

#[test]
fn pay_royalty_rejects_wrong_source_and_self_transfer() {
    let mut state = custodial(vec![addr(1)]);
    let token = TokenIdentifier::Index(7);
    let owner = Key::Account(addr(11));
    let bidder = Key::Account(addr(20));
    let r = state.pay_royalty(
        &marketplace_context(),
        Some(Key::Hash(addr(2))),
        owner,
        &token,
        bidder,
        bidder,
        bidder,
        amount(1000),
    );
    assert_eq!(r.unwrap_err(), CustodialError::SourceMustBeOwner);
    let r = state.pay_royalty(
        &marketplace_context(),
        Some(Key::Hash(addr(2))),
        owner,
        &token,
        owner,
        owner,
        owner,
        amount(1000),
    );
    assert_eq!(r.unwrap_err(), CustodialError::SelfTransferForbidden);
}

#[test]
fn unconsumed_payment_blocks_repayment_by_same_payer() {
    let mut state = custodial(vec![addr(1)]);
    let token = TokenIdentifier::Index(7);
    let owner = Key::Account(addr(11));
    let bidder = Key::Account(addr(20));
    let rival = Key::Account(addr(21));
    state
        .pay_royalty(
            &marketplace_context(),
            Some(Key::Hash(addr(2))),
            owner,
            &token,
            bidder,
            owner,
            bidder,
            amount(1000),
        )
        .unwrap();
    // The same payer cannot pay again while the record stands.
    let r = state.pay_royalty(
        &marketplace_context(),
        Some(Key::Hash(addr(2))),
        owner,
        &token,
        bidder,
        owner,
        bidder,
        amount(1000),
    );
    assert_eq!(r.unwrap_err(), CustodialError::AlreadyPaid);
    // A different payer may, replacing the record: the transfer
    // filter then proceeds for the new payment's source.
    state
        .pay_royalty(
            &marketplace_context(),
            Some(Key::Hash(addr(2))),
            owner,
            &token,
            rival,
            owner,
            rival,
            amount(2000),
        )
        .unwrap();
    let verdict = state.can_transfer(Some(addr(3)), owner, &token, owner, rival).unwrap();
    assert_eq!(verdict, 1);
}

#[test]
fn can_transfer_consumes_the_payment_record() {
    let mut state = custodial(vec![addr(1)]);
    let token = TokenIdentifier::Index(7);
    let owner = Key::Account(addr(11));
    let bidder = Key::Account(addr(20));
    let registry = Some(addr(3));

    // Unpaid: deny.
    let verdict = state.can_transfer(registry, owner, &token, owner, bidder).unwrap();
    assert_eq!(verdict, 0);

    state
        .pay_royalty(
            &marketplace_context(),
            Some(Key::Hash(addr(2))),
            owner,
            &token,
            bidder,
            owner,
            bidder,
            amount(1000),
        )
        .unwrap();

    // Wrong source: deny, and the record stays.
    let verdict = state.can_transfer(registry, owner, &token, bidder, owner).unwrap();
    assert_eq!(verdict, 0);

    // Matching source and owner: proceed once...
    let verdict = state.can_transfer(registry, owner, &token, owner, bidder).unwrap();
    assert_eq!(verdict, 1);
    // ...and the record is consumed.
    let verdict = state.can_transfer(registry, owner, &token, owner, bidder).unwrap();
    assert_eq!(verdict, 0);
}

#[test]
fn can_transfer_requires_a_contract_caller() {
    let mut state = custodial(vec![addr(1)]);
    let token = TokenIdentifier::Index(7);
    let owner = Key::Account(addr(11));
    let r = state.can_transfer(None, owner, &token, owner, owner);
    assert_eq!(r.unwrap_err(), CustodialError::CallerMustBeContract);
}

#[test]
fn claim_is_reserved_to_the_manager_and_happens_once() {
    let mut state = custodial(vec![addr(1)]);
    let token = TokenIdentifier::Index(7);
    let manager = Key::Account(addr(10));
    let owner = Key::Account(addr(11));

    let r = state.claim(owner, &token, owner);
    assert_eq!(r.unwrap_err(), CustodialError::CallerMustBeManager);

    state.claim(manager, &token, owner).unwrap();
    assert_eq!(state.real_owner(&token), Some(owner));

    let r = state.claim(manager, &token, Key::Account(addr(12)));
    assert_eq!(r.unwrap_err(), CustodialError::AlreadyClaimed);
}

#[test]
fn delegation_follows_the_state_machine() {
    let mut state = custodial(vec![addr(1)]);
    let token = TokenIdentifier::Index(7);
    let manager = Key::Account(addr(10));
    let owner = Key::Account(addr(11));

    let r = state.set_delegate(owner, &token, Some(addr(1)), false);
    assert_eq!(r.unwrap_err(), CustodialError::Unmanaged);

    state.claim(manager, &token, owner).unwrap();

    let r = state.set_delegate(manager, &token, Some(addr(1)), false);
    assert_eq!(r.unwrap_err(), CustodialError::CallerMustBeOwner);

    let r = state.set_delegate(owner, &token, Some(addr(9)), false);
    assert_eq!(r.unwrap_err(), CustodialError::MarketplaceNotWhitelisted);

    state.set_delegate(owner, &token, Some(addr(1)), false).unwrap();
    assert_eq!(state.delegate(&token), Some(addr(1)));

    let r = state.set_delegate(owner, &token, Some(addr(1)), false);
    assert_eq!(r.unwrap_err(), CustodialError::AlreadyDelegated);

    // Revocation against the delegate's veto fails; with consent it
    // clears the delegation.
    let r = state.set_delegate(owner, &token, None, false);
    assert_eq!(r.unwrap_err(), CustodialError::UndelegationNotAllowed);
    state.set_delegate(owner, &token, None, true).unwrap();
    assert_eq!(state.delegate(&token), None);
}

#[test]
fn delegated_transfer_reassigns_the_real_owner() {
    let mut state = custodial(vec![addr(1)]);
    let token = TokenIdentifier::Index(7);
    let manager = Key::Account(addr(10));
    let owner = Key::Account(addr(11));
    let buyer = Key::Account(addr(20));

    state.claim(manager, &token, owner).unwrap();
    state.set_delegate(owner, &token, Some(addr(1)), false).unwrap();

    // Only the delegate may transfer.
    let r = state.transfer(Some(addr(9)), &token, buyer, addr(6), amount(1000));
    assert_eq!(r.unwrap_err(), CustodialError::CallerMustBeDelegate);
    let r = state.transfer(None, &token, buyer, addr(6), amount(1000));
    assert_eq!(r.unwrap_err(), CustodialError::CallerMustBeContract);

    let royalty = state.transfer(Some(addr(1)), &token, buyer, addr(6), amount(1000)).unwrap();
    assert!(royalty.eq_value(&amount(100)));
    assert_eq!(state.real_owner(&token), Some(buyer));
    assert_eq!(state.delegate(&token), None);
}

#[test]
fn payment_record_survives_a_denied_transfer_attempt() {
    let mut state = custodial(vec![addr(1)]);
    let token = TokenIdentifier::Index(7);
    let owner = Key::Account(addr(11));
    let bidder = Key::Account(addr(20));
    state
        .pay_royalty(
            &marketplace_context(),
            Some(Key::Hash(addr(2))),
            owner,
            &token,
            bidder,
            owner,
            bidder,
            amount(1000),
        )
        .unwrap();
    // A mismatched attempt denies without consuming; the matching one
    // still proceeds afterwards.
    let verdict = state.can_transfer(Some(addr(3)), owner, &token, bidder, owner).unwrap();
    assert_eq!(verdict, 0);
    let verdict = state.can_transfer(Some(addr(3)), owner, &token, owner, bidder).unwrap();
    assert_eq!(verdict, 1);
    // An unpaid record encodes to its bare tag.
    let state_bytes = RoyaltyPaymentState::Unpaid.to_bytes();
    assert_eq!(state_bytes, vec![0]);
}
