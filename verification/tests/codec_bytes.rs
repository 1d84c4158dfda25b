use cep82::amount::{Amount, Percent};
use cep82::codec::CodecError;
use cep82::custodial::RoyaltyPaymentState;
use cep82::ids::{Addr32, Key};
use cep82::marketplace::OrderbookEntry;
use cep82::royalty::RoyaltyStep;
use cep82::token::TokenIdentifier;

fn addr(n: u64) -> Addr32 {
    Addr32 { w0: n, w1: n + 1, w2: n + 2, w3: n + 3 }
}

#[test]
fn amount_encoding_is_length_prefixed_minimal() {
    assert_eq!(Amount::from_u64(0).to_bytes(), vec![0]);
    assert_eq!(Amount::from_u64(5).to_bytes(), vec![1, 5]);
    assert_eq!(Amount::from_u64(256).to_bytes(), vec![2, 0, 1]);
    assert_eq!(Amount::from_u64(0x01_02_03).to_bytes(), vec![3, 3, 2, 1]);
}

#[test]
fn amount_round_trips() {
    for x in [0u64, 1, 255, 256, 65535, u64::MAX] {
        let a = Amount::from_u64(x);
        let bytes = a.to_bytes();
        let (back, used) = Amount::from_bytes(&bytes).unwrap();
        assert_eq!(used, bytes.len());
        assert!(back.eq_value(&a));
    }
    let wide = Amount { limbs: [1, 2, 3, 4, 5, 6, 7, 8] };
    let bytes = wide.to_bytes();
    let (back, used) = Amount::from_bytes(&bytes).unwrap();
    assert_eq!(used, bytes.len());
    assert!(back.eq_value(&wide));
}

#[test]
fn amount_rejects_oversized_length() {
    let r = Amount::from_bytes(&[65, 0]);
    assert_eq!(r.unwrap_err(), CodecError::Formatting);
}

#[test]
fn amount_rejects_truncated_input() {
    let r = Amount::from_bytes(&[3, 1, 2]);
    assert_eq!(r.unwrap_err(), CodecError::EarlyEndOfStream);
    let r = Amount::from_bytes(&[]);
    assert_eq!(r.unwrap_err(), CodecError::EarlyEndOfStream);
}

#[test]
fn percent_round_trips() {
    let p = Percent { limbs: [9, 8, 7, 6] };
    let bytes = p.to_bytes();
    let (back, used) = Percent::from_bytes(&bytes).unwrap();
    assert_eq!(used, bytes.len());
    assert_eq!(back.limbs, p.limbs);
    assert_eq!(Percent::from_bytes(&[33, 0]).unwrap_err(), CodecError::Formatting);
}

#[test]
fn token_identifier_index_round_trips() {
    let t = TokenIdentifier::Index(7);
    let bytes = t.to_bytes().unwrap();
    assert_eq!(bytes, vec![0, 7, 0, 0, 0, 0, 0, 0, 0]);
    let (back, used) = TokenIdentifier::from_bytes(&bytes).unwrap();
    assert_eq!(used, bytes.len());
    assert_eq!(back, t);
}

#[test]
fn token_identifier_hash_round_trips() {
    let t = TokenIdentifier::Hash(String::from("abc-ÿ"));
    let bytes = t.to_bytes().unwrap();
    let (back, used) = TokenIdentifier::from_bytes(&bytes).unwrap();
    assert_eq!(used, bytes.len());
    assert_eq!(back, t);
}

#[test]
fn token_identifier_round_trips_with_suffix() {
    let t = TokenIdentifier::Hash(String::from("x"));
    let mut bytes = t.to_bytes().unwrap();
    let encoded_len = bytes.len();
    bytes.push(0xAA);
    bytes.push(0xBB);
    let (back, used) = TokenIdentifier::from_bytes(&bytes).unwrap();
    assert_eq!(used, encoded_len);
    assert_eq!(back, t);
}

#[test]
fn token_identifier_rejects_bad_tag_and_bad_utf8() {
    assert_eq!(
        TokenIdentifier::from_bytes(&[2, 0]).unwrap_err(),
        CodecError::Formatting
    );
    // length 1, then an isolated continuation byte
    assert_eq!(
        TokenIdentifier::from_bytes(&[1, 1, 0, 0, 0, 0x80]).unwrap_err(),
        CodecError::Formatting
    );
}

#[test]
fn royalty_step_round_trips() {
    let steps = vec![
        RoyaltyStep::Minimum { amount: Amount::from_u64(12) },
        RoyaltyStep::Flat { amount: Amount::from_u64(34) },
        RoyaltyStep::Percentage { percent: Percent::from_u64(500) },
    ];
    for step in &steps {
        let bytes = step.to_bytes();
        let (back, used) = RoyaltyStep::from_bytes(&bytes).unwrap();
        assert_eq!(used, bytes.len());
        match (step, &back) {
            (RoyaltyStep::Minimum { amount: a }, RoyaltyStep::Minimum { amount: b }) => {
                assert!(a.eq_value(b))
            }
            (RoyaltyStep::Flat { amount: a }, RoyaltyStep::Flat { amount: b }) => {
                assert!(a.eq_value(b))
            }
            (RoyaltyStep::Percentage { percent: a }, RoyaltyStep::Percentage { percent: b }) => {
                assert_eq!(a.limbs, b.limbs)
            }
            _ => panic!("variant changed by the round trip"),
        }
    }
    assert_eq!(RoyaltyStep::from_bytes(&[3]).unwrap_err(), CodecError::Formatting);
}

#[test]
fn payment_state_round_trips() {
    let unpaid = RoyaltyPaymentState::Unpaid;
    let bytes = unpaid.to_bytes();
    assert_eq!(bytes, vec![0]);
    let (back, used) = RoyaltyPaymentState::from_bytes(&bytes).unwrap();
    assert_eq!(used, 1);
    assert!(matches!(back, RoyaltyPaymentState::Unpaid));

    let paid = RoyaltyPaymentState::Paid {
        payer: Key::Account(addr(1)),
        source_key: Key::Hash(addr(9)),
        amount: Amount::from_u64(77),
    };
    let bytes = paid.to_bytes();
    let (back, used) = RoyaltyPaymentState::from_bytes(&bytes).unwrap();
    assert_eq!(used, bytes.len());
    match back {
        RoyaltyPaymentState::Paid { payer, source_key, amount } => {
            assert_eq!(payer, Key::Account(addr(1)));
            assert_eq!(source_key, Key::Hash(addr(9)));
            assert!(amount.eq_value(&Amount::from_u64(77)));
        }
        RoyaltyPaymentState::Unpaid => panic!("variant changed by the round trip"),
    }
}

#[test]
fn orderbook_entry_round_trips() {
    let entry = OrderbookEntry {
        nft_contract_id: 3,
        owner: Key::Account(addr(100)),
        token_id: TokenIdentifier::Hash(String::from("token-7")),
        price: Amount::from_u64(1000),
    };
    let bytes = entry.to_bytes().unwrap();
    let (back, used) = OrderbookEntry::from_bytes(&bytes).unwrap();
    assert_eq!(used, bytes.len());
    assert_eq!(back.nft_contract_id, entry.nft_contract_id);
    assert_eq!(back.owner, entry.owner);
    assert_eq!(back.token_id, entry.token_id);
    assert!(back.price.eq_value(&entry.price));
}

#[test]
fn orderbook_entry_rejects_truncation() {
    let entry = OrderbookEntry {
        nft_contract_id: 3,
        owner: Key::Account(addr(100)),
        token_id: TokenIdentifier::Index(7),
        price: Amount::from_u64(1000),
    };
    let bytes = entry.to_bytes().unwrap();
    let r = OrderbookEntry::from_bytes(&bytes[..bytes.len() - 1]);
    assert_eq!(r.unwrap_err(), CodecError::EarlyEndOfStream);
}
