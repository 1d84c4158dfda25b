use cep82::call_stack::{at_depth, caller, current, current_contract, current_package, CallStackElement};
use cep82::ids::{Addr32, Key};
use cep82::token::TokenIdentifier;

fn addr(n: u64) -> Addr32 {
    Addr32 { w0: n, w1: 0, w2: 0, w3: 0 }
}

#[test]
fn token_identifier_prefers_the_ordinal_argument() {
    let t = TokenIdentifier::try_load_from_runtime_args(Some(7), Some(String::from("h"))).unwrap();
    assert_eq!(t, TokenIdentifier::Index(7));
    let t = TokenIdentifier::try_load_from_runtime_args(None, Some(String::from("h"))).unwrap();
    assert_eq!(t, TokenIdentifier::Hash(String::from("h")));
    assert_eq!(TokenIdentifier::try_load_from_runtime_args(None, None), None);
}

#[test]
fn call_stack_depths_count_from_the_top() {
    let session = CallStackElement::Session { account: addr(1) };
    let contract = CallStackElement::StoredContract {
        contract_package: addr(2),
        contract: addr(3),
    };
    let stack = vec![session, contract];

    assert_eq!(current(&stack), Some(contract));
    assert_eq!(caller(&stack), Some(session));
    assert_eq!(at_depth(&stack, 0), Some(contract));
    assert_eq!(at_depth(&stack, 1), Some(session));
    assert_eq!(at_depth(&stack, 2), None);

    assert_eq!(current_package(&stack), Some(addr(2)));
    assert_eq!(current_contract(&stack), Some(addr(3)));

    let session_only = vec![session];
    assert_eq!(current_package(&session_only), None);
    assert_eq!(caller(&session_only), None);
}

#[test]
fn context_keys_identify_the_invoker() {
    let session = CallStackElement::Session { account: addr(1) };
    assert_eq!(session.key(), Key::Account(addr(1)));
    let stored_session = CallStackElement::StoredSession {
        account: addr(1),
        contract_package: addr(2),
        contract: addr(3),
    };
    assert_eq!(stored_session.key(), Key::Account(addr(1)));
    assert_eq!(stored_session.contract_package(), Some(addr(2)));
    let contract = CallStackElement::StoredContract {
        contract_package: addr(2),
        contract: addr(3),
    };
    assert_eq!(contract.key(), Key::Hash(addr(2)));
    assert_eq!(contract.contract(), Some(addr(3)));
}
