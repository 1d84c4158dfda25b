//! The call stack of one ledger execution, as a plain value.
//!
//! The host reports the chain of contexts that led to the current
//! call; every operation of the library receives what it needs of it
//! as explicit arguments, computed once per call by these functions.

use vstd::prelude::*;
use crate::ids::{Addr32, Key};

verus! {

/// One context on the call stack.
#[derive(Clone, Copy, Debug, PartialEq, Eq, Structural)]
pub enum CallStackElement {
    /// Session code running directly for an account.
    Session { account: Addr32 },
    /// Contract code running in the calling account's context.
    StoredSession { account: Addr32, contract_package: Addr32, contract: Addr32 },
    /// Contract code running in its own context.
    StoredContract { contract_package: Addr32, contract: Addr32 },
}

impl CallStackElement {
    /// The key identifying the context's logical owner or invoker:
    /// the account for session contexts, the contract package for
    /// stored-contract contexts.
    pub fn key(&self) -> (r: Key)
        ensures
            r == self.spec_key(),
    {
        match self {
            CallStackElement::Session { account } => Key::Account(*account),
            CallStackElement::StoredSession { account, .. } => Key::Account(*account),
            CallStackElement::StoredContract { contract_package, .. } => Key::Hash(
                *contract_package,
            ),
        }
    }

    /// Specification of [`Self::key`].
    pub open spec fn spec_key(&self) -> Key {
        match self {
            CallStackElement::Session { account } => Key::Account(*account),
            CallStackElement::StoredSession { account, .. } => Key::Account(*account),
            CallStackElement::StoredContract { contract_package, .. } => Key::Hash(
                *contract_package,
            ),
        }
    }

    /// The contract package of the context, if it references one.
    pub fn contract_package(&self) -> (r: Option<Addr32>)
        ensures
            r == self.spec_contract_package(),
    {
        match self {
            CallStackElement::Session { .. } => None,
            CallStackElement::StoredSession { contract_package, .. } => Some(*contract_package),
            CallStackElement::StoredContract { contract_package, .. } => Some(*contract_package),
        }
    }

    /// Specification of [`Self::contract_package`].
    pub open spec fn spec_contract_package(&self) -> Option<Addr32> {
        match self {
            CallStackElement::Session { .. } => None,
            CallStackElement::StoredSession { contract_package, .. } => Some(*contract_package),
            CallStackElement::StoredContract { contract_package, .. } => Some(*contract_package),
        }
    }

    /// The contract hash of the context, if it references one.
    pub fn contract(&self) -> (r: Option<Addr32>)
        ensures
            r == self.spec_contract(),
    {
        match self {
            CallStackElement::Session { .. } => None,
            CallStackElement::StoredSession { contract, .. } => Some(*contract),
            CallStackElement::StoredContract { contract, .. } => Some(*contract),
        }
    }

    /// Specification of [`Self::contract`].
    pub open spec fn spec_contract(&self) -> Option<Addr32> {
        match self {
            CallStackElement::Session { .. } => None,
            CallStackElement::StoredSession { contract, .. } => Some(*contract),
            CallStackElement::StoredContract { contract, .. } => Some(*contract),
        }
    }
}

/// The stack element `depth` frames below the top, if the stack is
/// that deep.  The last element of the vector is the top.
pub fn at_depth(stack: &Vec<CallStackElement>, depth: usize) -> (r: Option<CallStackElement>)
    ensures
        match r {
            Some(e) => depth < stack@.len() && e == stack@[stack@.len() - depth - 1],
            None => depth >= stack@.len(),
        },
{
    if depth >= stack.len() {
        None
    } else {
        Some(stack[stack.len() - depth - 1])
    }
}

/// The context of the immediate caller of the current context, if any.
pub fn caller(stack: &Vec<CallStackElement>) -> (r: Option<CallStackElement>)
    ensures
        match r {
            Some(e) => stack@.len() >= 2 && e == stack@[stack@.len() - 2],
            None => stack@.len() < 2,
        },
{
    at_depth(stack, 1)
}

/// The current context, if the stack is not empty.
pub fn current(stack: &Vec<CallStackElement>) -> (r: Option<CallStackElement>)
    ensures
        match r {
            Some(e) => stack@.len() >= 1 && e == stack@[stack@.len() - 1],
            None => stack@.len() == 0,
        },
{
    at_depth(stack, 0)
}

/// The current contract's package hash, if the current context
/// references a contract.
pub fn current_package(stack: &Vec<CallStackElement>) -> (r: Option<Addr32>)
    ensures
        match r {
            Some(p) => stack@.len() >= 1 && stack@.last().spec_contract_package() == Some(p),
            None => stack@.len() == 0 || stack@.last().spec_contract_package() is None,
        },
{
    match current(stack) {
        Some(e) => e.contract_package(),
        None => None,
    }
}

/// The current contract's hash, if the current context references a
/// contract.
pub fn current_contract(stack: &Vec<CallStackElement>) -> (r: Option<Addr32>)
    ensures
        match r {
            Some(c) => stack@.len() >= 1 && stack@.last().spec_contract() == Some(c),
            None => stack@.len() == 0 || stack@.last().spec_contract() is None,
        },
{
    match current(stack) {
        Some(e) => e.contract(),
        None => None,
    }
}

} // verus!
