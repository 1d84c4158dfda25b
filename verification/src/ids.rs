//! Ledger identities: 32-byte addresses and account-or-contract keys.

use vstd::prelude::*;

verus! {

/// A 32-byte ledger address, held as four little-endian 64-bit words.
///
/// Package hashes, contract hashes and account hashes are all
/// addresses of this shape; equality is the only structure the
/// protocol reads from them.
#[derive(Clone, Copy, Debug, PartialEq, Eq, Structural)]
pub struct Addr32 {
    pub w0: u64,
    pub w1: u64,
    pub w2: u64,
    pub w3: u64,
}

impl View for Addr32 {
    type V = Addr32;

    open spec fn view(&self) -> Addr32 {
        *self
    }
}

/// The key identifying the logical owner or invoker of a call context:
/// either an account or a contract package.
#[derive(Clone, Copy, Debug, PartialEq, Eq, Structural)]
pub enum Key {
    /// An account, by its account hash.
    Account(Addr32),
    /// A contract, by a 32-byte hash.
    Hash(Addr32),
}

impl View for Key {
    type V = Key;

    open spec fn view(&self) -> Key {
        *self
    }
}

} // verus!
