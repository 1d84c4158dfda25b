//! The marketplace / orderbook contract.
//!
//! A listing maps a dense id to seller, asset reference, price and
//! target purse.  `post` records a listing after checking the caller's
//! authority over the asset, `cancel` removes it for the seller, and
//! the registration functions assign dense ids to collaborating
//! contract references.  Settlement composes with the custodial layer
//! and the ledger and lives in [`crate::world`].

use vstd::prelude::*;
use crate::amount::Amount;
use crate::error::MarketError;
use crate::ids::{Addr32, Key};
use crate::kv::{
    addr_get,
    addr_insert,
    kv_map,
    kv_unique,
    token_get,
    token_insert,
    token_remove,
    u64_get,
    u64_insert,
    u64_remove,
};
use crate::token::{TokenIdentifier, TokenIdentifierView};

verus! {

/// Registration record of a non-fungible registry: the registry's
/// package and, when its assets are under custody, the custodial
/// layer's package.
#[derive(Clone, Copy, Debug, PartialEq, Eq, Structural)]
pub struct NftContractMetadata {
    pub nft_package: Addr32,
    pub custodial_package: Option<Addr32>,
}

impl View for NftContractMetadata {
    type V = NftContractMetadata;

    open spec fn view(&self) -> NftContractMetadata {
        *self
    }
}

/// One active listing: an asset offered at a fixed price.
#[derive(Clone, Debug)]
pub struct OrderbookEntry {
    pub nft_contract_id: u64,
    pub owner: Key,
    pub token_id: TokenIdentifier,
    pub price: Amount,
}

/// The mathematical shape of an [`OrderbookEntry`].
#[verifier::ext_equal]
pub struct OrderbookEntryView {
    pub nft_contract_id: u64,
    pub owner: Key,
    pub token_id: TokenIdentifierView,
    pub price: nat,
}

impl View for OrderbookEntry {
    type V = OrderbookEntryView;

    open spec fn view(&self) -> OrderbookEntryView {
        OrderbookEntryView {
            nft_contract_id: self.nft_contract_id,
            owner: self.owner,
            token_id: self.token_id@,
            price: self.price@,
        }
    }
}

impl OrderbookEntry {
    /// A copy with the same view.
    pub fn duplicate(&self) -> (r: OrderbookEntry)
        ensures
            r@ == self@,
    {
        OrderbookEntry {
            nft_contract_id: self.nft_contract_id,
            owner: self.owner,
            token_id: self.token_id.duplicate(),
            price: self.price,
        }
    }
}

/// The monotonic id generators: one for registered non-fungible
/// contracts, one for registered fungible contracts, one for listings.
#[derive(Clone, Copy, Debug, PartialEq, Eq, Structural)]
pub struct Counters {
    pub nft_contract_id: u64,
    pub token_contract_id: u64,
    pub post_id: u64,
}

impl Default for Counters {
    /// All generators start at zero.
    fn default() -> (r: Counters)
        ensures
            r.nft_contract_id == 0,
            r.token_contract_id == 0,
            r.post_id == 0,
    {
        Counters { nft_contract_id: 0, token_contract_id: 0, post_id: 0 }
    }
}

/// The marketplace contract's persistent state.
pub struct MarketplaceState {
    pub counters: Counters,
    pub nft_contract_metadata_by_id: Vec<(u64, NftContractMetadata)>,
    pub nft_contract_id_by_package_hash: Vec<(Addr32, u64)>,
    pub orderbook_entry_by_id: Vec<(u64, OrderbookEntry)>,
    pub post_id_by_token_id: Vec<(TokenIdentifier, u64)>,
    pub target_purse_by_post_id: Vec<(u64, u64)>,
}

/// The mathematical shape of a [`MarketplaceState`].
#[verifier::ext_equal]
pub struct MarketplaceStateView {
    pub counters: Counters,
    pub nft_meta: Map<u64, NftContractMetadata>,
    pub id_by_package: Map<Addr32, u64>,
    pub listings: Map<u64, OrderbookEntryView>,
    pub post_by_token: Map<TokenIdentifierView, u64>,
    pub target_purses: Map<u64, u64>,
}

impl View for MarketplaceState {
    type V = MarketplaceStateView;

    open spec fn view(&self) -> MarketplaceStateView {
        MarketplaceStateView {
            counters: self.counters,
            nft_meta: kv_map(self.nft_contract_metadata_by_id@),
            id_by_package: kv_map(self.nft_contract_id_by_package_hash@),
            listings: kv_map(self.orderbook_entry_by_id@),
            post_by_token: kv_map(self.post_id_by_token_id@),
            target_purses: kv_map(self.target_purse_by_post_id@),
        }
    }
}

impl MarketplaceState {
    /// The keys of all association vectors are pairwise distinct, and
    /// every listing id was assigned below the listing-id generator,
    /// so a fresh id never collides.
    pub open spec fn wf(&self) -> bool {
        &&& kv_unique(self.nft_contract_metadata_by_id@)
        &&& kv_unique(self.nft_contract_id_by_package_hash@)
        &&& kv_unique(self.orderbook_entry_by_id@)
        &&& kv_unique(self.post_id_by_token_id@)
        &&& kv_unique(self.target_purse_by_post_id@)
        &&& forall|id: u64| #[trigger]
            self@.listings.contains_key(id) ==> id < self.counters.post_id
    }

    /// A marketplace with no registrations and no listings.
    pub fn install() -> (r: MarketplaceState)
        ensures
            r.wf(),
            r@.counters == (Counters { nft_contract_id: 0, token_contract_id: 0, post_id: 0 }),
            r@.nft_meta =~= Map::<u64, NftContractMetadata>::empty(),
            r@.id_by_package =~= Map::<Addr32, u64>::empty(),
            r@.listings =~= Map::<u64, OrderbookEntryView>::empty(),
            r@.post_by_token =~= Map::<TokenIdentifierView, u64>::empty(),
            r@.target_purses =~= Map::<u64, u64>::empty(),
    {
        MarketplaceState {
            counters: Counters::default(),
            nft_contract_metadata_by_id: Vec::new(),
            nft_contract_id_by_package_hash: Vec::new(),
            orderbook_entry_by_id: Vec::new(),
            post_id_by_token_id: Vec::new(),
            target_purse_by_post_id: Vec::new(),
        }
    }
}

/// Outcome of [`MarketplaceState::post`]: the new state and the fresh
/// listing id.
pub open spec fn post_spec(
    v: MarketplaceStateView,
    caller: Key,
    this_contract: Addr32,
    registry_approved: Option<Key>,
    registry_owner: Key,
    nft_contract: Addr32,
    token: TokenIdentifierView,
    target_purse: u64,
    price: nat,
) -> Result<(MarketplaceStateView, u64), MarketError> {
    if !(v.id_by_package.contains_key(nft_contract) && v.nft_meta.contains_key(
        v.id_by_package[nft_contract],
    )) {
        Err(MarketError::UnsupportedNFTContract)
    } else {
        match registry_approved {
            None => Err(MarketError::MustBeApproved),
            Some(approved) => if approved != Key::Hash(this_contract) {
                Err(MarketError::MustBeApproved)
            } else if registry_owner != caller {
                Err(MarketError::InvalidMethodAccess)
            } else {
                let post_id = v.counters.post_id;
                let entry = OrderbookEntryView {
                    nft_contract_id: v.id_by_package[nft_contract],
                    owner: registry_owner,
                    token_id: token,
                    price,
                };
                Ok(
                    (
                        MarketplaceStateView {
                            counters: Counters { post_id: (post_id + 1) as u64, ..v.counters },
                            listings: v.listings.insert(post_id, entry),
                            post_by_token: v.post_by_token.insert(token, post_id),
                            target_purses: v.target_purses.insert(post_id, target_purse),
                            ..v
                        },
                        post_id,
                    ),
                )
            },
        }
    }
}

/// Outcome of [`MarketplaceState::cancel`].
pub open spec fn cancel_spec(v: MarketplaceStateView, caller: Key, post_id: u64) -> Result<
    MarketplaceStateView,
    MarketError,
> {
    if !v.listings.contains_key(post_id) {
        Err(MarketError::UnknownPostId)
    } else if v.listings[post_id].owner != caller {
        Err(MarketError::InvalidMethodAccess)
    } else {
        Ok(
            MarketplaceStateView {
                listings: v.listings.remove(post_id),
                post_by_token: v.post_by_token.remove(v.listings[post_id].token_id),
                ..v
            },
        )
    }
}

/// Outcome of [`MarketplaceState::register_cep78_contract`]: the new
/// state and the assigned registration id.
pub open spec fn register_cep78_spec(
    v: MarketplaceStateView,
    nft_package: Addr32,
    custodial_package: Option<Addr32>,
) -> (MarketplaceStateView, u64) {
    let id = v.counters.nft_contract_id;
    (
        MarketplaceStateView {
            counters: Counters { nft_contract_id: (id + 1) as u64, ..v.counters },
            nft_meta: v.nft_meta.insert(id, NftContractMetadata { nft_package, custodial_package }),
            id_by_package: v.id_by_package.insert(nft_package, id),
            ..v
        },
        id,
    )
}

impl MarketplaceState {
    /// Record a listing for an asset of a registered registry.
    /// `registry_approved` and `registry_owner` are the registry's
    /// approval and owner records for the token; the seller must own
    /// the asset and must have approved this marketplace contract
    /// (`this_contract`) for it.  The asset does not move; settlement
    /// later verifies the still-standing approval.
    pub fn post(
        &mut self,
        caller: Key,
        this_contract: Addr32,
        registry_approved: Option<Key>,
        registry_owner: Key,
        nft_contract: Addr32,
        token_id: &TokenIdentifier,
        target_purse: u64,
        price: Amount,
    ) -> (r: Result<u64, MarketError>)
        requires
            old(self).wf(),
            old(self).counters.post_id < u64::MAX,
        ensures
            final(self).wf(),
            match r {
                Ok(id) => post_spec(
                    old(self)@,
                    caller,
                    this_contract,
                    registry_approved,
                    registry_owner,
                    nft_contract,
                    token_id@,
                    target_purse,
                    price@,
                ) == Ok::<_, MarketError>((final(self)@, id)),
                Err(e) => post_spec(
                    old(self)@,
                    caller,
                    this_contract,
                    registry_approved,
                    registry_owner,
                    nft_contract,
                    token_id@,
                    target_purse,
                    price@,
                ) == Err::<(MarketplaceStateView, u64), _>(e) && final(self)@ == old(self)@,
            },
    {
        let nft_contract_id = match addr_get(&self.nft_contract_id_by_package_hash, nft_contract) {
            Some(id) => *id,
            None => {
                return Err(MarketError::UnsupportedNFTContract);
            },
        };
        if u64_get(&self.nft_contract_metadata_by_id, nft_contract_id).is_none() {
            return Err(MarketError::UnsupportedNFTContract);
        }
        let approved = match registry_approved {
            Some(a) => a,
            None => {
                return Err(MarketError::MustBeApproved);
            },
        };
        if approved != Key::Hash(this_contract) {
            return Err(MarketError::MustBeApproved);
        }
        if registry_owner != caller {
            return Err(MarketError::InvalidMethodAccess);
        }

        let post_id = self.counters.post_id;
        self.counters.post_id = post_id + 1;
        token_insert(&mut self.post_id_by_token_id, token_id, post_id);
        u64_insert(&mut self.target_purse_by_post_id, post_id, target_purse);
        let entry = OrderbookEntry {
            nft_contract_id,
            owner: registry_owner,
            token_id: token_id.duplicate(),
            price,
        };
        let ghost entry_view = entry@;
        u64_insert(&mut self.orderbook_entry_by_id, post_id, entry);
        proof {
            assert(final(self)@ =~= MarketplaceStateView {
                counters: Counters { post_id: (post_id + 1) as u64, ..old(self)@.counters },
                listings: old(self)@.listings.insert(post_id, entry_view),
                post_by_token: old(self)@.post_by_token.insert(token_id@, post_id),
                target_purses: old(self)@.target_purses.insert(post_id, target_purse),
                ..old(self)@
            });
        }
        Ok(post_id)
    }

    /// Remove a listing.  Only the seller who posted it may cancel;
    /// the asset never moved, so nothing is returned, but the reverse
    /// token index is cleared.
    pub fn cancel(&mut self, caller: Key, post_id: u64) -> (r: Result<(), MarketError>)
        requires
            old(self).wf(),
        ensures
            final(self).wf(),
            match r {
                Ok(()) => cancel_spec(old(self)@, caller, post_id) == Ok::<_, MarketError>(
                    final(self)@,
                ),
                Err(e) => cancel_spec(old(self)@, caller, post_id) == Err::<
                    MarketplaceStateView,
                    _,
                >(e) && final(self)@ == old(self)@,
            },
    {
        let entry = match u64_get(&self.orderbook_entry_by_id, post_id) {
            Some(e) => e.duplicate(),
            None => {
                return Err(MarketError::UnknownPostId);
            },
        };
        if entry.owner != caller {
            return Err(MarketError::InvalidMethodAccess);
        }
        token_remove(&mut self.post_id_by_token_id, &entry.token_id);
        u64_remove(&mut self.orderbook_entry_by_id, post_id);
        proof {
            assert(final(self)@ =~= MarketplaceStateView {
                listings: old(self)@.listings.remove(post_id),
                post_by_token: old(self)@.post_by_token.remove(
                    old(self)@.listings[post_id].token_id,
                ),
                ..old(self)@
            });
        }
        Ok(())
    }

    /// Register a non-fungible registry, assigning it the next dense
    /// registration id.  No duplicate check is made: registering the
    /// same package again assigns a second id pointing at the same
    /// registry, and the reverse index then names the newest id.
    pub fn register_cep78_contract(
        &mut self,
        nft_package: Addr32,
        custodial_package: Option<Addr32>,
    ) -> (r: u64)
        requires
            old(self).wf(),
            old(self).counters.nft_contract_id < u64::MAX,
        ensures
            final(self).wf(),
            register_cep78_spec(old(self)@, nft_package, custodial_package) == (final(self)@, r),
    {
        let contract_id = self.counters.nft_contract_id;
        self.counters.nft_contract_id = contract_id + 1;
        let entry = NftContractMetadata { nft_package, custodial_package };
        addr_insert(&mut self.nft_contract_id_by_package_hash, nft_package, contract_id);
        u64_insert(&mut self.nft_contract_metadata_by_id, contract_id, entry);
        proof {
            assert(final(self)@ =~= MarketplaceStateView {
                counters: Counters {
                    nft_contract_id: (contract_id + 1) as u64,
                    ..old(self)@.counters
                },
                nft_meta: old(self)@.nft_meta.insert(contract_id, entry),
                id_by_package: old(self)@.id_by_package.insert(nft_package, contract_id),
                ..old(self)@
            });
        }
        contract_id
    }

    /// Whether a registry package was registered, with both halves of
    /// the bidirectional record present.
    pub fn is_registered(&self, nft_package: Addr32) -> (r: bool)
        requires
            self.wf(),
        ensures
            r == (self@.id_by_package.contains_key(nft_package) && self@.nft_meta.contains_key(
                self@.id_by_package[nft_package],
            )),
    {
        match addr_get(&self.nft_contract_id_by_package_hash, nft_package) {
            Some(id) => u64_get(&self.nft_contract_metadata_by_id, *id).is_some(),
            None => false,
        }
    }

    /// The registration record under an id.
    pub fn nft_contract_by_id(&self, id: u64) -> (r: Result<NftContractMetadata, MarketError>)
        requires
            self.wf(),
        ensures
            match r {
                Ok(m) => self@.nft_meta.contains_key(id) && self@.nft_meta[id] == m,
                Err(e) => e == MarketError::UnsupportedNFTContract && !self@.nft_meta.contains_key(
                    id,
                ),
            },
    {
        match u64_get(&self.nft_contract_metadata_by_id, id) {
            Some(m) => Ok(*m),
            None => Err(MarketError::UnsupportedNFTContract),
        }
    }

    /// The listing under an id.
    pub fn orderbook_entry_by_id(&self, post_id: u64) -> (r: Result<OrderbookEntry, MarketError>)
        requires
            self.wf(),
        ensures
            match r {
                Ok(e) => self@.listings.contains_key(post_id) && self@.listings[post_id] == e@,
                Err(e) => e == MarketError::UnknownPostId && !self@.listings.contains_key(post_id),
            },
    {
        match u64_get(&self.orderbook_entry_by_id, post_id) {
            Some(e) => Ok(e.duplicate()),
            None => Err(MarketError::UnknownPostId),
        }
    }

    /// The id of the active listing for a token, if one exists.
    pub fn post_id_by_token_id(&self, token_id: &TokenIdentifier) -> (r: Option<u64>)
        requires
            self.wf(),
        ensures
            match r {
                Some(id) => self@.post_by_token.contains_key(token_id@) && self@.post_by_token[token_id@]
                    == id,
                None => !self@.post_by_token.contains_key(token_id@),
            },
    {
        match token_get(&self.post_id_by_token_id, token_id) {
            Some(id) => Some(*id),
            None => None,
        }
    }

    /// Bind or clear the reverse token index.
    pub fn set_post_id_by_token_id(&mut self, token_id: &TokenIdentifier, id: Option<u64>)
        requires
            old(self).wf(),
        ensures
            final(self).wf(),
            match id {
                Some(i) => final(self)@ =~= (MarketplaceStateView {
                    post_by_token: old(self)@.post_by_token.insert(token_id@, i),
                    ..old(self)@
                }),
                None => final(self)@ =~= (MarketplaceStateView {
                    post_by_token: old(self)@.post_by_token.remove(token_id@),
                    ..old(self)@
                }),
            },
    {
        match id {
            Some(i) => token_insert(&mut self.post_id_by_token_id, token_id, i),
            None => token_remove(&mut self.post_id_by_token_id, token_id),
        }
        proof {
            assert(self@.listings == old(self)@.listings);
            assert(forall|id: u64| #[trigger]
                self@.listings.contains_key(id) ==> id < self.counters.post_id);
        }
    }

    /// The purse a listing's proceeds are to be paid into.
    pub fn target_purse_by_post_id(&self, post_id: u64) -> (r: Option<u64>)
        requires
            self.wf(),
        ensures
            match r {
                Some(p) => self@.target_purses.contains_key(post_id) && self@.target_purses[post_id]
                    == p,
                None => !self@.target_purses.contains_key(post_id),
            },
    {
        match u64_get(&self.target_purse_by_post_id, post_id) {
            Some(p) => Some(*p),
            None => None,
        }
    }

    /// Record the purse a listing's proceeds are to be paid into.
    pub fn set_target_purse_by_post_id(&mut self, post_id: u64, purse: u64)
        requires
            old(self).wf(),
        ensures
            final(self).wf(),
            final(self)@ =~= (MarketplaceStateView {
                target_purses: old(self)@.target_purses.insert(post_id, purse),
                ..old(self)@
            }),
    {
        u64_insert(&mut self.target_purse_by_post_id, post_id, purse);
        proof {
            assert(self@.listings == old(self)@.listings);
            assert(forall|id: u64| #[trigger]
                self@.listings.contains_key(id) ==> id < self.counters.post_id);
        }
    }

    /// Forget the purse bound to a listing id.
    pub fn unset_target_purse_by_post_id(&mut self, post_id: u64)
        requires
            old(self).wf(),
        ensures
            final(self).wf(),
            final(self)@ =~= (MarketplaceStateView {
                target_purses: old(self)@.target_purses.remove(post_id),
                ..old(self)@
            }),
    {
        u64_remove(&mut self.target_purse_by_post_id, post_id);
        proof {
            assert(self@.listings == old(self)@.listings);
            assert(forall|id: u64| #[trigger]
                self@.listings.contains_key(id) ==> id < self.counters.post_id);
        }
    }

    /// Drop a listing's record once it is settled.
    pub fn remove_listing(&mut self, post_id: u64)
        requires
            old(self).wf(),
        ensures
            final(self).wf(),
            final(self)@ =~= (MarketplaceStateView {
                listings: old(self)@.listings.remove(post_id),
                ..old(self)@
            }),
    {
        u64_remove(&mut self.orderbook_entry_by_id, post_id);
        proof {
            assert forall|id: u64| #[trigger]
                self@.listings.contains_key(id) implies id < self.counters.post_id by {
                assert(old(self)@.listings.contains_key(id));
            }
        }
    }

    /// The custodial layer's undelegation callback: approve the
    /// undelegation exactly when the asset has no active listing.
    pub fn request_undelegate(&self, token_id: &TokenIdentifier, _owner: Key) -> (r: bool)
        requires
            self.wf(),
        ensures
            r == !self@.post_by_token.contains_key(token_id@),
    {
        self.post_id_by_token_id(token_id).is_none()
    }
}

/// Only the seller who posted a listing can cancel it: any other
/// caller fails with the authorization error — and, since a failed
/// cancel leaves the state unchanged, the listing remains present.
pub proof fn lemma_cancel_requires_seller(v: MarketplaceStateView, caller: Key, post_id: u64)
    requires
        v.listings.contains_key(post_id),
        caller != v.listings[post_id].owner,
    ensures
        cancel_spec(v, caller, post_id) == Err::<MarketplaceStateView, _>(
            MarketError::InvalidMethodAccess,
        ),
{
}

/// The settlement-side defence of the royalty-enforced path: the
/// marketplace snapshots its own quote-currency balance around the
/// custodial transfer and accepts the settlement only when the balance
/// fell by exactly the royalty the custodial layer had quoted.  Any
/// other movement aborts the bid with `RoyaltyMismatch`, so a
/// custodial contract that charges differently from its quote cannot
/// settle.
pub fn verify_royalty_delta(quoted: Amount, balance_before: Amount, balance_after: Amount) -> (r:
    Result<(), MarketError>)
    ensures
        match r {
            Ok(()) => balance_after@ + quoted@ == balance_before@,
            Err(e) => e == MarketError::RoyaltyMismatch && balance_after@ + quoted@
                != balance_before@,
        },
{
    let delta = match balance_before.checked_sub(&balance_after) {
        Some(d) => d,
        None => {
            return Err(MarketError::RoyaltyMismatch);
        },
    };
    if delta.eq_value(&quoted) {
        Ok(())
    } else {
        Err(MarketError::RoyaltyMismatch)
    }
}

} // verus!
