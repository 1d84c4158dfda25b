//! Error taxonomies of the marketplace and the custodial layer.
//!
//! Every failure aborts the whole call; the caller observes a single
//! error code and no state change.

use vstd::prelude::*;

verus! {

/// Errors shared by utility code.
#[derive(Clone, Copy, Debug, PartialEq, Eq, Structural)]
pub enum CommonError {
    /// Neither an ordinal token id nor a token hash was supplied.
    InvalidTokenIdentifier,
    /// The call context does not grant access to the operation.
    InvalidMethodAccess,
    /// A cached call-context value was set twice.
    InvalidCacheSet,
}

/// Errors of the marketplace / orderbook contract.
#[derive(Clone, Copy, Debug, PartialEq, Eq, Structural)]
pub enum MarketError {
    /// Neither an ordinal token id nor a token hash was supplied.
    InvalidTokenIdentifier,
    /// The caller is not entitled to the operation (e.g. is not the
    /// seller of the listing).
    InvalidMethodAccess,
    /// A bid below the asking price.
    InvalidPaymentAmount,
    /// The marketplace does not hold the approval needed to transfer
    /// the asset at settlement time.
    MustBeApproved,
    /// The quote-currency contract reference was never registered.
    UnsupportedFungibleTokenContract,
    /// The asset-registry contract reference was never registered.
    UnsupportedNFTContract,
    /// No listing exists under the given id.
    UnknownPostId,
    /// No listing exists for the given token.
    UnknownTokenId,
    /// Checked balance arithmetic overflowed.
    ArithmeticOverflow,
    /// The royalty actually collected by the custodial layer differs
    /// from the royalty it quoted.
    RoyaltyMismatch,
}

/// Errors of the custodial royalty layer.
#[derive(Clone, Copy, Debug, PartialEq, Eq, Structural)]
pub enum CustodialError {
    /// The calling marketplace is not on the marketplace whitelist.
    MarketplaceNotWhitelisted,
    /// The operation is reserved to contracts, but the caller is a
    /// plain account.
    CallerMustBeContract,
    /// The caller does not hold the registry approval for the asset.
    CallerMustBeApproved,
    /// Source and target of a transfer coincide.
    SelfTransferForbidden,
    /// The declared source of a transfer is not the asset's recorded
    /// owner.
    SourceMustBeOwner,
    /// An unconsumed royalty payment by the same payer already exists.
    AlreadyPaid,
    /// Royalty arithmetic overflowed.
    Overflow,
    /// The asset already has a real owner on record.
    AlreadyClaimed,
    /// The asset already has an active delegate.
    AlreadyDelegated,
    /// The current delegate vetoed the undelegation.
    UndelegationNotAllowed,
    /// The operation is reserved to the configured manager.
    CallerMustBeManager,
    /// The operation is reserved to the asset's real owner.
    CallerMustBeOwner,
    /// The operation is reserved to the asset's active delegate.
    CallerMustBeDelegate,
    /// The payment token is not on the payment-token whitelist.
    PaymentTokenNotWhitelisted,
    /// The asset is not under custodial management.
    Unmanaged,
}

} // verus!
