//! Token identifiers: an asset is named either by an ordinal index or
//! by an opaque hash string, never both.

use vstd::prelude::*;

verus! {

/// Identifies one asset inside a non-fungible token registry.
#[derive(Clone, Debug)]
pub enum TokenIdentifier {
    /// An ordinal index, for registries in ordinal identifier mode.
    Index(u64),
    /// An opaque hash string, for registries in hash identifier mode.
    Hash(String),
}

/// The mathematical shape of a [`TokenIdentifier`].
pub enum TokenIdentifierView {
    Index(u64),
    Hash(Seq<char>),
}

impl View for TokenIdentifier {
    type V = TokenIdentifierView;

    open spec fn view(&self) -> TokenIdentifierView {
        match self {
            TokenIdentifier::Index(i) => TokenIdentifierView::Index(*i),
            TokenIdentifier::Hash(h) => TokenIdentifierView::Hash(h@),
        }
    }
}

impl PartialEq for TokenIdentifier {
    fn eq(&self, other: &TokenIdentifier) -> (r: bool) {
        match (self, other) {
            (TokenIdentifier::Index(a), TokenIdentifier::Index(b)) => a == b,
            (TokenIdentifier::Hash(a), TokenIdentifier::Hash(b)) => a.eq(b),
            _ => false,
        }
    }
}

impl vstd::std_specs::cmp::PartialEqSpecImpl for TokenIdentifier {
    open spec fn obeys_eq_spec() -> bool {
        true
    }

    open spec fn eq_spec(&self, other: &TokenIdentifier) -> bool {
        self@ == other@
    }
}

impl Eq for TokenIdentifier {}

impl TokenIdentifier {
    /// A copy equal to the original.
    pub fn duplicate(&self) -> (r: TokenIdentifier)
        ensures
            r == *self,
    {
        match self {
            TokenIdentifier::Index(i) => TokenIdentifier::Index(*i),
            TokenIdentifier::Hash(h) => TokenIdentifier::Hash(h.clone()),
        }
    }

    /// Choose the identifier from the two optional entry-point
    /// arguments: an ordinal `token_id` argument takes precedence over
    /// a `token_hash` argument; with neither present there is no
    /// identifier.
    pub fn try_load_from_runtime_args(
        token_id: Option<u64>,
        token_hash: Option<String>,
    ) -> (r: Option<TokenIdentifier>)
        ensures
            match token_id {
                Some(i) => r matches Some(t) && t@ == TokenIdentifierView::Index(i),
                None => match token_hash {
                    Some(h) => r matches Some(t) && t@ == TokenIdentifierView::Hash(h@),
                    None => r is None,
                },
            },
    {
        match token_id {
            Some(i) => Some(TokenIdentifier::Index(i)),
            None => match token_hash {
                Some(h) => Some(TokenIdentifier::Hash(h)),
                None => None,
            },
        }
    }
}

} // verus!
