//! The error taxonomy of the token collection.

use vstd::prelude::*;

verus! {

/// Why an operation on the collection was refused.
#[derive(Clone, Copy, Debug, PartialEq, Eq, PartialOrd, Ord, Structural)]
pub enum NonFungibleTokenError {
    /// The token id or chip key does not resolve to a token, or the token has
    /// no owner yet.
    NonExistentToken,
    /// The sender of a transfer is not the token's current owner.
    IncorrectOwner,
    /// A balance would leave the range of its counter.
    MathOverflow,
    /// Every token id up to the configured maximum is in use.
    TokenIDsAreDepleted,
    /// The amount of a batch mint is not acceptable.
    InvalidAmount,
    /// The chip key is already bound to a token, or the token is already
    /// claimed.
    TokenAlreadyMinted,
    /// The base URI is longer than allowed.
    BaseUriMaxLenExceeded,
    /// A royalty of more than 10 000 basis points.
    InvalidRoyaltyAmount,
    /// The signature does not recover to the presented chip key, the nonce is
    /// not above the last accepted one, or the chip key is not the one bound
    /// to the token.
    InvalidSignature,
}

impl NonFungibleTokenError {
    /// The numeric code under which the error is reported.
    pub open spec fn spec_code(self) -> u32 {
        match self {
            NonFungibleTokenError::NonExistentToken => 200,
            NonFungibleTokenError::IncorrectOwner => 201,
            NonFungibleTokenError::MathOverflow => 205,
            NonFungibleTokenError::TokenIDsAreDepleted => 206,
            NonFungibleTokenError::InvalidAmount => 207,
            NonFungibleTokenError::TokenAlreadyMinted => 210,
            NonFungibleTokenError::BaseUriMaxLenExceeded => 211,
            NonFungibleTokenError::InvalidRoyaltyAmount => 212,
            NonFungibleTokenError::InvalidSignature => 214,
        }
    }

    /// The numeric code under which the error is reported.
    #[verifier::when_used_as_spec(spec_code)]
    pub fn code(self) -> (code: u32)
        ensures
            code == self.spec_code(),
    {
        match self {
            NonFungibleTokenError::NonExistentToken => 200,
            NonFungibleTokenError::IncorrectOwner => 201,
            NonFungibleTokenError::MathOverflow => 205,
            NonFungibleTokenError::TokenIDsAreDepleted => 206,
            NonFungibleTokenError::InvalidAmount => 207,
            NonFungibleTokenError::TokenAlreadyMinted => 210,
            NonFungibleTokenError::BaseUriMaxLenExceeded => 211,
            NonFungibleTokenError::InvalidRoyaltyAmount => 212,
            NonFungibleTokenError::InvalidSignature => 214,
        }
    }

    /// The error reported under `code`, if there is one.
    pub fn from_code(code: u32) -> (error: Option<NonFungibleTokenError>)
        ensures
            match error {
                Some(e) => e.spec_code() == code,
                None => forall|e: NonFungibleTokenError| e.spec_code() != code,
            },
    {
        if code == 200 {
            Some(NonFungibleTokenError::NonExistentToken)
        } else if code == 201 {
            Some(NonFungibleTokenError::IncorrectOwner)
        } else if code == 205 {
            Some(NonFungibleTokenError::MathOverflow)
        } else if code == 206 {
            Some(NonFungibleTokenError::TokenIDsAreDepleted)
        } else if code == 207 {
            Some(NonFungibleTokenError::InvalidAmount)
        } else if code == 210 {
            Some(NonFungibleTokenError::TokenAlreadyMinted)
        } else if code == 211 {
            Some(NonFungibleTokenError::BaseUriMaxLenExceeded)
        } else if code == 212 {
            Some(NonFungibleTokenError::InvalidRoyaltyAmount)
        } else if code == 214 {
            Some(NonFungibleTokenError::InvalidSignature)
        } else {
            None
        }
    }
}

} // verus!
