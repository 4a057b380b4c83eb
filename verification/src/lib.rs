//! A collection of tokens whose minting, claiming and transfer are authorised
//! by physical chips.
//!
//! Every token is bound to one secure element, a chip that holds an ECDSA
//! secp256k1 key. A request to change the collection carries a message, a
//! nonce and the chip's signature over both; it is accepted when the nonce is
//! above the last one accepted for the chip and the signature recovers to the
//! chip's public key. An accepted request is single-use: the operation that
//! it authorises advances the chip's nonce.
//!
//! * [`signature`] is the authorisation protocol, [`nonce`] the registry of
//!   accepted nonces.
//! * [`ledger`] holds the tokens, their owners and the owners' balances.
//! * [`contract`] is the collection itself: it authorises a request, changes
//!   the ledger, advances the nonce and records an event, or fails and
//!   changes nothing.
//! * [`laws`] proves what holds of the collection over whole histories of
//!   requests.
//! * [`host`] holds the calls into the Soroban host, which are trusted and
//!   not verified: SHA-256, secp256k1 key recovery and the XDR form of a
//!   nonce.

pub mod address;
pub mod bytes;
pub mod contract;
pub mod counters;
pub mod errors;
pub mod events;
pub mod host;
pub mod laws;
pub mod ledger;
pub mod nonce;
pub mod signature;
pub mod uri;

pub use address::Address;
pub use contract::{NFCtoNFTContract, StellarMerchShop};
pub use errors::NonFungibleTokenError;
