//! The events that the operations on the collection emit.

use crate::address::Address;
use vstd::prelude::*;

verus! {

/// A token was minted.
#[derive(Clone, Debug, PartialEq, Eq)]
pub struct Mint {
    /// The id of the new token.
    pub token_id: u64,
}

/// A token was claimed by its first owner.
#[derive(Clone, Debug, PartialEq, Eq)]
pub struct Claim {
    /// The new owner.
    pub claimant: Address,
    /// The id of the claimed token.
    pub token_id: u64,
}

/// A token changed its owner.
#[derive(Clone, Debug, PartialEq, Eq)]
pub struct Transfer {
    /// The previous owner.
    pub from: Address,
    /// The new owner.
    pub to: Address,
    /// The id of the transferred token.
    pub token_id: u64,
}

/// An emitted event.
#[derive(Clone, Debug, PartialEq, Eq)]
pub enum Event {
    /// A token was minted.
    Mint(Mint),
    /// A token was claimed.
    Claim(Claim),
    /// A token was transferred.
    Transfer(Transfer),
}

/// An event as a mathematical value.
pub enum EventRecord {
    /// The token `token_id` was minted.
    Mint { token_id: u64 },
    /// `claimant` claimed the token `token_id`.
    Claim { claimant: Seq<u8>, token_id: u64 },
    /// The token `token_id` went from `from` to `to`.
    Transfer { from: Seq<u8>, to: Seq<u8>, token_id: u64 },
}

impl View for Event {
    type V = EventRecord;

    open spec fn view(&self) -> EventRecord {
        match self {
            Event::Mint(e) => EventRecord::Mint { token_id: e.token_id },
            Event::Claim(e) => EventRecord::Claim { claimant: e.claimant@, token_id: e.token_id },
            Event::Transfer(e) => EventRecord::Transfer {
                from: e.from@,
                to: e.to@,
                token_id: e.token_id,
            },
        }
    }
}

/// The records of a list of events, in their order.
pub open spec fn records(events: Seq<Event>) -> Seq<EventRecord> {
    Seq::new(events.len(), |i: int| events[i]@)
}

} // verus!
