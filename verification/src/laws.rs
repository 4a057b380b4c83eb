//! What holds of the collection over whole histories of requests.
//!
//! The operations are modelled as steps of a state machine over
//! [`ShopState`]: a request that succeeds takes the collection to the state
//! that the operation's contract names, a request that fails leaves it as it
//! is. The theorems below are proved of this machine.

use crate::contract::ShopState;
use crate::counters::{counter, lemma_total_insert, total};
use crate::errors::NonFungibleTokenError;
use crate::events::EventRecord;
use crate::ledger::{
    claimed, first_with_key, lemma_claimed_update, lemma_first_with_key, lemma_owner_owns,
    lemma_same_keys, owned, TokenState,
};
use crate::signature::signature_matches;
use vstd::prelude::*;

verus! {

/// What a chip hands over to authorise a request.
pub struct Envelope {
    /// The signed message.
    pub message: Seq<u8>,
    /// The 64-byte signature.
    pub signature: Seq<u8>,
    /// The recovery id.
    pub recovery_id: u32,
    /// The chip's public key.
    pub public_key: Seq<u8>,
    /// The nonce.
    pub nonce: u32,
}

/// A request to change the collection.
pub enum Request {
    /// Mint a token for the chip of the envelope.
    Mint { envelope: Envelope },
    /// Make `claimant` the owner of the token of the chip of the envelope.
    Claim { claimant: Seq<u8>, envelope: Envelope },
    /// Move the token `token_id` from `from` to `to`.
    Transfer { from: Seq<u8>, to: Seq<u8>, token_id: u64, envelope: Envelope },
}

impl Request {
    /// The envelope of the request.
    pub open spec fn envelope(self) -> Envelope {
        match self {
            Request::Mint { envelope } => envelope,
            Request::Claim { envelope, .. } => envelope,
            Request::Transfer { envelope, .. } => envelope,
        }
    }
}

impl ShopState {
    /// Whether the chip of the envelope authorises a request.
    pub open spec fn authorises(self, envelope: Envelope) -> bool {
        self.accepts(
            envelope.message,
            envelope.signature,
            envelope.recovery_id,
            envelope.public_key,
            envelope.nonce,
        )
    }

    /// The error with which a request fails, `None` where it succeeds.
    pub open spec fn refusal(self, request: Request) -> Option<NonFungibleTokenError> {
        match request {
            Request::Mint { envelope } => match self.mint_result(
                self.authorises(envelope),
                envelope.public_key,
            ) {
                Ok(_) => None,
                Err(e) => Some(e),
            },
            Request::Claim { claimant, envelope } => match self.claim_result(
                self.authorises(envelope),
                claimant,
                envelope.public_key,
            ) {
                Ok(_) => None,
                Err(e) => Some(e),
            },
            Request::Transfer { from, to, token_id, envelope } => match self.transfer_result(
                self.authorises(envelope),
                from,
                to,
                token_id,
                envelope.public_key,
            ) {
                Ok(_) => None,
                Err(e) => Some(e),
            },
        }
    }

    /// Whether a request succeeds.
    pub open spec fn succeeds(self, request: Request) -> bool {
        self.refusal(request) is None
    }

    /// The collection after a request: changed as the operation says where
    /// the request succeeds, unchanged where it fails.
    pub open spec fn handle(self, request: Request) -> ShopState {
        if !self.succeeds(request) {
            self
        } else {
            match request {
                Request::Mint { envelope } => self.after_mint(envelope.public_key, envelope.nonce),
                Request::Claim { claimant, envelope } => self.after_claim(
                    claimant,
                    envelope.public_key,
                    envelope.nonce,
                ),
                Request::Transfer { from, to, token_id, envelope } => self.after_transfer(
                    from,
                    to,
                    token_id,
                    envelope.public_key,
                    envelope.nonce,
                ),
            }
        }
    }
}

/// The collection after a history of requests, oldest first.
pub open spec fn run(state: ShopState, requests: Seq<Request>) -> ShopState
    decreases requests.len(),
{
    if requests.len() == 0 {
        state
    } else {
        run(state, requests.drop_last()).handle(requests.last())
    }
}

/// Whether `earlier` is a collection from which `later` can have come: no
/// token has gone or changed its chip, no owned token has lost its owner, no
/// nonce has gone down and no event has been taken back.
pub open spec fn extends(later: ShopState, earlier: ShopState) -> bool {
    &&& later.admin == earlier.admin
    &&& later.name == earlier.name
    &&& later.symbol == earlier.symbol
    &&& later.base_uri == earlier.base_uri
    &&& later.ledger.max_tokens == earlier.ledger.max_tokens
    &&& earlier.ledger.tokens.len() <= later.ledger.tokens.len()
    &&& forall|id: int|
        0 <= id < earlier.ledger.tokens.len() ==> {
            &&& (#[trigger] later.ledger.tokens[id]).public_key
                == earlier.ledger.tokens[id].public_key
            &&& earlier.ledger.tokens[id].owner is Some ==> later.ledger.tokens[id].owner is Some
        }
    &&& forall|public_key: Seq<u8>|
        earlier.last_nonce(public_key) <= #[trigger] later.last_nonce(public_key)
    &&& earlier.events.len() <= later.events.len()
    &&& forall|i: int| 0 <= i < earlier.events.len() ==> later.events[i] == earlier.events[i]
}

/// A request with a nonce that is not above the last accepted nonce of its
/// chip fails with `InvalidSignature` and changes nothing, whatever it is
/// signed with and whatever it asks for.
pub proof fn stale_nonce_is_refused(state: ShopState, request: Request)
    requires
        request.envelope().nonce <= state.last_nonce(request.envelope().public_key),
    ensures
        !state.authorises(request.envelope()),
        state.refusal(request) == Some(NonFungibleTokenError::InvalidSignature),
        state.handle(request) == state,
{
}

/// A request that the chip does not authorise fails with `InvalidSignature`
/// and changes nothing.
pub proof fn unauthorised_request_is_refused(state: ShopState, request: Request)
    ensures
        !state.authorises(request.envelope()) ==> state.refusal(request) == Some(
            NonFungibleTokenError::InvalidSignature,
        ) && state.handle(request) == state,
{
}

/// A request that has succeeded leaves its nonce as the last accepted one of
/// its chip and every other chip's nonce as it was.
pub proof fn accepted_nonce_is_recorded(state: ShopState, request: Request, public_key: Seq<u8>)
    requires
        state.succeeds(request),
    ensures
        request.envelope().nonce > state.last_nonce(request.envelope().public_key),
        state.handle(request).last_nonce(public_key) == if public_key
            == request.envelope().public_key {
            request.envelope().nonce
        } else {
            state.last_nonce(public_key)
        },
{
}

/// Once a request has succeeded, no request of the same chip with the same or
/// a lower nonce is authorised again: not the same request resubmitted byte
/// for byte, and none with another message or signature.
pub proof fn accepted_request_cannot_be_replayed(
    state: ShopState,
    request: Request,
    replay: Request,
)
    requires
        state.succeeds(request),
        replay.envelope().public_key == request.envelope().public_key,
        replay.envelope().nonce <= request.envelope().nonce,
    ensures
        !state.handle(request).authorises(replay.envelope()),
        state.handle(request).refusal(replay) == Some(NonFungibleTokenError::InvalidSignature),
        state.handle(request).handle(replay) == state.handle(request),
{
    accepted_nonce_is_recorded(state, request, request.envelope().public_key);
}

/// A signed request recovers to at most one public key: if it matches one
/// key, it matches no other.
pub proof fn signature_names_one_key(
    message: Seq<u8>,
    signature: Seq<u8>,
    recovery_id: u32,
    nonce: u32,
    first: Seq<u8>,
    second: Seq<u8>,
)
    ensures
        signature_matches(message, signature, recovery_id, first, nonce) && signature_matches(
            message,
            signature,
            recovery_id,
            second,
            nonce,
        ) ==> first == second,
{
}

/// A successful mint returns the number of tokens minted before it, so that
/// the ids are 0, 1, 2 and so on in the order of the mints.
pub proof fn mint_ids_are_consecutive(state: ShopState, public_key: Seq<u8>, nonce: u32)
    requires
        state.mint_result(true, public_key) is Ok,
    ensures
        state.mint_result(true, public_key) == Ok::<u64, NonFungibleTokenError>(
            state.ledger.tokens.len() as u64,
        ),
        state.ledger.tokens.len() < state.ledger.max_tokens,
        state.after_mint(public_key, nonce).ledger.tokens.len() == state.ledger.tokens.len() + 1,
        state.after_mint(public_key, nonce).ledger.tokens.last() == (TokenState {
            public_key,
            owner: None,
        }),
        state.after_mint(public_key, nonce).events.last() == (EventRecord::Mint {
            token_id: state.ledger.tokens.len() as u64,
        }),
{
}

/// The first mint of a collection returns the id zero.
pub proof fn first_mint_returns_zero(
    admin: Seq<u8>,
    name: Seq<char>,
    symbol: Seq<char>,
    base_uri: Seq<char>,
    max_tokens: u64,
    public_key: Seq<u8>,
)
    requires
        max_tokens > 0,
    ensures
        ShopState::initial(admin, name, symbol, base_uri, max_tokens).mint_result(true, public_key)
            == Ok::<u64, NonFungibleTokenError>(0),
{
    let state = ShopState::initial(admin, name, symbol, base_uri, max_tokens);
    assert(first_with_key(state.ledger.tokens, public_key) is None);
}

/// Once as many tokens are minted as the collection may hold, no mint
/// succeeds. An authorised mint for a chip that is bound to no token fails
/// with `TokenIDsAreDepleted`.
pub proof fn no_mint_beyond_the_maximum(state: ShopState, authorised: bool, public_key: Seq<u8>)
    requires
        state.ledger.tokens.len() >= state.ledger.max_tokens,
    ensures
        state.mint_result(authorised, public_key) is Err,
        authorised && state.ledger.token_id_of(public_key) is None ==> state.mint_result(
            authorised,
            public_key,
        ) == Err::<u64, NonFungibleTokenError>(NonFungibleTokenError::TokenIDsAreDepleted),
{
}

/// In a well-formed collection a chip is bound to at most one token.
pub proof fn chip_binds_one_token(state: ShopState, first: int, second: int)
    requires
        state.wf(),
        0 <= first < state.ledger.tokens.len(),
        0 <= second < state.ledger.tokens.len(),
        state.ledger.tokens[first].public_key == state.ledger.tokens[second].public_key,
    ensures
        first == second,
        state.ledger.token_id_of(state.ledger.tokens[first].public_key) == Some(first),
{
    if first < second {
        assert(state.ledger.tokens[first].public_key != state.ledger.tokens[second].public_key);
    }
    if second < first {
        assert(state.ledger.tokens[second].public_key != state.ledger.tokens[first].public_key);
    }
    lemma_first_with_key(state.ledger.tokens, state.ledger.tokens[first].public_key);
    let found = state.ledger.token_id_of(state.ledger.tokens[first].public_key).unwrap();
    if found < first {
        assert(state.ledger.tokens[found].public_key != state.ledger.tokens[first].public_key);
    }
}

/// A mint for a chip that is bound to a token fails: with `TokenAlreadyMinted`
/// where the request is authorised, with `InvalidSignature` where it is not.
pub proof fn bound_chip_cannot_mint_again(state: ShopState, authorised: bool, public_key: Seq<u8>)
    requires
        state.ledger.token_id_of(public_key) is Some,
    ensures
        state.mint_result(authorised, public_key) == Err::<u64, NonFungibleTokenError>(
            if authorised {
                NonFungibleTokenError::TokenAlreadyMinted
            } else {
                NonFungibleTokenError::InvalidSignature
            },
        ),
{
}

/// After a successful mint, every further mint with the same chip fails with
/// `TokenAlreadyMinted` if it is authorised, however large its nonce.
pub proof fn second_mint_is_refused(
    state: ShopState,
    public_key: Seq<u8>,
    nonce: u32,
    authorised: bool,
)
    requires
        state.mint_result(true, public_key) is Ok,
    ensures
        state.after_mint(public_key, nonce).ledger.token_id_of(public_key) == Some(
            state.ledger.tokens.len() as int,
        ),
        state.after_mint(public_key, nonce).mint_result(authorised, public_key) == Err::<
            u64,
            NonFungibleTokenError,
        >(
            if authorised {
                NonFungibleTokenError::TokenAlreadyMinted
            } else {
                NonFungibleTokenError::InvalidSignature
            },
        ),
{
    let token = TokenState { public_key, owner: None };
    assert(state.ledger.tokens.push(token).drop_last() =~= state.ledger.tokens);
}

/// A token that has an owner cannot be claimed: an authorised claim for its
/// chip fails with `TokenAlreadyMinted`, whoever the claimant is.
pub proof fn owned_token_cannot_be_claimed(
    state: ShopState,
    claimant: Seq<u8>,
    public_key: Seq<u8>,
)
    requires
        state.ledger.token_id_of(public_key) is Some,
        state.ledger.tokens[state.ledger.token_id_of(public_key).unwrap()].owner is Some,
    ensures
        state.claim_result(true, claimant, public_key) == Err::<u64, NonFungibleTokenError>(
            NonFungibleTokenError::TokenAlreadyMinted,
        ),
{
}

/// After a successful claim, every further authorised claim of the same token
/// fails with `TokenAlreadyMinted`, whoever the claimant is.
pub proof fn second_claim_is_refused(
    state: ShopState,
    claimant: Seq<u8>,
    public_key: Seq<u8>,
    nonce: u32,
    next_claimant: Seq<u8>,
)
    requires
        state.claim_result(true, claimant, public_key) is Ok,
    ensures
        state.after_claim(claimant, public_key, nonce).claim_result(
            true,
            next_claimant,
            public_key,
        ) == Err::<u64, NonFungibleTokenError>(NonFungibleTokenError::TokenAlreadyMinted),
{
    let after = state.after_claim(claimant, public_key, nonce);
    lemma_first_with_key(state.ledger.tokens, public_key);
    lemma_same_keys(state.ledger.tokens, after.ledger.tokens, public_key);
}

/// In a well-formed collection the balance of every owner is the number of
/// tokens that the owner holds, and all balances together are the number of
/// claimed tokens.
pub proof fn balances_add_up(state: ShopState, owner: Seq<u8>)
    requires
        state.wf(),
    ensures
        state.ledger.balance_of(owner) == owned(state.ledger.tokens, owner),
        total(state.ledger.balances) == claimed(state.ledger.tokens),
{
}

/// A successful claim raises the sum of all balances by one, as it does the
/// number of claimed tokens.
pub proof fn claim_adds_one_to_the_balances(
    state: ShopState,
    claimant: Seq<u8>,
    public_key: Seq<u8>,
    nonce: u32,
)
    requires
        state.ledger.balances.dom().finite(),
        state.claim_result(true, claimant, public_key) is Ok,
    ensures
        total(state.after_claim(claimant, public_key, nonce).ledger.balances) == total(
            state.ledger.balances,
        ) + 1,
        claimed(state.after_claim(claimant, public_key, nonce).ledger.tokens) == claimed(
            state.ledger.tokens,
        ) + 1,
{
    let id = state.ledger.token_id_of(public_key).unwrap();
    lemma_first_with_key(state.ledger.tokens, public_key);
    lemma_claimed_update(state.ledger.tokens, id, TokenState { public_key, owner: Some(claimant) });
    lemma_total_insert(
        state.ledger.balances,
        claimant,
        (state.ledger.balance_of(claimant) + 1) as u32,
    );
}

/// A successful transfer keeps the sum of all balances and the number of
/// claimed tokens: it takes one from the sender and gives one to the
/// recipient.
pub proof fn transfer_preserves_the_balances(
    state: ShopState,
    from: Seq<u8>,
    to: Seq<u8>,
    token_id: u64,
    public_key: Seq<u8>,
    nonce: u32,
    owner: Seq<u8>,
)
    requires
        state.ledger.balances.dom().finite(),
        state.transfer_result(true, from, to, token_id, public_key) is Ok,
    ensures
        total(state.after_transfer(from, to, token_id, public_key, nonce).ledger.balances)
            == total(state.ledger.balances),
        claimed(state.after_transfer(from, to, token_id, public_key, nonce).ledger.tokens)
            == claimed(state.ledger.tokens),
        state.after_transfer(from, to, token_id, public_key, nonce).ledger.balance_of(owner) == {
            let before = state.ledger.balance_of(owner) as int;
            if from == to {
                before
            } else if owner == from {
                before - 1
            } else if owner == to {
                before + 1
            } else {
                before
            }
        },
{
    let id = token_id as int;
    let token = TokenState { public_key: state.ledger.tokens[id].public_key, owner: Some(to) };
    let debited = state.ledger.debited(from);
    lemma_claimed_update(state.ledger.tokens, id, token);
    lemma_total_insert(state.ledger.balances, from, (state.ledger.balance_of(from) - 1) as u32);
    lemma_total_insert(debited, to, (counter(debited, to) + 1) as u32);
}

/// In a well-formed collection the owner of a token has a balance of at least
/// one, so that a transfer by the owner never fails for want of balance.
pub proof fn owner_has_balance(state: ShopState, token_id: u64, owner: Seq<u8>)
    requires
        state.wf(),
        token_id < state.ledger.tokens.len(),
        state.ledger.tokens[token_id as int].owner == Some(owner),
    ensures
        state.ledger.balance_of(owner) >= 1,
{
    lemma_owner_owns(state.ledger.tokens, token_id as int, owner);
    assert(state.ledger.balance_of(owner) == owned(state.ledger.tokens, owner));
}

/// A transfer of a claimed token by anyone but its owner fails with
/// `IncorrectOwner`, even where the token's own chip authorises it.
pub proof fn transfer_from_non_owner_is_refused(
    state: ShopState,
    from: Seq<u8>,
    to: Seq<u8>,
    token_id: u64,
)
    requires
        token_id < state.ledger.tokens.len(),
        state.ledger.tokens[token_id as int].owner is Some,
        state.ledger.tokens[token_id as int].owner != Some(from),
    ensures
        state.transfer_result(
            true,
            from,
            to,
            token_id,
            state.ledger.tokens[token_id as int].public_key,
        ) == Err::<(), NonFungibleTokenError>(NonFungibleTokenError::IncorrectOwner),
{
}

/// A transfer of a minted token with any chip but the one that the token was
/// minted for fails with `InvalidSignature`, whether or not that chip
/// authorises the request and whoever sends it.
pub proof fn transfer_with_foreign_chip_is_refused(
    state: ShopState,
    authorised: bool,
    from: Seq<u8>,
    to: Seq<u8>,
    token_id: u64,
    public_key: Seq<u8>,
)
    requires
        token_id < state.ledger.tokens.len(),
        state.ledger.tokens[token_id as int].public_key != public_key,
    ensures
        state.transfer_result(authorised, from, to, token_id, public_key) == Err::<
            (),
            NonFungibleTokenError,
        >(NonFungibleTokenError::InvalidSignature),
{
}

/// Every request keeps a well-formed collection well-formed and only ever
/// extends it.
pub proof fn request_extends_the_collection(state: ShopState, request: Request)
    ensures
        state.wf() ==> state.handle(request).wf(),
        extends(state.handle(request), state),
{
    let after = state.handle(request);
    if state.succeeds(request) {
        let public_key = request.envelope().public_key;
        match request {
            Request::Mint { envelope } => {
                if state.wf() {
                    state.ledger.lemma_mint_keeps_wf(public_key);
                }
            },
            Request::Claim { claimant, envelope } => {
                lemma_first_with_key(state.ledger.tokens, public_key);
                if state.wf() {
                    state.ledger.lemma_claim_keeps_wf(claimant, public_key);
                }
            },
            Request::Transfer { from, to, token_id, envelope } => {
                if state.wf() {
                    state.ledger.lemma_transfer_keeps_wf(from, to, token_id, public_key);
                }
            },
        }
        assert forall|key: Seq<u8>| state.last_nonce(key) <= #[trigger] after.last_nonce(key) by {
            accepted_nonce_is_recorded(state, request, key);
        }
    }
}

/// `extends` is transitive.
proof fn lemma_extends_transitive(last: ShopState, middle: ShopState, first: ShopState)
    requires
        extends(last, middle),
        extends(middle, first),
    ensures
        extends(last, first),
{
    assert forall|id: int| 0 <= id < first.ledger.tokens.len() implies {
        &&& (#[trigger] last.ledger.tokens[id]).public_key == first.ledger.tokens[id].public_key
        &&& first.ledger.tokens[id].owner is Some ==> last.ledger.tokens[id].owner is Some
    } by {
        assert(middle.ledger.tokens[id].public_key == first.ledger.tokens[id].public_key);
    }
    assert forall|key: Seq<u8>| first.last_nonce(key) <= #[trigger] last.last_nonce(key) by {
        assert(first.last_nonce(key) <= middle.last_nonce(key));
    }
}

/// Whatever requests a well-formed collection receives, it stays well-formed,
/// and it only ever extends: tokens keep their ids and chips, owned tokens
/// stay owned, nonces do not go down and events are only added.
pub proof fn history_extends_the_collection(state: ShopState, requests: Seq<Request>)
    ensures
        state.wf() ==> run(state, requests).wf(),
        extends(run(state, requests), state),
    decreases requests.len(),
{
    if requests.len() > 0 {
        let before = run(state, requests.drop_last());
        history_extends_the_collection(state, requests.drop_last());
        request_extends_the_collection(before, requests.last());
        lemma_extends_transitive(run(state, requests), before, state);
    }
}

/// Every collection that comes from a newly constructed one by any history of
/// requests is well-formed: its supply is within the maximum, no chip is bound
/// to two tokens, every balance is the number of tokens of its owner, and the
/// balances add up to the number of claimed tokens.
pub proof fn reachable_collections_are_well_formed(
    admin: Seq<u8>,
    name: Seq<char>,
    symbol: Seq<char>,
    base_uri: Seq<char>,
    max_tokens: u64,
    requests: Seq<Request>,
)
    ensures
        run(ShopState::initial(admin, name, symbol, base_uri, max_tokens), requests).wf(),
{
    let state = ShopState::initial(admin, name, symbol, base_uri, max_tokens);
    crate::counters::lemma_total_empty();
    assert(state.wf());
    history_extends_the_collection(state, requests);
}

} // verus!
