//! The collection: chip-authorised minting, claiming and transfer of tokens.
//!
//! Every operation first has the request authorised by the chip, then changes
//! the ledger, advances the chip's nonce and records an event. An operation
//! that fails changes nothing.

use crate::address::Address;
use crate::counters::counter;
use crate::errors::NonFungibleTokenError;
use crate::events::{records, Claim, Event, EventRecord, Mint, Transfer};
use crate::ledger::{LedgerState, TokenLedger};
use crate::nonce::NonceRegistry;
use crate::signature::{accepts, verify_chip_signature};
use crate::uri::{token_uri, uri_of};
use vstd::prelude::*;

verus! {

/// The collection as a mathematical value.
pub struct ShopState {
    /// The administrator.
    pub admin: Seq<u8>,
    /// The name of the collection.
    pub name: Seq<char>,
    /// The symbol of the collection.
    pub symbol: Seq<char>,
    /// The URI under which the tokens' URIs lie.
    pub base_uri: Seq<char>,
    /// The tokens and balances.
    pub ledger: LedgerState,
    /// The last accepted nonce of each chip that has been used.
    pub nonces: Map<Seq<u8>, u32>,
    /// The events emitted so far, oldest first.
    pub events: Seq<EventRecord>,
}

impl ShopState {
    /// The collection right after its construction.
    pub open spec fn initial(
        admin: Seq<u8>,
        name: Seq<char>,
        symbol: Seq<char>,
        base_uri: Seq<char>,
        max_tokens: u64,
    ) -> ShopState {
        ShopState {
            admin,
            name,
            symbol,
            base_uri,
            ledger: LedgerState::empty(max_tokens),
            nonces: Map::empty(),
            events: Seq::empty(),
        }
    }

    /// What holds of every collection that the operations produce.
    pub open spec fn wf(self) -> bool {
        self.ledger.wf()
    }

    /// The last nonce accepted for the chip with `public_key`, zero if none.
    pub open spec fn last_nonce(self, public_key: Seq<u8>) -> u32 {
        counter(self.nonces, public_key)
    }

    /// Whether the chip with `public_key` authorises a request: the nonce is
    /// above the chip's last accepted one and the signature recovers to the
    /// chip's key.
    pub open spec fn accepts(
        self,
        message: Seq<u8>,
        signature: Seq<u8>,
        recovery_id: u32,
        public_key: Seq<u8>,
        nonce: u32,
    ) -> bool {
        accepts(self.nonces, message, signature, recovery_id, public_key, nonce)
    }

    /// The collection with one more event and the nonce of a chip advanced.
    pub open spec fn committed(
        self,
        ledger: LedgerState,
        public_key: Seq<u8>,
        nonce: u32,
        event: EventRecord,
    ) -> ShopState {
        ShopState {
            ledger,
            nonces: self.nonces.insert(public_key, nonce),
            events: self.events.push(event),
            ..self
        }
    }

    /// The outcome of a mint request, given whether the chip authorises it.
    pub open spec fn mint_result(self, authorised: bool, public_key: Seq<u8>) -> Result<
        u64,
        NonFungibleTokenError,
    > {
        if authorised {
            self.ledger.mint_result(public_key)
        } else {
            Err(NonFungibleTokenError::InvalidSignature)
        }
    }

    /// The collection after a successful mint with `nonce`.
    pub open spec fn after_mint(self, public_key: Seq<u8>, nonce: u32) -> ShopState {
        self.committed(
            self.ledger.after_mint(public_key),
            public_key,
            nonce,
            EventRecord::Mint { token_id: self.ledger.tokens.len() as u64 },
        )
    }

    /// The outcome of a claim request, given whether the chip authorises it.
    pub open spec fn claim_result(
        self,
        authorised: bool,
        claimant: Seq<u8>,
        public_key: Seq<u8>,
    ) -> Result<u64, NonFungibleTokenError> {
        if authorised {
            self.ledger.claim_result(claimant, public_key)
        } else {
            Err(NonFungibleTokenError::InvalidSignature)
        }
    }

    /// The collection after a successful claim with `nonce`.
    pub open spec fn after_claim(self, claimant: Seq<u8>, public_key: Seq<u8>, nonce: u32)
        -> ShopState {
        self.committed(
            self.ledger.after_claim(claimant, public_key),
            public_key,
            nonce,
            EventRecord::Claim {
                claimant,
                token_id: self.ledger.token_id_of(public_key).unwrap() as u64,
            },
        )
    }

    /// The outcome of a transfer request, given whether the chip authorises
    /// it.
    pub open spec fn transfer_result(
        self,
        authorised: bool,
        from: Seq<u8>,
        to: Seq<u8>,
        token_id: u64,
        public_key: Seq<u8>,
    ) -> Result<(), NonFungibleTokenError> {
        if authorised {
            self.ledger.transfer_result(from, to, token_id, public_key)
        } else {
            Err(NonFungibleTokenError::InvalidSignature)
        }
    }

    /// The collection after a successful transfer with `nonce`.
    pub open spec fn after_transfer(
        self,
        from: Seq<u8>,
        to: Seq<u8>,
        token_id: u64,
        public_key: Seq<u8>,
        nonce: u32,
    ) -> ShopState {
        self.committed(
            self.ledger.after_transfer(from, to, token_id),
            public_key,
            nonce,
            EventRecord::Transfer { from, to, token_id },
        )
    }

    /// The URI of the token `token_id`, which only a minted token has.
    pub open spec fn token_uri_result(self, token_id: u64) -> Result<
        Seq<char>,
        NonFungibleTokenError,
    > {
        if token_id < self.ledger.tokens.len() {
            Ok(uri_of(self.base_uri, token_id))
        } else {
            Err(NonFungibleTokenError::NonExistentToken)
        }
    }
}

/// The characters of the text of a result.
pub open spec fn text_of(result: Result<String, NonFungibleTokenError>) -> Result<
    Seq<char>,
    NonFungibleTokenError,
> {
    match result {
        Ok(text) => Ok(text@),
        Err(e) => Err(e),
    }
}

/// The bytes of the address of a result.
pub open spec fn address_of(result: Result<Address, NonFungibleTokenError>) -> Result<
    Seq<u8>,
    NonFungibleTokenError,
> {
    match result {
        Ok(address) => Ok(address@),
        Err(e) => Err(e),
    }
}

/// The bytes of the key of a result.
pub open spec fn key_of(result: Result<[u8; 65], NonFungibleTokenError>) -> Result<
    Seq<u8>,
    NonFungibleTokenError,
> {
    match result {
        Ok(key) => Ok(key@),
        Err(e) => Err(e),
    }
}

/// The operations of a collection whose tokens are bound to chips.
///
/// A request is a message, a 64-byte signature, a recovery id from 0 to 3,
/// the chip's 65-byte public key and a nonce. The host holds byte strings of
/// at most `u32::MAX` bytes, which bounds the message together with the
/// eight bytes of the encoded nonce.
pub trait NFCtoNFTContract: Sized {
    /// The collection as a mathematical value.
    spec fn state(&self) -> ShopState;

    /// Constructs the collection, without tokens.
    fn __constructor(admin: Address, name: String, symbol: String, uri: String, max_tokens: u64)
        -> (shop: Self)
        ensures
            shop.state() == ShopState::initial(admin@, name@, symbol@, uri@, max_tokens),
            shop.state().wf(),
    ;

    /// Mints the next token for the chip with `public_key` and returns its
    /// id. The token has no owner until it is claimed.
    ///
    /// Fails with `InvalidSignature` if the chip does not authorise the
    /// request, with `TokenAlreadyMinted` if the chip is bound to a token, and
    /// with `TokenIDsAreDepleted` if the maximum number of tokens is reached,
    /// in this order.
    fn mint(
        &mut self,
        message: Vec<u8>,
        signature: [u8; 64],
        recovery_id: u32,
        public_key: [u8; 65],
        nonce: u32,
    ) -> (result: Result<u64, NonFungibleTokenError>)
        requires
            message@.len() + 8 <= u32::MAX,
        ensures
            result == old(self).state().mint_result(
                old(self).state().accepts(message@, signature@, recovery_id, public_key@, nonce),
                public_key@,
            ),
            final(self).state() == if result is Ok {
                old(self).state().after_mint(public_key@, nonce)
            } else {
                old(self).state()
            },
            recovery_id > 3 ==> result == Err::<u64, NonFungibleTokenError>(
                NonFungibleTokenError::InvalidSignature,
            ),
            old(self).state().wf() ==> final(self).state().wf(),
    ;

    /// Makes `claimant` the first owner of the token of the chip with
    /// `public_key` and returns the token's id.
    ///
    /// Fails with `InvalidSignature` if the chip does not authorise the
    /// request, with `NonExistentToken` if the chip is bound to no token, with
    /// `TokenAlreadyMinted` if the token has an owner, and with `MathOverflow`
    /// if the claimant's balance is at its maximum, in this order.
    fn claim(
        &mut self,
        claimant: Address,
        message: Vec<u8>,
        signature: [u8; 64],
        recovery_id: u32,
        public_key: [u8; 65],
        nonce: u32,
    ) -> (result: Result<u64, NonFungibleTokenError>)
        requires
            message@.len() + 8 <= u32::MAX,
        ensures
            result == old(self).state().claim_result(
                old(self).state().accepts(message@, signature@, recovery_id, public_key@, nonce),
                claimant@,
                public_key@,
            ),
            final(self).state() == if result is Ok {
                old(self).state().after_claim(claimant@, public_key@, nonce)
            } else {
                old(self).state()
            },
            recovery_id > 3 ==> result == Err::<u64, NonFungibleTokenError>(
                NonFungibleTokenError::InvalidSignature,
            ),
            old(self).state().wf() ==> final(self).state().wf(),
    ;

    /// Transfers the token `token_id` from `from` to `to` on the authority of
    /// the chip that the token was minted for.
    ///
    /// Fails with `InvalidSignature` if the chip with `public_key` does not
    /// authorise the request, with `NonExistentToken` if the token was never
    /// minted, with `InvalidSignature` if it is bound to another chip, with
    /// `NonExistentToken` if it was never claimed, with `IncorrectOwner` if
    /// `from` does not own it, and with `MathOverflow` if a balance would
    /// leave its range, in this order.
    fn transfer(
        &mut self,
        from: Address,
        to: Address,
        token_id: u64,
        message: Vec<u8>,
        signature: [u8; 64],
        recovery_id: u32,
        public_key: [u8; 65],
        nonce: u32,
    ) -> (result: Result<(), NonFungibleTokenError>)
        requires
            message@.len() + 8 <= u32::MAX,
        ensures
            result == old(self).state().transfer_result(
                old(self).state().accepts(message@, signature@, recovery_id, public_key@, nonce),
                from@,
                to@,
                token_id,
                public_key@,
            ),
            final(self).state() == if result is Ok {
                old(self).state().after_transfer(from@, to@, token_id, public_key@, nonce)
            } else {
                old(self).state()
            },
            recovery_id > 3 ==> result == Err::<(), NonFungibleTokenError>(
                NonFungibleTokenError::InvalidSignature,
            ),
            old(self).state().wf() ==> final(self).state().wf(),
    ;

    /// The last nonce accepted for the chip with `public_key`, zero if the
    /// chip was never used.
    fn get_nonce(&self, public_key: [u8; 65]) -> (nonce: u32)
        ensures
            nonce == self.state().last_nonce(public_key@),
    ;

    /// The number of tokens in the account of `owner`.
    fn balance(&self, owner: Address) -> (balance: u32)
        ensures
            balance == self.state().ledger.balance_of(owner@),
    ;

    /// The owner of the token `token_id`. Fails with `NonExistentToken` if the
    /// token was never minted or never claimed.
    fn owner_of(&self, token_id: u64) -> (result: Result<Address, NonFungibleTokenError>)
        ensures
            address_of(result) == self.state().ledger.owner_result(token_id),
    ;

    /// The name of the collection.
    fn name(&self) -> (name: String)
        ensures
            name@ == self.state().name,
    ;

    /// The symbol of the collection.
    fn symbol(&self) -> (symbol: String)
        ensures
            symbol@ == self.state().symbol,
    ;

    /// The URI of the token `token_id`: the base URI, a slash, and the id as a
    /// decimal numeral. Fails with `NonExistentToken` if the token was never
    /// minted.
    fn token_uri(&self, token_id: u64) -> (result: Result<String, NonFungibleTokenError>)
        ensures
            text_of(result) == self.state().token_uri_result(token_id),
    ;

    /// The id of the token of the chip with `public_key`. Fails with
    /// `NonExistentToken` if the chip is bound to no token.
    fn token_id(&self, public_key: [u8; 65]) -> (result: Result<u64, NonFungibleTokenError>)
        ensures
            result == match self.state().ledger.token_id_of(public_key@) {
                Some(id) => Ok::<u64, NonFungibleTokenError>(id as u64),
                None => Err(NonFungibleTokenError::NonExistentToken),
            },
    ;

    /// The public key of the chip that the token `token_id` is bound to.
    /// Fails with `NonExistentToken` if the token was never minted.
    fn public_key(&self, token_id: u64) -> (result: Result<[u8; 65], NonFungibleTokenError>)
        ensures
            key_of(result) == if token_id < self.state().ledger.tokens.len() {
                Ok::<Seq<u8>, NonFungibleTokenError>(
                    self.state().ledger.tokens[token_id as int].public_key,
                )
            } else {
                Err(NonFungibleTokenError::NonExistentToken)
            },
    ;
}

/// The collection.
pub struct StellarMerchShop {
    admin: Address,
    name: String,
    symbol: String,
    base_uri: String,
    ledger: TokenLedger,
    nonces: NonceRegistry,
    events: Vec<Event>,
}

impl View for StellarMerchShop {
    type V = ShopState;

    closed spec fn view(&self) -> ShopState {
        ShopState {
            admin: self.admin@,
            name: self.name@,
            symbol: self.symbol@,
            base_uri: self.base_uri@,
            ledger: self.ledger@,
            nonces: self.nonces@,
            events: records(self.events@),
        }
    }
}

impl StellarMerchShop {
    /// The administrator of the collection.
    pub fn admin(&self) -> (admin: &Address)
        ensures
            admin@ == self@.admin,
    {
        &self.admin
    }

    /// The maximum number of tokens.
    pub fn max_tokens(&self) -> (max_tokens: u64)
        ensures
            max_tokens == self@.ledger.max_tokens,
    {
        self.ledger.max_tokens()
    }

    /// The id that the next minted token receives.
    pub fn next_token_id(&self) -> (next: u64)
        ensures
            next == self@.ledger.tokens.len(),
    {
        self.ledger.next_token_id()
    }

    /// The events emitted so far, oldest first.
    pub fn events(&self) -> (events: &Vec<Event>)
        ensures
            records(events@) == self@.events,
    {
        &self.events
    }

    /// Advances the nonce of the chip and records the event of an operation
    /// that has succeeded.
    fn commit(&mut self, public_key: &[u8; 65], nonce: u32, event: Event)
        requires
            nonce > old(self)@.last_nonce(public_key@),
        ensures
            final(self)@ == old(self)@.committed(old(self)@.ledger, public_key@, nonce, event@),
    {
        self.nonces.advance_nonce(public_key, nonce);
        self.events.push(event);
        assert(records(self.events@) =~= records(old(self).events@).push(event@));
    }
}

impl NFCtoNFTContract for StellarMerchShop {
    open spec fn state(&self) -> ShopState {
        self@
    }

    fn __constructor(admin: Address, name: String, symbol: String, uri: String, max_tokens: u64)
        -> (shop: Self) {
        let shop = StellarMerchShop {
            admin,
            name,
            symbol,
            base_uri: uri,
            ledger: TokenLedger::new(max_tokens),
            nonces: NonceRegistry::new(),
            events: Vec::new(),
        };
        assert(shop@.events =~= Seq::empty());
        shop
    }

    fn mint(
        &mut self,
        message: Vec<u8>,
        signature: [u8; 64],
        recovery_id: u32,
        public_key: [u8; 65],
        nonce: u32,
    ) -> (result: Result<u64, NonFungibleTokenError>) {
        match verify_chip_signature(
            &self.nonces,
            message.as_slice(),
            &signature,
            recovery_id,
            &public_key,
            nonce,
        ) {
            Ok(()) => {},
            Err(e) => {
                return Err(e);
            },
        }
        let token_id = match self.ledger.mint(&public_key) {
            Ok(token_id) => token_id,
            Err(e) => {
                return Err(e);
            },
        };
        self.commit(&public_key, nonce, Event::Mint(Mint { token_id }));
        Ok(token_id)
    }

    fn claim(
        &mut self,
        claimant: Address,
        message: Vec<u8>,
        signature: [u8; 64],
        recovery_id: u32,
        public_key: [u8; 65],
        nonce: u32,
    ) -> (result: Result<u64, NonFungibleTokenError>) {
        match verify_chip_signature(
            &self.nonces,
            message.as_slice(),
            &signature,
            recovery_id,
            &public_key,
            nonce,
        ) {
            Ok(()) => {},
            Err(e) => {
                return Err(e);
            },
        }
        let token_id = match self.ledger.claim(&claimant, &public_key) {
            Ok(token_id) => token_id,
            Err(e) => {
                return Err(e);
            },
        };
        self.commit(&public_key, nonce, Event::Claim(Claim { claimant, token_id }));
        Ok(token_id)
    }

    fn transfer(
        &mut self,
        from: Address,
        to: Address,
        token_id: u64,
        message: Vec<u8>,
        signature: [u8; 64],
        recovery_id: u32,
        public_key: [u8; 65],
        nonce: u32,
    ) -> (result: Result<(), NonFungibleTokenError>) {
        match verify_chip_signature(
            &self.nonces,
            message.as_slice(),
            &signature,
            recovery_id,
            &public_key,
            nonce,
        ) {
            Ok(()) => {},
            Err(e) => {
                return Err(e);
            },
        }
        match self.ledger.transfer(&from, &to, token_id, &public_key) {
            Ok(()) => {},
            Err(e) => {
                return Err(e);
            },
        }
        self.commit(&public_key, nonce, Event::Transfer(Transfer { from, to, token_id }));
        Ok(())
    }

    fn get_nonce(&self, public_key: [u8; 65]) -> (nonce: u32) {
        self.nonces.get_nonce(&public_key)
    }

    fn balance(&self, owner: Address) -> (balance: u32) {
        self.ledger.balance(&owner)
    }

    fn owner_of(&self, token_id: u64) -> (result: Result<Address, NonFungibleTokenError>) {
        self.ledger.owner_of(token_id)
    }

    fn name(&self) -> (name: String) {
        self.name.clone()
    }

    fn symbol(&self) -> (symbol: String) {
        self.symbol.clone()
    }

    fn token_uri(&self, token_id: u64) -> (result: Result<String, NonFungibleTokenError>) {
        if token_id >= self.ledger.next_token_id() {
            return Err(NonFungibleTokenError::NonExistentToken);
        }
        Ok(token_uri(&self.base_uri, token_id))
    }

    fn token_id(&self, public_key: [u8; 65]) -> (result: Result<u64, NonFungibleTokenError>) {
        self.ledger.token_id(&public_key)
    }

    fn public_key(&self, token_id: u64) -> (result: Result<[u8; 65], NonFungibleTokenError>) {
        self.ledger.public_key(token_id)
    }
}

} // verus!
