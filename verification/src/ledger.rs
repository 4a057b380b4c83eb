//! The token ledger: which chip each token is bound to, who owns it, and how
//! many tokens each owner holds.

use crate::address::Address;
use crate::bytes::bytes_equal;
use crate::counters::{counter, lemma_total_insert, total, Counters};
use crate::errors::NonFungibleTokenError;
use vstd::prelude::*;

verus! {

/// A token as the ledger records it. Its id is its position in the ledger.
pub struct TokenState {
    /// The public key of the chip that the token was minted for.
    pub public_key: Seq<u8>,
    /// The owner, absent until the token is claimed.
    pub owner: Option<Seq<u8>>,
}

/// The id of the first token bound to `public_key`, if there is one.
pub open spec fn first_with_key(tokens: Seq<TokenState>, public_key: Seq<u8>) -> Option<int>
    decreases tokens.len(),
{
    if tokens.len() == 0 {
        None
    } else {
        match first_with_key(tokens.drop_last(), public_key) {
            Some(id) => Some(id),
            None => if tokens.last().public_key == public_key {
                Some(tokens.len() - 1)
            } else {
                None
            },
        }
    }
}

/// The number of tokens that `owner` owns.
pub open spec fn owned(tokens: Seq<TokenState>, owner: Seq<u8>) -> nat
    decreases tokens.len(),
{
    if tokens.len() == 0 {
        0
    } else {
        owned(tokens.drop_last(), owner) + if tokens.last().owner == Some(owner) {
            1nat
        } else {
            0nat
        }
    }
}

/// The number of tokens that have an owner.
pub open spec fn claimed(tokens: Seq<TokenState>) -> nat
    decreases tokens.len(),
{
    if tokens.len() == 0 {
        0
    } else {
        claimed(tokens.drop_last()) + if tokens.last().owner is Some {
            1nat
        } else {
            0nat
        }
    }
}

/// What `first_with_key` finds: the least id whose token is bound to the key.
pub proof fn lemma_first_with_key(tokens: Seq<TokenState>, public_key: Seq<u8>)
    ensures
        match first_with_key(tokens, public_key) {
            Some(id) => {
                &&& 0 <= id < tokens.len()
                &&& tokens[id].public_key == public_key
                &&& forall|j: int| 0 <= j < id ==> tokens[j].public_key != public_key
            },
            None => forall|j: int| 0 <= j < tokens.len() ==> tokens[j].public_key != public_key,
        },
    decreases tokens.len(),
{
    if tokens.len() > 0 {
        let front = tokens.drop_last();
        lemma_first_with_key(front, public_key);
        assert(forall|j: int| 0 <= j < front.len() ==> front[j] == tokens[j]);
    }
}

/// A token found among the first `k` tokens is the one found among all.
proof fn lemma_first_in_prefix(tokens: Seq<TokenState>, k: int, public_key: Seq<u8>)
    requires
        0 <= k <= tokens.len(),
        first_with_key(tokens.take(k), public_key) is Some,
    ensures
        first_with_key(tokens, public_key) == first_with_key(tokens.take(k), public_key),
    decreases tokens.len(),
{
    if k == tokens.len() {
        assert(tokens.take(k) =~= tokens);
    } else {
        assert(tokens.drop_last().take(k) =~= tokens.take(k));
        lemma_first_in_prefix(tokens.drop_last(), k, public_key);
    }
}

/// Two lists of tokens with the same chips, token by token, bind every chip
/// to the same token.
pub proof fn lemma_same_keys(before: Seq<TokenState>, after: Seq<TokenState>, public_key: Seq<u8>)
    requires
        before.len() == after.len(),
        forall|id: int| 0 <= id < before.len() ==> before[id].public_key == after[id].public_key,
    ensures
        first_with_key(after, public_key) == first_with_key(before, public_key),
    decreases before.len(),
{
    if before.len() > 0 {
        lemma_same_keys(before.drop_last(), after.drop_last(), public_key);
    }
}

/// Appending a token adds it to its owner's count.
pub proof fn lemma_owned_push(tokens: Seq<TokenState>, token: TokenState, owner: Seq<u8>)
    ensures
        owned(tokens.push(token), owner) == owned(tokens, owner) + if token.owner == Some(owner) {
            1nat
        } else {
            0nat
        },
{
    assert(tokens.push(token).drop_last() =~= tokens);
}

/// Appending a token adds it to the claimed tokens if it has an owner.
pub proof fn lemma_claimed_push(tokens: Seq<TokenState>, token: TokenState)
    ensures
        claimed(tokens.push(token)) == claimed(tokens) + if token.owner is Some {
            1nat
        } else {
            0nat
        },
{
    assert(tokens.push(token).drop_last() =~= tokens);
}

/// Replacing a token moves it from the count of its old owner to that of its
/// new one.
pub proof fn lemma_owned_update(
    tokens: Seq<TokenState>,
    id: int,
    token: TokenState,
    owner: Seq<u8>,
)
    requires
        0 <= id < tokens.len(),
    ensures
        owned(tokens.update(id, token), owner) + (if tokens[id].owner == Some(owner) {
            1nat
        } else {
            0nat
        }) == owned(tokens, owner) + (if token.owner == Some(owner) {
            1nat
        } else {
            0nat
        }),
    decreases tokens.len(),
{
    let after = tokens.update(id, token);
    if id == tokens.len() - 1 {
        assert(after.drop_last() =~= tokens.drop_last());
    } else {
        lemma_owned_update(tokens.drop_last(), id, token, owner);
        assert(after.drop_last() =~= tokens.drop_last().update(id, token));
    }
}

/// Replacing a token changes the number of claimed tokens by whether the old
/// and the new token have an owner.
pub proof fn lemma_claimed_update(tokens: Seq<TokenState>, id: int, token: TokenState)
    requires
        0 <= id < tokens.len(),
    ensures
        claimed(tokens.update(id, token)) + (if tokens[id].owner is Some {
            1nat
        } else {
            0nat
        }) == claimed(tokens) + (if token.owner is Some {
            1nat
        } else {
            0nat
        }),
    decreases tokens.len(),
{
    let after = tokens.update(id, token);
    if id == tokens.len() - 1 {
        assert(after.drop_last() =~= tokens.drop_last());
    } else {
        lemma_claimed_update(tokens.drop_last(), id, token);
        assert(after.drop_last() =~= tokens.drop_last().update(id, token));
    }
}

/// The owner of a token owns at least that token.
pub proof fn lemma_owner_owns(tokens: Seq<TokenState>, id: int, owner: Seq<u8>)
    requires
        0 <= id < tokens.len(),
        tokens[id].owner == Some(owner),
    ensures
        owned(tokens, owner) >= 1,
    decreases tokens.len(),
{
    if id < tokens.len() - 1 {
        lemma_owner_owns(tokens.drop_last(), id, owner);
    }
}

/// The ledger as a mathematical value.
pub struct LedgerState {
    /// The maximum number of tokens.
    pub max_tokens: u64,
    /// The tokens in the order of their ids, which start at zero.
    pub tokens: Seq<TokenState>,
    /// The number of tokens credited to each owner.
    pub balances: Map<Seq<u8>, u32>,
}

impl LedgerState {
    /// The ledger without tokens.
    pub open spec fn empty(max_tokens: u64) -> LedgerState {
        LedgerState { max_tokens, tokens: Seq::empty(), balances: Map::empty() }
    }

    /// The id of the token bound to `public_key`, if there is one.
    pub open spec fn token_id_of(self, public_key: Seq<u8>) -> Option<int> {
        first_with_key(self.tokens, public_key)
    }

    /// The balance of `owner`: zero where none is recorded.
    pub open spec fn balance_of(self, owner: Seq<u8>) -> u32 {
        counter(self.balances, owner)
    }

    /// No two tokens are bound to the same chip.
    pub open spec fn keys_distinct(self) -> bool {
        forall|i: int, j: int|
            0 <= i < j < self.tokens.len() ==> self.tokens[i].public_key
                != self.tokens[j].public_key
    }

    /// What holds of every ledger that the operations produce: the supply is
    /// within its maximum, every chip is bound to at most one token, every
    /// balance is the number of tokens that the owner owns, and the balances
    /// add up to the number of claimed tokens.
    pub open spec fn wf(self) -> bool {
        &&& self.tokens.len() <= self.max_tokens
        &&& self.keys_distinct()
        &&& self.balances.dom().finite()
        &&& forall|owner: Seq<u8>| self.balance_of(owner) == #[trigger] owned(self.tokens, owner)
        &&& total(self.balances) == claimed(self.tokens)
    }

    /// The outcome of minting a token for the chip with `public_key`.
    pub open spec fn mint_result(self, public_key: Seq<u8>) -> Result<
        u64,
        NonFungibleTokenError,
    > {
        if self.token_id_of(public_key) is Some {
            Err(NonFungibleTokenError::TokenAlreadyMinted)
        } else if self.tokens.len() >= self.max_tokens {
            Err(NonFungibleTokenError::TokenIDsAreDepleted)
        } else {
            Ok(self.tokens.len() as u64)
        }
    }

    /// The ledger after a successful mint.
    pub open spec fn after_mint(self, public_key: Seq<u8>) -> LedgerState {
        LedgerState { tokens: self.tokens.push(TokenState { public_key, owner: None }), ..self }
    }

    /// The outcome of `claimant` claiming the token of the chip with
    /// `public_key`.
    pub open spec fn claim_result(self, claimant: Seq<u8>, public_key: Seq<u8>) -> Result<
        u64,
        NonFungibleTokenError,
    > {
        match self.token_id_of(public_key) {
            None => Err(NonFungibleTokenError::NonExistentToken),
            Some(id) => if self.tokens[id].owner is Some {
                Err(NonFungibleTokenError::TokenAlreadyMinted)
            } else if self.balance_of(claimant) == u32::MAX {
                Err(NonFungibleTokenError::MathOverflow)
            } else {
                Ok(id as u64)
            },
        }
    }

    /// The ledger after a successful claim.
    pub open spec fn after_claim(self, claimant: Seq<u8>, public_key: Seq<u8>) -> LedgerState {
        let id = self.token_id_of(public_key).unwrap();
        LedgerState {
            tokens: self.tokens.update(id, TokenState { public_key, owner: Some(claimant) }),
            balances: self.balances.insert(claimant, (self.balance_of(claimant) + 1) as u32),
            ..self
        }
    }

    /// The balances after one token has been taken from `from`.
    pub open spec fn debited(self, from: Seq<u8>) -> Map<Seq<u8>, u32> {
        self.balances.insert(from, (self.balance_of(from) - 1) as u32)
    }

    /// The outcome of transferring the token `token_id` from `from` to `to`
    /// on the authority of the chip with `public_key`.
    pub open spec fn transfer_result(
        self,
        from: Seq<u8>,
        to: Seq<u8>,
        token_id: u64,
        public_key: Seq<u8>,
    ) -> Result<(), NonFungibleTokenError> {
        if token_id >= self.tokens.len() {
            Err(NonFungibleTokenError::NonExistentToken)
        } else if self.tokens[token_id as int].public_key != public_key {
            Err(NonFungibleTokenError::InvalidSignature)
        } else if self.tokens[token_id as int].owner is None {
            Err(NonFungibleTokenError::NonExistentToken)
        } else if self.tokens[token_id as int].owner != Some(from) {
            Err(NonFungibleTokenError::IncorrectOwner)
        } else if self.balance_of(from) == 0 {
            Err(NonFungibleTokenError::MathOverflow)
        } else if counter(self.debited(from), to) == u32::MAX {
            Err(NonFungibleTokenError::MathOverflow)
        } else {
            Ok(())
        }
    }

    /// The ledger after a successful transfer.
    pub open spec fn after_transfer(self, from: Seq<u8>, to: Seq<u8>, token_id: u64)
        -> LedgerState {
        let debited = self.debited(from);
        LedgerState {
            tokens: self.tokens.update(
                token_id as int,
                TokenState {
                    public_key: self.tokens[token_id as int].public_key,
                    owner: Some(to),
                },
            ),
            balances: debited.insert(to, (counter(debited, to) + 1) as u32),
            ..self
        }
    }

    /// The owner of the token `token_id`, or why there is none.
    pub open spec fn owner_result(self, token_id: u64) -> Result<Seq<u8>, NonFungibleTokenError> {
        if token_id < self.tokens.len() && self.tokens[token_id as int].owner is Some {
            Ok(self.tokens[token_id as int].owner.unwrap())
        } else {
            Err(NonFungibleTokenError::NonExistentToken)
        }
    }

    /// A successful mint keeps the ledger well-formed.
    pub proof fn lemma_mint_keeps_wf(self, public_key: Seq<u8>)
        requires
            self.wf(),
            self.mint_result(public_key) is Ok,
        ensures
            self.after_mint(public_key).wf(),
    {
        let token = TokenState { public_key, owner: None };
        let after = self.after_mint(public_key);
        lemma_first_with_key(self.tokens, public_key);
        lemma_claimed_push(self.tokens, token);
        assert forall|owner: Seq<u8>|
            after.balance_of(owner) == #[trigger] owned(after.tokens, owner) by {
            lemma_owned_push(self.tokens, token, owner);
        }
    }

    /// A successful claim keeps the ledger well-formed.
    pub proof fn lemma_claim_keeps_wf(self, claimant: Seq<u8>, public_key: Seq<u8>)
        requires
            self.wf(),
            self.claim_result(claimant, public_key) is Ok,
        ensures
            self.after_claim(claimant, public_key).wf(),
    {
        let id = self.token_id_of(public_key).unwrap();
        let token = TokenState { public_key, owner: Some(claimant) };
        let after = self.after_claim(claimant, public_key);
        lemma_first_with_key(self.tokens, public_key);
        lemma_claimed_update(self.tokens, id, token);
        lemma_total_insert(self.balances, claimant, (self.balance_of(claimant) + 1) as u32);
        assert forall|owner: Seq<u8>|
            after.balance_of(owner) == #[trigger] owned(after.tokens, owner) by {
            lemma_owned_update(self.tokens, id, token, owner);
            assert(self.balance_of(owner) == owned(self.tokens, owner));
        }
    }

    /// A successful transfer keeps the ledger well-formed.
    pub proof fn lemma_transfer_keeps_wf(
        self,
        from: Seq<u8>,
        to: Seq<u8>,
        token_id: u64,
        public_key: Seq<u8>,
    )
        requires
            self.wf(),
            self.transfer_result(from, to, token_id, public_key) is Ok,
        ensures
            self.after_transfer(from, to, token_id).wf(),
    {
        let id = token_id as int;
        let token = TokenState { public_key: self.tokens[id].public_key, owner: Some(to) };
        let after = self.after_transfer(from, to, token_id);
        let debited = self.debited(from);
        lemma_claimed_update(self.tokens, id, token);
        lemma_total_insert(self.balances, from, (self.balance_of(from) - 1) as u32);
        lemma_total_insert(debited, to, (counter(debited, to) + 1) as u32);
        assert forall|owner: Seq<u8>|
            after.balance_of(owner) == #[trigger] owned(after.tokens, owner) by {
            lemma_owned_update(self.tokens, id, token, owner);
            assert(self.balance_of(owner) == owned(self.tokens, owner));
        }
    }
}

/// A token as the ledger stores it.
struct Token {
    public_key: [u8; 65],
    owner: Option<Address>,
}

impl View for Token {
    type V = TokenState;

    closed spec fn view(&self) -> TokenState {
        TokenState {
            public_key: self.public_key@,
            owner: match self.owner {
                Some(owner) => Some(owner@),
                None => None,
            },
        }
    }
}

/// The states of the stored tokens, in the order of their ids.
spec fn states(tokens: Seq<Token>) -> Seq<TokenState> {
    Seq::new(tokens.len(), |i: int| tokens[i]@)
}

/// The token ledger.
pub struct TokenLedger {
    max_tokens: u64,
    tokens: Vec<Token>,
    balances: Counters,
}

impl View for TokenLedger {
    type V = LedgerState;

    closed spec fn view(&self) -> LedgerState {
        LedgerState {
            max_tokens: self.max_tokens,
            tokens: states(self.tokens@),
            balances: self.balances@,
        }
    }
}

impl TokenLedger {
    /// The ledger without tokens, which will hold at most `max_tokens`.
    pub fn new(max_tokens: u64) -> (ledger: TokenLedger)
        ensures
            ledger@ == LedgerState::empty(max_tokens),
            ledger@.wf(),
    {
        let ledger = TokenLedger { max_tokens, tokens: Vec::new(), balances: Counters::new() };
        proof {
            assert(ledger@.tokens =~= Seq::empty());
            crate::counters::lemma_total_empty();
        }
        ledger
    }

    /// The maximum number of tokens.
    pub fn max_tokens(&self) -> (max_tokens: u64)
        ensures
            max_tokens == self@.max_tokens,
    {
        self.max_tokens
    }

    /// The id that the next minted token receives: the number of tokens minted
    /// so far.
    pub fn next_token_id(&self) -> (next: u64)
        ensures
            next == self@.tokens.len(),
    {
        self.tokens.len() as u64
    }

    /// The position of the first token bound to `public_key`.
    fn find(&self, public_key: &[u8; 65]) -> (found: Option<usize>)
        ensures
            match found {
                Some(id) => self@.token_id_of(public_key@) == Some(id as int) && id
                    < self.tokens@.len(),
                None => self@.token_id_of(public_key@) is None,
            },
    {
        let ghost tokens = self@.tokens;
        let mut i: usize = 0;
        assert(tokens.take(0) =~= Seq::<TokenState>::empty());
        while i < self.tokens.len()
            invariant
                i <= self.tokens@.len(),
                tokens == self@.tokens,
                first_with_key(tokens.take(i as int), public_key@) is None,
            decreases self.tokens@.len() - i,
        {
            proof {
                assert(tokens.take(i + 1).drop_last() =~= tokens.take(i as int));
                assert(tokens.take(i + 1).last() == self.tokens@[i as int]@);
            }
            if bytes_equal(self.tokens[i].public_key.as_slice(), public_key.as_slice()) {
                proof {
                    lemma_first_in_prefix(tokens, i + 1, public_key@);
                }
                return Some(i);
            }
            i += 1;
        }
        assert(tokens.take(i as int) =~= tokens);
        None
    }

    /// The id of the token bound to the chip with `public_key`.
    pub fn token_id(&self, public_key: &[u8; 65]) -> (result: Result<u64, NonFungibleTokenError>)
        ensures
            result == match self@.token_id_of(public_key@) {
                Some(id) => Ok::<u64, NonFungibleTokenError>(id as u64),
                None => Err(NonFungibleTokenError::NonExistentToken),
            },
    {
        match self.find(public_key) {
            Some(id) => Ok(id as u64),
            None => Err(NonFungibleTokenError::NonExistentToken),
        }
    }

    /// The public key of the chip that the token `token_id` is bound to.
    pub fn public_key(&self, token_id: u64) -> (result: Result<[u8; 65], NonFungibleTokenError>)
        ensures
            match result {
                Ok(key) => token_id < self@.tokens.len() && key@
                    == self@.tokens[token_id as int].public_key,
                Err(e) => token_id >= self@.tokens.len() && e
                    == NonFungibleTokenError::NonExistentToken,
            },
    {
        if token_id >= self.tokens.len() as u64 {
            return Err(NonFungibleTokenError::NonExistentToken);
        }
        Ok(self.tokens[token_id as usize].public_key)
    }

    /// The owner of the token `token_id`. A token that was never minted or
    /// never claimed has none.
    pub fn owner_of(&self, token_id: u64) -> (result: Result<Address, NonFungibleTokenError>)
        ensures
            match result {
                Ok(owner) => self@.owner_result(token_id) == Ok::<
                    Seq<u8>,
                    NonFungibleTokenError,
                >(owner@),
                Err(e) => self@.owner_result(token_id) == Err::<Seq<u8>, NonFungibleTokenError>(e),
            },
    {
        if token_id >= self.tokens.len() as u64 {
            return Err(NonFungibleTokenError::NonExistentToken);
        }
        match &self.tokens[token_id as usize].owner {
            Some(owner) => Ok(owner.clone()),
            None => Err(NonFungibleTokenError::NonExistentToken),
        }
    }

    /// The number of tokens that `owner` holds.
    pub fn balance(&self, owner: &Address) -> (balance: u32)
        ensures
            balance == self@.balance_of(owner@),
    {
        self.balances.get(owner.as_bytes())
    }

    /// Mints the next token for the chip with `public_key`, without owner.
    ///
    /// Fails, and changes nothing, if the chip is already bound to a token or
    /// the maximum number of tokens is reached.
    pub fn mint(&mut self, public_key: &[u8; 65]) -> (result: Result<u64, NonFungibleTokenError>)
        ensures
            result == old(self)@.mint_result(public_key@),
            final(self)@ == if result is Ok {
                old(self)@.after_mint(public_key@)
            } else {
                old(self)@
            },
            old(self)@.wf() ==> final(self)@.wf(),
    {
        if self.find(public_key).is_some() {
            return Err(NonFungibleTokenError::TokenAlreadyMinted);
        }
        let token_id = self.tokens.len() as u64;
        if token_id >= self.max_tokens {
            return Err(NonFungibleTokenError::TokenIDsAreDepleted);
        }
        self.tokens.push(Token { public_key: *public_key, owner: None });
        proof {
            assert(self@.tokens =~= old(self)@.after_mint(public_key@).tokens);
            if old(self)@.wf() {
                old(self)@.lemma_mint_keeps_wf(public_key@);
            }
        }
        Ok(token_id)
    }

    /// Makes `claimant` the owner of the token of the chip with `public_key`
    /// and credits the token to the claimant's balance.
    ///
    /// Fails, and changes nothing, if the chip is bound to no token, the token
    /// has an owner, or the claimant's balance is at its maximum.
    pub fn claim(&mut self, claimant: &Address, public_key: &[u8; 65]) -> (result: Result<
        u64,
        NonFungibleTokenError,
    >)
        ensures
            result == old(self)@.claim_result(claimant@, public_key@),
            final(self)@ == if result is Ok {
                old(self)@.after_claim(claimant@, public_key@)
            } else {
                old(self)@
            },
            old(self)@.wf() ==> final(self)@.wf(),
    {
        let id = match self.find(public_key) {
            Some(id) => id,
            None => {
                return Err(NonFungibleTokenError::NonExistentToken);
            },
        };
        if self.tokens[id].owner.is_some() {
            return Err(NonFungibleTokenError::TokenAlreadyMinted);
        }
        let balance = match self.balances.get(claimant.as_bytes()).checked_add(1) {
            Some(balance) => balance,
            None => {
                return Err(NonFungibleTokenError::MathOverflow);
            },
        };
        proof {
            lemma_first_with_key(old(self)@.tokens, public_key@);
        }
        self.tokens[id].owner = Some(claimant.clone());
        self.balances.set(claimant.as_bytes(), balance);
        proof {
            assert(self@.tokens =~= old(self)@.after_claim(claimant@, public_key@).tokens);
            if old(self)@.wf() {
                old(self)@.lemma_claim_keeps_wf(claimant@, public_key@);
            }
        }
        Ok(id as u64)
    }

    /// Moves the token `token_id` from `from` to `to` on the authority of the
    /// chip with `public_key`, and moves one unit of balance with it.
    ///
    /// Fails, and changes nothing, if the token was never minted, is bound to
    /// another chip, was never claimed, is not owned by `from`, or a balance
    /// would leave its range.
    pub fn transfer(
        &mut self,
        from: &Address,
        to: &Address,
        token_id: u64,
        public_key: &[u8; 65],
    ) -> (result: Result<(), NonFungibleTokenError>)
        ensures
            result == old(self)@.transfer_result(from@, to@, token_id, public_key@),
            final(self)@ == if result is Ok {
                old(self)@.after_transfer(from@, to@, token_id)
            } else {
                old(self)@
            },
            old(self)@.wf() ==> final(self)@.wf(),
    {
        if token_id >= self.tokens.len() as u64 {
            return Err(NonFungibleTokenError::NonExistentToken);
        }
        let id = token_id as usize;
        if !bytes_equal(self.tokens[id].public_key.as_slice(), public_key.as_slice()) {
            return Err(NonFungibleTokenError::InvalidSignature);
        }
        match &self.tokens[id].owner {
            None => {
                return Err(NonFungibleTokenError::NonExistentToken);
            },
            Some(owner) => {
                if !owner.same_as(from) {
                    return Err(NonFungibleTokenError::IncorrectOwner);
                }
            },
        }
        let from_balance = match self.balances.get(from.as_bytes()).checked_sub(1) {
            Some(balance) => balance,
            None => {
                return Err(NonFungibleTokenError::MathOverflow);
            },
        };
        let to_before = if from.same_as(to) {
            from_balance
        } else {
            self.balances.get(to.as_bytes())
        };
        let to_balance = match to_before.checked_add(1) {
            Some(balance) => balance,
            None => {
                return Err(NonFungibleTokenError::MathOverflow);
            },
        };
        self.tokens[id].owner = Some(to.clone());
        self.balances.set(from.as_bytes(), from_balance);
        self.balances.set(to.as_bytes(), to_balance);
        proof {
            assert(self@.tokens =~= old(self)@.after_transfer(from@, to@, token_id).tokens);
            if old(self)@.wf() {
                old(self)@.lemma_transfer_keeps_wf(from@, to@, token_id, public_key@);
            }
        }
        Ok(())
    }
}

} // verus!
