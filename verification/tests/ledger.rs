use stellar_merch_shop::counters::Counters;
use stellar_merch_shop::errors::NonFungibleTokenError;
use stellar_merch_shop::ledger::TokenLedger;
use stellar_merch_shop::Address;

fn key(tag: u8) -> [u8; 65] {
    let mut key = [tag; 65];
    key[0] = 4;
    key
}

fn address(tag: u8) -> Address {
    Address::new(vec![tag; 32])
}

#[test]
fn new_ledger_is_empty() {
    let ledger = TokenLedger::new(5);
    assert_eq!(ledger.max_tokens(), 5);
    assert_eq!(ledger.next_token_id(), 0);
    assert_eq!(ledger.token_id(&key(1)), Err(NonFungibleTokenError::NonExistentToken));
    assert_eq!(ledger.public_key(0), Err(NonFungibleTokenError::NonExistentToken));
    assert_eq!(ledger.owner_of(0), Err(NonFungibleTokenError::NonExistentToken));
    assert_eq!(ledger.balance(&address(1)), 0);
}

#[test]
fn mint_assigns_ids_in_order() {
    let mut ledger = TokenLedger::new(5);
    for i in 0..5u8 {
        assert_eq!(ledger.next_token_id(), i as u64);
        assert_eq!(ledger.mint(&key(i)), Ok(i as u64));
    }
    for i in 0..5u8 {
        assert_eq!(ledger.token_id(&key(i)), Ok(i as u64));
        assert_eq!(ledger.public_key(i as u64), Ok(key(i)));
        assert_eq!(ledger.owner_of(i as u64), Err(NonFungibleTokenError::NonExistentToken));
    }
    assert_eq!(ledger.public_key(5), Err(NonFungibleTokenError::NonExistentToken));
    assert_eq!(ledger.public_key(u64::MAX), Err(NonFungibleTokenError::NonExistentToken));
}

#[test]
fn mint_refuses_a_bound_chip_and_a_full_ledger() {
    let mut ledger = TokenLedger::new(2);
    assert_eq!(ledger.mint(&key(1)), Ok(0));
    assert_eq!(ledger.mint(&key(1)), Err(NonFungibleTokenError::TokenAlreadyMinted));
    assert_eq!(ledger.next_token_id(), 1);
    assert_eq!(ledger.mint(&key(2)), Ok(1));
    assert_eq!(ledger.mint(&key(3)), Err(NonFungibleTokenError::TokenIDsAreDepleted));
    // a bound chip is refused as bound, also when the ledger is full
    assert_eq!(ledger.mint(&key(2)), Err(NonFungibleTokenError::TokenAlreadyMinted));
    assert_eq!(ledger.next_token_id(), 2);
    assert_eq!(ledger.token_id(&key(3)), Err(NonFungibleTokenError::NonExistentToken));
}

#[test]
fn ledger_without_supply_mints_nothing() {
    let mut ledger = TokenLedger::new(0);
    assert_eq!(ledger.mint(&key(1)), Err(NonFungibleTokenError::TokenIDsAreDepleted));
    assert_eq!(ledger.next_token_id(), 0);
}

#[test]
fn claim_sets_the_owner_once() {
    let mut ledger = TokenLedger::new(5);
    assert_eq!(ledger.claim(&address(1), &key(1)), Err(NonFungibleTokenError::NonExistentToken));
    assert_eq!(ledger.mint(&key(1)), Ok(0));
    assert_eq!(ledger.mint(&key(2)), Ok(1));
    assert_eq!(ledger.claim(&address(1), &key(2)), Ok(1));
    assert_eq!(ledger.owner_of(1), Ok(address(1)));
    assert_eq!(ledger.owner_of(0), Err(NonFungibleTokenError::NonExistentToken));
    assert_eq!(ledger.balance(&address(1)), 1);
    assert_eq!(ledger.claim(&address(1), &key(2)), Err(NonFungibleTokenError::TokenAlreadyMinted));
    assert_eq!(ledger.claim(&address(2), &key(2)), Err(NonFungibleTokenError::TokenAlreadyMinted));
    assert_eq!(ledger.owner_of(1), Ok(address(1)));
    assert_eq!(ledger.balance(&address(1)), 1);
    assert_eq!(ledger.balance(&address(2)), 0);
    assert_eq!(ledger.claim(&address(1), &key(1)), Ok(0));
    assert_eq!(ledger.balance(&address(1)), 2);
}

#[test]
fn transfer_checks_token_chip_and_owner_in_order() {
    let mut ledger = TokenLedger::new(5);
    assert_eq!(ledger.mint(&key(1)), Ok(0));
    assert_eq!(ledger.mint(&key(2)), Ok(1));
    assert_eq!(ledger.claim(&address(1), &key(1)), Ok(0));
    // never minted
    assert_eq!(
        ledger.transfer(&address(1), &address(2), 2, &key(1)),
        Err(NonFungibleTokenError::NonExistentToken)
    );
    assert_eq!(
        ledger.transfer(&address(1), &address(2), u64::MAX, &key(1)),
        Err(NonFungibleTokenError::NonExistentToken)
    );
    // bound to another chip
    assert_eq!(
        ledger.transfer(&address(1), &address(2), 0, &key(2)),
        Err(NonFungibleTokenError::InvalidSignature)
    );
    // bound to another chip and never claimed: the chip is looked at first
    assert_eq!(
        ledger.transfer(&address(1), &address(2), 1, &key(1)),
        Err(NonFungibleTokenError::InvalidSignature)
    );
    // never claimed
    assert_eq!(
        ledger.transfer(&address(1), &address(2), 1, &key(2)),
        Err(NonFungibleTokenError::NonExistentToken)
    );
    // not the owner
    assert_eq!(
        ledger.transfer(&address(2), &address(3), 0, &key(1)),
        Err(NonFungibleTokenError::IncorrectOwner)
    );
    assert_eq!(ledger.owner_of(0), Ok(address(1)));
    assert_eq!(ledger.balance(&address(1)), 1);
    assert_eq!(ledger.balance(&address(2)), 0);
    assert_eq!(ledger.balance(&address(3)), 0);
    // the owner
    assert_eq!(ledger.transfer(&address(1), &address(2), 0, &key(1)), Ok(()));
    assert_eq!(ledger.owner_of(0), Ok(address(2)));
    assert_eq!(ledger.balance(&address(1)), 0);
    assert_eq!(ledger.balance(&address(2)), 1);
    // the previous owner has lost the token
    assert_eq!(
        ledger.transfer(&address(1), &address(3), 0, &key(1)),
        Err(NonFungibleTokenError::IncorrectOwner)
    );
}

#[test]
fn transfer_to_oneself_changes_nothing_but_succeeds() {
    let mut ledger = TokenLedger::new(5);
    assert_eq!(ledger.mint(&key(1)), Ok(0));
    assert_eq!(ledger.claim(&address(1), &key(1)), Ok(0));
    assert_eq!(ledger.transfer(&address(1), &address(1), 0, &key(1)), Ok(()));
    assert_eq!(ledger.owner_of(0), Ok(address(1)));
    assert_eq!(ledger.balance(&address(1)), 1);
}

#[test]
fn balances_add_up_to_the_claimed_tokens() {
    let mut ledger = TokenLedger::new(20);
    let owners = [address(1), address(2), address(3)];
    for i in 0..12u8 {
        assert_eq!(ledger.mint(&key(i)), Ok(i as u64));
    }
    let mut claimed = 0u32;
    for i in 0..9u8 {
        assert_eq!(ledger.claim(&owners[(i % 3) as usize], &key(i)), Ok(i as u64));
        claimed += 1;
        let sum: u32 = owners.iter().map(|o| ledger.balance(o)).sum();
        assert_eq!(sum, claimed);
    }
    for i in 0..9u8 {
        let from = &owners[(i % 3) as usize];
        let to = &owners[((i + 1) % 3) as usize];
        assert_eq!(ledger.transfer(from, to, i as u64, &key(i)), Ok(()));
        let sum: u32 = owners.iter().map(|o| ledger.balance(o)).sum();
        assert_eq!(sum, 9);
    }
    for owner in &owners {
        let held = (0..12u64).filter(|id| ledger.owner_of(*id).as_ref() == Ok(owner)).count();
        assert_eq!(ledger.balance(owner) as usize, held);
        assert_eq!(held, 3);
    }
}

#[test]
fn counters_default_to_zero_and_keep_what_is_set() {
    let mut counters = Counters::new();
    assert_eq!(counters.get(b"a"), 0);
    assert_eq!(counters.get(b""), 0);
    counters.set(b"a", 5);
    counters.set(b"", 9);
    counters.set(b"ab", 7);
    assert_eq!(counters.get(b"a"), 5);
    assert_eq!(counters.get(b""), 9);
    assert_eq!(counters.get(b"ab"), 7);
    assert_eq!(counters.get(b"b"), 0);
    counters.set(b"a", 0);
    counters.set(b"ab", u32::MAX);
    assert_eq!(counters.get(b"a"), 0);
    assert_eq!(counters.get(b"ab"), u32::MAX);
    assert_eq!(counters.get(b""), 9);
}
