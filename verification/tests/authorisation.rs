use k256::ecdsa::SigningKey;
use stellar_merch_shop::contract::{NFCtoNFTContract, StellarMerchShop};
use stellar_merch_shop::errors::NonFungibleTokenError;
use stellar_merch_shop::events::{Event, Mint};
use stellar_merch_shop::signature::message_digest;
use stellar_merch_shop::Address;

fn chip(seed: u8) -> SigningKey {
    let mut secret = [0u8; 32];
    secret[0] = 1;
    secret[31] = seed;
    SigningKey::from_slice(&secret).unwrap()
}

fn key_of(chip: &SigningKey) -> [u8; 65] {
    let point = chip.verifying_key().to_encoded_point(false);
    let mut key = [0u8; 65];
    key.copy_from_slice(point.as_bytes());
    key
}

fn sign(chip: &SigningKey, message: &[u8], nonce: u32) -> ([u8; 64], u32) {
    let digest = message_digest(message, nonce);
    let (signature, recovery_id) = chip.sign_prehash_recoverable(&digest).unwrap();
    let mut bytes = [0u8; 64];
    bytes.copy_from_slice(&signature.to_bytes());
    (bytes, recovery_id.to_byte() as u32)
}

fn address(tag: u8) -> Address {
    Address::new(vec![tag; 32])
}

fn shop(max_tokens: u64) -> StellarMerchShop {
    StellarMerchShop::__constructor(
        address(0xad),
        String::from("TestNFT"),
        String::from("TNFT"),
        String::from("https://example.com/token"),
        max_tokens,
    )
}

fn mint(shop: &mut StellarMerchShop, chip: &SigningKey, message: &[u8], nonce: u32)
    -> Result<u64, NonFungibleTokenError> {
    let (signature, recovery_id) = sign(chip, message, nonce);
    shop.mint(message.to_vec(), signature, recovery_id, key_of(chip), nonce)
}

fn claim(
    shop: &mut StellarMerchShop,
    claimant: Address,
    chip: &SigningKey,
    message: &[u8],
    nonce: u32,
) -> Result<u64, NonFungibleTokenError> {
    let (signature, recovery_id) = sign(chip, message, nonce);
    shop.claim(claimant, message.to_vec(), signature, recovery_id, key_of(chip), nonce)
}

fn transfer(
    shop: &mut StellarMerchShop,
    from: Address,
    to: Address,
    token_id: u64,
    chip: &SigningKey,
    message: &[u8],
    nonce: u32,
) -> Result<(), NonFungibleTokenError> {
    let (signature, recovery_id) = sign(chip, message, nonce);
    shop.transfer(from, to, token_id, message.to_vec(), signature, recovery_id, key_of(chip), nonce)
}

#[test]
fn token_ids_count_up_from_zero() {
    let mut shop = shop(50);
    for i in 0..20u8 {
        assert_eq!(shop.next_token_id(), i as u64);
        assert_eq!(mint(&mut shop, &chip(i + 1), b"mint", 1 + i as u32), Ok(i as u64));
        assert_eq!(shop.token_uri(i as u64), Ok(format!("https://example.com/token/{}", i)));
        assert_eq!(shop.token_uri(i as u64 + 1), Err(NonFungibleTokenError::NonExistentToken));
    }
    assert_eq!(shop.events().len(), 20);
    assert_eq!(shop.events()[19], Event::Mint(Mint { token_id: 19 }));
}

#[test]
fn failed_mints_do_not_use_up_ids() {
    let mut shop = shop(50);
    assert_eq!(mint(&mut shop, &chip(1), b"mint", 1), Ok(0));
    assert_eq!(
        mint(&mut shop, &chip(1), b"mint", 2),
        Err(NonFungibleTokenError::TokenAlreadyMinted)
    );
    assert_eq!(
        mint(&mut shop, &chip(2), b"mint", 0),
        Err(NonFungibleTokenError::InvalidSignature)
    );
    assert_eq!(mint(&mut shop, &chip(2), b"mint", 1), Ok(1));
}

#[test]
fn collection_without_supply_refuses_the_first_mint() {
    let mut shop = shop(0);
    assert_eq!(
        mint(&mut shop, &chip(1), b"mint", 1),
        Err(NonFungibleTokenError::TokenIDsAreDepleted)
    );
}

#[test]
fn unauthorised_mint_at_the_maximum_fails_as_invalid_signature() {
    let mut shop = shop(1);
    assert_eq!(mint(&mut shop, &chip(1), b"mint", 1), Ok(0));
    assert_eq!(
        mint(&mut shop, &chip(2), b"mint", 0),
        Err(NonFungibleTokenError::InvalidSignature)
    );
    assert_eq!(
        mint(&mut shop, &chip(1), b"mint", 2),
        Err(NonFungibleTokenError::TokenAlreadyMinted)
    );
    assert_eq!(
        mint(&mut shop, &chip(2), b"mint", 1),
        Err(NonFungibleTokenError::TokenIDsAreDepleted)
    );
}

#[test]
fn second_mint_with_the_same_chip_fails_as_already_minted() {
    let k1 = chip(1);
    let mut shop = shop(10);
    assert_eq!(mint(&mut shop, &k1, b"m1", 1), Ok(0));
    assert_eq!(
        mint(&mut shop, &k1, b"m1", 2),
        Err(NonFungibleTokenError::TokenAlreadyMinted)
    );
    assert_eq!(
        mint(&mut shop, &k1, b"another", 1000),
        Err(NonFungibleTokenError::TokenAlreadyMinted)
    );
    // the refused requests have used up no nonce and bound no second token
    assert_eq!(shop.get_nonce(key_of(&k1)), 1);
    assert_eq!(shop.next_token_id(), 1);
    assert_eq!(shop.token_id(key_of(&k1)), Ok(0));
    assert_eq!(shop.events().len(), 1);
}

#[test]
fn resubmitted_request_fails_as_invalid_signature() {
    let k1 = chip(1);
    let mut shop = shop(10);
    let (signature, recovery_id) = sign(&k1, b"m1", 1);
    assert_eq!(
        shop.mint(b"m1".to_vec(), signature, recovery_id, key_of(&k1), 1),
        Ok(0)
    );
    assert_eq!(
        shop.mint(b"m1".to_vec(), signature, recovery_id, key_of(&k1), 1),
        Err(NonFungibleTokenError::InvalidSignature)
    );
    let (signature, recovery_id) = sign(&k1, b"m2", 5);
    assert_eq!(
        shop.claim(address(1), b"m2".to_vec(), signature, recovery_id, key_of(&k1), 5),
        Ok(0)
    );
    assert_eq!(
        shop.claim(address(1), b"m2".to_vec(), signature, recovery_id, key_of(&k1), 5),
        Err(NonFungibleTokenError::InvalidSignature)
    );
    let (signature, recovery_id) = sign(&k1, b"m3", 6);
    assert_eq!(
        shop.transfer(address(1), address(2), 0, b"m3".to_vec(), signature, recovery_id, key_of(&k1), 6),
        Ok(())
    );
    assert_eq!(
        shop.transfer(address(1), address(2), 0, b"m3".to_vec(), signature, recovery_id, key_of(&k1), 6),
        Err(NonFungibleTokenError::InvalidSignature)
    );
    assert_eq!(shop.get_nonce(key_of(&k1)), 6);
    assert_eq!(shop.events().len(), 3);
}

#[test]
fn every_nonce_up_to_the_last_accepted_is_refused() {
    let k1 = chip(1);
    let mut shop = shop(10);
    assert_eq!(mint(&mut shop, &k1, b"m1", 7), Ok(0));
    for nonce in 0..=7u32 {
        assert_eq!(
            claim(&mut shop, address(1), &k1, b"m2", nonce),
            Err(NonFungibleTokenError::InvalidSignature)
        );
        assert_eq!(
            mint(&mut shop, &k1, b"m2", nonce),
            Err(NonFungibleTokenError::InvalidSignature)
        );
        assert_eq!(
            transfer(&mut shop, address(1), address(2), 0, &k1, b"m2", nonce),
            Err(NonFungibleTokenError::InvalidSignature)
        );
    }
    assert_eq!(shop.get_nonce(key_of(&k1)), 7);
    assert_eq!(claim(&mut shop, address(1), &k1, b"m2", 8), Ok(0));
    assert_eq!(shop.get_nonce(key_of(&k1)), 8);
}

#[test]
fn nonces_are_kept_per_chip() {
    let k1 = chip(1);
    let k2 = chip(2);
    let mut shop = shop(10);
    assert_eq!(mint(&mut shop, &k1, b"m", 40), Ok(0));
    assert_eq!(mint(&mut shop, &k2, b"m", 1), Ok(1));
    assert_eq!(shop.get_nonce(key_of(&k1)), 40);
    assert_eq!(shop.get_nonce(key_of(&k2)), 1);
    assert_eq!(claim(&mut shop, address(1), &k2, b"c", 2), Ok(1));
    assert_eq!(
        claim(&mut shop, address(1), &k1, b"c", 2),
        Err(NonFungibleTokenError::InvalidSignature)
    );
    assert_eq!(claim(&mut shop, address(1), &k1, b"c", u32::MAX), Ok(0));
    assert_eq!(shop.get_nonce(key_of(&k1)), u32::MAX);
    // no nonce is left for this chip
    assert_eq!(
        transfer(&mut shop, address(1), address(2), 0, &k1, b"t", u32::MAX),
        Err(NonFungibleTokenError::InvalidSignature)
    );
    assert_eq!(
        transfer(&mut shop, address(1), address(2), 0, &k1, b"t", 0),
        Err(NonFungibleTokenError::InvalidSignature)
    );
}

#[test]
fn claim_for_an_unbound_chip_fails_as_nonexistent() {
    let mut shop = shop(10);
    assert_eq!(
        claim(&mut shop, address(1), &chip(1), b"c", 1),
        Err(NonFungibleTokenError::NonExistentToken)
    );
    assert_eq!(shop.get_nonce(key_of(&chip(1))), 0);
    assert_eq!(shop.balance(address(1)), 0);
    assert!(shop.events().is_empty());
}

#[test]
fn transfer_by_a_non_owner_fails_as_incorrect_owner() {
    let k1 = chip(1);
    let mut shop = shop(10);
    assert_eq!(mint(&mut shop, &k1, b"m1", 1), Ok(0));
    assert_eq!(claim(&mut shop, address(1), &k1, b"m2", 2), Ok(0));
    assert_eq!(
        transfer(&mut shop, address(2), address(3), 0, &k1, b"m3", 3),
        Err(NonFungibleTokenError::IncorrectOwner)
    );
    // the recipient is not the owner either
    assert_eq!(
        transfer(&mut shop, address(3), address(1), 0, &k1, b"m3", 3),
        Err(NonFungibleTokenError::IncorrectOwner)
    );
    assert_eq!(shop.owner_of(0), Ok(address(1)));
    assert_eq!(shop.balance(address(1)), 1);
    assert_eq!(shop.balance(address(2)), 0);
    assert_eq!(shop.get_nonce(key_of(&k1)), 2);
    assert_eq!(shop.events().len(), 2);
    assert_eq!(transfer(&mut shop, address(1), address(3), 0, &k1, b"m3", 3), Ok(()));
}

#[test]
fn transfer_with_another_chip_fails_as_invalid_signature() {
    let k1 = chip(1);
    let k2 = chip(2);
    let k3 = chip(3);
    let mut shop = shop(10);
    assert_eq!(mint(&mut shop, &k1, b"m1", 1), Ok(0));
    assert_eq!(mint(&mut shop, &k2, b"m1", 1), Ok(1));
    assert_eq!(claim(&mut shop, address(1), &k1, b"m2", 2), Ok(0));
    assert_eq!(claim(&mut shop, address(1), &k2, b"m2", 2), Ok(1));
    // a chip of the collection, with its own valid signature
    assert_eq!(
        transfer(&mut shop, address(1), address(2), 0, &k2, b"m3", 3),
        Err(NonFungibleTokenError::InvalidSignature)
    );
    // a chip that the collection does not know
    assert_eq!(
        transfer(&mut shop, address(1), address(2), 0, &k3, b"m3", 3),
        Err(NonFungibleTokenError::InvalidSignature)
    );
    assert_eq!(shop.owner_of(0), Ok(address(1)));
    assert_eq!(shop.get_nonce(key_of(&k2)), 2);
    assert_eq!(shop.get_nonce(key_of(&k3)), 0);
}

#[test]
fn transfer_of_a_missing_or_unclaimed_token_fails_as_nonexistent() {
    let k1 = chip(1);
    let mut shop = shop(10);
    assert_eq!(
        transfer(&mut shop, address(1), address(2), 0, &k1, b"t", 1),
        Err(NonFungibleTokenError::NonExistentToken)
    );
    assert_eq!(mint(&mut shop, &k1, b"m1", 1), Ok(0));
    assert_eq!(
        transfer(&mut shop, address(1), address(2), 0, &k1, b"t", 2),
        Err(NonFungibleTokenError::NonExistentToken)
    );
    assert_eq!(
        transfer(&mut shop, address(1), address(2), 1, &k1, b"t", 2),
        Err(NonFungibleTokenError::NonExistentToken)
    );
    assert_eq!(shop.get_nonce(key_of(&k1)), 1);
}

#[test]
fn balances_add_up_to_the_claimed_tokens_after_any_calls() {
    let mut shop = shop(10);
    let owners = [address(1), address(2), address(3)];
    let chips: Vec<SigningKey> = (1..=6u8).map(chip).collect();
    let mut nonce = 0u32;
    let mut claimed = 0u32;
    for (i, chip) in chips.iter().enumerate() {
        nonce += 1;
        assert_eq!(mint(&mut shop, chip, b"mint", nonce), Ok(i as u64));
    }
    for (i, chip) in chips.iter().enumerate().take(5) {
        nonce += 1;
        assert_eq!(claim(&mut shop, owners[i % 3].clone(), chip, b"claim", nonce), Ok(i as u64));
        claimed += 1;
        let sum: u32 = owners.iter().map(|o| shop.balance(o.clone())).sum();
        assert_eq!(sum, claimed);
    }
    for round in 0..3 {
        for (i, chip) in chips.iter().enumerate().take(5) {
            nonce += 1;
            let from = owners[(i + round) % 3].clone();
            let to = owners[(i + round + 1) % 3].clone();
            assert_eq!(transfer(&mut shop, from, to, i as u64, chip, b"move", nonce), Ok(()));
            let sum: u32 = owners.iter().map(|o| shop.balance(o.clone())).sum();
            assert_eq!(sum, 5);
        }
    }
    // a refused call changes no balance
    assert_eq!(
        transfer(&mut shop, address(9), address(1), 0, &chips[0], b"move", nonce + 1),
        Err(NonFungibleTokenError::IncorrectOwner)
    );
    let sum: u32 = owners.iter().map(|o| shop.balance(o.clone())).sum();
    assert_eq!(sum, 5);
    for owner in &owners {
        let held = (0..6u64).filter(|id| shop.owner_of(*id).as_ref() == Ok(owner)).count();
        assert_eq!(shop.balance(owner.clone()) as usize, held);
    }
    assert_eq!(shop.events().len(), 6 + 5 + 15);
}

#[test]
fn refused_request_changes_nothing() {
    let k1 = chip(1);
    let k2 = chip(2);
    let mut shop = shop(10);
    assert_eq!(mint(&mut shop, &k1, b"m1", 1), Ok(0));
    assert_eq!(claim(&mut shop, address(1), &k1, b"m2", 2), Ok(0));
    let (signature, recovery_id) = sign(&k2, b"m", 1);
    // the signature of another chip under the key of the first
    assert_eq!(
        shop.transfer(address(1), address(2), 0, b"m".to_vec(), signature, recovery_id, key_of(&k1), 3),
        Err(NonFungibleTokenError::InvalidSignature)
    );
    // a recovery id that the host refuses
    let (signature, _) = sign(&k1, b"m", 3);
    assert_eq!(
        shop.transfer(address(1), address(2), 0, b"m".to_vec(), signature, 4, key_of(&k1), 3),
        Err(NonFungibleTokenError::InvalidSignature)
    );
    assert_eq!(shop.owner_of(0), Ok(address(1)));
    assert_eq!(shop.balance(address(1)), 1);
    assert_eq!(shop.balance(address(2)), 0);
    assert_eq!(shop.get_nonce(key_of(&k1)), 2);
    assert_eq!(shop.get_nonce(key_of(&k2)), 0);
    assert_eq!(shop.next_token_id(), 1);
    assert_eq!(shop.events().len(), 2);
}

#[test]
fn empty_message_can_be_signed() {
    let k1 = chip(1);
    let mut shop = shop(10);
    assert_eq!(mint(&mut shop, &k1, b"", 1), Ok(0));
    assert_eq!(claim(&mut shop, address(1), &k1, b"", 2), Ok(0));
}
