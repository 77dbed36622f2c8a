use nftdao::collection::CollectionRegistry;
use nftdao::nft::{NftError, TokenLedger};

fn seed() -> Vec<u8> {
    vec![7u8; 32]
}

fn new_collection(registry: &mut CollectionRegistry, owner: u128, is_fungible: bool) -> u128 {
    registry
        .create_collection(owner, vec![2, 3, 3], is_fungible, &seed())
        .unwrap()
}

#[test]
fn mint_non_fungible_success() {
    let mut registry = CollectionRegistry::new();
    let mut ledger = TokenLedger::new();
    let alice_address: u128 = 1;
    let collection_id = new_collection(&mut registry, alice_address, false);
    let mint_amount: u128 = 5;

    ledger
        .mint_non_fungible(
            &mut registry,
            alice_address,
            alice_address,
            collection_id,
            vec![2, 3, 3],
            mint_amount,
        )
        .unwrap();

    assert_eq!(ledger.get_balance(collection_id, alice_address), mint_amount);

    let last_token_id = ledger.last_token_id(collection_id).unwrap();
    assert_eq!(last_token_id, mint_amount - 1);

    let start_idx = last_token_id + 1 - mint_amount;
    let token = ledger.get_nft_token(collection_id, start_idx).unwrap();
    assert_eq!(token.end_idx, mint_amount - 1);
    assert_eq!(ledger.get_balance(collection_id, alice_address), mint_amount);

    let collection = registry.get_collection(collection_id).unwrap();
    assert_eq!(collection.total_supply, mint_amount);
}

#[test]
fn mint_non_fungible_failed() {
    let mut registry = CollectionRegistry::new();
    let mut ledger = TokenLedger::new();
    let alice_address: u128 = 1;
    let collection_id = new_collection(&mut registry, alice_address, false);
    let nonce = registry.get_nonce();
    let not_available_collection_id = registry.generate_collection_id(nonce + 1, &seed());
    let mint_amount: u128 = 5;

    assert_eq!(
        ledger.mint_non_fungible(
            &mut registry,
            alice_address,
            alice_address,
            not_available_collection_id,
            vec![2, 3, 3],
            mint_amount,
        ),
        Err(NftError::CollectionNotFound)
    );

    let mint_amount: u128 = 0;
    assert_eq!(
        ledger.mint_non_fungible(
            &mut registry,
            alice_address,
            alice_address,
            collection_id,
            vec![2, 3, 3],
            mint_amount,
        ),
        Err(NftError::AmountLessThanOne)
    );
}

#[test]
fn mint_fungible_success() {
    let mut registry = CollectionRegistry::new();
    let mut ledger = TokenLedger::new();
    let alice_address: u128 = 1;
    let collection_id = new_collection(&mut registry, alice_address, true);
    let mint_amount: u128 = 5;

    ledger
        .mint_fungible(&mut registry, alice_address, alice_address, collection_id, mint_amount)
        .unwrap();

    assert_eq!(ledger.get_balance(collection_id, alice_address), mint_amount);
    let collection = registry.get_collection(collection_id).unwrap();
    assert_eq!(collection.total_supply, mint_amount);
}

#[test]
fn mint_fungible_failed() {
    let mut registry = CollectionRegistry::new();
    let mut ledger = TokenLedger::new();
    let alice_address: u128 = 1;
    let collection_id = new_collection(&mut registry, alice_address, true);
    let nonce = registry.get_nonce();
    let not_available_collection_id = registry.generate_collection_id(nonce + 1, &seed());
    let mint_amount: u128 = 5;

    assert_eq!(
        ledger.mint_fungible(
            &mut registry,
            alice_address,
            alice_address,
            not_available_collection_id,
            mint_amount,
        ),
        Err(NftError::CollectionNotFound)
    );

    let mint_amount: u128 = 0;
    assert_eq!(
        ledger.mint_fungible(
            &mut registry,
            alice_address,
            alice_address,
            collection_id,
            mint_amount,
        ),
        Err(NftError::AmountLessThanOne)
    );
}

#[test]
fn transfer_non_fungible_success() {
    let mut registry = CollectionRegistry::new();
    let mut ledger = TokenLedger::new();
    let alice_address: u128 = 1;
    let bob_address: u128 = 2;
    let collection_id = new_collection(&mut registry, alice_address, false);
    let mint_amount: u128 = 5;
    ledger
        .mint_non_fungible(
            &mut registry,
            alice_address,
            alice_address,
            collection_id,
            vec![2, 3, 3],
            mint_amount,
        )
        .unwrap();
    let last_token_id = ledger.last_token_id(collection_id).unwrap();
    let start_idx = mint_amount - last_token_id - 1;
    let token = ledger.get_nft_token(collection_id, start_idx).unwrap();
    assert_eq!(token.owner, alice_address);
    assert_eq!(ledger.get_balance(collection_id, alice_address), mint_amount);

    let transfer_amount: u128 = 2;
    ledger
        ._transfer_non_fungible(
            &registry,
            alice_address,
            bob_address,
            collection_id,
            start_idx,
            transfer_amount,
        )
        .unwrap();

    assert_eq!(
        ledger.get_balance(collection_id, alice_address),
        mint_amount - transfer_amount
    );
    assert_eq!(ledger.get_balance(collection_id, bob_address), transfer_amount);

    // the moved slice is the tail of the range: bob holds the high ids and
    // alice keeps the low part under the unchanged key
    let bob_start_idx = last_token_id - transfer_amount + 1;
    let bob_nfts = ledger.get_nft_token(collection_id, bob_start_idx).unwrap();
    assert_eq!(bob_nfts.owner, bob_address);
    assert_eq!(bob_nfts.end_idx, last_token_id);
    let bob_uri = bob_nfts.uri.clone();
    let alice_nfts = ledger.get_nft_token(collection_id, start_idx).unwrap();
    assert_eq!(alice_nfts.owner, alice_address);
    assert_eq!(alice_nfts.end_idx, bob_start_idx - 1);
    assert_eq!(alice_nfts.uri, bob_uri);
}

#[test]
fn transfer_non_fungible_failed() {
    let mut registry = CollectionRegistry::new();
    let mut ledger = TokenLedger::new();
    let alice_address: u128 = 1;
    let bob_address: u128 = 2;
    let collection_id = new_collection(&mut registry, alice_address, false);
    let mint_amount: u128 = 5;
    ledger
        .mint_non_fungible(
            &mut registry,
            alice_address,
            alice_address,
            collection_id,
            vec![2, 3, 3],
            mint_amount,
        )
        .unwrap();
    let last_token_id = ledger.last_token_id(collection_id).unwrap();
    let start_idx = mint_amount - last_token_id - 1;

    assert_eq!(
        ledger._transfer_non_fungible(
            &registry,
            alice_address,
            bob_address,
            collection_id,
            start_idx,
            0,
        ),
        Err(NftError::AmountLessThanOne)
    );

    let transfer_amount: u128 = 2;
    let not_available_token_id = last_token_id + 1;
    let not_available_collection_id =
        registry.generate_collection_id(registry.get_nonce() + 1, &seed());

    assert_eq!(
        ledger._transfer_non_fungible(
            &registry,
            alice_address,
            bob_address,
            collection_id,
            not_available_token_id,
            transfer_amount,
        ),
        Err(NftError::TokenNotFound)
    );
    assert_eq!(
        ledger._transfer_non_fungible(
            &registry,
            alice_address,
            bob_address,
            not_available_collection_id,
            start_idx,
            transfer_amount,
        ),
        Err(NftError::CollectionNotFound)
    );
    assert_eq!(
        ledger._transfer_non_fungible(
            &registry,
            bob_address,
            alice_address,
            collection_id,
            start_idx,
            transfer_amount,
        ),
        Err(NftError::PermissionDenied)
    );
    assert_eq!(
        ledger._transfer_non_fungible(
            &registry,
            alice_address,
            alice_address,
            collection_id,
            start_idx,
            transfer_amount,
        ),
        Err(NftError::ReceiverIsSender)
    );
    assert_eq!(
        ledger._transfer_non_fungible(
            &registry,
            alice_address,
            bob_address,
            collection_id,
            start_idx,
            10,
        ),
        Err(NftError::AmountTooLarge)
    );
}

#[test]
fn transfer_fungible_success() {
    let mut registry = CollectionRegistry::new();
    let mut ledger = TokenLedger::new();
    let alice_address: u128 = 1;
    let bob_address: u128 = 2;
    let collection_id = new_collection(&mut registry, alice_address, true);
    let mint_amount: u128 = 5;
    ledger
        .mint_fungible(&mut registry, alice_address, alice_address, collection_id, mint_amount)
        .unwrap();
    assert_eq!(ledger.get_balance(collection_id, alice_address), mint_amount);

    let transfer_amount: u128 = 2;
    ledger
        ._transfer_fungible(&registry, alice_address, bob_address, collection_id, transfer_amount)
        .unwrap();

    assert_eq!(
        ledger.get_balance(collection_id, alice_address),
        mint_amount - transfer_amount
    );
    assert_eq!(ledger.get_balance(collection_id, bob_address), transfer_amount);
}

#[test]
fn transfer_fungible_failed() {
    let mut registry = CollectionRegistry::new();
    let mut ledger = TokenLedger::new();
    let alice_address: u128 = 1;
    let bob_address: u128 = 2;
    let collection_id = new_collection(&mut registry, alice_address, true);
    let mint_amount: u128 = 5;
    ledger
        .mint_fungible(&mut registry, alice_address, alice_address, collection_id, mint_amount)
        .unwrap();

    assert_eq!(
        ledger._transfer_fungible(&registry, alice_address, bob_address, collection_id, 0),
        Err(NftError::AmountLessThanOne)
    );
    let not_available_collection_id =
        registry.generate_collection_id(registry.get_nonce() + 1, &seed());
    assert_eq!(
        ledger._transfer_fungible(
            &registry,
            alice_address,
            bob_address,
            not_available_collection_id,
            5,
        ),
        Err(NftError::CollectionNotFound)
    );
    assert_eq!(
        ledger._transfer_fungible(
            &registry,
            alice_address,
            alice_address,
            not_available_collection_id,
            5,
        ),
        Err(NftError::ReceiverIsSender)
    );
    assert_eq!(
        ledger._transfer_fungible(&registry, alice_address, bob_address, collection_id, 20),
        Err(NftError::AmountTooLarge)
    );
}

#[test]
fn burn_non_fungible_success() {
    let mut registry = CollectionRegistry::new();
    let mut ledger = TokenLedger::new();
    let alice_address: u128 = 1;
    let collection_id = new_collection(&mut registry, alice_address, false);
    let mint_amount: u128 = 5;
    ledger
        .mint_non_fungible(
            &mut registry,
            alice_address,
            alice_address,
            collection_id,
            vec![2, 3, 3],
            mint_amount,
        )
        .unwrap();
    let last_token_id = ledger.last_token_id(collection_id).unwrap();
    assert_eq!(ledger.get_balance(collection_id, alice_address), mint_amount);

    let burn_amount: u128 = 2;
    let start_idx = mint_amount - last_token_id - 1;
    ledger
        ._burn_non_fungible(&mut registry, alice_address, collection_id, start_idx, burn_amount)
        .unwrap();

    assert_eq!(
        ledger.get_balance(collection_id, alice_address),
        mint_amount - burn_amount
    );
    let collection = registry.get_collection(collection_id).unwrap();
    assert_eq!(collection.total_supply, mint_amount - burn_amount);
    assert_eq!(ledger.get_burned_amount(collection_id), burn_amount);

    // the tail burned away; the kept low part still sits at the old key
    let kept = ledger.get_nft_token(collection_id, start_idx).unwrap();
    assert_eq!(kept.owner, alice_address);
    assert_eq!(kept.end_idx, last_token_id - burn_amount);
}

#[test]
fn burn_non_fungible_failed() {
    let mut registry = CollectionRegistry::new();
    let mut ledger = TokenLedger::new();
    let alice_address: u128 = 1;
    let collection_id = new_collection(&mut registry, alice_address, false);
    let mint_amount: u128 = 5;
    ledger
        .mint_non_fungible(
            &mut registry,
            alice_address,
            alice_address,
            collection_id,
            vec![2, 3, 3],
            mint_amount,
        )
        .unwrap();
    let last_token_id = ledger.last_token_id(collection_id).unwrap();
    let not_available_token_id = last_token_id + 1;
    let not_available_collection_id =
        registry.generate_collection_id(registry.get_nonce() + 1, &seed());
    assert_eq!(ledger.get_balance(collection_id, alice_address), mint_amount);

    let burn_amount: u128 = 2;
    let start_idx = mint_amount - last_token_id - 1;

    assert_eq!(
        ledger._burn_non_fungible(
            &mut registry,
            alice_address,
            collection_id,
            not_available_token_id,
            burn_amount,
        ),
        Err(NftError::TokenNotFound)
    );
    assert_eq!(
        ledger._burn_non_fungible(
            &mut registry,
            alice_address,
            not_available_collection_id,
            start_idx,
            burn_amount,
        ),
        Err(NftError::CollectionNotFound)
    );
    assert_eq!(
        ledger._burn_non_fungible(&mut registry, alice_address, collection_id, start_idx, 10),
        Err(NftError::AmountTooLarge)
    );
}

#[test]
fn burn_fungible_success() {
    let mut registry = CollectionRegistry::new();
    let mut ledger = TokenLedger::new();
    let alice_address: u128 = 1;
    let collection_id = new_collection(&mut registry, alice_address, true);
    let mint_amount: u128 = 5;
    ledger
        .mint_fungible(&mut registry, alice_address, alice_address, collection_id, mint_amount)
        .unwrap();
    assert_eq!(ledger.get_balance(collection_id, alice_address), mint_amount);

    let burn_amount: u128 = 2;
    ledger
        ._burn_fungible(&mut registry, alice_address, collection_id, burn_amount)
        .unwrap();

    assert_eq!(
        ledger.get_balance(collection_id, alice_address),
        mint_amount - burn_amount
    );
    let collection = registry.get_collection(collection_id).unwrap();
    assert_eq!(collection.total_supply, mint_amount - burn_amount);
    assert_eq!(ledger.get_burned_amount(collection_id), burn_amount);
}

#[test]
fn burn_fungible_failed() {
    let mut registry = CollectionRegistry::new();
    let mut ledger = TokenLedger::new();
    let alice_address: u128 = 1;
    let collection_id = new_collection(&mut registry, alice_address, true);
    let mint_amount: u128 = 5;
    ledger
        .mint_fungible(&mut registry, alice_address, alice_address, collection_id, mint_amount)
        .unwrap();
    let not_available_collection_id =
        registry.generate_collection_id(registry.get_nonce() + 1, &seed());
    assert_eq!(ledger.get_balance(collection_id, alice_address), mint_amount);

    assert_eq!(
        ledger._burn_fungible(&mut registry, alice_address, not_available_collection_id, 2),
        Err(NftError::CollectionNotFound)
    );
    assert_eq!(
        ledger._burn_fungible(&mut registry, alice_address, collection_id, 10),
        Err(NftError::AmountTooLarge)
    );
    assert_eq!(ledger.get_balance(collection_id, alice_address), mint_amount);
}
