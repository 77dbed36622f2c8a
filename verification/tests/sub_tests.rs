use nftdao::collection::CollectionRegistry;
use nftdao::nft::{NftError, TokenLedger};
use nftdao::sub::{SubError, SubFactory};

fn seed() -> Vec<u8> {
    vec![7u8; 32]
}

fn new_collection(registry: &mut CollectionRegistry, owner: u128, is_fungible: bool) -> u128 {
    registry
        .create_collection(owner, vec![2, 3, 3], is_fungible, &seed())
        .unwrap()
}

#[test]
fn it_works_for_pallet_collection() {
    let mut registry = CollectionRegistry::new();
    assert!(registry.create_collection(1, vec![2, 3, 3], false, &seed()).is_ok());
}

#[test]
fn create_success() {
    let mut registry = CollectionRegistry::new();
    let mut ledger = TokenLedger::new();
    let mut sub = SubFactory::new();
    let alice_address: u128 = 1;
    let collection_id = new_collection(&mut registry, alice_address, false);
    let mint_amount: u128 = 10;
    ledger
        .mint_non_fungible(
            &mut registry,
            alice_address,
            alice_address,
            collection_id,
            vec![2, 3, 3],
            mint_amount,
        )
        .unwrap();
    let last_token_id = ledger.last_token_id(collection_id).unwrap();
    let start_idx = mint_amount - last_token_id - 1;

    let sub_token_collection_id = sub
        .create(&mut registry, &mut ledger, alice_address, collection_id, start_idx, false, &seed())
        .unwrap();

    // the locked token is the tail id of the range
    let token = ledger.get_nft_token(collection_id, last_token_id).unwrap();
    assert_eq!(token.owner, SubFactory::account_id());

    let collection = registry.get_collection(sub_token_collection_id).unwrap();
    assert_eq!(collection.owner, SubFactory::account_id());
}

#[test]
fn create_failed() {
    let mut registry = CollectionRegistry::new();
    let mut ledger = TokenLedger::new();
    let mut sub = SubFactory::new();
    let alice_address: u128 = 1;
    let bob_address: u128 = 2;
    let collection_id = new_collection(&mut registry, alice_address, false);
    let not_available_collection_id =
        registry.generate_collection_id(registry.get_nonce() + 1, &seed());
    ledger
        .mint_non_fungible(
            &mut registry,
            alice_address,
            alice_address,
            collection_id,
            vec![2, 3, 3],
            10,
        )
        .unwrap();

    assert_eq!(
        sub.create(&mut registry, &mut ledger, alice_address, collection_id, 1, false, &seed()),
        Err(SubError::Nft(NftError::TokenNotFound))
    );
    assert_eq!(
        sub.create(
            &mut registry,
            &mut ledger,
            alice_address,
            not_available_collection_id,
            0,
            false,
            &seed(),
        ),
        Err(SubError::Nft(NftError::CollectionNotFound))
    );
    assert_eq!(
        sub.create(&mut registry, &mut ledger, bob_address, collection_id, 0, false, &seed()),
        Err(SubError::Nft(NftError::PermissionDenied))
    );
}

#[test]
fn recover_success() {
    let mut registry = CollectionRegistry::new();
    let mut ledger = TokenLedger::new();
    let mut sub = SubFactory::new();
    let alice_address: u128 = 1;
    let collection_id = new_collection(&mut registry, alice_address, false);
    let mint_amount: u128 = 10;
    ledger
        .mint_non_fungible(
            &mut registry,
            alice_address,
            alice_address,
            collection_id,
            vec![2, 3, 3],
            mint_amount,
        )
        .unwrap();
    let last_token_id = ledger.last_token_id(collection_id).unwrap();
    let start_idx = mint_amount - last_token_id - 1;

    let sub_token_collection_id = sub
        .create(&mut registry, &mut ledger, alice_address, collection_id, start_idx, false, &seed())
        .unwrap();

    sub.recover(&mut registry, &mut ledger, alice_address, sub_token_collection_id)
        .unwrap();

    let token = ledger.get_nft_token(collection_id, last_token_id).unwrap();
    assert_eq!(token.owner, alice_address);

    assert!(sub.sub_tokens(sub_token_collection_id).is_none());
}

#[test]
fn recover_failed() {
    let mut registry = CollectionRegistry::new();
    let mut ledger = TokenLedger::new();
    let mut sub = SubFactory::new();
    let alice_address: u128 = 1;
    let bob_address: u128 = 2;
    let collection_id = new_collection(&mut registry, alice_address, false);
    let mint_amount: u128 = 10;
    ledger
        .mint_non_fungible(
            &mut registry,
            alice_address,
            alice_address,
            collection_id,
            vec![2, 3, 3],
            mint_amount,
        )
        .unwrap();
    let last_token_id = ledger.last_token_id(collection_id).unwrap();
    let start_idx = mint_amount - last_token_id - 1;

    let sub_token_collection_id = sub
        .create(&mut registry, &mut ledger, alice_address, collection_id, start_idx, false, &seed())
        .unwrap();
    let not_available_collection_id =
        registry.generate_collection_id(registry.get_nonce() + 1, &seed());

    assert_eq!(
        sub.recover(&mut registry, &mut ledger, alice_address, not_available_collection_id),
        Err(SubError::CollectionNotFound)
    );
    assert_eq!(
        sub.recover(&mut registry, &mut ledger, alice_address, collection_id),
        Err(SubError::SubTokenNotFound)
    );
    assert_eq!(
        sub.recover(&mut registry, &mut ledger, bob_address, sub_token_collection_id),
        Err(SubError::PermissionDenied)
    );

    let burn_amount: u128 = 2;
    sub.mint_non_fungible(
        &mut registry,
        &mut ledger,
        alice_address,
        alice_address,
        sub_token_collection_id,
        vec![2, 3, 3],
        mint_amount,
    )
    .unwrap();
    let last_sub_token_id = ledger.last_token_id(sub_token_collection_id).unwrap();
    let sub_token_start_idx = mint_amount - last_sub_token_id - 1;

    ledger
        ._burn_non_fungible(
            &mut registry,
            alice_address,
            sub_token_collection_id,
            sub_token_start_idx,
            burn_amount,
        )
        .unwrap();
    assert_eq!(
        sub.recover(&mut registry, &mut ledger, alice_address, sub_token_collection_id),
        Err(SubError::BurnedtokensExistent)
    );
}

#[test]
fn tests_mint_non_fungible_success() {
    let mut registry = CollectionRegistry::new();
    let mut ledger = TokenLedger::new();
    let mut sub = SubFactory::new();
    let alice_address: u128 = 1;
    let collection_id = new_collection(&mut registry, alice_address, false);
    let mint_amount: u128 = 10;
    ledger
        .mint_non_fungible(
            &mut registry,
            alice_address,
            alice_address,
            collection_id,
            vec![2, 3, 3],
            mint_amount,
        )
        .unwrap();
    let last_token_id = ledger.last_token_id(collection_id).unwrap();
    let start_idx = mint_amount - last_token_id - 1;

    let sub_token_collection_id = sub
        .create(&mut registry, &mut ledger, alice_address, collection_id, start_idx, false, &seed())
        .unwrap();

    sub.mint_non_fungible(
        &mut registry,
        &mut ledger,
        alice_address,
        alice_address,
        sub_token_collection_id,
        vec![2, 3, 3],
        mint_amount,
    )
    .unwrap();

    assert_eq!(
        ledger.get_balance(sub_token_collection_id, alice_address),
        mint_amount
    );

    let last_sub_token_id = ledger.last_token_id(sub_token_collection_id).unwrap();
    assert_eq!(last_sub_token_id, mint_amount - 1);

    let sub_token_start_idx = last_token_id + 1 - mint_amount;
    let sub_token = ledger
        .get_nft_token(sub_token_collection_id, sub_token_start_idx)
        .unwrap();
    assert_eq!(sub_token.end_idx, mint_amount - 1);
    assert_eq!(
        ledger.get_balance(sub_token_collection_id, alice_address),
        mint_amount
    );

    let collection = registry.get_collection(sub_token_collection_id).unwrap();
    assert_eq!(collection.total_supply, mint_amount);
}

#[test]
fn tests_mint_non_fungible_failed() {
    let mut registry = CollectionRegistry::new();
    let mut ledger = TokenLedger::new();
    let mut sub = SubFactory::new();
    let alice_address: u128 = 1;
    let collection_id = new_collection(&mut registry, alice_address, false);
    let mint_amount: u128 = 10;
    ledger
        .mint_non_fungible(
            &mut registry,
            alice_address,
            alice_address,
            collection_id,
            vec![2, 3, 3],
            mint_amount,
        )
        .unwrap();
    let last_token_id = ledger.last_token_id(collection_id).unwrap();
    let start_idx = mint_amount - last_token_id - 1;

    let sub_token_collection_id = sub
        .create(&mut registry, &mut ledger, alice_address, collection_id, start_idx, false, &seed())
        .unwrap();
    let not_available_sub_token_collection_id =
        registry.generate_collection_id(registry.get_nonce() + 1, &seed());

    assert_eq!(
        sub.mint_non_fungible(
            &mut registry,
            &mut ledger,
            alice_address,
            alice_address,
            not_available_sub_token_collection_id,
            vec![2, 3, 3],
            mint_amount,
        ),
        Err(SubError::CollectionNotFound)
    );
    assert_eq!(
        sub.mint_non_fungible(
            &mut registry,
            &mut ledger,
            alice_address,
            alice_address,
            collection_id,
            vec![2, 3, 3],
            mint_amount,
        ),
        Err(SubError::SubTokenNotFound)
    );
    assert_eq!(
        sub.mint_non_fungible(
            &mut registry,
            &mut ledger,
            alice_address,
            alice_address,
            sub_token_collection_id,
            vec![2, 3, 3],
            0,
        ),
        Err(SubError::Nft(NftError::AmountLessThanOne))
    );
}

#[test]
fn tests_mint_fungible_success() {
    let mut registry = CollectionRegistry::new();
    let mut ledger = TokenLedger::new();
    let mut sub = SubFactory::new();
    let alice_address: u128 = 1;
    let collection_id = new_collection(&mut registry, alice_address, false);
    let mint_amount: u128 = 10;
    ledger
        .mint_non_fungible(
            &mut registry,
            alice_address,
            alice_address,
            collection_id,
            vec![2, 3, 3],
            mint_amount,
        )
        .unwrap();
    let last_token_id = ledger.last_token_id(collection_id).unwrap();
    let start_idx = mint_amount - last_token_id - 1;

    let sub_token_collection_id = sub
        .create(&mut registry, &mut ledger, alice_address, collection_id, start_idx, true, &seed())
        .unwrap();

    sub.mint_fungible(
        &mut registry,
        &mut ledger,
        alice_address,
        alice_address,
        sub_token_collection_id,
        mint_amount,
    )
    .unwrap();

    assert_eq!(
        ledger.get_balance(sub_token_collection_id, alice_address),
        mint_amount
    );

    let collection = registry.get_collection(sub_token_collection_id).unwrap();
    assert_eq!(collection.total_supply, mint_amount);
}

#[test]
fn tests_mint_fungible_failed() {
    let mut registry = CollectionRegistry::new();
    let mut ledger = TokenLedger::new();
    let mut sub = SubFactory::new();
    let alice_address: u128 = 1;
    let collection_id = new_collection(&mut registry, alice_address, false);
    let mint_amount: u128 = 10;
    ledger
        .mint_non_fungible(
            &mut registry,
            alice_address,
            alice_address,
            collection_id,
            vec![2, 3, 3],
            mint_amount,
        )
        .unwrap();
    let last_token_id = ledger.last_token_id(collection_id).unwrap();
    let start_idx = mint_amount - last_token_id - 1;

    let sub_token_collection_id = sub
        .create(&mut registry, &mut ledger, alice_address, collection_id, start_idx, true, &seed())
        .unwrap();
    let not_available_sub_token_collection_id =
        registry.generate_collection_id(registry.get_nonce() + 1, &seed());

    let mint_amount: u128 = 5;
    assert_eq!(
        sub.mint_fungible(
            &mut registry,
            &mut ledger,
            alice_address,
            alice_address,
            not_available_sub_token_collection_id,
            mint_amount,
        ),
        Err(SubError::CollectionNotFound)
    );
    assert_eq!(
        sub.mint_fungible(
            &mut registry,
            &mut ledger,
            alice_address,
            alice_address,
            collection_id,
            mint_amount,
        ),
        Err(SubError::SubTokenNotFound)
    );
    assert_eq!(
        sub.mint_fungible(
            &mut registry,
            &mut ledger,
            alice_address,
            alice_address,
            sub_token_collection_id,
            0,
        ),
        Err(SubError::Nft(NftError::AmountLessThanOne))
    );
}
