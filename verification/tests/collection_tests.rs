use nftdao::collection::CollectionRegistry;

fn seed() -> Vec<u8> {
    vec![7u8; 32]
}

#[test]
fn test_create_collection() {
    let mut registry = CollectionRegistry::new();
    let alice_address: u128 = 1;
    let s = seed();

    let collection_id = registry
        .create_collection(alice_address, vec![2, 3, 3], false, &s)
        .unwrap();

    let nonce = registry.get_nonce();
    assert_eq!(nonce, 1);
    assert_eq!(registry.generate_collection_id(nonce, &s), collection_id);
    let collection = registry.get_collection(collection_id).unwrap();
    assert_eq!(collection.owner, alice_address);
}
