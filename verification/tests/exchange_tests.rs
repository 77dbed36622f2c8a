use nftdao::collection::CollectionRegistry;
use nftdao::currency::Currency;
use nftdao::exchange::{Exchange, ExchangeError};
use nftdao::nft::TokenLedger;

fn seed() -> Vec<u8> {
    vec![7u8; 32]
}

fn new_collection(registry: &mut CollectionRegistry, owner: u128, is_fungible: bool) -> u128 {
    registry
        .create_collection(owner, vec![2, 3, 3], is_fungible, &seed())
        .unwrap()
}

#[test]
fn curve() {
    let reverse_ratio: u128 = 500000;
    let total_supply: u128 = 3;
    let pool_balance: u128 = 2;
    let amount: u128 = 1;
    let cost = Exchange::buy_cost(pool_balance, amount, total_supply, reverse_ratio).unwrap();
    // ceil(1.55)
    assert_eq!(cost, 2);

    let total_supply: u128 = 2;
    let pool_balance: u128 = 2;
    let amount: u128 = 1;
    let receive =
        Exchange::sell_receive(pool_balance, amount, total_supply, reverse_ratio).unwrap();
    // floor(1.5)
    assert_eq!(receive, 1);

    let amount: u128 = 5;
    let m: u128 = 1000;
    let first_cost = Exchange::first_buy_cost(reverse_ratio, m, amount).unwrap();
    // ceil(round2(12500.0005371401917915778))
    assert_eq!(first_cost, 12500);
}

#[test]
fn sell_nft() {
    let mut registry = CollectionRegistry::new();
    let mut ledger = TokenLedger::new();
    let mut exchange = Exchange::new();
    let alice_address: u128 = 1;
    let mint_amount: u128 = 10;

    let collection_id = new_collection(&mut registry, alice_address, false);
    ledger
        .mint_non_fungible(
            &mut registry,
            alice_address,
            alice_address,
            collection_id,
            vec![2, 3, 3],
            mint_amount,
        )
        .unwrap();

    let token_id: u128 = 0;
    let price: u128 = 1;

    exchange
        .sell_nft(&registry, &mut ledger, alice_address, collection_id, token_id, mint_amount, price)
        .unwrap();

    let order_id = exchange.next_nft_order_id() - 1;
    let order = exchange.nft_order(order_id).unwrap();
    assert_eq!(order.seller, alice_address);

    let token = ledger.get_nft_token(collection_id, token_id).unwrap();
    assert_eq!(token.owner, Exchange::account_id());
}

#[test]
fn sell_nft_failed() {
    let mut registry = CollectionRegistry::new();
    let mut ledger = TokenLedger::new();
    let mut exchange = Exchange::new();
    let alice_address: u128 = 1;
    let bob_address: u128 = 2;
    let mint_amount: u128 = 10;

    let collection_id = new_collection(&mut registry, alice_address, false);
    let token_id: u128 = 0;
    let price: u128 = 1;

    assert_eq!(
        exchange.sell_nft(
            &registry,
            &mut ledger,
            alice_address,
            collection_id,
            token_id,
            mint_amount,
            price,
        ),
        Err(ExchangeError::TokenNotFound)
    );

    ledger
        .mint_non_fungible(
            &mut registry,
            alice_address,
            alice_address,
            collection_id,
            vec![2, 3, 3],
            mint_amount,
        )
        .unwrap();

    assert_eq!(
        exchange.sell_nft(
            &registry,
            &mut ledger,
            bob_address,
            collection_id,
            token_id,
            mint_amount,
            price,
        ),
        Err(ExchangeError::PermissionDenied)
    );
}

#[test]
fn buy_nft() {
    let mut registry = CollectionRegistry::new();
    let mut ledger = TokenLedger::new();
    let mut exchange = Exchange::new();
    let mut currency = Currency::new();
    let alice_address: u128 = 1;
    let bob_address: u128 = 2;
    let mint_amount: u128 = 10;

    let collection_id = new_collection(&mut registry, alice_address, false);
    ledger
        .mint_non_fungible(
            &mut registry,
            alice_address,
            alice_address,
            collection_id,
            vec![2, 3, 3],
            mint_amount,
        )
        .unwrap();

    let token_id: u128 = 0;
    let price: u128 = 1;
    exchange
        .sell_nft(&registry, &mut ledger, alice_address, collection_id, token_id, mint_amount, price)
        .unwrap();

    currency.set_balance(bob_address, 2);

    let order_id = exchange.next_nft_order_id() - 1;
    exchange
        .buy_nft(&registry, &mut ledger, &mut currency, bob_address, order_id, 1)
        .unwrap();

    // the buyer takes the tail of the escrowed range; the order keeps its key
    let order = exchange.nft_order(order_id).unwrap();
    assert_eq!(order.start_idx, 0);
    assert_eq!(order.amount, mint_amount - 1);

    let bob_token = ledger.get_nft_token(collection_id, mint_amount - 1).unwrap();
    assert_eq!(bob_token.owner, bob_address);
    let custody = ledger.get_nft_token(collection_id, 0).unwrap();
    assert_eq!(custody.owner, Exchange::account_id());
}

#[test]
fn cancel_nft_order() {
    let mut registry = CollectionRegistry::new();
    let mut ledger = TokenLedger::new();
    let mut exchange = Exchange::new();
    let mut currency = Currency::new();
    let alice_address: u128 = 1;
    let bob_address: u128 = 2;
    let mint_amount: u128 = 10;

    let collection_id = new_collection(&mut registry, alice_address, false);
    ledger
        .mint_non_fungible(
            &mut registry,
            alice_address,
            alice_address,
            collection_id,
            vec![2, 3, 3],
            mint_amount,
        )
        .unwrap();

    let token_id: u128 = 0;
    let price: u128 = 1;
    exchange
        .sell_nft(&registry, &mut ledger, alice_address, collection_id, token_id, mint_amount, price)
        .unwrap();

    currency.set_balance(bob_address, 2);

    let order_id = exchange.next_nft_order_id() - 1;
    exchange
        .buy_nft(&registry, &mut ledger, &mut currency, bob_address, order_id, 1)
        .unwrap();

    let order = exchange.nft_order(order_id).unwrap();
    assert_eq!(order.start_idx, 0);

    assert_eq!(
        exchange.cancel_nft_order(&registry, &mut ledger, bob_address, order_id),
        Err(ExchangeError::PermissionDenied)
    );
    exchange
        .cancel_nft_order(&registry, &mut ledger, alice_address, order_id)
        .unwrap();

    let bob_token = ledger.get_nft_token(collection_id, mint_amount - 1).unwrap();
    assert_eq!(bob_token.owner, bob_address);
    let returned = ledger.get_nft_token(collection_id, 0).unwrap();
    assert_eq!(returned.owner, alice_address);
}

#[test]
fn buy_nft_failed() {
    let mut registry = CollectionRegistry::new();
    let mut ledger = TokenLedger::new();
    let mut exchange = Exchange::new();
    let mut currency = Currency::new();
    let alice_address: u128 = 1;
    let bob_address: u128 = 2;
    let mint_amount: u128 = 10;

    let collection_id = new_collection(&mut registry, alice_address, false);
    ledger
        .mint_non_fungible(
            &mut registry,
            alice_address,
            alice_address,
            collection_id,
            vec![2, 3, 3],
            mint_amount,
        )
        .unwrap();

    let token_id: u128 = 0;
    let price: u128 = 1;
    exchange
        .sell_nft(&registry, &mut ledger, alice_address, collection_id, token_id, mint_amount, price)
        .unwrap();

    currency.set_balance(bob_address, 2);

    let order_id = exchange.next_nft_order_id() - 1;
    assert_eq!(
        exchange.buy_nft(&registry, &mut ledger, &mut currency, bob_address, order_id, 0),
        Err(ExchangeError::AmountLessThanOne)
    );
    assert_eq!(
        exchange.buy_nft(&registry, &mut ledger, &mut currency, bob_address, 1, 1),
        Err(ExchangeError::OrderNotFound)
    );
    assert_eq!(
        exchange.buy_nft(&registry, &mut ledger, &mut currency, bob_address, order_id, 11),
        Err(ExchangeError::AmountTooLarge)
    );
}

#[test]
fn create_smei_token_pool() {
    let mut registry = CollectionRegistry::new();
    let mut ledger = TokenLedger::new();
    let mut exchange = Exchange::new();
    let alice_address: u128 = 1;
    let mint_amount: u128 = 10;

    let collection_id = new_collection(&mut registry, alice_address, true);
    ledger
        .mint_fungible(&mut registry, alice_address, alice_address, collection_id, mint_amount)
        .unwrap();

    let duration: u128 = 1;
    let reverse_ratio: u128 = 500000;
    let m: u128 = 20;
    let now: u128 = 0;

    exchange
        .create_semi_token_pool(
            &registry,
            &mut ledger,
            alice_address,
            collection_id,
            10,
            reverse_ratio,
            m,
            duration,
            now,
        )
        .unwrap();

    let pool = exchange.semi_fungible_pool(collection_id, alice_address).unwrap();
    assert_eq!(pool.end_time, 1);
    assert_eq!(ledger.get_balance(collection_id, Exchange::account_id()), 10);
}

#[test]
fn create_smei_token_pool_falied() {
    let mut registry = CollectionRegistry::new();
    let mut ledger = TokenLedger::new();
    let mut exchange = Exchange::new();
    let alice_address: u128 = 1;
    let bob_address: u128 = 2;
    let mint_amount: u128 = 10;

    let nft_collection_id = new_collection(&mut registry, alice_address, false);
    ledger
        .mint_non_fungible(
            &mut registry,
            alice_address,
            alice_address,
            nft_collection_id,
            vec![2, 3, 3],
            mint_amount,
        )
        .unwrap();

    let duration: u128 = 1;
    let reverse_ratio: u128 = 500000;
    let m: u128 = 20;
    let now: u128 = 0;

    assert_eq!(
        exchange.create_semi_token_pool(
            &registry,
            &mut ledger,
            alice_address,
            nft_collection_id,
            10,
            m,
            reverse_ratio,
            duration,
            now,
        ),
        Err(ExchangeError::WrongTokenType)
    );

    let collection_id = new_collection(&mut registry, alice_address, true);
    ledger
        .mint_fungible(&mut registry, alice_address, alice_address, collection_id, mint_amount)
        .unwrap();

    assert_eq!(
        exchange.create_semi_token_pool(
            &registry,
            &mut ledger,
            alice_address,
            collection_id,
            10,
            0,
            m,
            duration,
            now,
        ),
        Err(ExchangeError::ReverseRatioLessThanOne)
    );
    assert_eq!(
        exchange.create_semi_token_pool(
            &registry,
            &mut ledger,
            alice_address,
            collection_id,
            10,
            reverse_ratio,
            0,
            duration,
            now,
        ),
        Err(ExchangeError::MLessThanOne)
    );
    assert_eq!(
        exchange.create_semi_token_pool(
            &registry,
            &mut ledger,
            bob_address,
            collection_id,
            10,
            reverse_ratio,
            m,
            duration,
            now,
        ),
        Err(ExchangeError::AmountTooLarge)
    );

    exchange
        .create_semi_token_pool(
            &registry,
            &mut ledger,
            alice_address,
            collection_id,
            10,
            reverse_ratio,
            m,
            duration,
            now,
        )
        .unwrap();
    assert_eq!(
        exchange.create_semi_token_pool(
            &registry,
            &mut ledger,
            alice_address,
            collection_id,
            10,
            reverse_ratio,
            m,
            duration,
            now,
        ),
        Err(ExchangeError::PoolExisted)
    );
}

#[test]
fn buy_and_sell_smei_token() {
    let mut registry = CollectionRegistry::new();
    let mut ledger = TokenLedger::new();
    let mut exchange = Exchange::new();
    let mut currency = Currency::new();
    let alice_address: u128 = 1;
    let bob_address: u128 = 2;
    let mint_amount: u128 = 10;

    let collection_id = new_collection(&mut registry, alice_address, true);
    ledger
        .mint_fungible(&mut registry, alice_address, alice_address, collection_id, mint_amount)
        .unwrap();

    let duration: u128 = 1;
    let reverse_ratio: u128 = 500000;
    let m: u128 = 20;
    let now: u128 = 0;
    currency.set_balance(bob_address, 100);

    exchange
        .create_semi_token_pool(
            &registry,
            &mut ledger,
            alice_address,
            collection_id,
            10,
            reverse_ratio,
            m,
            duration,
            now,
        )
        .unwrap();
    exchange
        .buy_semi_token(
            &registry,
            &mut ledger,
            &mut currency,
            bob_address,
            collection_id,
            alice_address,
            1,
            now,
        )
        .unwrap();
    // the first buy costs 10
    assert_eq!(currency.free_balance(bob_address), 90);

    exchange
        .sell_semi_token(
            &registry,
            &mut ledger,
            &mut currency,
            bob_address,
            collection_id,
            alice_address,
            1,
            now,
        )
        .unwrap();
    assert_eq!(currency.free_balance(bob_address), 100);
}

#[test]
fn buy_and_sell_smei_token_failed() {
    let mut registry = CollectionRegistry::new();
    let mut ledger = TokenLedger::new();
    let mut exchange = Exchange::new();
    let mut currency = Currency::new();
    let alice_address: u128 = 1;
    let bob_address: u128 = 2;
    let mint_amount: u128 = 10;

    let collection_id = new_collection(&mut registry, alice_address, true);
    ledger
        .mint_fungible(&mut registry, alice_address, alice_address, collection_id, mint_amount)
        .unwrap();

    let duration: u128 = 1;
    let reverse_ratio: u128 = 500000;
    let m: u128 = 20;
    let now: u128 = 0;
    currency.set_balance(bob_address, 100);

    exchange
        .create_semi_token_pool(
            &registry,
            &mut ledger,
            alice_address,
            collection_id,
            10,
            reverse_ratio,
            m,
            duration,
            now,
        )
        .unwrap();
    assert_eq!(
        exchange.buy_semi_token(
            &registry,
            &mut ledger,
            &mut currency,
            bob_address,
            collection_id,
            alice_address,
            100,
            now,
        ),
        Err(ExchangeError::AmountTooLarge)
    );
    assert_eq!(
        exchange.buy_semi_token(
            &registry,
            &mut ledger,
            &mut currency,
            bob_address,
            collection_id,
            bob_address,
            100,
            now,
        ),
        Err(ExchangeError::PoolNotFound)
    );

    exchange
        .buy_semi_token(
            &registry,
            &mut ledger,
            &mut currency,
            bob_address,
            collection_id,
            alice_address,
            1,
            now,
        )
        .unwrap();

    assert_eq!(
        exchange.sell_semi_token(
            &registry,
            &mut ledger,
            &mut currency,
            bob_address,
            collection_id,
            alice_address,
            100,
            now,
        ),
        Err(ExchangeError::AmountTooLarge)
    );
    assert_eq!(
        exchange.sell_semi_token(
            &registry,
            &mut ledger,
            &mut currency,
            bob_address,
            collection_id,
            bob_address,
            100,
            now,
        ),
        Err(ExchangeError::PoolNotFound)
    );

    let now: u128 = 2;
    assert_eq!(
        exchange.buy_semi_token(
            &registry,
            &mut ledger,
            &mut currency,
            bob_address,
            collection_id,
            alice_address,
            1,
            now,
        ),
        Err(ExchangeError::ExpiredSoldTime)
    );
    assert_eq!(
        exchange.sell_semi_token(
            &registry,
            &mut ledger,
            &mut currency,
            bob_address,
            collection_id,
            alice_address,
            1,
            now,
        ),
        Err(ExchangeError::ExpiredSoldTime)
    );
}

#[test]
fn withdraw_pool() {
    let mut registry = CollectionRegistry::new();
    let mut ledger = TokenLedger::new();
    let mut exchange = Exchange::new();
    let mut currency = Currency::new();
    let alice_address: u128 = 1;
    let bob_address: u128 = 2;
    let mint_amount: u128 = 10;

    let collection_id = new_collection(&mut registry, alice_address, true);
    ledger
        .mint_fungible(&mut registry, alice_address, alice_address, collection_id, mint_amount)
        .unwrap();

    let duration: u128 = 1;
    let reverse_ratio: u128 = 500000;
    let m: u128 = 20;
    let now: u128 = 0;
    currency.set_balance(bob_address, 100);

    exchange
        .create_semi_token_pool(
            &registry,
            &mut ledger,
            alice_address,
            collection_id,
            10,
            reverse_ratio,
            m,
            duration,
            now,
        )
        .unwrap();
    exchange
        .buy_semi_token(
            &registry,
            &mut ledger,
            &mut currency,
            bob_address,
            collection_id,
            alice_address,
            1,
            now,
        )
        .unwrap();

    assert_eq!(
        exchange.withdraw_pool(&registry, &mut ledger, &mut currency, alice_address, collection_id, now),
        Err(ExchangeError::CanNotWithdraw)
    );
    assert_eq!(
        exchange.withdraw_pool(&registry, &mut ledger, &mut currency, bob_address, collection_id, now),
        Err(ExchangeError::PoolNotFound)
    );

    let now: u128 = 3;
    exchange
        .withdraw_pool(&registry, &mut ledger, &mut currency, alice_address, collection_id, now)
        .unwrap();

    assert_eq!(currency.free_balance(alice_address), 10);
    assert_eq!(ledger.get_balance(collection_id, alice_address), 9);
}
