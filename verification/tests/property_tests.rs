use nftdao::collection::{CollectionError, CollectionRegistry};
use nftdao::currency::{Currency, CurrencyError};
use nftdao::dao::Module;
use nftdao::exchange::Exchange;
use nftdao::ids;
use nftdao::nft::TokenLedger;

fn seed() -> Vec<u8> {
    vec![7u8; 32]
}

fn new_collection(registry: &mut CollectionRegistry, owner: u128, is_fungible: bool) -> u128 {
    registry
        .create_collection(owner, vec![2, 3, 3], is_fungible, &seed())
        .unwrap()
}

// A range transfer splits [s, e] into the moved tail [e-k+1, e] and the kept
// low part [s, e-k], moves exactly k units of balance, and conserves the
// total id count.
#[test]
fn range_split_scenario() {
    let mut registry = CollectionRegistry::new();
    let mut ledger = TokenLedger::new();
    let alice: u128 = 1;
    let bob: u128 = 2;
    let cid = new_collection(&mut registry, alice, false);
    ledger
        .mint_non_fungible(&mut registry, alice, alice, cid, vec![2, 3, 3], 7)
        .unwrap();
    // the range is [0, 6]; transfer k = 3
    ledger
        ._transfer_non_fungible(&registry, alice, bob, cid, 0, 3)
        .unwrap();

    let bob_range = ledger.get_nft_token(cid, 4).unwrap();
    assert_eq!(bob_range.owner, bob);
    assert_eq!(bob_range.end_idx, 6);
    let alice_range = ledger.get_nft_token(cid, 0).unwrap();
    assert_eq!(alice_range.owner, alice);
    assert_eq!(alice_range.end_idx, 3);

    // sizes: (3 - 0 + 1) + (6 - 4 + 1) == 7
    assert_eq!((3 - 0 + 1) + (6 - 4 + 1), 7u128);
    assert_eq!(ledger.get_balance(cid, alice), 4);
    assert_eq!(ledger.get_balance(cid, bob), 3);
}

// Transferring the whole range re-owns the record in place with no residual.
#[test]
fn range_split_whole_range() {
    let mut registry = CollectionRegistry::new();
    let mut ledger = TokenLedger::new();
    let alice: u128 = 1;
    let bob: u128 = 2;
    let cid = new_collection(&mut registry, alice, false);
    ledger
        .mint_non_fungible(&mut registry, alice, alice, cid, vec![2, 3, 3], 4)
        .unwrap();
    ledger
        ._transfer_non_fungible(&registry, alice, bob, cid, 0, 4)
        .unwrap();
    let range = ledger.get_nft_token(cid, 0).unwrap();
    assert_eq!(range.owner, bob);
    assert_eq!(range.end_idx, 3);
    assert_eq!(ledger.get_balance(cid, alice), 0);
    assert_eq!(ledger.get_balance(cid, bob), 4);
}

// After any mint/transfer/burn sequence the collection's total supply equals
// the sum of all account balances in it.
#[test]
fn supply_equals_balance_sum() {
    let mut registry = CollectionRegistry::new();
    let mut ledger = TokenLedger::new();
    let alice: u128 = 1;
    let bob: u128 = 2;
    let carol: u128 = 3;
    let cid = new_collection(&mut registry, alice, false);

    ledger
        .mint_non_fungible(&mut registry, alice, alice, cid, vec![2, 3, 3], 9)
        .unwrap();
    ledger
        ._transfer_non_fungible(&registry, alice, bob, cid, 0, 4)
        .unwrap();
    ledger
        ._transfer_non_fungible(&registry, bob, carol, cid, 5, 1)
        .unwrap();
    ledger
        ._burn_non_fungible(&mut registry, alice, cid, 0, 2)
        .unwrap();

    let total = registry.get_collection(cid).unwrap().total_supply;
    let sum = ledger.get_balance(cid, alice) + ledger.get_balance(cid, bob)
        + ledger.get_balance(cid, carol);
    assert_eq!(total, sum);
    assert_eq!(total, 7);
    assert_eq!(ledger.get_burned_amount(cid), 2);
}

// The bonding curve's worked example: an immediate round trip never pays out
// more than it took in, because buys round up and sells truncate.
#[test]
fn curve_round_trip_bound_example() {
    let reverse_ratio: u128 = 500000;
    let cost = Exchange::buy_cost(2, 1, 3, reverse_ratio).unwrap();
    assert_eq!(cost, 2);
    let receive = Exchange::sell_receive(2, 1, 2, reverse_ratio).unwrap();
    assert_eq!(receive, 1);
    assert!(receive <= cost);
}

// A partial purchase shrinks the order by exactly the bought amount and the
// order's key still addresses the custody record holding the remainder.
#[test]
fn order_book_conservation() {
    let mut registry = CollectionRegistry::new();
    let mut ledger = TokenLedger::new();
    let mut exchange = Exchange::new();
    let mut currency = Currency::new();
    let alice: u128 = 1;
    let bob: u128 = 2;
    let cid = new_collection(&mut registry, alice, false);
    ledger
        .mint_non_fungible(&mut registry, alice, alice, cid, vec![2, 3, 3], 8)
        .unwrap();
    let order_id = exchange
        .sell_nft(&registry, &mut ledger, alice, cid, 0, 8, 3)
        .unwrap();
    currency.set_balance(bob, 100);

    exchange
        .buy_nft(&registry, &mut ledger, &mut currency, bob, order_id, 3)
        .unwrap();

    let order = exchange.nft_order(order_id).unwrap();
    assert_eq!(order.amount, 5);
    assert_eq!(order.start_idx, 0);
    let custody = ledger.get_nft_token(cid, order.start_idx).unwrap();
    assert_eq!(custody.owner, Exchange::account_id());
    assert_eq!(custody.end_idx, order.start_idx + order.amount - 1);
    // the buyer paid price * amount
    assert_eq!(currency.free_balance(bob), 100 - 9);
    assert_eq!(currency.free_balance(alice), 9);
}

// Majority yes still fails under the dilution bound: with dilution_bound 1,
// total_shares * 1 never exceeds the total seen at the yes vote.
#[test]
fn dilution_guard_scenario() {
    let mut registry = CollectionRegistry::new();
    let mut ledger = TokenLedger::new();
    let mut currency = Currency::new();
    let mut dao = Module::new();
    let alice: u128 = 1;
    currency.set_balance(alice, 100);

    let (dao_account, _escrow) = dao
        .create_dao(alice, Vec::new(), 2, 1, 1, 1, 1, 1, 1, &seed(), 0)
        .unwrap();
    dao.submit_proposal(
        &registry,
        &mut ledger,
        &mut currency,
        alice,
        dao_account,
        alice,
        1,
        0,
        None,
        Vec::new(),
        None,
    )
    .unwrap();
    dao.sponsor_proposal(&mut currency, alice, dao_account, 0, 0).unwrap();
    dao.vote_proposal(alice, dao_account, 0, true, 0).unwrap();

    let did_pass = dao
        .process_proposal(&registry, &mut ledger, &mut currency, alice, dao_account, 0, 4)
        .unwrap();
    assert_eq!(did_pass, false);
    let proposal = dao.proposal(dao_account, 0).unwrap();
    assert_eq!(proposal.yes_votes > proposal.no_votes, true);
    assert_eq!(proposal.did_pass, false);
    assert_eq!(proposal.processed, true);
}

// Ragequit pays floor(balance * shares / total): 7 * 1 / 2 == 3.
#[test]
fn ragequit_payout_floor() {
    let mut registry = CollectionRegistry::new();
    let mut ledger = TokenLedger::new();
    let mut currency = Currency::new();
    let mut dao = Module::new();
    let alice: u128 = 1;
    currency.set_balance(alice, 100);

    let (dao_account, _escrow) = dao
        .create_dao(alice, Vec::new(), 2, 1, 1, 2, 1, 1, 3, &seed(), 0)
        .unwrap();
    // a zero-share proposal, so the total stays 2 after processing
    dao.submit_proposal(
        &registry,
        &mut ledger,
        &mut currency,
        alice,
        dao_account,
        alice,
        0,
        0,
        None,
        Vec::new(),
        None,
    )
    .unwrap();
    dao.sponsor_proposal(&mut currency, alice, dao_account, 0, 0).unwrap();
    dao.vote_proposal(alice, dao_account, 0, true, 0).unwrap();
    dao.process_proposal(&registry, &mut ledger, &mut currency, alice, dao_account, 0, 4)
        .unwrap();

    currency.set_balance(dao_account, 7);
    let payout = dao.ragequit(&mut currency, alice, dao_account, 1).unwrap();
    assert_eq!(payout, 3);
    assert_eq!(dao.member(dao_account, alice).unwrap().shares, 1);
    assert_eq!(dao.dao(dao_account).unwrap().total_shares, 1);
}

// Processing queue slot 1 before slot 0 is refused.
#[test]
fn strict_queue_order_scenario() {
    let mut registry = CollectionRegistry::new();
    let mut ledger = TokenLedger::new();
    let mut currency = Currency::new();
    let mut dao = Module::new();
    let alice: u128 = 1;
    currency.set_balance(alice, 100);

    let (dao_account, _escrow) = dao
        .create_dao(alice, Vec::new(), 2, 1, 1, 1, 1, 1, 3, &seed(), 0)
        .unwrap();
    for _ in 0..2 {
        dao.submit_proposal(
            &registry,
            &mut ledger,
            &mut currency,
            alice,
            dao_account,
            alice,
            1,
            0,
            None,
            Vec::new(),
            None,
        )
        .unwrap();
    }
    dao.sponsor_proposal(&mut currency, alice, dao_account, 0, 0).unwrap();
    dao.sponsor_proposal(&mut currency, alice, dao_account, 1, 0).unwrap();

    assert_eq!(
        dao.process_proposal(&registry, &mut ledger, &mut currency, alice, dao_account, 1, 4),
        Err(nftdao::dao::DaoError::PrevProposalUnprocessed)
    );
    dao.process_proposal(&registry, &mut ledger, &mut currency, alice, dao_account, 0, 4)
        .unwrap();
    dao.process_proposal(&registry, &mut ledger, &mut currency, alice, dao_account, 1, 4)
        .unwrap();
}

// Ids derived from the same salt and seed but different nonces differ: the
// nonce sits in the hash preimage.
#[test]
fn distinct_nonces_distinct_ids() {
    let registry = CollectionRegistry::new();
    let s = seed();
    let a = registry.generate_collection_id(1, &s);
    let b = registry.generate_collection_id(2, &s);
    assert_ne!(a, b);

    // the digest really is a hash of the bytes, not the bytes themselves: an
    // all-zero preimage folds to zero, its digest does not
    let zero_salt: Vec<u8> = vec![0u8; 8];
    let zero_seed: Vec<u8> = vec![0u8; 8];
    let id = ids::generate_id(zero_salt.as_slice(), &zero_seed, 0);
    assert_ne!(id, 0);
}

// The currency ledger: zero transfers always succeed, shortfalls never do.
#[test]
fn currency_transfer_rules() {
    let mut currency = Currency::new();
    let alice: u128 = 1;
    let bob: u128 = 2;
    assert_eq!(currency.transfer(alice, bob, 0), Ok(()));
    assert_eq!(
        currency.transfer(alice, bob, 1),
        Err(CurrencyError::InsufficientBalance)
    );
    currency.set_balance(alice, 5);
    assert_eq!(currency.transfer(alice, bob, 5), Ok(()));
    assert_eq!(currency.free_balance(alice), 0);
    assert_eq!(currency.free_balance(bob), 5);
}

// The total-supply counters are checked, never wrapping.
#[test]
fn supply_counters_are_checked() {
    let mut registry = CollectionRegistry::new();
    let mut ledger = TokenLedger::new();
    let alice: u128 = 1;
    let cid = new_collection(&mut registry, alice, true);
    ledger
        .mint_fungible(&mut registry, alice, alice, cid, u128::MAX)
        .unwrap();
    assert_eq!(
        ledger.mint_fungible(&mut registry, alice, alice, cid, 1),
        Err(nftdao::nft::NftError::NumOverflow)
    );
    assert_eq!(
        registry.add_total_supply(cid, 1),
        Err(CollectionError::NumOverflow)
    );
    assert_eq!(
        registry.sub_total_supply(cid, u128::MAX),
        Ok(0)
    );
}
