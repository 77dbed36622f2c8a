use nftdao::collection::{CollectionError, CollectionRegistry};
use nftdao::currency::Currency;
use nftdao::dao::{DaoError, Module};
use nftdao::exchange::{Exchange, ExchangeError};
use nftdao::graph::{Graph, GraphError};
use nftdao::nft::{NftError, TokenLedger};

fn seed() -> Vec<u8> {
    vec![5u8; 32]
}

fn new_collection(registry: &mut CollectionRegistry, owner: u128, is_fungible: bool) -> u128 {
    registry
        .create_collection(owner, vec![2, 3, 3], is_fungible, &seed())
        .unwrap()
}

#[test]
fn wrong_token_type_is_refused() {
    let mut registry = CollectionRegistry::new();
    let mut ledger = TokenLedger::new();
    let alice: u128 = 1;
    let nft_cid = new_collection(&mut registry, alice, false);
    let ft_cid = new_collection(&mut registry, alice, true);

    assert_eq!(
        ledger.mint_fungible(&mut registry, alice, alice, nft_cid, 5),
        Err(NftError::WrongTokenType)
    );
    assert_eq!(
        ledger.mint_non_fungible(&mut registry, alice, alice, ft_cid, vec![2, 3, 3], 5),
        Err(NftError::WrongTokenType)
    );
}

#[test]
fn registry_supply_needs_a_collection() {
    let mut registry = CollectionRegistry::new();
    assert_eq!(
        registry.add_total_supply(99, 1),
        Err(CollectionError::CollectionNotFound)
    );
    assert_eq!(
        registry.sub_total_supply(99, 1),
        Err(CollectionError::CollectionNotFound)
    );
}

#[test]
fn curve_inputs_out_of_range_overflow() {
    // a coefficient too large for the fixed-point integer bits
    let big: u128 = 1u128 << 100;
    assert_eq!(
        Exchange::first_buy_cost(500000, big, 1),
        Err(ExchangeError::NumOverflow)
    );
    // a zero sold supply cannot be priced by the curve integral
    assert_eq!(
        Exchange::buy_cost(10, 1, 0, 500000),
        Err(ExchangeError::NumOverflow)
    );
}

#[test]
fn link_checks_parent_and_ancestry() {
    let mut registry = CollectionRegistry::new();
    let mut ledger = TokenLedger::new();
    let mut graph = Graph::new();
    let alice: u128 = 1;
    let ccid = new_collection(&mut registry, alice, false);
    let pcid = new_collection(&mut registry, alice, false);
    ledger
        .mint_non_fungible(&mut registry, alice, alice, ccid, vec![2, 3, 3], 10)
        .unwrap();
    ledger
        .mint_non_fungible(&mut registry, alice, alice, pcid, vec![2, 3, 3], 1)
        .unwrap();

    let missing_cid = registry.generate_collection_id(registry.get_nonce() + 1, &seed());
    assert_eq!(
        graph.link_non_fungible(&registry, &mut ledger, alice, ccid, 0, missing_cid, 0),
        Err(GraphError::ParentCollectionNotFound)
    );
    assert_eq!(
        graph.link_non_fungible(&registry, &mut ledger, alice, ccid, 0, pcid, 7),
        Err(GraphError::TokenNotFound)
    );

    // lock 9 under the parent, then 8 under 9; 9 is an ancestor of 8, so 9
    // may not be re-linked under 8
    graph
        .link_non_fungible(&registry, &mut ledger, alice, ccid, 0, pcid, 0)
        .unwrap();
    graph
        .link_non_fungible(&registry, &mut ledger, alice, ccid, 0, ccid, 9)
        .unwrap();
    assert_eq!(
        graph.link_non_fungible(&registry, &mut ledger, alice, ccid, 9, ccid, 8),
        Err(GraphError::CanNotLinkAncestorToDescendant)
    );
}

#[test]
fn recover_checks_links_and_balances() {
    let mut registry = CollectionRegistry::new();
    let mut ledger = TokenLedger::new();
    let mut graph = Graph::new();
    let alice: u128 = 1;
    let ccid = new_collection(&mut registry, alice, false);
    let fcid = new_collection(&mut registry, alice, true);
    ledger
        .mint_non_fungible(&mut registry, alice, alice, ccid, vec![2, 3, 3], 2)
        .unwrap();
    ledger
        .mint_fungible(&mut registry, alice, alice, fcid, 10)
        .unwrap();

    assert_eq!(
        graph.recover_non_fungible(&registry, &mut ledger, alice, ccid, 0),
        Err(GraphError::ChildTokenNotFound)
    );
    assert_eq!(
        graph.recover_fungible(&registry, &mut ledger, alice, ccid, 0, fcid, 1),
        Err(GraphError::AmountTooLarge)
    );
    assert_eq!(
        graph.link_fungible(
            &registry,
            &mut ledger,
            alice,
            Some(ccid),
            Some(0),
            fcid,
            ccid,
            0,
            1,
        ),
        Err(GraphError::ChildHadNoBalance)
    );
}

#[test]
fn sponsoring_twice_is_refused() {
    let mut registry = CollectionRegistry::new();
    let mut ledger = TokenLedger::new();
    let mut currency = Currency::new();
    let mut dao = Module::new();
    let alice: u128 = 1;
    currency.set_balance(alice, 100);
    let (dao_account, _escrow) = dao
        .create_dao(alice, Vec::new(), 2, 1, 1, 1, 1, 1, 3, &seed(), 0)
        .unwrap();
    dao.submit_proposal(
        &registry,
        &mut ledger,
        &mut currency,
        alice,
        dao_account,
        alice,
        1,
        0,
        None,
        Vec::new(),
        None,
    )
    .unwrap();
    dao.sponsor_proposal(&mut currency, alice, dao_account, 0, 0).unwrap();
    assert_eq!(
        dao.sponsor_proposal(&mut currency, alice, dao_account, 0, 0),
        Err(DaoError::SponsoredProposal)
    );
    assert_eq!(
        dao.ragequit(&mut currency, alice, dao_account, 0),
        Err(DaoError::BurnSharesShouldLargeThanZero)
    );
}

#[test]
fn dao_id_derivation_is_deterministic() {
    let mut dao = Module::new();
    let alice: u128 = 1;
    let id = dao.dao_id(alice, &vec![1, 2, 3], &seed()).unwrap();
    let account = Module::dao_account_id(&id);
    let escrow = Module::dao_escrow_id(&id);
    // both accounts come from the same id, through different tags
    assert_ne!(account, escrow);
    assert_eq!(Module::dao_account_id(&id), account);
    assert_eq!(Module::dao_escrow_id(&id), escrow);
    // a later id from the advanced nonce denotes another account
    let id2 = dao.dao_id(alice, &vec![1, 2, 3], &seed()).unwrap();
    assert_ne!(Module::dao_account_id(&id2), account);
}

#[test]
fn period_helpers() {
    let mut currency = Currency::new();
    let mut dao = Module::new();
    let alice: u128 = 1;
    currency.set_balance(alice, 100);
    let (dao_account, _escrow) = dao
        .create_dao(alice, Vec::new(), 2, 1, 1, 1, 1, 1, 3, &seed(), 0)
        .unwrap();

    // periods elapse at one per two blocks from the summoning time
    {
        let info = dao.dao(dao_account).unwrap();
        assert_eq!(Module::get_current_period(info, 5), Ok(2));
        assert_eq!(Module::get_current_period(info, 0), Ok(0));
    }
    // ids and queue indices start at zero
    assert_eq!(dao.proposal_id_increment(dao_account), Ok(0));
    assert_eq!(dao.queue_index_increment(dao_account), Ok(0));
    // a vote tally grows by the member's shares, checked
    assert_eq!(dao.add_vote(1, 2), Ok(3));
    assert_eq!(dao.add_vote(u128::MAX, 1), Err(DaoError::NumOverflow));
    // with an empty queue the starting period is the current period
    {
        let info = dao.dao(dao_account).unwrap();
        assert_eq!(dao.calculate_starting_period(info, 6), Ok(3));
    }
}
