use nftdao::collection::CollectionRegistry;
use nftdao::currency::Currency;
use nftdao::dao::{DaoError, Module};
use nftdao::nft::TokenLedger;

const PERIOD_DURATION: u128 = 2;
const WRONG_PERIOD_DURATION: u128 = 0;
const VOTING_PERIOD: u128 = 1;
const WRONG_VOTING_PERIOD: u128 = 0;
const GRACE_PERIOD: u128 = 1;
const WRONG_GRACE_PERIOD: u128 = 0;
const SHARES_REQUESTED: u128 = 1;
const PROPOSAL_DEPOSIT: u128 = 1;
const WRONG_PROPOSAL_DEPOSIT: u128 = 0;
const PROCESSING_REWARD: u128 = 1;
const DILUTION_BOUND: u128 = 3;
const WRONG_DILUTION_BOUND: u128 = 0;

fn seed() -> Vec<u8> {
    vec![9u8; 32]
}

fn metadata() -> Vec<u8> {
    Vec::new()
}

fn create_a_dao(dao: &mut Module, summoner: u128, deposit: u128, reward: u128) -> (u128, u128) {
    dao.create_dao(
        summoner,
        metadata(),
        PERIOD_DURATION,
        VOTING_PERIOD,
        GRACE_PERIOD,
        SHARES_REQUESTED,
        deposit,
        reward,
        DILUTION_BOUND,
        &seed(),
        0,
    )
    .unwrap()
}

fn mint_a_nft(
    registry: &mut CollectionRegistry,
    ledger: &mut TokenLedger,
    minter: u128,
) -> (u128, u128) {
    let collection_id = registry
        .create_collection(minter, vec![2, 3, 3], false, &seed())
        .unwrap();
    ledger
        .mint_non_fungible(registry, minter, minter, collection_id, vec![2, 3, 3], 1)
        .unwrap();
    (collection_id, 0)
}

#[test]
fn create_dao() {
    let mut dao = Module::new();
    let alice_address: u128 = 1;

    let (dao_account, _escrow) = dao
        .create_dao(
            alice_address,
            metadata(),
            PERIOD_DURATION,
            VOTING_PERIOD,
            GRACE_PERIOD,
            SHARES_REQUESTED,
            PROPOSAL_DEPOSIT,
            PROCESSING_REWARD,
            DILUTION_BOUND,
            &seed(),
            0,
        )
        .unwrap();

    let info = dao.dao(dao_account).unwrap();
    assert_eq!(info.metadata, metadata());
    assert_eq!(info.period_duration, PERIOD_DURATION);
}

#[test]
fn create_dao_failed() {
    let mut dao = Module::new();
    let alice_address: u128 = 1;

    assert_eq!(
        dao.create_dao(
            alice_address,
            metadata(),
            PERIOD_DURATION,
            VOTING_PERIOD,
            GRACE_PERIOD,
            SHARES_REQUESTED,
            WRONG_PROPOSAL_DEPOSIT,
            PROCESSING_REWARD,
            DILUTION_BOUND,
            &seed(),
            0,
        ),
        Err(DaoError::DepositSmallerThanReward)
    );
    assert_eq!(
        dao.create_dao(
            alice_address,
            metadata(),
            WRONG_PERIOD_DURATION,
            VOTING_PERIOD,
            GRACE_PERIOD,
            SHARES_REQUESTED,
            PROPOSAL_DEPOSIT,
            PROCESSING_REWARD,
            DILUTION_BOUND,
            &seed(),
            0,
        ),
        Err(DaoError::PeriodDurationShouldLargeThanZero)
    );
    assert_eq!(
        dao.create_dao(
            alice_address,
            metadata(),
            PERIOD_DURATION,
            WRONG_VOTING_PERIOD,
            GRACE_PERIOD,
            SHARES_REQUESTED,
            PROPOSAL_DEPOSIT,
            PROCESSING_REWARD,
            DILUTION_BOUND,
            &seed(),
            0,
        ),
        Err(DaoError::VotingDurationShouldLargeThanZero)
    );
    assert_eq!(
        dao.create_dao(
            alice_address,
            metadata(),
            PERIOD_DURATION,
            VOTING_PERIOD,
            WRONG_GRACE_PERIOD,
            SHARES_REQUESTED,
            PROPOSAL_DEPOSIT,
            PROCESSING_REWARD,
            DILUTION_BOUND,
            &seed(),
            0,
        ),
        Err(DaoError::GracePeriodShouldLargeThanZero)
    );
    assert_eq!(
        dao.create_dao(
            alice_address,
            metadata(),
            PERIOD_DURATION,
            VOTING_PERIOD,
            GRACE_PERIOD,
            SHARES_REQUESTED,
            PROPOSAL_DEPOSIT,
            PROCESSING_REWARD,
            WRONG_DILUTION_BOUND,
            &seed(),
            0,
        ),
        Err(DaoError::DilutionBoundShouldLargeThanZero)
    );
}

#[test]
fn submit_proposal() {
    let mut registry = CollectionRegistry::new();
    let mut ledger = TokenLedger::new();
    let mut currency = Currency::new();
    let mut dao = Module::new();
    let alice_address: u128 = 1;

    let (dao_account, _escrow) =
        create_a_dao(&mut dao, alice_address, PROPOSAL_DEPOSIT, PROPOSAL_DEPOSIT);

    let pid = dao
        .submit_proposal(
            &registry,
            &mut ledger,
            &mut currency,
            alice_address,
            dao_account,
            alice_address,
            1,
            0,
            None,
            Vec::new(),
            Some(Vec::new()),
        )
        .unwrap();
    assert_eq!(pid, 0);

    let proposal = dao.proposal(dao_account, 0).unwrap();
    assert_eq!(proposal.proposer, alice_address);
    assert_eq!(proposal.shares_requested, 1);
}

#[test]
fn submit_proposal_and_tribute() {
    let mut registry = CollectionRegistry::new();
    let mut ledger = TokenLedger::new();
    let mut currency = Currency::new();
    let mut dao = Module::new();
    let alice_address: u128 = 1;

    let (dao_account, escrow_id) =
        create_a_dao(&mut dao, alice_address, PROPOSAL_DEPOSIT, PROPOSAL_DEPOSIT);

    currency.set_balance(alice_address, 100);
    assert_eq!(currency.free_balance(alice_address), 100);

    dao.submit_proposal(
        &registry,
        &mut ledger,
        &mut currency,
        alice_address,
        dao_account,
        alice_address,
        1,
        1,
        None,
        Vec::new(),
        Some(Vec::new()),
    )
    .unwrap();

    assert_eq!(currency.free_balance(alice_address), 99);
    assert_eq!(currency.free_balance(escrow_id), 1);
}

#[test]
fn submit_proposal_and_tribute_nft() {
    let mut registry = CollectionRegistry::new();
    let mut ledger = TokenLedger::new();
    let mut currency = Currency::new();
    let mut dao = Module::new();
    let alice_address: u128 = 1;

    let (dao_account, escrow_id) =
        create_a_dao(&mut dao, alice_address, PROPOSAL_DEPOSIT, PROPOSAL_DEPOSIT);

    let token = mint_a_nft(&mut registry, &mut ledger, alice_address);
    assert_eq!(ledger.get_balance(token.0, alice_address), 1);

    dao.submit_proposal(
        &registry,
        &mut ledger,
        &mut currency,
        alice_address,
        dao_account,
        alice_address,
        1,
        0,
        Some(token),
        Vec::new(),
        Some(Vec::new()),
    )
    .unwrap();

    assert_eq!(ledger.get_balance(token.0, alice_address), 0);
    assert_eq!(ledger.get_balance(token.0, escrow_id), 1);
}

#[test]
fn cancel_proposal_and_back_tribute() {
    let mut registry = CollectionRegistry::new();
    let mut ledger = TokenLedger::new();
    let mut currency = Currency::new();
    let mut dao = Module::new();
    let alice_address: u128 = 1;

    let (dao_account, escrow_id) =
        create_a_dao(&mut dao, alice_address, PROPOSAL_DEPOSIT, PROPOSAL_DEPOSIT);

    currency.set_balance(alice_address, 100);
    assert_eq!(currency.free_balance(alice_address), 100);

    dao.submit_proposal(
        &registry,
        &mut ledger,
        &mut currency,
        alice_address,
        dao_account,
        alice_address,
        1,
        1,
        None,
        Vec::new(),
        Some(Vec::new()),
    )
    .unwrap();

    assert_eq!(currency.free_balance(alice_address), 99);
    assert_eq!(currency.free_balance(escrow_id), 1);

    dao.cancel_proposal(&registry, &mut ledger, &mut currency, alice_address, dao_account, 0)
        .unwrap();

    assert_eq!(currency.free_balance(alice_address), 100);
    assert_eq!(currency.free_balance(escrow_id), 0);
    assert_eq!(dao.proposal(dao_account, 0).unwrap().cancelled, true);
}

#[test]
fn sponsor_proposal() {
    let mut registry = CollectionRegistry::new();
    let mut ledger = TokenLedger::new();
    let mut currency = Currency::new();
    let mut dao = Module::new();
    let alice_address: u128 = 1;

    currency.set_balance(alice_address, 100);

    let (dao_account, _escrow) =
        create_a_dao(&mut dao, alice_address, PROPOSAL_DEPOSIT, PROPOSAL_DEPOSIT);

    dao.submit_proposal(
        &registry,
        &mut ledger,
        &mut currency,
        alice_address,
        dao_account,
        alice_address,
        1,
        0,
        None,
        Vec::new(),
        Some(Vec::new()),
    )
    .unwrap();
    assert_eq!(currency.free_balance(alice_address), 100);

    dao.sponsor_proposal(&mut currency, alice_address, dao_account, 0, 0)
        .unwrap();

    let proposal = dao.proposal(dao_account, 0).unwrap();
    assert_eq!(proposal.sponsor, Some(alice_address));
    assert_eq!(proposal.sponsored, true);
    assert_eq!(currency.free_balance(alice_address), 99);
}

#[test]
fn sponsor_proposal_failed() {
    let mut registry = CollectionRegistry::new();
    let mut ledger = TokenLedger::new();
    let mut currency = Currency::new();
    let mut dao = Module::new();
    let alice_address: u128 = 1;
    let bob_address: u128 = 2;

    let (dao_account, _escrow) =
        create_a_dao(&mut dao, alice_address, PROPOSAL_DEPOSIT, PROPOSAL_DEPOSIT);

    dao.submit_proposal(
        &registry,
        &mut ledger,
        &mut currency,
        alice_address,
        dao_account,
        alice_address,
        1,
        0,
        None,
        Vec::new(),
        Some(Vec::new()),
    )
    .unwrap();

    assert_eq!(
        dao.sponsor_proposal(&mut currency, bob_address, dao_account, 0, 0),
        Err(DaoError::NotDAOMember)
    );

    // the sponsor has no balance for the deposit
    assert_eq!(
        dao.sponsor_proposal(&mut currency, alice_address, dao_account, 0, 0).is_ok(),
        false
    );

    dao.cancel_proposal(&registry, &mut ledger, &mut currency, alice_address, dao_account, 0)
        .unwrap();

    currency.set_balance(alice_address, 100);

    assert_eq!(
        dao.sponsor_proposal(&mut currency, alice_address, dao_account, 0, 0),
        Err(DaoError::CancelledProposal)
    );
}

#[test]
fn vote_proposal() {
    let mut registry = CollectionRegistry::new();
    let mut ledger = TokenLedger::new();
    let mut currency = Currency::new();
    let mut dao = Module::new();
    let alice_address: u128 = 1;

    currency.set_balance(alice_address, 100);

    let (dao_account, _escrow) =
        create_a_dao(&mut dao, alice_address, PROPOSAL_DEPOSIT, PROPOSAL_DEPOSIT);

    dao.submit_proposal(
        &registry,
        &mut ledger,
        &mut currency,
        alice_address,
        dao_account,
        alice_address,
        1,
        0,
        None,
        Vec::new(),
        Some(Vec::new()),
    )
    .unwrap();
    dao.sponsor_proposal(&mut currency, alice_address, dao_account, 0, 0)
        .unwrap();

    dao.vote_proposal(alice_address, dao_account, 0, true, 0).unwrap();

    let proposal = dao.proposal(dao_account, 0).unwrap();
    assert_eq!(proposal.yes_votes, 1);
}

#[test]
fn vote_proposal_failed() {
    let mut registry = CollectionRegistry::new();
    let mut ledger = TokenLedger::new();
    let mut currency = Currency::new();
    let mut dao = Module::new();
    let alice_address: u128 = 1;
    let bob_address: u128 = 2;

    currency.set_balance(alice_address, 100);

    let (dao_account, _escrow) =
        create_a_dao(&mut dao, alice_address, PROPOSAL_DEPOSIT, PROPOSAL_DEPOSIT);

    dao.submit_proposal(
        &registry,
        &mut ledger,
        &mut currency,
        alice_address,
        dao_account,
        alice_address,
        1,
        0,
        None,
        Vec::new(),
        Some(Vec::new()),
    )
    .unwrap();
    dao.sponsor_proposal(&mut currency, alice_address, dao_account, 0, 0)
        .unwrap();

    // the voting window lasts one period of two blocks
    assert_eq!(
        dao.vote_proposal(alice_address, dao_account, 0, true, 2),
        Err(DaoError::ExpiredPeriod)
    );
    assert_eq!(
        dao.vote_proposal(alice_address, 2, 0, true, 0),
        Err(DaoError::DAONotFound)
    );
    assert_eq!(
        dao.vote_proposal(alice_address, dao_account, 2, true, 0),
        Err(DaoError::ProposalNotFound)
    );
    assert_eq!(
        dao.vote_proposal(bob_address, dao_account, 0, true, 0),
        Err(DaoError::PermissionDenied)
    );
    dao.vote_proposal(alice_address, dao_account, 0, true, 0).unwrap();
    assert_eq!(
        dao.vote_proposal(alice_address, dao_account, 0, true, 0),
        Err(DaoError::MemberAlreadyVoted)
    );
}

#[test]
fn process_proposal() {
    let mut registry = CollectionRegistry::new();
    let mut ledger = TokenLedger::new();
    let mut currency = Currency::new();
    let mut dao = Module::new();
    let alice_address: u128 = 1;

    currency.set_balance(alice_address, 100);

    let (dao_account, _escrow) =
        create_a_dao(&mut dao, alice_address, PROPOSAL_DEPOSIT, PROPOSAL_DEPOSIT);

    dao.submit_proposal(
        &registry,
        &mut ledger,
        &mut currency,
        alice_address,
        dao_account,
        alice_address,
        1,
        0,
        None,
        Vec::new(),
        Some(Vec::new()),
    )
    .unwrap();
    dao.sponsor_proposal(&mut currency, alice_address, dao_account, 0, 0)
        .unwrap();
    dao.vote_proposal(alice_address, dao_account, 0, true, 0).unwrap();

    let did_pass = dao
        .process_proposal(&registry, &mut ledger, &mut currency, alice_address, dao_account, 0, 4)
        .unwrap();
    assert_eq!(did_pass, true);

    let proposal = dao.proposal(dao_account, 0).unwrap();
    assert_eq!(proposal.did_pass, true);

    let member = dao.member(dao_account, alice_address).unwrap();
    assert_eq!(member.shares, 2);
}

#[test]
fn process_proposal_failed() {
    let mut registry = CollectionRegistry::new();
    let mut ledger = TokenLedger::new();
    let mut currency = Currency::new();
    let mut dao = Module::new();
    let alice_address: u128 = 1;

    currency.set_balance(alice_address, 100);

    let (dao_account, _escrow) =
        create_a_dao(&mut dao, alice_address, PROPOSAL_DEPOSIT, PROPOSAL_DEPOSIT);

    dao.submit_proposal(
        &registry,
        &mut ledger,
        &mut currency,
        alice_address,
        dao_account,
        alice_address,
        1,
        0,
        None,
        Vec::new(),
        Some(Vec::new()),
    )
    .unwrap();
    dao.sponsor_proposal(&mut currency, alice_address, dao_account, 0, 0)
        .unwrap();
    dao.vote_proposal(alice_address, dao_account, 0, true, 0).unwrap();

    assert_eq!(
        dao.process_proposal(&registry, &mut ledger, &mut currency, alice_address, dao_account, 0, 0),
        Err(DaoError::NotReadyToProcessed)
    );
    assert_eq!(
        dao.process_proposal(&registry, &mut ledger, &mut currency, alice_address, dao_account, 2, 4),
        Err(DaoError::ProposalNotFound)
    );
    dao.process_proposal(&registry, &mut ledger, &mut currency, alice_address, dao_account, 0, 4)
        .unwrap();
    assert_eq!(
        dao.process_proposal(&registry, &mut ledger, &mut currency, alice_address, dao_account, 0, 4),
        Err(DaoError::ProcessedProposal)
    );
}

#[test]
fn run_action() {
    let mut registry = CollectionRegistry::new();
    let mut ledger = TokenLedger::new();
    let mut currency = Currency::new();
    let mut dao = Module::new();
    let alice_address: u128 = 1;
    let bob_address: u128 = 2;

    currency.set_balance(alice_address, 100);

    let (dao_account, _escrow) =
        create_a_dao(&mut dao, alice_address, PROPOSAL_DEPOSIT, PROPOSAL_DEPOSIT);
    currency.set_balance(dao_account, 100);

    // an opaque action payload; the caller dispatches it after processing
    let preimage: Vec<u8> = vec![0, 2, 2, bob_address as u8, 10];

    dao.submit_proposal(
        &registry,
        &mut ledger,
        &mut currency,
        alice_address,
        dao_account,
        alice_address,
        1,
        0,
        None,
        Vec::new(),
        Some(preimage),
    )
    .unwrap();
    dao.sponsor_proposal(&mut currency, alice_address, dao_account, 0, 0)
        .unwrap();
    dao.vote_proposal(alice_address, dao_account, 0, true, 0).unwrap();

    let did_pass = dao
        .process_proposal(&registry, &mut ledger, &mut currency, alice_address, dao_account, 0, 4)
        .unwrap();
    assert_eq!(did_pass, true);

    // the surrounding program dispatches the action with the DAO's authority
    // and records the outcome
    currency.transfer(dao_account, bob_address, 10).unwrap();
    dao.record_action_result(dao_account, 0, true).unwrap();

    let proposal = dao.proposal(dao_account, 0).unwrap();
    assert_eq!(proposal.did_pass, true);
    assert_eq!(proposal.executed, true);

    let member = dao.member(dao_account, alice_address).unwrap();
    assert_eq!(member.shares, 2);

    assert_eq!(currency.free_balance(bob_address), 10);
}

#[test]
fn ragequit() {
    let mut registry = CollectionRegistry::new();
    let mut ledger = TokenLedger::new();
    let mut currency = Currency::new();
    let mut dao = Module::new();
    let alice_address: u128 = 1;

    currency.set_balance(alice_address, 100);

    let (dao_account, escrow_id) =
        create_a_dao(&mut dao, alice_address, PROPOSAL_DEPOSIT, PROPOSAL_DEPOSIT);

    dao.submit_proposal(
        &registry,
        &mut ledger,
        &mut currency,
        alice_address,
        dao_account,
        alice_address,
        1,
        1,
        None,
        Vec::new(),
        Some(Vec::new()),
    )
    .unwrap();

    assert_eq!(currency.free_balance(dao_account), 0);
    assert_eq!(currency.free_balance(escrow_id), 1);

    dao.sponsor_proposal(&mut currency, alice_address, dao_account, 0, 0)
        .unwrap();

    assert_eq!(currency.free_balance(dao_account), 0);
    assert_eq!(currency.free_balance(escrow_id), 2);
    assert_eq!(currency.free_balance(alice_address), 98);

    dao.vote_proposal(alice_address, dao_account, 0, true, 0).unwrap();

    let member = dao.member(dao_account, alice_address).unwrap();
    assert_eq!(member.shares, 1);

    dao.process_proposal(&registry, &mut ledger, &mut currency, alice_address, dao_account, 0, 4)
        .unwrap();

    let member = dao.member(dao_account, alice_address).unwrap();
    assert_eq!(member.shares, 2);

    assert_eq!(currency.free_balance(dao_account), 1);
    assert_eq!(currency.free_balance(escrow_id), 0);
    assert_eq!(currency.free_balance(alice_address), 99);

    let payout = dao.ragequit(&mut currency, alice_address, dao_account, 2).unwrap();
    assert_eq!(payout, 1);

    assert_eq!(currency.free_balance(dao_account), 0);
    assert_eq!(currency.free_balance(escrow_id), 0);
    assert_eq!(currency.free_balance(alice_address), 100);

    let member = dao.member(dao_account, alice_address).unwrap();
    assert_eq!(member.shares, 0);
}

#[test]
fn ragequit_failed() {
    let mut registry = CollectionRegistry::new();
    let mut ledger = TokenLedger::new();
    let mut currency = Currency::new();
    let mut dao = Module::new();
    let alice_address: u128 = 1;
    let bob_address: u128 = 2;

    currency.set_balance(alice_address, 100);

    let (dao_account, _escrow) =
        create_a_dao(&mut dao, alice_address, PROPOSAL_DEPOSIT, PROPOSAL_DEPOSIT);

    dao.submit_proposal(
        &registry,
        &mut ledger,
        &mut currency,
        alice_address,
        dao_account,
        alice_address,
        1,
        0,
        None,
        Vec::new(),
        Some(Vec::new()),
    )
    .unwrap();
    dao.sponsor_proposal(&mut currency, alice_address, dao_account, 0, 0)
        .unwrap();

    assert_eq!(
        dao.ragequit(&mut currency, alice_address, dao_account, 1),
        Err(DaoError::CanNotRagequit)
    );

    dao.vote_proposal(alice_address, dao_account, 0, true, 0).unwrap();

    assert_eq!(
        dao.ragequit(&mut currency, alice_address, dao_account, 1),
        Err(DaoError::CanNotRagequit)
    );
    assert_eq!(
        dao.ragequit(&mut currency, alice_address, dao_account, 2),
        Err(DaoError::InsufficientShares)
    );
    assert_eq!(
        dao.ragequit(&mut currency, bob_address, dao_account, 1),
        Err(DaoError::PermissionDenied)
    );
}
