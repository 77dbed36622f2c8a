//! The DAO engine: Moloch-style proposal lifecycle with NFT tributes.
//! Proposals are submitted with escrowed tribute, sponsored into a strictly
//! ordered queue, voted on by share-weighted members during a period window,
//! processed in queue order under a dilution bound, and members may ragequit
//! processed positions for a proportional payout.

use vstd::prelude::*;
use crate::collection::{CollectionInfoView, CollectionRegistry};
use crate::currency::{spec_currency_transfer, Currency, CurrencyError};
use crate::ids;
use crate::nft::{spec_transfer_non_fungible, LedgerView, NftError, TokenLedger};
use crate::store::{map2_get, map2_has, map2_insert, PairTable, Table};
use crate::types::{AccountId, Balance, BlockNumber};

verus! {

/// The engine's own module account.
pub const DAO_MODULE_ACCOUNT: AccountId = 0x4e465444414f2121;

/// A DAO's raw 32-byte identifier, from which its account and escrow account
/// are derived.
#[derive(Clone, Copy)]
pub struct DAOId(pub [u8; 32]);

/// A DAO's stored details.
pub struct DAOInfo {
    pub account_id: AccountId,
    pub escrow_id: AccountId,
    pub period_duration: u128,
    pub voting_period: u128,
    pub grace_period: u128,
    pub metadata: Vec<u8>,
    pub total_shares: u128,
    pub summoning_time: BlockNumber,
    pub dilution_bound: u128,
    pub proposal_deposit: Balance,
    pub processing_reward: Balance,
}

/// The mathematical value of a [`DAOInfo`].
pub struct DAOInfoView {
    pub account_id: AccountId,
    pub escrow_id: AccountId,
    pub period_duration: u128,
    pub voting_period: u128,
    pub grace_period: u128,
    pub metadata: Seq<u8>,
    pub total_shares: u128,
    pub summoning_time: BlockNumber,
    pub dilution_bound: u128,
    pub proposal_deposit: Balance,
    pub processing_reward: Balance,
}

impl View for DAOInfo {
    type V = DAOInfoView;

    open spec fn view(&self) -> DAOInfoView {
        DAOInfoView {
            account_id: self.account_id,
            escrow_id: self.escrow_id,
            period_duration: self.period_duration,
            voting_period: self.voting_period,
            grace_period: self.grace_period,
            metadata: self.metadata@,
            total_shares: self.total_shares,
            summoning_time: self.summoning_time,
            dilution_bound: self.dilution_bound,
            proposal_deposit: self.proposal_deposit,
            processing_reward: self.processing_reward,
        }
    }
}

/// A member: voting shares and the highest queue index they voted yes on,
/// which gates their ragequit.
#[derive(Clone, Copy, Debug, PartialEq, Eq, Structural)]
pub struct Member {
    pub shares: u128,
    pub highest_index_yes_vote: u128,
}

/// A proposal's stored details.
pub struct Proposal {
    pub applicant: AccountId,
    pub proposer: AccountId,
    pub sponsor: Option<AccountId>,
    pub shares_requested: u128,
    pub tribute_offered: Balance,
    pub tribute_nft: Option<(u128, u128)>,
    pub starting_period: u128,
    pub yes_votes: u128,
    pub no_votes: u128,
    pub details: Vec<u8>,
    pub action: Option<Vec<u8>>,
    pub sponsored: bool,
    pub processed: bool,
    pub did_pass: bool,
    pub cancelled: bool,
    pub executed: bool,
    pub max_total_shares_at_yes_vote: u128,
}

/// The mathematical value of a [`Proposal`].
pub struct ProposalView {
    pub applicant: AccountId,
    pub proposer: AccountId,
    pub sponsor: Option<AccountId>,
    pub shares_requested: u128,
    pub tribute_offered: Balance,
    pub tribute_nft: Option<(u128, u128)>,
    pub starting_period: u128,
    pub yes_votes: u128,
    pub no_votes: u128,
    pub details: Seq<u8>,
    pub action: Option<Seq<u8>>,
    pub sponsored: bool,
    pub processed: bool,
    pub did_pass: bool,
    pub cancelled: bool,
    pub executed: bool,
    pub max_total_shares_at_yes_vote: u128,
}

impl View for Proposal {
    type V = ProposalView;

    open spec fn view(&self) -> ProposalView {
        ProposalView {
            applicant: self.applicant,
            proposer: self.proposer,
            sponsor: self.sponsor,
            shares_requested: self.shares_requested,
            tribute_offered: self.tribute_offered,
            tribute_nft: self.tribute_nft,
            starting_period: self.starting_period,
            yes_votes: self.yes_votes,
            no_votes: self.no_votes,
            details: self.details@,
            action: match self.action {
                Some(ref a) => Some(a@),
                None => None,
            },
            sponsored: self.sponsored,
            processed: self.processed,
            did_pass: self.did_pass,
            cancelled: self.cancelled,
            executed: self.executed,
            max_total_shares_at_yes_vote: self.max_total_shares_at_yes_vote,
        }
    }
}

/// Errors of the DAO engine.
#[derive(Clone, Copy, Debug, PartialEq, Eq, Structural)]
pub enum DaoError {
    /// The caller is not allowed to do this.
    PermissionDenied,
    /// The member holds fewer shares than asked.
    InsufficientShares,
    /// A checked arithmetic step failed.
    NumOverflow,
    /// The DAO does not exist.
    DAONotFound,
    /// The proposal deposit must cover the processing reward.
    DepositSmallerThanReward,
    /// The period duration must be at least 1.
    PeriodDurationShouldLargeThanZero,
    /// The voting period must be at least 1.
    VotingDurationShouldLargeThanZero,
    /// The grace period must be at least 1.
    GracePeriodShouldLargeThanZero,
    /// The dilution bound must be at least 1.
    DilutionBoundShouldLargeThanZero,
    /// The caller is not a member of the DAO.
    NotDAOMember,
    /// The proposal does not exist.
    ProposalNotFound,
    /// The proposal is already sponsored.
    SponsoredProposal,
    /// The proposal is already cancelled.
    CancelledProposal,
    /// The voting window has closed.
    ExpiredPeriod,
    /// Each member votes once per queue slot.
    MemberAlreadyVoted,
    /// The grace period has not passed yet.
    NotReadyToProcessed,
    /// The proposal is already processed.
    ProcessedProposal,
    /// The previous queue entry must be processed first.
    PrevProposalUnprocessed,
    /// The member's latest yes-vote is not processed yet.
    CanNotRagequit,
    /// At least one share must be burned.
    BurnSharesShouldLargeThanZero,
    /// The token ledger refused the tribute movement.
    Nft(NftError),
    /// The currency ledger refused the payment.
    Currency(CurrencyError),
}

/// The mathematical state of the DAO engine.
pub struct DaoView {
    pub nonce: u128,
    /// `dao_account -> details`.
    pub daos: Map<u128, DAOInfoView>,
    /// `(dao_account, member_account) -> member`.
    pub members: Map<u128, Map<u128, Member>>,
    /// `dao_account -> escrow account`.
    pub escrows: Map<u128, u128>,
    /// `dao_account -> last allocated proposal id`.
    pub last_proposal_id: Map<u128, u128>,
    /// `(dao_account, proposal_id) -> proposal`.
    pub proposals: Map<u128, Map<u128, ProposalView>>,
    /// `dao_account -> last used queue index`.
    pub last_queue_index: Map<u128, u128>,
    /// `(dao_account, queue_index) -> proposal_id`.
    pub proposal_queues: Map<u128, Map<u128, u128>>,
    /// `(dao_account, queue_index) -> accounts that voted on that slot`.
    pub vote_members: Map<u128, Map<u128, Seq<u128>>>,
}

impl DaoView {
    /// The escrow account of a DAO; the zero account when unset.
    pub open spec fn escrow_at(self, dao_account: u128) -> u128 {
        if self.escrows.contains_key(dao_account) {
            self.escrows[dao_account]
        } else {
            0
        }
    }

    /// The proposal id in a queue slot; zero when the slot is empty.
    pub open spec fn queue_at(self, dao_account: u128, index: u128) -> u128 {
        if map2_has(self.proposal_queues, dao_account, index) {
            map2_get(self.proposal_queues, dao_account, index)
        } else {
            0
        }
    }

    /// The id the next proposal of a DAO gets: one past the last, or 0.
    pub open spec fn next_proposal_id(self, dao_account: u128) -> int {
        if self.last_proposal_id.contains_key(dao_account) {
            self.last_proposal_id[dao_account] + 1
        } else {
            0
        }
    }

    /// The index the next queued proposal of a DAO gets: one past the last,
    /// or 0.
    pub open spec fn next_queue_index(self, dao_account: u128) -> int {
        if self.last_queue_index.contains_key(dao_account) {
            self.last_queue_index[dao_account] + 1
        } else {
            0
        }
    }

    /// Whether an account already voted on a queue slot.
    pub open spec fn has_voted(self, dao_account: u128, index: u128, who: u128) -> bool {
        map2_has(self.vote_members, dao_account, index) && map2_get(
            self.vote_members,
            dao_account,
            index,
        ).contains(who)
    }
}

/// The period a DAO is in at block `now`: elapsed blocks over the period
/// duration; `None` when `now` precedes the summoning time or the duration
/// is zero.
pub open spec fn spec_current_period(dao: DAOInfoView, now: BlockNumber) -> Option<u128> {
    if now < dao.summoning_time || dao.period_duration == 0 {
        None
    } else {
        Some((((now - dao.summoning_time) as u128) / dao.period_duration) as u128)
    }
}

/// The tag mixed into the second stage of a DAO id derivation.
pub open spec fn spec_dao_tag() -> Seq<u8> {
    seq![
        0x61u8, 0x77u8, 0x65u8, 0x73u8, 0x6fu8, 0x6du8, 0x65u8, 0x20u8, 0x6eu8, 0x66u8, 0x74u8,
        0x20u8, 0x64u8, 0x61u8, 0x6fu8, 0x21u8,
    ]
}

/// The tag hashed with a DAO id to derive its escrow account.
pub open spec fn spec_escrow_tag() -> Seq<u8> {
    seq![0x61u8, 0x20u8, 0x65u8, 0x73u8, 0x63u8, 0x72u8, 0x6fu8, 0x77u8, 0x20u8, 0x69u8, 0x64u8]
}

/// The two-stage digest a DAO id is: the inner hash binds the metadata to the
/// random seed, the outer one binds it to the summoner and the nonce.
pub open spec fn spec_dao_digest(
    summoner: AccountId,
    details: Seq<u8>,
    seed: Seq<u8>,
    nonce: u128,
) -> Seq<u8> {
    ids::blake2_of(
        spec_dao_tag() + ids::le_bytes(summoner as nat, 16) + ids::blake2_of(details + seed)
            + ids::le_bytes(nonce as nat, 16),
    )
}

/// The account a DAO id denotes.
pub open spec fn spec_dao_account(digest: Seq<u8>) -> u128 {
    ids::id_of_digest(digest)
}

/// The escrow account a DAO id denotes.
pub open spec fn spec_dao_escrow(digest: Seq<u8>) -> u128 {
    ids::id_of_digest(ids::blake2_of(spec_escrow_tag() + digest))
}

/// The mathematical value of a stored DAO table.
pub open spec fn daos_view(m: Map<u128, DAOInfo>) -> Map<u128, DAOInfoView> {
    Map::new(|k: u128| m.contains_key(k), |k: u128| m[k]@)
}

proof fn lemma_daos_view_insert(m: Map<u128, DAOInfo>, k: u128, v: DAOInfo)
    ensures
        daos_view(m.insert(k, v)) == daos_view(m).insert(k, v@),
{
    assert(daos_view(m.insert(k, v)) =~= daos_view(m).insert(k, v@));
}

/// The mathematical value of a stored proposal table.
pub open spec fn props_view(m: Map<u128, Map<u128, Proposal>>) -> Map<
    u128,
    Map<u128, ProposalView>,
> {
    Map::new(
        |c: u128| m.contains_key(c),
        |c: u128| Map::new(|s: u128| m[c].contains_key(s), |s: u128| m[c][s]@),
    )
}

proof fn lemma_props_view_insert(m: Map<u128, Map<u128, Proposal>>, c: u128, s: u128, v: Proposal)
    ensures
        props_view(map2_insert(m, c, s, v)) == map2_insert(props_view(m), c, s, v@),
{
    let lhs = props_view(map2_insert(m, c, s, v));
    let rhs = map2_insert(props_view(m), c, s, v@);
    assert forall|k: u128| #[trigger] lhs.contains_key(k) implies lhs[k] == rhs[k] by {
        if k == c {
            assert(lhs[k] =~= rhs[k]);
        } else {
            assert(map2_insert(m, c, s, v)[k] == m[k]);
            assert(lhs[k] =~= rhs[k]);
        }
    }
    assert(lhs =~= rhs);
}

/// The mathematical value of a stored voter table.
pub open spec fn votes_view(m: Map<u128, Map<u128, Vec<u128>>>) -> Map<u128, Map<u128, Seq<u128>>> {
    Map::new(
        |c: u128| m.contains_key(c),
        |c: u128| Map::new(|s: u128| m[c].contains_key(s), |s: u128| m[c][s]@),
    )
}

proof fn lemma_votes_view_insert(m: Map<u128, Map<u128, Vec<u128>>>, c: u128, s: u128, v: Vec<u128>)
    ensures
        votes_view(map2_insert(m, c, s, v)) == map2_insert(votes_view(m), c, s, v@),
{
    let lhs = votes_view(map2_insert(m, c, s, v));
    let rhs = map2_insert(votes_view(m), c, s, v@);
    assert forall|k: u128| #[trigger] lhs.contains_key(k) implies lhs[k] == rhs[k] by {
        if k == c {
            assert(lhs[k] =~= rhs[k]);
        } else {
            assert(map2_insert(m, c, s, v)[k] == m[k]);
            assert(lhs[k] =~= rhs[k]);
        }
    }
    assert(lhs =~= rhs);
}


/// The account a proposal's deposit remainder returns to: its sponsor (every
/// queued proposal has one; the proposer stands in if the record lacks it).
pub open spec fn sponsor_of(p: ProposalView) -> AccountId {
    match p.sponsor {
        Some(s) => s,
        None => p.proposer,
    }
}

/// The deposit settlement at processing: the processing reward goes to the
/// processor and the remainder of the deposit returns to the sponsor.
pub open spec fn spec_settle_deposit(
    cur: Map<u128, u128>,
    escrow: AccountId,
    processor: AccountId,
    sponsor: AccountId,
    deposit: Balance,
    reward: Balance,
) -> Result<Map<u128, u128>, DaoError> {
    if deposit < reward {
        Err(DaoError::NumOverflow)
    } else {
        match spec_currency_transfer(cur, escrow, processor, reward) {
            Err(e) => Err(DaoError::Currency(e)),
            Ok(c2) => match spec_currency_transfer(c2, escrow, sponsor, (deposit - reward) as u128) {
                Err(e) => Err(DaoError::Currency(e)),
                Ok(c3) => Ok(c3),
            },
        }
    }
}

/// What `create_dao` does: derives the DAO and escrow accounts from the
/// metadata, seed, summoner and a fresh nonce, records the DAO, and seeds the
/// summoner as its only member holding all requested shares.
pub open spec fn spec_create_dao(
    dv: DaoView,
    who: AccountId,
    metadata: Seq<u8>,
    period_duration: u128,
    voting_period: u128,
    grace_period: u128,
    shares_requested: u128,
    proposal_deposit: Balance,
    processing_reward: Balance,
    dilution_bound: u128,
    seed: Seq<u8>,
    now: BlockNumber,
) -> Result<(DaoView, u128, u128), DaoError> {
    if proposal_deposit < processing_reward {
        Err(DaoError::DepositSmallerThanReward)
    } else if period_duration == 0 {
        Err(DaoError::PeriodDurationShouldLargeThanZero)
    } else if voting_period == 0 {
        Err(DaoError::VotingDurationShouldLargeThanZero)
    } else if grace_period == 0 {
        Err(DaoError::GracePeriodShouldLargeThanZero)
    } else if dilution_bound == 0 {
        Err(DaoError::DilutionBoundShouldLargeThanZero)
    } else if dv.nonce == u128::MAX {
        Err(DaoError::NumOverflow)
    } else {
        let digest = spec_dao_digest(who, metadata, seed, (dv.nonce + 1) as u128);
        let dao_account = spec_dao_account(digest);
        let escrow = spec_dao_escrow(digest);
        let dao = DAOInfoView {
            account_id: dao_account,
            escrow_id: escrow,
            period_duration,
            voting_period,
            grace_period,
            metadata,
            total_shares: shares_requested,
            summoning_time: now,
            dilution_bound,
            proposal_deposit,
            processing_reward,
        };
        let member = Member { shares: shares_requested, highest_index_yes_vote: 0 };
        let dv2 = DaoView {
            nonce: (dv.nonce + 1) as u128,
            daos: dv.daos.insert(dao_account, dao),
            escrows: dv.escrows.insert(dao_account, escrow),
            members: map2_insert(dv.members, dao_account, who, member),
            ..dv
        };
        Ok((dv2, dao_account, escrow))
    }
}

/// What `submit_proposal` does: any tribute moves from the proposer into the
/// DAO's escrow (the currency leg is skipped outright at zero), and the
/// proposal is recorded unsponsored under the next id.
pub open spec fn spec_submit_proposal(
    dv: DaoView,
    reg: Map<u128, CollectionInfoView>,
    led: LedgerView,
    cur: Map<u128, u128>,
    who: AccountId,
    dao_account: AccountId,
    applicant: AccountId,
    shares_requested: u128,
    tribute_offered: Balance,
    tribute_nft: Option<(u128, u128)>,
    details: Seq<u8>,
    action: Option<Seq<u8>>,
) -> Result<(DaoView, LedgerView, Map<u128, u128>, u128), DaoError> {
    if !dv.daos.contains_key(dao_account) {
        Err(DaoError::DAONotFound)
    } else {
        let escrow = dv.escrow_at(dao_account);
        let led2r = match tribute_nft {
            Some((cid, tid)) => spec_transfer_non_fungible(reg, led, who, escrow, cid, tid, 1),
            None => Ok(led),
        };
        match led2r {
            Err(e) => Err(DaoError::Nft(e)),
            Ok(led2) => {
                let cur2r = if tribute_offered != 0 {
                    spec_currency_transfer(cur, who, escrow, tribute_offered)
                } else {
                    Ok(cur)
                };
                match cur2r {
                    Err(e) => Err(DaoError::Currency(e)),
                    Ok(cur2) => {
                        if dv.next_proposal_id(dao_account) > u128::MAX {
                            Err(DaoError::NumOverflow)
                        } else {
                            let pid = dv.next_proposal_id(dao_account) as u128;
                            let p = ProposalView {
                                applicant,
                                proposer: who,
                                sponsor: None,
                                shares_requested,
                                tribute_offered,
                                tribute_nft,
                                starting_period: 0,
                                yes_votes: 0,
                                no_votes: 0,
                                details,
                                action,
                                sponsored: false,
                                processed: false,
                                did_pass: false,
                                cancelled: false,
                                executed: false,
                                max_total_shares_at_yes_vote: 0,
                            };
                            let dv2 = DaoView {
                                last_proposal_id: dv.last_proposal_id.insert(dao_account, pid),
                                proposals: map2_insert(dv.proposals, dao_account, pid, p),
                                ..dv
                            };
                            Ok((dv2, led2, cur2, pid))
                        }
                    },
                }
            },
        }
    }
}

/// What `cancel_proposal` does: only the proposer, only before sponsorship,
/// and only once; the tribute returns to the proposer.
pub open spec fn spec_cancel_proposal(
    dv: DaoView,
    reg: Map<u128, CollectionInfoView>,
    led: LedgerView,
    cur: Map<u128, u128>,
    who: AccountId,
    dao_account: AccountId,
    proposal_id: u128,
) -> Result<(DaoView, LedgerView, Map<u128, u128>), DaoError> {
    if !dv.daos.contains_key(dao_account) {
        Err(DaoError::DAONotFound)
    } else if !map2_has(dv.proposals, dao_account, proposal_id) {
        Err(DaoError::ProposalNotFound)
    } else {
        let p = map2_get(dv.proposals, dao_account, proposal_id);
        let escrow = dv.escrow_at(dao_account);
        if who != p.proposer {
            Err(DaoError::PermissionDenied)
        } else if p.sponsored {
            Err(DaoError::SponsoredProposal)
        } else if p.cancelled {
            Err(DaoError::CancelledProposal)
        } else {
            let led2r = match p.tribute_nft {
                Some((cid, tid)) => spec_transfer_non_fungible(reg, led, escrow, who, cid, tid, 1),
                None => Ok(led),
            };
            match led2r {
                Err(e) => Err(DaoError::Nft(e)),
                Ok(led2) => {
                    let cur2r = if p.tribute_offered != 0 {
                        spec_currency_transfer(cur, escrow, who, p.tribute_offered)
                    } else {
                        Ok(cur)
                    };
                    match cur2r {
                        Err(e) => Err(DaoError::Currency(e)),
                        Ok(cur2) => {
                            let p2 = ProposalView { cancelled: true, ..p };
                            let dv2 = DaoView {
                                proposals: map2_insert(dv.proposals, dao_account, proposal_id, p2),
                                ..dv
                            };
                            Ok((dv2, led2, cur2))
                        },
                    }
                },
            }
        }
    }
}

/// What `sponsor_proposal` does: a member stakes the DAO's deposit to queue a
/// proposal; its voting start is the current period or the previous queue
/// entry's start, whichever is later, so queue order is schedule order.
pub open spec fn spec_sponsor_proposal(
    dv: DaoView,
    cur: Map<u128, u128>,
    who: AccountId,
    dao_account: AccountId,
    proposal_id: u128,
    now: BlockNumber,
) -> Result<(DaoView, Map<u128, u128>, u128, u128), DaoError> {
    if !dv.daos.contains_key(dao_account) {
        Err(DaoError::DAONotFound)
    } else if !map2_has(dv.members, dao_account, who) {
        Err(DaoError::NotDAOMember)
    } else if !map2_has(dv.proposals, dao_account, proposal_id) {
        Err(DaoError::ProposalNotFound)
    } else {
        let dao = dv.daos[dao_account];
        let escrow = dv.escrow_at(dao_account);
        let p = map2_get(dv.proposals, dao_account, proposal_id);
        if p.sponsored {
            Err(DaoError::SponsoredProposal)
        } else if p.cancelled {
            Err(DaoError::CancelledProposal)
        } else if dv.next_queue_index(dao_account) > u128::MAX {
            Err(DaoError::NumOverflow)
        } else {
            let qi = dv.next_queue_index(dao_account) as u128;
            match spec_current_period(dao, now) {
                None => Err(DaoError::NumOverflow),
                Some(current) => {
                    if qi != 0 && !map2_has(
                        dv.proposals,
                        dao_account,
                        dv.queue_at(dao_account, (qi - 1) as u128),
                    ) {
                        Err(DaoError::ProposalNotFound)
                    } else {
                        let prev_start = if qi != 0 {
                            map2_get(
                                dv.proposals,
                                dao_account,
                                dv.queue_at(dao_account, (qi - 1) as u128),
                            ).starting_period
                        } else {
                            0
                        };
                        let starting = if current > prev_start {
                            current
                        } else {
                            prev_start
                        };
                        match spec_currency_transfer(cur, who, escrow, dao.proposal_deposit) {
                            Err(e) => Err(DaoError::Currency(e)),
                            Ok(cur2) => {
                                let p2 = ProposalView {
                                    sponsor: Some(who),
                                    sponsored: true,
                                    starting_period: starting,
                                    ..p
                                };
                                let dv2 = DaoView {
                                    proposals: map2_insert(
                                        dv.proposals,
                                        dao_account,
                                        proposal_id,
                                        p2,
                                    ),
                                    proposal_queues: map2_insert(
                                        dv.proposal_queues,
                                        dao_account,
                                        qi,
                                        proposal_id,
                                    ),
                                    last_queue_index: dv.last_queue_index.insert(dao_account, qi),
                                    ..dv
                                };
                                Ok((dv2, cur2, qi, starting))
                            },
                        }
                    }
                },
            }
        }
    }
}

/// What `vote_proposal` does: a member's shares go onto one side of a queued
/// proposal within its voting window, once per member per slot; a yes vote
/// raises the member's ragequit gate and records the largest total-share
/// count seen at a yes.
pub open spec fn spec_vote_proposal(
    dv: DaoView,
    who: AccountId,
    dao_account: AccountId,
    proposal_index: u128,
    yes: bool,
    now: BlockNumber,
) -> Result<DaoView, DaoError> {
    if !dv.daos.contains_key(dao_account) {
        Err(DaoError::DAONotFound)
    } else if !map2_has(dv.proposal_queues, dao_account, proposal_index) {
        Err(DaoError::ProposalNotFound)
    } else if !map2_has(dv.members, dao_account, who) {
        Err(DaoError::PermissionDenied)
    } else if dv.has_voted(dao_account, proposal_index, who) {
        Err(DaoError::MemberAlreadyVoted)
    } else {
        let pid = map2_get(dv.proposal_queues, dao_account, proposal_index);
        if !map2_has(dv.proposals, dao_account, pid) {
            Err(DaoError::ProposalNotFound)
        } else {
            let dao = dv.daos[dao_account];
            let p = map2_get(dv.proposals, dao_account, pid);
            match spec_current_period(dao, now) {
                None => Err(DaoError::NumOverflow),
                Some(current) => {
                    if p.starting_period + dao.voting_period > u128::MAX {
                        Err(DaoError::NumOverflow)
                    } else if current >= p.starting_period + dao.voting_period {
                        Err(DaoError::ExpiredPeriod)
                    } else {
                        let member = map2_get(dv.members, dao_account, who);
                        let voters = if map2_has(dv.vote_members, dao_account, proposal_index) {
                            map2_get(dv.vote_members, dao_account, proposal_index).push(who)
                        } else {
                            seq![who]
                        };
                        if yes {
                            if p.yes_votes + member.shares > u128::MAX {
                                Err(DaoError::NumOverflow)
                            } else {
                                let p2 = ProposalView {
                                    yes_votes: (p.yes_votes + member.shares) as u128,
                                    max_total_shares_at_yes_vote: if dao.total_shares
                                        > p.max_total_shares_at_yes_vote {
                                        dao.total_shares
                                    } else {
                                        p.max_total_shares_at_yes_vote
                                    },
                                    ..p
                                };
                                let m2 = Member {
                                    highest_index_yes_vote: proposal_index,
                                    ..member
                                };
                                Ok(
                                    DaoView {
                                        proposals: map2_insert(dv.proposals, dao_account, pid, p2),
                                        members: map2_insert(dv.members, dao_account, who, m2),
                                        vote_members: map2_insert(
                                            dv.vote_members,
                                            dao_account,
                                            proposal_index,
                                            voters,
                                        ),
                                        ..dv
                                    },
                                )
                            }
                        } else {
                            if p.no_votes + member.shares > u128::MAX {
                                Err(DaoError::NumOverflow)
                            } else {
                                let p2 = ProposalView {
                                    no_votes: (p.no_votes + member.shares) as u128,
                                    ..p
                                };
                                Ok(
                                    DaoView {
                                        proposals: map2_insert(dv.proposals, dao_account, pid, p2),
                                        vote_members: map2_insert(
                                            dv.vote_members,
                                            dao_account,
                                            proposal_index,
                                            voters,
                                        ),
                                        ..dv
                                    },
                                )
                            }
                        }
                    }
                },
            }
        }
    }
}

/// What `process_proposal` does once voting and grace have elapsed, in strict
/// queue order: the proposal passes only when yes outweighs no *and* the
/// dilution bound times the current total shares still exceeds the largest
/// total seen at a yes vote. On a pass the applicant is credited and the
/// tribute joins the DAO; on a fail the tribute returns to the proposer.
/// Either way the processor earns the reward and the sponsor takes back the
/// rest of the deposit.
pub open spec fn spec_process_proposal(
    dv: DaoView,
    reg: Map<u128, CollectionInfoView>,
    led: LedgerView,
    cur: Map<u128, u128>,
    who: AccountId,
    dao_account: AccountId,
    proposal_index: u128,
    now: BlockNumber,
) -> Result<(DaoView, LedgerView, Map<u128, u128>, bool), DaoError> {
    if !dv.daos.contains_key(dao_account) {
        Err(DaoError::DAONotFound)
    } else if !map2_has(dv.proposal_queues, dao_account, proposal_index) {
        Err(DaoError::ProposalNotFound)
    } else {
        let pid = map2_get(dv.proposal_queues, dao_account, proposal_index);
        if !map2_has(dv.proposals, dao_account, pid) {
            Err(DaoError::ProposalNotFound)
        } else {
            let dao = dv.daos[dao_account];
            let escrow = dv.escrow_at(dao_account);
            let p = map2_get(dv.proposals, dao_account, pid);
            match spec_current_period(dao, now) {
                None => Err(DaoError::NumOverflow),
                Some(current) => {
                    if p.starting_period + dao.voting_period + dao.grace_period > u128::MAX {
                        Err(DaoError::NumOverflow)
                    } else if current < p.starting_period + dao.voting_period + dao.grace_period {
                        Err(DaoError::NotReadyToProcessed)
                    } else if p.processed {
                        Err(DaoError::ProcessedProposal)
                    } else if proposal_index != 0 && !map2_has(
                        dv.proposals,
                        dao_account,
                        dv.queue_at(dao_account, (proposal_index - 1) as u128),
                    ) {
                        Err(DaoError::ProposalNotFound)
                    } else if proposal_index != 0 && !map2_get(
                        dv.proposals,
                        dao_account,
                        dv.queue_at(dao_account, (proposal_index - 1) as u128),
                    ).processed {
                        Err(DaoError::PrevProposalUnprocessed)
                    } else if dao.total_shares * dao.dilution_bound > u128::MAX {
                        Err(DaoError::NumOverflow)
                    } else {
                        let did_pass = p.yes_votes > p.no_votes && dao.total_shares
                            * dao.dilution_bound > p.max_total_shares_at_yes_vote;
                        if did_pass {
                            spec_process_pass(dv, reg, led, cur, who, dao_account, pid, dao, escrow, p)
                        } else {
                            spec_process_fail(dv, reg, led, cur, who, dao_account, pid, dao, escrow, p)
                        }
                    }
                },
            }
        }
    }
}

/// The passing branch of processing.
pub open spec fn spec_process_pass(
    dv: DaoView,
    reg: Map<u128, CollectionInfoView>,
    led: LedgerView,
    cur: Map<u128, u128>,
    who: AccountId,
    dao_account: AccountId,
    pid: u128,
    dao: DAOInfoView,
    escrow: AccountId,
    p: ProposalView,
) -> Result<(DaoView, LedgerView, Map<u128, u128>, bool), DaoError> {
    let had_member = map2_has(dv.members, dao_account, p.applicant);
    if had_member && map2_get(dv.members, dao_account, p.applicant).shares + p.shares_requested
        > u128::MAX {
        Err(DaoError::NumOverflow)
    } else if dao.total_shares + p.shares_requested > u128::MAX {
        Err(DaoError::NumOverflow)
    } else {
        let new_member = if had_member {
            Member {
                shares: (map2_get(dv.members, dao_account, p.applicant).shares
                    + p.shares_requested) as u128,
                ..map2_get(dv.members, dao_account, p.applicant)
            }
        } else {
            Member { shares: p.shares_requested, highest_index_yes_vote: 0 }
        };
        let led2r = match p.tribute_nft {
            Some((cid, tid)) => spec_transfer_non_fungible(
                reg,
                led,
                escrow,
                dao_account,
                cid,
                tid,
                1,
            ),
            None => Ok(led),
        };
        match led2r {
            Err(e) => Err(DaoError::Nft(e)),
            Ok(led2) => {
                let cur2r = if p.tribute_offered != 0 {
                    spec_currency_transfer(cur, escrow, dao_account, p.tribute_offered)
                } else {
                    Ok(cur)
                };
                match cur2r {
                    Err(e) => Err(DaoError::Currency(e)),
                    Ok(cur2) => match spec_settle_deposit(
                        cur2,
                        escrow,
                        who,
                        sponsor_of(p),
                        dao.proposal_deposit,
                        dao.processing_reward,
                    ) {
                        Err(e) => Err(e),
                        Ok(cur3) => {
                            let p2 = ProposalView { processed: true, did_pass: true, ..p };
                            let dao2 = DAOInfoView {
                                total_shares: (dao.total_shares + p.shares_requested) as u128,
                                ..dao
                            };
                            let dv2 = DaoView {
                                proposals: map2_insert(dv.proposals, dao_account, pid, p2),
                                members: map2_insert(
                                    dv.members,
                                    dao_account,
                                    p.applicant,
                                    new_member,
                                ),
                                daos: dv.daos.insert(dao_account, dao2),
                                ..dv
                            };
                            Ok((dv2, led2, cur3, true))
                        },
                    },
                }
            },
        }
    }
}

/// The failing branch of processing.
pub open spec fn spec_process_fail(
    dv: DaoView,
    reg: Map<u128, CollectionInfoView>,
    led: LedgerView,
    cur: Map<u128, u128>,
    who: AccountId,
    dao_account: AccountId,
    pid: u128,
    dao: DAOInfoView,
    escrow: AccountId,
    p: ProposalView,
) -> Result<(DaoView, LedgerView, Map<u128, u128>, bool), DaoError> {
    let led2r = match p.tribute_nft {
        Some((cid, tid)) => spec_transfer_non_fungible(reg, led, escrow, p.proposer, cid, tid, 1),
        None => Ok(led),
    };
    match led2r {
        Err(e) => Err(DaoError::Nft(e)),
        Ok(led2) => {
            let cur2r = if p.tribute_offered != 0 {
                spec_currency_transfer(cur, escrow, p.proposer, p.tribute_offered)
            } else {
                Ok(cur)
            };
            match cur2r {
                Err(e) => Err(DaoError::Currency(e)),
                Ok(cur2) => match spec_settle_deposit(
                    cur2,
                    escrow,
                    who,
                    sponsor_of(p),
                    dao.proposal_deposit,
                    dao.processing_reward,
                ) {
                    Err(e) => Err(e),
                    Ok(cur3) => {
                        let p2 = ProposalView { processed: true, ..p };
                        let dv2 = DaoView {
                            proposals: map2_insert(dv.proposals, dao_account, pid, p2),
                            ..dv
                        };
                        Ok((dv2, led2, cur3, false))
                    },
                },
            }
        },
    }
}

/// What `ragequit` does: a member burns shares for a payout of exactly
/// `floor(dao_balance * shares_to_burn / total_shares)` (multiply before
/// divide), provided the last proposal they backed is processed; the burned
/// shares leave both the member and the DAO total.
pub open spec fn spec_ragequit(
    dv: DaoView,
    cur: Map<u128, u128>,
    who: AccountId,
    dao_account: AccountId,
    shares_to_burn: u128,
) -> Result<(DaoView, Map<u128, u128>, u128), DaoError> {
    if shares_to_burn == 0 {
        Err(DaoError::BurnSharesShouldLargeThanZero)
    } else if !dv.daos.contains_key(dao_account) {
        Err(DaoError::DAONotFound)
    } else if !map2_has(dv.members, dao_account, who) {
        Err(DaoError::PermissionDenied)
    } else {
        let member = map2_get(dv.members, dao_account, who);
        let dao = dv.daos[dao_account];
        if member.shares < shares_to_burn {
            Err(DaoError::InsufficientShares)
        } else if !map2_has(dv.proposal_queues, dao_account, member.highest_index_yes_vote) {
            Err(DaoError::ProposalNotFound)
        } else {
            let pid = map2_get(dv.proposal_queues, dao_account, member.highest_index_yes_vote);
            if map2_has(dv.proposals, dao_account, pid) && !map2_get(
                dv.proposals,
                dao_account,
                pid,
            ).processed {
                Err(DaoError::CanNotRagequit)
            } else if dao.total_shares < shares_to_burn {
                Err(DaoError::NumOverflow)
            } else {
                let dao_balance = if cur.contains_key(dao_account) {
                    cur[dao_account]
                } else {
                    0
                };
                if dao_balance * shares_to_burn > u128::MAX {
                    Err(DaoError::NumOverflow)
                } else if dao.total_shares == 0 {
                    Err(DaoError::NumOverflow)
                } else {
                    let payout = ((dao_balance * shares_to_burn) as u128 / dao.total_shares)
                        as u128;
                    match spec_currency_transfer(cur, dao_account, who, payout) {
                        Err(e) => Err(DaoError::Currency(e)),
                        Ok(cur2) => {
                            let m2 = Member {
                                shares: (member.shares - shares_to_burn) as u128,
                                ..member
                            };
                            let dao2 = DAOInfoView {
                                total_shares: (dao.total_shares - shares_to_burn) as u128,
                                ..dao
                            };
                            let dv2 = DaoView {
                                members: map2_insert(dv.members, dao_account, who, m2),
                                daos: dv.daos.insert(dao_account, dao2),
                                ..dv
                            };
                            Ok((dv2, cur2, payout))
                        },
                    }
                }
            }
        }
    }
}

/// What `record_action_result` does: after a passed proposal with an action
/// payload is processed and the caller has dispatched that payload, the
/// outcome is recorded on the proposal.
pub open spec fn spec_record_action_result(
    dv: DaoView,
    dao_account: AccountId,
    proposal_id: u128,
    executed: bool,
) -> Result<DaoView, DaoError> {
    if !map2_has(dv.proposals, dao_account, proposal_id) {
        Err(DaoError::ProposalNotFound)
    } else {
        let p = map2_get(dv.proposals, dao_account, proposal_id);
        if !(p.processed && p.did_pass && p.action is Some) {
            Err(DaoError::PermissionDenied)
        } else {
            let p2 = ProposalView { executed, ..p };
            Ok(DaoView { proposals: map2_insert(dv.proposals, dao_account, proposal_id, p2), ..dv })
        }
    }
}

/// The DAO engine's stored state.
pub struct Module {
    nonce: u128,
    daos: Table<DAOInfo>,
    members: PairTable<Member>,
    escrows: Table<u128>,
    last_proposal_id: Table<u128>,
    proposals: PairTable<Proposal>,
    last_queue_index: Table<u128>,
    proposal_queues: PairTable<u128>,
    vote_members: PairTable<Vec<u128>>,
}

impl View for Module {
    type V = DaoView;

    closed spec fn view(&self) -> DaoView {
        DaoView {
            nonce: self.nonce,
            daos: daos_view(self.daos@),
            members: self.members@,
            escrows: self.escrows@,
            last_proposal_id: self.last_proposal_id@,
            proposals: props_view(self.proposals@),
            last_queue_index: self.last_queue_index@,
            proposal_queues: self.proposal_queues@,
            vote_members: votes_view(self.vote_members@),
        }
    }
}

/// Byte-for-byte copy of a proposal.
fn duplicate_proposal(p: &Proposal) -> (r: Proposal)
    ensures
        r@ == p@,
{
    Proposal {
        applicant: p.applicant,
        proposer: p.proposer,
        sponsor: p.sponsor,
        shares_requested: p.shares_requested,
        tribute_offered: p.tribute_offered,
        tribute_nft: p.tribute_nft,
        starting_period: p.starting_period,
        yes_votes: p.yes_votes,
        no_votes: p.no_votes,
        details: crate::collection::copy_bytes(&p.details),
        action: match &p.action {
            Some(a) => Some(crate::collection::copy_bytes(a)),
            None => None,
        },
        sponsored: p.sponsored,
        processed: p.processed,
        did_pass: p.did_pass,
        cancelled: p.cancelled,
        executed: p.executed,
        max_total_shares_at_yes_vote: p.max_total_shares_at_yes_vote,
    }
}

/// Byte-for-byte copy of a DAO record.
fn duplicate_dao(d: &DAOInfo) -> (r: DAOInfo)
    ensures
        r@ == d@,
{
    DAOInfo {
        account_id: d.account_id,
        escrow_id: d.escrow_id,
        period_duration: d.period_duration,
        voting_period: d.voting_period,
        grace_period: d.grace_period,
        metadata: crate::collection::copy_bytes(&d.metadata),
        total_shares: d.total_shares,
        summoning_time: d.summoning_time,
        dilution_bound: d.dilution_bound,
        proposal_deposit: d.proposal_deposit,
        processing_reward: d.processing_reward,
    }
}

/// Whether a voter list holds an account.
fn voters_contain(v: &Vec<u128>, who: u128) -> (r: bool)
    ensures
        r == v@.contains(who),
{
    let mut i: usize = 0;
    while i < v.len()
        invariant
            0 <= i <= v@.len(),
            forall|j: int| 0 <= j < i ==> v@[j] != who,
        decreases v@.len() - i,
    {
        if v[i] == who {
            return true;
        }
        i = i + 1;
    }
    false
}

impl Module {
    pub closed spec fn spec_nonce(&self) -> u128 {
        self.nonce
    }

    pub fn new() -> (r: Self)
        ensures
            r@.nonce == 0,
            r@.daos == Map::<u128, DAOInfoView>::empty(),
            r@.members == Map::<u128, Map<u128, Member>>::empty(),
            r@.escrows == Map::<u128, u128>::empty(),
            r@.last_proposal_id == Map::<u128, u128>::empty(),
            r@.proposals == Map::<u128, Map<u128, ProposalView>>::empty(),
            r@.last_queue_index == Map::<u128, u128>::empty(),
            r@.proposal_queues == Map::<u128, Map<u128, u128>>::empty(),
            r@.vote_members == Map::<u128, Map<u128, Seq<u128>>>::empty(),
    {
        let r = Module {
            nonce: 0,
            daos: Table::new(),
            members: PairTable::new(),
            escrows: Table::new(),
            last_proposal_id: Table::new(),
            proposals: PairTable::new(),
            last_queue_index: Table::new(),
            proposal_queues: PairTable::new(),
            vote_members: PairTable::new(),
        };
        proof {
            assert(r@.daos =~= Map::<u128, DAOInfoView>::empty());
            assert(r@.proposals =~= Map::<u128, Map<u128, ProposalView>>::empty());
            assert(r@.vote_members =~= Map::<u128, Map<u128, Seq<u128>>>::empty());
        }
        r
    }

    /// The engine's own module account.
    pub fn account_id() -> (r: AccountId)
        ensures
            r == DAO_MODULE_ACCOUNT,
    {
        DAO_MODULE_ACCOUNT
    }

    /// The DAO's details, if any.
    pub fn dao(&self, dao_account: AccountId) -> (r: Option<&DAOInfo>)
        ensures
            match r {
                Some(d) => self@.daos.contains_key(dao_account) && d@ == self@.daos[dao_account],
                None => !self@.daos.contains_key(dao_account),
            },
    {
        self.daos.get(dao_account)
    }

    /// A member's record, if any.
    pub fn member(&self, dao_account: AccountId, who: AccountId) -> (r: Option<Member>)
        ensures
            match r {
                Some(m) => map2_has(self@.members, dao_account, who) && m == map2_get(
                    self@.members,
                    dao_account,
                    who,
                ),
                None => !map2_has(self@.members, dao_account, who),
            },
    {
        match self.members.get(dao_account, who) {
            Some(m) => Some(*m),
            None => None,
        }
    }

    /// A proposal, if any.
    pub fn proposal(&self, dao_account: AccountId, proposal_id: u128) -> (r: Option<&Proposal>)
        ensures
            match r {
                Some(p) => map2_has(self@.proposals, dao_account, proposal_id) && p@ == map2_get(
                    self@.proposals,
                    dao_account,
                    proposal_id,
                ),
                None => !map2_has(self@.proposals, dao_account, proposal_id),
            },
    {
        self.proposals.get(dao_account, proposal_id)
    }

    /// The proposal id in a queue slot, if the slot is filled.
    pub fn proposal_queue(&self, dao_account: AccountId, index: u128) -> (r: Option<u128>)
        ensures
            match r {
                Some(id) => map2_has(self@.proposal_queues, dao_account, index) && id == map2_get(
                    self@.proposal_queues,
                    dao_account,
                    index,
                ),
                None => !map2_has(self@.proposal_queues, dao_account, index),
            },
    {
        match self.proposal_queues.get(dao_account, index) {
            Some(id) => Some(*id),
            None => None,
        }
    }

    /// The escrow account of a DAO; the zero account when unset.
    pub fn escrow(&self, dao_account: AccountId) -> (r: AccountId)
        ensures
            r == self@.escrow_at(dao_account),
    {
        match self.escrows.get(dao_account) {
            Some(e) => *e,
            None => 0,
        }
    }

    /// Advances the id-derivation nonce; fails only when exhausted.
    fn nonce_increment(&mut self) -> (r: Result<u128, DaoError>)
        ensures
            final(self)@ == (DaoView { nonce: final(self)@.nonce, ..old(self)@ }),
            match r {
                Ok(n) => old(self).spec_nonce() < u128::MAX && n == old(self).spec_nonce() + 1
                    && final(self)@.nonce == n,
                Err(e) => e == DaoError::NumOverflow && old(self).spec_nonce() == u128::MAX
                    && final(self)@.nonce == old(self)@.nonce,
            },
    {
        if self.nonce == u128::MAX {
            Err(DaoError::NumOverflow)
        } else {
            self.nonce = self.nonce + 1;
            Ok(self.nonce)
        }
    }

    /// Derives the raw DAO id bytes for a nonce: a hash of the metadata and
    /// seed, rehashed with a tag, the summoner and the nonce.
    fn _dao_id(summoner: AccountId, details: &Vec<u8>, seed: &Vec<u8>, nonce: u128) -> (r: DAOId)
        ensures
            r.0@ == spec_dao_digest(summoner, details@, seed@, nonce),
    {
        let mut inner: Vec<u8> = Vec::new();
        push_vec(&mut inner, details);
        push_vec(&mut inner, seed);
        let h1 = ids::blake2_256(&inner);
        let mut outer: Vec<u8> = dao_tag();
        ids::push_le_bytes(&mut outer, summoner);
        push_arr(&mut outer, &h1);
        ids::push_le_bytes(&mut outer, nonce);
        let digest = ids::blake2_256(&outer);
        proof {
            assert(inner@ =~= details@ + seed@);
            assert(outer@ =~= spec_dao_tag() + ids::le_bytes(summoner as nat, 16) + ids::blake2_of(
                details@ + seed@,
            ) + ids::le_bytes(nonce as nat, 16));
        }
        DAOId(digest)
    }

    /// Allocates a fresh DAO id: advances the nonce and hashes.
    pub fn dao_id(&mut self, summoner: AccountId, details: &Vec<u8>, seed: &Vec<u8>) -> (r: Result<
        DAOId,
        DaoError,
    >)
        ensures
            final(self)@ == (DaoView { nonce: final(self)@.nonce, ..old(self)@ }),
            match r {
                Ok(id) => old(self).spec_nonce() < u128::MAX && final(self)@.nonce == old(
                    self,
                ).spec_nonce() + 1 && id.0@ == spec_dao_digest(
                    summoner,
                    details@,
                    seed@,
                    (old(self).spec_nonce() + 1) as u128,
                ),
                Err(e) => e == DaoError::NumOverflow && old(self).spec_nonce() == u128::MAX
                    && final(self)@ == old(self)@,
            },
    {
        let nonce = match self.nonce_increment() {
            Ok(n) => n,
            Err(e) => {
                return Err(e);
            },
        };
        Ok(Self::_dao_id(summoner, details, seed, nonce))
    }

    /// The account a DAO id denotes.
    pub fn dao_account_id(dao_id: &DAOId) -> (r: AccountId)
        ensures
            r == spec_dao_account(dao_id.0@),
    {
        ids::fold_digest(&dao_id.0)
    }

    /// The escrow account a DAO id denotes: a tagged rehash of the id.
    pub fn dao_escrow_id(dao_id: &DAOId) -> (r: AccountId)
        ensures
            r == spec_dao_escrow(dao_id.0@),
    {
        let mut buf: Vec<u8> = escrow_tag();
        push_arr(&mut buf, &dao_id.0);
        proof {
            assert(buf@ =~= spec_escrow_tag() + dao_id.0@);
        }
        let digest = ids::blake2_256(&buf);
        ids::fold_digest(&digest)
    }

    /// The id the next proposal of a DAO gets.
    pub fn proposal_id_increment(&self, dao_account: AccountId) -> (r: Result<u128, DaoError>)
        ensures
            match r {
                Ok(id) => self@.next_proposal_id(dao_account) <= u128::MAX && id
                    == self@.next_proposal_id(dao_account),
                Err(e) => e == DaoError::NumOverflow && self@.next_proposal_id(dao_account)
                    > u128::MAX,
            },
    {
        match self.last_proposal_id.get(dao_account) {
            Some(last) => {
                if *last == u128::MAX {
                    Err(DaoError::NumOverflow)
                } else {
                    Ok(*last + 1)
                }
            },
            None => Ok(0),
        }
    }

    /// The index the next queued proposal of a DAO gets.
    pub fn queue_index_increment(&self, dao_account: AccountId) -> (r: Result<u128, DaoError>)
        ensures
            match r {
                Ok(idx) => self@.next_queue_index(dao_account) <= u128::MAX && idx
                    == self@.next_queue_index(dao_account),
                Err(e) => e == DaoError::NumOverflow && self@.next_queue_index(dao_account)
                    > u128::MAX,
            },
    {
        match self.last_queue_index.get(dao_account) {
            Some(last) => {
                if *last == u128::MAX {
                    Err(DaoError::NumOverflow)
                } else {
                    Ok(*last + 1)
                }
            },
            None => Ok(0),
        }
    }

    /// The period a DAO is in at block `now`.
    pub fn get_current_period(dao: &DAOInfo, now: BlockNumber) -> (r: Result<u128, DaoError>)
        ensures
            match r {
                Ok(p) => spec_current_period(dao@, now) == Some(p),
                Err(e) => e == DaoError::NumOverflow && spec_current_period(dao@, now) is None,
            },
    {
        if now < dao.summoning_time {
            return Err(DaoError::NumOverflow);
        }
        if dao.period_duration == 0 {
            return Err(DaoError::NumOverflow);
        }
        Ok((now - dao.summoning_time) / dao.period_duration)
    }

    /// Adds a member's shares to a running vote tally, checked.
    pub fn add_vote(&self, now_vote: u128, shares: u128) -> (r: Result<u128, DaoError>)
        ensures
            match r {
                Ok(v) => now_vote + shares <= u128::MAX && v == now_vote + shares,
                Err(e) => e == DaoError::NumOverflow && now_vote + shares > u128::MAX,
            },
    {
        match now_vote.checked_add(shares) {
            Some(v) => Ok(v),
            None => Err(DaoError::NumOverflow),
        }
    }

    /// Creates a DAO summoned by `who` at block `now`, seeded with the given
    /// random bytes. Returns its account and escrow account.
    pub fn create_dao(
        &mut self,
        who: AccountId,
        metadata: Vec<u8>,
        period_duration: u128,
        voting_period: u128,
        grace_period: u128,
        shares_requested: u128,
        proposal_deposit: Balance,
        processing_reward: Balance,
        dilution_bound: u128,
        seed: &Vec<u8>,
        now: BlockNumber,
    ) -> (r: Result<(AccountId, AccountId), DaoError>)
        ensures
            match r {
                Ok((dao_account, escrow_id)) => spec_create_dao(
                    old(self)@,
                    who,
                    metadata@,
                    period_duration,
                    voting_period,
                    grace_period,
                    shares_requested,
                    proposal_deposit,
                    processing_reward,
                    dilution_bound,
                    seed@,
                    now,
                ) == Ok::<_, DaoError>((final(self)@, dao_account, escrow_id)),
                Err(e) => spec_create_dao(
                    old(self)@,
                    who,
                    metadata@,
                    period_duration,
                    voting_period,
                    grace_period,
                    shares_requested,
                    proposal_deposit,
                    processing_reward,
                    dilution_bound,
                    seed@,
                    now,
                ) == Err::<(DaoView, u128, u128), _>(e) && final(self)@ == old(self)@,
            },
    {
        if proposal_deposit < processing_reward {
            return Err(DaoError::DepositSmallerThanReward);
        }
        if period_duration == 0 {
            return Err(DaoError::PeriodDurationShouldLargeThanZero);
        }
        if voting_period == 0 {
            return Err(DaoError::VotingDurationShouldLargeThanZero);
        }
        if grace_period == 0 {
            return Err(DaoError::GracePeriodShouldLargeThanZero);
        }
        if dilution_bound == 0 {
            return Err(DaoError::DilutionBoundShouldLargeThanZero);
        }
        let dao_id = match self.dao_id(who, &metadata, seed) {
            Ok(id) => id,
            Err(e) => {
                return Err(e);
            },
        };
        let dao_account = Self::dao_account_id(&dao_id);
        let escrow_id = Self::dao_escrow_id(&dao_id);
        let dao = DAOInfo {
            account_id: dao_account,
            escrow_id,
            period_duration,
            voting_period,
            grace_period,
            metadata,
            total_shares: shares_requested,
            summoning_time: now,
            dilution_bound,
            proposal_deposit,
            processing_reward,
        };
        let member = Member { shares: shares_requested, highest_index_yes_vote: 0 };
        let ghost gdao = dao;
        let ghost olddaos = self.daos@;
        self.daos.insert(dao_account, dao);
        self.escrows.insert(dao_account, escrow_id);
        self.members.insert(dao_account, who, member);
        proof {
            lemma_daos_view_insert(olddaos, dao_account, gdao);
        }
        Ok((dao_account, escrow_id))
    }

    /// Submits a proposal to a DAO, escrowing any tribute. Returns the
    /// proposal id.
    pub fn submit_proposal(
        &mut self,
        registry: &CollectionRegistry,
        ledger: &mut TokenLedger,
        currency: &mut Currency,
        who: AccountId,
        dao_account: AccountId,
        applicant: AccountId,
        shares_requested: u128,
        tribute_offered: Balance,
        tribute_nft: Option<(u128, u128)>,
        details: Vec<u8>,
        action: Option<Vec<u8>>,
    ) -> (r: Result<u128, DaoError>)
        requires
            old(ledger)@.wf(),
        ensures
            final(ledger)@.wf(),
            match r {
                Ok(pid) => spec_submit_proposal(
                    old(self)@,
                    registry@,
                    old(ledger)@,
                    old(currency)@,
                    who,
                    dao_account,
                    applicant,
                    shares_requested,
                    tribute_offered,
                    tribute_nft,
                    details@,
                    (match action {
                        Some(ref a) => Some(a@),
                        None => None,
                    }),
                ) == Ok::<_, DaoError>((final(self)@, final(ledger)@, final(currency)@, pid)),
                Err(e) => spec_submit_proposal(
                    old(self)@,
                    registry@,
                    old(ledger)@,
                    old(currency)@,
                    who,
                    dao_account,
                    applicant,
                    shares_requested,
                    tribute_offered,
                    tribute_nft,
                    details@,
                    (match action {
                        Some(ref a) => Some(a@),
                        None => None,
                    }),
                ) == Err::<(DaoView, LedgerView, Map<u128, u128>, u128), _>(e) && final(self)@
                    == old(self)@ && final(ledger)@ == old(ledger)@ && final(currency)@ == old(
                    currency,
                )@,
            },
    {
        if !self.daos.contains(dao_account) {
            return Err(DaoError::DAONotFound);
        }
        let escrow_id = self.escrow(dao_account);
        match tribute_nft {
            Some((cid, tid)) => {
                match ledger.check_transfer_non_fungible(registry, who, escrow_id, cid, tid, 1) {
                    None => {},
                    Some(e) => {
                        return Err(DaoError::Nft(e));
                    },
                }
            },
            None => {},
        }
        if tribute_offered != 0 {
            let who_bal = currency.free_balance(who);
            if who_bal < tribute_offered {
                return Err(DaoError::Currency(CurrencyError::InsufficientBalance));
            }
            if who != escrow_id {
                let escrow_bal = currency.free_balance(escrow_id);
                if escrow_bal > u128::MAX - tribute_offered {
                    return Err(DaoError::Currency(CurrencyError::NumOverflow));
                }
            }
        }
        let proposal_id = match self.proposal_id_increment(dao_account) {
            Ok(id) => id,
            Err(e) => {
                return Err(e);
            },
        };
        match tribute_nft {
            Some((cid, tid)) => {
                match ledger._transfer_non_fungible(registry, who, escrow_id, cid, tid, 1) {
                    Ok(()) => {},
                    Err(e) => {
                        return Err(DaoError::Nft(e));
                    },
                }
            },
            None => {},
        }
        if tribute_offered != 0 {
            match currency.transfer(who, escrow_id, tribute_offered) {
                Ok(()) => {},
                Err(e) => {
                    return Err(DaoError::Currency(e));
                },
            }
        }
        let proposal = Proposal {
            applicant,
            proposer: who,
            sponsor: None,
            shares_requested,
            tribute_offered,
            tribute_nft,
            starting_period: 0,
            yes_votes: 0,
            no_votes: 0,
            details,
            action,
            sponsored: false,
            processed: false,
            did_pass: false,
            cancelled: false,
            executed: false,
            max_total_shares_at_yes_vote: 0,
        };
        let ghost gproposal = proposal;
        let ghost oldprops = self.proposals@;
        self.last_proposal_id.insert(dao_account, proposal_id);
        self.proposals.insert(dao_account, proposal_id, proposal);
        proof {
            lemma_props_view_insert(oldprops, dao_account, proposal_id, gproposal);
        }
        Ok(proposal_id)
    }

    /// Cancels an unsponsored proposal; the tribute returns to the proposer.
    pub fn cancel_proposal(
        &mut self,
        registry: &CollectionRegistry,
        ledger: &mut TokenLedger,
        currency: &mut Currency,
        who: AccountId,
        dao_account: AccountId,
        proposal_id: u128,
    ) -> (r: Result<(), DaoError>)
        requires
            old(ledger)@.wf(),
        ensures
            final(ledger)@.wf(),
            match r {
                Ok(()) => spec_cancel_proposal(
                    old(self)@,
                    registry@,
                    old(ledger)@,
                    old(currency)@,
                    who,
                    dao_account,
                    proposal_id,
                ) == Ok::<_, DaoError>((final(self)@, final(ledger)@, final(currency)@)),
                Err(e) => spec_cancel_proposal(
                    old(self)@,
                    registry@,
                    old(ledger)@,
                    old(currency)@,
                    who,
                    dao_account,
                    proposal_id,
                ) == Err::<(DaoView, LedgerView, Map<u128, u128>), _>(e) && final(self)@ == old(
                    self,
                )@ && final(ledger)@ == old(ledger)@ && final(currency)@ == old(currency)@,
            },
    {
        if !self.daos.contains(dao_account) {
            return Err(DaoError::DAONotFound);
        }
        let escrow_id = self.escrow(dao_account);
        let updated = match self.proposals.get(dao_account, proposal_id) {
            Some(p) => {
                if who != p.proposer {
                    return Err(DaoError::PermissionDenied);
                }
                if p.sponsored {
                    return Err(DaoError::SponsoredProposal);
                }
                if p.cancelled {
                    return Err(DaoError::CancelledProposal);
                }
                duplicate_proposal(p)
            },
            None => {
                return Err(DaoError::ProposalNotFound);
            },
        };
        match updated.tribute_nft {
            Some((cid, tid)) => {
                match ledger.check_transfer_non_fungible(registry, escrow_id, who, cid, tid, 1) {
                    None => {},
                    Some(e) => {
                        return Err(DaoError::Nft(e));
                    },
                }
            },
            None => {},
        }
        if updated.tribute_offered != 0 {
            let escrow_bal = currency.free_balance(escrow_id);
            if escrow_bal < updated.tribute_offered {
                return Err(DaoError::Currency(CurrencyError::InsufficientBalance));
            }
            if who != escrow_id {
                let who_bal = currency.free_balance(who);
                if who_bal > u128::MAX - updated.tribute_offered {
                    return Err(DaoError::Currency(CurrencyError::NumOverflow));
                }
            }
        }
        match updated.tribute_nft {
            Some((cid, tid)) => {
                match ledger._transfer_non_fungible(registry, escrow_id, who, cid, tid, 1) {
                    Ok(()) => {},
                    Err(e) => {
                        return Err(DaoError::Nft(e));
                    },
                }
            },
            None => {},
        }
        if updated.tribute_offered != 0 {
            match currency.transfer(escrow_id, who, updated.tribute_offered) {
                Ok(()) => {},
                Err(e) => {
                    return Err(DaoError::Currency(e));
                },
            }
        }
        let mut updated = updated;
        updated.cancelled = true;
        let ghost gproposal = updated;
        let ghost oldprops = self.proposals@;
        self.proposals.insert(dao_account, proposal_id, updated);
        proof {
            lemma_props_view_insert(oldprops, dao_account, proposal_id, gproposal);
        }
        Ok(())
    }

    /// The period a queued proposal sponsored now would start voting in: the
    /// current period, or the previous queue entry's start if later.
    pub fn calculate_starting_period(&self, dao: &DAOInfo, now: BlockNumber) -> (r: Result<
        u128,
        DaoError,
    >)
        ensures
            match r {
                Ok(v) => ({
                    &&& spec_current_period(dao@, now) is Some
                    &&& self@.next_queue_index(dao@.account_id) <= u128::MAX
                    &&& ({
                        let qi = self@.next_queue_index(dao@.account_id) as u128;
                        let current = spec_current_period(dao@, now)->Some_0;
                        &&& (qi != 0 ==> map2_has(
                            self@.proposals,
                            dao@.account_id,
                            self@.queue_at(dao@.account_id, (qi - 1) as u128),
                        ))
                        &&& v == ({
                            let prev = if qi != 0 {
                                map2_get(
                                    self@.proposals,
                                    dao@.account_id,
                                    self@.queue_at(dao@.account_id, (qi - 1) as u128),
                                ).starting_period
                            } else {
                                0
                            };
                            if current > prev {
                                current
                            } else {
                                prev
                            }
                        })
                    })
                }),
                Err(DaoError::NumOverflow) => spec_current_period(dao@, now) is None
                    || self@.next_queue_index(dao@.account_id) > u128::MAX,
                Err(DaoError::ProposalNotFound) => spec_current_period(dao@, now) is Some
                    && self@.next_queue_index(dao@.account_id) <= u128::MAX && ({
                    let qi = self@.next_queue_index(dao@.account_id) as u128;
                    qi != 0 && !map2_has(
                        self@.proposals,
                        dao@.account_id,
                        self@.queue_at(dao@.account_id, (qi - 1) as u128),
                    )
                }),
                Err(_) => false,
            },
    {
        let current_period = match Self::get_current_period(dao, now) {
            Ok(p) => p,
            Err(e) => {
                return Err(e);
            },
        };
        let next_queue_index = match self.queue_index_increment(dao.account_id) {
            Ok(i) => i,
            Err(e) => {
                return Err(e);
            },
        };
        let period: u128 = if next_queue_index != 0 {
            let last_index = next_queue_index - 1;
            let id = match self.proposal_queues.get(dao.account_id, last_index) {
                Some(v) => *v,
                None => 0,
            };
            match self.proposals.get(dao.account_id, id) {
                Some(p) => p.starting_period,
                None => {
                    return Err(DaoError::ProposalNotFound);
                },
            }
        } else {
            0
        };
        if current_period > period {
            Ok(current_period)
        } else {
            Ok(period)
        }
    }

    /// Sponsors a proposal into the queue, staking the DAO's deposit.
    /// Returns the queue index and the starting period.
    pub fn sponsor_proposal(
        &mut self,
        currency: &mut Currency,
        who: AccountId,
        dao_account: AccountId,
        proposal_id: u128,
        now: BlockNumber,
    ) -> (r: Result<(u128, u128), DaoError>)
        ensures
            match r {
                Ok((qi, starting)) => spec_sponsor_proposal(
                    old(self)@,
                    old(currency)@,
                    who,
                    dao_account,
                    proposal_id,
                    now,
                ) == Ok::<_, DaoError>((final(self)@, final(currency)@, qi, starting)),
                Err(e) => spec_sponsor_proposal(
                    old(self)@,
                    old(currency)@,
                    who,
                    dao_account,
                    proposal_id,
                    now,
                ) == Err::<(DaoView, Map<u128, u128>, u128, u128), _>(e) && final(self)@ == old(
                    self,
                )@ && final(currency)@ == old(currency)@,
            },
    {
        if !self.daos.contains(dao_account) {
            return Err(DaoError::DAONotFound);
        }
        if !self.members.contains(dao_account, who) {
            return Err(DaoError::NotDAOMember);
        }
        let escrow_id = self.escrow(dao_account);
        let (deposit, dao_summoning, dao_duration) = match self.daos.get(dao_account) {
            Some(d) => (d.proposal_deposit, d.summoning_time, d.period_duration),
            None => {
                return Err(DaoError::DAONotFound);
            },
        };
        let updated = match self.proposals.get(dao_account, proposal_id) {
            Some(p) => {
                if p.sponsored {
                    return Err(DaoError::SponsoredProposal);
                }
                if p.cancelled {
                    return Err(DaoError::CancelledProposal);
                }
                duplicate_proposal(p)
            },
            None => {
                return Err(DaoError::ProposalNotFound);
            },
        };
        let queue_index = match self.queue_index_increment(dao_account) {
            Ok(i) => i,
            Err(e) => {
                return Err(e);
            },
        };
        if now < dao_summoning {
            return Err(DaoError::NumOverflow);
        }
        if dao_duration == 0 {
            return Err(DaoError::NumOverflow);
        }
        let current_period = (now - dao_summoning) / dao_duration;
        let prev_start: u128 = if queue_index != 0 {
            let id = match self.proposal_queues.get(dao_account, queue_index - 1) {
                Some(v) => *v,
                None => 0,
            };
            match self.proposals.get(dao_account, id) {
                Some(p) => p.starting_period,
                None => {
                    return Err(DaoError::ProposalNotFound);
                },
            }
        } else {
            0
        };
        let starting_period = if current_period > prev_start {
            current_period
        } else {
            prev_start
        };
        match currency.transfer(who, escrow_id, deposit) {
            Ok(()) => {},
            Err(e) => {
                return Err(DaoError::Currency(e));
            },
        }
        let mut updated = updated;
        updated.sponsor = Some(who);
        updated.sponsored = true;
        updated.starting_period = starting_period;
        let ghost gproposal = updated;
        let ghost oldprops = self.proposals@;
        self.proposals.insert(dao_account, proposal_id, updated);
        self.proposal_queues.insert(dao_account, queue_index, proposal_id);
        self.last_queue_index.insert(dao_account, queue_index);
        proof {
            lemma_props_view_insert(oldprops, dao_account, proposal_id, gproposal);
        }
        Ok((queue_index, starting_period))
    }

    /// Casts a member's vote on the proposal in a queue slot.
    pub fn vote_proposal(
        &mut self,
        who: AccountId,
        dao_account: AccountId,
        proposal_index: u128,
        yes: bool,
        now: BlockNumber,
    ) -> (r: Result<(), DaoError>)
        ensures
            match r {
                Ok(()) => spec_vote_proposal(
                    old(self)@,
                    who,
                    dao_account,
                    proposal_index,
                    yes,
                    now,
                ) == Ok::<_, DaoError>(final(self)@),
                Err(e) => spec_vote_proposal(
                    old(self)@,
                    who,
                    dao_account,
                    proposal_index,
                    yes,
                    now,
                ) == Err::<DaoView, _>(e) && final(self)@ == old(self)@,
            },
    {
        if !self.daos.contains(dao_account) {
            return Err(DaoError::DAONotFound);
        }
        if !self.proposal_queues.contains(dao_account, proposal_index) {
            return Err(DaoError::ProposalNotFound);
        }
        let member = match self.members.get(dao_account, who) {
            Some(m) => *m,
            None => {
                return Err(DaoError::PermissionDenied);
            },
        };
        let mut voters: Vec<u128> = match self.vote_members.get(dao_account, proposal_index) {
            Some(v) => {
                if voters_contain(v, who) {
                    return Err(DaoError::MemberAlreadyVoted);
                }
                copy_accounts(v)
            },
            None => Vec::new(),
        };
        let proposal_id = match self.proposal_queues.get(dao_account, proposal_index) {
            Some(v) => *v,
            None => {
                return Err(DaoError::ProposalNotFound);
            },
        };
        let (dao_summoning, dao_duration, dao_voting, dao_total_shares) = match self.daos.get(
            dao_account,
        ) {
            Some(d) => (d.summoning_time, d.period_duration, d.voting_period, d.total_shares),
            None => {
                return Err(DaoError::DAONotFound);
            },
        };
        let mut updated = match self.proposals.get(dao_account, proposal_id) {
            Some(p) => duplicate_proposal(p),
            None => {
                return Err(DaoError::ProposalNotFound);
            },
        };
        if now < dao_summoning {
            return Err(DaoError::NumOverflow);
        }
        if dao_duration == 0 {
            return Err(DaoError::NumOverflow);
        }
        let current_period = (now - dao_summoning) / dao_duration;
        if updated.starting_period > u128::MAX - dao_voting {
            return Err(DaoError::NumOverflow);
        }
        if current_period >= updated.starting_period + dao_voting {
            return Err(DaoError::ExpiredPeriod);
        }
        voters.push(who);
        let ghost gvoters = voters;
        let ghost oldvotes = self.vote_members@;
        if yes {
            if updated.yes_votes > u128::MAX - member.shares {
                return Err(DaoError::NumOverflow);
            }
            updated.yes_votes = updated.yes_votes + member.shares;
            if dao_total_shares > updated.max_total_shares_at_yes_vote {
                updated.max_total_shares_at_yes_vote = dao_total_shares;
            }
            let member2 = Member { highest_index_yes_vote: proposal_index, ..member };
            self.members.insert(dao_account, who, member2);
        } else {
            if updated.no_votes > u128::MAX - member.shares {
                return Err(DaoError::NumOverflow);
            }
            updated.no_votes = updated.no_votes + member.shares;
        }
        let ghost gproposal = updated;
        let ghost oldprops = self.proposals@;
        self.proposals.insert(dao_account, proposal_id, updated);
        self.vote_members.insert(dao_account, proposal_index, voters);
        proof {
            lemma_props_view_insert(oldprops, dao_account, proposal_id, gproposal);
            lemma_votes_view_insert(oldvotes, dao_account, proposal_index, gvoters);
            if !map2_has(old(self)@.vote_members, dao_account, proposal_index) {
                assert(gvoters@ =~= seq![who]);
            }
        }
        Ok(())
    }

    /// Processes the proposal in a queue slot once its grace period has
    /// passed, in strict queue order. Returns whether it passed; a passed
    /// proposal's action payload is left for the caller to dispatch and
    /// record with `record_action_result`.
    pub fn process_proposal(
        &mut self,
        registry: &CollectionRegistry,
        ledger: &mut TokenLedger,
        currency: &mut Currency,
        who: AccountId,
        dao_account: AccountId,
        proposal_index: u128,
        now: BlockNumber,
    ) -> (r: Result<bool, DaoError>)
        requires
            old(ledger)@.wf(),
        ensures
            final(ledger)@.wf(),
            match r {
                Ok(did_pass) => spec_process_proposal(
                    old(self)@,
                    registry@,
                    old(ledger)@,
                    old(currency)@,
                    who,
                    dao_account,
                    proposal_index,
                    now,
                ) == Ok::<_, DaoError>(
                    (final(self)@, final(ledger)@, final(currency)@, did_pass),
                ),
                Err(e) => spec_process_proposal(
                    old(self)@,
                    registry@,
                    old(ledger)@,
                    old(currency)@,
                    who,
                    dao_account,
                    proposal_index,
                    now,
                ) == Err::<(DaoView, LedgerView, Map<u128, u128>, bool), _>(e) && final(self)@
                    == old(self)@ && final(ledger)@ == old(ledger)@ && final(currency)@ == old(
                    currency,
                )@,
            },
    {
        if !self.daos.contains(dao_account) {
            return Err(DaoError::DAONotFound);
        }
        if !self.proposal_queues.contains(dao_account, proposal_index) {
            return Err(DaoError::ProposalNotFound);
        }
        let proposal_id = match self.proposal_queues.get(dao_account, proposal_index) {
            Some(v) => *v,
            None => {
                return Err(DaoError::ProposalNotFound);
            },
        };
        let dao = match self.daos.get(dao_account) {
            Some(d) => duplicate_dao(d),
            None => {
                return Err(DaoError::DAONotFound);
            },
        };
        let escrow_id = self.escrow(dao_account);
        let mut updated = match self.proposals.get(dao_account, proposal_id) {
            Some(p) => duplicate_proposal(p),
            None => {
                return Err(DaoError::ProposalNotFound);
            },
        };
        if now < dao.summoning_time {
            return Err(DaoError::NumOverflow);
        }
        if dao.period_duration == 0 {
            return Err(DaoError::NumOverflow);
        }
        let current_period = (now - dao.summoning_time) / dao.period_duration;
        if updated.starting_period > u128::MAX - dao.voting_period {
            return Err(DaoError::NumOverflow);
        }
        let passed_period = updated.starting_period + dao.voting_period;
        if passed_period > u128::MAX - dao.grace_period {
            return Err(DaoError::NumOverflow);
        }
        let passed_period = passed_period + dao.grace_period;
        if current_period < passed_period {
            return Err(DaoError::NotReadyToProcessed);
        }
        if updated.processed {
            return Err(DaoError::ProcessedProposal);
        }
        if proposal_index != 0 {
            let prev_id = match self.proposal_queues.get(dao_account, proposal_index - 1) {
                Some(v) => *v,
                None => 0,
            };
            match self.proposals.get(dao_account, prev_id) {
                Some(prev) => {
                    if !prev.processed {
                        return Err(DaoError::PrevProposalUnprocessed);
                    }
                },
                None => {
                    return Err(DaoError::ProposalNotFound);
                },
            }
        }
        let dilution = match dao.total_shares.checked_mul(dao.dilution_bound) {
            Some(v) => v,
            None => {
                return Err(DaoError::NumOverflow);
            },
        };
        let did_pass = updated.yes_votes > updated.no_votes && dilution
            > updated.max_total_shares_at_yes_vote;
        let sponsor = match updated.sponsor {
            Some(s) => s,
            None => updated.proposer,
        };
        let tribute_recipient = if did_pass {
            dao_account
        } else {
            updated.proposer
        };
        // a passing proposal credits the applicant; check the share sums
        let new_member: Member = if did_pass {
            match self.members.get(dao_account, updated.applicant) {
                Some(m) => {
                    let shares = match m.shares.checked_add(updated.shares_requested) {
                        Some(v) => v,
                        None => {
                            return Err(DaoError::NumOverflow);
                        },
                    };
                    Member { shares, ..*m }
                },
                None => Member { shares: updated.shares_requested, highest_index_yes_vote: 0 },
            }
        } else {
            Member { shares: 0, highest_index_yes_vote: 0 }
        };
        let new_total_shares: u128 = if did_pass {
            match dao.total_shares.checked_add(updated.shares_requested) {
                Some(v) => v,
                None => {
                    return Err(DaoError::NumOverflow);
                },
            }
        } else {
            dao.total_shares
        };
        match updated.tribute_nft {
            Some((cid, tid)) => {
                match ledger.check_transfer_non_fungible(
                    registry,
                    escrow_id,
                    tribute_recipient,
                    cid,
                    tid,
                    1,
                ) {
                    None => {},
                    Some(e) => {
                        return Err(DaoError::Nft(e));
                    },
                }
            },
            None => {},
        }
        // settle all currency legs on a copy, committed only as a whole
        let mut scratch = currency.fork();
        if updated.tribute_offered != 0 {
            match scratch.transfer(escrow_id, tribute_recipient, updated.tribute_offered) {
                Ok(()) => {},
                Err(e) => {
                    return Err(DaoError::Currency(e));
                },
            }
        }
        if dao.proposal_deposit < dao.processing_reward {
            return Err(DaoError::NumOverflow);
        }
        let back_to_sponsor = dao.proposal_deposit - dao.processing_reward;
        match scratch.transfer(escrow_id, who, dao.processing_reward) {
            Ok(()) => {},
            Err(e) => {
                return Err(DaoError::Currency(e));
            },
        }
        match scratch.transfer(escrow_id, sponsor, back_to_sponsor) {
            Ok(()) => {},
            Err(e) => {
                return Err(DaoError::Currency(e));
            },
        }
        match updated.tribute_nft {
            Some((cid, tid)) => {
                match ledger._transfer_non_fungible(
                    registry,
                    escrow_id,
                    tribute_recipient,
                    cid,
                    tid,
                    1,
                ) {
                    Ok(()) => {},
                    Err(e) => {
                        return Err(DaoError::Nft(e));
                    },
                }
            },
            None => {},
        }
        *currency = scratch;
        updated.processed = true;
        if did_pass {
            updated.did_pass = true;
        }
        let applicant = updated.applicant;
        let ghost gproposal = updated;
        let ghost oldprops = self.proposals@;
        self.proposals.insert(dao_account, proposal_id, updated);
        proof {
            lemma_props_view_insert(oldprops, dao_account, proposal_id, gproposal);
        }
        if did_pass {
            self.members.insert(dao_account, applicant, new_member);
            let mut dao2 = dao;
            dao2.total_shares = new_total_shares;
            let ghost gdao2 = dao2;
            let ghost olddaos = self.daos@;
            self.daos.insert(dao_account, dao2);
            proof {
                lemma_daos_view_insert(olddaos, dao_account, gdao2);
            }
        }
        Ok(did_pass)
    }

    /// Records the outcome of dispatching a passed proposal's action.
    pub fn record_action_result(
        &mut self,
        dao_account: AccountId,
        proposal_id: u128,
        executed: bool,
    ) -> (r: Result<(), DaoError>)
        ensures
            match r {
                Ok(()) => spec_record_action_result(
                    old(self)@,
                    dao_account,
                    proposal_id,
                    executed,
                ) == Ok::<_, DaoError>(final(self)@),
                Err(e) => spec_record_action_result(
                    old(self)@,
                    dao_account,
                    proposal_id,
                    executed,
                ) == Err::<DaoView, _>(e) && final(self)@ == old(self)@,
            },
    {
        let mut updated = match self.proposals.get(dao_account, proposal_id) {
            Some(p) => {
                if !(p.processed && p.did_pass && p.action.is_some()) {
                    return Err(DaoError::PermissionDenied);
                }
                duplicate_proposal(p)
            },
            None => {
                return Err(DaoError::ProposalNotFound);
            },
        };
        updated.executed = executed;
        let ghost gproposal = updated;
        let ghost oldprops = self.proposals@;
        self.proposals.insert(dao_account, proposal_id, updated);
        proof {
            lemma_props_view_insert(oldprops, dao_account, proposal_id, gproposal);
        }
        Ok(())
    }

    /// Burns a member's shares for a proportional payout of the DAO's
    /// balance, once the last proposal they backed is processed. Returns the
    /// payout.
    pub fn ragequit(
        &mut self,
        currency: &mut Currency,
        who: AccountId,
        dao_account: AccountId,
        shares_to_burn: u128,
    ) -> (r: Result<u128, DaoError>)
        ensures
            match r {
                Ok(payout) => spec_ragequit(
                    old(self)@,
                    old(currency)@,
                    who,
                    dao_account,
                    shares_to_burn,
                ) == Ok::<_, DaoError>((final(self)@, final(currency)@, payout)),
                Err(e) => spec_ragequit(
                    old(self)@,
                    old(currency)@,
                    who,
                    dao_account,
                    shares_to_burn,
                ) == Err::<(DaoView, Map<u128, u128>, u128), _>(e) && final(self)@ == old(self)@
                    && final(currency)@ == old(currency)@,
            },
    {
        if shares_to_burn == 0 {
            return Err(DaoError::BurnSharesShouldLargeThanZero);
        }
        if !self.daos.contains(dao_account) {
            return Err(DaoError::DAONotFound);
        }
        let member = match self.members.get(dao_account, who) {
            Some(m) => *m,
            None => {
                return Err(DaoError::PermissionDenied);
            },
        };
        if member.shares < shares_to_burn {
            return Err(DaoError::InsufficientShares);
        }
        if !self.proposal_queues.contains(dao_account, member.highest_index_yes_vote) {
            return Err(DaoError::ProposalNotFound);
        }
        let proposal_id = match self.proposal_queues.get(
            dao_account,
            member.highest_index_yes_vote,
        ) {
            Some(v) => *v,
            None => {
                return Err(DaoError::ProposalNotFound);
            },
        };
        match self.proposals.get(dao_account, proposal_id) {
            Some(p) => {
                if !p.processed {
                    return Err(DaoError::CanNotRagequit);
                }
            },
            None => {},
        }
        let dao = match self.daos.get(dao_account) {
            Some(d) => duplicate_dao(d),
            None => {
                return Err(DaoError::DAONotFound);
            },
        };
        if dao.total_shares < shares_to_burn {
            return Err(DaoError::NumOverflow);
        }
        let dao_balance = currency.free_balance(dao_account);
        let splited = match dao_balance.checked_mul(shares_to_burn) {
            Some(v) => v,
            None => {
                return Err(DaoError::NumOverflow);
            },
        };
        if dao.total_shares == 0 {
            return Err(DaoError::NumOverflow);
        }
        let withdraw_balance = splited / dao.total_shares;
        match currency.transfer(dao_account, who, withdraw_balance) {
            Ok(()) => {},
            Err(e) => {
                return Err(DaoError::Currency(e));
            },
        }
        let member2 = Member { shares: member.shares - shares_to_burn, ..member };
        self.members.insert(dao_account, who, member2);
        let mut dao2 = dao;
        dao2.total_shares = dao2.total_shares - shares_to_burn;
        let ghost gdao2 = dao2;
        let ghost olddaos = self.daos@;
        self.daos.insert(dao_account, dao2);
        proof {
            lemma_daos_view_insert(olddaos, dao_account, gdao2);
        }
        Ok(withdraw_balance)
    }
}


/// Copy of a voter list.
fn copy_accounts(v: &Vec<u128>) -> (r: Vec<u128>)
    ensures
        r@ == v@,
{
    let mut out: Vec<u128> = Vec::new();
    let mut i: usize = 0;
    while i < v.len()
        invariant
            0 <= i <= v@.len(),
            out@ == v@.take(i as int),
        decreases v@.len() - i,
    {
        out.push(v[i]);
        i = i + 1;
    }
    proof {
        assert(v@.take(v@.len() as int) =~= v@);
    }
    out
}

/// Appends a vector's bytes.
fn push_vec(out: &mut Vec<u8>, b: &Vec<u8>)
    ensures
        final(out)@ == old(out)@ + b@,
{
    let mut i: usize = 0;
    while i < b.len()
        invariant
            0 <= i <= b@.len(),
            out@ == old(out)@ + b@.take(i as int),
        decreases b@.len() - i,
    {
        out.push(b[i]);
        i = i + 1;
    }
    proof {
        assert(b@.take(b@.len() as int) =~= b@);
    }
}

/// Appends a 32-byte digest.
fn push_arr(out: &mut Vec<u8>, b: &[u8; 32])
    ensures
        final(out)@ == old(out)@ + b@,
{
    let mut i: usize = 0;
    while i < 32
        invariant
            0 <= i <= 32,
            b@.len() == 32,
            out@ == old(out)@ + b@.take(i as int),
        decreases 32 - i,
    {
        out.push(b[i]);
        i = i + 1;
    }
    proof {
        assert(b@.take(32) =~= b@);
    }
}

/// The second-stage tag bytes.
fn dao_tag() -> (r: Vec<u8>)
    ensures
        r@ == spec_dao_tag(),
{
    let r: Vec<u8> = vec![
        0x61u8, 0x77u8, 0x65u8, 0x73u8, 0x6fu8, 0x6du8, 0x65u8, 0x20u8, 0x6eu8, 0x66u8, 0x74u8,
        0x20u8, 0x64u8, 0x61u8, 0x6fu8, 0x21u8,
    ];
    proof {
        assert(r@ =~= spec_dao_tag());
    }
    r
}

/// The escrow tag bytes.
fn escrow_tag() -> (r: Vec<u8>)
    ensures
        r@ == spec_escrow_tag(),
{
    let r: Vec<u8> = vec![
        0x61u8, 0x20u8, 0x65u8, 0x73u8, 0x63u8, 0x72u8, 0x6fu8, 0x77u8, 0x20u8, 0x69u8, 0x64u8,
    ];
    proof {
        assert(r@ =~= spec_escrow_tag());
    }
    r
}

} // verus!
