//! Laws of the accounting engine, proved once and for all over the ledger's
//! state transforms: every mint, transfer and burn keeps each collection's
//! total supply equal to the sum of its account balances, and a non-fungible
//! transfer splits a range without creating or destroying ids.

use vstd::prelude::*;
use crate::collection::CollectionInfoView;
use crate::dao::{
    spec_cancel_proposal, spec_process_proposal, spec_ragequit, spec_submit_proposal, DaoError,
    DaoView,
};
use crate::exchange::{
    spec_buy_nft, spec_buy_semi_token, spec_cancel_nft_order, spec_create_semi_token_pool,
    spec_sell_nft, spec_sell_semi_token, spec_withdraw_pool, ExchangeError, ExchangeView,
    EXCHANGE_ACCOUNT,
};
use crate::graph::{
    spec_link_fungible, spec_link_non_fungible, spec_recover_fungible, spec_recover_non_fungible,
    GraphError, GraphView, GRAPH_ACCOUNT,
};
use crate::sub::{spec_create, spec_recover, SubError, SubView, SUB_ACCOUNT};
use crate::nft::{
    spec_burn_fungible, spec_burn_non_fungible, spec_mint_fungible, spec_mint_non_fungible,
    spec_transfer_fungible, spec_transfer_non_fungible, LedgerView, NftError,
};
use crate::store::{map2_get, map2_has, map2_insert};
use crate::sums::{lemma_sum_insert, sum_map};
use crate::types::AccountId;

verus! {

/// The balance table of one collection; empty when the collection never had
/// a balance written.
pub open spec fn col_balances(led: LedgerView, collection_id: u128) -> Map<u128, u128> {
    if led.balances.contains_key(collection_id) {
        led.balances[collection_id]
    } else {
        Map::<u128, u128>::empty()
    }
}

/// Every per-collection balance table has a finite domain (true of every
/// stored state; stated so the laws can sum over them).
pub open spec fn balances_finite(led: LedgerView) -> bool {
    forall|c: u128|
        led.balances.contains_key(c) ==> (#[trigger] led.balances[c]).dom().finite()
}

/// Total supply conservation: every registered collection's total supply
/// equals the sum of all account balances held in it.
pub open spec fn supply_consistent(
    reg: Map<u128, CollectionInfoView>,
    led: LedgerView,
) -> bool {
    forall|c: u128|
        reg.contains_key(c) ==> (#[trigger] reg[c]).total_supply == sum_map(col_balances(led, c))
}

/// The balance table after `map2_insert` on another collection is unchanged,
/// and on the same collection is the inner insert.
proof fn lemma_col_balances_insert(led: LedgerView, c: u128, who: u128, v: u128, led2: LedgerView)
    requires
        led2.balances == map2_insert(led.balances, c, who, v),
    ensures
        col_balances(led2, c) == col_balances(led, c).insert(who, v),
        forall|c2: u128| c2 != c ==> col_balances(led2, c2) == col_balances(led, c2),
        balances_finite(led) ==> balances_finite(led2),
{
    assert(col_balances(led2, c) =~= col_balances(led, c).insert(who, v));
    assert forall|c2: u128| c2 != c implies col_balances(led2, c2) == col_balances(led, c2) by {
        if led.balances.contains_key(c2) {
            assert(led2.balances[c2] == led.balances[c2]);
        }
    }
    if balances_finite(led) {
        assert forall|c2: u128| led2.balances.contains_key(c2) implies (
        #[trigger] led2.balances[c2]).dom().finite() by {
            if c2 == c {
                assert(led2.balances[c2] == col_balances(led, c).insert(who, v));
            }
        }
    }
}

/// The change a single balance write makes to a collection's sum.
proof fn lemma_sum_after_insert(led: LedgerView, c: u128, who: u128, v: u128)
    requires
        balances_finite(led),
    ensures
        sum_map(col_balances(led, c).insert(who, v)) == sum_map(col_balances(led, c)) + v
            - led.balance_at(c, who),
{
    crate::sums::lemma_sum_empty();
    lemma_sum_insert(col_balances(led, c), who, v);
    if map2_has(led.balances, c, who) {
        assert(col_balances(led, c).contains_key(who));
        assert(col_balances(led, c)[who] == led.balance_at(c, who));
    } else {
        if led.balances.contains_key(c) {
            assert(!col_balances(led, c).contains_key(who));
        }
        assert(led.balance_at(c, who) == 0);
    }
}

/// A non-fungible mint preserves supply consistency: the minted amount is
/// added to both the collection's total supply and the receiver's balance.
pub proof fn lemma_mint_non_fungible_preserves_supply(
    reg: Map<u128, CollectionInfoView>,
    led: LedgerView,
    receiver: AccountId,
    collection_id: u128,
    amount: u128,
    uri: Seq<u8>,
    reg2: Map<u128, CollectionInfoView>,
    led2: LedgerView,
    start_idx: u128,
    end_idx: u128,
)
    requires
        supply_consistent(reg, led),
        balances_finite(led),
        spec_mint_non_fungible(reg, led, receiver, collection_id, amount, uri) == Ok::<
            _,
            NftError,
        >((reg2, led2, start_idx, end_idx)),
    ensures
        supply_consistent(reg2, led2),
        balances_finite(led2),
{
    let v = (led.balance_at(collection_id, receiver) + amount) as u128;
    lemma_col_balances_insert(led, collection_id, receiver, v, led2);
    lemma_sum_after_insert(led, collection_id, receiver, v);
    assert forall|c: u128| reg2.contains_key(c) implies (#[trigger] reg2[c]).total_supply
        == sum_map(col_balances(led2, c)) by {
        if c != collection_id {
            assert(reg2[c] == reg[c]);
            assert(col_balances(led2, c) == col_balances(led, c));
        }
    }
}

/// A fungible mint preserves supply consistency.
pub proof fn lemma_mint_fungible_preserves_supply(
    reg: Map<u128, CollectionInfoView>,
    led: LedgerView,
    receiver: AccountId,
    collection_id: u128,
    amount: u128,
    reg2: Map<u128, CollectionInfoView>,
    led2: LedgerView,
)
    requires
        supply_consistent(reg, led),
        balances_finite(led),
        spec_mint_fungible(reg, led, receiver, collection_id, amount) == Ok::<_, NftError>(
            (reg2, led2),
        ),
    ensures
        supply_consistent(reg2, led2),
        balances_finite(led2),
{
    let v = (led.balance_at(collection_id, receiver) + amount) as u128;
    lemma_col_balances_insert(led, collection_id, receiver, v, led2);
    lemma_sum_after_insert(led, collection_id, receiver, v);
    assert forall|c: u128| reg2.contains_key(c) implies (#[trigger] reg2[c]).total_supply
        == sum_map(col_balances(led2, c)) by {
        if c != collection_id {
            assert(reg2[c] == reg[c]);
            assert(col_balances(led2, c) == col_balances(led, c));
        }
    }
}

/// The balance side of any transfer is supply-neutral: moving `amount` from
/// `who` to `receiver` keeps each collection's sum unchanged.
proof fn lemma_balances_moved_neutral(
    led: LedgerView,
    led2: LedgerView,
    collection_id: u128,
    who: AccountId,
    receiver: AccountId,
    amount: u128,
)
    requires
        balances_finite(led),
        who != receiver,
        led.balance_at(collection_id, who) >= amount,
        led.balance_at(collection_id, receiver) + amount <= u128::MAX,
        led2.balances == crate::nft::balances_moved(led, collection_id, who, receiver, amount),
    ensures
        balances_finite(led2),
        forall|c: u128| sum_map(col_balances(led2, c)) == sum_map(col_balances(led, c)),
{
    let vw = (led.balance_at(collection_id, who) - amount) as u128;
    let vr = (led.balance_at(collection_id, receiver) + amount) as u128;
    let mid = LedgerView {
        balances: map2_insert(led.balances, collection_id, who, vw),
        ..led
    };
    lemma_col_balances_insert(led, collection_id, who, vw, mid);
    lemma_sum_after_insert(led, collection_id, who, vw);
    assert(led2.balances == map2_insert(mid.balances, collection_id, receiver, vr));
    lemma_col_balances_insert(mid, collection_id, receiver, vr, led2);
    lemma_sum_after_insert(mid, collection_id, receiver, vr);
    assert(mid.balance_at(collection_id, receiver) == led.balance_at(collection_id, receiver));
    assert(led.balance_at(collection_id, who) > 0 ==> map2_has(
        led.balances,
        collection_id,
        who,
    ));
    assert forall|c: u128| sum_map(col_balances(led2, c)) == sum_map(
        col_balances(led, c),
    ) by {
        if c == collection_id {
            assert(sum_map(col_balances(mid, c)) == sum_map(col_balances(led, c)) + vw
                - led.balance_at(c, who));
            assert(sum_map(col_balances(led2, c)) == sum_map(col_balances(mid, c)) + vr
                - mid.balance_at(c, receiver));
        } else {
            assert(col_balances(led2, c) == col_balances(mid, c));
            assert(col_balances(mid, c) == col_balances(led, c));
        }
    }
}

/// A non-fungible transfer preserves supply consistency: it is supply-neutral.
pub proof fn lemma_transfer_non_fungible_preserves_supply(
    reg: Map<u128, CollectionInfoView>,
    led: LedgerView,
    who: AccountId,
    receiver: AccountId,
    collection_id: u128,
    start_idx: u128,
    amount: u128,
    led2: LedgerView,
)
    requires
        supply_consistent(reg, led),
        balances_finite(led),
        spec_transfer_non_fungible(reg, led, who, receiver, collection_id, start_idx, amount)
            == Ok::<_, NftError>(led2),
    ensures
        supply_consistent(reg, led2),
        balances_finite(led2),
        forall|c: u128| sum_map(col_balances(led2, c)) == sum_map(col_balances(led, c)),
{
    lemma_balances_moved_neutral(led, led2, collection_id, who, receiver, amount);
}

/// A fungible transfer preserves supply consistency.
pub proof fn lemma_transfer_fungible_preserves_supply(
    reg: Map<u128, CollectionInfoView>,
    led: LedgerView,
    who: AccountId,
    receiver: AccountId,
    collection_id: u128,
    amount: u128,
    led2: LedgerView,
)
    requires
        supply_consistent(reg, led),
        balances_finite(led),
        spec_transfer_fungible(reg, led, who, receiver, collection_id, amount) == Ok::<
            _,
            NftError,
        >(led2),
    ensures
        supply_consistent(reg, led2),
        balances_finite(led2),
        forall|c: u128| sum_map(col_balances(led2, c)) == sum_map(col_balances(led, c)),
{
    lemma_balances_moved_neutral(led, led2, collection_id, who, receiver, amount);
}

/// A non-fungible burn preserves supply consistency, and the burned counter
/// grows by exactly the burned amount.
pub proof fn lemma_burn_non_fungible_preserves_supply(
    reg: Map<u128, CollectionInfoView>,
    led: LedgerView,
    who: AccountId,
    collection_id: u128,
    start_idx: u128,
    amount: u128,
    reg2: Map<u128, CollectionInfoView>,
    led2: LedgerView,
)
    requires
        supply_consistent(reg, led),
        balances_finite(led),
        spec_burn_non_fungible(reg, led, who, collection_id, start_idx, amount) == Ok::<
            _,
            NftError,
        >((reg2, led2)),
    ensures
        supply_consistent(reg2, led2),
        balances_finite(led2),
        led2.burned_at(collection_id) == led.burned_at(collection_id) + amount,
{
    let vw = (led.balance_at(collection_id, who) - amount) as u128;
    lemma_col_balances_insert(led, collection_id, who, vw, led2);
    lemma_sum_after_insert(led, collection_id, who, vw);
    assert forall|c: u128| reg2.contains_key(c) implies (#[trigger] reg2[c]).total_supply
        == sum_map(col_balances(led2, c)) by {
        if c != collection_id {
            assert(reg2[c] == reg[c]);
            assert(col_balances(led2, c) == col_balances(led, c));
        }
    }
}

/// A fungible burn preserves supply consistency, and the burned counter grows
/// by exactly the burned amount.
pub proof fn lemma_burn_fungible_preserves_supply(
    reg: Map<u128, CollectionInfoView>,
    led: LedgerView,
    who: AccountId,
    collection_id: u128,
    amount: u128,
    reg2: Map<u128, CollectionInfoView>,
    led2: LedgerView,
)
    requires
        supply_consistent(reg, led),
        balances_finite(led),
        spec_burn_fungible(reg, led, who, collection_id, amount) == Ok::<_, NftError>(
            (reg2, led2),
        ),
    ensures
        supply_consistent(reg2, led2),
        balances_finite(led2),
        led2.burned_at(collection_id) == led.burned_at(collection_id) + amount,
{
    let vw = (led.balance_at(collection_id, who) - amount) as u128;
    lemma_col_balances_insert(led, collection_id, who, vw, led2);
    lemma_sum_after_insert(led, collection_id, who, vw);
    assert forall|c: u128| reg2.contains_key(c) implies (#[trigger] reg2[c]).total_supply
        == sum_map(col_balances(led2, c)) by {
        if c != collection_id {
            assert(reg2[c] == reg[c]);
            assert(col_balances(led2, c) == col_balances(led, c));
        }
    }
}

/// Registering a collection with zero supply preserves supply consistency,
/// provided the new id carries no stale balances (true whenever the derived
/// id is fresh; freshness itself rests on the hash).
pub proof fn lemma_create_collection_preserves_supply(
    reg: Map<u128, CollectionInfoView>,
    led: LedgerView,
    collection_id: u128,
    info: CollectionInfoView,
)
    requires
        supply_consistent(reg, led),
        balances_finite(led),
        info.total_supply == 0,
        sum_map(col_balances(led, collection_id)) == 0,
    ensures
        supply_consistent(reg.insert(collection_id, info), led),
{
}

/// Range split correctness: a successful transfer of `k` ids out of the range
/// `[s, e]` owned by `who` gives the tail `[e-k+1, e]` to the receiver, keeps
/// `[s, e-k]` for the original owner when anything remains, moves `k` units
/// of balance, touches no other record, and conserves the total id count.
pub proof fn lemma_transfer_splits_range(
    reg: Map<u128, CollectionInfoView>,
    led: LedgerView,
    who: AccountId,
    receiver: AccountId,
    collection_id: u128,
    start_idx: u128,
    amount: u128,
    led2: LedgerView,
)
    requires
        led.wf(),
        spec_transfer_non_fungible(reg, led, who, receiver, collection_id, start_idx, amount)
            == Ok::<_, NftError>(led2),
    ensures
        ({
            let e = led.token_at(collection_id, start_idx).end_idx;
            let moved_start = (e - amount + 1) as u128;
            &&& amount >= 1
            &&& led.has_token(collection_id, start_idx)
            &&& led.token_at(collection_id, start_idx).owner == who
            &&& amount <= e - start_idx + 1
            &&& led2.has_token(collection_id, moved_start)
            &&& led2.token_at(collection_id, moved_start).owner == receiver
            &&& led2.token_at(collection_id, moved_start).end_idx == e
            &&& (moved_start != start_idx ==> {
                &&& led2.has_token(collection_id, start_idx)
                &&& led2.token_at(collection_id, start_idx).owner == who
                &&& led2.token_at(collection_id, start_idx).end_idx == e - amount
            })
            &&& (moved_start == start_idx <==> amount == e - start_idx + 1)
            // the two residual ranges exactly cover the old one
            &&& (moved_start != start_idx ==> (e - amount - start_idx + 1) + (e - moved_start
                + 1) == e - start_idx + 1)
            // balances move by exactly `amount`
            &&& led2.balance_at(collection_id, who) == led.balance_at(collection_id, who)
                - amount
            &&& led2.balance_at(collection_id, receiver) == led.balance_at(
                collection_id,
                receiver,
            ) + amount
            // no other record of the collection is touched
            &&& forall|s2: u128|
                s2 != start_idx && s2 != moved_start ==> (led2.has_token(collection_id, s2)
                    == led.has_token(collection_id, s2) && (led.has_token(collection_id, s2)
                    ==> (#[trigger] led2.token_at(collection_id, s2)) == led.token_at(
                    collection_id,
                    s2,
                )))
        }),
{
    let e = led.token_at(collection_id, start_idx).end_idx;
    let moved_start = (e - amount + 1) as u128;
    if amount > 1 {
        assert(amount <= e - start_idx + 1);
    } else {
        assert(map2_get(led.tokens, collection_id, start_idx).end_idx >= start_idx);
    }
    assert(led.balance_at(collection_id, who) >= amount);
    assert(map2_has(led2.balances, collection_id, receiver));
    assert(map2_get(led2.balances, collection_id, receiver) == (led.balance_at(
        collection_id,
        receiver,
    ) + amount) as u128);
    assert(map2_has(led2.balances, collection_id, who));
    assert(map2_get(led2.balances, collection_id, who) == (led.balance_at(collection_id, who)
        - amount) as u128);
}


/// Order book conservation: buying `amount < order.amount` leaves the order
/// with exactly `order.amount - amount` tokens under an unchanged `start_idx`,
/// and when the custody record spanned exactly the order's amount, the record
/// after the sale spans exactly what is left, still keyed at `start_idx`.
pub proof fn lemma_buy_nft_order_bookkeeping(
    ex: ExchangeView,
    reg: Map<u128, CollectionInfoView>,
    led: LedgerView,
    cur: Map<u128, u128>,
    who: AccountId,
    order_id: u128,
    amount: u128,
    ex2: ExchangeView,
    led2: LedgerView,
    cur2: Map<u128, u128>,
)
    requires
        led.wf(),
        spec_buy_nft(ex, reg, led, cur, who, order_id, amount) == Ok::<_, ExchangeError>(
            (ex2, led2, cur2),
        ),
        amount < ex.orders[order_id].amount,
    ensures
        ({
            let order = ex.orders[order_id];
            &&& ex2.orders.contains_key(order_id)
            &&& ex2.orders[order_id].amount == order.amount - amount
            &&& ex2.orders[order_id].start_idx == order.start_idx
            &&& ex2.orders[order_id].seller == order.seller
            &&& ex2.orders[order_id].price == order.price
            &&& led2.has_token(order.collection_id, order.start_idx)
            &&& (led.token_at(order.collection_id, order.start_idx).end_idx == order.start_idx
                + order.amount - 1 ==> led2.token_at(
                order.collection_id,
                order.start_idx,
            ).end_idx == order.start_idx + (order.amount - amount) - 1)
        }),
{
    let order = ex.orders[order_id];
    let e = led.token_at(order.collection_id, order.start_idx).end_idx;
    assert(map2_get(led.tokens, order.collection_id, order.start_idx).end_idx >= order.start_idx);
    if amount > 1 {
        assert(amount <= e - order.start_idx + 1);
    }
}

/// Dilution guard: even with a yes majority, a proposal fails when the
/// dilution bound times the DAO's current total shares no longer exceeds the
/// largest total seen at a yes vote.
pub proof fn lemma_dilution_guard(
    dv: DaoView,
    reg: Map<u128, CollectionInfoView>,
    led: LedgerView,
    cur: Map<u128, u128>,
    who: AccountId,
    dao_account: AccountId,
    proposal_index: u128,
    now: u128,
    dv2: DaoView,
    led2: LedgerView,
    cur2: Map<u128, u128>,
    did_pass: bool,
)
    requires
        spec_process_proposal(dv, reg, led, cur, who, dao_account, proposal_index, now) == Ok::<
            _,
            DaoError,
        >((dv2, led2, cur2, did_pass)),
        ({
            let pid = map2_get(dv.proposal_queues, dao_account, proposal_index);
            let p = map2_get(dv.proposals, dao_account, pid);
            let dao = dv.daos[dao_account];
            dao.total_shares * dao.dilution_bound <= p.max_total_shares_at_yes_vote
        }),
    ensures
        did_pass == false,
{
}

/// Ragequit payout: burning `k` shares pays exactly
/// `floor(dao_balance * k / total_shares)` (multiplied before divided) and
/// reduces the DAO's total shares by exactly `k`.
pub proof fn lemma_ragequit_payout(
    dv: DaoView,
    cur: Map<u128, u128>,
    who: AccountId,
    dao_account: AccountId,
    shares_to_burn: u128,
    dv2: DaoView,
    cur2: Map<u128, u128>,
    payout: u128,
)
    requires
        spec_ragequit(dv, cur, who, dao_account, shares_to_burn) == Ok::<_, DaoError>(
            (dv2, cur2, payout),
        ),
    ensures
        ({
            let dao_balance = if cur.contains_key(dao_account) {
                cur[dao_account] as int
            } else {
                0
            };
            let total = dv.daos[dao_account].total_shares;
            &&& payout == dao_balance * shares_to_burn / (total as int)
            &&& dv2.daos[dao_account].total_shares == total - shares_to_burn
            &&& map2_get(dv2.members, dao_account, who).shares == map2_get(
                dv.members,
                dao_account,
                who,
            ).shares - shares_to_burn
        }),
{
}

/// Strict queue ordering: processing queue slot `i` fails with
/// `PrevProposalUnprocessed` while slot `i - 1`'s proposal is unprocessed,
/// whenever every earlier check would have let the call through.
pub proof fn lemma_strict_queue_order(
    dv: DaoView,
    reg: Map<u128, CollectionInfoView>,
    led: LedgerView,
    cur: Map<u128, u128>,
    who: AccountId,
    dao_account: AccountId,
    proposal_index: u128,
    now: u128,
)
    requires
        proposal_index != 0,
        dv.daos.contains_key(dao_account),
        map2_has(dv.proposal_queues, dao_account, proposal_index),
        map2_has(dv.proposals, dao_account, map2_get(
            dv.proposal_queues,
            dao_account,
            proposal_index,
        )),
        ({
            let dao = dv.daos[dao_account];
            let p = map2_get(dv.proposals, dao_account, map2_get(
                dv.proposal_queues,
                dao_account,
                proposal_index,
            ));
            &&& crate::dao::spec_current_period(dao, now) is Some
            &&& p.starting_period + dao.voting_period + dao.grace_period <= u128::MAX
            &&& crate::dao::spec_current_period(dao, now)->Some_0 >= p.starting_period
                + dao.voting_period + dao.grace_period
            &&& !p.processed
        }),
        map2_has(dv.proposals, dao_account, dv.queue_at(
            dao_account,
            (proposal_index - 1) as u128,
        )),
        !map2_get(dv.proposals, dao_account, dv.queue_at(
            dao_account,
            (proposal_index - 1) as u128,
        )).processed,
    ensures
        spec_process_proposal(dv, reg, led, cur, who, dao_account, proposal_index, now) == Err::<
            (DaoView, LedgerView, Map<u128, u128>, bool),
            DaoError,
        >(DaoError::PrevProposalUnprocessed),
{
}


/// Listing tokens for sale preserves supply consistency: the escrow movement
/// is an ordinary transfer into the exchange's custody account.
pub proof fn lemma_sell_nft_preserves_supply(
    ex: ExchangeView,
    reg: Map<u128, CollectionInfoView>,
    led: LedgerView,
    who: AccountId,
    collection_id: u128,
    token_id: u128,
    amount: u128,
    price: u128,
    ex2: ExchangeView,
    led2: LedgerView,
    order_id: u128,
)
    requires
        supply_consistent(reg, led),
        balances_finite(led),
        spec_sell_nft(ex, reg, led, who, collection_id, token_id, amount, price) == Ok::<
            _,
            ExchangeError,
        >((ex2, led2, order_id)),
    ensures
        supply_consistent(reg, led2),
        balances_finite(led2),
{
    lemma_transfer_non_fungible_preserves_supply(
        reg,
        led,
        who,
        EXCHANGE_ACCOUNT,
        collection_id,
        token_id,
        amount,
        led2,
    );
}

/// Buying from an order preserves supply consistency.
pub proof fn lemma_buy_nft_preserves_supply(
    ex: ExchangeView,
    reg: Map<u128, CollectionInfoView>,
    led: LedgerView,
    cur: Map<u128, u128>,
    who: AccountId,
    order_id: u128,
    amount: u128,
    ex2: ExchangeView,
    led2: LedgerView,
    cur2: Map<u128, u128>,
)
    requires
        supply_consistent(reg, led),
        balances_finite(led),
        spec_buy_nft(ex, reg, led, cur, who, order_id, amount) == Ok::<_, ExchangeError>(
            (ex2, led2, cur2),
        ),
    ensures
        supply_consistent(reg, led2),
        balances_finite(led2),
{
    let order = ex.orders[order_id];
    lemma_transfer_non_fungible_preserves_supply(
        reg,
        led,
        EXCHANGE_ACCOUNT,
        who,
        order.collection_id,
        order.start_idx,
        amount,
        led2,
    );
}

/// Cancelling an order preserves supply consistency.
pub proof fn lemma_cancel_nft_order_preserves_supply(
    ex: ExchangeView,
    reg: Map<u128, CollectionInfoView>,
    led: LedgerView,
    who: AccountId,
    order_id: u128,
    ex2: ExchangeView,
    led2: LedgerView,
)
    requires
        supply_consistent(reg, led),
        balances_finite(led),
        spec_cancel_nft_order(ex, reg, led, who, order_id) == Ok::<_, ExchangeError>((ex2, led2)),
    ensures
        supply_consistent(reg, led2),
        balances_finite(led2),
{
    let order = ex.orders[order_id];
    lemma_transfer_non_fungible_preserves_supply(
        reg,
        led,
        EXCHANGE_ACCOUNT,
        who,
        order.collection_id,
        order.start_idx,
        order.amount,
        led2,
    );
}

/// Opening a pool preserves supply consistency.
pub proof fn lemma_create_pool_preserves_supply(
    ex: ExchangeView,
    reg: Map<u128, CollectionInfoView>,
    led: LedgerView,
    who: AccountId,
    collection_id: u128,
    amount: u128,
    reverse_ratio: u128,
    m: u128,
    duration: u128,
    now: u128,
    ex2: ExchangeView,
    led2: LedgerView,
)
    requires
        supply_consistent(reg, led),
        balances_finite(led),
        spec_create_semi_token_pool(
            ex,
            reg,
            led,
            who,
            collection_id,
            amount,
            reverse_ratio,
            m,
            duration,
            now,
        ) == Ok::<_, ExchangeError>((ex2, led2)),
    ensures
        supply_consistent(reg, led2),
        balances_finite(led2),
{
    lemma_transfer_fungible_preserves_supply(
        reg,
        led,
        who,
        EXCHANGE_ACCOUNT,
        collection_id,
        amount,
        led2,
    );
}

/// Buying from a pool preserves supply consistency.
pub proof fn lemma_buy_semi_token_preserves_supply(
    ex: ExchangeView,
    reg: Map<u128, CollectionInfoView>,
    led: LedgerView,
    cur: Map<u128, u128>,
    who: AccountId,
    collection_id: u128,
    seller: AccountId,
    amount: u128,
    now: u128,
    ex2: ExchangeView,
    led2: LedgerView,
    cur2: Map<u128, u128>,
    cost: u128,
)
    requires
        supply_consistent(reg, led),
        balances_finite(led),
        spec_buy_semi_token(ex, reg, led, cur, who, collection_id, seller, amount, now) == Ok::<
            _,
            ExchangeError,
        >((ex2, led2, cur2, cost)),
    ensures
        supply_consistent(reg, led2),
        balances_finite(led2),
{
    lemma_transfer_fungible_preserves_supply(
        reg,
        led,
        EXCHANGE_ACCOUNT,
        who,
        collection_id,
        amount,
        led2,
    );
}

/// Selling into a pool preserves supply consistency.
pub proof fn lemma_sell_semi_token_preserves_supply(
    ex: ExchangeView,
    reg: Map<u128, CollectionInfoView>,
    led: LedgerView,
    cur: Map<u128, u128>,
    who: AccountId,
    collection_id: u128,
    seller: AccountId,
    amount: u128,
    now: u128,
    ex2: ExchangeView,
    led2: LedgerView,
    cur2: Map<u128, u128>,
    receive: u128,
)
    requires
        supply_consistent(reg, led),
        balances_finite(led),
        spec_sell_semi_token(ex, reg, led, cur, who, collection_id, seller, amount, now) == Ok::<
            _,
            ExchangeError,
        >((ex2, led2, cur2, receive)),
    ensures
        supply_consistent(reg, led2),
        balances_finite(led2),
{
    lemma_transfer_fungible_preserves_supply(
        reg,
        led,
        who,
        EXCHANGE_ACCOUNT,
        collection_id,
        amount,
        led2,
    );
}

/// Closing a pool preserves supply consistency.
pub proof fn lemma_withdraw_pool_preserves_supply(
    ex: ExchangeView,
    reg: Map<u128, CollectionInfoView>,
    led: LedgerView,
    cur: Map<u128, u128>,
    who: AccountId,
    collection_id: u128,
    now: u128,
    ex2: ExchangeView,
    led2: LedgerView,
    cur2: Map<u128, u128>,
)
    requires
        supply_consistent(reg, led),
        balances_finite(led),
        spec_withdraw_pool(ex, reg, led, cur, who, collection_id, now) == Ok::<_, ExchangeError>(
            (ex2, led2, cur2),
        ),
    ensures
        supply_consistent(reg, led2),
        balances_finite(led2),
{
    let pool = map2_get(ex.pools, collection_id, who);
    lemma_transfer_fungible_preserves_supply(
        reg,
        led,
        EXCHANGE_ACCOUNT,
        who,
        collection_id,
        pool.supply,
        led2,
    );
}

/// Submitting a proposal preserves supply consistency: the only ledger
/// movement is the optional tribute escrow transfer.
pub proof fn lemma_submit_proposal_preserves_supply(
    dv: DaoView,
    reg: Map<u128, CollectionInfoView>,
    led: LedgerView,
    cur: Map<u128, u128>,
    who: AccountId,
    dao_account: AccountId,
    applicant: AccountId,
    shares_requested: u128,
    tribute_offered: u128,
    tribute_nft: Option<(u128, u128)>,
    details: Seq<u8>,
    action: Option<Seq<u8>>,
    dv2: DaoView,
    led2: LedgerView,
    cur2: Map<u128, u128>,
    pid: u128,
)
    requires
        supply_consistent(reg, led),
        balances_finite(led),
        spec_submit_proposal(
            dv,
            reg,
            led,
            cur,
            who,
            dao_account,
            applicant,
            shares_requested,
            tribute_offered,
            tribute_nft,
            details,
            action,
        ) == Ok::<_, DaoError>((dv2, led2, cur2, pid)),
    ensures
        supply_consistent(reg, led2),
        balances_finite(led2),
{
    match tribute_nft {
        Some((cid, tid)) => {
            lemma_transfer_non_fungible_preserves_supply(
                reg,
                led,
                who,
                dv.escrow_at(dao_account),
                cid,
                tid,
                1,
                led2,
            );
        },
        None => {},
    }
}

/// Cancelling a proposal preserves supply consistency.
pub proof fn lemma_cancel_proposal_preserves_supply(
    dv: DaoView,
    reg: Map<u128, CollectionInfoView>,
    led: LedgerView,
    cur: Map<u128, u128>,
    who: AccountId,
    dao_account: AccountId,
    proposal_id: u128,
    dv2: DaoView,
    led2: LedgerView,
    cur2: Map<u128, u128>,
)
    requires
        supply_consistent(reg, led),
        balances_finite(led),
        spec_cancel_proposal(dv, reg, led, cur, who, dao_account, proposal_id) == Ok::<
            _,
            DaoError,
        >((dv2, led2, cur2)),
    ensures
        supply_consistent(reg, led2),
        balances_finite(led2),
{
    let p = map2_get(dv.proposals, dao_account, proposal_id);
    match p.tribute_nft {
        Some((cid, tid)) => {
            lemma_transfer_non_fungible_preserves_supply(
                reg,
                led,
                dv.escrow_at(dao_account),
                who,
                cid,
                tid,
                1,
                led2,
            );
        },
        None => {},
    }
}

/// Processing a proposal preserves supply consistency, whichever way it goes:
/// the only ledger movement is the tribute leaving escrow.
pub proof fn lemma_process_proposal_preserves_supply(
    dv: DaoView,
    reg: Map<u128, CollectionInfoView>,
    led: LedgerView,
    cur: Map<u128, u128>,
    who: AccountId,
    dao_account: AccountId,
    proposal_index: u128,
    now: u128,
    dv2: DaoView,
    led2: LedgerView,
    cur2: Map<u128, u128>,
    did_pass: bool,
)
    requires
        supply_consistent(reg, led),
        balances_finite(led),
        spec_process_proposal(dv, reg, led, cur, who, dao_account, proposal_index, now) == Ok::<
            _,
            DaoError,
        >((dv2, led2, cur2, did_pass)),
    ensures
        supply_consistent(reg, led2),
        balances_finite(led2),
{
    let pid = map2_get(dv.proposal_queues, dao_account, proposal_index);
    let p = map2_get(dv.proposals, dao_account, pid);
    let escrow = dv.escrow_at(dao_account);
    let recipient = if did_pass {
        dao_account
    } else {
        p.proposer
    };
    match p.tribute_nft {
        Some((cid, tid)) => {
            lemma_transfer_non_fungible_preserves_supply(
                reg,
                led,
                escrow,
                recipient,
                cid,
                tid,
                1,
                led2,
            );
        },
        None => {},
    }
}


/// Linking a token preserves supply consistency: at most one custody transfer
/// happens.
pub proof fn lemma_link_non_fungible_preserves_supply(
    g: GraphView,
    reg: Map<u128, CollectionInfoView>,
    led: LedgerView,
    who: AccountId,
    ccid: u128,
    ctid: u128,
    pcid: u128,
    ptid: u128,
    g2: GraphView,
    led2: LedgerView,
)
    requires
        supply_consistent(reg, led),
        balances_finite(led),
        spec_link_non_fungible(g, reg, led, who, ccid, ctid, pcid, ptid) == Ok::<_, GraphError>(
            (g2, led2),
        ),
    ensures
        supply_consistent(reg, led2),
        balances_finite(led2),
{
    if !map2_has(g.child_to_parent, ccid, ctid) {
        lemma_transfer_non_fungible_preserves_supply(
            reg,
            led,
            who,
            GRAPH_ACCOUNT,
            ccid,
            ctid,
            1,
            led2,
        );
    }
}

/// Attaching fungible tokens preserves supply consistency.
pub proof fn lemma_link_fungible_preserves_supply(
    g: GraphView,
    reg: Map<u128, CollectionInfoView>,
    led: LedgerView,
    who: AccountId,
    child_collection_id: Option<u128>,
    child_token_id: Option<u128>,
    fcid: u128,
    pcid: u128,
    ptid: u128,
    amount: u128,
    g2: GraphView,
    led2: LedgerView,
)
    requires
        supply_consistent(reg, led),
        balances_finite(led),
        spec_link_fungible(
            g,
            reg,
            led,
            who,
            child_collection_id,
            child_token_id,
            fcid,
            pcid,
            ptid,
            amount,
        ) == Ok::<_, GraphError>((g2, led2)),
    ensures
        supply_consistent(reg, led2),
        balances_finite(led2),
{
    if child_collection_id is None || child_token_id is None {
        lemma_transfer_fungible_preserves_supply(reg, led, who, GRAPH_ACCOUNT, fcid, amount, led2);
    }
}

/// Recovering a linked token preserves supply consistency.
pub proof fn lemma_recover_non_fungible_preserves_supply(
    g: GraphView,
    reg: Map<u128, CollectionInfoView>,
    led: LedgerView,
    who: AccountId,
    cid: u128,
    tid: u128,
    g2: GraphView,
    led2: LedgerView,
)
    requires
        supply_consistent(reg, led),
        balances_finite(led),
        spec_recover_non_fungible(g, reg, led, who, cid, tid) == Ok::<_, GraphError>((g2, led2)),
    ensures
        supply_consistent(reg, led2),
        balances_finite(led2),
{
    lemma_transfer_non_fungible_preserves_supply(reg, led, GRAPH_ACCOUNT, who, cid, tid, 1, led2);
}

/// Recovering attached fungible tokens preserves supply consistency.
pub proof fn lemma_recover_fungible_preserves_supply(
    g: GraphView,
    reg: Map<u128, CollectionInfoView>,
    led: LedgerView,
    who: AccountId,
    ccid: u128,
    ctid: u128,
    fcid: u128,
    amount: u128,
    g2: GraphView,
    led2: LedgerView,
)
    requires
        supply_consistent(reg, led),
        balances_finite(led),
        spec_recover_fungible(g, reg, led, who, ccid, ctid, fcid, amount) == Ok::<_, GraphError>(
            (g2, led2),
        ),
    ensures
        supply_consistent(reg, led2),
        balances_finite(led2),
{
    lemma_transfer_fungible_preserves_supply(reg, led, GRAPH_ACCOUNT, who, fcid, amount, led2);
}

/// Locking a token into the factory preserves supply consistency, provided
/// the freshly derived collection id carries no stale balances (true whenever
/// the hash-derived id is fresh).
pub proof fn lemma_sub_create_preserves_supply(
    sv: SubView,
    reg: Map<u128, CollectionInfoView>,
    reg_nonce: u128,
    led: LedgerView,
    who: AccountId,
    collection_id: u128,
    start_idx: u128,
    is_fungible: bool,
    seed: Seq<u8>,
    sv2: SubView,
    reg2: Map<u128, CollectionInfoView>,
    nonce2: u128,
    led2: LedgerView,
    sub_id: u128,
)
    requires
        supply_consistent(reg, led),
        balances_finite(led),
        spec_create(sv, reg, reg_nonce, led, who, collection_id, start_idx, is_fungible, seed)
            == Ok::<_, SubError>((sv2, reg2, nonce2, led2, sub_id)),
        sum_map(col_balances(led, sub_id)) == 0,
    ensures
        supply_consistent(reg2, led2),
        balances_finite(led2),
{
    lemma_transfer_non_fungible_preserves_supply(
        reg,
        led,
        who,
        SUB_ACCOUNT,
        collection_id,
        start_idx,
        1,
        led2,
    );
    assert(sum_map(col_balances(led2, sub_id)) == sum_map(col_balances(led, sub_id)));
    assert forall|c: u128| reg2.contains_key(c) implies (#[trigger] reg2[c]).total_supply
        == sum_map(col_balances(led2, c)) by {
        if c != sub_id {
            assert(reg2[c] == reg[c]);
        }
    }
}

/// Undoing the lock preserves supply consistency: the locked token returns,
/// the derivative records vanish, and removing registry entries or token
/// records touches no balance.
pub proof fn lemma_sub_recover_preserves_supply(
    sv: SubView,
    reg: Map<u128, CollectionInfoView>,
    led: LedgerView,
    who: AccountId,
    sub_token_collection_id: u128,
    sv2: SubView,
    reg2: Map<u128, CollectionInfoView>,
    led2: LedgerView,
)
    requires
        supply_consistent(reg, led),
        balances_finite(led),
        spec_recover(sv, reg, led, who, sub_token_collection_id) == Ok::<_, SubError>(
            (sv2, reg2, led2),
        ),
    ensures
        supply_consistent(reg2, led2),
        balances_finite(led2),
{
    let locked = sv.sub_tokens[sub_token_collection_id];
    let mid = spec_transfer_non_fungible(
        reg,
        led,
        SUB_ACCOUNT,
        who,
        locked.0,
        locked.1,
        1,
    )->Ok_0;
    lemma_transfer_non_fungible_preserves_supply(
        reg,
        led,
        SUB_ACCOUNT,
        who,
        locked.0,
        locked.1,
        1,
        mid,
    );
    assert(led2.balances == mid.balances);
    assert forall|c: u128| reg2.contains_key(c) implies (#[trigger] reg2[c]).total_supply
        == sum_map(col_balances(led2, c)) by {
        assert(reg2[c] == reg[c]);
        assert(col_balances(led2, c) == col_balances(mid, c));
    }
}

} // verus!
