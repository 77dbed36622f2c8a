//! The exchange: a fixed-price order book for non-fungible tokens, and
//! per-seller bonding-curve pools for fungible tokens priced by a Bancor-style
//! curve over 64.64 fixed-point arithmetic.
//!
//! With reserve ratio `r = reverse_ratio / 1000000`, pool balance `B` and
//! sold supply `S`:
//! buy cost is `ceil(round2(B * ((1 + amount/S)^(1/r) - 1)))`,
//! sell payout is `floor(B * (1 - (1 - amount/S)^(1/r)))`, and the first buy
//! (at `S == 0`) costs `ceil(round2(r * m * amount^(1/r)))`; `round2` rounds
//! to two decimal places. Buys round up and sells round down, always in the
//! pool's favour.

use vstd::prelude::*;
use crate::collection::{CollectionInfoView, CollectionRegistry};
use crate::currency::{spec_currency_transfer, Currency, CurrencyError};
use crate::fixmath::{
    fixed_pow, fx_checked_add, fx_checked_div, fx_checked_mul, fx_checked_sub, fx_ceil,
    fx_from_u128, fx_pow, fx_round, fx_to_u128, spec_ceil_nonneg, spec_from_u128,
    spec_round_nonneg, FIXED_ONE,
};
use crate::nft::{
    spec_transfer_fungible, spec_transfer_non_fungible, LedgerView, NftError, TokenLedger,
};
use crate::store::{map2_get, map2_has, map2_insert, map2_remove, PairTable, Table};
use crate::types::{AccountId, Balance, BlockNumber};

verus! {

/// The account that escrows listed tokens and pool assets.
pub const EXCHANGE_ACCOUNT: AccountId = 0x45786368616e6765;

/// One escrowed sell order: `amount` non-fungible tokens held by the
/// exchange, starting at `start_idx` of `collection_id`, priced per unit.
#[derive(Clone, Copy, PartialEq, Eq, Structural)]
pub struct NonFungibleOrderInfo {
    pub collection_id: u128,
    pub start_idx: u128,
    pub seller: AccountId,
    pub price: Balance,
    pub amount: u128,
}

/// One bonding-curve pool: `supply` unsold tokens in custody, `sold` tokens
/// outstanding, and the native-currency proceeds held as `pool_balance`.
#[derive(Clone, Copy, PartialEq, Eq, Structural)]
pub struct SemiFungiblePoolInfo {
    pub seller: AccountId,
    pub supply: u128,
    pub m: u128,
    pub sold: u128,
    pub reverse_ratio: u128,
    pub pool_balance: Balance,
    pub end_time: BlockNumber,
}

/// Errors of the exchange.
#[derive(Clone, Copy, Debug, PartialEq, Eq, Structural)]
pub enum ExchangeError {
    /// A checked arithmetic step failed.
    NumOverflow,
    /// The collection does not exist.
    CollectionNotFound,
    /// The token record does not exist.
    TokenNotFound,
    /// The order does not exist.
    OrderNotFound,
    /// The pool does not exist.
    PoolNotFound,
    /// Only one pool per collection and seller may exist.
    PoolExisted,
    /// The amount exceeds what is available.
    AmountTooLarge,
    /// An amount must be at least 1.
    AmountLessThanOne,
    /// The reverse ratio must be at least 1.
    ReverseRatioLessThanOne,
    /// The curve coefficient must be at least 1.
    MLessThanOne,
    /// The caller is not allowed to do this.
    PermissionDenied,
    /// The collection holds tokens of the other kind.
    WrongTokenType,
    /// The pool's sale window has closed.
    ExpiredSoldTime,
    /// The pool's sale window has not closed yet.
    CanNotWithdraw,
    /// The token ledger refused the escrow movement.
    Nft(NftError),
    /// The currency ledger refused the payment.
    Currency(CurrencyError),
}

/// The mathematical state of the exchange.
pub struct ExchangeView {
    pub next_order_id: u128,
    /// `order_id -> order`.
    pub orders: Map<u128, NonFungibleOrderInfo>,
    /// `(collection_id, seller) -> pool`.
    pub pools: Map<u128, Map<u128, SemiFungiblePoolInfo>>,
}

/// The exponent bits `1/r` that the curve raises to: `from(1000000)` divided
/// by `from(reverse_ratio)` in 64.64 fixed point.
pub open spec fn spec_exp_bits(reverse_ratio: u128) -> int {
    (1000000 * (FIXED_ONE as int) * (FIXED_ONE as int)) / ((reverse_ratio as int) * (
    FIXED_ONE as int))
}

/// What `pow` computes: `operand ^ (1000000 / reverse_ratio)`, passing the
/// operand through unchanged when the exponent is exactly one.
pub open spec fn spec_pow_rr(operand: i128, reverse_ratio: u128) -> Option<i128> {
    if reverse_ratio == 1000000 {
        Some(operand)
    } else if reverse_ratio >= 0x8000000000000000 {
        None
    } else if reverse_ratio == 0 {
        None
    } else if spec_exp_bits(reverse_ratio) > i128::MAX {
        None
    } else {
        fixed_pow(operand, spec_exp_bits(reverse_ratio) as i128)
    }
}

/// What `to_fixed2` computes on non-negative bits: the value rounded to the
/// nearest hundredth (multiply by 100, round to nearest, divide by 100).
pub open spec fn spec_to_fixed2(a: int) -> Option<int>
    recommends
        a >= 0,
{
    let p = a * 100;
    if p > i128::MAX {
        None
    } else if spec_round_nonneg(p) > i128::MAX {
        None
    } else {
        Some(spec_round_nonneg(p) / 100)
    }
}

/// What `first_buy_cost` computes: `ceil(round2(r * m * amount^(1/r)))` with
/// `r = reverse_ratio / 1000000`, or `None` when a fixed-point step leaves
/// the representable range (a negative curve value is treated the same way).
pub open spec fn spec_first_buy_cost(reverse_ratio: u128, m: u128, amount: u128) -> Option<u128> {
    match (spec_from_u128(m), spec_from_u128(amount), spec_from_u128(reverse_ratio)) {
        (Some(m_bits), Some(amount_bits), Some(rr_bits)) => {
            let r_bits = (rr_bits as int) * (FIXED_ONE as int) / (1000000 * (FIXED_ONE as int));
            if r_bits > i128::MAX {
                None
            } else if reverse_ratio == 0 || spec_exp_bits(reverse_ratio) > i128::MAX {
                None
            } else {
                match fixed_pow(amount_bits, spec_exp_bits(reverse_ratio) as i128) {
                    Some(operand) => {
                        let om = (operand as int) * (m_bits as int) / (FIXED_ONE as int);
                        if !(i128::MIN <= om <= i128::MAX) {
                            None
                        } else {
                            let p = om * r_bits / (FIXED_ONE as int);
                            if !(i128::MIN <= p <= i128::MAX) {
                                None
                            } else if p < 0 {
                                None
                            } else {
                                spec_cost_units(p)
                            }
                        }
                    },
                    None => None,
                }
            }
        },
        _ => None,
    }
}

/// Rounds non-negative bits to two decimals, takes the ceiling, and returns
/// whole currency units.
pub open spec fn spec_cost_units(p: int) -> Option<u128>
    recommends
        0 <= p <= i128::MAX,
{
    match spec_to_fixed2(p) {
        Some(t) => {
            if spec_ceil_nonneg(t) > i128::MAX {
                None
            } else {
                Some((spec_ceil_nonneg(t) / (FIXED_ONE as int)) as u128)
            }
        },
        None => None,
    }
}


/// The provable half of the round-trip bound: for the same raw curve value,
/// the buy side's rounding (`round2` then ceiling) never falls below the
/// plain truncation that the sell side pays out, so rounding always favours
/// the pool.
pub proof fn lemma_cost_units_at_least_truncation(p: int)
    requires
        0 <= p <= i128::MAX,
        spec_cost_units(p) is Some,
    ensures
        spec_cost_units(p)->Some_0 >= p / (FIXED_ONE as int),
{
    let one = FIXED_ONE as int;
    let k = p / one;
    let x = p * 100;
    let r = spec_round_nonneg(x);
    let t = spec_to_fixed2(p)->Some_0;
    let c = spec_ceil_nonneg(t);
    assert(x >= 0 && k >= 0) by (nonlinear_arith)
        requires
            p >= 0,
            k == p / one,
            x == p * 100,
            one > 0,
    ;
    // the rounded value never drops below the largest multiple of one in x,
    // and that multiple is at least 100 * k * one
    let f = x % one;
    assert(r >= x - f);
    assert(x - f >= 100 * k * one) by (nonlinear_arith)
        requires
            x == p * 100,
            k == p / one,
            f == x % one,
            one == FIXED_ONE as int,
            p >= 0,
    ;
    // dividing back by 100 keeps the bound
    assert(t == r / 100);
    vstd::arithmetic::div_mod::lemma_div_is_ordered(100 * (k * one), r, 100);
    vstd::arithmetic::div_mod::lemma_div_multiples_vanish(k * one, 100);
    assert(100 * (k * one) == 100 * k * one) by (nonlinear_arith);
    assert(t >= k * one);
    // the ceiling only goes up, and the final division keeps the bound again
    assert(c >= t);
    assert(t >= 0);
    vstd::arithmetic::div_mod::lemma_div_is_ordered(k * one, c, one);
    vstd::arithmetic::div_mod::lemma_div_multiples_vanish(k, one);
    assert(one * k == k * one) by (nonlinear_arith);
    assert(c / one >= k);
}

/// What `buy_cost` computes: `ceil(round2(B * ((1 + amount/S)^(1/r) - 1)))`.
pub open spec fn spec_buy_cost(
    pool_balance: Balance,
    amount: u128,
    total_supply: u128,
    reverse_ratio: u128,
) -> Option<u128> {
    match (spec_from_u128(amount), spec_from_u128(total_supply), spec_from_u128(pool_balance)) {
        (Some(amount_bits), Some(total_bits), Some(pb_bits)) => {
            if total_supply == 0 {
                None
            } else {
                let operand = (amount_bits as int) * (FIXED_ONE as int) / (total_bits as int);
                if operand > i128::MAX || operand + FIXED_ONE > i128::MAX {
                    None
                } else {
                    match spec_pow_rr((operand + FIXED_ONE) as i128, reverse_ratio) {
                        Some(powed) => {
                            if powed - FIXED_ONE < i128::MIN {
                                None
                            } else {
                            let diff = powed - FIXED_ONE;
                            let p = (pb_bits as int) * diff / (FIXED_ONE as int);
                            if !(i128::MIN <= p <= i128::MAX) {
                                None
                            } else if p < 0 {
                                None
                            } else {
                                spec_cost_units(p)
                            }
                            }
                        },
                        None => None,
                    }
                }
            }
        },
        _ => None,
    }
}

/// What `sell_receive` computes: `floor(B * (1 - (1 - amount/S)^(1/r)))`,
/// with plain truncation and no upward rounding.
pub open spec fn spec_sell_receive(
    pool_balance: Balance,
    amount: u128,
    total_supply: u128,
    reverse_ratio: u128,
) -> Option<u128> {
    match (spec_from_u128(amount), spec_from_u128(total_supply), spec_from_u128(pool_balance)) {
        (Some(amount_bits), Some(total_bits), Some(pb_bits)) => {
            if total_supply == 0 {
                None
            } else {
                let operand = (amount_bits as int) * (FIXED_ONE as int) / (total_bits as int);
                if operand > i128::MAX || FIXED_ONE - operand < i128::MIN {
                    None
                } else {
                    match spec_pow_rr((FIXED_ONE - operand) as i128, reverse_ratio) {
                        Some(powed) => {
                            if FIXED_ONE - powed > i128::MAX {
                                None
                            } else {
                                let diff = FIXED_ONE - powed;
                                let p = (pb_bits as int) * diff / (FIXED_ONE as int);
                                if !(i128::MIN <= p <= i128::MAX) {
                                    None
                                } else if p < 0 {
                                    None
                                } else {
                                    Some((p / (FIXED_ONE as int)) as u128)
                                }
                            }
                        },
                        None => None,
                    }
                }
            }
        },
        _ => None,
    }
}


/// What `sell_nft` does: the listed slice moves into exchange custody (the
/// tail of the seller's range), and a new order records where the escrowed
/// tokens now sit.
pub open spec fn spec_sell_nft(
    ex: ExchangeView,
    reg: Map<u128, CollectionInfoView>,
    led: LedgerView,
    who: AccountId,
    collection_id: u128,
    token_id: u128,
    amount: u128,
    price: Balance,
) -> Result<(ExchangeView, LedgerView, u128), ExchangeError> {
    if !led.has_token(collection_id, token_id) {
        Err(ExchangeError::TokenNotFound)
    } else if led.token_at(collection_id, token_id).owner != who {
        Err(ExchangeError::PermissionDenied)
    } else if ex.next_order_id == u128::MAX {
        Err(ExchangeError::NumOverflow)
    } else {
        match spec_transfer_non_fungible(
            reg,
            led,
            who,
            EXCHANGE_ACCOUNT,
            collection_id,
            token_id,
            amount,
        ) {
            Err(e) => Err(ExchangeError::Nft(e)),
            Ok(led2) => {
                let order_start = (led.token_at(collection_id, token_id).end_idx - amount
                    + 1) as u128;
                let order = NonFungibleOrderInfo {
                    collection_id,
                    start_idx: order_start,
                    seller: who,
                    price,
                    amount,
                };
                let ex2 = ExchangeView {
                    next_order_id: (ex.next_order_id + 1) as u128,
                    orders: ex.orders.insert(ex.next_order_id, order),
                    pools: ex.pools,
                };
                Ok((ex2, led2, ex.next_order_id))
            },
        }
    }
}

/// What `buy_nft` does: the buyer pays `price * amount` to the seller, the
/// tail of the escrowed range moves to the buyer, and the order shrinks by
/// `amount` (and is deleted at zero) while keeping its `start_idx`, which
/// stays the key of the custody record holding the unsold low part.
pub open spec fn spec_buy_nft(
    ex: ExchangeView,
    reg: Map<u128, CollectionInfoView>,
    led: LedgerView,
    cur: Map<u128, u128>,
    who: AccountId,
    order_id: u128,
    amount: u128,
) -> Result<(ExchangeView, LedgerView, Map<u128, u128>), ExchangeError> {
    if amount < 1 {
        Err(ExchangeError::AmountLessThanOne)
    } else if !ex.orders.contains_key(order_id) {
        Err(ExchangeError::OrderNotFound)
    } else {
        let order = ex.orders[order_id];
        if order.amount < amount {
            Err(ExchangeError::AmountTooLarge)
        } else if order.price * amount > u128::MAX {
            Err(ExchangeError::NumOverflow)
        } else {
            let cost = (order.price * amount) as u128;
            match spec_currency_transfer(cur, who, order.seller, cost) {
                Err(e) => Err(ExchangeError::Currency(e)),
                Ok(cur2) => match spec_transfer_non_fungible(
                    reg,
                    led,
                    EXCHANGE_ACCOUNT,
                    who,
                    order.collection_id,
                    order.start_idx,
                    amount,
                ) {
                    Err(e) => Err(ExchangeError::Nft(e)),
                    Ok(led2) => {
                        let left = (order.amount - amount) as u128;
                        let ex2 = if left == 0 {
                            ExchangeView { orders: ex.orders.remove(order_id), ..ex }
                        } else {
                            ExchangeView {
                                orders: ex.orders.insert(
                                    order_id,
                                    NonFungibleOrderInfo { amount: left, ..order },
                                ),
                                ..ex
                            }
                        };
                        Ok((ex2, led2, cur2))
                    },
                },
            }
        }
    }
}

/// What `cancel_nft_order` does: the escrowed tokens go back to the seller
/// and the order is deleted.
pub open spec fn spec_cancel_nft_order(
    ex: ExchangeView,
    reg: Map<u128, CollectionInfoView>,
    led: LedgerView,
    who: AccountId,
    order_id: u128,
) -> Result<(ExchangeView, LedgerView), ExchangeError> {
    if !ex.orders.contains_key(order_id) {
        Err(ExchangeError::OrderNotFound)
    } else {
        let order = ex.orders[order_id];
        if order.seller != who {
            Err(ExchangeError::PermissionDenied)
        } else {
            match spec_transfer_non_fungible(
                reg,
                led,
                EXCHANGE_ACCOUNT,
                who,
                order.collection_id,
                order.start_idx,
                order.amount,
            ) {
                Err(e) => Err(ExchangeError::Nft(e)),
                Ok(led2) => Ok(
                    (ExchangeView { orders: ex.orders.remove(order_id), ..ex }, led2),
                ),
            }
        }
    }
}

/// What `create_semi_token_pool` does: the deposited tokens move into
/// exchange custody and a pool opens with zero sold supply and balance.
pub open spec fn spec_create_semi_token_pool(
    ex: ExchangeView,
    reg: Map<u128, CollectionInfoView>,
    led: LedgerView,
    who: AccountId,
    collection_id: u128,
    amount: u128,
    reverse_ratio: u128,
    m: u128,
    duration: BlockNumber,
    now: BlockNumber,
) -> Result<(ExchangeView, LedgerView), ExchangeError> {
    if reverse_ratio < 1 {
        Err(ExchangeError::ReverseRatioLessThanOne)
    } else if m < 1 {
        Err(ExchangeError::MLessThanOne)
    } else if amount < 1 {
        Err(ExchangeError::AmountLessThanOne)
    } else if map2_has(ex.pools, collection_id, who) {
        Err(ExchangeError::PoolExisted)
    } else if !reg.contains_key(collection_id) {
        Err(ExchangeError::CollectionNotFound)
    } else if led.balance_at(collection_id, who) < amount {
        Err(ExchangeError::AmountTooLarge)
    } else if !crate::nft::ft_type_ok(reg[collection_id]) {
        Err(ExchangeError::WrongTokenType)
    } else if now + duration > u128::MAX {
        Err(ExchangeError::NumOverflow)
    } else {
        match spec_transfer_fungible(reg, led, who, EXCHANGE_ACCOUNT, collection_id, amount) {
            Err(e) => Err(ExchangeError::Nft(e)),
            Ok(led2) => {
                let pool = SemiFungiblePoolInfo {
                    seller: who,
                    supply: amount,
                    m,
                    sold: 0,
                    reverse_ratio,
                    pool_balance: 0,
                    end_time: (now + duration) as u128,
                };
                Ok(
                    (
                        ExchangeView {
                            pools: map2_insert(ex.pools, collection_id, who, pool),
                            ..ex
                        },
                        led2,
                    ),
                )
            },
        }
    }
}

/// What `buy_semi_token` does: the cost comes off the bonding curve (the
/// first-buy formula at zero sold supply), the buyer pays the exchange, and
/// the tokens leave custody; `sold`, `supply` and `pool_balance` move in
/// lockstep.
pub open spec fn spec_buy_semi_token(
    ex: ExchangeView,
    reg: Map<u128, CollectionInfoView>,
    led: LedgerView,
    cur: Map<u128, u128>,
    who: AccountId,
    collection_id: u128,
    seller: AccountId,
    amount: u128,
    now: BlockNumber,
) -> Result<(ExchangeView, LedgerView, Map<u128, u128>, Balance), ExchangeError> {
    if !map2_has(ex.pools, collection_id, seller) {
        Err(ExchangeError::PoolNotFound)
    } else {
        let pool = map2_get(ex.pools, collection_id, seller);
        if amount > pool.supply {
            Err(ExchangeError::AmountTooLarge)
        } else if now > pool.end_time {
            Err(ExchangeError::ExpiredSoldTime)
        } else {
            let cost_opt = if pool.sold == 0 {
                spec_first_buy_cost(pool.reverse_ratio, pool.m, amount)
            } else {
                spec_buy_cost(pool.pool_balance, amount, pool.sold, pool.reverse_ratio)
            };
            match cost_opt {
                None => Err(ExchangeError::NumOverflow),
                Some(cost) => {
                    if pool.sold + amount > u128::MAX {
                        Err(ExchangeError::NumOverflow)
                    } else if pool.pool_balance + cost > u128::MAX {
                        Err(ExchangeError::NumOverflow)
                    } else {
                        match spec_currency_transfer(cur, who, EXCHANGE_ACCOUNT, cost) {
                            Err(e) => Err(ExchangeError::Currency(e)),
                            Ok(cur2) => match spec_transfer_fungible(
                                reg,
                                led,
                                EXCHANGE_ACCOUNT,
                                who,
                                collection_id,
                                amount,
                            ) {
                                Err(e) => Err(ExchangeError::Nft(e)),
                                Ok(led2) => {
                                    let pool2 = SemiFungiblePoolInfo {
                                        sold: (pool.sold + amount) as u128,
                                        supply: (pool.supply - amount) as u128,
                                        pool_balance: (pool.pool_balance + cost) as u128,
                                        ..pool
                                    };
                                    let ex2 = ExchangeView {
                                        pools: map2_insert(
                                            ex.pools,
                                            collection_id,
                                            seller,
                                            pool2,
                                        ),
                                        ..ex
                                    };
                                    Ok((ex2, led2, cur2, cost))
                                },
                            },
                        }
                    }
                },
            }
        }
    }
}

/// What `sell_semi_token` does: the payout comes off the curve with plain
/// truncation, the tokens return to custody, and the exchange pays the
/// seller; the payout is never capped against the pool balance beyond the
/// checked subtraction.
pub open spec fn spec_sell_semi_token(
    ex: ExchangeView,
    reg: Map<u128, CollectionInfoView>,
    led: LedgerView,
    cur: Map<u128, u128>,
    who: AccountId,
    collection_id: u128,
    seller: AccountId,
    amount: u128,
    now: BlockNumber,
) -> Result<(ExchangeView, LedgerView, Map<u128, u128>, Balance), ExchangeError> {
    if !map2_has(ex.pools, collection_id, seller) {
        Err(ExchangeError::PoolNotFound)
    } else {
        let pool = map2_get(ex.pools, collection_id, seller);
        if amount < 1 {
            Err(ExchangeError::AmountLessThanOne)
        } else if pool.sold < amount {
            Err(ExchangeError::AmountTooLarge)
        } else if now > pool.end_time {
            Err(ExchangeError::ExpiredSoldTime)
        } else {
            match spec_sell_receive(pool.pool_balance, amount, pool.sold, pool.reverse_ratio) {
                None => Err(ExchangeError::NumOverflow),
                Some(receive) => {
                    if pool.pool_balance < receive {
                        Err(ExchangeError::NumOverflow)
                    } else if pool.supply + amount > u128::MAX {
                        Err(ExchangeError::NumOverflow)
                    } else {
                        match spec_transfer_fungible(
                            reg,
                            led,
                            who,
                            EXCHANGE_ACCOUNT,
                            collection_id,
                            amount,
                        ) {
                            Err(e) => Err(ExchangeError::Nft(e)),
                            Ok(led2) => match spec_currency_transfer(
                                cur,
                                EXCHANGE_ACCOUNT,
                                who,
                                receive,
                            ) {
                                Err(e) => Err(ExchangeError::Currency(e)),
                                Ok(cur2) => {
                                    let pool2 = SemiFungiblePoolInfo {
                                        sold: (pool.sold - amount) as u128,
                                        supply: (pool.supply + amount) as u128,
                                        pool_balance: (pool.pool_balance - receive) as u128,
                                        ..pool
                                    };
                                    let ex2 = ExchangeView {
                                        pools: map2_insert(
                                            ex.pools,
                                            collection_id,
                                            seller,
                                            pool2,
                                        ),
                                        ..ex
                                    };
                                    Ok((ex2, led2, cur2, receive))
                                },
                            },
                        }
                    }
                },
            }
        }
    }
}

/// What `withdraw_pool` does: once the sale window has passed, the creator
/// takes back the unsold tokens and the proceeds, and the pool is deleted.
pub open spec fn spec_withdraw_pool(
    ex: ExchangeView,
    reg: Map<u128, CollectionInfoView>,
    led: LedgerView,
    cur: Map<u128, u128>,
    who: AccountId,
    collection_id: u128,
    now: BlockNumber,
) -> Result<(ExchangeView, LedgerView, Map<u128, u128>), ExchangeError> {
    if !map2_has(ex.pools, collection_id, who) {
        Err(ExchangeError::PoolNotFound)
    } else {
        let pool = map2_get(ex.pools, collection_id, who);
        if pool.seller != who {
            Err(ExchangeError::PermissionDenied)
        } else if now <= pool.end_time {
            Err(ExchangeError::CanNotWithdraw)
        } else {
            match spec_transfer_fungible(
                reg,
                led,
                EXCHANGE_ACCOUNT,
                who,
                collection_id,
                pool.supply,
            ) {
                Err(e) => Err(ExchangeError::Nft(e)),
                Ok(led2) => match spec_currency_transfer(
                    cur,
                    EXCHANGE_ACCOUNT,
                    who,
                    pool.pool_balance,
                ) {
                    Err(e) => Err(ExchangeError::Currency(e)),
                    Ok(cur2) => Ok(
                        (
                            ExchangeView {
                                pools: map2_remove(ex.pools, collection_id, who),
                                ..ex
                            },
                            led2,
                            cur2,
                        ),
                    ),
                },
            }
        }
    }
}

/// The exchange's stored state.
pub struct Exchange {
    next_order_id: u128,
    orders: Table<NonFungibleOrderInfo>,
    pools: PairTable<SemiFungiblePoolInfo>,
}

impl View for Exchange {
    type V = ExchangeView;

    closed spec fn view(&self) -> ExchangeView {
        ExchangeView {
            next_order_id: self.next_order_id,
            orders: self.orders@,
            pools: self.pools@,
        }
    }
}

impl Exchange {
    pub fn new() -> (r: Self)
        ensures
            r@.next_order_id == 0,
            r@.orders == Map::<u128, NonFungibleOrderInfo>::empty(),
            r@.pools == Map::<u128, Map<u128, SemiFungiblePoolInfo>>::empty(),
    {
        Exchange { next_order_id: 0, orders: Table::new(), pools: PairTable::new() }
    }

    /// The exchange's custody account.
    pub fn account_id() -> (r: AccountId)
        ensures
            r == EXCHANGE_ACCOUNT,
    {
        EXCHANGE_ACCOUNT
    }

    /// The id the next order will get.
    pub fn next_nft_order_id(&self) -> (r: u128)
        ensures
            r == self@.next_order_id,
    {
        self.next_order_id
    }

    /// The order with this id, if any.
    pub fn nft_order(&self, order_id: u128) -> (r: Option<&NonFungibleOrderInfo>)
        ensures
            match r {
                Some(o) => self@.orders.contains_key(order_id) && *o == self@.orders[order_id],
                None => !self@.orders.contains_key(order_id),
            },
    {
        self.orders.get(order_id)
    }

    /// The pool of `(collection_id, seller)`, if any.
    pub fn semi_fungible_pool(&self, collection_id: u128, seller: AccountId) -> (r: Option<
        &SemiFungiblePoolInfo,
    >)
        ensures
            match r {
                Some(p) => map2_has(self@.pools, collection_id, seller) && *p == map2_get(
                    self@.pools,
                    collection_id,
                    seller,
                ),
                None => !map2_has(self@.pools, collection_id, seller),
            },
    {
        self.pools.get(collection_id, seller)
    }

    /// `operand ^ (1000000 / reverse_ratio)` in 64.64 fixed point; the
    /// operand passes through unchanged when the exponent is exactly one.
    pub fn pow(operand: i128, reverse_ratio: u128) -> (r: Result<i128, ExchangeError>)
        ensures
            match r {
                Ok(v) => spec_pow_rr(operand, reverse_ratio) == Some(v),
                Err(e) => e == ExchangeError::NumOverflow && spec_pow_rr(operand, reverse_ratio)
                    is None,
            },
    {
        if reverse_ratio == 1000000 {
            return Ok(operand);
        }
        let mw = match fx_from_u128(1000000) {
            Some(v) => v,
            None => {
                return Err(ExchangeError::NumOverflow);
            },
        };
        let rrb = match fx_from_u128(reverse_ratio) {
            Some(v) => v,
            None => {
                return Err(ExchangeError::NumOverflow);
            },
        };
        let exp = match fx_checked_div(mw, rrb) {
            Some(v) => v,
            None => {
                return Err(ExchangeError::NumOverflow);
            },
        };
        match fx_pow(operand, exp) {
            Some(v) => Ok(v),
            None => Err(ExchangeError::NumOverflow),
        }
    }

    /// Keeps two decimal places: multiplies by 100, rounds to the nearest
    /// whole value, divides by 100.
    fn to_fixed2(operand: i128) -> (r: Result<i128, ExchangeError>)
        requires
            operand >= 0,
        ensures
            match r {
                Ok(v) => spec_to_fixed2(operand as int) == Some(v as int) && v >= 0,
                Err(e) => e == ExchangeError::NumOverflow && spec_to_fixed2(operand as int)
                    is None,
            },
    {
        let hundred: i128 = 100 * FIXED_ONE;
        let p = match fx_checked_mul(operand, hundred) {
            Some(v) => v,
            None => {
                return Err(ExchangeError::NumOverflow);
            },
        };
        proof {
            let a = operand as int;
            let f = FIXED_ONE as int;
            vstd::arithmetic::div_mod::lemma_div_multiples_vanish(a * 100, f);
            assert(a * (hundred as int) == f * (a * 100)) by (nonlinear_arith)
                requires
                    hundred == 100 * FIXED_ONE,
                    f == FIXED_ONE as int,
            ;
        }
        let rounded = match fx_round(p) {
            Some(v) => v,
            None => {
                return Err(ExchangeError::NumOverflow);
            },
        };
        Ok(rounded / 100)
    }

    /// The cost of the first purchase from a pool, where the curve integral
    /// is undefined at zero supply: `ceil(round2(r * m * amount^(1/r)))`.
    pub fn first_buy_cost(reverse_ratio: u128, m: u128, amount: u128) -> (r: Result<
        u128,
        ExchangeError,
    >)
        ensures
            match r {
                Ok(v) => spec_first_buy_cost(reverse_ratio, m, amount) == Some(v),
                Err(e) => e == ExchangeError::NumOverflow && spec_first_buy_cost(
                    reverse_ratio,
                    m,
                    amount,
                ) is None,
            },
    {
        let m_bits = match fx_from_u128(m) {
            Some(v) => v,
            None => {
                return Err(ExchangeError::NumOverflow);
            },
        };
        let amount_bits = match fx_from_u128(amount) {
            Some(v) => v,
            None => {
                return Err(ExchangeError::NumOverflow);
            },
        };
        let rr_bits = match fx_from_u128(reverse_ratio) {
            Some(v) => v,
            None => {
                return Err(ExchangeError::NumOverflow);
            },
        };
        let mw: i128 = 1000000 * FIXED_ONE;
        let r_bits = match fx_checked_div(rr_bits, mw) {
            Some(v) => v,
            None => {
                return Err(ExchangeError::NumOverflow);
            },
        };
        let exp = match fx_checked_div(mw, rr_bits) {
            Some(v) => v,
            None => {
                return Err(ExchangeError::NumOverflow);
            },
        };
        let operand = match fx_pow(amount_bits, exp) {
            Some(v) => v,
            None => {
                return Err(ExchangeError::NumOverflow);
            },
        };
        let om = match fx_checked_mul(operand, m_bits) {
            Some(v) => v,
            None => {
                return Err(ExchangeError::NumOverflow);
            },
        };
        let p = match fx_checked_mul(om, r_bits) {
            Some(v) => v,
            None => {
                return Err(ExchangeError::NumOverflow);
            },
        };
        if p < 0 {
            return Err(ExchangeError::NumOverflow);
        }
        Self::cost_units(p)
    }

    /// Rounds a non-negative curve value to two decimals, takes the ceiling,
    /// and returns whole currency units.
    fn cost_units(p: i128) -> (r: Result<u128, ExchangeError>)
        requires
            p >= 0,
        ensures
            match r {
                Ok(v) => spec_cost_units(p as int) == Some(v),
                Err(e) => e == ExchangeError::NumOverflow && spec_cost_units(p as int) is None,
            },
    {
        let t = match Self::to_fixed2(p) {
            Ok(v) => v,
            Err(e) => {
                return Err(e);
            },
        };
        let c = match fx_ceil(t) {
            Some(v) => v,
            None => {
                return Err(ExchangeError::NumOverflow);
            },
        };
        match fx_to_u128(c) {
            Some(v) => Ok(v),
            None => Err(ExchangeError::NumOverflow),
        }
    }

    /// The price of buying `amount` from a pool with balance `pool_balance`
    /// and sold supply `total_supply`.
    pub fn buy_cost(
        pool_balance: Balance,
        amount: u128,
        total_supply: u128,
        reverse_ratio: u128,
    ) -> (r: Result<u128, ExchangeError>)
        ensures
            match r {
                Ok(v) => spec_buy_cost(pool_balance, amount, total_supply, reverse_ratio) == Some(
                    v,
                ),
                Err(e) => e == ExchangeError::NumOverflow && spec_buy_cost(
                    pool_balance,
                    amount,
                    total_supply,
                    reverse_ratio,
                ) is None,
            },
    {
        let amount_bits = match fx_from_u128(amount) {
            Some(v) => v,
            None => {
                return Err(ExchangeError::NumOverflow);
            },
        };
        let total_bits = match fx_from_u128(total_supply) {
            Some(v) => v,
            None => {
                return Err(ExchangeError::NumOverflow);
            },
        };
        let pb_bits = match fx_from_u128(pool_balance) {
            Some(v) => v,
            None => {
                return Err(ExchangeError::NumOverflow);
            },
        };
        let operand = match fx_checked_div(amount_bits, total_bits) {
            Some(v) => v,
            None => {
                return Err(ExchangeError::NumOverflow);
            },
        };
        let operand1 = match fx_checked_add(operand, FIXED_ONE) {
            Some(v) => v,
            None => {
                return Err(ExchangeError::NumOverflow);
            },
        };
        let powed = match Self::pow(operand1, reverse_ratio) {
            Ok(v) => v,
            Err(e) => {
                return Err(e);
            },
        };
        let diff = match fx_checked_sub(powed, FIXED_ONE) {
            Some(v) => v,
            None => {
                return Err(ExchangeError::NumOverflow);
            },
        };
        let p = match fx_checked_mul(pb_bits, diff) {
            Some(v) => v,
            None => {
                return Err(ExchangeError::NumOverflow);
            },
        };
        if p < 0 {
            return Err(ExchangeError::NumOverflow);
        }
        Self::cost_units(p)
    }

    /// The payout of selling `amount` back to a pool.
    pub fn sell_receive(
        pool_balance: Balance,
        amount: u128,
        total_supply: u128,
        reverse_ratio: u128,
    ) -> (r: Result<u128, ExchangeError>)
        ensures
            match r {
                Ok(v) => spec_sell_receive(pool_balance, amount, total_supply, reverse_ratio)
                    == Some(v),
                Err(e) => e == ExchangeError::NumOverflow && spec_sell_receive(
                    pool_balance,
                    amount,
                    total_supply,
                    reverse_ratio,
                ) is None,
            },
    {
        let amount_bits = match fx_from_u128(amount) {
            Some(v) => v,
            None => {
                return Err(ExchangeError::NumOverflow);
            },
        };
        let total_bits = match fx_from_u128(total_supply) {
            Some(v) => v,
            None => {
                return Err(ExchangeError::NumOverflow);
            },
        };
        let pb_bits = match fx_from_u128(pool_balance) {
            Some(v) => v,
            None => {
                return Err(ExchangeError::NumOverflow);
            },
        };
        let operand = match fx_checked_div(amount_bits, total_bits) {
            Some(v) => v,
            None => {
                return Err(ExchangeError::NumOverflow);
            },
        };
        let operand1 = match fx_checked_sub(FIXED_ONE, operand) {
            Some(v) => v,
            None => {
                return Err(ExchangeError::NumOverflow);
            },
        };
        let powed = match Self::pow(operand1, reverse_ratio) {
            Ok(v) => v,
            Err(e) => {
                return Err(e);
            },
        };
        let diff = match fx_checked_sub(FIXED_ONE, powed) {
            Some(v) => v,
            None => {
                return Err(ExchangeError::NumOverflow);
            },
        };
        let p = match fx_checked_mul(pb_bits, diff) {
            Some(v) => v,
            None => {
                return Err(ExchangeError::NumOverflow);
            },
        };
        if p < 0 {
            return Err(ExchangeError::NumOverflow);
        }
        match fx_to_u128(p) {
            Some(v) => Ok(v),
            None => Err(ExchangeError::NumOverflow),
        }
    }

    /// Lists `amount` tokens from the range at `token_id` for sale: the tail
    /// of the range moves into exchange custody and a new order is created.
    /// Returns the order id.
    pub fn sell_nft(
        &mut self,
        registry: &CollectionRegistry,
        ledger: &mut TokenLedger,
        who: AccountId,
        collection_id: u128,
        token_id: u128,
        amount: u128,
        price: Balance,
    ) -> (r: Result<u128, ExchangeError>)
        requires
            old(ledger)@.wf(),
        ensures
            final(ledger)@.wf(),
            match r {
                Ok(order_id) => spec_sell_nft(
                    old(self)@,
                    registry@,
                    old(ledger)@,
                    who,
                    collection_id,
                    token_id,
                    amount,
                    price,
                ) == Ok::<_, ExchangeError>((final(self)@, final(ledger)@, order_id)),
                Err(e) => spec_sell_nft(
                    old(self)@,
                    registry@,
                    old(ledger)@,
                    who,
                    collection_id,
                    token_id,
                    amount,
                    price,
                ) == Err::<(ExchangeView, LedgerView, u128), _>(e) && final(self)@ == old(self)@
                    && final(ledger)@ == old(ledger)@,
            },
    {
        let (token_end, token_owner) = match ledger.get_nft_token(collection_id, token_id) {
            Some(t) => (t.end_idx, t.owner),
            None => {
                return Err(ExchangeError::TokenNotFound);
            },
        };
        if token_owner != who {
            return Err(ExchangeError::PermissionDenied);
        }
        if self.next_order_id == u128::MAX {
            return Err(ExchangeError::NumOverflow);
        }
        let nft_order_id = self.next_order_id;
        match ledger._transfer_non_fungible(
            registry,
            who,
            EXCHANGE_ACCOUNT,
            collection_id,
            token_id,
            amount,
        ) {
            Ok(()) => {},
            Err(e) => {
                return Err(ExchangeError::Nft(e));
            },
        }
        let order_start = token_end - (amount - 1);
        let order = NonFungibleOrderInfo {
            collection_id,
            start_idx: order_start,
            seller: who,
            price,
            amount,
        };
        self.orders.insert(nft_order_id, order);
        self.next_order_id = nft_order_id + 1;
        Ok(nft_order_id)
    }

    /// Buys `amount` tokens from an order: pays the seller, releases the
    /// tail of the escrowed range to the buyer, and shrinks (or deletes) the
    /// order.
    pub fn buy_nft(
        &mut self,
        registry: &CollectionRegistry,
        ledger: &mut TokenLedger,
        currency: &mut Currency,
        who: AccountId,
        order_id: u128,
        amount: u128,
    ) -> (r: Result<(), ExchangeError>)
        requires
            old(ledger)@.wf(),
        ensures
            final(ledger)@.wf(),
            match r {
                Ok(()) => spec_buy_nft(
                    old(self)@,
                    registry@,
                    old(ledger)@,
                    old(currency)@,
                    who,
                    order_id,
                    amount,
                ) == Ok::<_, ExchangeError>((final(self)@, final(ledger)@, final(currency)@)),
                Err(e) => spec_buy_nft(
                    old(self)@,
                    registry@,
                    old(ledger)@,
                    old(currency)@,
                    who,
                    order_id,
                    amount,
                ) == Err::<(ExchangeView, LedgerView, Map<u128, u128>), _>(e) && final(self)@
                    == old(self)@ && final(ledger)@ == old(ledger)@ && final(currency)@ == old(currency)@,
            },
    {
        if amount < 1 {
            return Err(ExchangeError::AmountLessThanOne);
        }
        let order = match self.orders.get(order_id) {
            Some(o) => *o,
            None => {
                return Err(ExchangeError::OrderNotFound);
            },
        };
        if order.amount < amount {
            return Err(ExchangeError::AmountTooLarge);
        }
        let cost = match order.price.checked_mul(amount) {
            Some(c) => c,
            None => {
                return Err(ExchangeError::NumOverflow);
            },
        };
        let buyer_balance = currency.free_balance(who);
        if buyer_balance < cost {
            return Err(ExchangeError::Currency(CurrencyError::InsufficientBalance));
        }
        if who != order.seller {
            let seller_balance = currency.free_balance(order.seller);
            if seller_balance > u128::MAX - cost {
                return Err(ExchangeError::Currency(CurrencyError::NumOverflow));
            }
        }
        match ledger._transfer_non_fungible(
            registry,
            EXCHANGE_ACCOUNT,
            who,
            order.collection_id,
            order.start_idx,
            amount,
        ) {
            Ok(()) => {},
            Err(e) => {
                return Err(ExchangeError::Nft(e));
            },
        }
        match currency.transfer(who, order.seller, cost) {
            Ok(()) => {},
            Err(e) => {
                return Err(ExchangeError::Currency(e));
            },
        }
        let left = order.amount - amount;
        if left == 0 {
            self.orders.remove(order_id);
        } else {
            let updated = NonFungibleOrderInfo { amount: left, ..order };
            self.orders.insert(order_id, updated);
        }
        Ok(())
    }

    /// Cancels an order: all remaining escrowed tokens return to the seller.
    pub fn cancel_nft_order(
        &mut self,
        registry: &CollectionRegistry,
        ledger: &mut TokenLedger,
        who: AccountId,
        order_id: u128,
    ) -> (r: Result<(), ExchangeError>)
        requires
            old(ledger)@.wf(),
        ensures
            final(ledger)@.wf(),
            match r {
                Ok(()) => spec_cancel_nft_order(
                    old(self)@,
                    registry@,
                    old(ledger)@,
                    who,
                    order_id,
                ) == Ok::<_, ExchangeError>((final(self)@, final(ledger)@)),
                Err(e) => spec_cancel_nft_order(
                    old(self)@,
                    registry@,
                    old(ledger)@,
                    who,
                    order_id,
                ) == Err::<(ExchangeView, LedgerView), _>(e) && final(self)@ == old(self)@
                    && final(ledger)@ == old(ledger)@,
            },
    {
        let order = match self.orders.get(order_id) {
            Some(o) => *o,
            None => {
                return Err(ExchangeError::OrderNotFound);
            },
        };
        if order.seller != who {
            return Err(ExchangeError::PermissionDenied);
        }
        match ledger._transfer_non_fungible(
            registry,
            EXCHANGE_ACCOUNT,
            who,
            order.collection_id,
            order.start_idx,
            order.amount,
        ) {
            Ok(()) => {},
            Err(e) => {
                return Err(ExchangeError::Nft(e));
            },
        }
        self.orders.remove(order_id);
        Ok(())
    }

    /// Opens a bonding-curve pool: moves the deposit into custody and stores
    /// the pool with zero sold supply and balance.
    pub fn create_semi_token_pool(
        &mut self,
        registry: &CollectionRegistry,
        ledger: &mut TokenLedger,
        who: AccountId,
        collection_id: u128,
        amount: u128,
        reverse_ratio: u128,
        m: u128,
        duration: BlockNumber,
        now: BlockNumber,
    ) -> (r: Result<(), ExchangeError>)
        ensures
            old(ledger)@.wf() ==> final(ledger)@.wf(),
            match r {
                Ok(()) => spec_create_semi_token_pool(
                    old(self)@,
                    registry@,
                    old(ledger)@,
                    who,
                    collection_id,
                    amount,
                    reverse_ratio,
                    m,
                    duration,
                    now,
                ) == Ok::<_, ExchangeError>((final(self)@, final(ledger)@)),
                Err(e) => spec_create_semi_token_pool(
                    old(self)@,
                    registry@,
                    old(ledger)@,
                    who,
                    collection_id,
                    amount,
                    reverse_ratio,
                    m,
                    duration,
                    now,
                ) == Err::<(ExchangeView, LedgerView), _>(e) && final(self)@ == old(self)@
                    && final(ledger)@ == old(ledger)@,
            },
    {
        if reverse_ratio < 1 {
            return Err(ExchangeError::ReverseRatioLessThanOne);
        }
        if m < 1 {
            return Err(ExchangeError::MLessThanOne);
        }
        if amount < 1 {
            return Err(ExchangeError::AmountLessThanOne);
        }
        if self.pools.contains(collection_id, who) {
            return Err(ExchangeError::PoolExisted);
        }
        if !registry.collection_exist(collection_id) {
            return Err(ExchangeError::CollectionNotFound);
        }
        if ledger.get_balance(collection_id, who) < amount {
            return Err(ExchangeError::AmountTooLarge);
        }
        let is_ft_ok = match registry.get_collection(collection_id) {
            Some(c) => match c.token_type {
                Some(t) => t == crate::collection::TokenType::Fungible,
                None => true,
            },
            None => false,
        };
        if !is_ft_ok {
            return Err(ExchangeError::WrongTokenType);
        }
        let end_time = match now.checked_add(duration) {
            Some(t) => t,
            None => {
                return Err(ExchangeError::NumOverflow);
            },
        };
        match ledger._transfer_fungible(registry, who, EXCHANGE_ACCOUNT, collection_id, amount) {
            Ok(()) => {},
            Err(e) => {
                return Err(ExchangeError::Nft(e));
            },
        }
        let pool = SemiFungiblePoolInfo {
            seller: who,
            supply: amount,
            m,
            sold: 0,
            reverse_ratio,
            pool_balance: 0,
            end_time,
        };
        self.pools.insert(collection_id, who, pool);
        Ok(())
    }

    /// Buys `amount` tokens from a pool at the curve price; the first buy of
    /// a pool is priced by the first-buy formula. Returns the cost.
    pub fn buy_semi_token(
        &mut self,
        registry: &CollectionRegistry,
        ledger: &mut TokenLedger,
        currency: &mut Currency,
        who: AccountId,
        collection_id: u128,
        seller: AccountId,
        amount: u128,
        now: BlockNumber,
    ) -> (r: Result<Balance, ExchangeError>)
        ensures
            old(ledger)@.wf() ==> final(ledger)@.wf(),
            match r {
                Ok(cost) => spec_buy_semi_token(
                    old(self)@,
                    registry@,
                    old(ledger)@,
                    old(currency)@,
                    who,
                    collection_id,
                    seller,
                    amount,
                    now,
                ) == Ok::<_, ExchangeError>(
                    (final(self)@, final(ledger)@, final(currency)@, cost),
                ),
                Err(e) => spec_buy_semi_token(
                    old(self)@,
                    registry@,
                    old(ledger)@,
                    old(currency)@,
                    who,
                    collection_id,
                    seller,
                    amount,
                    now,
                ) == Err::<(ExchangeView, LedgerView, Map<u128, u128>, Balance), _>(e) && final(self)@ == old(self)@ && final(ledger)@ == old(ledger)@ && final(currency)@ == old(currency)@,
            },
    {
        let pool = match self.pools.get(collection_id, seller) {
            Some(p) => *p,
            None => {
                return Err(ExchangeError::PoolNotFound);
            },
        };
        if amount > pool.supply {
            return Err(ExchangeError::AmountTooLarge);
        }
        if now > pool.end_time {
            return Err(ExchangeError::ExpiredSoldTime);
        }
        let cost = if pool.sold == 0 {
            match Self::first_buy_cost(pool.reverse_ratio, pool.m, amount) {
                Ok(c) => c,
                Err(e) => {
                    return Err(e);
                },
            }
        } else {
            match Self::buy_cost(pool.pool_balance, amount, pool.sold, pool.reverse_ratio) {
                Ok(c) => c,
                Err(e) => {
                    return Err(e);
                },
            }
        };
        let sold = match pool.sold.checked_add(amount) {
            Some(v) => v,
            None => {
                return Err(ExchangeError::NumOverflow);
            },
        };
        let pool_balance = match pool.pool_balance.checked_add(cost) {
            Some(v) => v,
            None => {
                return Err(ExchangeError::NumOverflow);
            },
        };
        let buyer_balance = currency.free_balance(who);
        if buyer_balance < cost {
            return Err(ExchangeError::Currency(CurrencyError::InsufficientBalance));
        }
        if who != EXCHANGE_ACCOUNT {
            let exch_balance = currency.free_balance(EXCHANGE_ACCOUNT);
            if exch_balance > u128::MAX - cost {
                return Err(ExchangeError::Currency(CurrencyError::NumOverflow));
            }
        }
        match ledger._transfer_fungible(registry, EXCHANGE_ACCOUNT, who, collection_id, amount) {
            Ok(()) => {},
            Err(e) => {
                return Err(ExchangeError::Nft(e));
            },
        }
        match currency.transfer(who, EXCHANGE_ACCOUNT, cost) {
            Ok(()) => {},
            Err(e) => {
                return Err(ExchangeError::Currency(e));
            },
        }
        let updated = SemiFungiblePoolInfo {
            sold,
            supply: pool.supply - amount,
            pool_balance,
            ..pool
        };
        self.pools.insert(collection_id, seller, updated);
        Ok(cost)
    }

    /// Sells `amount` tokens back to a pool for the truncated curve payout.
    /// Returns the payout.
    pub fn sell_semi_token(
        &mut self,
        registry: &CollectionRegistry,
        ledger: &mut TokenLedger,
        currency: &mut Currency,
        who: AccountId,
        collection_id: u128,
        seller: AccountId,
        amount: u128,
        now: BlockNumber,
    ) -> (r: Result<Balance, ExchangeError>)
        ensures
            old(ledger)@.wf() ==> final(ledger)@.wf(),
            match r {
                Ok(receive) => spec_sell_semi_token(
                    old(self)@,
                    registry@,
                    old(ledger)@,
                    old(currency)@,
                    who,
                    collection_id,
                    seller,
                    amount,
                    now,
                ) == Ok::<_, ExchangeError>(
                    (final(self)@, final(ledger)@, final(currency)@, receive),
                ),
                Err(e) => spec_sell_semi_token(
                    old(self)@,
                    registry@,
                    old(ledger)@,
                    old(currency)@,
                    who,
                    collection_id,
                    seller,
                    amount,
                    now,
                ) == Err::<(ExchangeView, LedgerView, Map<u128, u128>, Balance), _>(e) && final(self)@ == old(self)@ && final(ledger)@ == old(ledger)@ && final(currency)@ == old(currency)@,
            },
    {
        let pool = match self.pools.get(collection_id, seller) {
            Some(p) => *p,
            None => {
                return Err(ExchangeError::PoolNotFound);
            },
        };
        if amount < 1 {
            return Err(ExchangeError::AmountLessThanOne);
        }
        if pool.sold < amount {
            return Err(ExchangeError::AmountTooLarge);
        }
        if now > pool.end_time {
            return Err(ExchangeError::ExpiredSoldTime);
        }
        let receive = match Self::sell_receive(
            pool.pool_balance,
            amount,
            pool.sold,
            pool.reverse_ratio,
        ) {
            Ok(v) => v,
            Err(e) => {
                return Err(e);
            },
        };
        if pool.pool_balance < receive {
            return Err(ExchangeError::NumOverflow);
        }
        let supply = match pool.supply.checked_add(amount) {
            Some(v) => v,
            None => {
                return Err(ExchangeError::NumOverflow);
            },
        };
        match ledger.check_transfer_fungible(registry, who, EXCHANGE_ACCOUNT, collection_id, amount) {
            None => {},
            Some(e) => {
                return Err(ExchangeError::Nft(e));
            },
        }
        let exch_balance = currency.free_balance(EXCHANGE_ACCOUNT);
        if exch_balance < receive {
            return Err(ExchangeError::Currency(CurrencyError::InsufficientBalance));
        }
        if who != EXCHANGE_ACCOUNT {
            let who_balance = currency.free_balance(who);
            if who_balance > u128::MAX - receive {
                return Err(ExchangeError::Currency(CurrencyError::NumOverflow));
            }
        }
        match ledger._transfer_fungible(registry, who, EXCHANGE_ACCOUNT, collection_id, amount) {
            Ok(()) => {},
            Err(e) => {
                return Err(ExchangeError::Nft(e));
            },
        }
        match currency.transfer(EXCHANGE_ACCOUNT, who, receive) {
            Ok(()) => {},
            Err(e) => {
                return Err(ExchangeError::Currency(e));
            },
        }
        let updated = SemiFungiblePoolInfo {
            sold: pool.sold - amount,
            supply,
            pool_balance: pool.pool_balance - receive,
            ..pool
        };
        self.pools.insert(collection_id, seller, updated);
        Ok(receive)
    }

    /// Closes an expired pool: the creator takes back the unsold tokens and
    /// the proceeds, and the pool is deleted.
    pub fn withdraw_pool(
        &mut self,
        registry: &CollectionRegistry,
        ledger: &mut TokenLedger,
        currency: &mut Currency,
        who: AccountId,
        collection_id: u128,
        now: BlockNumber,
    ) -> (r: Result<(), ExchangeError>)
        ensures
            old(ledger)@.wf() ==> final(ledger)@.wf(),
            match r {
                Ok(()) => spec_withdraw_pool(
                    old(self)@,
                    registry@,
                    old(ledger)@,
                    old(currency)@,
                    who,
                    collection_id,
                    now,
                ) == Ok::<_, ExchangeError>((final(self)@, final(ledger)@, final(currency)@)),
                Err(e) => spec_withdraw_pool(
                    old(self)@,
                    registry@,
                    old(ledger)@,
                    old(currency)@,
                    who,
                    collection_id,
                    now,
                ) == Err::<(ExchangeView, LedgerView, Map<u128, u128>), _>(e) && final(self)@
                    == old(self)@ && final(ledger)@ == old(ledger)@ && final(currency)@ == old(currency)@,
            },
    {
        let pool = match self.pools.get(collection_id, who) {
            Some(p) => *p,
            None => {
                return Err(ExchangeError::PoolNotFound);
            },
        };
        if pool.seller != who {
            return Err(ExchangeError::PermissionDenied);
        }
        if now <= pool.end_time {
            return Err(ExchangeError::CanNotWithdraw);
        }
        match ledger.check_transfer_fungible(
            registry,
            EXCHANGE_ACCOUNT,
            who,
            collection_id,
            pool.supply,
        ) {
            None => {},
            Some(e) => {
                return Err(ExchangeError::Nft(e));
            },
        }
        let exch_balance = currency.free_balance(EXCHANGE_ACCOUNT);
        if exch_balance < pool.pool_balance {
            return Err(ExchangeError::Currency(CurrencyError::InsufficientBalance));
        }
        if who != EXCHANGE_ACCOUNT {
            let who_balance = currency.free_balance(who);
            if who_balance > u128::MAX - pool.pool_balance {
                return Err(ExchangeError::Currency(CurrencyError::NumOverflow));
            }
        }
        match ledger._transfer_fungible(
            registry,
            EXCHANGE_ACCOUNT,
            who,
            collection_id,
            pool.supply,
        ) {
            Ok(()) => {},
            Err(e) => {
                return Err(ExchangeError::Nft(e));
            },
        }
        match currency.transfer(EXCHANGE_ACCOUNT, who, pool.pool_balance) {
            Ok(()) => {},
            Err(e) => {
                return Err(ExchangeError::Currency(e));
            },
        }
        self.pools.remove(collection_id, who);
        Ok(())
    }
}

} // verus!
