//! The token ledger: range-compacted non-fungible ownership records and plain
//! fungible balances, per collection, kept in lockstep with each collection's
//! total supply and per-account balances.
//!
//! A range record at key `(collection_id, start_idx)` says that all ids in
//! `[start_idx, end_idx]` belong to one owner and share one uri. Transfers and
//! burns always take the *tail* of a range: the slice that moves or burns is
//! `[end_idx - amount + 1, end_idx]`, and the original owner keeps the low
//! part under the unchanged key.

use vstd::prelude::*;
use crate::collection::{CollectionError, CollectionInfoView, CollectionRegistry, TokenType};
use crate::store::{map2_get, map2_has, map2_insert, map2_remove, PairTable, Table};
use crate::types::AccountId;

verus! {

/// One contiguous range of non-fungible token ids.
pub struct TokenInfo {
    pub end_idx: u128,
    pub owner: AccountId,
    pub uri: Vec<u8>,
}

/// The mathematical value of a [`TokenInfo`].
pub struct TokenInfoView {
    pub end_idx: u128,
    pub owner: AccountId,
    pub uri: Seq<u8>,
}

impl View for TokenInfo {
    type V = TokenInfoView;

    open spec fn view(&self) -> TokenInfoView {
        TokenInfoView { end_idx: self.end_idx, owner: self.owner, uri: self.uri@ }
    }
}

/// Errors of the token ledger.
#[derive(Clone, Copy, Debug, PartialEq, Eq, Structural)]
pub enum NftError {
    /// A checked arithmetic step failed.
    NumOverflow,
    /// An amount must be at least 1.
    AmountLessThanOne,
    /// The amount exceeds what is owned or available.
    AmountTooLarge,
    /// The caller is not the owner required for this operation.
    PermissionDenied,
    /// The collection does not exist.
    CollectionNotFound,
    /// The token record does not exist.
    TokenNotFound,
    /// The recipient cannot be the sender.
    ReceiverIsSender,
    /// The collection holds tokens of the other kind.
    WrongTokenType,
}

/// The mathematical state of the ledger.
pub struct LedgerView {
    /// `collection_id -> start_idx -> range record`.
    pub tokens: Map<u128, Map<u128, TokenInfoView>>,
    /// `collection_id -> account -> units held`.
    pub balances: Map<u128, Map<u128, u128>>,
    /// `collection_id -> last minted token id`.
    pub last_ids: Map<u128, u128>,
    /// `collection_id -> units burned so far`.
    pub burned: Map<u128, u128>,
}

impl LedgerView {
    /// The balance of an account in a collection, zero when unrecorded.
    pub open spec fn balance_at(self, collection_id: u128, who: AccountId) -> u128 {
        if map2_has(self.balances, collection_id, who) {
            map2_get(self.balances, collection_id, who)
        } else {
            0
        }
    }

    /// Whether a range record exists at `(collection_id, start_idx)`.
    pub open spec fn has_token(self, collection_id: u128, start_idx: u128) -> bool {
        map2_has(self.tokens, collection_id, start_idx)
    }

    /// The range record at `(collection_id, start_idx)`.
    pub open spec fn token_at(self, collection_id: u128, start_idx: u128) -> TokenInfoView
        recommends
            self.has_token(collection_id, start_idx),
    {
        map2_get(self.tokens, collection_id, start_idx)
    }

    /// The units burned in a collection, zero when unrecorded.
    pub open spec fn burned_at(self, collection_id: u128) -> u128 {
        if self.burned.contains_key(collection_id) {
            self.burned[collection_id]
        } else {
            0
        }
    }

    /// Every range record ends at or after its start key.
    pub open spec fn wf(self) -> bool {
        wf_tokens(self.tokens)
    }
}

/// Every range record of the table ends at or after its start key.
pub open spec fn wf_tokens(t: Map<u128, Map<u128, TokenInfoView>>) -> bool {
    forall|c: u128, s: u128|
        map2_has(t, c, s) ==> (#[trigger] map2_get(t, c, s)).end_idx >= s
}

proof fn lemma_wf_insert(t: Map<u128, Map<u128, TokenInfoView>>, c: u128, s: u128, v: TokenInfoView)
    requires
        wf_tokens(t),
        v.end_idx >= s,
    ensures
        wf_tokens(map2_insert(t, c, s, v)),
{
    let t2 = map2_insert(t, c, s, v);
    assert forall|c2: u128, s2: u128| map2_has(t2, c2, s2) implies (#[trigger] map2_get(
        t2,
        c2,
        s2,
    )).end_idx >= s2 by {
        if c2 == c {
            if s2 == s {
            } else {
                assert(map2_has(t, c2, s2));
                assert(map2_get(t2, c2, s2) == map2_get(t, c2, s2));
            }
        } else {
            assert(map2_has(t, c2, s2));
            assert(map2_get(t2, c2, s2) == map2_get(t, c2, s2));
        }
    }
}

proof fn lemma_wf_remove(t: Map<u128, Map<u128, TokenInfoView>>, c: u128, s: u128)
    requires
        wf_tokens(t),
    ensures
        wf_tokens(map2_remove(t, c, s)),
{
    let t2 = map2_remove(t, c, s);
    assert forall|c2: u128, s2: u128| map2_has(t2, c2, s2) implies (#[trigger] map2_get(
        t2,
        c2,
        s2,
    )).end_idx >= s2 by {
        assert(map2_has(t, c2, s2));
        assert(map2_get(t2, c2, s2) == map2_get(t, c2, s2));
    }
}

proof fn lemma_wf_remove_all(t: Map<u128, Map<u128, TokenInfoView>>, c: u128)
    requires
        wf_tokens(t),
    ensures
        wf_tokens(t.remove(c)),
{
    let t2 = t.remove(c);
    assert forall|c2: u128, s2: u128| map2_has(t2, c2, s2) implies (#[trigger] map2_get(
        t2,
        c2,
        s2,
    )).end_idx >= s2 by {
        assert(map2_has(t, c2, s2));
        assert(map2_get(t2, c2, s2) == map2_get(t, c2, s2));
    }
}

/// Whether a collection accepts non-fungible mints: its type is non-fungible
/// or unset.
pub open spec fn nf_type_ok(c: CollectionInfoView) -> bool {
    match c.token_type {
        Some(t) => t == TokenType::NonFungible,
        None => true,
    }
}

/// Whether a collection accepts fungible operations: its type is fungible or
/// unset.
pub open spec fn ft_type_ok(c: CollectionInfoView) -> bool {
    match c.token_type {
        Some(t) => t == TokenType::Fungible,
        None => true,
    }
}

/// The start index a non-fungible mint would use: one past the last minted
/// id, or 0 for a collection that never minted (as `int`, so the overflow
/// case can be spoken of).
pub open spec fn mint_start(led: LedgerView, collection_id: u128) -> int {
    if led.last_ids.contains_key(collection_id) {
        led.last_ids[collection_id] + 1
    } else {
        0
    }
}

/// The registry entry with `amount` added to its total supply.
pub open spec fn reg_add_supply(
    reg: Map<u128, CollectionInfoView>,
    collection_id: u128,
    amount: u128,
) -> Map<u128, CollectionInfoView>
    recommends
        reg.contains_key(collection_id),
        reg[collection_id].total_supply + amount <= u128::MAX,
{
    reg.insert(
        collection_id,
        CollectionInfoView {
            total_supply: (reg[collection_id].total_supply + amount) as u128,
            ..reg[collection_id]
        },
    )
}

/// The registry entry with `amount` taken from its total supply.
pub open spec fn reg_sub_supply(
    reg: Map<u128, CollectionInfoView>,
    collection_id: u128,
    amount: u128,
) -> Map<u128, CollectionInfoView>
    recommends
        reg.contains_key(collection_id),
        reg[collection_id].total_supply >= amount,
{
    reg.insert(
        collection_id,
        CollectionInfoView {
            total_supply: (reg[collection_id].total_supply - amount) as u128,
            ..reg[collection_id]
        },
    )
}

/// What a non-fungible mint does: the outcome of `_mint_non_fungible` on the
/// given state, either the new registry and ledger with the minted range's
/// bounds, or the error of the first failing check.
pub open spec fn spec_mint_non_fungible(
    reg: Map<u128, CollectionInfoView>,
    led: LedgerView,
    receiver: AccountId,
    collection_id: u128,
    amount: u128,
    uri: Seq<u8>,
) -> Result<(Map<u128, CollectionInfoView>, LedgerView, u128, u128), NftError> {
    if !reg.contains_key(collection_id) {
        Err(NftError::CollectionNotFound)
    } else if amount < 1 {
        Err(NftError::AmountLessThanOne)
    } else if !nf_type_ok(reg[collection_id]) {
        Err(NftError::WrongTokenType)
    } else if mint_start(led, collection_id) + amount - 1 > u128::MAX {
        Err(NftError::NumOverflow)
    } else if led.balance_at(collection_id, receiver) + amount > u128::MAX {
        Err(NftError::NumOverflow)
    } else if reg[collection_id].total_supply + amount > u128::MAX {
        Err(NftError::NumOverflow)
    } else {
        let start_idx = mint_start(led, collection_id) as u128;
        let end_idx = (mint_start(led, collection_id) + amount - 1) as u128;
        let new_led = LedgerView {
            tokens: map2_insert(
                led.tokens,
                collection_id,
                start_idx,
                TokenInfoView { end_idx, owner: receiver, uri },
            ),
            balances: map2_insert(
                led.balances,
                collection_id,
                receiver,
                (led.balance_at(collection_id, receiver) + amount) as u128,
            ),
            last_ids: led.last_ids.insert(collection_id, end_idx),
            burned: led.burned,
        };
        Ok((reg_add_supply(reg, collection_id, amount), new_led, start_idx, end_idx))
    }
}

/// What a fungible mint does: the outcome of `_mint_fungible`.
pub open spec fn spec_mint_fungible(
    reg: Map<u128, CollectionInfoView>,
    led: LedgerView,
    receiver: AccountId,
    collection_id: u128,
    amount: u128,
) -> Result<(Map<u128, CollectionInfoView>, LedgerView), NftError> {
    if !reg.contains_key(collection_id) {
        Err(NftError::CollectionNotFound)
    } else if amount < 1 {
        Err(NftError::AmountLessThanOne)
    } else if !ft_type_ok(reg[collection_id]) {
        Err(NftError::WrongTokenType)
    } else if led.balance_at(collection_id, receiver) + amount > u128::MAX {
        Err(NftError::NumOverflow)
    } else if reg[collection_id].total_supply + amount > u128::MAX {
        Err(NftError::NumOverflow)
    } else {
        let new_led = LedgerView {
            balances: map2_insert(
                led.balances,
                collection_id,
                receiver,
                (led.balance_at(collection_id, receiver) + amount) as u128,
            ),
            ..led
        };
        Ok((reg_add_supply(reg, collection_id, amount), new_led))
    }
}

/// The balance side of a transfer: `amount` moves from `who` to `receiver`
/// inside one collection.
pub open spec fn balances_moved(
    led: LedgerView,
    collection_id: u128,
    who: AccountId,
    receiver: AccountId,
    amount: u128,
) -> Map<u128, Map<u128, u128>>
    recommends
        who != receiver,
        led.balance_at(collection_id, who) >= amount,
        led.balance_at(collection_id, receiver) + amount <= u128::MAX,
{
    map2_insert(
        map2_insert(
            led.balances,
            collection_id,
            who,
            (led.balance_at(collection_id, who) - amount) as u128,
        ),
        collection_id,
        receiver,
        (led.balance_at(collection_id, receiver) + amount) as u128,
    )
}

/// What a non-fungible transfer does: the outcome of `_transfer_non_fungible`.
///
/// The moved slice is the tail `[end_idx - amount + 1, end_idx]` of the range
/// at `start_idx`; when the whole range moves its record is rewritten in
/// place, otherwise a record for the tail is created for the receiver and the
/// original record is shrunk to the remaining low part.
pub open spec fn spec_transfer_non_fungible(
    reg: Map<u128, CollectionInfoView>,
    led: LedgerView,
    who: AccountId,
    receiver: AccountId,
    collection_id: u128,
    start_idx: u128,
    amount: u128,
) -> Result<LedgerView, NftError> {
    if who == receiver {
        Err(NftError::ReceiverIsSender)
    } else if amount < 1 {
        Err(NftError::AmountLessThanOne)
    } else if !reg.contains_key(collection_id) {
        Err(NftError::CollectionNotFound)
    } else if !led.has_token(collection_id, start_idx) {
        Err(NftError::TokenNotFound)
    } else if !nf_type_ok(reg[collection_id]) {
        Err(NftError::WrongTokenType)
    } else if led.token_at(collection_id, start_idx).owner != who {
        Err(NftError::PermissionDenied)
    } else {
        let token = led.token_at(collection_id, start_idx);
        if amount > 1 && token.end_idx - start_idx + 1 > u128::MAX {
            Err(NftError::NumOverflow)
        } else if amount > 1 && token.end_idx - start_idx + 1 < amount {
            Err(NftError::AmountTooLarge)
        } else if led.balance_at(collection_id, who) < amount {
            Err(NftError::NumOverflow)
        } else if led.balance_at(collection_id, receiver) + amount > u128::MAX {
            Err(NftError::NumOverflow)
        } else {
            let receiver_start = (token.end_idx - amount + 1) as u128;
            let moved = TokenInfoView { end_idx: token.end_idx, owner: receiver, uri: token.uri };
            let new_tokens = if receiver_start == start_idx {
                map2_insert(led.tokens, collection_id, start_idx, moved)
            } else {
                map2_insert(
                    map2_insert(led.tokens, collection_id, receiver_start, moved),
                    collection_id,
                    start_idx,
                    TokenInfoView {
                        end_idx: (receiver_start - 1) as u128,
                        owner: who,
                        uri: token.uri,
                    },
                )
            };
            Ok(
                LedgerView {
                    tokens: new_tokens,
                    balances: balances_moved(led, collection_id, who, receiver, amount),
                    ..led
                },
            )
        }
    }
}

/// What a fungible transfer does: the outcome of `_transfer_fungible`.
pub open spec fn spec_transfer_fungible(
    reg: Map<u128, CollectionInfoView>,
    led: LedgerView,
    who: AccountId,
    receiver: AccountId,
    collection_id: u128,
    amount: u128,
) -> Result<LedgerView, NftError> {
    if amount < 1 {
        Err(NftError::AmountLessThanOne)
    } else if who == receiver {
        Err(NftError::ReceiverIsSender)
    } else if !reg.contains_key(collection_id) {
        Err(NftError::CollectionNotFound)
    } else if !ft_type_ok(reg[collection_id]) {
        Err(NftError::WrongTokenType)
    } else if led.balance_at(collection_id, who) < amount {
        Err(NftError::AmountTooLarge)
    } else if led.balance_at(collection_id, receiver) + amount > u128::MAX {
        Err(NftError::NumOverflow)
    } else {
        Ok(
            LedgerView {
                balances: balances_moved(led, collection_id, who, receiver, amount),
                ..led
            },
        )
    }
}

/// What a non-fungible burn does: the outcome of `_burn_non_fungible`.
///
/// The burned slice is the tail of the range; the record is removed when the
/// whole range burns, otherwise shrunk to the remaining low part.
pub open spec fn spec_burn_non_fungible(
    reg: Map<u128, CollectionInfoView>,
    led: LedgerView,
    who: AccountId,
    collection_id: u128,
    start_idx: u128,
    amount: u128,
) -> Result<(Map<u128, CollectionInfoView>, LedgerView), NftError> {
    if amount < 1 {
        Err(NftError::AmountLessThanOne)
    } else if !reg.contains_key(collection_id) {
        Err(NftError::CollectionNotFound)
    } else if !led.has_token(collection_id, start_idx) {
        Err(NftError::TokenNotFound)
    } else if !nf_type_ok(reg[collection_id]) {
        Err(NftError::WrongTokenType)
    } else if led.token_at(collection_id, start_idx).owner != who {
        Err(NftError::PermissionDenied)
    } else {
        let token = led.token_at(collection_id, start_idx);
        if amount > 1 && token.end_idx - start_idx + 1 > u128::MAX {
            Err(NftError::NumOverflow)
        } else if amount > 1 && token.end_idx - start_idx + 1 < amount {
            Err(NftError::AmountTooLarge)
        } else if led.balance_at(collection_id, who) < amount {
            Err(NftError::NumOverflow)
        } else if led.burned_at(collection_id) + amount > u128::MAX {
            Err(NftError::NumOverflow)
        } else if reg[collection_id].total_supply < amount {
            Err(NftError::NumOverflow)
        } else {
            let token = led.token_at(collection_id, start_idx);
            let burn_start = (token.end_idx - amount + 1) as u128;
            let new_tokens = if burn_start == start_idx {
                map2_remove(led.tokens, collection_id, start_idx)
            } else {
                map2_insert(
                    led.tokens,
                    collection_id,
                    start_idx,
                    TokenInfoView {
                        end_idx: (burn_start - 1) as u128,
                        owner: who,
                        uri: token.uri,
                    },
                )
            };
            let new_led = LedgerView {
                tokens: new_tokens,
                balances: map2_insert(
                    led.balances,
                    collection_id,
                    who,
                    (led.balance_at(collection_id, who) - amount) as u128,
                ),
                last_ids: led.last_ids,
                burned: led.burned.insert(
                    collection_id,
                    (led.burned_at(collection_id) + amount) as u128,
                ),
            };
            Ok((reg_sub_supply(reg, collection_id, amount), new_led))
        }
    }
}

/// What a fungible burn does: the outcome of `_burn_fungible`.
pub open spec fn spec_burn_fungible(
    reg: Map<u128, CollectionInfoView>,
    led: LedgerView,
    who: AccountId,
    collection_id: u128,
    amount: u128,
) -> Result<(Map<u128, CollectionInfoView>, LedgerView), NftError> {
    if amount < 1 {
        Err(NftError::AmountLessThanOne)
    } else if !reg.contains_key(collection_id) {
        Err(NftError::CollectionNotFound)
    } else if !ft_type_ok(reg[collection_id]) {
        Err(NftError::WrongTokenType)
    } else if led.balance_at(collection_id, who) < amount {
        Err(NftError::AmountTooLarge)
    } else if led.burned_at(collection_id) + amount > u128::MAX {
        Err(NftError::NumOverflow)
    } else if reg[collection_id].total_supply < amount {
        Err(NftError::NumOverflow)
    } else {
        let new_led = LedgerView {
            balances: map2_insert(
                led.balances,
                collection_id,
                who,
                (led.balance_at(collection_id, who) - amount) as u128,
            ),
            burned: led.burned.insert(
                collection_id,
                (led.burned_at(collection_id) + amount) as u128,
            ),
            ..led
        };
        Ok((reg_sub_supply(reg, collection_id, amount), new_led))
    }
}


/// What the owner-checked `mint_non_fungible` entry does: only the
/// collection's owner may mint, into an existing collection.
pub open spec fn spec_signed_mint_non_fungible(
    reg: Map<u128, CollectionInfoView>,
    led: LedgerView,
    who: AccountId,
    receiver: AccountId,
    collection_id: u128,
    amount: u128,
    uri: Seq<u8>,
) -> Result<(Map<u128, CollectionInfoView>, LedgerView, u128, u128), NftError> {
    if !reg.contains_key(collection_id) {
        Err(NftError::CollectionNotFound)
    } else if reg[collection_id].owner != who {
        Err(NftError::PermissionDenied)
    } else {
        spec_mint_non_fungible(reg, led, receiver, collection_id, amount, uri)
    }
}

/// What the owner-checked `mint_fungible` entry does.
pub open spec fn spec_signed_mint_fungible(
    reg: Map<u128, CollectionInfoView>,
    led: LedgerView,
    who: AccountId,
    receiver: AccountId,
    collection_id: u128,
    amount: u128,
) -> Result<(Map<u128, CollectionInfoView>, LedgerView), NftError> {
    if !reg.contains_key(collection_id) {
        Err(NftError::CollectionNotFound)
    } else if reg[collection_id].owner != who {
        Err(NftError::PermissionDenied)
    } else {
        spec_mint_fungible(reg, led, receiver, collection_id, amount)
    }
}

/// The token ledger's stored state.
pub struct TokenLedger {
    last_token_id: Table<u128>,
    balances: PairTable<u128>,
    tokens: PairTable<TokenInfo>,
    burned: Table<u128>,
}

/// The mathematical value of a stored token table.
pub open spec fn tokens_view(m: Map<u128, Map<u128, TokenInfo>>) -> Map<
    u128,
    Map<u128, TokenInfoView>,
> {
    Map::new(
        |c: u128| m.contains_key(c),
        |c: u128| Map::new(|s: u128| m[c].contains_key(s), |s: u128| m[c][s]@),
    )
}

proof fn lemma_tokens_view_insert(m: Map<u128, Map<u128, TokenInfo>>, c: u128, s: u128, v: TokenInfo)
    ensures
        tokens_view(map2_insert(m, c, s, v)) == map2_insert(tokens_view(m), c, s, v@),
{
    let lhs = tokens_view(map2_insert(m, c, s, v));
    let rhs = map2_insert(tokens_view(m), c, s, v@);
    assert forall|k: u128| lhs.contains_key(k) <==> rhs.contains_key(k) by {}
    assert forall|k: u128| #[trigger] lhs.contains_key(k) implies lhs[k] == rhs[k] by {
        if k == c {
            assert(lhs[k] =~= rhs[k]);
        } else {
            assert(map2_insert(m, c, s, v)[k] == m[k]);
            assert(lhs[k] =~= rhs[k]);
        }
    }
    assert(lhs =~= rhs);
}

proof fn lemma_tokens_view_remove(m: Map<u128, Map<u128, TokenInfo>>, c: u128, s: u128)
    ensures
        tokens_view(map2_remove(m, c, s)) == map2_remove(tokens_view(m), c, s),
{
    let lhs = tokens_view(map2_remove(m, c, s));
    let rhs = map2_remove(tokens_view(m), c, s);
    assert forall|k: u128| lhs.contains_key(k) <==> rhs.contains_key(k) by {}
    assert forall|k: u128| #[trigger] lhs.contains_key(k) implies lhs[k] == rhs[k] by {
        if k == c {
            assert(lhs[k] =~= rhs[k]);
        } else {
            assert(map2_remove(m, c, s)[k] == m[k]);
            assert(lhs[k] =~= rhs[k]);
        }
    }
    assert(lhs =~= rhs);
}

proof fn lemma_tokens_view_remove_all(m: Map<u128, Map<u128, TokenInfo>>, c: u128)
    ensures
        tokens_view(m.remove(c)) == tokens_view(m).remove(c),
{
    let lhs = tokens_view(m.remove(c));
    let rhs = tokens_view(m).remove(c);
    assert forall|k: u128| #[trigger] lhs.contains_key(k) implies lhs[k] == rhs[k] by {
        assert(m.remove(c)[k] == m[k]);
        assert(lhs[k] =~= rhs[k]);
    }
    assert(lhs =~= rhs);
}

impl View for TokenLedger {
    type V = LedgerView;

    closed spec fn view(&self) -> LedgerView {
        LedgerView {
            tokens: tokens_view(self.tokens@),
            balances: self.balances@,
            last_ids: self.last_token_id@,
            burned: self.burned@,
        }
    }
}

impl TokenLedger {
    pub fn new() -> (r: Self)
        ensures
            r@.tokens == Map::<u128, Map<u128, TokenInfoView>>::empty(),
            r@.balances == Map::<u128, Map<u128, u128>>::empty(),
            r@.last_ids == Map::<u128, u128>::empty(),
            r@.burned == Map::<u128, u128>::empty(),
            r@.wf(),
    {
        let r = TokenLedger {
            last_token_id: Table::new(),
            balances: PairTable::new(),
            tokens: PairTable::new(),
            burned: Table::new(),
        };
        proof {
            assert(r@.tokens =~= Map::<u128, Map<u128, TokenInfoView>>::empty());
        }
        r
    }

    /// Whether a range record exists at `(collection_id, token_id)`.
    pub fn token_exist(&self, collection_id: u128, token_id: u128) -> (r: bool)
        ensures
            r == self@.has_token(collection_id, token_id),
    {
        self.tokens.contains(collection_id, token_id)
    }

    /// The range record at `(collection_id, token_id)`, if any.
    pub fn get_nft_token(&self, collection_id: u128, token_id: u128) -> (r: Option<&TokenInfo>)
        ensures
            match r {
                Some(t) => self@.has_token(collection_id, token_id) && t@ == self@.token_at(
                    collection_id,
                    token_id,
                ),
                None => !self@.has_token(collection_id, token_id),
            },
    {
        self.tokens.get(collection_id, token_id)
    }

    /// The balance of an account in a collection; zero when unrecorded.
    pub fn get_balance(&self, collection_id: u128, who: AccountId) -> (r: u128)
        ensures
            r == self@.balance_at(collection_id, who),
    {
        match self.balances.get(collection_id, who) {
            Some(b) => *b,
            None => 0,
        }
    }

    /// The units burned in a collection; zero when unrecorded.
    pub fn get_burned_amount(&self, collection_id: u128) -> (r: u128)
        ensures
            r == self@.burned_at(collection_id),
    {
        match self.burned.get(collection_id) {
            Some(b) => *b,
            None => 0,
        }
    }

    /// The last minted token id of a collection, if it ever minted.
    pub fn last_token_id(&self, collection_id: u128) -> (r: Option<u128>)
        ensures
            match r {
                Some(v) => self@.last_ids.contains_key(collection_id) && v
                    == self@.last_ids[collection_id],
                None => !self@.last_ids.contains_key(collection_id),
            },
    {
        match self.last_token_id.get(collection_id) {
            Some(v) => Some(*v),
            None => None,
        }
    }

    /// Removes every range record of a collection (used when a collection is
    /// torn down); balances and counters stay.
    pub fn destory_collection(&mut self, collection_id: u128)
        ensures
            final(self)@.tokens == old(self)@.tokens.remove(collection_id),
            final(self)@.balances == old(self)@.balances,
            final(self)@.last_ids == old(self)@.last_ids,
            final(self)@.burned == old(self)@.burned,
            old(self)@.wf() ==> final(self)@.wf(),
    {
        let ghost oldtok = self.tokens@;
        self.tokens.remove_all(collection_id);
        proof {
            lemma_tokens_view_remove_all(oldtok, collection_id);
            if old(self)@.wf() {
                lemma_wf_remove_all(old(self)@.tokens, collection_id);
            }
        }
    }

    /// Mints a range of non-fungible tokens on behalf of `who`, who must own
    /// the collection.
    pub fn mint_non_fungible(
        &mut self,
        registry: &mut CollectionRegistry,
        who: AccountId,
        receiver: AccountId,
        collection_id: u128,
        uri: Vec<u8>,
        amount: u128,
    ) -> (r: Result<(u128, u128), NftError>)
        ensures
            final(registry).spec_nonce() == old(registry).spec_nonce(),
            old(self)@.wf() ==> final(self)@.wf(),
            match r {
                Ok((start_idx, end_idx)) => spec_signed_mint_non_fungible(
                    old(registry)@,
                    old(self)@,
                    who,
                    receiver,
                    collection_id,
                    amount,
                    uri@,
                ) == Ok::<_, NftError>((final(registry)@, final(self)@, start_idx, end_idx)),
                Err(e) => spec_signed_mint_non_fungible(
                    old(registry)@,
                    old(self)@,
                    who,
                    receiver,
                    collection_id,
                    amount,
                    uri@,
                ) == Err::<(Map<u128, CollectionInfoView>, LedgerView, u128, u128), _>(e)
                    && final(self)@ == old(self)@ && final(registry)@ == old(registry)@,
            },
    {
        let owner_ok = match registry.get_collection(collection_id) {
            Some(c) => c.owner == who,
            None => {
                return Err(NftError::CollectionNotFound);
            },
        };
        if !owner_ok {
            return Err(NftError::PermissionDenied);
        }
        self._mint_non_fungible(registry, receiver, collection_id, amount, uri)
    }

    /// Mints fungible tokens on behalf of `who`, who must own the collection.
    pub fn mint_fungible(
        &mut self,
        registry: &mut CollectionRegistry,
        who: AccountId,
        receiver: AccountId,
        collection_id: u128,
        amount: u128,
    ) -> (r: Result<(), NftError>)
        ensures
            final(registry).spec_nonce() == old(registry).spec_nonce(),
            old(self)@.wf() ==> final(self)@.wf(),
            match r {
                Ok(()) => spec_signed_mint_fungible(
                    old(registry)@,
                    old(self)@,
                    who,
                    receiver,
                    collection_id,
                    amount,
                ) == Ok::<_, NftError>((final(registry)@, final(self)@)),
                Err(e) => spec_signed_mint_fungible(
                    old(registry)@,
                    old(self)@,
                    who,
                    receiver,
                    collection_id,
                    amount,
                ) == Err::<(Map<u128, CollectionInfoView>, LedgerView), _>(e) && final(self)@
                    == old(self)@ && final(registry)@ == old(registry)@,
            },
    {
        let owner_ok = match registry.get_collection(collection_id) {
            Some(c) => c.owner == who,
            None => {
                return Err(NftError::CollectionNotFound);
            },
        };
        if !owner_ok {
            return Err(NftError::PermissionDenied);
        }
        self._mint_fungible(registry, receiver, collection_id, amount)
    }

    /// Mints a contiguous range of non-fungible tokens for `receiver`.
    pub fn _mint_non_fungible(
        &mut self,
        registry: &mut CollectionRegistry,
        receiver: AccountId,
        collection_id: u128,
        amount: u128,
        uri: Vec<u8>,
    ) -> (r: Result<(u128, u128), NftError>)
        ensures
            final(registry).spec_nonce() == old(registry).spec_nonce(),
            match r {
                Ok((start_idx, end_idx)) => spec_mint_non_fungible(
                    old(registry)@,
                    old(self)@,
                    receiver,
                    collection_id,
                    amount,
                    uri@,
                ) == Ok::<_, NftError>((final(registry)@, final(self)@, start_idx, end_idx)),
                Err(e) => spec_mint_non_fungible(
                    old(registry)@,
                    old(self)@,
                    receiver,
                    collection_id,
                    amount,
                    uri@,
                ) == Err::<(Map<u128, CollectionInfoView>, LedgerView, u128, u128), _>(e)
                    && final(self)@ == old(self)@ && final(registry)@ == old(registry)@,
            },
            old(self)@.wf() ==> final(self)@.wf(),
    {
        if !registry.collection_exist(collection_id) {
            return Err(NftError::CollectionNotFound);
        }
        if amount < 1 {
            return Err(NftError::AmountLessThanOne);
        }
        let is_nf_ok = match registry.get_collection(collection_id) {
            Some(c) => match c.token_type {
                Some(t) => t == TokenType::NonFungible,
                None => true,
            },
            None => false,
        };
        if !is_nf_ok {
            return Err(NftError::WrongTokenType);
        }
        let start_idx: u128 = match self.last_token_id.get(collection_id) {
            Some(last) => {
                if *last == u128::MAX {
                    return Err(NftError::NumOverflow);
                }
                *last + 1
            },
            None => 0,
        };
        if start_idx > u128::MAX - (amount - 1) {
            return Err(NftError::NumOverflow);
        }
        let end_idx: u128 = start_idx + (amount - 1);
        let owner_balance = self.get_balance(collection_id, receiver);
        if owner_balance > u128::MAX - amount {
            return Err(NftError::NumOverflow);
        }
        match registry.add_total_supply(collection_id, amount) {
            Ok(_) => {},
            Err(CollectionError::NumOverflow) => {
                return Err(NftError::NumOverflow);
            },
            Err(CollectionError::CollectionNotFound) => {
                return Err(NftError::CollectionNotFound);
            },
        }
        let ghost oldtok = self.tokens@;
        self.last_token_id.insert(collection_id, end_idx);
        self.balances.insert(collection_id, receiver, owner_balance + amount);
        let token = TokenInfo { end_idx, owner: receiver, uri };
        let ghost gtoken = token;
        self.tokens.insert(collection_id, start_idx, token);
        proof {
            lemma_tokens_view_insert(oldtok, collection_id, start_idx, gtoken);
            if old(self)@.wf() {
                lemma_wf_insert(old(self)@.tokens, collection_id, start_idx, gtoken@);
            }
            let target = spec_mint_non_fungible(
                old(registry)@,
                old(self)@,
                receiver,
                collection_id,
                amount,
                gtoken.uri@,
            );
            assert(target is Ok);
            assert(self@.tokens =~= target->Ok_0.1.tokens);
            assert(self@.balances =~= target->Ok_0.1.balances);
            assert(self@ == target->Ok_0.1);
        }
        Ok((start_idx, end_idx))
    }

    /// Mints fungible tokens for `receiver`.
    pub fn _mint_fungible(
        &mut self,
        registry: &mut CollectionRegistry,
        receiver: AccountId,
        collection_id: u128,
        amount: u128,
    ) -> (r: Result<(), NftError>)
        ensures
            final(registry).spec_nonce() == old(registry).spec_nonce(),
            match r {
                Ok(()) => spec_mint_fungible(
                    old(registry)@,
                    old(self)@,
                    receiver,
                    collection_id,
                    amount,
                ) == Ok::<_, NftError>((final(registry)@, final(self)@)),
                Err(e) => spec_mint_fungible(
                    old(registry)@,
                    old(self)@,
                    receiver,
                    collection_id,
                    amount,
                ) == Err::<(Map<u128, CollectionInfoView>, LedgerView), _>(e) && final(self)@
                    == old(self)@ && final(registry)@ == old(registry)@,
            },
            old(self)@.wf() ==> final(self)@.wf(),
    {
        if !registry.collection_exist(collection_id) {
            return Err(NftError::CollectionNotFound);
        }
        if amount < 1 {
            return Err(NftError::AmountLessThanOne);
        }
        let is_ft_ok = match registry.get_collection(collection_id) {
            Some(c) => match c.token_type {
                Some(t) => t == TokenType::Fungible,
                None => true,
            },
            None => false,
        };
        if !is_ft_ok {
            return Err(NftError::WrongTokenType);
        }
        let owner_balance = self.get_balance(collection_id, receiver);
        if owner_balance > u128::MAX - amount {
            return Err(NftError::NumOverflow);
        }
        match registry.add_total_supply(collection_id, amount) {
            Ok(_) => {},
            Err(CollectionError::NumOverflow) => {
                return Err(NftError::NumOverflow);
            },
            Err(CollectionError::CollectionNotFound) => {
                return Err(NftError::CollectionNotFound);
            },
        }
        self.balances.insert(collection_id, receiver, owner_balance + amount);
        Ok(())
    }

    /// Transfers `amount` non-fungible tokens out of the range at
    /// `start_idx`: the tail of the range moves to `receiver`.
    pub fn _transfer_non_fungible(
        &mut self,
        registry: &CollectionRegistry,
        who: AccountId,
        receiver: AccountId,
        collection_id: u128,
        start_idx: u128,
        amount: u128,
    ) -> (r: Result<(), NftError>)
        requires
            old(self)@.wf(),
        ensures
            final(self)@.wf(),
            match r {
                Ok(()) => spec_transfer_non_fungible(
                    registry@,
                    old(self)@,
                    who,
                    receiver,
                    collection_id,
                    start_idx,
                    amount,
                ) == Ok::<_, NftError>(final(self)@),
                Err(e) => spec_transfer_non_fungible(
                    registry@,
                    old(self)@,
                    who,
                    receiver,
                    collection_id,
                    start_idx,
                    amount,
                ) == Err::<LedgerView, _>(e) && final(self)@ == old(self)@,
            },
    {
        if who == receiver {
            return Err(NftError::ReceiverIsSender);
        }
        if amount < 1 {
            return Err(NftError::AmountLessThanOne);
        }
        if !registry.collection_exist(collection_id) {
            return Err(NftError::CollectionNotFound);
        }
        if !self.tokens.contains(collection_id, start_idx) {
            return Err(NftError::TokenNotFound);
        }
        let is_nf_ok = match registry.get_collection(collection_id) {
            Some(c) => match c.token_type {
                Some(t) => t == TokenType::NonFungible,
                None => true,
            },
            None => false,
        };
        if !is_nf_ok {
            return Err(NftError::WrongTokenType);
        }
        let (token_end, token_owner, token_uri) = match self.tokens.get(collection_id, start_idx) {
            Some(t) => (t.end_idx, t.owner, crate::collection::copy_bytes(&t.uri)),
            None => {
                return Err(NftError::TokenNotFound);
            },
        };
        if token_owner != who {
            return Err(NftError::PermissionDenied);
        }
        if amount > 1 {
            if start_idx == 0 && token_end == u128::MAX {
                return Err(NftError::NumOverflow);
            }
            if token_end - start_idx + 1 < amount {
                return Err(NftError::AmountTooLarge);
            }
        }
        let sender_balance = self.get_balance(collection_id, who);
        if sender_balance < amount {
            return Err(NftError::NumOverflow);
        }
        let receiver_balance = self.get_balance(collection_id, receiver);
        if receiver_balance > u128::MAX - amount {
            return Err(NftError::NumOverflow);
        }
        let receiver_start: u128 = token_end - (amount - 1);
        let ghost oldtok0 = self.tokens@;
        if receiver_start == start_idx {
            let moved = TokenInfo { end_idx: token_end, owner: receiver, uri: token_uri };
            let ghost gmoved = moved;
            self.tokens.insert(collection_id, start_idx, moved);
            proof {
                lemma_tokens_view_insert(oldtok0, collection_id, start_idx, gmoved);
                lemma_wf_insert(old(self)@.tokens, collection_id, start_idx, gmoved@);
            }
        } else {
            let moved = TokenInfo {
                end_idx: token_end,
                owner: receiver,
                uri: crate::collection::copy_bytes(&token_uri),
            };
            let ghost gmoved = moved;
            self.tokens.insert(collection_id, receiver_start, moved);
            let ghost oldtok1 = self.tokens@;
            let kept = TokenInfo { end_idx: receiver_start - 1, owner: who, uri: token_uri };
            let ghost gkept = kept;
            self.tokens.insert(collection_id, start_idx, kept);
            proof {
                lemma_tokens_view_insert(oldtok0, collection_id, receiver_start, gmoved);
                lemma_tokens_view_insert(oldtok1, collection_id, start_idx, gkept);
                lemma_wf_insert(old(self)@.tokens, collection_id, receiver_start, gmoved@);
                lemma_wf_insert(
                    map2_insert(old(self)@.tokens, collection_id, receiver_start, gmoved@),
                    collection_id,
                    start_idx,
                    gkept@,
                );
            }
        }
        self.balances.insert(collection_id, who, sender_balance - amount);
        self.balances.insert(collection_id, receiver, receiver_balance + amount);
        proof {
            let target = spec_transfer_non_fungible(
                registry@,
                old(self)@,
                who,
                receiver,
                collection_id,
                start_idx,
                amount,
            );
            assert(target is Ok);
            assert(self@.tokens =~= target->Ok_0.tokens);
            assert(self@.balances =~= target->Ok_0.balances);
            assert(self@ == target->Ok_0);
        }
        Ok(())
    }

    /// Whether a non-fungible transfer with these arguments would succeed,
    /// and with which error it would fail: a read-only check used to keep
    /// operations that combine several transfers atomic.
    pub fn check_transfer_non_fungible(
        &self,
        registry: &CollectionRegistry,
        who: AccountId,
        receiver: AccountId,
        collection_id: u128,
        start_idx: u128,
        amount: u128,
    ) -> (r: Option<NftError>)
        requires
            self@.wf(),
        ensures
            match r {
                None => spec_transfer_non_fungible(
                    registry@,
                    self@,
                    who,
                    receiver,
                    collection_id,
                    start_idx,
                    amount,
                ) is Ok,
                Some(e) => spec_transfer_non_fungible(
                    registry@,
                    self@,
                    who,
                    receiver,
                    collection_id,
                    start_idx,
                    amount,
                ) == Err::<LedgerView, _>(e),
            },
    {
        if who == receiver {
            return Some(NftError::ReceiverIsSender);
        }
        if amount < 1 {
            return Some(NftError::AmountLessThanOne);
        }
        if !registry.collection_exist(collection_id) {
            return Some(NftError::CollectionNotFound);
        }
        if !self.tokens.contains(collection_id, start_idx) {
            return Some(NftError::TokenNotFound);
        }
        let is_nf_ok = match registry.get_collection(collection_id) {
            Some(c) => match c.token_type {
                Some(t) => t == TokenType::NonFungible,
                None => true,
            },
            None => false,
        };
        if !is_nf_ok {
            return Some(NftError::WrongTokenType);
        }
        let (token_end, token_owner) = match self.tokens.get(collection_id, start_idx) {
            Some(t) => (t.end_idx, t.owner),
            None => {
                return Some(NftError::TokenNotFound);
            },
        };
        if token_owner != who {
            return Some(NftError::PermissionDenied);
        }
        if amount > 1 {
            if start_idx == 0 && token_end == u128::MAX {
                return Some(NftError::NumOverflow);
            }
            if token_end - start_idx + 1 < amount {
                return Some(NftError::AmountTooLarge);
            }
        }
        let sender_balance = self.get_balance(collection_id, who);
        if sender_balance < amount {
            return Some(NftError::NumOverflow);
        }
        let receiver_balance = self.get_balance(collection_id, receiver);
        if receiver_balance > u128::MAX - amount {
            return Some(NftError::NumOverflow);
        }
        None
    }

    /// Whether a fungible transfer with these arguments would succeed, and
    /// with which error it would fail.
    pub fn check_transfer_fungible(
        &self,
        registry: &CollectionRegistry,
        who: AccountId,
        receiver: AccountId,
        collection_id: u128,
        amount: u128,
    ) -> (r: Option<NftError>)
        ensures
            match r {
                None => spec_transfer_fungible(
                    registry@,
                    self@,
                    who,
                    receiver,
                    collection_id,
                    amount,
                ) is Ok,
                Some(e) => spec_transfer_fungible(
                    registry@,
                    self@,
                    who,
                    receiver,
                    collection_id,
                    amount,
                ) == Err::<LedgerView, _>(e),
            },
    {
        if amount < 1 {
            return Some(NftError::AmountLessThanOne);
        }
        if who == receiver {
            return Some(NftError::ReceiverIsSender);
        }
        if !registry.collection_exist(collection_id) {
            return Some(NftError::CollectionNotFound);
        }
        let is_ft_ok = match registry.get_collection(collection_id) {
            Some(c) => match c.token_type {
                Some(t) => t == TokenType::Fungible,
                None => true,
            },
            None => false,
        };
        if !is_ft_ok {
            return Some(NftError::WrongTokenType);
        }
        let sender_balance = self.get_balance(collection_id, who);
        if sender_balance < amount {
            return Some(NftError::AmountTooLarge);
        }
        let receiver_balance = self.get_balance(collection_id, receiver);
        if receiver_balance > u128::MAX - amount {
            return Some(NftError::NumOverflow);
        }
        None
    }

    /// Moves `amount` fungible tokens from `who` to `receiver`.
    pub fn _transfer_fungible(
        &mut self,
        registry: &CollectionRegistry,
        who: AccountId,
        receiver: AccountId,
        collection_id: u128,
        amount: u128,
    ) -> (r: Result<(), NftError>)
        ensures
            match r {
                Ok(()) => spec_transfer_fungible(
                    registry@,
                    old(self)@,
                    who,
                    receiver,
                    collection_id,
                    amount,
                ) == Ok::<_, NftError>(final(self)@),
                Err(e) => spec_transfer_fungible(
                    registry@,
                    old(self)@,
                    who,
                    receiver,
                    collection_id,
                    amount,
                ) == Err::<LedgerView, _>(e) && final(self)@ == old(self)@,
            },
            old(self)@.wf() ==> final(self)@.wf(),
    {
        if amount < 1 {
            return Err(NftError::AmountLessThanOne);
        }
        if who == receiver {
            return Err(NftError::ReceiverIsSender);
        }
        if !registry.collection_exist(collection_id) {
            return Err(NftError::CollectionNotFound);
        }
        let is_ft_ok = match registry.get_collection(collection_id) {
            Some(c) => match c.token_type {
                Some(t) => t == TokenType::Fungible,
                None => true,
            },
            None => false,
        };
        if !is_ft_ok {
            return Err(NftError::WrongTokenType);
        }
        let sender_balance = self.get_balance(collection_id, who);
        if sender_balance < amount {
            return Err(NftError::AmountTooLarge);
        }
        let receiver_balance = self.get_balance(collection_id, receiver);
        if receiver_balance > u128::MAX - amount {
            return Err(NftError::NumOverflow);
        }
        self.balances.insert(collection_id, who, sender_balance - amount);
        self.balances.insert(collection_id, receiver, receiver_balance + amount);
        Ok(())
    }

    /// Burns `amount` non-fungible tokens from the tail of the range at
    /// `start_idx`.
    pub fn _burn_non_fungible(
        &mut self,
        registry: &mut CollectionRegistry,
        who: AccountId,
        collection_id: u128,
        start_idx: u128,
        amount: u128,
    ) -> (r: Result<(), NftError>)
        requires
            old(self)@.wf(),
        ensures
            final(self)@.wf(),
            final(registry).spec_nonce() == old(registry).spec_nonce(),
            match r {
                Ok(()) => spec_burn_non_fungible(
                    old(registry)@,
                    old(self)@,
                    who,
                    collection_id,
                    start_idx,
                    amount,
                ) == Ok::<_, NftError>((final(registry)@, final(self)@)),
                Err(e) => spec_burn_non_fungible(
                    old(registry)@,
                    old(self)@,
                    who,
                    collection_id,
                    start_idx,
                    amount,
                ) == Err::<(Map<u128, CollectionInfoView>, LedgerView), _>(e) && final(self)@
                    == old(self)@ && final(registry)@ == old(registry)@,
            },
    {
        if amount < 1 {
            return Err(NftError::AmountLessThanOne);
        }
        if !registry.collection_exist(collection_id) {
            return Err(NftError::CollectionNotFound);
        }
        if !self.tokens.contains(collection_id, start_idx) {
            return Err(NftError::TokenNotFound);
        }
        let is_nf_ok = match registry.get_collection(collection_id) {
            Some(c) => match c.token_type {
                Some(t) => t == TokenType::NonFungible,
                None => true,
            },
            None => false,
        };
        if !is_nf_ok {
            return Err(NftError::WrongTokenType);
        }
        let (token_end, token_owner, token_uri) = match self.tokens.get(collection_id, start_idx) {
            Some(t) => (t.end_idx, t.owner, crate::collection::copy_bytes(&t.uri)),
            None => {
                return Err(NftError::TokenNotFound);
            },
        };
        if token_owner != who {
            return Err(NftError::PermissionDenied);
        }
        if amount > 1 {
            if start_idx == 0 && token_end == u128::MAX {
                return Err(NftError::NumOverflow);
            }
            if token_end - start_idx + 1 < amount {
                return Err(NftError::AmountTooLarge);
            }
        }
        let balance = self.get_balance(collection_id, who);
        if balance < amount {
            return Err(NftError::NumOverflow);
        }
        let burned_before = self.get_burned_amount(collection_id);
        if burned_before > u128::MAX - amount {
            return Err(NftError::NumOverflow);
        }
        {
            let supply_ok = match registry.get_collection(collection_id) {
                Some(c) => c.total_supply >= amount,
                None => false,
            };
            if !supply_ok {
                return Err(NftError::NumOverflow);
            }
        }
        match registry.sub_total_supply(collection_id, amount) {
            Ok(_) => {},
            Err(_) => {
                return Err(NftError::NumOverflow);
            },
        }
        let burn_start: u128 = token_end - (amount - 1);
        let ghost oldtok0 = self.tokens@;
        if burn_start == start_idx {
            self.tokens.remove(collection_id, start_idx);
            proof {
                lemma_tokens_view_remove(oldtok0, collection_id, start_idx);
                lemma_wf_remove(old(self)@.tokens, collection_id, start_idx);
            }
        } else {
            let kept = TokenInfo { end_idx: burn_start - 1, owner: who, uri: token_uri };
            let ghost gkept = kept;
            self.tokens.insert(collection_id, start_idx, kept);
            proof {
                lemma_tokens_view_insert(oldtok0, collection_id, start_idx, gkept);
                lemma_wf_insert(old(self)@.tokens, collection_id, start_idx, gkept@);
            }
        }
        self.balances.insert(collection_id, who, balance - amount);
        self.burned.insert(collection_id, burned_before + amount);
        proof {
            let target = spec_burn_non_fungible(
                old(registry)@,
                old(self)@,
                who,
                collection_id,
                start_idx,
                amount,
            );
            assert(target is Ok);
            assert(self@.tokens =~= target->Ok_0.1.tokens);
            assert(self@.balances =~= target->Ok_0.1.balances);
            assert(self@ == target->Ok_0.1);
        }
        Ok(())
    }

    /// Burns `amount` fungible tokens from `who`'s balance.
    pub fn _burn_fungible(
        &mut self,
        registry: &mut CollectionRegistry,
        who: AccountId,
        collection_id: u128,
        amount: u128,
    ) -> (r: Result<(), NftError>)
        ensures
            final(registry).spec_nonce() == old(registry).spec_nonce(),
            match r {
                Ok(()) => spec_burn_fungible(
                    old(registry)@,
                    old(self)@,
                    who,
                    collection_id,
                    amount,
                ) == Ok::<_, NftError>((final(registry)@, final(self)@)),
                Err(e) => spec_burn_fungible(
                    old(registry)@,
                    old(self)@,
                    who,
                    collection_id,
                    amount,
                ) == Err::<(Map<u128, CollectionInfoView>, LedgerView), _>(e) && final(self)@
                    == old(self)@ && final(registry)@ == old(registry)@,
            },
            old(self)@.wf() ==> final(self)@.wf(),
    {
        if amount < 1 {
            return Err(NftError::AmountLessThanOne);
        }
        if !registry.collection_exist(collection_id) {
            return Err(NftError::CollectionNotFound);
        }
        let is_ft_ok = match registry.get_collection(collection_id) {
            Some(c) => match c.token_type {
                Some(t) => t == TokenType::Fungible,
                None => true,
            },
            None => false,
        };
        if !is_ft_ok {
            return Err(NftError::WrongTokenType);
        }
        let balance = self.get_balance(collection_id, who);
        if balance < amount {
            return Err(NftError::AmountTooLarge);
        }
        let burned_before = self.get_burned_amount(collection_id);
        if burned_before > u128::MAX - amount {
            return Err(NftError::NumOverflow);
        }
        {
            let supply_ok = match registry.get_collection(collection_id) {
                Some(c) => c.total_supply >= amount,
                None => false,
            };
            if !supply_ok {
                return Err(NftError::NumOverflow);
            }
        }
        match registry.sub_total_supply(collection_id, amount) {
            Ok(_) => {},
            Err(_) => {
                return Err(NftError::NumOverflow);
            },
        }
        self.balances.insert(collection_id, who, balance - amount);
        self.burned.insert(collection_id, burned_before + amount);
        Ok(())
    }
}

} // verus!
