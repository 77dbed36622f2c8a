//! The sub-token factory: locks one non-fungible token into custody, opens a
//! fresh collection owned by the factory in its place, and mints derivative
//! tokens against it; once a single account holds the whole derivative supply
//! (and nothing was burned), the locked token can be recovered.

use vstd::prelude::*;
use crate::collection::{
    collection_id_of, CollectionError, CollectionInfoView, CollectionRegistry, TokenType,
};
use crate::nft::{
    spec_mint_fungible, spec_mint_non_fungible, spec_transfer_non_fungible, LedgerView, NftError,
    TokenLedger,
};
use crate::store::Table;
use crate::types::AccountId;

verus! {

/// The account that holds locked tokens and owns derivative collections.
pub const SUB_ACCOUNT: AccountId = 0x537562546f6b656e;

/// Errors of the sub-token factory.
#[derive(Clone, Copy, Debug, PartialEq, Eq, Structural)]
pub enum SubError {
    /// The collection does not exist.
    CollectionNotFound,
    /// The collection is not a derivative collection.
    SubTokenNotFound,
    /// The token record does not exist.
    TokenNotFound,
    /// The caller may not do this.
    PermissionDenied,
    /// Derivative tokens were burned, so the lock cannot be undone.
    BurnedtokensExistent,
    /// The token ledger refused the movement.
    Nft(NftError),
    /// The collection registry refused the update.
    Collection(CollectionError),
}

/// The mathematical state of the factory.
pub struct SubView {
    /// `derivative collection -> its creator`.
    pub creators: Map<u128, u128>,
    /// `derivative collection -> the locked token's (collection, start)`.
    pub sub_tokens: Map<u128, (u128, u128)>,
}

/// What `create` does: one token moves into factory custody (the tail of the
/// caller's range, so the locked token sits at the old range's end), and a
/// fresh collection carrying the token's uri is registered to the factory.
pub open spec fn spec_create(
    sv: SubView,
    reg: Map<u128, CollectionInfoView>,
    reg_nonce: u128,
    led: LedgerView,
    who: AccountId,
    collection_id: u128,
    start_idx: u128,
    is_fungible: bool,
    seed: Seq<u8>,
) -> Result<(SubView, Map<u128, CollectionInfoView>, u128, LedgerView, u128), SubError> {
    match spec_transfer_non_fungible(reg, led, who, SUB_ACCOUNT, collection_id, start_idx, 1) {
        Err(e) => Err(SubError::Nft(e)),
        Ok(led2) => {
            let locked_idx = led.token_at(collection_id, start_idx).end_idx;
            let uri = led.token_at(collection_id, start_idx).uri;
            if reg_nonce == u128::MAX {
                Err(SubError::Collection(CollectionError::NumOverflow))
            } else {
                let sub_id = collection_id_of(seed, (reg_nonce + 1) as u128);
                let reg2 = led_reg_insert(reg, sub_id, uri, is_fungible);
                let sv2 = SubView {
                    creators: sv.creators.insert(sub_id, who),
                    sub_tokens: sv.sub_tokens.insert(sub_id, (collection_id, locked_idx)),
                };
                Ok((sv2, reg2, (reg_nonce + 1) as u128, led2, sub_id))
            }
        },
    }
}

/// The registry with a fresh factory-owned collection added.
pub open spec fn led_reg_insert(
    reg: Map<u128, CollectionInfoView>,
    sub_id: u128,
    uri: Seq<u8>,
    is_fungible: bool,
) -> Map<u128, CollectionInfoView> {
    reg.insert(
        sub_id,
        CollectionInfoView {
            owner: SUB_ACCOUNT,
            uri,
            total_supply: 0,
            token_type: Some(
                if is_fungible {
                    TokenType::Fungible
                } else {
                    TokenType::NonFungible
                },
            ),
        },
    )
}

/// What `recover` does: whoever holds the derivative collection's whole
/// supply (its creator, when nothing was ever minted), provided nothing was
/// burned, takes the locked token back; the factory's records are erased,
/// the locked token's registry entry is removed, and any remaining
/// derivative records are cleared.
pub open spec fn spec_recover(
    sv: SubView,
    reg: Map<u128, CollectionInfoView>,
    led: LedgerView,
    who: AccountId,
    sub_token_collection_id: u128,
) -> Result<(SubView, Map<u128, CollectionInfoView>, LedgerView), SubError> {
    if !reg.contains_key(sub_token_collection_id) {
        Err(SubError::CollectionNotFound)
    } else if !sv.sub_tokens.contains_key(sub_token_collection_id) {
        Err(SubError::SubTokenNotFound)
    } else {
        let total = reg[sub_token_collection_id].total_supply;
        if led.balance_at(sub_token_collection_id, who) != total {
            Err(SubError::PermissionDenied)
        } else if led.burned_at(sub_token_collection_id) != 0 {
            Err(SubError::BurnedtokensExistent)
        } else if total == 0 && (!sv.creators.contains_key(sub_token_collection_id)
            || sv.creators[sub_token_collection_id] != who) {
            Err(SubError::PermissionDenied)
        } else {
            let locked = sv.sub_tokens[sub_token_collection_id];
            match spec_transfer_non_fungible(reg, led, SUB_ACCOUNT, who, locked.0, locked.1, 1) {
                Err(e) => Err(SubError::Nft(e)),
                Ok(led2) => {
                    let sv2 = SubView {
                        creators: sv.creators.remove(sub_token_collection_id),
                        sub_tokens: sv.sub_tokens.remove(sub_token_collection_id),
                    };
                    let reg2 = reg.remove(locked.0);
                    let led3 = if total != 0 {
                        LedgerView {
                            tokens: led2.tokens.remove(sub_token_collection_id),
                            ..led2
                        }
                    } else {
                        led2
                    };
                    Ok((sv2, reg2, led3))
                },
            }
        }
    }
}

/// What the factory's mints do before delegating to the ledger: the
/// derivative collection must exist, be on record, be owned by the factory,
/// and be minted by its creator.
pub open spec fn spec_mint_checks(
    sv: SubView,
    reg: Map<u128, CollectionInfoView>,
    who: AccountId,
    sub_token_collection_id: u128,
) -> Option<SubError> {
    if !reg.contains_key(sub_token_collection_id) {
        Some(SubError::CollectionNotFound)
    } else if !sv.sub_tokens.contains_key(sub_token_collection_id) {
        Some(SubError::SubTokenNotFound)
    } else if reg[sub_token_collection_id].owner != SUB_ACCOUNT {
        Some(SubError::PermissionDenied)
    } else if !sv.creators.contains_key(sub_token_collection_id)
        || sv.creators[sub_token_collection_id] != who {
        Some(SubError::PermissionDenied)
    } else {
        None
    }
}

/// The factory's stored state.
pub struct SubFactory {
    creators: Table<u128>,
    sub_tokens: Table<(u128, u128)>,
}

impl View for SubFactory {
    type V = SubView;

    closed spec fn view(&self) -> SubView {
        SubView { creators: self.creators@, sub_tokens: self.sub_tokens@ }
    }
}

impl SubFactory {
    pub fn new() -> (r: Self)
        ensures
            r@.creators == Map::<u128, u128>::empty(),
            r@.sub_tokens == Map::<u128, (u128, u128)>::empty(),
    {
        SubFactory { creators: Table::new(), sub_tokens: Table::new() }
    }

    /// The factory's custody account.
    pub fn account_id() -> (r: AccountId)
        ensures
            r == SUB_ACCOUNT,
    {
        SUB_ACCOUNT
    }

    /// The creator of a derivative collection, if any.
    pub fn sub_token_creator(&self, sub_token_collection_id: u128) -> (r: Option<AccountId>)
        ensures
            match r {
                Some(c) => self@.creators.contains_key(sub_token_collection_id) && c
                    == self@.creators[sub_token_collection_id],
                None => !self@.creators.contains_key(sub_token_collection_id),
            },
    {
        match self.creators.get(sub_token_collection_id) {
            Some(c) => Some(*c),
            None => None,
        }
    }

    /// The locked token behind a derivative collection, if any.
    pub fn sub_tokens(&self, sub_token_collection_id: u128) -> (r: Option<(u128, u128)>)
        ensures
            match r {
                Some(t) => self@.sub_tokens.contains_key(sub_token_collection_id) && t
                    == self@.sub_tokens[sub_token_collection_id],
                None => !self@.sub_tokens.contains_key(sub_token_collection_id),
            },
    {
        match self.sub_tokens.get(sub_token_collection_id) {
            Some(t) => Some(*t),
            None => None,
        }
    }

    /// Locks one token and opens a derivative collection in its place.
    /// Returns the new collection's id.
    pub fn create(
        &mut self,
        registry: &mut CollectionRegistry,
        ledger: &mut TokenLedger,
        who: AccountId,
        collection_id: u128,
        start_idx: u128,
        is_fungible: bool,
        seed: &Vec<u8>,
    ) -> (r: Result<u128, SubError>)
        requires
            old(ledger)@.wf(),
        ensures
            final(ledger)@.wf(),
            match r {
                Ok(sub_id) => spec_create(
                    old(self)@,
                    old(registry)@,
                    old(registry).spec_nonce(),
                    old(ledger)@,
                    who,
                    collection_id,
                    start_idx,
                    is_fungible,
                    seed@,
                ) == Ok::<_, SubError>(
                    (
                        final(self)@,
                        final(registry)@,
                        final(registry).spec_nonce(),
                        final(ledger)@,
                        sub_id,
                    ),
                ),
                Err(e) => spec_create(
                    old(self)@,
                    old(registry)@,
                    old(registry).spec_nonce(),
                    old(ledger)@,
                    who,
                    collection_id,
                    start_idx,
                    is_fungible,
                    seed@,
                ) == Err::<
                    (SubView, Map<u128, CollectionInfoView>, u128, LedgerView, u128),
                    _,
                >(e) && final(self)@ == old(self)@ && final(registry)@ == old(registry)@
                    && final(registry).spec_nonce() == old(registry).spec_nonce()
                    && final(ledger)@ == old(ledger)@,
            },
    {
        let pre_token: Option<(u128, Vec<u8>)> = match ledger.get_nft_token(
            collection_id,
            start_idx,
        ) {
            Some(t) => Some((t.end_idx, crate::collection::copy_bytes(&t.uri))),
            None => None,
        };
        if registry.get_nonce() == u128::MAX {
            // the registry could not register the new collection; check the
            // transfer's own outcome first to report the earlier error
            match ledger.check_transfer_non_fungible(
                registry,
                who,
                SUB_ACCOUNT,
                collection_id,
                start_idx,
                1,
            ) {
                Some(e) => {
                    return Err(SubError::Nft(e));
                },
                None => {
                    return Err(SubError::Collection(CollectionError::NumOverflow));
                },
            }
        }
        match ledger._transfer_non_fungible(
            registry,
            who,
            SUB_ACCOUNT,
            collection_id,
            start_idx,
            1,
        ) {
            Ok(()) => {},
            Err(e) => {
                return Err(SubError::Nft(e));
            },
        }
        let (locked_idx, uri) = match pre_token {
            Some(t) => t,
            None => {
                // the transfer succeeded, so the record existed
                return Err(SubError::TokenNotFound);
            },
        };
        let sub_id = match registry._create_collection(SUB_ACCOUNT, uri, is_fungible, seed) {
            Ok(id) => id,
            Err(e) => {
                return Err(SubError::Collection(e));
            },
        };
        self.creators.insert(sub_id, who);
        self.sub_tokens.insert(sub_id, (collection_id, locked_idx));
        Ok(sub_id)
    }

    /// Recovers the locked token to whoever holds the derivative
    /// collection's whole supply, erasing the derivative records.
    pub fn recover(
        &mut self,
        registry: &mut CollectionRegistry,
        ledger: &mut TokenLedger,
        who: AccountId,
        sub_token_collection_id: u128,
    ) -> (r: Result<(), SubError>)
        requires
            old(ledger)@.wf(),
        ensures
            final(ledger)@.wf(),
            final(registry).spec_nonce() == old(registry).spec_nonce(),
            match r {
                Ok(()) => spec_recover(
                    old(self)@,
                    old(registry)@,
                    old(ledger)@,
                    who,
                    sub_token_collection_id,
                ) == Ok::<_, SubError>((final(self)@, final(registry)@, final(ledger)@)),
                Err(e) => spec_recover(
                    old(self)@,
                    old(registry)@,
                    old(ledger)@,
                    who,
                    sub_token_collection_id,
                ) == Err::<(SubView, Map<u128, CollectionInfoView>, LedgerView), _>(e)
                    && final(self)@ == old(self)@ && final(registry)@ == old(registry)@
                    && final(ledger)@ == old(ledger)@,
            },
    {
        let total = match registry.get_collection(sub_token_collection_id) {
            Some(c) => c.total_supply,
            None => {
                return Err(SubError::CollectionNotFound);
            },
        };
        let locked = match self.sub_tokens.get(sub_token_collection_id) {
            Some(t) => *t,
            None => {
                return Err(SubError::SubTokenNotFound);
            },
        };
        if ledger.get_balance(sub_token_collection_id, who) != total {
            return Err(SubError::PermissionDenied);
        }
        if ledger.get_burned_amount(sub_token_collection_id) != 0 {
            return Err(SubError::BurnedtokensExistent);
        }
        if total == 0 {
            let creator_ok = match self.creators.get(sub_token_collection_id) {
                Some(c) => *c == who,
                None => false,
            };
            if !creator_ok {
                return Err(SubError::PermissionDenied);
            }
        }
        match ledger._transfer_non_fungible(registry, SUB_ACCOUNT, who, locked.0, locked.1, 1) {
            Ok(()) => {},
            Err(e) => {
                return Err(SubError::Nft(e));
            },
        }
        self.creators.remove(sub_token_collection_id);
        self.sub_tokens.remove(sub_token_collection_id);
        registry.destory_collection(locked.0);
        if total != 0 {
            ledger.destory_collection(sub_token_collection_id);
        }
        Ok(())
    }

    /// Mints derivative non-fungible tokens; only the collection's creator
    /// may mint. Returns the minted range.
    pub fn mint_non_fungible(
        &self,
        registry: &mut CollectionRegistry,
        ledger: &mut TokenLedger,
        who: AccountId,
        receiver: AccountId,
        sub_token_collection_id: u128,
        uri: Vec<u8>,
        amount: u128,
    ) -> (r: Result<(u128, u128), SubError>)
        ensures
            final(registry).spec_nonce() == old(registry).spec_nonce(),
            old(ledger)@.wf() ==> final(ledger)@.wf(),
            match spec_mint_checks(self@, old(registry)@, who, sub_token_collection_id) {
                Some(e0) => r == Err::<(u128, u128), SubError>(e0) && final(ledger)@ == old(ledger)@
                    && final(registry)@ == old(registry)@,
                None => match r {
                    Ok((s, e)) => spec_mint_non_fungible(
                        old(registry)@,
                        old(ledger)@,
                        receiver,
                        sub_token_collection_id,
                        amount,
                        uri@,
                    ) == Ok::<_, NftError>((final(registry)@, final(ledger)@, s, e)),
                    Err(SubError::Nft(e)) => spec_mint_non_fungible(
                        old(registry)@,
                        old(ledger)@,
                        receiver,
                        sub_token_collection_id,
                        amount,
                        uri@,
                    ) == Err::<(Map<u128, CollectionInfoView>, LedgerView, u128, u128), _>(e)
                        && final(ledger)@ == old(ledger)@ && final(registry)@ == old(registry)@,
                    Err(_) => false,
                },
            },
    {
        if !registry.collection_exist(sub_token_collection_id) {
            return Err(SubError::CollectionNotFound);
        }
        if !self.sub_tokens.contains(sub_token_collection_id) {
            return Err(SubError::SubTokenNotFound);
        }
        let owner_ok = match registry.get_collection(sub_token_collection_id) {
            Some(c) => c.owner == SUB_ACCOUNT,
            None => false,
        };
        if !owner_ok {
            return Err(SubError::PermissionDenied);
        }
        let creator_ok = match self.creators.get(sub_token_collection_id) {
            Some(c) => *c == who,
            None => false,
        };
        if !creator_ok {
            return Err(SubError::PermissionDenied);
        }
        match ledger._mint_non_fungible(registry, receiver, sub_token_collection_id, amount, uri) {
            Ok(bounds) => Ok(bounds),
            Err(e) => Err(SubError::Nft(e)),
        }
    }

    /// Mints derivative fungible tokens; only the collection's creator may
    /// mint.
    pub fn mint_fungible(
        &self,
        registry: &mut CollectionRegistry,
        ledger: &mut TokenLedger,
        who: AccountId,
        receiver: AccountId,
        sub_token_collection_id: u128,
        amount: u128,
    ) -> (r: Result<(), SubError>)
        ensures
            final(registry).spec_nonce() == old(registry).spec_nonce(),
            old(ledger)@.wf() ==> final(ledger)@.wf(),
            match spec_mint_checks(self@, old(registry)@, who, sub_token_collection_id) {
                Some(e0) => r == Err::<(), SubError>(e0) && final(ledger)@ == old(ledger)@
                    && final(registry)@ == old(registry)@,
                None => match r {
                    Ok(()) => spec_mint_fungible(
                        old(registry)@,
                        old(ledger)@,
                        receiver,
                        sub_token_collection_id,
                        amount,
                    ) == Ok::<_, NftError>((final(registry)@, final(ledger)@)),
                    Err(SubError::Nft(e)) => spec_mint_fungible(
                        old(registry)@,
                        old(ledger)@,
                        receiver,
                        sub_token_collection_id,
                        amount,
                    ) == Err::<(Map<u128, CollectionInfoView>, LedgerView), _>(e)
                        && final(ledger)@ == old(ledger)@ && final(registry)@ == old(registry)@,
                    Err(_) => false,
                },
            },
    {
        if !registry.collection_exist(sub_token_collection_id) {
            return Err(SubError::CollectionNotFound);
        }
        if !self.sub_tokens.contains(sub_token_collection_id) {
            return Err(SubError::SubTokenNotFound);
        }
        let owner_ok = match registry.get_collection(sub_token_collection_id) {
            Some(c) => c.owner == SUB_ACCOUNT,
            None => false,
        };
        if !owner_ok {
            return Err(SubError::PermissionDenied);
        }
        let creator_ok = match self.creators.get(sub_token_collection_id) {
            Some(c) => *c == who,
            None => false,
        };
        if !creator_ok {
            return Err(SubError::PermissionDenied);
        }
        match ledger._mint_fungible(registry, receiver, sub_token_collection_id, amount) {
            Ok(()) => Ok(()),
            Err(e) => Err(SubError::Nft(e)),
        }
    }
}

} // verus!
