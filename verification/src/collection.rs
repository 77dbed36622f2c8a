//! The collection registry: owns collection metadata and the total-supply
//! counters that the token ledger and the exchange mutate.

use vstd::prelude::*;
use crate::ids;
use crate::store::Table;
use crate::types::AccountId;

verus! {

/// The kind of tokens a collection holds.
#[derive(Clone, Copy, Debug, PartialEq, Eq, Structural)]
pub enum TokenType {
    /// Unique tokens, stored as ranges of ids.
    NonFungible,
    /// Interchangeable tokens, stored as plain balances.
    Fungible,
}

/// Details of a collection.
pub struct CollectionInfo {
    pub owner: AccountId,
    pub uri: Vec<u8>,
    pub total_supply: u128,
    pub token_type: Option<TokenType>,
}

/// The mathematical value of a [`CollectionInfo`].
pub struct CollectionInfoView {
    pub owner: AccountId,
    pub uri: Seq<u8>,
    pub total_supply: u128,
    pub token_type: Option<TokenType>,
}

impl View for CollectionInfo {
    type V = CollectionInfoView;

    open spec fn view(&self) -> CollectionInfoView {
        CollectionInfoView {
            owner: self.owner,
            uri: self.uri@,
            total_supply: self.total_supply,
            token_type: self.token_type,
        }
    }
}

/// Errors of the collection registry.
#[derive(Clone, Copy, Debug, PartialEq, Eq, Structural)]
pub enum CollectionError {
    /// A checked addition or subtraction failed.
    NumOverflow,
    /// The collection does not exist.
    CollectionNotFound,
}

/// The domain salt mixed into every collection id preimage.
pub open spec fn spec_collection_salt() -> Seq<u8> {
    seq![0x43u8, 0x6fu8, 0x6cu8, 0x6cu8, 0x65u8, 0x63u8, 0x74u8, 0x69u8]
}

fn collection_salt() -> (r: Vec<u8>)
    ensures
        r@ == spec_collection_salt(),
{
    let r: Vec<u8> = vec![0x43u8, 0x6fu8, 0x6cu8, 0x6cu8, 0x65u8, 0x63u8, 0x74u8, 0x69u8];
    proof {
        assert(r@ =~= spec_collection_salt());
    }
    r
}

/// The collection id derived from a random seed and a nonce.
pub open spec fn collection_id_of(seed: Seq<u8>, nonce: u128) -> u128 {
    ids::spec_generate_id(spec_collection_salt(), seed, nonce)
}

/// The registry: a nonce for id derivation and the collections themselves,
/// keyed by collection id.
pub struct CollectionRegistry {
    nonce: u128,
    collections: Table<CollectionInfo>,
}

impl View for CollectionRegistry {
    type V = Map<u128, CollectionInfoView>;

    closed spec fn view(&self) -> Map<u128, CollectionInfoView> {
        Map::new(
            |k: u128| self.collections@.contains_key(k),
            |k: u128| self.collections@[k]@,
        )
    }
}

impl CollectionRegistry {
    pub closed spec fn spec_nonce(&self) -> u128 {
        self.nonce
    }

    pub fn new() -> (r: Self)
        ensures
            r@ == Map::<u128, CollectionInfoView>::empty(),
            r.spec_nonce() == 0,
    {
        let r = CollectionRegistry { nonce: 0, collections: Table::new() };
        proof {
            assert(r@ =~= Map::<u128, CollectionInfoView>::empty());
        }
        r
    }

    /// Whether a collection with this id exists.
    pub fn collection_exist(&self, collection_id: u128) -> (r: bool)
        ensures
            r == self@.contains_key(collection_id),
    {
        self.collections.contains(collection_id)
    }

    /// The collection with this id, if any.
    pub fn get_collection(&self, collection_id: u128) -> (r: Option<&CollectionInfo>)
        ensures
            match r {
                Some(c) => self@.contains_key(collection_id) && c@ == self@[collection_id],
                None => !self@.contains_key(collection_id),
            },
    {
        self.collections.get(collection_id)
    }

    /// Reads the current nonce.
    pub fn get_nonce(&self) -> (r: u128)
        ensures
            r == self.spec_nonce(),
    {
        self.nonce
    }

    /// Advances the nonce by one and returns the new value; fails only when
    /// the counter is exhausted.
    pub fn nonce_increment(&mut self) -> (r: Result<u128, CollectionError>)
        ensures
            final(self)@ == old(self)@,
            match r {
                Ok(n) => old(self).spec_nonce() < u128::MAX && n == old(self).spec_nonce() + 1
                    && final(self).spec_nonce() == n,
                Err(e) => e == CollectionError::NumOverflow && old(self).spec_nonce() == u128::MAX
                    && final(self).spec_nonce() == old(self).spec_nonce(),
            },
    {
        if self.nonce == u128::MAX {
            Err(CollectionError::NumOverflow)
        } else {
            self.nonce = self.nonce + 1;
            Ok(self.nonce)
        }
    }

    /// Derives a collection id from a nonce and a random seed.
    pub fn generate_collection_id(&self, nonce: u128, seed: &Vec<u8>) -> (r: u128)
        ensures
            r == collection_id_of(seed@, nonce),
    {
        let salt = collection_salt();
        ids::generate_id(salt.as_slice(), seed, nonce)
    }

    /// Creates a collection: advances the nonce, derives the id from it and
    /// the given seed, and registers the collection with zero supply. Fails
    /// only when the nonce is exhausted.
    pub fn _create_collection(
        &mut self,
        who: AccountId,
        uri: Vec<u8>,
        is_fungible: bool,
        seed: &Vec<u8>,
    ) -> (r: Result<u128, CollectionError>)
        ensures
            match r {
                Ok(id) => {
                    &&& old(self).spec_nonce() < u128::MAX
                    &&& final(self).spec_nonce() == old(self).spec_nonce() + 1
                    &&& id == collection_id_of(seed@, (old(self).spec_nonce() + 1) as u128)
                    &&& final(self)@ == old(self)@.insert(
                        id,
                        CollectionInfoView {
                            owner: who,
                            uri: uri@,
                            total_supply: 0,
                            token_type: Some(
                                if is_fungible {
                                    TokenType::Fungible
                                } else {
                                    TokenType::NonFungible
                                },
                            ),
                        },
                    )
                },
                Err(e) => {
                    &&& e == CollectionError::NumOverflow
                    &&& old(self).spec_nonce() == u128::MAX
                    &&& final(self)@ == old(self)@
                    &&& final(self).spec_nonce() == old(self).spec_nonce()
                },
            },
    {
        let ghost oldview = self@;
        let nonce = match self.nonce_increment() {
            Ok(n) => n,
            Err(e) => {
                return Err(e);
            },
        };
        let collection_id = self.generate_collection_id(nonce, seed);
        let token_type = if is_fungible {
            Some(TokenType::Fungible)
        } else {
            Some(TokenType::NonFungible)
        };
        let ghost target = oldview.insert(
            collection_id,
            CollectionInfoView { owner: who, uri: uri@, total_supply: 0, token_type },
        );
        let collection = CollectionInfo { owner: who, uri, total_supply: 0, token_type };
        self.collections.insert(collection_id, collection);
        proof {
            assert(self@ =~= target);
        }
        Ok(collection_id)
    }

    /// Creates a collection on behalf of `who`: the signed entry around
    /// `_create_collection`.
    pub fn create_collection(
        &mut self,
        who: AccountId,
        uri: Vec<u8>,
        is_fungible: bool,
        seed: &Vec<u8>,
    ) -> (r: Result<u128, CollectionError>)
        ensures
            match r {
                Ok(id) => {
                    &&& old(self).spec_nonce() < u128::MAX
                    &&& final(self).spec_nonce() == old(self).spec_nonce() + 1
                    &&& id == collection_id_of(seed@, (old(self).spec_nonce() + 1) as u128)
                    &&& final(self)@ == old(self)@.insert(
                        id,
                        CollectionInfoView {
                            owner: who,
                            uri: uri@,
                            total_supply: 0,
                            token_type: Some(
                                if is_fungible {
                                    TokenType::Fungible
                                } else {
                                    TokenType::NonFungible
                                },
                            ),
                        },
                    )
                },
                Err(e) => {
                    &&& e == CollectionError::NumOverflow
                    &&& old(self).spec_nonce() == u128::MAX
                    &&& final(self)@ == old(self)@
                    &&& final(self).spec_nonce() == old(self).spec_nonce()
                },
            },
    {
        self._create_collection(who, uri, is_fungible, seed)
    }

    /// Removes the registry entry; the caller is responsible for having
    /// cleared the collection's tokens first.
    pub fn destory_collection(&mut self, collection_id: u128)
        ensures
            final(self)@ == old(self)@.remove(collection_id),
            final(self).spec_nonce() == old(self).spec_nonce(),
    {
        let ghost oldview = self@;
        self.collections.remove(collection_id);
        proof {
            assert(self@ =~= oldview.remove(collection_id));
        }
    }

    /// Adds `amount` to a collection's total supply, checked.
    pub fn add_total_supply(&mut self, collection_id: u128, amount: u128) -> (r: Result<
        u128,
        CollectionError,
    >)
        ensures
            final(self).spec_nonce() == old(self).spec_nonce(),
            match r {
                Ok(total) => {
                    &&& old(self)@.contains_key(collection_id)
                    &&& old(self)@[collection_id].total_supply + amount <= u128::MAX
                    &&& total == old(self)@[collection_id].total_supply + amount
                    &&& final(self)@ == old(self)@.insert(
                        collection_id,
                        CollectionInfoView { total_supply: total, ..old(self)@[collection_id] },
                    )
                },
                Err(CollectionError::CollectionNotFound) => {
                    &&& !old(self)@.contains_key(collection_id)
                    &&& final(self)@ == old(self)@
                },
                Err(CollectionError::NumOverflow) => {
                    &&& old(self)@.contains_key(collection_id)
                    &&& old(self)@[collection_id].total_supply + amount > u128::MAX
                    &&& final(self)@ == old(self)@
                },
            },
    {
        let ghost oldview = self@;
        let collection = match self.collections.get(collection_id) {
            Some(c) => c,
            None => {
                return Err(CollectionError::CollectionNotFound);
            },
        };
        if collection.total_supply > u128::MAX - amount {
            return Err(CollectionError::NumOverflow);
        }
        let total = collection.total_supply + amount;
        let updated = CollectionInfo {
            owner: collection.owner,
            uri: copy_bytes(&collection.uri),
            total_supply: total,
            token_type: collection.token_type,
        };
        self.collections.insert(collection_id, updated);
        proof {
            assert(self@ =~= oldview.insert(
                collection_id,
                CollectionInfoView { total_supply: total, ..oldview[collection_id] },
            ));
        }
        Ok(total)
    }

    /// Subtracts `amount` from a collection's total supply; fails when the
    /// supply is smaller than `amount`.
    pub fn sub_total_supply(&mut self, collection_id: u128, amount: u128) -> (r: Result<
        u128,
        CollectionError,
    >)
        ensures
            final(self).spec_nonce() == old(self).spec_nonce(),
            match r {
                Ok(total) => {
                    &&& old(self)@.contains_key(collection_id)
                    &&& old(self)@[collection_id].total_supply >= amount
                    &&& total == old(self)@[collection_id].total_supply - amount
                    &&& final(self)@ == old(self)@.insert(
                        collection_id,
                        CollectionInfoView { total_supply: total, ..old(self)@[collection_id] },
                    )
                },
                Err(CollectionError::CollectionNotFound) => {
                    &&& !old(self)@.contains_key(collection_id)
                    &&& final(self)@ == old(self)@
                },
                Err(CollectionError::NumOverflow) => {
                    &&& old(self)@.contains_key(collection_id)
                    &&& old(self)@[collection_id].total_supply < amount
                    &&& final(self)@ == old(self)@
                },
            },
    {
        let ghost oldview = self@;
        let collection = match self.collections.get(collection_id) {
            Some(c) => c,
            None => {
                return Err(CollectionError::CollectionNotFound);
            },
        };
        if collection.total_supply < amount {
            return Err(CollectionError::NumOverflow);
        }
        let total = collection.total_supply - amount;
        let updated = CollectionInfo {
            owner: collection.owner,
            uri: copy_bytes(&collection.uri),
            total_supply: total,
            token_type: collection.token_type,
        };
        self.collections.insert(collection_id, updated);
        proof {
            assert(self@ =~= oldview.insert(
                collection_id,
                CollectionInfoView { total_supply: total, ..oldview[collection_id] },
            ));
        }
        Ok(total)
    }
}

/// Byte-for-byte copy of a byte vector.
pub(crate) fn copy_bytes(v: &Vec<u8>) -> (r: Vec<u8>)
    ensures
        r@ == v@,
{
    let mut out: Vec<u8> = Vec::new();
    let mut i: usize = 0;
    while i < v.len()
        invariant
            0 <= i <= v@.len(),
            out@ == v@.take(i as int),
        decreases v@.len() - i,
    {
        out.push(v[i]);
        i = i + 1;
    }
    proof {
        assert(v@.take(v@.len() as int) =~= v@);
    }
    out
}

} // verus!
