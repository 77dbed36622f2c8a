//! Keyed stores used by every module: a single-key table and a two-key table,
//! both backed by `std::collections::HashMap` with integer keys and viewed as
//! mathematical maps.

use vstd::prelude::*;
use std::collections::HashMap;

verus! {

/// A keyed store with `u128` keys, viewed as a `Map<u128, T>`.
pub struct Table<T> {
    map: HashMap<u128, T>,
}

impl<T> View for Table<T> {
    type V = Map<u128, T>;

    closed spec fn view(&self) -> Map<u128, T> {
        self.map@
    }
}

impl<T> Table<T> {
    pub fn new() -> (r: Self)
        ensures
            r@ == Map::<u128, T>::empty(),
    {
        Table { map: HashMap::new() }
    }

    pub fn contains(&self, k: u128) -> (r: bool)
        ensures
            r == self@.contains_key(k),
    {
        self.map.contains_key(&k)
    }

    pub fn get(&self, k: u128) -> (r: Option<&T>)
        ensures
            match r {
                Some(v) => self@.contains_key(k) && *v == self@[k],
                None => !self@.contains_key(k),
            },
    {
        self.map.get(&k)
    }

    pub fn insert(&mut self, k: u128, v: T)
        ensures
            final(self)@ == old(self)@.insert(k, v),
    {
        self.map.insert(k, v);
    }

    pub fn remove(&mut self, k: u128)
        ensures
            final(self)@ == old(self)@.remove(k),
    {
        self.map.remove(&k);
    }
}

impl Table<u128> {
    /// An identical copy of the table; used to settle a run of transfers all
    /// or nothing.
    pub fn fork(&self) -> (r: Self)
        ensures
            r@ == self@,
    {
        Table { map: self.map.clone() }
    }
}

/// The view that a two-key insert produces: the inner map at `k1` (empty when
/// absent) gains the binding `k2 -> v`.
pub open spec fn map2_insert<T>(
    m: Map<u128, Map<u128, T>>,
    k1: u128,
    k2: u128,
    v: T,
) -> Map<u128, Map<u128, T>> {
    let inner = if m.contains_key(k1) {
        m[k1]
    } else {
        Map::<u128, T>::empty()
    };
    m.insert(k1, inner.insert(k2, v))
}

/// The view that a two-key remove produces.
pub open spec fn map2_remove<T>(
    m: Map<u128, Map<u128, T>>,
    k1: u128,
    k2: u128,
) -> Map<u128, Map<u128, T>> {
    if m.contains_key(k1) {
        m.insert(k1, m[k1].remove(k2))
    } else {
        m
    }
}

/// Whether the two-key view holds a binding at `(k1, k2)`.
pub open spec fn map2_has<T>(m: Map<u128, Map<u128, T>>, k1: u128, k2: u128) -> bool {
    m.contains_key(k1) && m[k1].contains_key(k2)
}

/// The value bound at `(k1, k2)` in the two-key view.
pub open spec fn map2_get<T>(m: Map<u128, Map<u128, T>>, k1: u128, k2: u128) -> T
    recommends
        map2_has(m, k1, k2),
{
    m[k1][k2]
}

/// A keyed store with a pair of `u128` keys, viewed as a nested
/// `Map<u128, Map<u128, T>>`.
pub struct PairTable<T> {
    map: HashMap<u128, HashMap<u128, T>>,
}

impl<T> View for PairTable<T> {
    type V = Map<u128, Map<u128, T>>;

    closed spec fn view(&self) -> Map<u128, Map<u128, T>> {
        Map::new(|k: u128| self.map@.contains_key(k), |k: u128| self.map@[k]@)
    }
}

impl<T> PairTable<T> {
    pub fn new() -> (r: Self)
        ensures
            r@ == Map::<u128, Map<u128, T>>::empty(),
    {
        let t = PairTable { map: HashMap::new() };
        proof {
            assert(t@ =~= Map::<u128, Map<u128, T>>::empty());
        }
        t
    }

    pub fn contains(&self, k1: u128, k2: u128) -> (r: bool)
        ensures
            r == map2_has(self@, k1, k2),
    {
        match self.map.get(&k1) {
            Some(inner) => inner.contains_key(&k2),
            None => false,
        }
    }

    pub fn get(&self, k1: u128, k2: u128) -> (r: Option<&T>)
        ensures
            match r {
                Some(v) => map2_has(self@, k1, k2) && *v == map2_get(self@, k1, k2),
                None => !map2_has(self@, k1, k2),
            },
    {
        match self.map.get(&k1) {
            Some(inner) => inner.get(&k2),
            None => None,
        }
    }

    pub fn insert(&mut self, k1: u128, k2: u128, v: T)
        ensures
            final(self)@ == map2_insert(old(self)@, k1, k2, v),
    {
        let ghost oldview = self@;
        let mut inner = match self.map.remove(&k1) {
            Some(im) => im,
            None => HashMap::new(),
        };
        inner.insert(k2, v);
        self.map.insert(k1, inner);
        proof {
            assert(self@ =~= map2_insert(oldview, k1, k2, v));
        }
    }

    pub fn remove(&mut self, k1: u128, k2: u128)
        ensures
            final(self)@ == map2_remove(old(self)@, k1, k2),
    {
        let ghost oldview = self@;
        match self.map.remove(&k1) {
            Some(mut im) => {
                im.remove(&k2);
                self.map.insert(k1, im);
                proof {
                    assert(self@ =~= map2_remove(oldview, k1, k2));
                }
            },
            None => {
                proof {
                    assert(self@ =~= map2_remove(oldview, k1, k2));
                }
            },
        }
    }

    /// Removes every binding whose first key is `k1`.
    pub fn remove_all(&mut self, k1: u128)
        ensures
            final(self)@ == old(self)@.remove(k1),
    {
        let ghost oldview = self@;
        self.map.remove(&k1);
        proof {
            assert(self@ =~= oldview.remove(k1));
        }
    }
}

} // verus!
