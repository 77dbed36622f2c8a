//! The graph linker: a forest of parent/child links over non-fungible tokens,
//! with fungible balances attachable to any linked token. A linked token is
//! held by the graph's custody account; whoever owns the root of its tree may
//! move it or its attached balances. The ancestor walks are iterative and
//! bounded by the number of links, with an explicit error on a cycle.

use vstd::prelude::*;
use crate::collection::{CollectionInfoView, CollectionRegistry};
use crate::nft::{spec_transfer_fungible, spec_transfer_non_fungible, LedgerView, NftError,
    TokenLedger};
use crate::store::{map2_get, map2_has, map2_insert, PairTable, Table};
use crate::types::AccountId;

verus! {

/// The account that holds linked tokens in custody.
pub const GRAPH_ACCOUNT: AccountId = 0x47726170684e4654;

/// Errors of the graph linker.
#[derive(Clone, Copy, Debug, PartialEq, Eq, Structural)]
pub enum GraphError {
    /// The caller is not the root owner.
    PermissionDenied,
    /// The amount exceeds what is attached.
    AmountTooLarge,
    /// A checked arithmetic step failed.
    NumOverflow,
    /// The parent's collection does not exist.
    ParentCollectionNotFound,
    /// The token record does not exist.
    TokenNotFound,
    /// A link leads to a token that no longer exists.
    RootTokenNotFound,
    /// The parent has no balance of that fungible collection attached to the
    /// child.
    ChildHadNoBalance,
    /// Linking an ancestor under its own descendant is refused.
    CanNotLinkAncestorToDescendant,
    /// The token is not a linked child.
    ChildTokenNotFound,
    /// A token that still has children cannot be recovered.
    CanNotRecoverParentToken,
    /// The link walk exceeded the number of links: the links form a cycle.
    CyclicLink,
    /// The token ledger refused the movement.
    Nft(NftError),
}

/// The mathematical state of the graph.
pub struct GraphView {
    /// `(child collection, child token) -> (parent collection, parent token)`.
    pub child_to_parent: Map<u128, Map<u128, (u128, u128)>>,
    /// `(parent collection, parent token) -> linked children`; entries are
    /// only ever removed by re-linking, not by recovery.
    pub children: Map<u128, Map<u128, Seq<(u128, u128)>>>,
    /// `(parent collection, parent token) -> fungible collection -> amount`.
    pub parent_balance: Map<u128, Map<u128, Map<u128, u128>>>,
    /// How many links exist; bounds every ancestor walk.
    pub links: u128,
}

impl GraphView {
    /// The fungible balance attached to a token, zero when unrecorded.
    pub open spec fn balance_at(self, pcid: u128, ptid: u128, fcid: u128) -> u128 {
        if map2_has(self.parent_balance, pcid, ptid) && map2_get(
            self.parent_balance,
            pcid,
            ptid,
        ).contains_key(fcid) {
            map2_get(self.parent_balance, pcid, ptid)[fcid]
        } else {
            0
        }
    }

    /// Whether a token has linked children on record.
    pub open spec fn has_children(self, pcid: u128, ptid: u128) -> bool {
        map2_has(self.children, pcid, ptid) && map2_get(self.children, pcid, ptid).len() > 0
    }
}

/// The walk budget for a link count: one more step than there are links, so
/// running out means the links form a cycle.
pub open spec fn walk_fuel(links: u128) -> nat {
    if links == u128::MAX {
        links as nat
    } else {
        (links + 1) as nat
    }
}

/// The owner of the root of a token's link chain, walked with `fuel` steps:
/// a token not held by the graph account is its own root; a held token's
/// chain is followed through `child_to_parent`.
pub open spec fn spec_root_owner(
    g: GraphView,
    led: LedgerView,
    cid: u128,
    tid: u128,
    fuel: nat,
) -> Result<AccountId, GraphError>
    decreases fuel,
{
    if !led.has_token(cid, tid) {
        Err(GraphError::RootTokenNotFound)
    } else if led.token_at(cid, tid).owner != GRAPH_ACCOUNT {
        Ok(led.token_at(cid, tid).owner)
    } else if !map2_has(g.child_to_parent, cid, tid) {
        Err(GraphError::RootTokenNotFound)
    } else if fuel == 0 {
        Err(GraphError::CyclicLink)
    } else {
        let parent = map2_get(g.child_to_parent, cid, tid);
        spec_root_owner(g, led, parent.0, parent.1, (fuel - 1) as nat)
    }
}

/// Whether `(acid, atid)` is an ancestor of `(dcid, dtid)`, walked with
/// `fuel` steps up the parent chain.
pub open spec fn spec_is_ancestor(
    g: GraphView,
    led: LedgerView,
    acid: u128,
    atid: u128,
    dcid: u128,
    dtid: u128,
    fuel: nat,
) -> Result<bool, GraphError>
    decreases fuel,
{
    if !map2_has(g.child_to_parent, dcid, dtid) {
        Ok(false)
    } else {
        let parent = map2_get(g.child_to_parent, dcid, dtid);
        if !led.has_token(parent.0, parent.1) {
            Err(GraphError::RootTokenNotFound)
        } else if parent.0 == acid && parent.1 == atid {
            Ok(true)
        } else if fuel == 0 {
            Err(GraphError::CyclicLink)
        } else {
            spec_is_ancestor(g, led, acid, atid, parent.0, parent.1, (fuel - 1) as nat)
        }
    }
}


/// What `link_non_fungible` does: the child token (taken into custody on its
/// first link) is attached under the parent, re-pointing any earlier link;
/// a token may never be linked under its own descendant. The ancestor check
/// runs before the custody transfer, so a refused link changes nothing.
pub open spec fn spec_link_non_fungible(
    g: GraphView,
    reg: Map<u128, CollectionInfoView>,
    led: LedgerView,
    who: AccountId,
    ccid: u128,
    ctid: u128,
    pcid: u128,
    ptid: u128,
) -> Result<(GraphView, LedgerView), GraphError> {
    if !reg.contains_key(pcid) {
        Err(GraphError::ParentCollectionNotFound)
    } else if !led.has_token(pcid, ptid) {
        Err(GraphError::TokenNotFound)
    } else {
        let have_parent = map2_has(g.child_to_parent, ccid, ctid);
        let owner_ok = if have_parent {
            match spec_root_owner(g, led, ccid, ctid, walk_fuel(g.links)) {
                Ok(root) => Ok(root == who),
                Err(e) => Err(e),
            }
        } else {
            Ok(true)
        };
        match owner_ok {
            Err(e) => Err(e),
            Ok(false) => Err(GraphError::PermissionDenied),
            Ok(true) => {
                let anc = if led.token_at(pcid, ptid).owner == GRAPH_ACCOUNT {
                    spec_is_ancestor(g, led, ccid, ctid, pcid, ptid, walk_fuel(g.links))
                } else {
                    Ok(false)
                };
                match anc {
                    Err(e) => Err(e),
                    Ok(true) => Err(GraphError::CanNotLinkAncestorToDescendant),
                    Ok(false) => {
                        if !have_parent && g.links == u128::MAX {
                            Err(GraphError::NumOverflow)
                        } else {
                            let led2r = if have_parent {
                                Ok(led)
                            } else {
                                spec_transfer_non_fungible(
                                    reg,
                                    led,
                                    who,
                                    GRAPH_ACCOUNT,
                                    ccid,
                                    ctid,
                                    1,
                                )
                            };
                            match led2r {
                                Err(e) => Err(GraphError::Nft(e)),
                                Ok(led2) => {
                                    let child_key = if have_parent {
                                        ctid
                                    } else {
                                        led.token_at(ccid, ctid).end_idx
                                    };
                                    let g1 = if have_parent {
                                        let old_parent = map2_get(g.child_to_parent, ccid, ctid);
                                        GraphView {
                                            children: map2_insert(
                                                g.children,
                                                old_parent.0,
                                                old_parent.1,
                                                remove_first(
                                                    children_at(g, old_parent.0, old_parent.1),
                                                    (ccid, child_key),
                                                ),
                                            ),
                                            ..g
                                        }
                                    } else {
                                        g
                                    };
                                    let g2 = GraphView {
                                        child_to_parent: map2_insert(
                                            g1.child_to_parent,
                                            ccid,
                                            child_key,
                                            (pcid, ptid),
                                        ),
                                        children: map2_insert(
                                            g1.children,
                                            pcid,
                                            ptid,
                                            children_at(g1, pcid, ptid).push((ccid, child_key)),
                                        ),
                                        links: if have_parent {
                                            g1.links
                                        } else {
                                            (g1.links + 1) as u128
                                        },
                                        ..g1
                                    };
                                    Ok((g2, led2))
                                },
                            }
                        }
                    },
                }
            },
        }
    }
}

/// A sequence with the first occurrence of a value removed.
pub open spec fn remove_first(s: Seq<(u128, u128)>, v: (u128, u128)) -> Seq<(u128, u128)> {
    match s.index_of_first(v) {
        Some(i) => s.remove(i),
        None => s,
    }
}

/// The children recorded under a token; empty when unrecorded.
pub open spec fn children_at(g: GraphView, pcid: u128, ptid: u128) -> Seq<(u128, u128)> {
    if map2_has(g.children, pcid, ptid) {
        map2_get(g.children, pcid, ptid)
    } else {
        Seq::<(u128, u128)>::empty()
    }
}

/// What `link_fungible` does: fungible tokens are attached under a parent,
/// either fresh from the caller (moved into custody) or re-attached from a
/// child the caller's root ownership reaches; a call naming only one half of
/// a child changes nothing.
pub open spec fn spec_link_fungible(
    g: GraphView,
    reg: Map<u128, CollectionInfoView>,
    led: LedgerView,
    who: AccountId,
    child_collection_id: Option<u128>,
    child_token_id: Option<u128>,
    fcid: u128,
    pcid: u128,
    ptid: u128,
    amount: u128,
) -> Result<(GraphView, LedgerView), GraphError> {
    if !reg.contains_key(pcid) {
        Err(GraphError::ParentCollectionNotFound)
    } else if !led.has_token(pcid, ptid) {
        Err(GraphError::TokenNotFound)
    } else if g.balance_at(pcid, ptid, fcid) + amount > u128::MAX {
        Err(GraphError::NumOverflow)
    } else {
        let new_parent_balance = (g.balance_at(pcid, ptid, fcid) + amount) as u128;
        if child_collection_id is None || child_token_id is None {
            match spec_transfer_fungible(reg, led, who, GRAPH_ACCOUNT, fcid, amount) {
                Err(e) => Err(GraphError::Nft(e)),
                Ok(led2) => Ok(
                    (set_parent_balance(g, pcid, ptid, fcid, new_parent_balance), led2),
                ),
            }
        } else {
            let ccid = child_collection_id->Some_0;
            let ctid = child_token_id->Some_0;
            if !(map2_has(g.parent_balance, ccid, ctid) && map2_get(
                g.parent_balance,
                ccid,
                ctid,
            ).contains_key(fcid)) {
                Err(GraphError::ChildHadNoBalance)
            } else if g.balance_at(ccid, ctid, fcid) < amount {
                Err(GraphError::AmountTooLarge)
            } else {
                match spec_root_owner(g, led, ccid, ctid, walk_fuel(g.links)) {
                    Err(e) => Err(e),
                    Ok(root) => {
                        if root != who {
                            Err(GraphError::PermissionDenied)
                        } else {
                            let child_balance = (g.balance_at(ccid, ctid, fcid) - amount) as u128;
                            let g1 = set_parent_balance(g, ccid, ctid, fcid, child_balance);
                            let g2 = set_parent_balance(g1, pcid, ptid, fcid, new_parent_balance);
                            let g3 = if child_balance == 0 {
                                remove_parent_balance(g2, ccid, ctid, fcid)
                            } else {
                                g2
                            };
                            Ok((g3, led))
                        }
                    },
                }
            }
        }
    }
}

/// The graph with one attached balance written.
pub open spec fn set_parent_balance(
    g: GraphView,
    pcid: u128,
    ptid: u128,
    fcid: u128,
    v: u128,
) -> GraphView {
    let inner = if map2_has(g.parent_balance, pcid, ptid) {
        map2_get(g.parent_balance, pcid, ptid)
    } else {
        Map::<u128, u128>::empty()
    };
    GraphView {
        parent_balance: map2_insert(g.parent_balance, pcid, ptid, inner.insert(fcid, v)),
        ..g
    }
}

/// The graph with one attached balance removed.
pub open spec fn remove_parent_balance(
    g: GraphView,
    pcid: u128,
    ptid: u128,
    fcid: u128,
) -> GraphView {
    let inner = if map2_has(g.parent_balance, pcid, ptid) {
        map2_get(g.parent_balance, pcid, ptid)
    } else {
        Map::<u128, u128>::empty()
    };
    GraphView {
        parent_balance: map2_insert(g.parent_balance, pcid, ptid, inner.remove(fcid)),
        ..g
    }
}

/// What `recover_non_fungible` does: a childless linked token goes back to
/// its root owner and its link is erased; the stale entry in its former
/// parent's child list stays, since only re-linking ever removes one.
pub open spec fn spec_recover_non_fungible(
    g: GraphView,
    reg: Map<u128, CollectionInfoView>,
    led: LedgerView,
    who: AccountId,
    cid: u128,
    tid: u128,
) -> Result<(GraphView, LedgerView), GraphError> {
    if !map2_has(g.child_to_parent, cid, tid) {
        Err(GraphError::ChildTokenNotFound)
    } else if g.has_children(cid, tid) {
        Err(GraphError::CanNotRecoverParentToken)
    } else {
        match spec_root_owner(g, led, cid, tid, walk_fuel(g.links)) {
            Err(e) => Err(e),
            Ok(root) => {
                if root != who {
                    Err(GraphError::PermissionDenied)
                } else {
                    match spec_transfer_non_fungible(reg, led, GRAPH_ACCOUNT, who, cid, tid, 1) {
                        Err(e) => Err(GraphError::Nft(e)),
                        Ok(led2) => {
                            let g2 = GraphView {
                                child_to_parent: crate::store::map2_remove(
                                    g.child_to_parent,
                                    cid,
                                    tid,
                                ),
                                links: if g.links >= 1 {
                                    (g.links - 1) as u128
                                } else {
                                    0
                                },
                                ..g
                            };
                            Ok((g2, led2))
                        },
                    }
                }
            },
        }
    }
}

/// What `recover_fungible` does: attached fungible tokens go back to the
/// root owner of the child they hang on, and the record is erased at zero.
pub open spec fn spec_recover_fungible(
    g: GraphView,
    reg: Map<u128, CollectionInfoView>,
    led: LedgerView,
    who: AccountId,
    ccid: u128,
    ctid: u128,
    fcid: u128,
    amount: u128,
) -> Result<(GraphView, LedgerView), GraphError> {
    if g.balance_at(ccid, ctid, fcid) < amount {
        Err(GraphError::AmountTooLarge)
    } else {
        match spec_root_owner(g, led, ccid, ctid, walk_fuel(g.links)) {
            Err(e) => Err(e),
            Ok(root) => {
                if root != who {
                    Err(GraphError::PermissionDenied)
                } else {
                    match spec_transfer_fungible(reg, led, GRAPH_ACCOUNT, who, fcid, amount) {
                        Err(e) => Err(GraphError::Nft(e)),
                        Ok(led2) => {
                            let child_balance = (g.balance_at(ccid, ctid, fcid) - amount) as u128;
                            let g1 = set_parent_balance(g, ccid, ctid, fcid, child_balance);
                            let g2 = if child_balance == 0 {
                                remove_parent_balance(g1, ccid, ctid, fcid)
                            } else {
                                g1
                            };
                            Ok((g2, led2))
                        },
                    }
                }
            },
        }
    }
}

/// The graph's stored state.
pub struct Graph {
    child_to_parent: PairTable<(u128, u128)>,
    children: PairTable<Vec<(u128, u128)>>,
    parent_balance: PairTable<Table<u128>>,
    links: u128,
}

/// The mathematical value of the stored children table.
pub open spec fn children_view(m: Map<u128, Map<u128, Vec<(u128, u128)>>>) -> Map<
    u128,
    Map<u128, Seq<(u128, u128)>>,
> {
    Map::new(
        |c: u128| m.contains_key(c),
        |c: u128| Map::new(|s: u128| m[c].contains_key(s), |s: u128| m[c][s]@),
    )
}

proof fn lemma_children_view_insert(
    m: Map<u128, Map<u128, Vec<(u128, u128)>>>,
    c: u128,
    s: u128,
    v: Vec<(u128, u128)>,
)
    ensures
        children_view(map2_insert(m, c, s, v)) == map2_insert(children_view(m), c, s, v@),
{
    let lhs = children_view(map2_insert(m, c, s, v));
    let rhs = map2_insert(children_view(m), c, s, v@);
    assert forall|k: u128| #[trigger] lhs.contains_key(k) implies lhs[k] == rhs[k] by {
        if k == c {
            assert(lhs[k] =~= rhs[k]);
        } else {
            assert(map2_insert(m, c, s, v)[k] == m[k]);
            assert(lhs[k] =~= rhs[k]);
        }
    }
    assert(lhs =~= rhs);
}

/// The mathematical value of the stored balance table.
pub open spec fn pb_view(m: Map<u128, Map<u128, Table<u128>>>) -> Map<
    u128,
    Map<u128, Map<u128, u128>>,
> {
    Map::new(
        |c: u128| m.contains_key(c),
        |c: u128| Map::new(|s: u128| m[c].contains_key(s), |s: u128| m[c][s]@),
    )
}

proof fn lemma_pb_view_insert(m: Map<u128, Map<u128, Table<u128>>>, c: u128, s: u128, v: Table<u128>)
    ensures
        pb_view(map2_insert(m, c, s, v)) == map2_insert(pb_view(m), c, s, v@),
{
    let lhs = pb_view(map2_insert(m, c, s, v));
    let rhs = map2_insert(pb_view(m), c, s, v@);
    assert forall|k: u128| #[trigger] lhs.contains_key(k) implies lhs[k] == rhs[k] by {
        if k == c {
            assert(lhs[k] =~= rhs[k]);
        } else {
            assert(map2_insert(m, c, s, v)[k] == m[k]);
            assert(lhs[k] =~= rhs[k]);
        }
    }
    assert(lhs =~= rhs);
}

impl View for Graph {
    type V = GraphView;

    closed spec fn view(&self) -> GraphView {
        GraphView {
            child_to_parent: self.child_to_parent@,
            children: children_view(self.children@),
            parent_balance: pb_view(self.parent_balance@),
            links: self.links,
        }
    }
}

impl Graph {
    pub fn new() -> (r: Self)
        ensures
            r@.child_to_parent == Map::<u128, Map<u128, (u128, u128)>>::empty(),
            r@.children == Map::<u128, Map<u128, Seq<(u128, u128)>>>::empty(),
            r@.parent_balance == Map::<u128, Map<u128, Map<u128, u128>>>::empty(),
            r@.links == 0,
    {
        let r = Graph {
            child_to_parent: PairTable::new(),
            children: PairTable::new(),
            parent_balance: PairTable::new(),
            links: 0,
        };
        proof {
            assert(r@.children =~= Map::<u128, Map<u128, Seq<(u128, u128)>>>::empty());
            assert(r@.parent_balance =~= Map::<u128, Map<u128, Map<u128, u128>>>::empty());
        }
        r
    }

    /// The graph's custody account.
    pub fn account_id() -> (r: AccountId)
        ensures
            r == GRAPH_ACCOUNT,
    {
        GRAPH_ACCOUNT
    }

    /// The parent of a linked token, if any.
    pub fn child_to_parent(&self, cid: u128, tid: u128) -> (r: Option<(u128, u128)>)
        ensures
            match r {
                Some(p) => map2_has(self@.child_to_parent, cid, tid) && p == map2_get(
                    self@.child_to_parent,
                    cid,
                    tid,
                ),
                None => !map2_has(self@.child_to_parent, cid, tid),
            },
    {
        match self.child_to_parent.get(cid, tid) {
            Some(p) => Some(*p),
            None => None,
        }
    }

    /// The fungible balance attached to a token; zero when unrecorded.
    pub fn parent_balance(&self, pcid: u128, ptid: u128, fcid: u128) -> (r: u128)
        ensures
            r == self@.balance_at(pcid, ptid, fcid),
    {
        match self.parent_balance.get(pcid, ptid) {
            Some(t) => match t.get(fcid) {
                Some(v) => *v,
                None => 0,
            },
            None => 0,
        }
    }

    /// The owner of the root of a token's link chain.
    pub fn find_root_owner(&self, ledger: &TokenLedger, cid: u128, tid: u128) -> (r: Result<
        AccountId,
        GraphError,
    >)
        ensures
            r == spec_root_owner(self@, ledger@, cid, tid, walk_fuel(self@.links)),
    {
        let mut cur_cid = cid;
        let mut cur_tid = tid;
        let mut fuel: u128 = if self.links == u128::MAX {
            u128::MAX
        } else {
            self.links + 1
        };
        loop
            invariant
                spec_root_owner(self@, ledger@, cid, tid, walk_fuel(self@.links))
                    == spec_root_owner(self@, ledger@, cur_cid, cur_tid, fuel as nat),
            decreases fuel,
        {
            let (owner, exists) = match ledger.get_nft_token(cur_cid, cur_tid) {
                Some(t) => (t.owner, true),
                None => (0, false),
            };
            if !exists {
                return Err(GraphError::RootTokenNotFound);
            }
            if owner != GRAPH_ACCOUNT {
                return Ok(owner);
            }
            let parent = match self.child_to_parent.get(cur_cid, cur_tid) {
                Some(p) => *p,
                None => {
                    return Err(GraphError::RootTokenNotFound);
                },
            };
            if fuel == 0 {
                return Err(GraphError::CyclicLink);
            }
            cur_cid = parent.0;
            cur_tid = parent.1;
            fuel = fuel - 1;
        }
    }

    /// Whether one token is an ancestor of another.
    pub fn is_ancestor(
        &self,
        ledger: &TokenLedger,
        acid: u128,
        atid: u128,
        dcid: u128,
        dtid: u128,
    ) -> (r: Result<bool, GraphError>)
        ensures
            r == spec_is_ancestor(self@, ledger@, acid, atid, dcid, dtid, walk_fuel(self@.links)),
    {
        let mut cur_cid = dcid;
        let mut cur_tid = dtid;
        let mut fuel: u128 = if self.links == u128::MAX {
            u128::MAX
        } else {
            self.links + 1
        };
        loop
            invariant
                spec_is_ancestor(self@, ledger@, acid, atid, dcid, dtid, walk_fuel(self@.links))
                    == spec_is_ancestor(self@, ledger@, acid, atid, cur_cid, cur_tid, fuel as nat),
            decreases fuel,
        {
            let parent = match self.child_to_parent.get(cur_cid, cur_tid) {
                Some(p) => *p,
                None => {
                    return Ok(false);
                },
            };
            if !ledger.token_exist(parent.0, parent.1) {
                return Err(GraphError::RootTokenNotFound);
            }
            if parent.0 == acid && parent.1 == atid {
                return Ok(true);
            }
            if fuel == 0 {
                return Err(GraphError::CyclicLink);
            }
            cur_cid = parent.0;
            cur_tid = parent.1;
            fuel = fuel - 1;
        }
    }

    /// Links a child token under a parent token; on its first link the child
    /// moves into graph custody, on a re-link the caller must own the root.
    pub fn link_non_fungible(
        &mut self,
        registry: &CollectionRegistry,
        ledger: &mut TokenLedger,
        who: AccountId,
        child_collection_id: u128,
        child_token_id: u128,
        parent_collection_id: u128,
        parent_token_id: u128,
    ) -> (r: Result<(), GraphError>)
        requires
            old(ledger)@.wf(),
        ensures
            final(ledger)@.wf(),
            match r {
                Ok(()) => spec_link_non_fungible(
                    old(self)@,
                    registry@,
                    old(ledger)@,
                    who,
                    child_collection_id,
                    child_token_id,
                    parent_collection_id,
                    parent_token_id,
                ) == Ok::<_, GraphError>((final(self)@, final(ledger)@)),
                Err(e) => spec_link_non_fungible(
                    old(self)@,
                    registry@,
                    old(ledger)@,
                    who,
                    child_collection_id,
                    child_token_id,
                    parent_collection_id,
                    parent_token_id,
                ) == Err::<(GraphView, LedgerView), _>(e) && final(self)@ == old(self)@ && final(ledger)@ == old(ledger)@,
            },
    {
        if !registry.collection_exist(parent_collection_id) {
            return Err(GraphError::ParentCollectionNotFound);
        }
        if !ledger.token_exist(parent_collection_id, parent_token_id) {
            return Err(GraphError::TokenNotFound);
        }
        let have_parent = self.child_to_parent.contains(child_collection_id, child_token_id);
        if have_parent {
            let root = match self.find_root_owner(ledger, child_collection_id, child_token_id) {
                Ok(root) => root,
                Err(e) => {
                    return Err(e);
                },
            };
            if root != who {
                return Err(GraphError::PermissionDenied);
            }
        }
        let parent_owner = match ledger.get_nft_token(parent_collection_id, parent_token_id) {
            Some(t) => t.owner,
            None => {
                return Err(GraphError::TokenNotFound);
            },
        };
        if parent_owner == GRAPH_ACCOUNT {
            let is_anc = match self.is_ancestor(
                ledger,
                child_collection_id,
                child_token_id,
                parent_collection_id,
                parent_token_id,
            ) {
                Ok(b) => b,
                Err(e) => {
                    return Err(e);
                },
            };
            if is_anc {
                return Err(GraphError::CanNotLinkAncestorToDescendant);
            }
        }
        if !have_parent && self.links == u128::MAX {
            return Err(GraphError::NumOverflow);
        }
        let child_key: u128 = if have_parent {
            child_token_id
        } else {
            match ledger.get_nft_token(child_collection_id, child_token_id) {
                Some(t) => t.end_idx,
                None => child_token_id,
            }
        };
        if !have_parent {
            match ledger._transfer_non_fungible(
                registry,
                who,
                GRAPH_ACCOUNT,
                child_collection_id,
                child_token_id,
                1,
            ) {
                Ok(()) => {},
                Err(e) => {
                    return Err(GraphError::Nft(e));
                },
            }
        }
        if have_parent {
            let (opcid, optid) = match self.child_to_parent.get(
                child_collection_id,
                child_token_id,
            ) {
                Some(p) => (p.0, p.1),
                None => (0, 0),
            };
            let mut list: Vec<(u128, u128)> = match self.children.get(opcid, optid) {
                Some(v) => copy_pairs(v),
                None => Vec::new(),
            };
            remove_first_pair(&mut list, (child_collection_id, child_key));
            let ghost glist = list;
            let ghost oldch = self.children@;
            self.children.insert(opcid, optid, list);
            proof {
                lemma_children_view_insert(oldch, opcid, optid, glist);
                if !map2_has(old(self)@.children, opcid, optid) {
                    assert(glist@ =~= remove_first(
                        children_at(old(self)@, opcid, optid),
                        (child_collection_id, child_key),
                    ));
                }
            }
        }
        let mut plist: Vec<(u128, u128)> = match self.children.get(
            parent_collection_id,
            parent_token_id,
        ) {
            Some(v) => copy_pairs(v),
            None => Vec::new(),
        };
        plist.push((child_collection_id, child_key));
        let ghost gplist = plist;
        let ghost oldch2 = self.children@;
        self.children.insert(parent_collection_id, parent_token_id, plist);
        self.child_to_parent.insert(
            child_collection_id,
            child_key,
            (parent_collection_id, parent_token_id),
        );
        if !have_parent {
            self.links = self.links + 1;
        }
        proof {
            lemma_children_view_insert(oldch2, parent_collection_id, parent_token_id, gplist);
            let target = spec_link_non_fungible(
                old(self)@,
                registry@,
                old(ledger)@,
                who,
                child_collection_id,
                child_token_id,
                parent_collection_id,
                parent_token_id,
            );
            assert(target is Ok);
            assert(self@.children =~= target->Ok_0.0.children);
            assert(self@.child_to_parent =~= target->Ok_0.0.child_to_parent);
            assert(self@ == target->Ok_0.0);
        }
        Ok(())
    }

    /// Attaches fungible tokens under a parent token, from the caller or from
    /// another child they control; naming only half a child changes nothing.
    pub fn link_fungible(
        &mut self,
        registry: &CollectionRegistry,
        ledger: &mut TokenLedger,
        who: AccountId,
        child_collection_id: Option<u128>,
        child_token_id: Option<u128>,
        fungible_collection_id: u128,
        parent_collection_id: u128,
        parent_token_id: u128,
        amount: u128,
    ) -> (r: Result<(), GraphError>)
        ensures
            old(ledger)@.wf() ==> final(ledger)@.wf(),
            match r {
                Ok(()) => spec_link_fungible(
                    old(self)@,
                    registry@,
                    old(ledger)@,
                    who,
                    child_collection_id,
                    child_token_id,
                    fungible_collection_id,
                    parent_collection_id,
                    parent_token_id,
                    amount,
                ) == Ok::<_, GraphError>((final(self)@, final(ledger)@)),
                Err(e) => spec_link_fungible(
                    old(self)@,
                    registry@,
                    old(ledger)@,
                    who,
                    child_collection_id,
                    child_token_id,
                    fungible_collection_id,
                    parent_collection_id,
                    parent_token_id,
                    amount,
                ) == Err::<(GraphView, LedgerView), _>(e) && final(self)@ == old(self)@ && final(ledger)@ == old(ledger)@,
            },
    {
        if !registry.collection_exist(parent_collection_id) {
            return Err(GraphError::ParentCollectionNotFound);
        }
        if !ledger.token_exist(parent_collection_id, parent_token_id) {
            return Err(GraphError::TokenNotFound);
        }
        let parent_bal = self.parent_balance(
            parent_collection_id,
            parent_token_id,
            fungible_collection_id,
        );
        if parent_bal > u128::MAX - amount {
            return Err(GraphError::NumOverflow);
        }
        let new_parent_balance = parent_bal + amount;
        let from_user = child_collection_id.is_none() || child_token_id.is_none();
        if from_user {
            match ledger._transfer_fungible(
                registry,
                who,
                GRAPH_ACCOUNT,
                fungible_collection_id,
                amount,
            ) {
                Ok(()) => {},
                Err(e) => {
                    return Err(GraphError::Nft(e));
                },
            }
            self.write_balance(
                parent_collection_id,
                parent_token_id,
                fungible_collection_id,
                new_parent_balance,
            );
            return Ok(());
        }
        let ccid = match child_collection_id {
            Some(c) => c,
            None => {
                return Ok(());
            },
        };
        let ctid = match child_token_id {
            Some(t) => t,
            None => {
                return Ok(());
            },
        };
        let child_has = match self.parent_balance.get(ccid, ctid) {
            Some(t) => t.contains(fungible_collection_id),
            None => false,
        };
        if !child_has {
            return Err(GraphError::ChildHadNoBalance);
        }
        let child_bal = self.parent_balance(ccid, ctid, fungible_collection_id);
        if child_bal < amount {
            return Err(GraphError::AmountTooLarge);
        }
        let root = match self.find_root_owner(ledger, ccid, ctid) {
            Ok(root) => root,
            Err(e) => {
                return Err(e);
            },
        };
        if root != who {
            return Err(GraphError::PermissionDenied);
        }
        let child_balance = child_bal - amount;
        self.write_balance(ccid, ctid, fungible_collection_id, child_balance);
        self.write_balance(
            parent_collection_id,
            parent_token_id,
            fungible_collection_id,
            new_parent_balance,
        );
        if child_balance == 0 {
            self.erase_balance(ccid, ctid, fungible_collection_id);
        }
        Ok(())
    }

    /// Writes one attached balance.
    fn write_balance(&mut self, pcid: u128, ptid: u128, fcid: u128, v: u128)
        ensures
            final(self)@ == set_parent_balance(old(self)@, pcid, ptid, fcid, v),
    {
        let mut inner: Table<u128> = match self.parent_balance.get(pcid, ptid) {
            Some(t) => t.fork(),
            None => Table::new(),
        };
        inner.insert(fcid, v);
        let ghost ginner = inner;
        let ghost oldpb = self.parent_balance@;
        self.parent_balance.insert(pcid, ptid, inner);
        proof {
            lemma_pb_view_insert(oldpb, pcid, ptid, ginner);
            if !map2_has(old(self)@.parent_balance, pcid, ptid) {
                assert(ginner@ =~= Map::<u128, u128>::empty().insert(fcid, v));
            }
            assert(self@ == set_parent_balance(old(self)@, pcid, ptid, fcid, v));
        }
    }

    /// Erases one attached balance.
    fn erase_balance(&mut self, pcid: u128, ptid: u128, fcid: u128)
        ensures
            final(self)@ == remove_parent_balance(old(self)@, pcid, ptid, fcid),
    {
        let mut inner: Table<u128> = match self.parent_balance.get(pcid, ptid) {
            Some(t) => t.fork(),
            None => Table::new(),
        };
        inner.remove(fcid);
        let ghost ginner = inner;
        let ghost oldpb = self.parent_balance@;
        self.parent_balance.insert(pcid, ptid, inner);
        proof {
            lemma_pb_view_insert(oldpb, pcid, ptid, ginner);
            if !map2_has(old(self)@.parent_balance, pcid, ptid) {
                assert(ginner@ =~= Map::<u128, u128>::empty().remove(fcid));
            }
            assert(self@ == remove_parent_balance(old(self)@, pcid, ptid, fcid));
        }
    }

    /// Recovers a childless linked token to its root owner.
    pub fn recover_non_fungible(
        &mut self,
        registry: &CollectionRegistry,
        ledger: &mut TokenLedger,
        who: AccountId,
        collection_id: u128,
        token_id: u128,
    ) -> (r: Result<(), GraphError>)
        requires
            old(ledger)@.wf(),
        ensures
            final(ledger)@.wf(),
            match r {
                Ok(()) => spec_recover_non_fungible(
                    old(self)@,
                    registry@,
                    old(ledger)@,
                    who,
                    collection_id,
                    token_id,
                ) == Ok::<_, GraphError>((final(self)@, final(ledger)@)),
                Err(e) => spec_recover_non_fungible(
                    old(self)@,
                    registry@,
                    old(ledger)@,
                    who,
                    collection_id,
                    token_id,
                ) == Err::<(GraphView, LedgerView), _>(e) && final(self)@ == old(self)@ && final(ledger)@ == old(ledger)@,
            },
    {
        if !self.child_to_parent.contains(collection_id, token_id) {
            return Err(GraphError::ChildTokenNotFound);
        }
        let has_children = match self.children.get(collection_id, token_id) {
            Some(v) => v.len() > 0,
            None => false,
        };
        if has_children {
            return Err(GraphError::CanNotRecoverParentToken);
        }
        let root = match self.find_root_owner(ledger, collection_id, token_id) {
            Ok(root) => root,
            Err(e) => {
                return Err(e);
            },
        };
        if root != who {
            return Err(GraphError::PermissionDenied);
        }
        match ledger._transfer_non_fungible(
            registry,
            GRAPH_ACCOUNT,
            who,
            collection_id,
            token_id,
            1,
        ) {
            Ok(()) => {},
            Err(e) => {
                return Err(GraphError::Nft(e));
            },
        }
        self.child_to_parent.remove(collection_id, token_id);
        if self.links >= 1 {
            self.links = self.links - 1;
        }
        Ok(())
    }

    /// Recovers attached fungible tokens to the root owner of their child.
    pub fn recover_fungible(
        &mut self,
        registry: &CollectionRegistry,
        ledger: &mut TokenLedger,
        who: AccountId,
        child_collection_id: u128,
        child_token_id: u128,
        fungible_collection_id: u128,
        amount: u128,
    ) -> (r: Result<(), GraphError>)
        ensures
            old(ledger)@.wf() ==> final(ledger)@.wf(),
            match r {
                Ok(()) => spec_recover_fungible(
                    old(self)@,
                    registry@,
                    old(ledger)@,
                    who,
                    child_collection_id,
                    child_token_id,
                    fungible_collection_id,
                    amount,
                ) == Ok::<_, GraphError>((final(self)@, final(ledger)@)),
                Err(e) => spec_recover_fungible(
                    old(self)@,
                    registry@,
                    old(ledger)@,
                    who,
                    child_collection_id,
                    child_token_id,
                    fungible_collection_id,
                    amount,
                ) == Err::<(GraphView, LedgerView), _>(e) && final(self)@ == old(self)@ && final(ledger)@ == old(ledger)@,
            },
    {
        let child_bal = self.parent_balance(
            child_collection_id,
            child_token_id,
            fungible_collection_id,
        );
        if child_bal < amount {
            return Err(GraphError::AmountTooLarge);
        }
        let root = match self.find_root_owner(ledger, child_collection_id, child_token_id) {
            Ok(root) => root,
            Err(e) => {
                return Err(e);
            },
        };
        if root != who {
            return Err(GraphError::PermissionDenied);
        }
        match ledger._transfer_fungible(
            registry,
            GRAPH_ACCOUNT,
            who,
            fungible_collection_id,
            amount,
        ) {
            Ok(()) => {},
            Err(e) => {
                return Err(GraphError::Nft(e));
            },
        }
        let child_balance = child_bal - amount;
        self.write_balance(
            child_collection_id,
            child_token_id,
            fungible_collection_id,
            child_balance,
        );
        if child_balance == 0 {
            self.erase_balance(child_collection_id, child_token_id, fungible_collection_id);
        }
        Ok(())
    }
}

/// Copy of a child list.
fn copy_pairs(v: &Vec<(u128, u128)>) -> (r: Vec<(u128, u128)>)
    ensures
        r@ == v@,
{
    let mut out: Vec<(u128, u128)> = Vec::new();
    let mut i: usize = 0;
    while i < v.len()
        invariant
            0 <= i <= v@.len(),
            out@ == v@.take(i as int),
        decreases v@.len() - i,
    {
        out.push(v[i]);
        i = i + 1;
    }
    proof {
        assert(v@.take(v@.len() as int) =~= v@);
    }
    out
}

/// Removes the first occurrence of a pair from a list.
fn remove_first_pair(v: &mut Vec<(u128, u128)>, p: (u128, u128))
    ensures
        final(v)@ == remove_first(old(v)@, p),
{
    let mut i: usize = 0;
    while i < v.len()
        invariant
            0 <= i <= v@.len(),
            v@ == old(v)@,
            forall|j: int| 0 <= j < i ==> v@[j] != p,
        decreases v@.len() - i,
    {
        if v[i].0 == p.0 && v[i].1 == p.1 {
            v.remove(i);
            proof {
                old(v)@.index_of_first_ensures(p);
                assert(old(v)@.index_of_first(p) == Some(i as int));
            }
            return;
        }
        i = i + 1;
    }
    proof {
        old(v)@.index_of_first_ensures(p);
        if old(v)@.index_of_first(p) is Some {
            let j = old(v)@.index_of_first(p)->Some_0;
            assert(old(v)@[j] == p);
            assert(false);
        }
    }
}

} // verus!
