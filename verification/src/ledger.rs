//! The record store behind both registries.
//!
//! The host substrate addresses each record by a location derived
//! deterministically from a domain tag and the record's identifier, and
//! uses "does this location already hold data" as the existence test. Two
//! distinct domain tags keep pools and sessions from ever colliding, so the
//! store is modeled as two collections, each keyed by the identifier alone,
//! with identifiers unique within their collection.

use vstd::prelude::*;

use crate::records::{pool_wf, session_wf, Session, TargetPool};

verus! {

/// All durably stored records, pools and sessions each under their own
/// domain tag.
pub struct Ledger {
    pub pools: Vec<TargetPool>,
    pub sessions: Vec<Session>,
}

impl Ledger {
    /// True when some stored pool carries this identifier.
    pub open spec fn spec_has_pool(self, pool_id: Seq<char>) -> bool {
        exists|i: int| 0 <= i < self.pools@.len() && self.pools@[i].pool_id@ == pool_id
    }

    /// The index of the pool carrying this identifier; meaningful only
    /// when `spec_has_pool` holds, and then unique by `pools_wf`.
    pub open spec fn spec_pool_index(self, pool_id: Seq<char>) -> int {
        choose|i: int| 0 <= i < self.pools@.len() && self.pools@[i].pool_id@ == pool_id
    }

    /// The stored pool carrying this identifier.
    pub open spec fn spec_pool(self, pool_id: Seq<char>) -> TargetPool {
        self.pools@[self.spec_pool_index(pool_id)]
    }

    /// True when some stored session carries this identifier.
    pub open spec fn spec_has_session(self, session_id: Seq<char>) -> bool {
        exists|i: int| 0 <= i < self.sessions@.len() && self.sessions@[i].session_id@ == session_id
    }

    /// The index of the session carrying this identifier; meaningful only
    /// when `spec_has_session` holds, and then unique by `sessions_wf`.
    pub open spec fn spec_session_index(self, session_id: Seq<char>) -> int {
        choose|i: int|
            0 <= i < self.sessions@.len() && self.sessions@[i].session_id@ == session_id
    }

    /// The stored session carrying this identifier.
    pub open spec fn spec_session(self, session_id: Seq<char>) -> Session {
        self.sessions@[self.spec_session_index(session_id)]
    }

    /// Every stored pool is well formed and identifiers are unique: one
    /// location, one record.
    pub open spec fn pools_wf(self) -> bool {
        &&& forall|i: int| 0 <= i < self.pools@.len() ==> pool_wf(#[trigger] self.pools@[i])
        &&& forall|i: int, j: int|
            0 <= i < self.pools@.len() && 0 <= j < self.pools@.len() && i != j
                ==> (#[trigger] self.pools@[i].pool_id@) != (#[trigger] self.pools@[j].pool_id@)
    }

    /// Every stored session is well formed, identifiers are unique, each
    /// session's pool exists, and a finalized session's assigned index is
    /// a valid index of that pool and is not among the completed indices
    /// the session stored.
    pub open spec fn sessions_wf(self) -> bool {
        &&& forall|i: int|
            0 <= i < self.sessions@.len() ==> session_wf(#[trigger] self.sessions@[i])
        &&& forall|i: int, j: int|
            0 <= i < self.sessions@.len() && 0 <= j < self.sessions@.len() && i != j
                ==> (#[trigger] self.sessions@[i].session_id@)
                    != (#[trigger] self.sessions@[j].session_id@)
        &&& forall|i: int|
            0 <= i < self.sessions@.len()
                ==> self.spec_has_pool((#[trigger] self.sessions@[i]).pool_id@)
        &&& forall|i: int|
            0 <= i < self.sessions@.len() && (#[trigger] self.sessions@[i]).finalized ==> {
                &&& self.sessions@[i].assigned_target_index
                    < self.spec_pool(self.sessions@[i].pool_id@).target_count
                &&& !self.sessions@[i].completed_target_indices@.contains(
                    self.sessions@[i].assigned_target_index,
                )
            }
    }

    /// The ledger invariant: established by `new`, preserved by every
    /// operation.
    pub open spec fn wf(self) -> bool {
        self.pools_wf() && self.sessions_wf()
    }

    /// An empty store.
    pub fn new() -> (l: Ledger)
        ensures
            l.wf(),
            l.pools@.len() == 0,
            l.sessions@.len() == 0,
    {
        Ledger { pools: Vec::new(), sessions: Vec::new() }
    }

    /// The index of the pool with this identifier, if one is stored.
    pub fn find_pool(&self, pool_id: &String) -> (r: Option<usize>)
        ensures
            match r {
                Some(i) => i < self.pools@.len() && self.pools@[i as int].pool_id@ == pool_id@,
                None => !self.spec_has_pool(pool_id@),
            },
    {
        let n = self.pools.len();
        let mut i: usize = 0;
        while i < n
            invariant
                i <= n,
                n == self.pools@.len(),
                forall|k: int| 0 <= k < i ==> (#[trigger] self.pools@[k].pool_id@) != pool_id@,
            decreases n - i,
        {
            if self.pools[i].pool_id == *pool_id {
                return Some(i);
            }
            i = i + 1;
        }
        None
    }

    /// The index of the session with this identifier, if one is stored.
    pub fn find_session(&self, session_id: &String) -> (r: Option<usize>)
        ensures
            match r {
                Some(i) => i < self.sessions@.len()
                    && self.sessions@[i as int].session_id@ == session_id@,
                None => !self.spec_has_session(session_id@),
            },
    {
        let n = self.sessions.len();
        let mut i: usize = 0;
        while i < n
            invariant
                i <= n,
                n == self.sessions@.len(),
                forall|k: int|
                    0 <= k < i ==> (#[trigger] self.sessions@[k].session_id@) != session_id@,
            decreases n - i,
        {
            if self.sessions[i].session_id == *session_id {
                return Some(i);
            }
            i = i + 1;
        }
        None
    }

    /// Reads the pool with this identifier back from the store.
    pub fn get_pool(&self, pool_id: &String) -> (r: Option<&TargetPool>)
        requires
            self.wf(),
        ensures
            match r {
                Some(p) => self.spec_has_pool(pool_id@) && *p == self.spec_pool(pool_id@),
                None => !self.spec_has_pool(pool_id@),
            },
    {
        match self.find_pool(pool_id) {
            Some(i) => {
                proof {
                    lemma_pool_index_unique(*self, pool_id@, i as int);
                }
                Some(&self.pools[i])
            },
            None => None,
        }
    }

    /// Reads the session with this identifier back from the store.
    pub fn get_session(&self, session_id: &String) -> (r: Option<&Session>)
        requires
            self.wf(),
        ensures
            match r {
                Some(s) => self.spec_has_session(session_id@)
                    && *s == self.spec_session(session_id@),
                None => !self.spec_has_session(session_id@),
            },
    {
        match self.find_session(session_id) {
            Some(i) => {
                proof {
                    lemma_session_index_unique(*self, session_id@, i as int);
                }
                Some(&self.sessions[i])
            },
            None => None,
        }
    }
}

/// For every stored session: until its finalize succeeds the assigned
/// index is the sentinel, and thereafter it lies in the index space of
/// the referenced pool and is not among the completed indices that
/// finalize stored.
pub proof fn lemma_assigned_index_valid(l: Ledger, i: int)
    requires
        l.wf(),
        0 <= i < l.sessions@.len(),
    ensures
        !l.sessions@[i].finalized ==> l.sessions@[i].assigned_target_index
            == crate::records::UNASSIGNED_TARGET_INDEX,
        l.sessions@[i].finalized ==> l.sessions@[i].assigned_target_index < l.spec_pool(
            l.sessions@[i].pool_id@,
        ).target_count,
        l.sessions@[i].finalized ==> !l.sessions@[i].completed_target_indices@.contains(
            l.sessions@[i].assigned_target_index,
        ),
{
}

/// With unique pool identifiers, any index whose pool carries `pool_id` is
/// the one `spec_pool_index` picks.
pub proof fn lemma_pool_index_unique(l: Ledger, pool_id: Seq<char>, i: int)
    requires
        l.pools_wf(),
        0 <= i < l.pools@.len(),
        l.pools@[i].pool_id@ == pool_id,
    ensures
        l.spec_has_pool(pool_id),
        l.spec_pool_index(pool_id) == i,
        l.spec_pool(pool_id) == l.pools@[i],
{
    assert(l.spec_has_pool(pool_id));
    let j = l.spec_pool_index(pool_id);
    assert(0 <= j < l.pools@.len() && l.pools@[j].pool_id@ == pool_id);
    if i != j {
        assert(l.pools@[i].pool_id@ != l.pools@[j].pool_id@);
    }
}

/// With unique session identifiers, any index whose session carries
/// `session_id` is the one `spec_session_index` picks.
pub proof fn lemma_session_index_unique(l: Ledger, session_id: Seq<char>, i: int)
    requires
        l.sessions_wf(),
        0 <= i < l.sessions@.len(),
        l.sessions@[i].session_id@ == session_id,
    ensures
        l.spec_has_session(session_id),
        l.spec_session_index(session_id) == i,
        l.spec_session(session_id) == l.sessions@[i],
{
    assert(l.spec_has_session(session_id));
    let j = l.spec_session_index(session_id);
    assert(0 <= j < l.sessions@.len() && l.sessions@[j].session_id@ == session_id);
    if i != j {
        assert(l.sessions@[i].session_id@ != l.sessions@[j].session_id@);
    }
}

} // verus!
