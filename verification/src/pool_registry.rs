//! The pool registry: create, append to, and finalize target pools.
//!
//! Every operation validates the caller's authority and the named record
//! before any mutation, and either commits whole or leaves the ledger
//! exactly as it was. The `*_result` functions state, for each operation,
//! exactly which outcome each input is owed, in the order the checks are
//! made; the `*_outcome` predicates add what the ledger holds afterwards.

use vstd::prelude::*;

use crate::errors::{OpError, RemoteViewingError};
use crate::ledger::{lemma_pool_index_unique, Ledger};
use crate::records::{
    bytes32_eq, pool_after_append, pool_after_finalize, Clock, TargetPool, MAX_POOL_TARGETS,
};

verus! {

/// The outcome `create` owes each input: the checks in order, then
/// success.
pub open spec fn create_pool_result(
    pre: Ledger,
    is_signer: bool,
    pool_id: Seq<char>,
    n_targets: int,
) -> Result<(), OpError> {
    if !is_signer {
        Err(OpError::MissingAuthority)
    } else if pre.spec_has_pool(pool_id) {
        Err(OpError::Custom(RemoteViewingError::PoolAlreadyExists))
    } else if pool_id.len() == 0 {
        Err(OpError::Custom(RemoteViewingError::InvalidPoolId))
    } else if n_targets > MAX_POOL_TARGETS {
        Err(OpError::Custom(RemoteViewingError::InvalidTargetCount))
    } else {
        Ok(())
    }
}

/// The full contract of `create`: the owed outcome, and on success a
/// ledger grown by exactly the new pool, unfinalized and stamped with the
/// creation clock.
pub open spec fn create_pool_outcome(
    pre: Ledger,
    post: Ledger,
    creator: [u8; 32],
    is_signer: bool,
    clock: Clock,
    pool_id: String,
    target_hashes: Vec<[u8; 32]>,
    r: Result<(), OpError>,
) -> bool {
    &&& r == create_pool_result(pre, is_signer, pool_id@, target_hashes@.len() as int)
    &&& (r is Ok ==> {
        &&& post.pools@ == pre.pools@.push(
            (TargetPool {
                pool_id,
                creator,
                target_count: target_hashes@.len() as u16,
                targets: target_hashes,
                created_at: clock.unix_timestamp,
                finalized: false,
            }),
        )
        &&& post.sessions@ == pre.sessions@
    })
    &&& (r is Err ==> post == pre)
}

/// Creates a pool under a caller-chosen identifier. An empty sequence of
/// targets is permitted: such a pool is populated later by append.
pub fn process_create_target_pool(
    ledger: &mut Ledger,
    creator: [u8; 32],
    creator_is_signer: bool,
    clock: Clock,
    pool_id: String,
    target_hashes: Vec<[u8; 32]>,
) -> (r: Result<(), OpError>)
    requires
        old(ledger).wf(),
    ensures
        final(ledger).wf(),
        create_pool_outcome(
            *old(ledger),
            *final(ledger),
            creator,
            creator_is_signer,
            clock,
            pool_id,
            target_hashes,
            r,
        ),
{
    if !creator_is_signer {
        return Err(OpError::MissingAuthority);
    }
    if let Some(_) = ledger.find_pool(&pool_id) {
        return Err(OpError::Custom(RemoteViewingError::PoolAlreadyExists));
    }
    if pool_id.as_str().is_empty() {
        return Err(OpError::Custom(RemoteViewingError::InvalidPoolId));
    }
    if target_hashes.len() > MAX_POOL_TARGETS {
        return Err(OpError::Custom(RemoteViewingError::InvalidTargetCount));
    }
    let target_count = target_hashes.len() as u16;
    let new_pool = TargetPool {
        pool_id,
        creator,
        target_count,
        targets: target_hashes,
        created_at: clock.unix_timestamp,
        finalized: false,
    };
    ledger.pools.push(new_pool);
    proof {
        let pre = *old(ledger);
        let post = *ledger;
        let n = pre.pools@.len() as int;
        assert forall|i: int, j: int|
            0 <= i < post.pools@.len() && 0 <= j < post.pools@.len() && i != j implies (
        #[trigger] post.pools@[i].pool_id@) != (#[trigger] post.pools@[j].pool_id@) by {
            if i < n && j < n {
                assert(pre.pools@[i].pool_id@ != pre.pools@[j].pool_id@);
            }
        }
        assert forall|i: int| 0 <= i < post.sessions@.len() implies post.spec_has_pool(
            (#[trigger] post.sessions@[i]).pool_id@,
        ) by {
            let w = choose|w: int|
                0 <= w < pre.pools@.len() && pre.pools@[w].pool_id@ == pre.sessions@[i].pool_id@;
            assert(post.pools@[w].pool_id@ == post.sessions@[i].pool_id@);
        }
        assert forall|i: int|
            0 <= i < post.sessions@.len() && (#[trigger] post.sessions@[i]).finalized implies {
            &&& post.sessions@[i].assigned_target_index < post.spec_pool(
                post.sessions@[i].pool_id@,
            ).target_count
            &&& !post.sessions@[i].completed_target_indices@.contains(
                post.sessions@[i].assigned_target_index,
            )
        } by {
            let pid = post.sessions@[i].pool_id@;
            let w = pre.spec_pool_index(pid);
            assert(0 <= w < pre.pools@.len() && pre.pools@[w].pool_id@ == pid);
            lemma_pool_index_unique(post, pid, w);
            assert(post.spec_pool(pid) == pre.spec_pool(pid));
        }
    }
    Ok(())
}

/// The outcome `append` owes each input.
pub open spec fn append_targets_result(
    pre: Ledger,
    creator: [u8; 32],
    is_signer: bool,
    pool_id: Seq<char>,
    n_new: int,
) -> Result<(), OpError> {
    if !is_signer {
        Err(OpError::MissingAuthority)
    } else if !pre.spec_has_pool(pool_id) {
        Err(OpError::Custom(RemoteViewingError::PoolNotFound))
    } else if pre.spec_pool(pool_id).creator@ != creator@ {
        Err(OpError::Unauthorized)
    } else if pre.spec_pool(pool_id).finalized {
        Err(OpError::Custom(RemoteViewingError::PoolAlreadyFinalized))
    } else if n_new == 0 {
        Err(OpError::Custom(RemoteViewingError::InvalidTargetCount))
    } else if pre.spec_pool(pool_id).targets@.len() + n_new > MAX_POOL_TARGETS {
        Err(OpError::Custom(RemoteViewingError::InvalidTargetCount))
    } else {
        Ok(())
    }
}

/// The full contract of `append`: the owed outcome, and on success a
/// ledger in which only the named pool changed, by `pool_after_append` —
/// existing indices keep their meaning.
pub open spec fn append_targets_outcome(
    pre: Ledger,
    post: Ledger,
    creator: [u8; 32],
    is_signer: bool,
    pool_id: Seq<char>,
    target_hashes: Vec<[u8; 32]>,
    r: Result<(), OpError>,
) -> bool {
    &&& r == append_targets_result(pre, creator, is_signer, pool_id, target_hashes@.len() as int)
    &&& (r is Ok ==> {
        let i = pre.spec_pool_index(pool_id);
        &&& post.pools@.len() == pre.pools@.len()
        &&& pool_after_append(pre.pools@[i], post.pools@[i], target_hashes@)
        &&& (forall|j: int|
            0 <= j < pre.pools@.len() && j != i ==> post.pools@[j] == pre.pools@[j])
        &&& post.sessions@ == pre.sessions@
    })
    &&& (r is Err ==> post == pre)
}

/// Appends targets to an existing, not yet finalized pool. Only the
/// original creator may call; the stored order is preserved, so existing
/// indices never shift.
pub fn process_append_targets_to_pool(
    ledger: &mut Ledger,
    creator: [u8; 32],
    creator_is_signer: bool,
    pool_id: String,
    target_hashes: Vec<[u8; 32]>,
) -> (r: Result<(), OpError>)
    requires
        old(ledger).wf(),
    ensures
        final(ledger).wf(),
        append_targets_outcome(
            *old(ledger),
            *final(ledger),
            creator,
            creator_is_signer,
            pool_id@,
            target_hashes,
            r,
        ),
{
    if !creator_is_signer {
        return Err(OpError::MissingAuthority);
    }
    let idx = match ledger.find_pool(&pool_id) {
        None => {
            return Err(OpError::Custom(RemoteViewingError::PoolNotFound));
        },
        Some(i) => i,
    };
    proof {
        lemma_pool_index_unique(*ledger, pool_id@, idx as int);
    }
    if !bytes32_eq(&ledger.pools[idx].creator, &creator) {
        return Err(OpError::Unauthorized);
    }
    if ledger.pools[idx].finalized {
        return Err(OpError::Custom(RemoteViewingError::PoolAlreadyFinalized));
    }
    if target_hashes.len() == 0 {
        return Err(OpError::Custom(RemoteViewingError::InvalidTargetCount));
    }
    if target_hashes.len() > MAX_POOL_TARGETS - ledger.pools[idx].targets.len() {
        return Err(OpError::Custom(RemoteViewingError::InvalidTargetCount));
    }
    let mut incoming = target_hashes;
    let mut pool = ledger.pools.remove(idx);
    pool.targets.append(&mut incoming);
    pool.target_count = pool.targets.len() as u16;
    ledger.pools.insert(idx, pool);
    proof {
        let pre = *old(ledger);
        let post = *ledger;
        let i = idx as int;
        assert(post.pools@ =~= pre.pools@.update(i, post.pools@[i]));
        assert(pre.spec_pool_index(pool_id@) == i);
        assert(pool_after_append(pre.pools@[i], post.pools@[i], target_hashes@));
        lemma_ledger_wf_after_pool_update(pre, post, i);
    }
    Ok(())
}

/// The outcome `finalize` owes each input: a pool must hold at least one
/// target to be usable, and finalization is one-way.
pub open spec fn finalize_pool_result(
    pre: Ledger,
    creator: [u8; 32],
    is_signer: bool,
    pool_id: Seq<char>,
) -> Result<(), OpError> {
    if !is_signer {
        Err(OpError::MissingAuthority)
    } else if !pre.spec_has_pool(pool_id) {
        Err(OpError::Custom(RemoteViewingError::PoolNotFound))
    } else if pre.spec_pool(pool_id).creator@ != creator@ {
        Err(OpError::Unauthorized)
    } else if pre.spec_pool(pool_id).finalized {
        Err(OpError::Custom(RemoteViewingError::PoolAlreadyFinalized))
    } else if pre.spec_pool(pool_id).targets@.len() == 0 {
        Err(OpError::Custom(RemoteViewingError::InvalidTargetCount))
    } else {
        Ok(())
    }
}

/// The full contract of `finalize`: the owed outcome, and on success a
/// ledger in which only the named pool changed, by `pool_after_finalize`.
pub open spec fn finalize_pool_outcome(
    pre: Ledger,
    post: Ledger,
    creator: [u8; 32],
    is_signer: bool,
    pool_id: Seq<char>,
    r: Result<(), OpError>,
) -> bool {
    &&& r == finalize_pool_result(pre, creator, is_signer, pool_id)
    &&& (r is Ok ==> {
        let i = pre.spec_pool_index(pool_id);
        &&& post.pools@.len() == pre.pools@.len()
        &&& pool_after_finalize(pre.pools@[i], post.pools@[i])
        &&& (forall|j: int|
            0 <= j < pre.pools@.len() && j != i ==> post.pools@[j] == pre.pools@[j])
        &&& post.sessions@ == pre.sessions@
    })
    &&& (r is Err ==> post == pre)
}

/// Closes a pool to further additions — a one-way transition no operation
/// ever clears.
pub fn process_finalize_pool(
    ledger: &mut Ledger,
    creator: [u8; 32],
    creator_is_signer: bool,
    pool_id: String,
) -> (r: Result<(), OpError>)
    requires
        old(ledger).wf(),
    ensures
        final(ledger).wf(),
        finalize_pool_outcome(*old(ledger), *final(ledger), creator, creator_is_signer, pool_id@, r),
{
    if !creator_is_signer {
        return Err(OpError::MissingAuthority);
    }
    let idx = match ledger.find_pool(&pool_id) {
        None => {
            return Err(OpError::Custom(RemoteViewingError::PoolNotFound));
        },
        Some(i) => i,
    };
    proof {
        lemma_pool_index_unique(*ledger, pool_id@, idx as int);
    }
    if !bytes32_eq(&ledger.pools[idx].creator, &creator) {
        return Err(OpError::Unauthorized);
    }
    if ledger.pools[idx].finalized {
        return Err(OpError::Custom(RemoteViewingError::PoolAlreadyFinalized));
    }
    if ledger.pools[idx].targets.len() == 0 {
        return Err(OpError::Custom(RemoteViewingError::InvalidTargetCount));
    }
    let mut pool = ledger.pools.remove(idx);
    pool.finalized = true;
    ledger.pools.insert(idx, pool);
    proof {
        let pre = *old(ledger);
        let post = *ledger;
        let i = idx as int;
        assert(post.pools@ =~= pre.pools@.update(i, post.pools@[i]));
        assert(pre.spec_pool_index(pool_id@) == i);
        assert(pool_after_finalize(pre.pools@[i], post.pools@[i]));
        lemma_ledger_wf_after_pool_update(pre, post, i);
    }
    Ok(())
}

/// Create followed by a read: a successful create under a fresh, valid
/// identifier is owed, and reading the pool back yields exactly the
/// supplied targets, with `target_count` their number, not finalized.
pub proof fn lemma_create_then_read(
    pre: Ledger,
    post: Ledger,
    creator: [u8; 32],
    clock: Clock,
    pool_id: String,
    target_hashes: Vec<[u8; 32]>,
    r: Result<(), OpError>,
)
    requires
        pre.wf(),
        !pre.spec_has_pool(pool_id@),
        pool_id@.len() > 0,
        target_hashes@.len() <= MAX_POOL_TARGETS,
        create_pool_outcome(pre, post, creator, true, clock, pool_id, target_hashes, r),
    ensures
        r == Ok::<(), OpError>(()),
        post.spec_has_pool(pool_id@),
        post.spec_pool(pool_id@).targets@ == target_hashes@,
        post.spec_pool(pool_id@).target_count == target_hashes@.len(),
        !post.spec_pool(pool_id@).finalized,
{
    let n = pre.pools@.len() as int;
    assert(post.pools@[n].pool_id@ == pool_id@);
    assert(post.spec_has_pool(pool_id@));
    let j = post.spec_pool_index(pool_id@);
    assert(0 <= j < post.pools@.len() && post.pools@[j].pool_id@ == pool_id@);
    if j < n {
        assert(pre.pools@[j].pool_id@ == pool_id@);
        assert(pre.spec_has_pool(pool_id@));
        assert(false);
    }
}

/// Create is rejected when called twice with the same pool identifier:
/// the first commit makes the derived location occupied, and the second
/// call fails with `PoolAlreadyExists` and changes nothing.
pub proof fn lemma_create_twice_rejected(
    pre: Ledger,
    mid: Ledger,
    post: Ledger,
    creator1: [u8; 32],
    creator2: [u8; 32],
    clock1: Clock,
    clock2: Clock,
    pool_id1: String,
    pool_id2: String,
    target_hashes1: Vec<[u8; 32]>,
    target_hashes2: Vec<[u8; 32]>,
    r2: Result<(), OpError>,
)
    requires
        create_pool_outcome(
            pre,
            mid,
            creator1,
            true,
            clock1,
            pool_id1,
            target_hashes1,
            Ok(()),
        ),
        create_pool_outcome(
            mid,
            post,
            creator2,
            true,
            clock2,
            pool_id2,
            target_hashes2,
            r2,
        ),
        pool_id2@ == pool_id1@,
    ensures
        r2 == Err::<(), OpError>(OpError::Custom(RemoteViewingError::PoolAlreadyExists)),
        post == mid,
{
    let n = pre.pools@.len() as int;
    assert(mid.pools@[n].pool_id@ == pool_id2@);
    assert(mid.spec_has_pool(pool_id2@));
}

/// Append on a finalized pool always fails with `PoolAlreadyFinalized`
/// and leaves the stored targets — and the whole ledger — unchanged.
pub proof fn lemma_append_on_finalized_pool(
    pre: Ledger,
    post: Ledger,
    creator: [u8; 32],
    pool_id: Seq<char>,
    target_hashes: Vec<[u8; 32]>,
    r: Result<(), OpError>,
)
    requires
        pre.spec_has_pool(pool_id),
        pre.spec_pool(pool_id).finalized,
        pre.spec_pool(pool_id).creator@ == creator@,
        append_targets_outcome(pre, post, creator, true, pool_id, target_hashes, r),
    ensures
        r == Err::<(), OpError>(OpError::Custom(RemoteViewingError::PoolAlreadyFinalized)),
        post == pre,
{
}

/// Finalize on a pool still holding no targets fails with
/// `InvalidTargetCount`: a pool must have at least one target to be
/// usable.
pub proof fn lemma_finalize_empty_pool_rejected(
    pre: Ledger,
    post: Ledger,
    creator: [u8; 32],
    pool_id: Seq<char>,
    r: Result<(), OpError>,
)
    requires
        pre.spec_has_pool(pool_id),
        pre.spec_pool(pool_id).creator@ == creator@,
        !pre.spec_pool(pool_id).finalized,
        pre.spec_pool(pool_id).targets@.len() == 0,
        finalize_pool_outcome(pre, post, creator, true, pool_id, r),
    ensures
        r == Err::<(), OpError>(OpError::Custom(RemoteViewingError::InvalidTargetCount)),
        post == pre,
{
}

/// Finalize is owed success on an existing, not yet finalized pool that
/// holds at least one target, when its creator calls with authority; the
/// pool then reads back as finalized.
pub proof fn lemma_finalize_pool_succeeds(
    pre: Ledger,
    post: Ledger,
    creator: [u8; 32],
    pool_id: Seq<char>,
    r: Result<(), OpError>,
)
    requires
        pre.wf(),
        post.wf(),
        pre.spec_has_pool(pool_id),
        pre.spec_pool(pool_id).creator@ == creator@,
        !pre.spec_pool(pool_id).finalized,
        pre.spec_pool(pool_id).targets@.len() > 0,
        finalize_pool_outcome(pre, post, creator, true, pool_id, r),
    ensures
        r == Ok::<(), OpError>(()),
        post.spec_has_pool(pool_id),
        post.spec_pool(pool_id).finalized,
        post.spec_pool(pool_id).targets@ == pre.spec_pool(pool_id).targets@,
{
    let i = pre.spec_pool_index(pool_id);
    assert(0 <= i < pre.pools@.len() && pre.pools@[i].pool_id@ == pool_id);
    assert(post.pools@[i].pool_id@ == pool_id);
    lemma_pool_index_unique(post, pool_id, i);
    assert(post.spec_pool(pool_id).targets == pre.pools@[i].targets);
}

/// Finalize succeeds once and is idempotent-rejecting: a second call on
/// the same pool fails with `PoolAlreadyFinalized` and changes nothing.
pub proof fn lemma_finalize_pool_once(
    pre: Ledger,
    mid: Ledger,
    post: Ledger,
    creator: [u8; 32],
    pool_id: Seq<char>,
    r2: Result<(), OpError>,
)
    requires
        pre.wf(),
        mid.wf(),
        finalize_pool_outcome(pre, mid, creator, true, pool_id, Ok(())),
        finalize_pool_outcome(mid, post, creator, true, pool_id, r2),
    ensures
        r2 == Err::<(), OpError>(OpError::Custom(RemoteViewingError::PoolAlreadyFinalized)),
        post == mid,
{
    let i = pre.spec_pool_index(pool_id);
    assert(0 <= i < pre.pools@.len() && pre.pools@[i].pool_id@ == pool_id);
    assert(mid.pools@[i].pool_id@ == pool_id);
    lemma_pool_index_unique(mid, pool_id, i);
    assert(mid.spec_pool(pool_id).finalized);
    assert(mid.spec_pool(pool_id).creator@ == creator@);
}

/// A ledger stays well formed when one pool is replaced by a well-formed
/// pool that keeps its identifier and does not lose targets.
proof fn lemma_ledger_wf_after_pool_update(pre: Ledger, post: Ledger, i: int)
    requires
        pre.wf(),
        0 <= i < pre.pools@.len(),
        post.pools@.len() == pre.pools@.len(),
        forall|j: int| 0 <= j < pre.pools@.len() && j != i ==> post.pools@[j] == pre.pools@[j],
        post.pools@[i].pool_id@ == pre.pools@[i].pool_id@,
        crate::records::pool_wf(post.pools@[i]),
        post.pools@[i].target_count >= pre.pools@[i].target_count,
        post.sessions@ == pre.sessions@,
    ensures
        post.wf(),
{
    assert forall|a: int, b: int|
        0 <= a < post.pools@.len() && 0 <= b < post.pools@.len() && a != b implies (
    #[trigger] post.pools@[a].pool_id@) != (#[trigger] post.pools@[b].pool_id@) by {
        assert(pre.pools@[a].pool_id@ != pre.pools@[b].pool_id@);
        assert(post.pools@[a].pool_id@ == pre.pools@[a].pool_id@);
        assert(post.pools@[b].pool_id@ == pre.pools@[b].pool_id@);
    }
    assert forall|k: int| 0 <= k < post.sessions@.len() implies post.spec_has_pool(
        (#[trigger] post.sessions@[k]).pool_id@,
    ) by {
        let pid = pre.sessions@[k].pool_id@;
        let w = pre.spec_pool_index(pid);
        assert(0 <= w < pre.pools@.len() && pre.pools@[w].pool_id@ == pid);
        assert(post.pools@[w].pool_id@ == pid);
    }
    assert forall|k: int|
        0 <= k < post.sessions@.len() && (#[trigger] post.sessions@[k]).finalized implies {
        &&& post.sessions@[k].assigned_target_index < post.spec_pool(
            post.sessions@[k].pool_id@,
        ).target_count
        &&& !post.sessions@[k].completed_target_indices@.contains(
            post.sessions@[k].assigned_target_index,
        )
    } by {
        let pid = pre.sessions@[k].pool_id@;
        let w = pre.spec_pool_index(pid);
        assert(0 <= w < pre.pools@.len() && pre.pools@[w].pool_id@ == pid);
        assert(post.pools@[w].pool_id@ == pid);
        lemma_pool_index_unique(post, pid, w);
        assert(pre.spec_pool(pid) == pre.pools@[w]);
        assert(post.spec_pool(pid).target_count >= pre.spec_pool(pid).target_count);
    }
}

} // verus!
