//! The session registry: submit a session against a pool, then finalize it
//! with entropy from the bounded validity window.
//!
//! Finalization is deliberately public — anyone may call it — because the
//! outcome depends only on the stored session, the referenced pool, the
//! entropy value and the declared completed indices, never on who calls.
//! The assigned index is drawn from the pool's index space minus the
//! completed indices, so an exclusion never shifts the meaning of an
//! index.

use vstd::prelude::*;

use crate::entropy::{decode_entropy, spec_entropy_of_text};
use crate::errors::{OpError, RemoteViewingError};
use crate::ledger::{lemma_pool_index_unique, lemma_session_index_unique, Ledger};
use crate::records::{
    session_after_finalize, session_submitted, session_wf, Clock, Session, TargetPool,
    MAX_FINALIZE_DELAY_SLOTS, MIN_FINALIZE_DELAY_SLOTS, UNASSIGNED_TARGET_INDEX,
};
use crate::selector::{calculate_target_index, spec_select};

verus! {

/// Whether `x` occurs in `v`.
pub fn contains_u16(v: &Vec<u16>, x: u16) -> (r: bool)
    ensures
        r == v@.contains(x),
{
    let n = v.len();
    let mut i: usize = 0;
    while i < n
        invariant
            i <= n,
            n == v@.len(),
            forall|k: int| 0 <= k < i ==> v@[k] != x,
        decreases n - i,
    {
        if v[i] == x {
            assert(v@.contains(x));
            return true;
        }
        i = i + 1;
    }
    assert(!v@.contains(x));
    false
}

/// The eligible indices of a pool with `n` targets, in increasing order:
/// every index below `n` that is not declared completed.
pub open spec fn spec_available_indices(n: u16, completed: Seq<u16>) -> Seq<u16>
    decreases n,
{
    if n == 0 {
        Seq::empty()
    } else {
        let prev = spec_available_indices((n - 1) as u16, completed);
        if completed.contains((n - 1) as u16) {
            prev
        } else {
            prev.push((n - 1) as u16)
        }
    }
}

/// Every eligible index lies below the pool's target count and is not
/// among the completed indices.
pub proof fn lemma_available_indices_props(n: u16, completed: Seq<u16>)
    ensures
        spec_available_indices(n, completed).len() <= n,
        forall|k: int|
            0 <= k < spec_available_indices(n, completed).len() ==> {
                &&& (#[trigger] spec_available_indices(n, completed)[k]) < n
                &&& !completed.contains(spec_available_indices(n, completed)[k])
            },
    decreases n,
{
    if n > 0 {
        lemma_available_indices_props((n - 1) as u16, completed);
    }
}

/// Conversely, every index below the pool's target count that is not
/// declared completed stays eligible: an exclusion never removes more
/// than the indices it names.
pub proof fn lemma_available_indices_complete(n: u16, completed: Seq<u16>)
    ensures
        forall|x: u16|
            x < n && !completed.contains(x) ==> spec_available_indices(n, completed).contains(x),
    decreases n,
{
    if n > 0 {
        lemma_available_indices_complete((n - 1) as u16, completed);
        let prev = spec_available_indices((n - 1) as u16, completed);
        let cur = spec_available_indices(n, completed);
        assert forall|x: u16| x < n && !completed.contains(x) implies cur.contains(x) by {
            if (x as int) < n - 1 {
                assert(prev.contains(x));
                let k = choose|k: int| 0 <= k < prev.len() && prev[k] == x;
                assert(cur[k] == x);
            } else {
                assert(x == (n - 1) as u16);
                assert(!completed.contains((n - 1) as u16));
                assert(cur == prev.push(x));
                assert(cur[cur.len() - 1] == x);
            }
        }
    }
}

/// Builds the eligible index list of a pool with `target_count` targets,
/// excluding the declared completed indices.
pub fn build_available_indices(target_count: u16, completed: &Vec<u16>) -> (r: Vec<u16>)
    ensures
        r@ == spec_available_indices(target_count, completed@),
{
    let mut avail: Vec<u16> = Vec::new();
    let mut i: u16 = 0;
    while i < target_count
        invariant
            i <= target_count,
            avail@ == spec_available_indices(i, completed@),
        decreases target_count - i,
    {
        if !contains_u16(completed, i) {
            avail.push(i);
        }
        i = i + 1;
        assert(avail@ == spec_available_indices(i, completed@));
    }
    avail
}

/// The outcome `submit` owes each input: the checks in order, then
/// success.
pub open spec fn submit_session_result(
    pre: Ledger,
    is_signer: bool,
    session_id: Seq<char>,
    pool_id: Seq<char>,
) -> Result<(), OpError> {
    if !is_signer {
        Err(OpError::MissingAuthority)
    } else if pre.spec_has_session(session_id) {
        Err(OpError::Custom(RemoteViewingError::SessionAlreadyExists))
    } else if session_id.len() == 0 {
        Err(OpError::Custom(RemoteViewingError::InvalidSessionId))
    } else if pool_id.len() == 0 {
        Err(OpError::Custom(RemoteViewingError::InvalidPoolId))
    } else if !pre.spec_has_pool(pool_id) {
        Err(OpError::Custom(RemoteViewingError::PoolNotFound))
    } else {
        Ok(())
    }
}

/// The full contract of `submit`: the owed outcome, and on success a
/// ledger grown by exactly the new session, unfinalized, with unset
/// entropy and the sentinel index, anchored at the submission tick.
pub open spec fn submit_session_outcome(
    pre: Ledger,
    post: Ledger,
    submitter: [u8; 32],
    is_signer: bool,
    clock: Clock,
    session_id: String,
    pool_id: String,
    session_media_hash: [u8; 32],
    target_selector_program: [u8; 32],
    completed_target_indices: Vec<u16>,
    r: Result<(), OpError>,
) -> bool {
    &&& r == submit_session_result(pre, is_signer, session_id@, pool_id@)
    &&& (r is Ok ==> {
        &&& post.pools@ == pre.pools@
        &&& post.sessions@.len() == pre.sessions@.len() + 1
        &&& (forall|j: int|
            0 <= j < pre.sessions@.len() ==> post.sessions@[j] == pre.sessions@[j])
        &&& session_submitted(
            post.sessions@[pre.sessions@.len() as int],
            session_id@,
            pool_id@,
            session_media_hash,
            target_selector_program,
            submitter,
            completed_target_indices@,
            clock,
        )
    })
    &&& (r is Err ==> post == pre)
}

/// Submits a session claiming a target of an existing pool. The
/// submission tick captured here, from the host's time source, is the
/// anchor the anti-manipulation window is measured from.
pub fn process_submit_session(
    ledger: &mut Ledger,
    submitter: [u8; 32],
    submitter_is_signer: bool,
    clock: Clock,
    session_id: String,
    pool_id: String,
    session_media_hash: [u8; 32],
    target_selector_program: [u8; 32],
    completed_target_indices: Vec<u16>,
) -> (r: Result<(), OpError>)
    requires
        old(ledger).wf(),
    ensures
        final(ledger).wf(),
        submit_session_outcome(
            *old(ledger),
            *final(ledger),
            submitter,
            submitter_is_signer,
            clock,
            session_id,
            pool_id,
            session_media_hash,
            target_selector_program,
            completed_target_indices,
            r,
        ),
{
    if !submitter_is_signer {
        return Err(OpError::MissingAuthority);
    }
    if let Some(_) = ledger.find_session(&session_id) {
        return Err(OpError::Custom(RemoteViewingError::SessionAlreadyExists));
    }
    if session_id.as_str().is_empty() {
        return Err(OpError::Custom(RemoteViewingError::InvalidSessionId));
    }
    if pool_id.as_str().is_empty() {
        return Err(OpError::Custom(RemoteViewingError::InvalidPoolId));
    }
    let pool_idx = match ledger.find_pool(&pool_id) {
        None => {
            return Err(OpError::Custom(RemoteViewingError::PoolNotFound));
        },
        Some(i) => i,
    };
    let new_session = Session {
        session_id,
        pool_id,
        session_media_hash,
        submission_slot: clock.slot,
        submission_blockhash: [0u8; 32],
        assigned_target_index: UNASSIGNED_TARGET_INDEX,
        target_selector_program,
        submitter,
        submitted_at: clock.unix_timestamp,
        finalized: false,
        finalized_at: 0,
        completed_target_indices,
    };
    ledger.sessions.push(new_session);
    proof {
        let pre = *old(ledger);
        let post = *ledger;
        let n = pre.sessions@.len() as int;
        assert(crate::records::is_zero_entropy(post.sessions@[n].submission_blockhash@));
        assert forall|i: int, j: int|
            0 <= i < post.sessions@.len() && 0 <= j < post.sessions@.len() && i != j implies (
        #[trigger] post.sessions@[i].session_id@) != (
        #[trigger] post.sessions@[j].session_id@) by {
            if i < n && j < n {
                assert(pre.sessions@[i].session_id@ != pre.sessions@[j].session_id@);
            }
        }
        assert forall|i: int| 0 <= i < post.sessions@.len() implies post.spec_has_pool(
            (#[trigger] post.sessions@[i]).pool_id@,
        ) by {
            if i < n {
                let w = pre.spec_pool_index(pre.sessions@[i].pool_id@);
                assert(0 <= w < pre.pools@.len() && pre.pools@[w].pool_id@
                    == pre.sessions@[i].pool_id@);
                assert(post.pools@[w].pool_id@ == post.sessions@[i].pool_id@);
            } else {
                assert(post.pools@[pool_idx as int].pool_id@ == post.sessions@[i].pool_id@);
            }
        }
        assert forall|i: int|
            0 <= i < post.sessions@.len() && (#[trigger] post.sessions@[i]).finalized implies {
            &&& post.sessions@[i].assigned_target_index < post.spec_pool(
                post.sessions@[i].pool_id@,
            ).target_count
            &&& !post.sessions@[i].completed_target_indices@.contains(
                post.sessions@[i].assigned_target_index,
            )
        } by {
            let pid = post.sessions@[i].pool_id@;
            let w = pre.spec_pool_index(pid);
            assert(0 <= w < pre.pools@.len() && pre.pools@[w].pool_id@ == pid);
            lemma_pool_index_unique(post, pid, w);
            assert(post.spec_pool(pid) == pre.spec_pool(pid));
        }
    }
    Ok(())
}

/// The entropy bytes as a mathematical value, `None` when no valid
/// 32-byte entropy was presented.
pub open spec fn entropy_bytes_view(e: Option<[u8; 32]>) -> Option<Seq<u8>> {
    match e {
        Some(b) => Some(b@),
        None => None,
    }
}

/// The index assigned to a session finalized against `pool` with this
/// entropy and these declared completed indices: the selector picks a
/// position among the eligible indices, and the assignment is the pool
/// index standing at that position.
pub open spec fn spec_assigned_index(pool: TargetPool, entropy: Seq<u8>, completed: Seq<u16>) -> u16 {
    let avail = spec_available_indices(pool.target_count, completed);
    avail[spec_select(entropy, avail.len() as u16)]
}

/// The outcome `finalize` owes each input: the checks in order — window
/// first, then the entropy encoding, then exhaustion — and success
/// exactly when all pass.
pub open spec fn finalize_session_result(
    pre: Ledger,
    is_signer: bool,
    session_id: Seq<char>,
    entropy: Option<Seq<u8>>,
    completed: Seq<u16>,
    clock: Clock,
) -> Result<(), OpError> {
    if !is_signer {
        Err(OpError::MissingAuthority)
    } else if !pre.spec_has_session(session_id) {
        Err(OpError::Custom(RemoteViewingError::SessionNotFound))
    } else if pre.spec_session(session_id).finalized {
        Err(OpError::Custom(RemoteViewingError::SessionAlreadyFinalized))
    } else if (clock.slot as int) < pre.spec_session(session_id).submission_slot
        + MIN_FINALIZE_DELAY_SLOTS {
        Err(OpError::Custom(RemoteViewingError::TooEarlyToFinalize))
    } else if (clock.slot as int) > pre.spec_session(session_id).submission_slot
        + MAX_FINALIZE_DELAY_SLOTS {
        Err(OpError::Custom(RemoteViewingError::InvalidSlotHash))
    } else if !(entropy matches Some(e) && e.len() == 32) {
        Err(OpError::Custom(RemoteViewingError::InvalidSlotHash))
    } else if spec_available_indices(
        pre.spec_pool(pre.spec_session(session_id).pool_id@).target_count,
        completed,
    ).len() == 0 {
        Err(OpError::Custom(RemoteViewingError::AllTargetsCompleted))
    } else {
        Ok(())
    }
}

/// The full contract of `finalize`: the owed outcome, and on success a
/// ledger in which only the named session changed, by
/// `session_after_finalize`, its assigned index drawn by the selector
/// from the eligible indices of its pool.
pub open spec fn finalize_session_outcome(
    pre: Ledger,
    post: Ledger,
    is_signer: bool,
    session_id: Seq<char>,
    entropy: Option<Seq<u8>>,
    completed: Seq<u16>,
    clock: Clock,
    r: Result<(), OpError>,
) -> bool {
    &&& r == finalize_session_result(pre, is_signer, session_id, entropy, completed, clock)
    &&& (r is Ok ==> (entropy matches Some(e) && {
        let si = pre.spec_session_index(session_id);
        let s0 = pre.sessions@[si];
        let pool = pre.spec_pool(s0.pool_id@);
        &&& post.pools@ == pre.pools@
        &&& post.sessions@.len() == pre.sessions@.len()
        &&& (forall|j: int|
            0 <= j < pre.sessions@.len() && j != si ==> post.sessions@[j] == pre.sessions@[j])
        &&& session_after_finalize(
            s0,
            post.sessions@[si],
            e,
            spec_assigned_index(pool, e, completed),
            completed,
            clock,
        )
    }))
    &&& (r is Err ==> post == pre)
}

/// Finalizes a session from already-decoded entropy bytes (`None` when
/// the presented text held no valid 32-byte value). The outcome for any
/// given entropy can be checked against this function directly.
pub fn process_finalize_session_with_entropy(
    ledger: &mut Ledger,
    caller_is_signer: bool,
    clock: Clock,
    session_id: String,
    entropy: Option<[u8; 32]>,
    completed_target_indices: Vec<u16>,
) -> (r: Result<(), OpError>)
    requires
        old(ledger).wf(),
    ensures
        final(ledger).wf(),
        finalize_session_outcome(
            *old(ledger),
            *final(ledger),
            caller_is_signer,
            session_id@,
            entropy_bytes_view(entropy),
            completed_target_indices@,
            clock,
            r,
        ),
{
    if !caller_is_signer {
        return Err(OpError::MissingAuthority);
    }
    let session_idx = match ledger.find_session(&session_id) {
        None => {
            return Err(OpError::Custom(RemoteViewingError::SessionNotFound));
        },
        Some(i) => i,
    };
    proof {
        lemma_session_index_unique(*ledger, session_id@, session_idx as int);
    }
    if ledger.sessions[session_idx].finalized {
        return Err(OpError::Custom(RemoteViewingError::SessionAlreadyFinalized));
    }
    let submission_slot = ledger.sessions[session_idx].submission_slot;
    if clock.slot < MIN_FINALIZE_DELAY_SLOTS || clock.slot - MIN_FINALIZE_DELAY_SLOTS
        < submission_slot {
        return Err(OpError::Custom(RemoteViewingError::TooEarlyToFinalize));
    }
    if clock.slot - submission_slot > MAX_FINALIZE_DELAY_SLOTS {
        return Err(OpError::Custom(RemoteViewingError::InvalidSlotHash));
    }
    let entropy_bytes = match entropy {
        None => {
            return Err(OpError::Custom(RemoteViewingError::InvalidSlotHash));
        },
        Some(e) => e,
    };
    let pool_idx = match ledger.find_pool(&ledger.sessions[session_idx].pool_id) {
        None => {
            proof {
                assert(old(ledger).spec_has_pool(old(ledger).sessions@[session_idx as int].pool_id@));
                assert(false);
            }
            return Err(OpError::Custom(RemoteViewingError::PoolNotFound));
        },
        Some(i) => i,
    };
    proof {
        lemma_pool_index_unique(*ledger, ledger.sessions@[session_idx as int].pool_id@, pool_idx as int);
    }
    let target_count = ledger.pools[pool_idx].target_count;
    let available = build_available_indices(target_count, &completed_target_indices);
    proof {
        lemma_available_indices_props(target_count, completed_target_indices@);
    }
    if available.len() == 0 {
        return Err(OpError::Custom(RemoteViewingError::AllTargetsCompleted));
    }
    let position = calculate_target_index(&entropy_bytes, available.len() as u16);
    let assigned = available[position as usize];
    let mut session = ledger.sessions.remove(session_idx);
    session.submission_blockhash = entropy_bytes;
    session.assigned_target_index = assigned;
    session.finalized = true;
    session.finalized_at = clock.unix_timestamp;
    session.completed_target_indices = completed_target_indices;
    ledger.sessions.insert(session_idx, session);
    proof {
        let pre = *old(ledger);
        let post = *ledger;
        let si = session_idx as int;
        assert(post.sessions@ =~= pre.sessions@.update(si, post.sessions@[si]));
        let s0 = pre.sessions@[si];
        let s1 = post.sessions@[si];
        let pool = pre.spec_pool(s0.pool_id@);
        assert(pool == pre.pools@[pool_idx as int]);
        assert(session_after_finalize(
            s0,
            s1,
            entropy_bytes@,
            spec_assigned_index(pool, entropy_bytes@, completed_target_indices@),
            completed_target_indices@,
            clock,
        ));
        lemma_ledger_wf_after_session_finalize(pre, post, si);
    }
    Ok(())
}

/// A ledger stays well formed when one unfinalized session is replaced by
/// a well-formed finalized session that keeps its identifiers and whose
/// assigned index is valid for its pool.
proof fn lemma_ledger_wf_after_session_finalize(pre: Ledger, post: Ledger, i: int)
    requires
        pre.wf(),
        0 <= i < pre.sessions@.len(),
        post.pools@ == pre.pools@,
        post.sessions@.len() == pre.sessions@.len(),
        forall|j: int|
            0 <= j < pre.sessions@.len() && j != i ==> post.sessions@[j] == pre.sessions@[j],
        session_wf(post.sessions@[i]),
        post.sessions@[i].session_id@ == pre.sessions@[i].session_id@,
        post.sessions@[i].pool_id@ == pre.sessions@[i].pool_id@,
        post.sessions@[i].finalized ==> {
            &&& post.sessions@[i].assigned_target_index < pre.spec_pool(
                pre.sessions@[i].pool_id@,
            ).target_count
            &&& !post.sessions@[i].completed_target_indices@.contains(
                post.sessions@[i].assigned_target_index,
            )
        },
    ensures
        post.wf(),
{
    assert forall|a: int, b: int|
        0 <= a < post.sessions@.len() && 0 <= b < post.sessions@.len() && a != b implies (
    #[trigger] post.sessions@[a].session_id@) != (#[trigger] post.sessions@[b].session_id@) by {
        assert(pre.sessions@[a].session_id@ != pre.sessions@[b].session_id@);
        assert(post.sessions@[a].session_id@ == pre.sessions@[a].session_id@);
        assert(post.sessions@[b].session_id@ == pre.sessions@[b].session_id@);
    }
    assert forall|k: int| 0 <= k < post.sessions@.len() implies post.spec_has_pool(
        (#[trigger] post.sessions@[k]).pool_id@,
    ) by {
        let pid = pre.sessions@[k].pool_id@;
        let w = pre.spec_pool_index(pid);
        assert(0 <= w < pre.pools@.len() && pre.pools@[w].pool_id@ == pid);
        assert(post.pools@[w].pool_id@ == pid);
        assert(post.sessions@[k].pool_id@ == pid);
    }
    assert forall|k: int|
        0 <= k < post.sessions@.len() && (#[trigger] post.sessions@[k]).finalized implies {
        &&& post.sessions@[k].assigned_target_index < post.spec_pool(
            post.sessions@[k].pool_id@,
        ).target_count
        &&& !post.sessions@[k].completed_target_indices@.contains(
            post.sessions@[k].assigned_target_index,
        )
    } by {
        let pid = post.sessions@[k].pool_id@;
        let w = pre.spec_pool_index(pid);
        assert(pre.sessions@[k].pool_id@ == pid);
        assert(0 <= w < pre.pools@.len() && pre.pools@[w].pool_id@ == pid);
        lemma_pool_index_unique(post, pid, w);
        assert(post.spec_pool(pid) == pre.spec_pool(pid));
    }
}

/// Finalizes a session from the presented textual entropy: the text must
/// decode to exactly 32 raw bytes, else the entropy is rejected as
/// invalid.
pub fn process_finalize_session(
    ledger: &mut Ledger,
    caller_is_signer: bool,
    clock: Clock,
    session_id: String,
    submission_blockhash: String,
    completed_target_indices: Vec<u16>,
) -> (r: Result<(), OpError>)
    requires
        old(ledger).wf(),
    ensures
        final(ledger).wf(),
        finalize_session_outcome(
            *old(ledger),
            *final(ledger),
            caller_is_signer,
            session_id@,
            spec_entropy_of_text(submission_blockhash@),
            completed_target_indices@,
            clock,
            r,
        ),
{
    let entropy = decode_entropy(submission_blockhash.as_str());
    process_finalize_session_with_entropy(
        ledger,
        caller_is_signer,
        clock,
        session_id,
        entropy,
        completed_target_indices,
    )
}

} // verus!
