//! The two record types of the protocol — target pools and sessions — with
//! their well-formedness conditions, and the ledger clock they are stamped
//! with.
//!
//! A pool owns an append-only, then finalized, sequence of opaque 32-byte
//! target identifiers; the position of a target in that sequence is its
//! index, frozen by append order and never renumbered. A session claims one
//! target of a pool: it is submitted with all-zero entropy and a sentinel
//! index, and a later finalization fills in the entropy actually used and
//! the assigned index.

use vstd::prelude::*;

verus! {

/// The most targets a single pool may ever hold.
pub const MAX_POOL_TARGETS: usize = 10000;

/// The sentinel carried by `assigned_target_index` until a session is
/// finalized; no real index reaches it, since a pool holds at most
/// `MAX_POOL_TARGETS` targets.
pub const UNASSIGNED_TARGET_INDEX: u16 = 65535;

/// The earliest tick distance from submission at which a session may be
/// finalized: entropy for the submission tick or the one right after it is
/// still predictable by the submitter.
pub const MIN_FINALIZE_DELAY_SLOTS: u64 = 2;

/// The latest tick distance from submission at which a session may still be
/// finalized: the external entropy source only retains recent values.
pub const MAX_FINALIZE_DELAY_SLOTS: u64 = 150;

/// The ledger's time source at the moment an operation runs: a
/// monotonically increasing slot counter and a wall-clock timestamp.
#[derive(Clone, Copy, Debug, PartialEq, Eq, Structural)]
pub struct Clock {
    pub slot: u64,
    pub unix_timestamp: i64,
}

/// An append-then-finalize collection of opaque 32-byte target identifiers.
#[derive(Debug)]
pub struct TargetPool {
    /// Caller-chosen identifier, unique among pools.
    pub pool_id: String,
    /// The identity that created the pool; only it may append or finalize.
    pub creator: [u8; 32],
    /// Always equal to `targets.len()`; stored denormalized.
    pub target_count: u16,
    /// The target identifiers; their order is the index space.
    pub targets: Vec<[u8; 32]>,
    /// Timestamp of creation.
    pub created_at: i64,
    /// Once true, `targets` never changes again.
    pub finalized: bool,
}

/// A claim against a pool, assigned exactly one target index on
/// finalization.
#[derive(Debug)]
pub struct Session {
    /// Caller-chosen identifier, unique among sessions.
    pub session_id: String,
    /// The pool this session claims a target from.
    pub pool_id: String,
    /// Opaque content digest supplied by the submitter; never validated.
    pub session_media_hash: [u8; 32],
    /// The ledger tick at submission; the anti-manipulation window is
    /// measured from here.
    pub submission_slot: u64,
    /// The 32 entropy bytes used at finalization; all zero until then.
    pub submission_blockhash: [u8; 32],
    /// The assigned pool index; `UNASSIGNED_TARGET_INDEX` until finalized.
    pub assigned_target_index: u16,
    /// Opaque external reference, stored but never dereferenced here.
    pub target_selector_program: [u8; 32],
    /// The identity that submitted the session.
    pub submitter: [u8; 32],
    /// Timestamp of submission.
    pub submitted_at: i64,
    /// A session finalizes at most once.
    pub finalized: bool,
    /// Timestamp of finalization; zero until then.
    pub finalized_at: i64,
    /// The indices the submitter declared already claimed; the set supplied
    /// at the successful finalize call is the one stored.
    pub completed_target_indices: Vec<u16>,
}

/// True of the all-zero 32-byte value, the explicit "unset" entropy
/// sentinel.
pub open spec fn is_zero_entropy(h: Seq<u8>) -> bool {
    h.len() == 32 && forall|i: int| 0 <= i < 32 ==> h[i] == 0
}

/// Well-formedness of a stored pool record.
pub open spec fn pool_wf(p: TargetPool) -> bool {
    &&& p.pool_id@.len() > 0
    &&& p.target_count == p.targets@.len()
    &&& p.targets@.len() <= MAX_POOL_TARGETS
}

/// Well-formedness of a stored session record on its own; how its assigned
/// index relates to its pool is stated by the ledger invariant.
pub open spec fn session_wf(s: Session) -> bool {
    &&& s.session_id@.len() > 0
    &&& s.pool_id@.len() > 0
    &&& !s.finalized ==> {
        &&& s.assigned_target_index == UNASSIGNED_TARGET_INDEX
        &&& is_zero_entropy(s.submission_blockhash@)
    }
}

/// Compares two 32-byte values, such as identities or content digests.
pub fn bytes32_eq(a: &[u8; 32], b: &[u8; 32]) -> (r: bool)
    ensures
        r == (a@ == b@),
{
    let mut i: usize = 0;
    while i < 32
        invariant
            i <= 32,
            forall|k: int| 0 <= k < i ==> a@[k] == b@[k],
        decreases 32 - i,
    {
        if a[i] != b[i] {
            assert(a@ != b@);
            return false;
        }
        i = i + 1;
    }
    assert(a@ =~= b@);
    true
}

/// How a pool reads after a successful append of `hs`: the old targets keep
/// their indices, the new ones follow in order, and every other field is
/// untouched.
pub open spec fn pool_after_append(p0: TargetPool, p1: TargetPool, hs: Seq<[u8; 32]>) -> bool {
    &&& p1.pool_id == p0.pool_id
    &&& p1.creator == p0.creator
    &&& p1.targets@ == p0.targets@ + hs
    &&& p1.target_count == p0.targets@.len() + hs.len()
    &&& p1.created_at == p0.created_at
    &&& p1.finalized == p0.finalized
}

/// How a pool reads after a successful finalize: only the one-way
/// `finalized` flag changes.
pub open spec fn pool_after_finalize(p0: TargetPool, p1: TargetPool) -> bool {
    &&& p1.pool_id == p0.pool_id
    &&& p1.creator == p0.creator
    &&& p1.targets == p0.targets
    &&& p1.target_count == p0.target_count
    &&& p1.created_at == p0.created_at
    &&& p1.finalized
}

/// The fields of a freshly submitted session: entropy unset, index at the
/// sentinel, not finalized, stamped with the submission clock.
pub open spec fn session_submitted(
    s: Session,
    session_id: Seq<char>,
    pool_id: Seq<char>,
    session_media_hash: [u8; 32],
    target_selector_program: [u8; 32],
    submitter: [u8; 32],
    completed_target_indices: Seq<u16>,
    clock: Clock,
) -> bool {
    &&& s.session_id@ == session_id
    &&& s.pool_id@ == pool_id
    &&& s.session_media_hash == session_media_hash
    &&& s.submission_slot == clock.slot
    &&& is_zero_entropy(s.submission_blockhash@)
    &&& s.assigned_target_index == UNASSIGNED_TARGET_INDEX
    &&& s.target_selector_program == target_selector_program
    &&& s.submitter == submitter
    &&& s.submitted_at == clock.unix_timestamp
    &&& !s.finalized
    &&& s.finalized_at == 0
    &&& s.completed_target_indices@ == completed_target_indices
}

/// How a session reads after a successful finalize: the entropy actually
/// used, the assigned index, the finalization stamp and the completed set
/// supplied at that call are stored; everything fixed at submission stays.
pub open spec fn session_after_finalize(
    s0: Session,
    s1: Session,
    entropy: Seq<u8>,
    assigned: u16,
    completed_target_indices: Seq<u16>,
    clock: Clock,
) -> bool {
    &&& s1.session_id == s0.session_id
    &&& s1.pool_id == s0.pool_id
    &&& s1.session_media_hash == s0.session_media_hash
    &&& s1.submission_slot == s0.submission_slot
    &&& s1.submission_blockhash@ == entropy
    &&& s1.assigned_target_index == assigned
    &&& s1.target_selector_program == s0.target_selector_program
    &&& s1.submitter == s0.submitter
    &&& s1.submitted_at == s0.submitted_at
    &&& s1.finalized
    &&& s1.finalized_at == clock.unix_timestamp
    &&& s1.completed_target_indices@ == completed_target_indices
}

} // verus!
