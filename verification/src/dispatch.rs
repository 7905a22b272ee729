//! The operation dispatcher: one request, decoded into one of five
//! operations, routed to the registry that owns the named record.
//!
//! Each dispatched operation is a single atomic step: every read,
//! validation and write commits together, or the ledger is left exactly
//! as it was.

use vstd::prelude::*;

use crate::errors::OpError;
use crate::ledger::{lemma_pool_index_unique, lemma_session_index_unique, Ledger};
use crate::pool_registry::{
    append_targets_outcome, create_pool_outcome, finalize_pool_outcome,
    process_append_targets_to_pool, process_create_target_pool, process_finalize_pool,
};
use crate::records::Clock;
use crate::session_registry::{
    finalize_session_outcome, process_finalize_session, process_submit_session,
    submit_session_outcome,
};

verus! {

/// A decoded request: a discriminated union of the five operations.
#[derive(Debug)]
pub enum RemoteViewingInstruction {
    /// Create a new target pool under a caller-chosen identifier.
    CreateTargetPool { pool_id: String, target_hashes: Vec<[u8; 32]> },
    /// Submit a session claiming a target of an existing pool.
    SubmitSession {
        session_id: String,
        pool_id: String,
        session_media_hash: [u8; 32],
        target_selector_program: [u8; 32],
        completed_target_indices: Vec<u16>,
    },
    /// Finalize a session with textual entropy from the validity window.
    FinalizeSession {
        session_id: String,
        submission_blockhash: String,
        completed_target_indices: Vec<u16>,
    },
    /// Append targets to an existing, not yet finalized pool.
    AppendTargetsToPool { pool_id: String, target_hashes: Vec<[u8; 32]> },
    /// Close a pool to further target additions.
    FinalizePool { pool_id: String },
}

/// What one dispatched operation does to the ledger: the contract of the
/// operation the instruction names, with the caller's identity and
/// authority and the clock handed through.
pub open spec fn instruction_outcome(
    pre: Ledger,
    post: Ledger,
    caller: [u8; 32],
    caller_is_signer: bool,
    clock: Clock,
    instruction: RemoteViewingInstruction,
    r: Result<(), OpError>,
) -> bool {
    match instruction {
            RemoteViewingInstruction::CreateTargetPool { pool_id, target_hashes } => create_pool_outcome(
                pre,
                post,
                caller,
                caller_is_signer,
                clock,
                pool_id,
                target_hashes,
                r,
            ),
            RemoteViewingInstruction::SubmitSession {
                session_id,
                pool_id,
                session_media_hash,
                target_selector_program,
                completed_target_indices,
            } => submit_session_outcome(
                pre,
                post,
                caller,
                caller_is_signer,
                clock,
                session_id,
                pool_id,
                session_media_hash,
                target_selector_program,
                completed_target_indices,
                r,
            ),
            RemoteViewingInstruction::FinalizeSession {
                session_id,
                submission_blockhash,
                completed_target_indices,
            } => finalize_session_outcome(
                pre,
                post,
                caller_is_signer,
                session_id@,
                crate::entropy::spec_entropy_of_text(submission_blockhash@),
                completed_target_indices@,
                clock,
                r,
            ),
            RemoteViewingInstruction::AppendTargetsToPool { pool_id, target_hashes } => append_targets_outcome(
                pre,
                post,
                caller,
                caller_is_signer,
                pool_id@,
                target_hashes,
                r,
            ),
            RemoteViewingInstruction::FinalizePool { pool_id } => finalize_pool_outcome(
                pre,
                post,
                caller,
                caller_is_signer,
                pool_id@,
                r,
            ),
        }
}

/// Routes one decoded operation to its registry. `caller` is the
/// authenticated identity presented by the request envelope and
/// `caller_is_signer` whether it proved its authority; `clock` is the
/// host's time source at this atomic step.
pub fn process_instruction(
    ledger: &mut Ledger,
    caller: [u8; 32],
    caller_is_signer: bool,
    clock: Clock,
    instruction: RemoteViewingInstruction,
) -> (r: Result<(), OpError>)
    requires
        old(ledger).wf(),
    ensures
        final(ledger).wf(),
        instruction_outcome(
            *old(ledger),
            *final(ledger),
            caller,
            caller_is_signer,
            clock,
            instruction,
            r,
        ),
{
    match instruction {
        RemoteViewingInstruction::CreateTargetPool { pool_id, target_hashes } => {
            process_create_target_pool(
                ledger,
                caller,
                caller_is_signer,
                clock,
                pool_id,
                target_hashes,
            )
        },
        RemoteViewingInstruction::SubmitSession {
            session_id,
            pool_id,
            session_media_hash,
            target_selector_program,
            completed_target_indices,
        } => {
            process_submit_session(
                ledger,
                caller,
                caller_is_signer,
                clock,
                session_id,
                pool_id,
                session_media_hash,
                target_selector_program,
                completed_target_indices,
            )
        },
        RemoteViewingInstruction::FinalizeSession {
            session_id,
            submission_blockhash,
            completed_target_indices,
        } => {
            process_finalize_session(
                ledger,
                caller_is_signer,
                clock,
                session_id,
                submission_blockhash,
                completed_target_indices,
            )
        },
        RemoteViewingInstruction::AppendTargetsToPool { pool_id, target_hashes } => {
            process_append_targets_to_pool(ledger, caller, caller_is_signer, pool_id, target_hashes)
        },
        RemoteViewingInstruction::FinalizePool { pool_id } => {
            process_finalize_pool(ledger, caller, caller_is_signer, pool_id)
        },
    }
}

/// A finalized pool is terminal: whatever operation runs next, the pool
/// keeps its identifier, its targets, and its `finalized` flag — no
/// operation ever clears the flag or changes the stored targets again.
pub proof fn lemma_finalized_pool_is_terminal(
    pre: Ledger,
    post: Ledger,
    caller: [u8; 32],
    caller_is_signer: bool,
    clock: Clock,
    instruction: RemoteViewingInstruction,
    r: Result<(), OpError>,
    pool_id: Seq<char>,
)
    requires
        pre.wf(),
        post.wf(),
        pre.spec_has_pool(pool_id),
        pre.spec_pool(pool_id).finalized,
        instruction_outcome(pre, post, caller, caller_is_signer, clock, instruction, r),
    ensures
        post.spec_has_pool(pool_id),
        post.spec_pool(pool_id) == pre.spec_pool(pool_id),
{
    let i = pre.spec_pool_index(pool_id);
    assert(0 <= i < pre.pools@.len() && pre.pools@[i].pool_id@ == pool_id);
    if r is Err {
        lemma_pool_index_unique(post, pool_id, i);
    } else {
        match instruction {
            RemoteViewingInstruction::CreateTargetPool { .. } => {
                assert(post.pools@[i] == pre.pools@[i]);
                lemma_pool_index_unique(post, pool_id, i);
            },
            RemoteViewingInstruction::SubmitSession { .. } => {
                assert(post.pools@[i] == pre.pools@[i]);
                lemma_pool_index_unique(post, pool_id, i);
            },
            RemoteViewingInstruction::FinalizeSession { .. } => {
                assert(post.pools@[i] == pre.pools@[i]);
                lemma_pool_index_unique(post, pool_id, i);
            },
            RemoteViewingInstruction::AppendTargetsToPool { pool_id: other_id, .. } => {
                let j = pre.spec_pool_index(other_id@);
                assert(!pre.spec_pool(other_id@).finalized);
                assert(pre.pools@[j].pool_id@ == other_id@);
                assert(i != j);
                assert(post.pools@[i] == pre.pools@[i]);
                lemma_pool_index_unique(post, pool_id, i);
            },
            RemoteViewingInstruction::FinalizePool { pool_id: other_id } => {
                let j = pre.spec_pool_index(other_id@);
                assert(!pre.spec_pool(other_id@).finalized);
                assert(pre.pools@[j].pool_id@ == other_id@);
                assert(i != j);
                assert(post.pools@[i] == pre.pools@[i]);
                lemma_pool_index_unique(post, pool_id, i);
            },
        }
    }
}

/// A finalized session is terminal: whatever operation runs next, the
/// whole stored session record — entropy, assigned index, completed set
/// and stamps — stays exactly as the successful finalize committed it.
pub proof fn lemma_finalized_session_is_terminal(
    pre: Ledger,
    post: Ledger,
    caller: [u8; 32],
    caller_is_signer: bool,
    clock: Clock,
    instruction: RemoteViewingInstruction,
    r: Result<(), OpError>,
    session_id: Seq<char>,
)
    requires
        pre.wf(),
        post.wf(),
        pre.spec_has_session(session_id),
        pre.spec_session(session_id).finalized,
        instruction_outcome(pre, post, caller, caller_is_signer, clock, instruction, r),
    ensures
        post.spec_has_session(session_id),
        post.spec_session(session_id) == pre.spec_session(session_id),
{
    let i = pre.spec_session_index(session_id);
    assert(0 <= i < pre.sessions@.len() && pre.sessions@[i].session_id@ == session_id);
    if r is Err {
        lemma_session_index_unique(post, session_id, i);
    } else {
        match instruction {
            RemoteViewingInstruction::CreateTargetPool { .. } => {
                assert(post.sessions@[i] == pre.sessions@[i]);
                lemma_session_index_unique(post, session_id, i);
            },
            RemoteViewingInstruction::SubmitSession { .. } => {
                assert(post.sessions@[i] == pre.sessions@[i]);
                lemma_session_index_unique(post, session_id, i);
            },
            RemoteViewingInstruction::FinalizeSession { session_id: other_id, .. } => {
                let j = pre.spec_session_index(other_id@);
                assert(!pre.spec_session(other_id@).finalized);
                assert(pre.sessions@[j].session_id@ == other_id@);
                assert(i != j);
                assert(post.sessions@[i] == pre.sessions@[i]);
                lemma_session_index_unique(post, session_id, i);
            },
            RemoteViewingInstruction::AppendTargetsToPool { .. } => {
                assert(post.sessions@[i] == pre.sessions@[i]);
                lemma_session_index_unique(post, session_id, i);
            },
            RemoteViewingInstruction::FinalizePool { .. } => {
                assert(post.sessions@[i] == pre.sessions@[i]);
                lemma_session_index_unique(post, session_id, i);
            },
        }
    }
}

} // verus!
