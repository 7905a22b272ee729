//! Pools of opaque 32-byte target identifiers and sessions that each claim
//! one target from a pool. A session is assigned its target with entropy
//! that is unknown at submission time, drawn from a bounded validity window,
//! so the submitter cannot bias the assignment.

pub mod dispatch;
pub mod entropy;
pub mod errors;
pub mod ledger;
pub mod pool_registry;
pub mod records;
pub mod selector;
pub mod session_registry;

pub use dispatch::{process_instruction, RemoteViewingInstruction};
pub use entropy::decode_entropy;
pub use errors::{OpError, RemoteViewingError};
pub use ledger::Ledger;
pub use pool_registry::{
    process_append_targets_to_pool, process_create_target_pool, process_finalize_pool,
};
pub use records::{
    Clock, Session, TargetPool, MAX_FINALIZE_DELAY_SLOTS, MAX_POOL_TARGETS,
    MIN_FINALIZE_DELAY_SLOTS, UNASSIGNED_TARGET_INDEX,
};
pub use selector::calculate_target_index;
pub use session_registry::{
    build_available_indices, process_finalize_session, process_finalize_session_with_entropy,
    process_submit_session,
};
