//! The closed error taxonomy of the registries.
//!
//! Every failed operation reports exactly one of these values; callers
//! program against the stable numeric code, never against free-form text.

use vstd::prelude::*;

verus! {

/// Domain-level failures of the pool and session protocol.
#[derive(Clone, Copy, Debug, PartialEq, Eq, Structural)]
pub enum RemoteViewingError {
    InvalidInstruction,
    InvalidPoolId,
    InvalidSessionId,
    PoolAlreadyExists,
    SessionAlreadyExists,
    PoolNotFound,
    InvalidTargetCount,
    AccountDataTooSmall,
    SessionNotFound,
    SessionAlreadyFinalized,
    TooEarlyToFinalize,
    InvalidSlotHash,
    AllTargetsCompleted,
    PoolAlreadyFinalized,
}

/// What a dispatched operation can report: an authority failure raised by
/// the request envelope itself, or a domain error of the protocol.
#[derive(Clone, Copy, Debug, PartialEq, Eq, Structural)]
pub enum OpError {
    /// The caller presented no proof of authority (no signature).
    MissingAuthority,
    /// The caller is authenticated but is not the record's creator.
    Unauthorized,
    /// A domain error of the pool/session protocol.
    Custom(RemoteViewingError),
}

/// The stable numeric code of a domain error, in declaration order.
pub open spec fn spec_error_code(e: RemoteViewingError) -> u32 {
    match e {
        RemoteViewingError::InvalidInstruction => 0,
        RemoteViewingError::InvalidPoolId => 1,
        RemoteViewingError::InvalidSessionId => 2,
        RemoteViewingError::PoolAlreadyExists => 3,
        RemoteViewingError::SessionAlreadyExists => 4,
        RemoteViewingError::PoolNotFound => 5,
        RemoteViewingError::InvalidTargetCount => 6,
        RemoteViewingError::AccountDataTooSmall => 7,
        RemoteViewingError::SessionNotFound => 8,
        RemoteViewingError::SessionAlreadyFinalized => 9,
        RemoteViewingError::TooEarlyToFinalize => 10,
        RemoteViewingError::InvalidSlotHash => 11,
        RemoteViewingError::AllTargetsCompleted => 12,
        RemoteViewingError::PoolAlreadyFinalized => 13,
    }
}

impl RemoteViewingError {
    /// The stable numeric code a caller may program against.
    pub fn code(&self) -> (c: u32)
        ensures
            c == spec_error_code(*self),
    {
        match self {
            RemoteViewingError::InvalidInstruction => 0,
            RemoteViewingError::InvalidPoolId => 1,
            RemoteViewingError::InvalidSessionId => 2,
            RemoteViewingError::PoolAlreadyExists => 3,
            RemoteViewingError::SessionAlreadyExists => 4,
            RemoteViewingError::PoolNotFound => 5,
            RemoteViewingError::InvalidTargetCount => 6,
            RemoteViewingError::AccountDataTooSmall => 7,
            RemoteViewingError::SessionNotFound => 8,
            RemoteViewingError::SessionAlreadyFinalized => 9,
            RemoteViewingError::TooEarlyToFinalize => 10,
            RemoteViewingError::InvalidSlotHash => 11,
            RemoteViewingError::AllTargetsCompleted => 12,
            RemoteViewingError::PoolAlreadyFinalized => 13,
        }
    }
}

} // verus!
