use remote_viewing::{
    process_instruction, Clock, Ledger, OpError, RemoteViewingError, RemoteViewingInstruction,
};

fn h(b: u8) -> [u8; 32] {
    [b; 32]
}

fn clock(slot: u64, ts: i64) -> Clock {
    Clock { slot, unix_timestamp: ts }
}

const CREATOR: [u8; 32] = [9u8; 32];

#[test]
fn dispatch_full_protocol_round() {
    let mut l = Ledger::new();
    let create = RemoteViewingInstruction::CreateTargetPool {
        pool_id: "pool".to_string(),
        target_hashes: vec![h(0), h(1), h(2), h(3), h(4)],
    };
    process_instruction(&mut l, CREATOR, true, clock(50, 500), create).unwrap();

    let append = RemoteViewingInstruction::AppendTargetsToPool {
        pool_id: "pool".to_string(),
        target_hashes: vec![h(5)],
    };
    process_instruction(&mut l, CREATOR, true, clock(60, 600), append).unwrap();
    assert_eq!(l.get_pool(&"pool".to_string()).unwrap().target_count, 6);

    let submit = RemoteViewingInstruction::SubmitSession {
        session_id: "sess".to_string(),
        pool_id: "pool".to_string(),
        session_media_hash: h(0xAA),
        target_selector_program: h(0xBB),
        completed_target_indices: vec![],
    };
    process_instruction(&mut l, [7u8; 32], true, clock(100, 1000), submit).unwrap();

    let finalize_pool = RemoteViewingInstruction::FinalizePool { pool_id: "pool".to_string() };
    process_instruction(&mut l, CREATOR, true, clock(101, 1010), finalize_pool).unwrap();
    assert!(l.get_pool(&"pool".to_string()).unwrap().finalized);

    // Entropy whose leading 8 bytes read as 7: among the six indices with
    // index 2 excluded, the selector picks position 7 % 5 = 2, which is
    // the original pool index 3.
    let mut entropy = [0u8; 32];
    entropy[7] = 7;
    let finalize = RemoteViewingInstruction::FinalizeSession {
        session_id: "sess".to_string(),
        submission_blockhash: bs58::encode(&entropy).into_string(),
        completed_target_indices: vec![2],
    };
    process_instruction(&mut l, [1u8; 32], true, clock(102, 1020), finalize).unwrap();
    let s = l.get_session(&"sess".to_string()).unwrap();
    assert!(s.finalized);
    assert_eq!(s.assigned_target_index, 3);
    assert_eq!(s.submission_blockhash, entropy);
}

#[test]
fn dispatch_without_signature_rejected() {
    let mut l = Ledger::new();
    let create = RemoteViewingInstruction::CreateTargetPool {
        pool_id: "pool".to_string(),
        target_hashes: vec![h(0)],
    };
    let r = process_instruction(&mut l, CREATOR, false, clock(50, 500), create);
    assert_eq!(r, Err(OpError::MissingAuthority));
}

#[test]
fn error_codes_are_stable() {
    assert_eq!(RemoteViewingError::InvalidInstruction.code(), 0);
    assert_eq!(RemoteViewingError::InvalidPoolId.code(), 1);
    assert_eq!(RemoteViewingError::InvalidSessionId.code(), 2);
    assert_eq!(RemoteViewingError::PoolAlreadyExists.code(), 3);
    assert_eq!(RemoteViewingError::SessionAlreadyExists.code(), 4);
    assert_eq!(RemoteViewingError::PoolNotFound.code(), 5);
    assert_eq!(RemoteViewingError::InvalidTargetCount.code(), 6);
    assert_eq!(RemoteViewingError::AccountDataTooSmall.code(), 7);
    assert_eq!(RemoteViewingError::SessionNotFound.code(), 8);
    assert_eq!(RemoteViewingError::SessionAlreadyFinalized.code(), 9);
    assert_eq!(RemoteViewingError::TooEarlyToFinalize.code(), 10);
    assert_eq!(RemoteViewingError::InvalidSlotHash.code(), 11);
    assert_eq!(RemoteViewingError::AllTargetsCompleted.code(), 12);
    assert_eq!(RemoteViewingError::PoolAlreadyFinalized.code(), 13);
}
