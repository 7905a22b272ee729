use remote_viewing::{
    process_append_targets_to_pool, process_create_target_pool, process_finalize_pool,
    process_finalize_session, process_finalize_session_with_entropy, process_submit_session,
    Clock, Ledger, OpError, RemoteViewingError, UNASSIGNED_TARGET_INDEX,
};

fn h(b: u8) -> [u8; 32] {
    [b; 32]
}

const CREATOR: [u8; 32] = [9u8; 32];
const SUBMITTER: [u8; 32] = [8u8; 32];

fn clock(slot: u64, ts: i64) -> Clock {
    Clock { slot, unix_timestamp: ts }
}

/// Entropy whose leading 8 bytes read as the big-endian value 7.
fn entropy7() -> [u8; 32] {
    let mut e = [0u8; 32];
    e[7] = 7;
    e
}

/// A ledger holding one pool of five targets and one session submitted
/// against it at tick 100.
fn pool_and_session() -> Ledger {
    let mut l = Ledger::new();
    let targets = vec![h(0), h(1), h(2), h(3), h(4)];
    process_create_target_pool(&mut l, CREATOR, true, clock(50, 500), "pool".to_string(), targets)
        .unwrap();
    process_submit_session(
        &mut l,
        SUBMITTER,
        true,
        clock(100, 1000),
        "sess".to_string(),
        "pool".to_string(),
        h(0xAA),
        h(0xBB),
        vec![],
    )
    .unwrap();
    l
}

#[test]
fn create_then_read_counts_targets() {
    let mut l = Ledger::new();
    let targets = vec![h(1), h(2), h(3)];
    let r = process_create_target_pool(
        &mut l,
        CREATOR,
        true,
        clock(10, 111),
        "p".to_string(),
        targets,
    );
    assert!(r.is_ok());
    let pool = l.get_pool(&"p".to_string()).unwrap();
    assert_eq!(pool.target_count, 3);
    assert_eq!(pool.targets.len(), 3);
    assert_eq!(pool.targets[1], h(2));
    assert!(!pool.finalized);
    assert_eq!(pool.created_at, 111);
    assert_eq!(pool.creator, CREATOR);
}

#[test]
fn create_empty_pool_is_permitted() {
    let mut l = Ledger::new();
    let r = process_create_target_pool(
        &mut l,
        CREATOR,
        true,
        clock(10, 111),
        "p".to_string(),
        vec![],
    );
    assert!(r.is_ok());
    let pool = l.get_pool(&"p".to_string()).unwrap();
    assert_eq!(pool.target_count, 0);
    assert!(!pool.finalized);
}

#[test]
fn create_at_the_target_limit() {
    let mut l = Ledger::new();
    let targets = vec![h(7); 10000];
    let r = process_create_target_pool(
        &mut l,
        CREATOR,
        true,
        clock(10, 111),
        "p".to_string(),
        targets,
    );
    assert!(r.is_ok());
    assert_eq!(l.get_pool(&"p".to_string()).unwrap().target_count, 10000);
}

#[test]
fn create_over_the_target_limit_rejected() {
    let mut l = Ledger::new();
    let targets = vec![h(7); 10001];
    let r = process_create_target_pool(
        &mut l,
        CREATOR,
        true,
        clock(10, 111),
        "p".to_string(),
        targets,
    );
    assert_eq!(r, Err(OpError::Custom(RemoteViewingError::InvalidTargetCount)));
    assert!(l.get_pool(&"p".to_string()).is_none());
}

#[test]
fn create_empty_pool_id_rejected() {
    let mut l = Ledger::new();
    let r = process_create_target_pool(
        &mut l,
        CREATOR,
        true,
        clock(10, 111),
        "".to_string(),
        vec![h(1)],
    );
    assert_eq!(r, Err(OpError::Custom(RemoteViewingError::InvalidPoolId)));
}

#[test]
fn create_without_signature_rejected() {
    let mut l = Ledger::new();
    let r = process_create_target_pool(
        &mut l,
        CREATOR,
        false,
        clock(10, 111),
        "p".to_string(),
        vec![h(1)],
    );
    assert_eq!(r, Err(OpError::MissingAuthority));
}

#[test]
fn create_twice_rejected() {
    let mut l = Ledger::new();
    process_create_target_pool(&mut l, CREATOR, true, clock(10, 111), "p".to_string(), vec![h(1)])
        .unwrap();
    let r = process_create_target_pool(
        &mut l,
        CREATOR,
        true,
        clock(11, 112),
        "p".to_string(),
        vec![h(2)],
    );
    assert_eq!(r, Err(OpError::Custom(RemoteViewingError::PoolAlreadyExists)));
    assert_eq!(l.get_pool(&"p".to_string()).unwrap().targets[0], h(1));
}

#[test]
fn append_grows_pool_in_order() {
    let mut l = Ledger::new();
    process_create_target_pool(&mut l, CREATOR, true, clock(10, 111), "p".to_string(), vec![h(1)])
        .unwrap();
    let r = process_append_targets_to_pool(&mut l, CREATOR, true, "p".to_string(), vec![
        h(2),
        h(3),
    ]);
    assert!(r.is_ok());
    let pool = l.get_pool(&"p".to_string()).unwrap();
    assert_eq!(pool.target_count, 3);
    assert_eq!(pool.targets, vec![h(1), h(2), h(3)]);
}

#[test]
fn append_to_missing_pool_rejected() {
    let mut l = Ledger::new();
    let r = process_append_targets_to_pool(&mut l, CREATOR, true, "p".to_string(), vec![h(2)]);
    assert_eq!(r, Err(OpError::Custom(RemoteViewingError::PoolNotFound)));
}

#[test]
fn append_by_other_identity_rejected() {
    let mut l = Ledger::new();
    process_create_target_pool(&mut l, CREATOR, true, clock(10, 111), "p".to_string(), vec![h(1)])
        .unwrap();
    let r = process_append_targets_to_pool(&mut l, [1u8; 32], true, "p".to_string(), vec![h(2)]);
    assert_eq!(r, Err(OpError::Unauthorized));
    assert_eq!(l.get_pool(&"p".to_string()).unwrap().target_count, 1);
}

#[test]
fn append_nothing_rejected() {
    let mut l = Ledger::new();
    process_create_target_pool(&mut l, CREATOR, true, clock(10, 111), "p".to_string(), vec![h(1)])
        .unwrap();
    let r = process_append_targets_to_pool(&mut l, CREATOR, true, "p".to_string(), vec![]);
    assert_eq!(r, Err(OpError::Custom(RemoteViewingError::InvalidTargetCount)));
}

#[test]
fn append_past_the_limit_rejected() {
    let mut l = Ledger::new();
    let targets = vec![h(7); 9999];
    process_create_target_pool(&mut l, CREATOR, true, clock(10, 111), "p".to_string(), targets)
        .unwrap();
    let r = process_append_targets_to_pool(&mut l, CREATOR, true, "p".to_string(), vec![
        h(1),
        h(2),
    ]);
    assert_eq!(r, Err(OpError::Custom(RemoteViewingError::InvalidTargetCount)));
    assert_eq!(l.get_pool(&"p".to_string()).unwrap().target_count, 9999);
}

#[test]
fn append_after_finalize_rejected() {
    let mut l = Ledger::new();
    process_create_target_pool(&mut l, CREATOR, true, clock(10, 111), "p".to_string(), vec![h(1)])
        .unwrap();
    process_finalize_pool(&mut l, CREATOR, true, "p".to_string()).unwrap();
    let r = process_append_targets_to_pool(&mut l, CREATOR, true, "p".to_string(), vec![h(2)]);
    assert_eq!(r, Err(OpError::Custom(RemoteViewingError::PoolAlreadyFinalized)));
    let pool = l.get_pool(&"p".to_string()).unwrap();
    assert_eq!(pool.targets, vec![h(1)]);
}

#[test]
fn finalize_empty_pool_rejected() {
    let mut l = Ledger::new();
    process_create_target_pool(&mut l, CREATOR, true, clock(10, 111), "p".to_string(), vec![])
        .unwrap();
    let r = process_finalize_pool(&mut l, CREATOR, true, "p".to_string());
    assert_eq!(r, Err(OpError::Custom(RemoteViewingError::InvalidTargetCount)));
    assert!(!l.get_pool(&"p".to_string()).unwrap().finalized);
}

#[test]
fn finalize_pool_once_then_rejected() {
    let mut l = Ledger::new();
    process_create_target_pool(&mut l, CREATOR, true, clock(10, 111), "p".to_string(), vec![h(1)])
        .unwrap();
    let r = process_finalize_pool(&mut l, CREATOR, true, "p".to_string());
    assert!(r.is_ok());
    assert!(l.get_pool(&"p".to_string()).unwrap().finalized);
    let r2 = process_finalize_pool(&mut l, CREATOR, true, "p".to_string());
    assert_eq!(r2, Err(OpError::Custom(RemoteViewingError::PoolAlreadyFinalized)));
}

#[test]
fn submit_fills_session_with_sentinels() {
    let l = pool_and_session();
    let s = l.get_session(&"sess".to_string()).unwrap();
    assert_eq!(s.session_id, "sess");
    assert_eq!(s.pool_id, "pool");
    assert_eq!(s.session_media_hash, h(0xAA));
    assert_eq!(s.target_selector_program, h(0xBB));
    assert_eq!(s.submitter, SUBMITTER);
    assert_eq!(s.submission_slot, 100);
    assert_eq!(s.submitted_at, 1000);
    assert_eq!(s.submission_blockhash, [0u8; 32]);
    assert_eq!(s.assigned_target_index, UNASSIGNED_TARGET_INDEX);
    assert!(!s.finalized);
    assert_eq!(s.finalized_at, 0);
}

#[test]
fn submit_twice_rejected() {
    let mut l = pool_and_session();
    let r = process_submit_session(
        &mut l,
        SUBMITTER,
        true,
        clock(101, 1001),
        "sess".to_string(),
        "pool".to_string(),
        h(1),
        h(2),
        vec![],
    );
    assert_eq!(r, Err(OpError::Custom(RemoteViewingError::SessionAlreadyExists)));
}

#[test]
fn submit_empty_session_id_rejected() {
    let mut l = pool_and_session();
    let r = process_submit_session(
        &mut l,
        SUBMITTER,
        true,
        clock(101, 1001),
        "".to_string(),
        "pool".to_string(),
        h(1),
        h(2),
        vec![],
    );
    assert_eq!(r, Err(OpError::Custom(RemoteViewingError::InvalidSessionId)));
}

#[test]
fn submit_empty_pool_id_rejected() {
    let mut l = pool_and_session();
    let r = process_submit_session(
        &mut l,
        SUBMITTER,
        true,
        clock(101, 1001),
        "other".to_string(),
        "".to_string(),
        h(1),
        h(2),
        vec![],
    );
    assert_eq!(r, Err(OpError::Custom(RemoteViewingError::InvalidPoolId)));
}

#[test]
fn submit_against_missing_pool_rejected() {
    let mut l = pool_and_session();
    let r = process_submit_session(
        &mut l,
        SUBMITTER,
        true,
        clock(101, 1001),
        "other".to_string(),
        "nope".to_string(),
        h(1),
        h(2),
        vec![],
    );
    assert_eq!(r, Err(OpError::Custom(RemoteViewingError::PoolNotFound)));
}

#[test]
fn finalize_session_at_tick_101_too_early() {
    let mut l = pool_and_session();
    let r = process_finalize_session_with_entropy(
        &mut l,
        true,
        clock(101, 1010),
        "sess".to_string(),
        Some(entropy7()),
        vec![],
    );
    assert_eq!(r, Err(OpError::Custom(RemoteViewingError::TooEarlyToFinalize)));
    assert!(!l.get_session(&"sess".to_string()).unwrap().finalized);
}

#[test]
fn finalize_session_at_tick_102_assigns_index_2() {
    let mut l = pool_and_session();
    let r = process_finalize_session_with_entropy(
        &mut l,
        true,
        clock(102, 1020),
        "sess".to_string(),
        Some(entropy7()),
        vec![],
    );
    assert!(r.is_ok());
    let s = l.get_session(&"sess".to_string()).unwrap();
    assert!(s.finalized);
    assert_eq!(s.assigned_target_index, 2);
    assert_eq!(s.submission_blockhash, entropy7());
    assert_eq!(s.finalized_at, 1020);
    assert_eq!(s.completed_target_indices, Vec::<u16>::new());
}

#[test]
fn finalize_session_with_exclusion_assigns_index_4() {
    let mut l = pool_and_session();
    let r = process_finalize_session_with_entropy(
        &mut l,
        true,
        clock(102, 1020),
        "sess".to_string(),
        Some(entropy7()),
        vec![2],
    );
    assert!(r.is_ok());
    let s = l.get_session(&"sess".to_string()).unwrap();
    assert_eq!(s.assigned_target_index, 4);
    assert_eq!(s.completed_target_indices, vec![2]);
}

#[test]
fn finalize_session_after_window_rejected() {
    let mut l = pool_and_session();
    let r = process_finalize_session_with_entropy(
        &mut l,
        true,
        clock(251, 2510),
        "sess".to_string(),
        Some(entropy7()),
        vec![],
    );
    assert_eq!(r, Err(OpError::Custom(RemoteViewingError::InvalidSlotHash)));
    assert!(!l.get_session(&"sess".to_string()).unwrap().finalized);
}

#[test]
fn finalize_session_at_window_edge_succeeds() {
    let mut l = pool_and_session();
    let r = process_finalize_session_with_entropy(
        &mut l,
        true,
        clock(250, 2500),
        "sess".to_string(),
        Some(entropy7()),
        vec![],
    );
    assert!(r.is_ok());
}

#[test]
fn finalize_session_all_targets_completed_rejected() {
    let mut l = pool_and_session();
    let r = process_finalize_session_with_entropy(
        &mut l,
        true,
        clock(102, 1020),
        "sess".to_string(),
        Some(entropy7()),
        vec![0, 1, 2, 3, 4],
    );
    assert_eq!(r, Err(OpError::Custom(RemoteViewingError::AllTargetsCompleted)));
    assert!(!l.get_session(&"sess".to_string()).unwrap().finalized);
}

#[test]
fn finalize_session_twice_rejected() {
    let mut l = pool_and_session();
    process_finalize_session_with_entropy(
        &mut l,
        true,
        clock(102, 1020),
        "sess".to_string(),
        Some(entropy7()),
        vec![],
    )
    .unwrap();
    let mut other = entropy7();
    other[7] = 9;
    let r = process_finalize_session_with_entropy(
        &mut l,
        true,
        clock(103, 1030),
        "sess".to_string(),
        Some(other),
        vec![1],
    );
    assert_eq!(r, Err(OpError::Custom(RemoteViewingError::SessionAlreadyFinalized)));
    // The record keeps exactly what the successful finalize committed.
    let s = l.get_session(&"sess".to_string()).unwrap();
    assert_eq!(s.assigned_target_index, 2);
    assert_eq!(s.submission_blockhash, entropy7());
    assert_eq!(s.finalized_at, 1020);
    assert!(s.completed_target_indices.is_empty());
}

#[test]
fn finalize_missing_session_rejected() {
    let mut l = pool_and_session();
    let r = process_finalize_session_with_entropy(
        &mut l,
        true,
        clock(102, 1020),
        "nope".to_string(),
        Some(entropy7()),
        vec![],
    );
    assert_eq!(r, Err(OpError::Custom(RemoteViewingError::SessionNotFound)));
}

#[test]
fn finalize_session_via_text_entropy() {
    let mut l = pool_and_session();
    let text = bs58::encode(&entropy7()).into_string();
    let r = process_finalize_session(
        &mut l,
        true,
        clock(102, 1020),
        "sess".to_string(),
        text,
        vec![],
    );
    assert!(r.is_ok());
    let s = l.get_session(&"sess".to_string()).unwrap();
    assert_eq!(s.assigned_target_index, 2);
    assert_eq!(s.submission_blockhash, entropy7());
}

#[test]
fn finalize_session_empty_text_rejected() {
    let mut l = pool_and_session();
    let r = process_finalize_session(
        &mut l,
        true,
        clock(102, 1020),
        "sess".to_string(),
        "".to_string(),
        vec![],
    );
    assert_eq!(r, Err(OpError::Custom(RemoteViewingError::InvalidSlotHash)));
}

#[test]
fn finalize_session_malformed_text_rejected() {
    let mut l = pool_and_session();
    let r = process_finalize_session(
        &mut l,
        true,
        clock(102, 1020),
        "sess".to_string(),
        "0OIl".to_string(),
        vec![],
    );
    assert_eq!(r, Err(OpError::Custom(RemoteViewingError::InvalidSlotHash)));
}

#[test]
fn finalize_session_short_text_rejected() {
    let mut l = pool_and_session();
    let text = bs58::encode(&[5u8; 16]).into_string();
    let r = process_finalize_session(
        &mut l,
        true,
        clock(102, 1020),
        "sess".to_string(),
        text,
        vec![],
    );
    assert_eq!(r, Err(OpError::Custom(RemoteViewingError::InvalidSlotHash)));
}

#[test]
fn assigned_index_never_among_completed() {
    // Whatever the entropy, the assigned index skips the declared
    // completed indices and stays inside the pool's index space.
    for seed in 0u8..32 {
        let mut l = pool_and_session();
        let mut e = [0u8; 32];
        e[6] = seed;
        e[7] = seed.wrapping_mul(31);
        let completed = vec![1, 3];
        let r = process_finalize_session_with_entropy(
            &mut l,
            true,
            clock(102, 1020),
            "sess".to_string(),
            Some(e),
            completed.clone(),
        );
        assert!(r.is_ok());
        let s = l.get_session(&"sess".to_string()).unwrap();
        assert!(s.assigned_target_index < 5);
        assert!(!completed.contains(&s.assigned_target_index));
    }
}
