use zk_swap::commit_reveal::{commit_swap, reveal_swap};
use zk_swap::digest::update_proof_cache;
use zk_swap::ledgers::initialize_pool;
use zk_swap::schedule::{
    batch_verify_zk_proofs, get_random_timestamp_adjustment, min_settlement_delay,
    process_batch_swaps, stake_order,
};
use zk_swap::state::{ErrorCode, Pool, PoolParams, Pubkey};

const SHA256_ABC: [u8; 32] = [
    0xba, 0x78, 0x16, 0xbf, 0x8f, 0x01, 0xcf, 0xea, 0x41, 0x41, 0x40, 0xde, 0x5d, 0xae, 0x22, 0x23,
    0xb0, 0x03, 0x61, 0xa3, 0x96, 0x17, 0x7a, 0x9c, 0xb4, 0x10, 0xff, 0x61, 0xf2, 0x00, 0x15, 0xad,
];

const SHA256_EMPTY: [u8; 32] = [
    0xe3, 0xb0, 0xc4, 0x42, 0x98, 0xfc, 0x1c, 0x14, 0x9a, 0xfb, 0xf4, 0xc8, 0x99, 0x6f, 0xb9, 0x24,
    0x27, 0xae, 0x41, 0xe4, 0x64, 0x9b, 0x93, 0x4c, 0xa4, 0x95, 0x99, 0x1b, 0x78, 0x52, 0xb8, 0x55,
];

fn key(b: u8) -> Pubkey {
    [b; 32]
}

fn pool_with(commits: &[(u8, i64)]) -> Pool {
    let mut pool = initialize_pool(key(0), PoolParams { initial_liquidity: 0 });
    for (k, t) in commits {
        commit_swap(&mut pool, key(*k), [*k; 32], *t, true).unwrap();
    }
    pool
}

#[test]
fn stake_order_descending() {
    assert_eq!(stake_order(&vec![10, 90, 50]), vec![1, 2, 0]);
}

#[test]
fn stake_order_ties_keep_commit_order() {
    assert_eq!(stake_order(&vec![5, 7, 5, 7, 5]), vec![1, 3, 0, 2, 4]);
    assert_eq!(stake_order(&vec![]), Vec::<usize>::new());
}

#[test]
fn batch_executes_by_stake() {
    let mut pool = pool_with(&[(1, 0), (2, 0), (3, 0)]);
    let s = process_batch_swaps(&mut pool, &vec![10, 90, 50], 100, true).unwrap();
    assert_eq!(s.order, vec![1, 2, 0]);
    assert_eq!(s.traders, vec![key(2), key(3), key(1)]);
    assert!(pool.pending_swaps.is_empty());
}

#[test]
fn time_lock_blocks_then_releases() {
    let mut pool = pool_with(&[(1, 0)]);
    assert!(matches!(
        process_batch_swaps(&mut pool, &vec![1], 30, true),
        Err(ErrorCode::TimeLockNotExpired)
    ));
    assert_eq!(pool.pending_swaps.len(), 1);
    assert_eq!(pool.pending_swaps[0].trader, key(1));
    assert!(process_batch_swaps(&mut pool, &vec![1], 65, true).is_ok());
    assert!(pool.pending_swaps.is_empty());
}

#[test]
fn one_locked_entry_fails_whole_batch() {
    let mut pool = pool_with(&[(1, 0), (2, 50)]);
    let r = process_batch_swaps(&mut pool, &vec![1, 2], 100, true);
    assert!(matches!(r, Err(ErrorCode::TimeLockNotExpired)));
    assert_eq!(pool.pending_swaps.len(), 2);
    assert_eq!(pool.pending_swaps[0].trader, key(1));
    assert_eq!(pool.pending_swaps[1].trader, key(2));
}

#[test]
fn invalid_batch_proof_fails() {
    let mut pool = pool_with(&[(1, 0)]);
    let r = process_batch_swaps(&mut pool, &vec![1], 1000, false);
    assert!(matches!(r, Err(ErrorCode::InvalidProof)));
    assert_eq!(pool.pending_swaps.len(), 1);
}

#[test]
fn settling_twice_is_noop() {
    let mut pool = pool_with(&[(1, 0), (2, 0)]);
    process_batch_swaps(&mut pool, &vec![3, 4], 200, true).unwrap();
    let s = process_batch_swaps(&mut pool, &vec![], 300, true).unwrap();
    assert!(s.order.is_empty());
    assert!(s.traders.is_empty());
    assert_eq!(s.proof_root, SHA256_EMPTY);
    assert!(pool.pending_swaps.is_empty());
    assert_eq!(pool.owner, key(0));
}

#[test]
fn jitter_and_delay() {
    assert_eq!(get_random_timestamp_adjustment(65), 5);
    assert_eq!(get_random_timestamp_adjustment(30), 0);
    assert_eq!(get_random_timestamp_adjustment(-1), 9);
    assert_eq!(get_random_timestamp_adjustment(-10), 0);
    assert_eq!(get_random_timestamp_adjustment(i64::MIN), 2);
    assert_eq!(min_settlement_delay(65), 65);
    assert_eq!(min_settlement_delay(30), 60);
}

#[test]
fn proof_cache_hashes_concatenation() {
    assert_eq!(update_proof_cache(&vec![b"a".to_vec(), b"bc".to_vec()]), SHA256_ABC);
    assert_eq!(update_proof_cache(&vec![]), SHA256_EMPTY);
}

#[test]
fn aggregate_is_order_sensitive_and_deterministic() {
    let a = b"alpha".to_vec();
    let b = b"beta".to_vec();
    let ab = update_proof_cache(&vec![a.clone(), b.clone()]);
    assert_eq!(ab, update_proof_cache(&vec![a.clone(), b.clone()]));
    assert_ne!(ab, update_proof_cache(&vec![b, a]));
}

#[test]
fn batch_fingerprint_follows_stake_order() {
    let mut pool = initialize_pool(key(0), PoolParams { initial_liquidity: 0 });
    commit_swap(&mut pool, key(1), SHA256_ABC, 0, true).unwrap();
    commit_swap(&mut pool, key(2), [2; 32], 0, true).unwrap();
    reveal_swap(&mut pool, &key(1), b"abc".to_vec(), true, 0).unwrap();
    assert_eq!(batch_verify_zk_proofs(&pool.pending_swaps), vec![0]);
    let stored = pool.pending_swaps[0].encrypted_swap_data.clone().unwrap();
    let s = process_batch_swaps(&mut pool, &vec![1, 2], 100, true).unwrap();
    assert_eq!(s.order, vec![1, 0]);
    assert_eq!(s.proof_root, update_proof_cache(&vec![stored]));
}

#[test]
fn empty_pool_with_rejected_verdict_fails() {
    let mut pool = pool_with(&[]);
    assert!(matches!(process_batch_swaps(&mut pool, &vec![], 0, false), Err(ErrorCode::InvalidProof)));
    assert!(pool.pending_swaps.is_empty());
}

#[test]
fn empty_pool_settles_as_noop() {
    let mut pool = pool_with(&[]);
    let s = process_batch_swaps(&mut pool, &vec![], 0, true).unwrap();
    assert!(s.order.is_empty());
    assert_eq!(s.proof_root, SHA256_EMPTY);
    assert!(pool.pending_swaps.is_empty());
}
