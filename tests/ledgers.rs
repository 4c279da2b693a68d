use zk_swap::ledgers::{
    amount_statement, anonymous_flash_loan, claim_staking_rewards, log_transaction,
    private_otc_swap, settle_offchain_trades, stake_tokens, verify_proof_of_ownership,
    zk_dao_vote,
};
use zk_swap::state::{ErrorCode, Governance, StakingAccount, TransactionLog};

#[test]
fn staking_overflow_fails() {
    let mut acct = StakingAccount { owner: [0; 32], staked_amount: 0 };
    assert_eq!(stake_tokens(&mut acct, [1; 32], u64::MAX, true, 120), Ok(()));
    assert_eq!(acct.staked_amount, u64::MAX);
    assert_eq!(acct.owner, [1; 32]);
    assert_eq!(stake_tokens(&mut acct, [1; 32], 1, true, 120), Err(ErrorCode::Overflow));
    assert_eq!(acct.staked_amount, u64::MAX);
}

#[test]
fn staking_gates() {
    let mut acct = StakingAccount { owner: [0; 32], staked_amount: 7 };
    assert_eq!(stake_tokens(&mut acct, [1; 32], 3, false, 120), Err(ErrorCode::InvalidProof));
    assert_eq!(stake_tokens(&mut acct, [1; 32], 3, true, 49), Err(ErrorCode::SybilCheckFailed));
    assert_eq!(acct.staked_amount, 7);
    assert_eq!(acct.owner, [0; 32]);
    assert_eq!(stake_tokens(&mut acct, [1; 32], 3, true, 50), Ok(()));
    assert_eq!(acct.staked_amount, 10);
    assert!(verify_proof_of_ownership(50));
    assert!(!verify_proof_of_ownership(49));
}

#[test]
fn claim_rewards_underflow_fails() {
    let mut acct = StakingAccount { owner: [0; 32], staked_amount: 99 };
    assert_eq!(claim_staking_rewards(&mut acct), Err(ErrorCode::Underflow));
    assert_eq!(acct.staked_amount, 99);
    acct.staked_amount = 250;
    assert_eq!(claim_staking_rewards(&mut acct), Ok(()));
    assert_eq!(acct.staked_amount, 150);
}

#[test]
fn amount_statement_is_little_endian() {
    assert_eq!(amount_statement(0x0102030405060708), vec![8, 7, 6, 5, 4, 3, 2, 1]);
    assert_eq!(amount_statement(u64::MAX), vec![0xff; 8]);
    assert_eq!(amount_statement(300), 300u64.to_le_bytes().to_vec());
}

#[test]
fn proof_gated_operations() {
    assert_eq!(private_otc_swap(true), Ok(()));
    assert_eq!(private_otc_swap(false), Err(ErrorCode::InvalidProof));
    assert_eq!(anonymous_flash_loan(true), Ok(()));
    assert_eq!(anonymous_flash_loan(false), Err(ErrorCode::InvalidProof));
    assert_eq!(settle_offchain_trades(true), Ok(()));
    assert_eq!(settle_offchain_trades(false), Err(ErrorCode::InvalidProof));
}

#[test]
fn votes_and_logs_append() {
    let mut gov = Governance { votes: Vec::new() };
    zk_dao_vote(&mut gov, [3; 32], [4; 32], 77);
    assert_eq!(gov.votes.len(), 1);
    assert_eq!(gov.votes[0].voter, [3; 32]);
    assert_eq!(gov.votes[0].vote_commitment, [4; 32]);
    assert_eq!(gov.votes[0].timestamp, 77);

    let mut log = TransactionLog { logs: Vec::new() };
    assert_eq!(log_transaction(&mut log, [5; 32], vec![1, 2], false, 1), Err(ErrorCode::InvalidProof));
    assert!(log.logs.is_empty());
    assert_eq!(log_transaction(&mut log, [5; 32], vec![1, 2], true, 9), Ok(()));
    assert_eq!(log.logs[0].encrypted_data, vec![1, 2]);
    assert_eq!(log.logs[0].trader, [5; 32]);
    assert_eq!(log.logs[0].timestamp, 9);
}
