use vstd::prelude::*;
use crate::state::{
    EncryptedLog, ErrorCode, Governance, Pool, PoolParams, Pubkey, StakingAccount,
    TransactionLog, VoteRecord,
};

verus! {

/// Stake a trader must hold to pass the proof-of-ownership check.
pub const MIN_STAKE: u64 = 50;

/// The reward amount taken out of the stake by a claim.
pub const REWARD_AMOUNT: u64 = 100;

/// The little-endian encoding of `n` in `len` bytes.
pub open spec fn le_bytes(n: nat, len: nat) -> Seq<u8>
    decreases len,
{
    if len == 0 {
        Seq::empty()
    } else {
        seq![(n % 256) as u8] + le_bytes(n / 256, (len - 1) as nat)
    }
}

/// A new pool owned by `owner`, with no pending swaps.
pub fn initialize_pool(owner: Pubkey, pool_params: PoolParams) -> (r: Pool)
    ensures
        r.owner == owner,
        r.total_liquidity == pool_params.initial_liquidity,
        r.pending_swaps@.len() == 0,
{
    Pool { owner, total_liquidity: pool_params.initial_liquidity, pending_swaps: Vec::new() }
}

/// The statement a proof about an amount is checked against: the amount's
/// eight little-endian bytes.
pub fn amount_statement(amount: u64) -> (r: Vec<u8>)
    ensures
        r@ == le_bytes(amount as nat, 8),
{
    let mut r: Vec<u8> = Vec::new();
    let mut x: u64 = amount;
    let mut i: usize = 0;
    while i < 8
        invariant
            0 <= i <= 8,
            r@.len() == i,
            r@ + le_bytes(x as nat, (8 - i) as nat) == le_bytes(amount as nat, 8),
        decreases 8 - i,
    {
        let ghost before = r@;
        let ghost rest = le_bytes(x as nat, (8 - i) as nat);
        r.push((x % 256) as u8);
        x = x / 256;
        proof {
            assert(rest =~= seq![r@.last()] + le_bytes(x as nat, (8 - (i + 1)) as nat));
            assert(r@ + le_bytes(x as nat, (8 - (i + 1)) as nat) =~= before + rest);
        }
        i = i + 1;
    }
    assert(le_bytes(x as nat, 0) =~= Seq::<u8>::empty());
    assert(r@ + Seq::<u8>::empty() =~= r@);
    r
}

/// Whether a trader with the given stake passes the proof-of-ownership
/// check.
pub fn verify_proof_of_ownership(stake: u64) -> (r: bool)
    ensures
        r == (stake >= MIN_STAKE),
{
    stake >= MIN_STAKE
}

/// Adds `amount` to the trader's stake, gated on the verdict of the proof
/// over `amount_statement(amount)` and on the ownership check of the
/// trader's current stake `trader_stake`.
pub fn stake_tokens(
    staking_account: &mut StakingAccount,
    trader: Pubkey,
    amount: u64,
    proof_valid: bool,
    trader_stake: u64,
) -> (r: Result<(), ErrorCode>)
    ensures
        !proof_valid ==> r == Err::<(), ErrorCode>(ErrorCode::InvalidProof),
        proof_valid && trader_stake < MIN_STAKE ==> r == Err::<(), ErrorCode>(
            ErrorCode::SybilCheckFailed,
        ),
        proof_valid && trader_stake >= MIN_STAKE && old(staking_account).staked_amount + amount
            > u64::MAX ==> r == Err::<(), ErrorCode>(ErrorCode::Overflow),
        proof_valid && trader_stake >= MIN_STAKE && old(staking_account).staked_amount + amount
            <= u64::MAX ==> r is Ok && final(staking_account).owner == trader
            && final(staking_account).staked_amount == old(staking_account).staked_amount
            + amount,
        r is Err ==> *final(staking_account) == *old(staking_account),
{
    if !proof_valid {
        return Err(ErrorCode::InvalidProof);
    }
    if !verify_proof_of_ownership(trader_stake) {
        return Err(ErrorCode::SybilCheckFailed);
    }
    match staking_account.staked_amount.checked_add(amount) {
        Some(total) => {
            staking_account.owner = trader;
            staking_account.staked_amount = total;
            Ok(())
        },
        None => Err(ErrorCode::Overflow),
    }
}

/// Claims the fixed reward, taken out of the stake.
pub fn claim_staking_rewards(staking_account: &mut StakingAccount) -> (r: Result<(), ErrorCode>)
    ensures
        old(staking_account).staked_amount < REWARD_AMOUNT ==> r == Err::<(), ErrorCode>(
            ErrorCode::Underflow,
        ) && *final(staking_account) == *old(staking_account),
        old(staking_account).staked_amount >= REWARD_AMOUNT ==> r is Ok
            && final(staking_account).owner == old(staking_account).owner
            && final(staking_account).staked_amount == old(staking_account).staked_amount
            - REWARD_AMOUNT,
{
    match staking_account.staked_amount.checked_sub(REWARD_AMOUNT) {
        Some(rest) => {
            staking_account.staked_amount = rest;
            Ok(())
        },
        None => Err(ErrorCode::Underflow),
    }
}

/// Fails with `InvalidProof` unless the proof verdict is valid.
pub fn require_valid_proof(proof_valid: bool) -> (r: Result<(), ErrorCode>)
    ensures
        proof_valid ==> r is Ok,
        !proof_valid ==> r == Err::<(), ErrorCode>(ErrorCode::InvalidProof),
{
    if proof_valid {
        Ok(())
    } else {
        Err(ErrorCode::InvalidProof)
    }
}

/// A private OTC swap: executes only on a valid proof over its payload.
pub fn private_otc_swap(proof_valid: bool) -> (r: Result<(), ErrorCode>)
    ensures
        proof_valid ==> r is Ok,
        !proof_valid ==> r == Err::<(), ErrorCode>(ErrorCode::InvalidProof),
{
    require_valid_proof(proof_valid)
}

/// An anonymous flash loan: executes only on a valid proof over
/// `amount_statement(loan_amount)`.
pub fn anonymous_flash_loan(proof_valid: bool) -> (r: Result<(), ErrorCode>)
    ensures
        proof_valid ==> r is Ok,
        !proof_valid ==> r == Err::<(), ErrorCode>(ErrorCode::InvalidProof),
{
    require_valid_proof(proof_valid)
}

/// Settles trades executed off-chain: accepted only on a valid proof over the
/// final state.
pub fn settle_offchain_trades(proof_valid: bool) -> (r: Result<(), ErrorCode>)
    ensures
        proof_valid ==> r is Ok,
        !proof_valid ==> r == Err::<(), ErrorCode>(ErrorCode::InvalidProof),
{
    require_valid_proof(proof_valid)
}

/// Records a governance vote.
pub fn zk_dao_vote(governance: &mut Governance, voter: Pubkey, vote_commitment: [u8; 32], now: i64)
    ensures
        final(governance).votes@ == old(governance).votes@.push(
            VoteRecord { voter, vote_commitment, timestamp: now },
        ),
{
    governance.votes.push(VoteRecord { voter, vote_commitment, timestamp: now });
}

/// Appends an audit-log entry, gated on a valid proof over it.
pub fn log_transaction(
    log_account: &mut TransactionLog,
    trader: Pubkey,
    encrypted_log: Vec<u8>,
    proof_valid: bool,
    now: i64,
) -> (r: Result<(), ErrorCode>)
    ensures
        !proof_valid ==> r == Err::<(), ErrorCode>(ErrorCode::InvalidProof) && *final(log_account)
            == *old(log_account),
        proof_valid ==> r is Ok && final(log_account).logs@ == old(log_account).logs@.push(
            EncryptedLog { trader, encrypted_data: encrypted_log, timestamp: now },
        ),
{
    if !proof_valid {
        return Err(ErrorCode::InvalidProof);
    }
    log_account.logs.push(EncryptedLog { trader, encrypted_data: encrypted_log, timestamp: now });
    Ok(())
}

} // verus!
