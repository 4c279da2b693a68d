use vstd::prelude::*;

verus! {

/// A public-key identity: the 32 raw bytes of the key.
pub type Pubkey = [u8; 32];

/// Errors surfaced to the caller of an instruction.
#[derive(Debug, Clone, Copy, PartialEq, Eq, Structural)]
pub enum ErrorCode {
    InvalidProof,
    TimeLockNotExpired,
    NoPendingCommitment,
    CommitmentMismatch,
    SybilCheckFailed,
    NoPendingOrder,
    Overflow,
    Underflow,
}

/// A committed swap; `encrypted_swap_data` holds the compressed payload once
/// the commitment has been revealed.
pub struct PendingSwap {
    pub trader: Pubkey,
    pub commitment: [u8; 32],
    pub encrypted_swap_data: Option<Vec<u8>>,
    pub timestamp: i64,
}

} // verus!

verus! {

/// The liquidity pool with its ordered sequence of pending swaps
/// (insertion order is commit order).
pub struct Pool {
    pub owner: Pubkey,
    pub total_liquidity: u64,
    pub pending_swaps: Vec<PendingSwap>,
}

} // verus!

verus! {

/// Parameters a pool is created with.
pub struct PoolParams {
    pub initial_liquidity: u64,
}

/// A trader's staking balance.
pub struct StakingAccount {
    pub owner: Pubkey,
    pub staked_amount: u64,
}

/// A committed limit order; `encrypted_order_data` holds the payload once the
/// commitment has been revealed.
pub struct LimitOrder {
    pub trader: Pubkey,
    pub commitment: [u8; 32],
    pub encrypted_order_data: Option<Vec<u8>>,
    pub timestamp: i64,
}

/// The resting limit orders, in commit order.
pub struct OrderBook {
    pub orders: Vec<LimitOrder>,
}

/// One recorded governance vote.
pub struct VoteRecord {
    pub voter: Pubkey,
    pub vote_commitment: [u8; 32],
    pub timestamp: i64,
}

/// The append-only record of governance votes.
pub struct Governance {
    pub votes: Vec<VoteRecord>,
}

/// One audit-log entry.
pub struct EncryptedLog {
    pub trader: Pubkey,
    pub encrypted_data: Vec<u8>,
    pub timestamp: i64,
}

/// The append-only audit log.
pub struct TransactionLog {
    pub logs: Vec<EncryptedLog>,
}

/// What a successful swap reveal reports: the unlinkable address the swap
/// executes to and the fee charged for the trader's stake tier.
pub struct RevealReceipt {
    pub stealth_address: Pubkey,
    pub fee: u64,
}

/// What a successful batch settlement reports.
pub struct BatchSettlement {
    /// Indices into the pending sequence as it stood, in execution order.
    pub order: Vec<usize>,
    /// The trader of each settled entry, in execution order; each is credited
    /// one unit of reputation.
    pub traders: Vec<Pubkey>,
    /// The fingerprint of the revealed payloads in execution order.
    pub proof_root: [u8; 32],
}

} // verus!
