use vstd::prelude::*;
use crate::codec::{compress_data, gzip_of};
use crate::digest::{bytes32_eq, sha256, sha256_of};
use crate::state::{ErrorCode, LimitOrder, OrderBook, PendingSwap, Pool, Pubkey, RevealReceipt};

verus! {

/// Stake from which a trader pays the lower fee.
pub const FEE_TIER_STAKE: u64 = 100;

/// Fee charged to traders at or above `FEE_TIER_STAKE`.
pub const LOW_FEE: u64 = 5;

/// Fee charged to everyone else.
pub const HIGH_FEE: u64 = 10;

/// `e` is a commitment of `trader` that has not been revealed yet.
pub open spec fn is_unrevealed_swap(e: PendingSwap, trader: Pubkey) -> bool {
    e.trader@ == trader@ && e.encrypted_swap_data is None
}

/// The index of the oldest unrevealed swap commitment of `trader`, if any.
pub open spec fn first_unrevealed_swap(pending: Seq<PendingSwap>, trader: Pubkey) -> Option<int>
    decreases pending.len(),
{
    if pending.len() == 0 {
        None
    } else {
        match first_unrevealed_swap(pending.drop_last(), trader) {
            Some(i) => Some(i),
            None => if is_unrevealed_swap(pending.last(), trader) {
                Some(pending.len() - 1)
            } else {
                None
            },
        }
    }
}

/// `o` is a limit order of `trader` that has not been revealed yet.
pub open spec fn is_unrevealed_order(o: LimitOrder, trader: Pubkey) -> bool {
    o.trader@ == trader@ && o.encrypted_order_data is None
}

/// The index of the oldest unrevealed limit order of `trader`, if any.
pub open spec fn first_unrevealed_order(orders: Seq<LimitOrder>, trader: Pubkey) -> Option<int>
    decreases orders.len(),
{
    if orders.len() == 0 {
        None
    } else {
        match first_unrevealed_order(orders.drop_last(), trader) {
            Some(i) => Some(i),
            None => if is_unrevealed_order(orders.last(), trader) {
                Some(orders.len() - 1)
            } else {
                None
            },
        }
    }
}

/// The fee for a trader with the given stake.
pub open spec fn fee_for(stake: u64) -> u64 {
    if stake >= FEE_TIER_STAKE {
        LOW_FEE
    } else {
        HIGH_FEE
    }
}

proof fn lemma_first_unrevealed_swap_bound(pending: Seq<PendingSwap>, trader: Pubkey)
    ensures
        first_unrevealed_swap(pending, trader) matches Some(i) ==> 0 <= i < pending.len()
            && is_unrevealed_swap(pending[i], trader),
    decreases pending.len(),
{
    if pending.len() > 0 {
        lemma_first_unrevealed_swap_bound(pending.drop_last(), trader);
    }
}

proof fn lemma_first_unrevealed_order_bound(orders: Seq<LimitOrder>, trader: Pubkey)
    ensures
        first_unrevealed_order(orders, trader) matches Some(i) ==> 0 <= i < orders.len()
            && is_unrevealed_order(orders[i], trader),
    decreases orders.len(),
{
    if orders.len() > 0 {
        lemma_first_unrevealed_order_bound(orders.drop_last(), trader);
    }
}

proof fn lemma_first_unrevealed_swap_prefix(s: Seq<PendingSwap>, trader: Pubkey, j: int)
    requires
        0 <= j <= s.len(),
        first_unrevealed_swap(s.take(j), trader) is Some,
    ensures
        first_unrevealed_swap(s, trader) == first_unrevealed_swap(s.take(j), trader),
    decreases s.len(),
{
    if j == s.len() {
        assert(s.take(j) =~= s);
    } else {
        assert(s.drop_last().take(j) =~= s.take(j));
        lemma_first_unrevealed_swap_prefix(s.drop_last(), trader, j);
    }
}

/// Finds the oldest unrevealed swap commitment of `trader`.
pub fn find_unrevealed_swap(pending: &Vec<PendingSwap>, trader: &Pubkey) -> (r: Option<usize>)
    ensures
        r matches Some(i) ==> first_unrevealed_swap(pending@, *trader) == Some(i as int),
        r is None ==> first_unrevealed_swap(pending@, *trader) is None,
{
    let mut i: usize = 0;
    while i < pending.len()
        invariant
            0 <= i <= pending@.len(),
            first_unrevealed_swap(pending@.take(i as int), *trader) is None,
        decreases pending@.len() - i,
    {
        proof {
            assert(pending@.take(i + 1).drop_last() =~= pending@.take(i as int));
        }
        if pending[i].encrypted_swap_data.is_none() && bytes32_eq(&pending[i].trader, trader) {
            proof {
                lemma_first_unrevealed_swap_prefix(pending@, *trader, i + 1);
            }
            return Some(i);
        }
        i = i + 1;
    }
    assert(pending@.take(pending@.len() as int) =~= pending@);
    None
}

proof fn lemma_first_unrevealed_order_prefix(s: Seq<LimitOrder>, trader: Pubkey, j: int)
    requires
        0 <= j <= s.len(),
        first_unrevealed_order(s.take(j), trader) is Some,
    ensures
        first_unrevealed_order(s, trader) == first_unrevealed_order(s.take(j), trader),
    decreases s.len(),
{
    if j == s.len() {
        assert(s.take(j) =~= s);
    } else {
        assert(s.drop_last().take(j) =~= s.take(j));
        lemma_first_unrevealed_order_prefix(s.drop_last(), trader, j);
    }
}

/// Finds the oldest unrevealed limit order of `trader`.
pub fn find_unrevealed_order(orders: &Vec<LimitOrder>, trader: &Pubkey) -> (r: Option<usize>)
    ensures
        r matches Some(i) ==> first_unrevealed_order(orders@, *trader) == Some(i as int),
        r is None ==> first_unrevealed_order(orders@, *trader) is None,
{
    let mut i: usize = 0;
    while i < orders.len()
        invariant
            0 <= i <= orders@.len(),
            first_unrevealed_order(orders@.take(i as int), *trader) is None,
        decreases orders@.len() - i,
    {
        proof {
            assert(orders@.take(i + 1).drop_last() =~= orders@.take(i as int));
        }
        if orders[i].encrypted_order_data.is_none() && bytes32_eq(&orders[i].trader, trader) {
            proof {
                lemma_first_unrevealed_order_prefix(orders@, *trader, i + 1);
            }
            return Some(i);
        }
        i = i + 1;
    }
    assert(orders@.take(orders@.len() as int) =~= orders@);
    None
}

/// The address a revealed swap executes to, unlinkable from the trader's
/// identity; the key itself until a key exchange stands behind it.
pub fn generate_stealth_address(trader: &Pubkey) -> (r: Pubkey)
    ensures
        r == *trader,
{
    *trader
}

/// The fee for a trader with the given stake: lower from
/// `FEE_TIER_STAKE` on.
pub fn calculate_dynamic_fee(stake: u64) -> (r: u64)
    ensures
        r == fee_for(stake),
{
    if stake >= FEE_TIER_STAKE {
        LOW_FEE
    } else {
        HIGH_FEE
    }
}

/// `after` is `before` with entry `i` revealed: its payload set to `stored`,
/// every other field and every other entry left as it was.
pub open spec fn swap_revealed_at(
    before: Seq<PendingSwap>,
    after: Seq<PendingSwap>,
    i: int,
    stored: Seq<u8>,
) -> bool {
    &&& after.len() == before.len()
    &&& forall|k: int| 0 <= k < after.len() && k != i ==> after[k] == before[k]
    &&& after[i].trader == before[i].trader
    &&& after[i].commitment == before[i].commitment
    &&& after[i].timestamp == before[i].timestamp
    &&& after[i].encrypted_swap_data matches Some(d) && d@ == stored
}

/// `after` is `before` with order `i` revealed with payload `stored`.
pub open spec fn order_revealed_at(
    before: Seq<LimitOrder>,
    after: Seq<LimitOrder>,
    i: int,
    stored: Seq<u8>,
) -> bool {
    &&& after.len() == before.len()
    &&& forall|k: int| 0 <= k < after.len() && k != i ==> after[k] == before[k]
    &&& after[i].trader == before[i].trader
    &&& after[i].commitment == before[i].commitment
    &&& after[i].timestamp == before[i].timestamp
    &&& after[i].encrypted_order_data matches Some(d) && d@ == stored
}

/// What revealing `payload` for `trader` against `pending` comes to: the
/// index of the entry that is revealed, or the error, checked in this order:
/// no unrevealed commitment, a digest that differs from the commitment, an
/// invalid proof.
pub open spec fn reveal_swap_result(
    pending: Seq<PendingSwap>,
    trader: Pubkey,
    payload: Seq<u8>,
    proof_valid: bool,
) -> Result<int, ErrorCode> {
    match first_unrevealed_swap(pending, trader) {
        None => Err(ErrorCode::NoPendingCommitment),
        Some(i) => if pending[i].commitment@ != sha256_of(payload) {
            Err(ErrorCode::CommitmentMismatch)
        } else if !proof_valid {
            Err(ErrorCode::InvalidProof)
        } else {
            Ok(i)
        },
    }
}

/// What revealing `payload` for `trader` against `orders` comes to, as for
/// swaps.
pub open spec fn reveal_order_result(
    orders: Seq<LimitOrder>,
    trader: Pubkey,
    payload: Seq<u8>,
    proof_valid: bool,
) -> Result<int, ErrorCode> {
    match first_unrevealed_order(orders, trader) {
        None => Err(ErrorCode::NoPendingOrder),
        Some(i) => if orders[i].commitment@ != sha256_of(payload) {
            Err(ErrorCode::CommitmentMismatch)
        } else if !proof_valid {
            Err(ErrorCode::InvalidProof)
        } else {
            Ok(i)
        },
    }
}

/// Commit phase of a swap: records the commitment of an attested trader,
/// unrevealed, stamped with the time of the commit.
pub fn commit_swap(
    pool: &mut Pool,
    trader: Pubkey,
    commitment: [u8; 32],
    now: i64,
    attested: bool,
) -> (r: Result<(), ErrorCode>)
    ensures
        attested ==> r is Ok && final(pool).owner == old(pool).owner
            && final(pool).total_liquidity == old(pool).total_liquidity
            && final(pool).pending_swaps@ == old(pool).pending_swaps@.push(
            PendingSwap { trader, commitment, encrypted_swap_data: None, timestamp: now },
        ),
        !attested ==> r == Err::<(), ErrorCode>(ErrorCode::SybilCheckFailed) && *final(pool)
            == *old(pool),
{
    if !attested {
        return Err(ErrorCode::SybilCheckFailed);
    }
    pool.pending_swaps.push(
        PendingSwap { trader, commitment, encrypted_swap_data: None, timestamp: now },
    );
    Ok(())
}

/// Reveal phase of a swap: binds `encrypted_swap_data` to the trader's oldest
/// unrevealed commitment, checks it against the commitment, gates it on the
/// proof verdict, and stores it compressed.
pub fn reveal_swap(
    pool: &mut Pool,
    trader: &Pubkey,
    encrypted_swap_data: Vec<u8>,
    proof_valid: bool,
    stake: u64,
) -> (r: Result<RevealReceipt, ErrorCode>)
    ensures
        match reveal_swap_result(
            old(pool).pending_swaps@,
            *trader,
            encrypted_swap_data@,
            proof_valid,
        ) {
            Err(e) => r == Err::<RevealReceipt, ErrorCode>(e) && *final(pool) == *old(pool),
            Ok(i) => {
                &&& r matches Ok(receipt) && receipt.stealth_address == *trader && receipt.fee
                    == fee_for(stake)
                &&& final(pool).owner == old(pool).owner
                &&& final(pool).total_liquidity == old(pool).total_liquidity
                &&& swap_revealed_at(
                    old(pool).pending_swaps@,
                    final(pool).pending_swaps@,
                    i,
                    gzip_of(encrypted_swap_data@),
                )
            },
        },
{
    proof {
        lemma_first_unrevealed_swap_bound(pool.pending_swaps@, *trader);
    }
    let idx = match find_unrevealed_swap(&pool.pending_swaps, trader) {
        Some(i) => i,
        None => return Err(ErrorCode::NoPendingCommitment),
    };
    let calculated_commitment = sha256(encrypted_swap_data.as_slice());
    if !bytes32_eq(&calculated_commitment, &pool.pending_swaps[idx].commitment) {
        return Err(ErrorCode::CommitmentMismatch);
    }
    if !proof_valid {
        return Err(ErrorCode::InvalidProof);
    }
    let compressed_data = compress_data(encrypted_swap_data.as_slice());
    pool.pending_swaps[idx].encrypted_swap_data = Some(compressed_data);
    let stealth_address = generate_stealth_address(trader);
    let fee = calculate_dynamic_fee(stake);
    Ok(RevealReceipt { stealth_address, fee })
}

/// Commit phase of a limit order: records the commitment of an attested
/// trader, unrevealed, stamped with the time of the commit.
pub fn commit_limit_order(
    order_book: &mut OrderBook,
    trader: Pubkey,
    commitment: [u8; 32],
    now: i64,
    attested: bool,
) -> (r: Result<(), ErrorCode>)
    ensures
        attested ==> r is Ok && final(order_book).orders@ == old(order_book).orders@.push(
            LimitOrder { trader, commitment, encrypted_order_data: None, timestamp: now },
        ),
        !attested ==> r == Err::<(), ErrorCode>(ErrorCode::SybilCheckFailed) && *final(order_book)
            == *old(order_book),
{
    if !attested {
        return Err(ErrorCode::SybilCheckFailed);
    }
    order_book.orders.push(
        LimitOrder { trader, commitment, encrypted_order_data: None, timestamp: now },
    );
    Ok(())
}

/// Reveal phase of a limit order: as for swaps, the payload is checked
/// against the commitment, gated on the proof verdict, and stored compressed.
pub fn reveal_limit_order(
    order_book: &mut OrderBook,
    trader: &Pubkey,
    encrypted_order_data: Vec<u8>,
    proof_valid: bool,
) -> (r: Result<(), ErrorCode>)
    ensures
        match reveal_order_result(
            old(order_book).orders@,
            *trader,
            encrypted_order_data@,
            proof_valid,
        ) {
            Err(e) => r == Err::<(), ErrorCode>(e) && *final(order_book) == *old(order_book),
            Ok(i) => r is Ok && order_revealed_at(
                old(order_book).orders@,
                final(order_book).orders@,
                i,
                gzip_of(encrypted_order_data@),
            ),
        },
{
    proof {
        lemma_first_unrevealed_order_bound(order_book.orders@, *trader);
    }
    let idx = match find_unrevealed_order(&order_book.orders, trader) {
        Some(i) => i,
        None => return Err(ErrorCode::NoPendingOrder),
    };
    let calculated_commitment = sha256(encrypted_order_data.as_slice());
    if !bytes32_eq(&calculated_commitment, &order_book.orders[idx].commitment) {
        return Err(ErrorCode::CommitmentMismatch);
    }
    if !proof_valid {
        return Err(ErrorCode::InvalidProof);
    }
    let compressed_data = compress_data(encrypted_order_data.as_slice());
    order_book.orders[idx].encrypted_order_data = Some(compressed_data);
    Ok(())
}

} // verus!
