use vstd::prelude::*;
use crate::digest::{fingerprint, update_proof_cache};
use crate::state::{BatchSettlement, ErrorCode, PendingSwap, Pool, Pubkey};

verus! {

/// Entry `i` settles before entry `j`: a strictly higher stake, or an equal
/// stake and an earlier commit.
pub open spec fn ranks_before(stakes: Seq<u64>, i: int, j: int) -> bool {
    stakes[i] > stakes[j] || (stakes[i] == stakes[j] && i < j)
}

/// `order` lists every index of `stakes` exactly once, by descending stake,
/// ties kept in commit order.
pub open spec fn is_stake_order(order: Seq<usize>, stakes: Seq<u64>) -> bool {
    &&& order.len() == stakes.len()
    &&& order.no_duplicates()
    &&& forall|k: int| 0 <= k < order.len() ==> order[k] < stakes.len()
    &&& forall|a: int, b: int|
        0 <= a < b < order.len() ==> ranks_before(stakes, order[a] as int, order[b] as int)
}

/// A stake order lists every index of `stakes`.
proof fn lemma_stake_order_covers(order: Seq<usize>, stakes: Seq<u64>, x: int)
    requires
        is_stake_order(order, stakes),
        0 <= x < stakes.len(),
    ensures
        exists|k: int| 0 <= k < order.len() && order[k] as int == x,
{
    broadcast use vstd::seq_lib::seq_to_set_is_finite;
    let n = stakes.len() as int;
    let oi = order.map_values(|v: usize| v as int);
    assert forall|i: int, j: int| 0 <= i < oi.len() && 0 <= j < oi.len() && i != j implies oi[i]
        != oi[j] by {
        assert(order[i] != order[j]);
    }
    assert(oi.no_duplicates());
    oi.unique_seq_to_set();
    vstd::set_lib::lemma_int_range(0, n);
    assert forall|y: int| oi.to_set().contains(y) implies vstd::set_lib::set_int_range(0, n).contains(y) by {
        let k = choose|k: int| 0 <= k < oi.len() && oi[k] == y;
        assert(order[k] < n);
    }
    vstd::set_lib::lemma_subset_equality(oi.to_set(), vstd::set_lib::set_int_range(0, n));
    assert(vstd::set_lib::set_int_range(0, n).contains(x));
    assert(oi.to_set().contains(x));
    let k = choose|k: int| 0 <= k < oi.len() && oi[k] == x;
    assert(order[k] as int == x);
}

proof fn lemma_stake_orders_agree_at(o1: Seq<usize>, o2: Seq<usize>, stakes: Seq<u64>, k: int)
    requires
        is_stake_order(o1, stakes),
        is_stake_order(o2, stakes),
        0 <= k < stakes.len(),
    ensures
        o1[k] == o2[k],
    decreases k,
{
    assert forall|j: int| 0 <= j < k implies o1[j] == o2[j] by {
        lemma_stake_orders_agree_at(o1, o2, stakes, j);
    }
    if o1[k] != o2[k] {
        let a = o1[k] as int;
        let b = o2[k] as int;
        lemma_stake_order_covers(o1, stakes, b);
        let p = choose|p: int| 0 <= p < o1.len() && o1[p] as int == b;
        if p < k {
            assert(o2[p] == o1[p]);
        }
        assert(ranks_before(stakes, a, b));
        lemma_stake_order_covers(o2, stakes, a);
        let q = choose|q: int| 0 <= q < o2.len() && o2[q] as int == a;
        if q < k {
            assert(o1[q] == o2[q]);
        }
        assert(ranks_before(stakes, b, a));
    }
}

/// The settlement order is fixed by the stakes alone: two orders that both
/// sort the same stakes descending, ties in commit order, are the same.
pub proof fn lemma_stake_order_unique(o1: Seq<usize>, o2: Seq<usize>, stakes: Seq<u64>)
    requires
        is_stake_order(o1, stakes),
        is_stake_order(o2, stakes),
    ensures
        o1 == o2,
{
    assert forall|k: int| 0 <= k < o1.len() implies o1[k] == o2[k] by {
        lemma_stake_orders_agree_at(o1, o2, stakes, k);
    }
    assert(o1 =~= o2);
}

/// The settlement order of entries whose stakes are `stakes`: a stable sort of
/// the indices by descending stake.
pub fn stake_order(stakes: &Vec<u64>) -> (order: Vec<usize>)
    ensures
        is_stake_order(order@, stakes@),
{
    let n = stakes.len();
    let mut order: Vec<usize> = Vec::new();
    let mut i: usize = 0;
    while i < n
        invariant
            n == stakes@.len(),
            0 <= i <= n,
            order@.len() == i,
            order@.no_duplicates(),
            forall|k: int| 0 <= k < order@.len() ==> order@[k] < i,
            forall|a: int, b: int|
                0 <= a < b < order@.len() ==> ranks_before(
                    stakes@,
                    order@[a] as int,
                    order@[b] as int,
                ),
        decreases n - i,
    {
        let s = stakes[i];
        let mut j: usize = 0;
        while j < order.len() && stakes[order[j]] >= s
            invariant
                n == stakes@.len(),
                i < n,
                order@.len() == i,
                j <= i,
                forall|k: int| 0 <= k < order@.len() ==> order@[k] < i,
                forall|k: int| 0 <= k < j ==> stakes@[order@[k] as int] >= s,
            decreases i - j,
        {
            j = j + 1;
        }
        let ghost prev = order@;
        proof {
            assert forall|k: int| j <= k < prev.len() implies stakes@[prev[k] as int] < s by {
                if k > j {
                    assert(ranks_before(stakes@, prev[j as int] as int, prev[k] as int));
                }
            }
        }
        order.insert(j, i);
        proof {
            let cur = order@;
            assert(cur == prev.insert(j as int, i));
            assert forall|k: int| 0 <= k < cur.len() implies cur[k] < i + 1 by {
                if k > j {
                    assert(cur[k] == prev[k - 1]);
                }
            }
            assert forall|a: int, b: int| 0 <= a < cur.len() && 0 <= b < cur.len() && a != b
                implies cur[a] != cur[b] by {
                if a < j && b < j {
                } else if a > j && b > j {
                    assert(cur[a] == prev[a - 1] && cur[b] == prev[b - 1]);
                } else if a == j {
                    if b > j {
                        assert(cur[b] == prev[b - 1]);
                    }
                } else if b == j {
                    if a > j {
                        assert(cur[a] == prev[a - 1]);
                    }
                } else if a < j {
                    assert(cur[b] == prev[b - 1]);
                } else {
                    assert(cur[a] == prev[a - 1]);
                }
            }
            assert forall|a: int, b: int| 0 <= a < b < cur.len() implies ranks_before(
                stakes@,
                cur[a] as int,
                cur[b] as int,
            ) by {
                if b < j {
                } else if b == j {
                    assert(stakes@[prev[a] as int] >= s);
                } else if a == j {
                    assert(cur[b] == prev[b - 1]);
                    assert(stakes@[prev[b - 1] as int] < s);
                } else if a < j {
                    assert(cur[b] == prev[b - 1]);
                    assert(ranks_before(stakes@, prev[a] as int, prev[b - 1] as int));
                } else {
                    assert(cur[a] == prev[a - 1] && cur[b] == prev[b - 1]);
                    assert(ranks_before(stakes@, prev[a - 1] as int, prev[b - 1] as int));
                }
            }
        }
        i = i + 1;
    }
    order
}

/// Fixed part of the settlement delay, in seconds.
pub const BASE_DELAY: i64 = 60;

/// The time-derived jitter added to the settlement delay.
pub open spec fn jitter_at(now: i64) -> int {
    now as int % 10
}

/// The minimum age an entry must reach before it may settle at `now`.
pub open spec fn min_delay_at(now: i64) -> int {
    BASE_DELAY + jitter_at(now)
}

/// The entry committed at `timestamp` is still locked at `now`.
pub open spec fn is_time_locked(timestamp: i64, now: i64, min_delay: int) -> bool {
    now - timestamp < min_delay
}

/// Some entry of `pending` is still locked at `now`.
pub open spec fn any_time_locked(pending: Seq<PendingSwap>, now: i64, min_delay: int) -> bool {
    exists|i: int| 0 <= i < pending.len() && is_time_locked(#[trigger] pending[i].timestamp, now, min_delay)
}

/// The payloads of the revealed entries, taken in `order`.
pub open spec fn revealed_in_order(pending: Seq<PendingSwap>, order: Seq<usize>) -> Seq<Seq<u8>>
    decreases order.len(),
{
    if order.len() == 0 {
        Seq::empty()
    } else {
        let prev = revealed_in_order(pending, order.drop_last());
        match pending[order.last() as int].encrypted_swap_data {
            Some(d) => prev.push(d@),
            None => prev,
        }
    }
}

/// The indices, in commit order, of the first `n` entries that are revealed.
pub open spec fn revealed_indices(pending: Seq<PendingSwap>, n: int) -> Seq<usize>
    decreases n,
{
    if n <= 0 {
        Seq::empty()
    } else if pending[n - 1].encrypted_swap_data is Some {
        revealed_indices(pending, n - 1).push((n - 1) as usize)
    } else {
        revealed_indices(pending, n - 1)
    }
}

/// A pseudo-random adjustment of the settlement delay, derived from the
/// clock: the time modulo ten seconds, never negative.
pub fn get_random_timestamp_adjustment(now: i64) -> (r: i64)
    ensures
        r == jitter_at(now),
        0 <= r < 10,
{
    if now >= 0 {
        now % 10
    } else {
        let k: i64 = -(now + 1);
        let m: i64 = k % 10;
        proof {
            let q = k as int / 10;
            assert(k == q * 10 + m);
            assert(now as int == (-q - 1) * 10 + (9 - m)) by (nonlinear_arith)
                requires now as int == -(k + 1), k == q * 10 + m;
            vstd::arithmetic::div_mod::lemma_fundamental_div_mod_converse(
                now as int, 10, -q - 1, 9 - m as int);
        }
        9 - m
    }
}

/// The randomized minimum delay before entries may settle at `now`.
pub fn min_settlement_delay(now: i64) -> (r: i64)
    ensures
        r == min_delay_at(now),
{
    BASE_DELAY + get_random_timestamp_adjustment(now)
}

/// Whether any entry of `pending` is still time-locked at `now`.
pub fn find_time_locked(pending: &Vec<PendingSwap>, now: i64, min_delay: i64) -> (r: bool)
    ensures
        r == any_time_locked(pending@, now, min_delay as int),
{
    let mut i: usize = 0;
    while i < pending.len()
        invariant
            0 <= i <= pending@.len(),
            forall|k: int| 0 <= k < i ==> !is_time_locked(#[trigger] pending@[k].timestamp, now, min_delay as int),
        decreases pending@.len() - i,
    {
        if (now as i128) - (pending[i].timestamp as i128) < (min_delay as i128) {
            assert(is_time_locked(pending@[i as int].timestamp, now, min_delay as int));
            return true;
        }
        i = i + 1;
    }
    false
}

/// The list of statements a batch verifier must check: the indices, in
/// commit order, of the entries whose payload has been revealed.
pub fn batch_verify_zk_proofs(pending: &Vec<PendingSwap>) -> (r: Vec<usize>)
    ensures
        r@ == revealed_indices(pending@, pending@.len() as int),
{
    let mut r: Vec<usize> = Vec::new();
    let mut i: usize = 0;
    while i < pending.len()
        invariant
            0 <= i <= pending@.len(),
            r@ == revealed_indices(pending@, i as int),
        decreases pending@.len() - i,
    {
        if pending[i].encrypted_swap_data.is_some() {
            r.push(i);
        }
        i = i + 1;
    }
    r
}

/// A copy of a byte vector.
pub fn copy_bytes(b: &Vec<u8>) -> (r: Vec<u8>)
    ensures
        r@ == b@,
{
    let mut r: Vec<u8> = Vec::new();
    let mut i: usize = 0;
    while i < b.len()
        invariant
            0 <= i <= b@.len(),
            r@ == b@.take(i as int),
        decreases b@.len() - i,
    {
        r.push(b[i]);
        proof {
            assert(b@.take(i + 1) =~= b@.take(i as int).push(b@[i as int]));
        }
        i = i + 1;
    }
    assert(b@.take(b@.len() as int) =~= b@);
    r
}

/// The revealed payloads of `pending`, taken in `order`.
pub fn collect_revealed(pending: &Vec<PendingSwap>, order: &Vec<usize>) -> (r: Vec<Vec<u8>>)
    requires
        forall|k: int| 0 <= k < order@.len() ==> order@[k] < pending@.len(),
    ensures
        crate::digest::payload_views(r@) == revealed_in_order(pending@, order@),
{
    let mut r: Vec<Vec<u8>> = Vec::new();
    let mut k: usize = 0;
    while k < order.len()
        invariant
            0 <= k <= order@.len(),
            forall|j: int| 0 <= j < order@.len() ==> order@[j] < pending@.len(),
            crate::digest::payload_views(r@) == revealed_in_order(pending@, order@.take(k as int)),
        decreases order@.len() - k,
    {
        let ghost before = r@;
        match &pending[order[k]].encrypted_swap_data {
            Some(d) => {
                r.push(copy_bytes(d));
            },
            None => {},
        }
        proof {
            assert(order@.take(k + 1).drop_last() =~= order@.take(k as int));
            assert(crate::digest::payload_views(r@) =~= revealed_in_order(pending@, order@.take(k + 1)));
        }
        k = k + 1;
    }
    assert(order@.take(order@.len() as int) =~= order@);
    r
}

/// A batch of `pending` settles at `now`: the batch verifier accepted its
/// proofs, and the batch is empty or no entry is still time-locked.
pub open spec fn batch_settles(pending: Seq<PendingSwap>, now: i64, proofs_valid: bool) -> bool {
    proofs_valid && (pending.len() == 0 || !any_time_locked(pending, now, min_delay_at(now)))
}

/// The traders of `pending`, taken in `order`.
pub open spec fn traders_in_order(pending: Seq<PendingSwap>, order: Seq<usize>) -> Seq<Pubkey> {
    order.map_values(|i: usize| pending[i as int].trader)
}

/// Settles every pending swap of the pool at once, or none.
///
/// `stakes[i]` is the stake of the trader of entry `i`; `proofs_valid` is the
/// verdict of the batch and recursive proof verification. The entries are
/// ordered by descending stake (ties in commit order), the revealed payloads
/// are folded into the batch fingerprint in that order, and if any entry is
/// younger than the randomized minimum delay the whole batch fails and the
/// pool is left as it was. On success the pending sequence is cleared; an
/// empty pool whose verdict accepts settles as a no-op.
pub fn process_batch_swaps(
    pool: &mut Pool,
    stakes: &Vec<u64>,
    now: i64,
    proofs_valid: bool,
) -> (r: Result<BatchSettlement, ErrorCode>)
    requires
        stakes@.len() == old(pool).pending_swaps@.len(),
    ensures
        r is Ok <==> batch_settles(old(pool).pending_swaps@, now, proofs_valid),
        !proofs_valid ==> r == Err::<BatchSettlement, ErrorCode>(ErrorCode::InvalidProof),
        old(pool).pending_swaps@.len() == 0 && proofs_valid ==> r is Ok && *final(pool) == *old(
            pool,
        ),
        proofs_valid && any_time_locked(old(pool).pending_swaps@, now, min_delay_at(now)) ==> r
            == Err::<BatchSettlement, ErrorCode>(ErrorCode::TimeLockNotExpired),
        r is Err ==> *final(pool) == *old(pool),
        r matches Ok(s) ==> {
            &&& is_stake_order(s.order@, stakes@)
            &&& s.traders@ == traders_in_order(old(pool).pending_swaps@, s.order@)
            &&& s.proof_root@ == fingerprint(revealed_in_order(old(pool).pending_swaps@, s.order@))
            &&& final(pool).pending_swaps@.len() == 0
            &&& final(pool).owner == old(pool).owner
            &&& final(pool).total_liquidity == old(pool).total_liquidity
        },
{
    let order = stake_order(stakes);
    if !proofs_valid {
        return Err(ErrorCode::InvalidProof);
    }
    if pool.pending_swaps.len() == 0 {
        let none: Vec<Vec<u8>> = Vec::new();
        let proof_root = update_proof_cache(&none);
        proof {
            assert(crate::digest::payload_views(none@) =~= revealed_in_order(pool.pending_swaps@, order@));
        }
        return Ok(BatchSettlement { order, traders: Vec::new(), proof_root });
    }
    let revealed = collect_revealed(&pool.pending_swaps, &order);
    let proof_root = update_proof_cache(&revealed);
    let min_delay = min_settlement_delay(now);
    if find_time_locked(&pool.pending_swaps, now, min_delay) {
        return Err(ErrorCode::TimeLockNotExpired);
    }
    let mut traders: Vec<Pubkey> = Vec::new();
    let mut k: usize = 0;
    while k < order.len()
        invariant
            0 <= k <= order@.len(),
            is_stake_order(order@, stakes@),
            stakes@.len() == pool.pending_swaps@.len(),
            traders@ == traders_in_order(pool.pending_swaps@, order@.take(k as int)),
        decreases order@.len() - k,
    {
        traders.push(pool.pending_swaps[order[k]].trader);
        proof {
            assert(traders@ =~= traders_in_order(pool.pending_swaps@, order@.take(k + 1)));
        }
        k = k + 1;
    }
    assert(order@.take(order@.len() as int) =~= order@);
    pool.pending_swaps.clear();
    Ok(BatchSettlement { order, traders, proof_root })
}

} // verus!
