use vstd::prelude::*;
use crate::commit_reveal::{first_unrevealed_swap, reveal_swap_result};
use crate::digest::{concat_all, fingerprint, sha256_of};
use crate::schedule::{batch_settles, is_stake_order, revealed_in_order, traders_in_order};
use crate::state::{ErrorCode, PendingSwap, Pubkey};

verus! {

/// Commit, then reveal: when a trader with no other unrevealed commitment
/// commits the digest of `payload`, revealing `payload` with a valid proof
/// succeeds and binds to that new entry (which `reveal_swap` then stores as
/// `gzip_of(payload)`, and `decompress_payload` restores to `payload`).
pub proof fn lemma_commit_then_reveal(
    pending: Seq<PendingSwap>,
    trader: Pubkey,
    commitment: [u8; 32],
    now: i64,
    payload: Seq<u8>,
)
    requires
        first_unrevealed_swap(pending, trader) is None,
        commitment@ == sha256_of(payload),
    ensures
        reveal_swap_result(
            pending.push(
                PendingSwap { trader, commitment, encrypted_swap_data: None, timestamp: now },
            ),
            trader,
            payload,
            true,
        ) == Ok::<int, ErrorCode>(pending.len() as int),
{
    let e = PendingSwap { trader, commitment, encrypted_swap_data: None, timestamp: now };
    assert(pending.push(e).drop_last() =~= pending);
}

/// A commitment binds its payload: revealing any other payload whose digest
/// differs from the committed one fails with `CommitmentMismatch`, whatever
/// the proof verdict.
pub proof fn lemma_commitment_binding(
    pending: Seq<PendingSwap>,
    trader: Pubkey,
    payload: Seq<u8>,
    other: Seq<u8>,
    proof_valid: bool,
)
    requires
        first_unrevealed_swap(pending, trader) matches Some(i) && pending[i].commitment@
            == sha256_of(payload),
        sha256_of(other) != sha256_of(payload),
    ensures
        reveal_swap_result(pending, trader, other, proof_valid) == Err::<int, ErrorCode>(
            ErrorCode::CommitmentMismatch,
        ),
{
}

/// No double settlement: a settled pool has no pending entries, and settling
/// it again succeeds, once the batch verifier accepts, with nothing to order,
/// fingerprint or credit.
pub proof fn lemma_settling_twice_is_noop(
    pending: Seq<PendingSwap>,
    stakes: Seq<u64>,
    order: Seq<usize>,
    now: i64,
)
    requires
        pending.len() == 0,
        stakes.len() == 0,
        is_stake_order(order, stakes),
    ensures
        batch_settles(pending, now, true),
        order.len() == 0,
        revealed_in_order(pending, order).len() == 0,
        traders_in_order(pending, order).len() == 0,
{
}

/// The fingerprint depends on its input sequence alone: equal sequences give
/// equal fingerprints.
pub proof fn lemma_fingerprint_deterministic(a: Seq<Seq<u8>>, b: Seq<Seq<u8>>)
    requires
        a == b,
    ensures
        fingerprint(a) == fingerprint(b),
{
}

/// The fingerprint commits to order: two payloads whose concatenation
/// depends on their order are hashed as different byte strings in the two
/// orders.
pub proof fn lemma_fingerprint_preimage_ordered(a: Seq<u8>, b: Seq<u8>)
    requires
        a + b != b + a,
    ensures
        concat_all(seq![a, b]) != concat_all(seq![b, a]),
{
    assert(seq![a, b].drop_last() =~= seq![a]);
    assert(seq![b, a].drop_last() =~= seq![b]);
    assert(seq![a].drop_last() =~= Seq::<Seq<u8>>::empty());
    assert(seq![b].drop_last() =~= Seq::<Seq<u8>>::empty());
    assert(concat_all(Seq::<Seq<u8>>::empty()) == Seq::<u8>::empty());
    assert(seq![a].last() == a && seq![b].last() == b);
    assert(seq![a, b].last() == b && seq![b, a].last() == a);
    assert(concat_all(seq![a]) =~= a);
    assert(concat_all(seq![b]) =~= b);
}

} // verus!
