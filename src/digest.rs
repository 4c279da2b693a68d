use vstd::prelude::*;

verus! {

/// The SHA-256 digest of a byte string.
pub uninterp spec fn sha256_of(data: Seq<u8>) -> Seq<u8>;

/// Relies on `solana_program::hash::hash` (re-exported by anchor_lang): the
/// SHA-256 digest of `data`, a function of the bytes alone.
#[verifier::external_body]
pub(crate) fn sha256(data: &[u8]) -> (r: [u8; 32])
    ensures
        r@ == sha256_of(data@),
{
    anchor_lang::solana_program::hash::hash(data).to_bytes()
}

/// Byte-wise equality of two 32-byte values.
pub fn bytes32_eq(a: &[u8; 32], b: &[u8; 32]) -> (r: bool)
    ensures
        r == (a@ == b@),
{
    let mut i: usize = 0;
    while i < 32
        invariant
            0 <= i <= 32,
            forall|k: int| 0 <= k < i ==> a@[k] == b@[k],
        decreases 32 - i,
    {
        if a[i] != b[i] {
            return false;
        }
        i = i + 1;
    }
    assert(a@ =~= b@);
    true
}

/// The views of a sequence of byte vectors.
pub open spec fn payload_views(ps: Seq<Vec<u8>>) -> Seq<Seq<u8>> {
    ps.map_values(|p: Vec<u8>| p@)
}

/// The concatenation of `ps`, in order.
pub open spec fn concat_all(ps: Seq<Seq<u8>>) -> Seq<u8>
    decreases ps.len(),
{
    if ps.len() == 0 {
        Seq::empty()
    } else {
        concat_all(ps.drop_last()) + ps.last()
    }
}

/// The batch fingerprint of revealed payloads taken in the given order.
pub open spec fn fingerprint(ps: Seq<Seq<u8>>) -> Seq<u8> {
    sha256_of(concat_all(ps))
}

/// Folds the revealed payloads, in the order given, into one 32-byte
/// fingerprint: the digest of their concatenation.
pub fn update_proof_cache(proofs: &Vec<Vec<u8>>) -> (r: [u8; 32])
    ensures
        r@ == fingerprint(payload_views(proofs@)),
{
    let mut combined: Vec<u8> = Vec::new();
    let mut i: usize = 0;
    while i < proofs.len()
        invariant
            0 <= i <= proofs@.len(),
            combined@ == concat_all(payload_views(proofs@.take(i as int))),
        decreases proofs@.len() - i,
    {
        let ghost before = combined@;
        combined.extend_from_slice(proofs[i].as_slice());
        proof {
            let ps = payload_views(proofs@.take(i + 1));
            assert(ps.drop_last() =~= payload_views(proofs@.take(i as int)));
            assert(ps.last() == proofs@[i as int]@);
            assert(combined@ =~= before + proofs@[i as int]@);
        }
        i = i + 1;
    }
    assert(proofs@.take(proofs@.len() as int) =~= proofs@);
    sha256(combined.as_slice())
}

} // verus!
