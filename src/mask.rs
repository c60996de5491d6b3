use vstd::prelude::*;

verus! {

/// The payload `p` XORed with the repeating four-byte key `k`.
pub open spec fn xor_mask(p: Seq<u8>, k: Seq<u8>) -> Seq<u8> {
    Seq::new(p.len(), |i: int| p[i] ^ k[i % 4])
}

/// XORs `buf[i]` with `key[i % 4]` for every index `i`.
pub fn unmask(buf: &mut Vec<u8>, key: [u8; 4])
    ensures
        final(buf)@ == xor_mask(old(buf)@, key@),
{
    let n = buf.len();
    let mut i: usize = 0;
    while i < n
        invariant
            n == old(buf)@.len(),
            buf@.len() == n,
            0 <= i <= n,
            forall|j: int| 0 <= j < i ==> buf@[j] == old(buf)@[j] ^ key@[j % 4],
            forall|j: int| i <= j < n ==> buf@[j] == old(buf)@[j],
        decreases n - i,
    {
        let b = buf[i] ^ key[i % 4];
        buf.set(i, b);
        i += 1;
    }
    assert(buf@ =~= xor_mask(old(buf)@, key@));
}

/// Masking twice with the same key gives the payload back.
pub proof fn lemma_unmask_involution(p: Seq<u8>, k: Seq<u8>)
    ensures
        xor_mask(xor_mask(p, k), k) == p,
{
    assert forall|i: int| 0 <= i < p.len() implies xor_mask(xor_mask(p, k), k)[i] == p[i] by {
        let a = p[i];
        let b = k[i % 4];
        assert((a ^ b) ^ b == a) by (bit_vector);
    }
    assert(xor_mask(xor_mask(p, k), k) =~= p);
}

} // verus!
