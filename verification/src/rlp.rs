use vstd::prelude::*;
use crate::hash::{keccak256, keccak256_of};

verus! {

/// The minimal big-endian byte string of `n` (empty for zero).
pub open spec fn spec_be_bytes(n: nat) -> Seq<u8>
    decreases n,
{
    if n == 0 {
        Seq::<u8>::empty()
    } else {
        spec_be_bytes(n / 256).push((n % 256) as u8)
    }
}

pub open spec fn pow256(k: nat) -> nat
    decreases k,
{
    if k == 0 {
        1
    } else {
        256 * pow256((k - 1) as nat)
    }
}

pub proof fn lemma_be_bytes_len(n: nat, k: nat)
    requires
        n < pow256(k),
    ensures
        spec_be_bytes(n).len() <= k,
    decreases n,
{
    if n == 0 {
    } else {
        assert(k > 0) by {
            if k == 0 {
                assert(pow256(0) == 1);
            }
        }
        assert(n / 256 < pow256((k - 1) as nat)) by (nonlinear_arith)
            requires
                n < pow256(k),
                k > 0,
                pow256(k) == 256 * pow256((k - 1) as nat),
        ;
        lemma_be_bytes_len(n / 256, (k - 1) as nat);
    }
}

/// The RLP encoding of an integer: empty-string code for zero, the byte
/// itself when below 0x80, else a short-string header and big-endian bytes.
pub open spec fn spec_rlp_nonce(n: nat) -> Seq<u8> {
    if n == 0 {
        seq![0x80u8]
    } else if n < 0x80 {
        seq![n as u8]
    } else {
        seq![(0x80 + spec_be_bytes(n).len()) as u8] + spec_be_bytes(n)
    }
}

/// The RLP list `[sender, nonce]` whose hash yields a created contract's
/// address: a short-list header, a 20-byte string, and the encoded nonce.
pub open spec fn spec_create_payload(sender: Seq<u8>, nonce: u64) -> Seq<u8> {
    seq![(0xc0 + 21 + spec_rlp_nonce(nonce as nat).len()) as u8, 0x94u8] + sender + spec_rlp_nonce(
        nonce as nat,
    )
}

/// The deterministic address of the contract created by `sender` at `nonce`:
/// the last 20 bytes of the Keccak-256 hash of the RLP list `[sender, nonce]`.
pub open spec fn spec_create_address(sender: Seq<u8>, nonce: u64) -> Seq<u8> {
    keccak256_of(spec_create_payload(sender, nonce)).subrange(12, 32)
}

fn be_bytes(n: u64) -> (r: Vec<u8>)
    ensures
        r@ == spec_be_bytes(n as nat),
        r@.len() <= 8,
    decreases n,
{
    proof {
        assert(pow256(8) == 0x10000000000000000) by {
            reveal_with_fuel(pow256, 9);
        }
        lemma_be_bytes_len(n as nat, 8);
    }
    if n == 0 {
        Vec::new()
    } else {
        let mut r = be_bytes(n / 256);
        r.push((n % 256) as u8);
        r
    }
}

fn rlp_nonce(n: u64) -> (r: Vec<u8>)
    ensures
        r@ == spec_rlp_nonce(n as nat),
        1 <= r@.len() <= 9,
{
    if n == 0 {
        let mut r: Vec<u8> = Vec::new();
        r.push(0x80u8);
        proof {
            assert(r@ =~= spec_rlp_nonce(0));
        }
        r
    } else if n < 0x80 {
        let mut r: Vec<u8> = Vec::new();
        r.push(n as u8);
        proof {
            assert(r@ =~= spec_rlp_nonce(n as nat));
        }
        r
    } else {
        let bytes = be_bytes(n);
        let mut r: Vec<u8> = Vec::new();
        r.push(0x80u8 + bytes.len() as u8);
        let mut i: usize = 0;
        while i < bytes.len()
            invariant
                0 <= i <= bytes@.len() <= 8,
                bytes@ == spec_be_bytes(n as nat),
                r@.len() == i + 1,
                r@ == seq![(0x80 + bytes@.len()) as u8] + bytes@.subrange(0, i as int),
            decreases bytes@.len() - i,
        {
            r.push(bytes[i]);
            proof {
                assert(r@ =~= seq![(0x80 + bytes@.len()) as u8] + bytes@.subrange(0, i + 1 as int));
            }
            i = i + 1;
        }
        proof {
            assert(bytes@.subrange(0, bytes@.len() as int) =~= bytes@);
            assert(n as nat >= 0x80);
            assert(r@ =~= spec_rlp_nonce(n as nat));
        }
        r
    }
}

/// Computes the created contract's address from the sender address and its
/// current nonce.
pub fn create_address(sender: &Vec<u8>, nonce: u64) -> (r: Vec<u8>)
    requires
        sender@.len() == 20,
    ensures
        r@ == spec_create_address(sender@, nonce),
        r@.len() == 20,
{
    let rn = rlp_nonce(nonce);
    let mut payload: Vec<u8> = Vec::new();
    payload.push(0xc0u8 + 21 + rn.len() as u8);
    payload.push(0x94u8);
    let mut i: usize = 0;
    while i < sender.len()
        invariant
            0 <= i <= sender@.len() == 20,
            rn@ == spec_rlp_nonce(nonce as nat),
            rn@.len() <= 9,
            payload@ == seq![(0xc0 + 21 + rn@.len()) as u8, 0x94u8] + sender@.subrange(
                0,
                i as int,
            ),
        decreases sender@.len() - i,
    {
        payload.push(sender[i]);
        proof {
            assert(payload@ =~= seq![(0xc0 + 21 + rn@.len()) as u8, 0x94u8] + sender@.subrange(
                0,
                i + 1 as int,
            ));
        }
        i = i + 1;
    }
    let mut j: usize = 0;
    while j < rn.len()
        invariant
            0 <= j <= rn@.len() <= 9,
            rn@ == spec_rlp_nonce(nonce as nat),
            sender@.len() == 20,
            payload@ == seq![(0xc0 + 21 + rn@.len()) as u8, 0x94u8] + sender@ + rn@.subrange(
                0,
                j as int,
            ),
        decreases rn@.len() - j,
    {
        payload.push(rn[j]);
        proof {
            assert(payload@ =~= seq![(0xc0 + 21 + rn@.len()) as u8, 0x94u8] + sender@
                + rn@.subrange(0, j + 1 as int));
        }
        j = j + 1;
    }
    proof {
        assert(sender@.subrange(0, 20) =~= sender@);
        assert(rn@.subrange(0, rn@.len() as int) =~= rn@);
        assert(payload@ =~= spec_create_payload(sender@, nonce));
    }
    let h = keccak256(payload.as_slice());
    let mut r: Vec<u8> = Vec::new();
    let mut k: usize = 12;
    while k < 32
        invariant
            12 <= k <= 32,
            h@.len() == 32,
            h@ == keccak256_of(spec_create_payload(sender@, nonce)),
            r@ == h@.subrange(12, k as int),
        decreases 32 - k,
    {
        r.push(h[k]);
        proof {
            assert(r@ =~= h@.subrange(12, k + 1 as int));
        }
        k = k + 1;
    }
    r
}

} // verus!
