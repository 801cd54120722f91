use vstd::prelude::*;

verus! {

/// The SHA-256 digest of a byte sequence. The digest function itself is not
/// written out here: the engine only needs that equal inputs give equal
/// digests, and the real computation is done by the `sha2` crate.
pub uninterp spec fn sha256_digest(input: Seq<u8>) -> Seq<u8>;

/// The single byte appended to the secret before hashing: 1 for the "yes"
/// side, 0 for "no".
pub open spec fn side_byte(side: bool) -> u8 {
    if side {
        1
    } else {
        0
    }
}

/// The commitment a bettor publishes for a secret and a chosen side.
pub open spec fn commitment_digest(secret: Seq<u8>, side: bool) -> Seq<u8> {
    sha256_digest(secret.push(side_byte(side)))
}

/// Relies on sha2::Sha256 (through the sha2::Digest trait): hashing a
/// 33-byte message — the secret followed by one side byte — returns its
/// 32-byte SHA-256 digest, a function of the hashed bytes alone.
#[verifier::external_body]
fn sha256_of_secret_and_byte(secret: &[u8; 32], b: u8) -> (r: [u8; 32])
    ensures
        r@ == sha256_digest(secret@.push(b)),
{
    let mut hasher: sha2::Sha256 = sha2::Digest::new();
    sha2::Digest::update(&mut hasher, secret.as_slice());
    sha2::Digest::update(&mut hasher, &[b]);
    let out = sha2::Digest::finalize(hasher);
    out.into()
}

/// Recompute the commitment for a secret and a side, bit-exactly as a
/// bettor constructs it before placing a bet.
pub fn compute_commitment(secret: &[u8; 32], side: bool) -> (r: [u8; 32])
    ensures
        r@ == commitment_digest(secret@, side),
{
    let b: u8 = if side {
        1
    } else {
        0
    };
    sha256_of_secret_and_byte(secret, b)
}

/// Bit-exact comparison of two 32-byte digests.
pub fn bytes32_eq(a: &[u8; 32], b: &[u8; 32]) -> (r: bool)
    ensures
        r == (a@ == b@),
{
    let mut i: usize = 0;
    while i < 32
        invariant
            i <= 32,
            forall|k: int| 0 <= k < i ==> a@[k] == b@[k],
        decreases 32 - i,
    {
        if a[i] != b[i] {
            return false;
        }
        i += 1;
    }
    proof {
        assert(a@ =~= b@);
    }
    true
}

} // verus!
